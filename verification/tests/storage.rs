use std::any::TypeId;

use nova::error::AssetError;
use nova::handle::{Asset, WeakGenericHandle};
use nova::storage::{AssetMutState, AssetState, AssetStorage};

#[derive(Debug, PartialEq)]
struct Texture {
    width: u32,
}

impl Asset for Texture {}

fn texture(width: u32) -> Texture {
    Texture { width }
}

#[test]
fn insert_then_get_returns_the_asset() {
    let mut storage = AssetStorage::new();
    assert!(storage.can_reserve());
    let handle = storage.insert(texture(64));
    match storage.get(handle.weak()) {
        AssetState::Ready(t) => assert_eq!(t.width, 64),
        _ => panic!("inserted asset is not ready"),
    }
    assert_eq!(storage.get(handle.weak()).get().map(|t| t.width), Some(64));
}

#[test]
fn first_slots_are_appended_with_generation_zero() {
    let mut storage = AssetStorage::new();
    let a = storage.insert(texture(1)).weak().into_generic();
    let b = storage.insert(texture(2)).weak().into_generic();
    assert_eq!((a.index, a.generation), (0, 0));
    assert_eq!((b.index, b.generation), (1, 0));
}

#[test]
fn reserved_slot_is_loading_until_completed() {
    let mut storage = AssetStorage::<Texture>::new();
    let handle = storage.reserve_for_load();
    let weak = handle.weak().into_generic();
    assert!(matches!(storage.get(handle.weak()), AssetState::Loading));
    assert!(storage.get(handle.weak()).get().is_none());
    assert!(storage.complete_load(weak.index, weak.generation, texture(8)));
    match storage.get(handle.weak()) {
        AssetState::Ready(t) => assert_eq!(t.width, 8),
        _ => panic!("completed load is not ready"),
    }
    // A slot that is no longer loading is not completed again.
    assert!(!storage.complete_load(weak.index, weak.generation, texture(9)));
    assert_eq!(storage.get(handle.weak()).get().map(|t| t.width), Some(8));
}

#[test]
fn complete_load_with_wrong_generation_or_index_does_nothing() {
    let mut storage = AssetStorage::<Texture>::new();
    let handle = storage.reserve_for_load();
    assert!(!storage.complete_load(0, 1, texture(3)));
    assert!(!storage.complete_load(7, 0, texture(3)));
    assert!(matches!(storage.get(handle.weak()), AssetState::Loading));
}

#[test]
fn failed_load_keeps_its_slot_and_generation() {
    let mut storage = AssetStorage::<Texture>::new();
    let handle = storage.reserve_for_load();
    let weak = handle.weak().into_generic();
    let error = AssetError::LoadingError("bad header".to_string());
    assert!(storage.set_failed(weak.index, weak.generation, error));
    match storage.get(handle.weak()) {
        AssetState::Failed(AssetError::LoadingError(msg)) => assert_eq!(msg, "bad header"),
        _ => panic!("failed load is not reported as failed"),
    }
    // Only a loading slot can fail.
    let again = AssetError::LoadingError("again".to_string());
    assert!(!storage.set_failed(weak.index, weak.generation, again));
}

#[test]
fn io_error_converts_into_asset_error() {
    let io = std::io::Error::new(std::io::ErrorKind::NotFound, "missing");
    let error: AssetError = io.into();
    match error {
        AssetError::IoError(inner) => assert_eq!(inner.kind(), std::io::ErrorKind::NotFound),
        _ => panic!("io error converted into another variant"),
    }
}

#[test]
fn get_mut_changes_the_stored_asset() {
    let mut storage = AssetStorage::new();
    let handle = storage.insert(texture(10));
    match storage.get_mut(handle.weak()) {
        AssetMutState::Ready(t) => t.width = 20,
        _ => panic!("inserted asset is not ready"),
    }
    assert_eq!(storage.get(handle.weak()).get().map(|t| t.width), Some(20));
}

#[test]
fn out_of_range_handle_resolves_to_empty() {
    let storage = AssetStorage::<Texture>::new();
    let stray = WeakGenericHandle { index: 5, generation: 0, type_id: TypeId::of::<Texture>() };
    let weak = stray.try_into_handle::<Texture>().unwrap();
    assert!(matches!(storage.get(weak), AssetState::Empty));
}

#[test]
fn cleanup_offloads_only_unreferenced_ready_assets() {
    let mut storage = AssetStorage::new();
    let kept = storage.insert(texture(1));
    let dropped = storage.insert(texture(2));
    let dropped_weak = dropped.weak();
    drop(dropped);
    assert_eq!(storage.cleanup_offloaded(), 1);
    assert!(matches!(storage.get(dropped_weak), AssetState::Empty));
    assert_eq!(storage.get(kept.weak()).get().map(|t| t.width), Some(1));
    // Nothing is left to off-load.
    assert_eq!(storage.cleanup_offloaded(), 0);
}

#[test]
fn cloned_handle_keeps_the_asset_alive() {
    let mut storage = AssetStorage::new();
    let handle = storage.insert(texture(3));
    let clone = handle.clone();
    let weak = handle.weak();
    drop(handle);
    assert_eq!(storage.cleanup_offloaded(), 0);
    assert!(storage.get(weak).get().is_some());
    drop(clone);
    assert_eq!(storage.cleanup_offloaded(), 1);
    assert!(storage.get(weak).get().is_none());
}

#[test]
fn generic_handle_keeps_the_asset_alive() {
    let mut storage = AssetStorage::new();
    let handle = storage.insert(texture(4));
    let weak = handle.weak();
    let generic = handle.into_generic();
    assert_eq!(storage.cleanup_offloaded(), 0);
    drop(generic);
    assert_eq!(storage.cleanup_offloaded(), 1);
    assert!(matches!(storage.get(weak), AssetState::Empty));
}

#[test]
fn cleanup_leaves_loading_and_failed_slots() {
    let mut storage = AssetStorage::<Texture>::new();
    let loading = storage.reserve_for_load();
    let failing = storage.reserve_for_load();
    let loading_weak = loading.weak();
    let failing_weak = failing.weak();
    let f = failing_weak.into_generic();
    assert!(storage.set_failed(f.index, f.generation, AssetError::LoadingError("x".to_string())));
    drop(loading);
    drop(failing);
    assert_eq!(storage.cleanup_offloaded(), 0);
    assert!(matches!(storage.get(loading_weak), AssetState::Loading));
    assert!(matches!(storage.get(failing_weak), AssetState::Failed(_)));
}

#[test]
fn recycled_slot_is_reused_with_the_next_generation() {
    let mut storage = AssetStorage::new();
    let first = storage.insert(texture(1));
    let stale = first.weak();
    drop(first);
    assert_eq!(storage.cleanup_offloaded(), 1);
    let second = storage.insert(texture(2));
    let g = second.weak().into_generic();
    assert_eq!((g.index, g.generation), (0, 1));
    // The old handle does not see the new asset.
    assert!(matches!(storage.get(stale), AssetState::Empty));
    assert_eq!(storage.get(second.weak()).get().map(|t| t.width), Some(2));
}

#[test]
fn most_recently_freed_slot_is_reused_first() {
    let mut storage = AssetStorage::new();
    let a = storage.insert(texture(1));
    let b = storage.insert(texture(2));
    let c = storage.insert(texture(3));
    drop(a);
    drop(b);
    drop(c);
    assert_eq!(storage.cleanup_offloaded(), 3);
    // The sweep runs from slot 0 upwards, so slot 2 was freed last.
    let next = storage.insert(texture(4)).weak().into_generic();
    assert_eq!((next.index, next.generation), (2, 1));
    let after = storage.insert(texture(5)).weak().into_generic();
    assert_eq!((after.index, after.generation), (1, 1));
}

#[test]
fn image_error_converts_into_asset_error() {
    let limits = image::error::LimitError::from_kind(image::error::LimitErrorKind::DimensionError);
    let error: AssetError = image::ImageError::Limits(limits).into();
    match error {
        AssetError::ImageError(inner) => assert!(matches!(*inner, image::ImageError::Limits(_))),
        _ => panic!("image error converted into another variant"),
    }
}

#[test]
fn cloned_asset_error_keeps_its_cause() {
    let error = AssetError::LoadingError("truncated".to_string());
    match error.clone() {
        AssetError::LoadingError(msg) => assert_eq!(msg, "truncated"),
        _ => panic!("clone changed the variant"),
    }
}

#[test]
fn mutable_state_gives_access_only_to_ready_assets() {
    let mut storage = AssetStorage::new();
    let ready = storage.insert(texture(5));
    let loading = storage.reserve_for_load();
    let mut state = storage.get_mut(ready.weak());
    match state.get_mut() {
        Some(t) => t.width = 50,
        None => panic!("ready asset is not accessible"),
    }
    assert_eq!(storage.get(ready.weak()).get().map(|t| t.width), Some(50));
    let mut state = storage.get_mut(loading.weak());
    assert!(state.get_mut().is_none());
}

#[test]
fn offload_follows_the_given_counts() {
    let mut storage = AssetStorage::new();
    let a = storage.insert(texture(1));
    let b = storage.insert(texture(2));
    let c = storage.reserve_for_load();
    // Slot 0 is held by its slot only, slot 1 by two, slot 2 is loading.
    assert_eq!(storage.offload_unreferenced(&[1, 2, 1]), 1);
    assert!(matches!(storage.get(a.weak()), AssetState::Empty));
    assert_eq!(storage.get(b.weak()).get().map(|t| t.width), Some(2));
    assert!(matches!(storage.get(c.weak()), AssetState::Loading));
    let next = storage.insert(texture(3)).weak().into_generic();
    assert_eq!((next.index, next.generation), (0, 1));
}

#[test]
fn swept_slots_are_reused_last_first() {
    let mut storage = AssetStorage::new();
    storage.insert(texture(1));
    storage.insert(texture(2));
    storage.insert(texture(3));
    // Slots 0 and 2 are held by their slots only; slot 1 is still referenced.
    assert_eq!(storage.offload_unreferenced(&[1, 2, 1]), 2);
    let first = storage.reserve_for_load().weak().into_generic();
    let second = storage.reserve_for_load().weak().into_generic();
    let third = storage.reserve_for_load().weak().into_generic();
    assert_eq!((first.index, first.generation), (2, 1));
    assert_eq!((second.index, second.generation), (0, 1));
    assert_eq!((third.index, third.generation), (3, 0));
}

#[test]
fn second_offload_with_the_same_counts_offloads_nothing() {
    let mut storage = AssetStorage::new();
    storage.insert(texture(1));
    storage.insert(texture(2));
    assert_eq!(storage.offload_unreferenced(&[1, 2]), 1);
    assert_eq!(storage.offload_unreferenced(&[1, 2]), 0);
}
