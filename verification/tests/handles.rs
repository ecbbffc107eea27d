use std::any::TypeId;
use std::collections::HashSet;

use nova::handle::{Asset, WeakGenericHandle};
use nova::storage::AssetStorage;

struct Mesh;
impl Asset for Mesh {}

struct Sound;
impl Asset for Sound {}

#[test]
fn weak_generic_handle_converts_back_to_its_own_type() {
    let generic = WeakGenericHandle { index: 3, generation: 7, type_id: TypeId::of::<Mesh>() };
    let typed = generic.try_into_handle::<Mesh>().unwrap();
    let back = typed.into_generic();
    assert_eq!(back, generic);
    assert_eq!((back.index, back.generation), (3, 7));
}

#[test]
fn weak_generic_handle_refuses_another_type() {
    let generic = WeakGenericHandle { index: 3, generation: 7, type_id: TypeId::of::<Mesh>() };
    assert!(generic.try_into_handle::<Sound>().is_err());
}

#[test]
fn into_generic_records_the_asset_type() {
    let mut storage = AssetStorage::new();
    let handle = storage.insert(Mesh);
    let weak = handle.weak().into_generic();
    assert_eq!(weak.type_id, TypeId::of::<Mesh>());
    let generic = handle.into_generic();
    assert_eq!(generic.type_id, TypeId::of::<Mesh>());
    assert_eq!(generic.weak(), weak);
}

#[test]
fn generic_handle_converts_back_only_to_its_own_type() {
    let mut storage = AssetStorage::new();
    let handle = storage.insert(Mesh);
    let expected = handle.weak();
    let generic = handle.into_generic();
    let wrong = generic.clone().try_into_handle::<Sound>();
    assert!(wrong.is_err());
    let typed = generic.try_into_handle::<Mesh>().unwrap();
    assert!(typed.weak() == expected);
}

#[test]
fn checked_handle_compares_with_the_given_type_id() {
    let generic = WeakGenericHandle { index: 0, generation: 0, type_id: TypeId::of::<Sound>() };
    assert!(generic.checked_handle::<Mesh>(TypeId::of::<Sound>()).is_ok());
    assert!(generic.checked_handle::<Mesh>(TypeId::of::<Mesh>()).is_err());
}

#[test]
fn handle_equality_is_by_slot_and_generation() {
    let mut storage = AssetStorage::new();
    let a = storage.insert(Mesh);
    let b = storage.insert(Mesh);
    assert!(a == a.clone());
    assert!(a != b);
    assert!(a.weak() == a.weak());
    assert!(a.weak() != b.weak());
    let ga = a.into_generic();
    assert!(ga == ga.clone());
}

#[test]
fn generic_handles_of_different_types_differ() {
    let mesh = WeakGenericHandle { index: 1, generation: 2, type_id: TypeId::of::<Mesh>() };
    let sound = WeakGenericHandle { index: 1, generation: 2, type_id: TypeId::of::<Sound>() };
    assert_ne!(mesh, sound);
}

#[test]
fn typed_handles_hash_and_order_by_slot() {
    let mut storage = AssetStorage::new();
    let a = storage.insert(Mesh);
    let b = storage.insert(Mesh);
    let mut set = HashSet::new();
    set.insert(a.weak());
    set.insert(a.weak());
    set.insert(b.weak());
    assert_eq!(set.len(), 2);
    assert!(a.weak() < b.weak());
    assert!(a < b);
    assert_eq!(a.weak().partial_cmp(&a.weak()), Some(std::cmp::Ordering::Equal));
    let mut owned = HashSet::new();
    owned.insert(a.clone());
    owned.insert(a);
    assert_eq!(owned.len(), 1);
    let generic = b.into_generic();
    let mut generics = HashSet::new();
    generics.insert(generic.clone());
    generics.insert(generic);
    assert_eq!(generics.len(), 1);
}

#[test]
fn same_slot_with_a_later_generation_orders_after() {
    let older = WeakGenericHandle { index: 4, generation: 1, type_id: TypeId::of::<Mesh>() }
        .try_into_handle::<Mesh>()
        .unwrap();
    let newer = WeakGenericHandle { index: 4, generation: 2, type_id: TypeId::of::<Mesh>() }
        .try_into_handle::<Mesh>()
        .unwrap();
    let other = WeakGenericHandle { index: 3, generation: 9, type_id: TypeId::of::<Mesh>() }
        .try_into_handle::<Mesh>()
        .unwrap();
    assert!(older < newer);
    assert!(other < older);
}
