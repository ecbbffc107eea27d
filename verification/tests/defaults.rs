use nova::defaults::{CoreDefaultAssets, DefaultAssets, DefaultAssetsKey};
use nova::handle::Asset;
use nova::nova2d::{CircleMaterial, Nova2dDefaults};
use nova::storage::AssetStorage;

struct Image;
impl Asset for Image {}

#[test]
fn key_text_names_the_key_type_and_the_name() {
    let key = CoreDefaultAssets::WhiteTexture.key();
    assert!(key.starts_with("Type_"));
    assert!(key.ends_with(":WhiteTexture"));
    let expected = format!("Type_{:?}:WhiteTexture", std::any::TypeId::of::<CoreDefaultAssets>());
    assert_eq!(key, expected);
}

#[test]
fn keys_of_different_key_types_differ() {
    let core = CoreDefaultAssets::WhiteTexture.key();
    let two_d = Nova2dDefaults::WhiteTexture.key();
    assert_ne!(core, two_d);
}

#[test]
fn key_names() {
    assert_eq!(CoreDefaultAssets::WhiteTexture.as_str(), "WhiteTexture");
    assert_eq!(Nova2dDefaults::WhiteTexture.as_str(), "WhiteTexture");
    assert_eq!(Nova2dDefaults::DefaultSpriteMaterial.as_str(), "DefaultSpriteMaterial");
    assert_eq!(Nova2dDefaults::DefaultCircleMaterial.as_str(), "DefaultCircleMaterial");
}

#[test]
fn registered_default_is_found_by_its_key() {
    let mut storage = AssetStorage::new();
    let handle = storage.insert(Image);
    let weak = handle.weak();
    let mut defaults = DefaultAssets::new();
    assert!(defaults.insert(CoreDefaultAssets::WhiteTexture, handle, "Image", "CoreDefaultAssets").is_ok());
    let found = defaults.get::<Image, _>(CoreDefaultAssets::WhiteTexture).unwrap();
    assert!(found == weak);
}

#[test]
fn default_of_another_type_is_not_found() {
    let mut storage = AssetStorage::new();
    let handle = storage.insert(Image);
    let mut defaults = DefaultAssets::new();
    assert!(defaults.insert(CoreDefaultAssets::WhiteTexture, handle, "Image", "CoreDefaultAssets").is_ok());
    assert!(defaults.get::<CircleMaterial, _>(CoreDefaultAssets::WhiteTexture).is_none());
    assert!(defaults.get::<Image, _>(Nova2dDefaults::WhiteTexture).is_none());
}

#[test]
fn registering_a_taken_key_replaces_it_and_reports_the_duplicate() {
    let mut storage = AssetStorage::new();
    let first = storage.insert(Image);
    let second = storage.insert(Image);
    let second_weak = second.weak();
    let mut defaults = DefaultAssets::new();
    assert!(defaults.insert(Nova2dDefaults::DefaultSpriteMaterial, first, "Image", "Nova2dDefaults").is_ok());
    let err = defaults
        .insert(Nova2dDefaults::DefaultSpriteMaterial, second, "Image", "Nova2dDefaults")
        .unwrap_err();
    assert_eq!(err.asset_name, "Image");
    assert_eq!(err.key_name, "Nova2dDefaults:DefaultSpriteMaterial");
    let found = defaults.get::<Image, _>(Nova2dDefaults::DefaultSpriteMaterial).unwrap();
    assert!(found == second_weak);
}

#[test]
fn keyed_registry_reports_taken_keys() {
    let mut storage = AssetStorage::new();
    let a = storage.insert(Image).into_generic();
    let a_weak = a.weak();
    let b = storage.insert(Image).into_generic();
    let b_weak = b.weak();
    let mut defaults = DefaultAssets::new();
    let key = "Type_x:name".to_string();
    assert!(defaults.get_keyed(&key).is_none());
    assert!(!defaults.insert_keyed(key.clone(), a));
    assert_eq!(defaults.get_keyed(&key).map(|g| g.weak()), Some(a_weak));
    assert!(defaults.insert_keyed(key.clone(), b));
    assert_eq!(defaults.get_keyed(&key).map(|g| g.weak()), Some(b_weak));
    assert!(defaults.get_keyed(&"other".to_string()).is_none());
}

#[test]
fn circle_material_is_constructed_by_default() {
    let _material: CircleMaterial = Default::default();
    let _other = CircleMaterial::new();
}

#[test]
fn key_text_joins_prefix_type_and_name() {
    let id = std::any::TypeId::of::<u8>();
    assert_eq!(nova::defaults::default_key_text(id, "White"), format!("Type_{:?}:White", id));
}
