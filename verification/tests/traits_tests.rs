use oats_framework::strmap::StringMap;
use oats_framework::traits::{Trait, TraitData};

#[test]
fn test_trait_creation() {
    let trait_data = TraitData::String("test".to_string());
    let trait_obj = Trait::new("test_trait".to_string(), trait_data);

    assert_eq!(trait_obj.name(), "test_trait");
    assert_eq!(trait_obj.version, 1);
    assert!(trait_obj.data.is_string());
}

#[test]
fn test_trait_data_methods() {
    let string_data = TraitData::String("hello".to_string());
    let number_data = TraitData::Number(42);
    let bool_data = TraitData::Boolean(true);

    assert!(string_data.is_string());
    assert!(number_data.is_number());
    assert!(bool_data.is_boolean());

    assert_eq!(string_data.as_string(), Some(&"hello".to_string()));
    assert_eq!(number_data.as_number(), Some(42));
    assert_eq!(bool_data.as_boolean(), Some(true));
}

#[test]
fn test_trait_metadata() {
    let mut trait_obj = Trait::new("test".to_string(), TraitData::String("value".to_string()));
    trait_obj.set_metadata("key".to_string(), "value".to_string());

    assert_eq!(trait_obj.get_metadata("key"), Some(&"value".to_string()));
    assert_eq!(trait_obj.get_metadata("nonexistent"), None);
}

#[test]
fn test_trait_data_variants() {
    let obj_data = TraitData::Object(StringMap::new());
    let arr_data = TraitData::Array(Vec::new());
    let bin_data = TraitData::Binary(vec![1u8, 2, 3]);

    assert!(obj_data.is_object());
    assert!(!obj_data.is_array());
    assert!(arr_data.is_array());
    assert!(bin_data.is_binary());
    assert_eq!(bin_data.as_binary(), Some(&vec![1u8, 2, 3]));
    assert!(bin_data.as_number().is_none());
    assert!(arr_data.as_string().is_none());
}

#[test]
fn test_trait_data_clone_keeps_structured_payload() {
    let mut map: StringMap<serde_json::Value> = StringMap::new();
    map.insert("x".to_string(), serde_json::Value::String("y".to_string()));
    let data = TraitData::Object(map);
    let copy = data.clone();
    let copied_map = copy.as_object().expect("clone keeps the variant");
    assert_eq!(copied_map.len(), 1);
    assert_eq!(
        copied_map.get("x"),
        Some(&serde_json::Value::String("y".to_string()))
    );
}

#[test]
fn test_new_version_increments_twice() {
    let original = Trait::new("counter".to_string(), TraitData::Number(1));
    let second = original.new_version(TraitData::Number(2));
    let third = second.new_version(TraitData::Number(3));

    assert_eq!(original.version, 1);
    assert_eq!(second.version, 2);
    assert_eq!(third.version, 3);
    assert_ne!(original.id, second.id);
    assert_ne!(second.id, third.id);
    assert_ne!(original.id, third.id);
    assert_eq!(second.name(), "counter");
    assert_eq!(third.name(), "counter");
    assert_eq!(original.data.as_number(), Some(1));
}

#[test]
fn test_new_version_keeps_metadata() {
    let mut original = Trait::new("t".to_string(), TraitData::Boolean(false));
    original.set_metadata("source".to_string(), "sensor".to_string());
    let next = original.new_version(TraitData::Boolean(true));
    assert_eq!(next.get_metadata("source"), Some(&"sensor".to_string()));
    assert_eq!(next.data.as_boolean(), Some(true));
}
