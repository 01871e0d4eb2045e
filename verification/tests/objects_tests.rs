use oats_framework::error::OatsError;
use oats_framework::objects::Object;
use oats_framework::strmap::StringMap;
use oats_framework::traits::{Trait, TraitData};

#[test]
fn test_object_creation() {
    let obj = Object::new("test_object".to_string(), "test_type".to_string());

    assert_eq!(obj.name(), "test_object");
    assert_eq!(obj.object_type(), "test_type");
    assert_eq!(obj.trait_count(), 0);
    assert!(!obj.has_any_traits());
}

#[test]
fn test_object_with_traits() {
    let trait1 = Trait::new("health".to_string(), TraitData::Number(100));
    let trait2 = Trait::new("position".to_string(), TraitData::Object(StringMap::new()));

    let obj = Object::with_traits(
        "player".to_string(),
        "character".to_string(),
        vec![trait1, trait2],
    );

    assert_eq!(obj.trait_count(), 2);
    assert!(obj.has_trait("health"));
    assert!(obj.has_trait("position"));
    assert!(!obj.has_trait("nonexistent"));
}

#[test]
fn test_add_remove_trait() {
    let mut obj = Object::new("test".to_string(), "type".to_string());
    let trait_obj = Trait::new("test_trait".to_string(), TraitData::String("value".to_string()));

    obj.add_trait(trait_obj);
    assert_eq!(obj.trait_count(), 1);
    assert!(obj.has_trait("test_trait"));

    let removed = obj.remove_trait("test_trait");
    assert!(removed.is_some());
    assert_eq!(obj.trait_count(), 0);
    assert!(!obj.has_trait("test_trait"));
}

#[test]
fn test_metadata() {
    let mut obj = Object::new("test".to_string(), "type".to_string());
    obj.set_metadata("key".to_string(), "value".to_string());

    assert_eq!(obj.get_metadata("key"), Some(&"value".to_string()));
    assert_eq!(obj.get_metadata("nonexistent"), None);
}

#[test]
fn test_trait_names_and_ids() {
    let trait1 = Trait::new("health".to_string(), TraitData::Number(100));
    let trait2 = Trait::new("position".to_string(), TraitData::Object(StringMap::new()));

    let obj = Object::with_traits(
        "player".to_string(),
        "character".to_string(),
        vec![trait1, trait2],
    );

    let names = obj.trait_names();
    assert_eq!(names.len(), 2);
    assert!(names.contains(&"health".to_string()));
    assert!(names.contains(&"position".to_string()));

    let ids = obj.trait_ids();
    assert_eq!(ids.len(), 2);
}

#[test]
fn test_add_trait_replaces_same_name() {
    let mut obj = Object::new("test".to_string(), "type".to_string());
    obj.add_trait(Trait::new("level".to_string(), TraitData::Number(1)));
    obj.add_trait(Trait::new("level".to_string(), TraitData::Number(2)));

    assert_eq!(obj.trait_count(), 1);
    let data = obj.get_trait_data("level").expect("trait present");
    assert_eq!(data.as_number(), Some(2));
}

#[test]
fn test_add_trait_get_trait_round_trip() {
    let mut obj = Object::new("o".to_string(), "t".to_string());
    let added = Trait::new("speed".to_string(), TraitData::Number(7));
    let expected = added.data.as_number();
    obj.add_trait(added);

    let found = obj.get_trait("speed").expect("trait just added");
    assert_eq!(found.data.as_number(), expected);
}

#[test]
fn test_has_traits_is_conjunction() {
    let mut obj = Object::new("o".to_string(), "t".to_string());
    obj.add_trait(Trait::new("a".to_string(), TraitData::Boolean(true)));
    obj.add_trait(Trait::new("b".to_string(), TraitData::Boolean(true)));

    assert!(obj.has_traits(&[]));
    assert!(obj.has_traits(&["a"]));
    assert!(obj.has_traits(&["a", "b"]));
    assert!(!obj.has_traits(&["a", "b", "c"]));
    assert!(!obj.has_traits(&["c"]));
}

#[test]
fn test_validate_required_traits_reports_all_missing() {
    let mut obj = Object::new("o".to_string(), "t".to_string());
    obj.add_trait(Trait::new("c".to_string(), TraitData::Number(0)));

    let err = obj
        .validate_required_traits(&["a", "b", "c"])
        .expect_err("two names are missing");
    match err {
        OatsError::TraitNotFound { trait_name } => {
            assert_eq!(trait_name, "Missing required traits: a, b");
        }
        other => panic!("unexpected error: {:?}", other),
    }
}

#[test]
fn test_validate_required_traits_ok_when_all_present() {
    let mut obj = Object::new("o".to_string(), "t".to_string());
    obj.add_trait(Trait::new("a".to_string(), TraitData::Number(0)));
    obj.add_trait(Trait::new("b".to_string(), TraitData::Number(0)));

    assert!(obj.validate_required_traits(&["a", "b"]).is_ok());
    assert!(obj.validate_required_traits(&[]).is_ok());
}

#[test]
fn test_updated_at_refreshes_on_mutation() {
    let mut obj = Object::new("o".to_string(), "t".to_string());
    let created = obj.created_at();
    assert_eq!(obj.updated_at(), created);

    obj.add_trait(Trait::new("a".to_string(), TraitData::Number(0)));
    assert!(obj.updated_at() >= created);

    let before_bulk = obj.updated_at();
    obj.add_traits_bulk(vec![Trait::new("b".to_string(), TraitData::Number(1))]);
    assert_eq!(obj.updated_at(), before_bulk);
    assert!(obj.has_trait("b"));
}

#[test]
fn test_get_trait_mut_updates_in_place() {
    let mut obj = Object::new("o".to_string(), "t".to_string());
    obj.add_trait(Trait::new("speed".to_string(), TraitData::Number(3)));

    {
        let t = obj.get_trait_mut("speed").expect("trait present");
        t.set_metadata("unit".to_string(), "m/s".to_string());
    }
    {
        let d = obj.get_trait_data_mut("speed").expect("trait present");
        *d = TraitData::Number(4);
    }
    assert!(obj.get_trait_mut("missing").is_none());

    let t = obj.get_trait("speed").expect("trait present");
    assert_eq!(t.data.as_number(), Some(4));
    assert_eq!(t.get_metadata("unit"), Some(&"m/s".to_string()));
}

#[test]
fn test_is_valid() {
    let obj = Object::new("name".to_string(), "type".to_string());
    assert!(obj.is_valid());
    let anon = Object::new("".to_string(), "type".to_string());
    assert!(!anon.is_valid());
}

#[test]
fn test_object_equality_is_by_identity() {
    let a = Object::new("same".to_string(), "type".to_string());
    let b = Object::new("same".to_string(), "type".to_string());
    let a2 = a.clone();
    assert_eq!(a, a2);
    assert_ne!(a, b);
}
