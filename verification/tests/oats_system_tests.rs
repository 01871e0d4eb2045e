use oats_framework::health::{TestHealthSystem, TestIncrementAction};
use oats_framework::objects::Object;
use oats_framework::OatsSystem;

type Core = OatsSystem<TestIncrementAction, TestHealthSystem>;

#[test]
fn test_oats_system_creation() {
    let system: Core = OatsSystem::new();
    assert_eq!(system.object_count(), 0);
    assert_eq!(system.action_count(), 0);
    assert_eq!(system.system_count(), 0);
}

#[test]
fn test_oats_system_with_capacity() {
    let system: Core = OatsSystem::with_capacity(100, 10, 5);
    assert_eq!(system.object_count(), 0);
    assert_eq!(system.action_count(), 0);
    assert_eq!(system.system_count(), 0);
}

#[test]
fn test_oats_system_operations() {
    let mut system: Core = OatsSystem::new();

    let obj = Object::new("test".to_string(), "type".to_string());
    system.add_object(obj);
    assert_eq!(system.object_count(), 1);

    let objects = vec![
        Object::new("obj1".to_string(), "type".to_string()),
        Object::new("obj2".to_string(), "type".to_string()),
    ];
    system.add_objects(objects);
    assert_eq!(system.object_count(), 3);

    system.reserve_objects(100);
    assert!(system.objects().capacity() >= 103);
}

#[test]
fn test_oats_system_collects_parts() {
    let mut system: Core = OatsSystem::new();
    system.add_action(TestIncrementAction::new("health".to_string(), 5));
    system.add_system(TestHealthSystem::new());
    assert_eq!(system.action_count(), 1);
    assert_eq!(system.system_count(), 1);
    assert_eq!(system.actions()[0].increment, 5);

    system.clear_actions();
    system.clear_systems();
    assert_eq!(system.action_count(), 0);
    assert_eq!(system.system_count(), 0);
}
