use oats_framework::actions::{Action, ActionContext, ActionResult};
use oats_framework::error::OatsError;
use oats_framework::health::TestIncrementAction;
use oats_framework::objects::Object;
use oats_framework::traits::{Trait, TraitData};

#[test]
fn test_action_context() {
    let mut context = ActionContext::new();
    let test_object = Object::new("test".to_string(), "type".to_string());

    context.add_object("test_obj".to_string(), test_object);
    context.add_parameter(
        "param".to_string(),
        serde_json::Value::String("value".to_string()),
    );
    context.add_metadata("key".to_string(), "value".to_string());

    assert!(context.get_object("test_obj").is_some());
    assert!(context.get_parameter("param").is_some());
    assert_eq!(context.get_metadata("key"), Some(&"value".to_string()));
}

#[test]
fn test_action_result() {
    let mut result = ActionResult::success();
    result.add_message("Test message".to_string());
    result.add_data(
        "key".to_string(),
        serde_json::Value::String("value".to_string()),
    );

    assert!(result.is_success());
    assert_eq!(result.messages.len(), 1);
    assert_eq!(result.data.len(), 1);
}

#[test]
fn test_action_context_counts_and_clears() {
    let mut context = ActionContext::with_capacity(2, 2);
    context.add_object(
        "a".to_string(),
        Object::new("a".to_string(), "t".to_string()),
    );
    context.add_object(
        "b".to_string(),
        Object::new("b".to_string(), "t".to_string()),
    );
    context.add_parameter("p".to_string(), serde_json::Value::Bool(true));
    assert_eq!(context.object_count(), 2);
    assert_eq!(context.parameter_count(), 1);
    assert_eq!(context.metadata_count(), 0);

    let picked = context.get_objects(&["a", "missing"]);
    assert_eq!(picked.len(), 1);
    assert!(picked.get("a").is_some());

    context.clear_objects();
    context.clear_parameters();
    assert_eq!(context.object_count(), 0);
    assert_eq!(context.parameter_count(), 0);
}

#[test]
fn test_action_result_failure_carries_message() {
    let result = ActionResult::failure("it broke".to_string());
    assert!(result.is_failure());
    assert_eq!(result.message_count(), 1);
    assert_eq!(result.messages[0], "it broke");
    assert_eq!(result.trait_update_count(), 0);
}

#[test]
fn test_increment_action_scenario() {
    let mut player = Object::new("player_1".to_string(), "character".to_string());
    player.add_trait(Trait::new("health".to_string(), TraitData::Number(100)));

    let action = TestIncrementAction::new("health".to_string(), -10);
    let mut context = ActionContext::new();
    context.add_object("target".to_string(), player);

    let result = action.execute(context).expect("the action succeeds");
    assert!(result.is_success());
    assert_eq!(result.trait_updates.len(), 1);
    assert_eq!(result.trait_updates[0].name(), "health");
    assert_eq!(result.trait_updates[0].data.as_number(), Some(90));
    assert_eq!(result.messages.len(), 1);
    assert!(result.messages[0].contains("90"));
    assert_eq!(result.messages[0], "Incremented health from 100 to 90");
}

#[test]
fn test_increment_action_missing_target() {
    let action = TestIncrementAction::new("health".to_string(), 1);
    let context = ActionContext::new();
    let err = action.execute(context).expect_err("no target present");
    match err {
        OatsError::ActionFailed { message } => assert_eq!(message, "Target object not found"),
        other => panic!("unexpected error: {:?}", other),
    }
}

#[test]
fn test_increment_action_missing_trait() {
    let action = TestIncrementAction::new("health".to_string(), 1);
    let mut context = ActionContext::new();
    context.add_object(
        "target".to_string(),
        Object::new("o".to_string(), "t".to_string()),
    );
    let err = action.execute(context).expect_err("no health trait");
    match err {
        OatsError::TraitNotFound { trait_name } => assert_eq!(trait_name, "health"),
        other => panic!("unexpected error: {:?}", other),
    }
}

#[test]
fn test_increment_action_non_numeric_trait() {
    let action = TestIncrementAction::new("health".to_string(), 1);
    let mut obj = Object::new("o".to_string(), "t".to_string());
    obj.add_trait(Trait::new(
        "health".to_string(),
        TraitData::String("full".to_string()),
    ));
    let mut context = ActionContext::new();
    context.add_object("target".to_string(), obj);
    let err = action.execute(context).expect_err("trait is a string");
    match err {
        OatsError::ActionFailed { message } => assert_eq!(message, "Trait is not numeric"),
        other => panic!("unexpected error: {:?}", other),
    }
}

#[test]
fn test_increment_action_overflow() {
    let action = TestIncrementAction::new("health".to_string(), 1);
    let mut obj = Object::new("o".to_string(), "t".to_string());
    obj.add_trait(Trait::new("health".to_string(), TraitData::Number(i64::MAX)));
    let mut context = ActionContext::new();
    context.add_object("target".to_string(), obj);
    let err = action.execute(context).expect_err("the sum does not fit");
    match err {
        OatsError::ActionFailed { message } => assert_eq!(message, "Numeric result out of range"),
        other => panic!("unexpected error: {:?}", other),
    }
}

#[test]
fn test_increment_action_names() {
    let action = TestIncrementAction::new("health".to_string(), 1);
    assert_eq!(action.name(), "test_increment");
    assert_eq!(action.required_traits(), vec!["health".to_string()]);
    assert!(action.optional_traits().is_empty());
}
