use oats_framework::error::OatsError;

#[test]
fn test_error_messages() {
    assert_eq!(
        OatsError::object_not_found("42".to_string()).message(),
        "Object not found: 42"
    );
    assert_eq!(
        OatsError::trait_not_found("health".to_string()).message(),
        "Trait not found: health"
    );
    assert_eq!(
        OatsError::action_failed("boom".to_string()).message(),
        "Action failed: boom"
    );
    assert_eq!(
        OatsError::system_error("down".to_string()).message(),
        "System error: down"
    );
    assert_eq!(
        OatsError::invalid_state("odd".to_string()).message(),
        "Invalid state: odd"
    );
    assert_eq!(
        OatsError::validation_error("bad".to_string()).message(),
        "Validation error: bad"
    );
    assert_eq!(
        OatsError::resource_exhausted("full".to_string()).message(),
        "Resource exhausted: full"
    );
    assert_eq!(
        OatsError::timeout_error("late".to_string()).message(),
        "Timeout error: late"
    );
    assert_eq!(
        OatsError::unknown("what".to_string()).message(),
        "Unknown error: what"
    );
    assert_eq!(
        (OatsError::SerializationError { message: "json".to_string() }).message(),
        "Serialization error: json"
    );
    assert_eq!(
        (OatsError::IoError { message: "disk".to_string() }).message(),
        "IO error: disk"
    );
}

#[test]
fn test_error_classification() {
    let recoverable = [
        OatsError::object_not_found("x".to_string()),
        OatsError::trait_not_found("x".to_string()),
        OatsError::validation_error("x".to_string()),
        OatsError::timeout_error("x".to_string()),
    ];
    for e in recoverable.iter() {
        assert!(e.is_recoverable());
        assert!(!e.is_fatal());
    }

    let fatal = [
        OatsError::resource_exhausted("x".to_string()),
        OatsError::invalid_state("x".to_string()),
        OatsError::system_error("x".to_string()),
    ];
    for e in fatal.iter() {
        assert!(e.is_fatal());
        assert!(!e.is_recoverable());
    }

    let neither = [
        OatsError::action_failed("x".to_string()),
        OatsError::unknown("x".to_string()),
        OatsError::SerializationError { message: "x".to_string() },
        OatsError::IoError { message: "x".to_string() },
    ];
    for e in neither.iter() {
        assert!(!e.is_fatal());
        assert!(!e.is_recoverable());
    }
}
