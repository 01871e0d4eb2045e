//! The error taxonomy of the runtime.
//!
//! Object-not-found, trait-not-found, validation and timeout errors are
//! recoverable: the caller may retry or degrade gracefully. Resource
//! exhaustion, invalid state and system errors are fatal: the caller
//! should treat the surrounding operation as unsalvageable.

use vstd::prelude::*;
use crate::text::concat_str;

verus! {

#[derive(Debug)]
pub enum OatsError {
    ObjectNotFound { id: String },
    TraitNotFound { trait_name: String },
    ActionFailed { message: String },
    SystemError { message: String },
    InvalidState { message: String },
    ValidationError { message: String },
    ResourceExhausted { message: String },
    TimeoutError { message: String },
    SerializationError { message: String },
    IoError { message: String },
    Unknown { message: String },
}

impl OatsError {
    pub fn object_not_found(id: String) -> (r: Self)
        ensures
            r == (OatsError::ObjectNotFound { id }),
    {
        OatsError::ObjectNotFound { id }
    }

    pub fn trait_not_found(trait_name: String) -> (r: Self)
        ensures
            r == (OatsError::TraitNotFound { trait_name }),
    {
        OatsError::TraitNotFound { trait_name }
    }

    pub fn action_failed(message: String) -> (r: Self)
        ensures
            r == (OatsError::ActionFailed { message }),
    {
        OatsError::ActionFailed { message }
    }

    pub fn system_error(message: String) -> (r: Self)
        ensures
            r == (OatsError::SystemError { message }),
    {
        OatsError::SystemError { message }
    }

    pub fn invalid_state(message: String) -> (r: Self)
        ensures
            r == (OatsError::InvalidState { message }),
    {
        OatsError::InvalidState { message }
    }

    pub fn unknown(message: String) -> (r: Self)
        ensures
            r == (OatsError::Unknown { message }),
    {
        OatsError::Unknown { message }
    }

    pub fn validation_error(message: String) -> (r: Self)
        ensures
            r == (OatsError::ValidationError { message }),
    {
        OatsError::ValidationError { message }
    }

    pub fn resource_exhausted(message: String) -> (r: Self)
        ensures
            r == (OatsError::ResourceExhausted { message }),
    {
        OatsError::ResourceExhausted { message }
    }

    pub fn timeout_error(message: String) -> (r: Self)
        ensures
            r == (OatsError::TimeoutError { message }),
    {
        OatsError::TimeoutError { message }
    }

    /// Whether a caller may retry or degrade gracefully after this error.
    pub open spec fn spec_recoverable(&self) -> bool {
        self is ObjectNotFound || self is TraitNotFound || self is ValidationError
            || self is TimeoutError
    }

    /// Whether the surrounding operation is unsalvageable.
    pub open spec fn spec_fatal(&self) -> bool {
        self is ResourceExhausted || self is InvalidState || self is SystemError
    }

    pub fn is_recoverable(&self) -> (r: bool)
        ensures
            r == self.spec_recoverable(),
    {
        match self {
            OatsError::ObjectNotFound { .. } => true,
            OatsError::TraitNotFound { .. } => true,
            OatsError::ValidationError { .. } => true,
            OatsError::TimeoutError { .. } => true,
            _ => false,
        }
    }

    pub fn is_fatal(&self) -> (r: bool)
        ensures
            r == self.spec_fatal(),
    {
        match self {
            OatsError::ResourceExhausted { .. } => true,
            OatsError::InvalidState { .. } => true,
            OatsError::SystemError { .. } => true,
            _ => false,
        }
    }

    /// The human-readable rendering of this error: a fixed prefix naming
    /// the kind, followed by the carried identifier or message.
    pub open spec fn spec_message(&self) -> Seq<char> {
        match self {
            OatsError::ObjectNotFound { id } => "Object not found: "@ + id@,
            OatsError::TraitNotFound { trait_name } => "Trait not found: "@ + trait_name@,
            OatsError::ActionFailed { message } => "Action failed: "@ + message@,
            OatsError::SystemError { message } => "System error: "@ + message@,
            OatsError::InvalidState { message } => "Invalid state: "@ + message@,
            OatsError::ValidationError { message } => "Validation error: "@ + message@,
            OatsError::ResourceExhausted { message } => "Resource exhausted: "@ + message@,
            OatsError::TimeoutError { message } => "Timeout error: "@ + message@,
            OatsError::SerializationError { message } => "Serialization error: "@ + message@,
            OatsError::IoError { message } => "IO error: "@ + message@,
            OatsError::Unknown { message } => "Unknown error: "@ + message@,
        }
    }

    pub fn message(&self) -> (r: String)
        ensures
            r@ == self.spec_message(),
    {
        match self {
            OatsError::ObjectNotFound { id } => concat_str("Object not found: ", id),
            OatsError::TraitNotFound { trait_name } => concat_str("Trait not found: ", trait_name),
            OatsError::ActionFailed { message } => concat_str("Action failed: ", message),
            OatsError::SystemError { message } => concat_str("System error: ", message),
            OatsError::InvalidState { message } => concat_str("Invalid state: ", message),
            OatsError::ValidationError { message } => concat_str("Validation error: ", message),
            OatsError::ResourceExhausted { message } => concat_str("Resource exhausted: ", message),
            OatsError::TimeoutError { message } => concat_str("Timeout error: ", message),
            OatsError::SerializationError { message } => concat_str(
                "Serialization error: ",
                message,
            ),
            OatsError::IoError { message } => concat_str("IO error: ", message),
            OatsError::Unknown { message } => concat_str("Unknown error: ", message),
        }
    }
}

} // verus!
