//! Shared core validation error types.

use vstd::prelude::*;

use crate::text::{owned, push_str};

verus! {

/// Validation failures for definitions and references.
#[derive(Debug, Clone, PartialEq, Eq)]
pub enum ValidationError {
    DuplicateId { id: String, context: String },
    MissingReference { id: String, context: String },
}

impl ValidationError {
    /// The error as a message.
    pub fn to_string(&self) -> (r: String)
        ensures
            r@ == match *self {
                ValidationError::DuplicateId { id, context } => "duplicate id "@ + id@ + " in "@ + context@,
                ValidationError::MissingReference { id, context } => "missing reference "@ + id@ + " in "@ + context@,
            },
    {
        match self {
            ValidationError::DuplicateId { id, context } => {
                let mut out = owned("duplicate id ");
                push_str(&mut out, id.as_str());
                push_str(&mut out, " in ");
                push_str(&mut out, context.as_str());
                out
            },
            ValidationError::MissingReference { id, context } => {
                let mut out = owned("missing reference ");
                push_str(&mut out, id.as_str());
                push_str(&mut out, " in ");
                push_str(&mut out, context.as_str());
                out
            },
        }
    }
}

} // verus!
