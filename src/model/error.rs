use vstd::prelude::*;

verus! {

pub type Result<T> = core::result::Result<T, Error>;

/// Failures of the store layer. Storage-level failures are mapped onto
/// these at the generic store boundary; callers never see anything else.
#[derive(Debug, PartialEq, Eq)]
pub enum Error {
    /// No row of `entity` carries the identifier `id`.
    EntityNotFound { entity: &'static str, id: i64 },
    /// No record of `entity` carries the business key `key`.
    EntityKeyNotFound { entity: &'static str, key: String },
    /// Another row of `entity` already holds the same value in the entity's
    /// uniqueness field `field`.
    EntityAlreadyExists { entity: &'static str, field: &'static str },
    /// A payload field broke one of its declared rules.
    ValidationFailure { field: &'static str, reason: &'static str },
    /// The caller could not be authenticated.
    AuthFailure { reason: &'static str },
    /// Any other persistence failure.
    StoreFailure { detail: String },
}

} // verus!
