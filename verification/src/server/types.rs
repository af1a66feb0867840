//! Request bodies as the server hands them to its handlers.

use vstd::prelude::*;

verus! {

/// A JSON request body that deserialized into `T`.
pub struct Json<T> {
    pub data: T,
}

/// A JSON request body that may not have had the expected shape: `None`
/// when it was JSON but did not deserialize into `T`.
pub struct OptionalJson<T> {
    pub data: Option<T>,
}

} // verus!
