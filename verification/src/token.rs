//! Token generation and storage, under their older paths.

pub use crate::access::token::{get_token, storable_token};
