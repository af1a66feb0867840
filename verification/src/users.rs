//! The users and their permissions, under their older paths.

pub use crate::access::permissions::{BranchPerm, OwnerPerm, Permissions, RepoPerm, UserPerm};
pub use crate::access::users::{PermissionRegistery, UserToken};
