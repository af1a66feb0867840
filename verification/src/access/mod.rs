pub mod permissions;
pub mod token;
pub mod users;
