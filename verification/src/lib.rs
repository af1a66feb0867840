//! Verified core of a service that updates git submodules to a given commit
//! on behalf of authenticated users: the permission tree, the user/token file,
//! the hook registry, the webhook interpretation and the decisions the server
//! takes for each request.

pub mod access;
pub mod cli;
pub mod config;
pub mod global_state;
pub mod hooks;
pub mod server;
pub mod submodule;
pub mod text;
pub mod token;
pub mod users;
