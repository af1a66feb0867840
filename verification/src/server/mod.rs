pub mod server;
pub mod types;
