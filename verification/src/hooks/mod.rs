pub mod github;
pub mod gitlab;
pub mod hooks;
