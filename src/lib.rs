pub mod config;
pub mod deletion_token;
pub mod handlers;
pub mod imgur;
pub mod models;
pub mod store;
pub mod text;
pub mod token;
pub mod validate;
