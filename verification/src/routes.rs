pub mod auth;
pub mod services;
