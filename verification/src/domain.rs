pub mod service;
pub mod subscription;
pub mod user;
