//! Access-control core of an identity service: password credentials,
//! short-lived sessions, a role/permission graph and the request guard that
//! lets authenticated calls through.
pub mod auth_service;
pub mod authentication_service;
pub mod authorization_repository;
pub mod authorization_service;
pub mod clock;
pub mod config;
pub mod credential;
pub mod error;
pub mod ids;
pub mod interceptor;
pub mod laws;
pub mod models;
pub mod session_repository;
pub mod user_repository;
pub mod user_service;
