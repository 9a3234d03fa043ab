//! Device registration, check-in and playlist rotation for e-ink display
//! clients, with every rule stated as a contract and proved.

pub mod app;
pub mod config;
pub mod credentials;
pub mod handlers;
pub mod models;
pub mod repository;
pub mod rotation;
pub mod telemetry;
pub mod text;
