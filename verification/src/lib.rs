pub mod commands;
pub mod credential_service;
pub mod datetime;
pub mod errors;
pub mod flow;
pub mod models;
pub mod oauth_server;
pub mod oauth_service;
pub mod repositories;
pub mod setup;
