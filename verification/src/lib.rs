//! A client library for a vending-machine operator's web service: the
//! parsing of what the service answers, the rules of the HTTP API in front
//! of it, users and their permissions, and the configuration.
pub mod text;
pub mod entities;
pub mod config;
pub mod encoding;
pub mod contracts;
pub mod api;
pub mod outbound;
pub mod calendar;
pub mod users;
pub mod user_mgmt;
pub mod impls;
