//! A WebSocket message gateway: sessions, routing of chat messages between
//! WebSocket clients, webhooks and a message queue, with the configuration
//! model that drives it.
pub mod decimal;
pub mod json;
pub mod session;
pub mod shared;
pub mod settings;
pub mod message;
pub mod connection;
pub mod template;
pub mod admin;
pub mod kafka;
pub mod laws;
