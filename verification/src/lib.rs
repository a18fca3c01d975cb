//! Forwards subscribed Forgejo webhook events to Gotify: the verified core.

pub mod text;
pub mod events;
pub mod notification;
pub mod json;
pub mod forgejo;
pub mod gotify;
pub mod config;
pub mod server;
