//! Desktop notifications over the freedesktop.org notification protocol.

pub mod error;
pub mod notify_client;
pub mod notify_server;
