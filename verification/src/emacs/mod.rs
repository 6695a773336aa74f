//! A bridge to a running Emacs instance through `emacsclient`.

pub mod emacs_client;
pub mod emacs_server;
pub mod error;
