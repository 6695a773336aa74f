//! Opening PDF files in the sioyek reader at a page or a text location.

pub mod error;
pub mod pdf_client;
pub mod pdf_server;
