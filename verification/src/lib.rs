//! Verified core of a family of Model Context Protocol servers: an Emacs
//! bridge, a calendar feed reader, desktop notifications, a PDF opener and a
//! weather forecaster. Each server module holds the logic that decides what
//! to run and what to answer; the program around it performs the I/O.

pub mod text;
pub mod clock;
pub mod emacs;
pub mod pdf;
pub mod notify;
pub mod gcal;
pub mod smhi;
