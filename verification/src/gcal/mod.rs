//! Upcoming events from private iCalendar feed URLs.

pub mod error;
pub mod gcal_client;
pub mod gcal_server;
pub mod ical;
pub mod recurrence;
