//! Weather forecasts from the Swedish Meteorological and Hydrological Institute.

pub mod error;
pub mod float32;
pub mod smhi_client;
pub mod smhi_server;
