//! Verified core of a small networked thermostat: address handling, the
//! temperature sensor's text format, the controller's hysteresis rule, the
//! actor's relay level and the checks made on a socket handed over by the
//! service manager.

pub mod actor;
pub mod controller;
pub mod poller;
pub mod sensor;
pub mod socket;
pub mod text;
pub mod util;
