//! The temperature sensor: what it reads from a 1-Wire thermometer.

pub mod parse;
