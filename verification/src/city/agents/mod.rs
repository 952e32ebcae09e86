//! The vehicles of the city.

pub mod vehicle;
pub mod car;
pub mod ambulance;
pub mod boat;
pub mod cargotruck;
pub mod agent_controller;
