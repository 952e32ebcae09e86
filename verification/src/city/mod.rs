//! ThreadCity: a grid city split by a river, crossed by three bridges, with
//! shops, two nuclear plants that need regular supplies, and vehicles that
//! run as threads of the runtime.

pub mod model;
pub mod agents;
pub mod config;
pub mod sim;
pub mod sync;
pub mod runner;
