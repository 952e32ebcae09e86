//! The pieces of the city.

pub mod grid;
pub mod coord;
pub mod river;
pub mod traffic;
pub mod bridge;
pub mod commerce;
pub mod nuclear;
