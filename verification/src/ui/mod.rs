//! The state that the city's viewer keeps and animates: the queue of
//! events it is sent, the snapshots it draws, and the entities on screen.

pub mod event_queue;
pub mod state;
pub mod simulation;
pub mod drawing;
pub mod ui_logger;
pub mod layout;
