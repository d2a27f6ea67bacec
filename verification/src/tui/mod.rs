//! The terminal interface: its state machine and what its panels show.
pub mod app;
pub mod highlight;
pub mod views;
pub mod layout;
