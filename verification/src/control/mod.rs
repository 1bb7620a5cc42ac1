//! The interactive side of the tracker: key presses, the actions they
//! stand for, and the state those actions change.
pub mod actions;
pub mod state;
pub mod view;
pub mod handler;
pub mod laws;
