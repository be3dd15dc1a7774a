//! The terminal interface: its state, its key bindings and how keys change the state.
//! Drawing and the terminal itself are handled by the caller.
pub mod app;
pub mod demo;
pub mod events;
pub mod highlight;
pub mod shortcuts;
