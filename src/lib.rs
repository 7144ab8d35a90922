//! An incrementally extensible interpreter for an eight-opcode tape language,
//! together with the small editing widgets its terminal front end uses.
pub mod commands;
pub mod interpreter;
pub mod laws;
pub mod popup;
pub mod widgets;
