//! Tab and session bookkeeping for a drop-down terminal emulator.
//!
//! The library keeps the model of a tabbed notebook of terminal sessions:
//! which session sits at which visible slot, which slot is active, the
//! font scale and transparency applied to every session, and the labels
//! shown on the tabs. Every operation updates that model and returns the
//! list of actions that the user interface has to carry out on its widgets.

pub mod config;
pub mod label;
pub mod laws;
pub mod registry;
pub mod terminal;
pub mod window;
