//! The checks and decisions of the desktop bridge: AI completion requests,
//! completed core operations, window closing with unsaved changes, the numbering of frontend events,
//! and firmware flashing runs.

pub mod ai;
pub mod bridge;
pub mod commands;
pub mod events;
pub mod firmware;
pub mod window;
