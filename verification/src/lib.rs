//! A verified core for a terminal system monitor: text layout helpers,
//! the interactive state machine and the screen model that a renderer draws.

pub mod text;
pub mod utils;
pub mod state;
pub mod sorting;
pub mod procs;
pub mod ui;
pub mod sections;
pub mod cli;
