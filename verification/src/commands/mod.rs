//! The decisions behind the shell's commands.

pub mod ai;
pub mod clips;
pub mod graph;
pub mod memory;
pub mod models;
pub mod quality;
pub mod search;
pub mod settings;
pub mod system;
