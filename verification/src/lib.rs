//! Mnemo's clipboard-memory logic: capture gating, de-duplication, session
//! labelling, search preparation, grounded-answer checks and the small
//! parsers that sit between the desktop shell and the database.

pub mod commands;
pub mod json;
pub mod models;
pub mod order;
pub mod popup;
pub mod services;
pub mod split;
pub mod state;
pub mod text;
