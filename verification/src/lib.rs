//! A world map for a role-playing game: named, shaped locations joined by
//! weighted directed paths, with soft deletion and a deterministic export
//! to Mermaid flowchart text, plus the state of the terminal front end.

pub mod text;
pub mod shape;
pub mod graph;
pub mod diagram;
pub mod laws;
pub mod tui;
