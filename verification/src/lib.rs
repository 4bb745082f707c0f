//! Keeps a window manager's workspace numbering contiguous: plans the
//! silent-move commands that compact ("zip") or open up ("unzip") the
//! numbering around a boundary, decides the reaction to window-lifecycle
//! events, and extracts typed state from the manager's JSON responses.

pub mod compact;
pub mod events;
pub mod model;
pub mod moves;
pub mod query;
pub mod render;
pub mod runtime;
pub mod text;
