//! An interactive terminal task board: tasks live in named, ordered columns,
//! a cursor focuses one task, and keyboard commands navigate, edit, reorder
//! and move tasks. The board is encoded to and decoded from structured text
//! for persistence.

pub mod board;
pub mod codec;
pub mod laws;
pub mod step;
pub mod text;
pub mod view;
