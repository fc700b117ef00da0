//! The desktop viewer's own view protocol: integer-only opcodes whose text
//! comes from a fixed vocabulary, and host string slots.

pub mod gleam_bridge;
pub mod rad;
pub mod view_api;
