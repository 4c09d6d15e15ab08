//! Buffers, draw commands and fence bookkeeping of the render side.

pub mod buffer;
pub mod command;
pub mod sync;
