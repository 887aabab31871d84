//! Verified core of a pseudo-terminal session viewer.
//!
//! The crate holds the logic worth proving: the escape-sequence scanner that
//! separates displayable text from terminal control sequences, the bounded
//! input line and output buffer, the bridge decisions that connect a pty
//! session to those buffers, the glyph compositing of the render pipeline,
//! and the interpretation of the command classifier's replies. Process
//! spawning, window plumbing and network transport live outside the library
//! and hand it plain values.

pub mod bridge;
pub mod classify;
pub mod input_line;
pub mod output_buffer;
pub mod render;
pub mod scanner;
