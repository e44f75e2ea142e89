//! An in-memory text buffer: a growable sequence of bytes that holds a
//! document's UTF-8 content and supports insertion and removal at any
//! position.
//!
//! The content is one dense run of bytes, so an edit in the middle moves
//! every byte after it. Positions count bytes, not characters.

pub mod buffer;
pub mod error;
pub mod growth;
pub mod splice;
pub mod text;

pub use crate::buffer::GapBuffer;
pub use crate::error::BufferError;
pub use crate::growth::DEFAULT_BUFFER_CAPACITY;
