//! The ways in which a buffer operation can fail.

use vstd::prelude::*;

verus! {

/// Why a buffer operation was rejected.
#[derive(Clone, Copy, Debug, PartialEq, Eq, Structural)]
pub enum BufferError {
    /// A position or range lies outside the buffer's current contents.
    IndexOutOfBounds,
    /// The stored bytes are not valid UTF-8, so they cannot be read as text.
    InvalidEncoding,
}

} // verus!
