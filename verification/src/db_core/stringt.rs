//! String references that keep short strings inline.
use vstd::prelude::*;

verus! {

/// A string of `length` bytes: up to twelve are kept inline in `payload`;
/// longer ones keep a prefix and their place in an arena there.
pub struct StringRef {
    length: u32,
    payload: [u8; 12],
}

impl StringRef {
    /// Length of the string in bytes.
    pub closed spec fn spec_length(&self) -> u32 {
        self.length
    }

    /// Whether the string's bytes are all inline.
    pub fn is_inline(&self) -> (inline: bool)
        ensures
            inline == (self.spec_length() <= 12),
    {
        self.length <= 12
    }
}

} // verus!
