//! What the header of a HUS or VIP file says of the streams that follow it.

use vstd::prelude::*;

verus! {

/// What the header of a HUS or VIP file says of the rest of the file.
#[derive(Clone, Debug, PartialEq, Eq)]
pub struct PatternHeader {
    pub title: String,
    /// The number of stitches: of elements in each stream once decompressed.
    pub number_of_stitches: usize,
    /// The number of bytes of the compressed attribute stream.
    pub attribute_bytes: usize,
    /// The number of bytes of the compressed stream of x deltas.
    pub x_offset_bytes: usize,
}

impl PatternHeader {
    /// The number of bytes that the compressed attribute stream takes in the
    /// file.
    pub fn attribute_len(&self) -> (len: usize)
        ensures
            len == self.attribute_bytes,
    {
        self.attribute_bytes
    }

    /// The number of bytes that the compressed stream of x deltas takes in
    /// the file. The stream of y deltas takes the rest.
    pub fn x_offset_len(&self) -> (len: usize)
        ensures
            len == self.x_offset_bytes,
    {
        self.x_offset_bytes
    }
}

} // verus!
