//! A program image.

use vstd::prelude::*;

verus! {

/// The bytes of a program, as they are to be loaded at the start of the
/// program space.
pub struct Rom {
    content: Vec<u8>,
}

impl View for Rom {
    type V = Seq<u8>;

    closed spec fn view(&self) -> Seq<u8> {
        self.content@
    }
}

impl Rom {
    /// The image that holds the given bytes.
    pub fn new(content: Vec<u8>) -> (rom: Rom)
        ensures
            rom@ == content@,
    {
        Rom { content }
    }

    pub fn content(&self) -> (content: &[u8])
        ensures
            content@ == self@,
    {
        self.content.as_slice()
    }
}

} // verus!
