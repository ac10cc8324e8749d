//! One encoded still image on its way to the overlay.

use vstd::prelude::*;

verus! {

/// The bytes of one encoded image (PNG or whatever the decoder accepts).
///
/// A frame cannot be changed once it is made: it is built from its bytes and
/// only ever read or taken apart again.
#[derive(Debug, Clone, PartialEq, Eq)]
pub struct Frame {
    bytes: Vec<u8>,
}

impl View for Frame {
    type V = Seq<u8>;

    closed spec fn view(&self) -> Seq<u8> {
        self.bytes@
    }
}

impl Frame {
    /// Wraps encoded image bytes.
    pub fn new(bytes: Vec<u8>) -> (frame: Frame)
        ensures
            frame@ == bytes@,
    {
        Frame { bytes }
    }

    /// The encoded bytes.
    pub fn as_bytes(&self) -> (bytes: &Vec<u8>)
        ensures
            bytes@ == self@,
    {
        &self.bytes
    }

    /// Number of encoded bytes.
    pub fn len(&self) -> (n: usize)
        ensures
            n == self@.len(),
    {
        self.bytes.len()
    }

    /// Gives the bytes back, ending the frame.
    pub fn into_bytes(self) -> (bytes: Vec<u8>)
        ensures
            bytes@ == self@,
    {
        self.bytes
    }
}

} // verus!
