//! Error taxonomy of the codec. Every parse or encode failure is one of
//! these variants, carrying the offending position or the expected and
//! actual values where those apply.

use vstd::prelude::*;

verus! {

#[derive(Debug, Clone, Copy, PartialEq, Eq, Structural)]
pub enum ParseError {
    /// The buffer is shorter than the advertised or required size.
    TruncatedFrame { needed: usize, have: usize },
    /// The sync word does not begin with 0xAA.
    MalformedPrefix { sync: u16 },
    /// The frame-type bits of the sync word name no supported kind.
    UnknownFrameType { frame_type: u8 },
    /// The CRC computed over the frame differs from its trailing bytes.
    CrcMismatch { expected: u16, actual: u16 },
    /// A channel-name or unit region cannot be sized: the blocks do not
    /// fit the advertised frame size. The offset is where the block began.
    InvalidChannelCount { offset: usize },
    /// On encode, a field violates a frame invariant.
    EncodingError { offset: usize },
}

} // verus!
