//! Adaptive memory-mapped streaming encryption.
//!
//! The library moves a byte stream from an input endpoint through a ChaCha20
//! stream-cipher update into an output endpoint, picking at run time the
//! cheapest data-movement strategy for the concrete endpoint pair: mapping
//! both sides, mapping one side and relaying through a temporary anonymous
//! memory file, or plain chunked streaming when nothing can be mapped.
use vstd::prelude::*;

pub mod cha;
pub mod endpoint;
pub mod key;
pub mod stream;
pub mod mapped;
pub mod region;
pub mod hugepages;

verus! {

/// What a run of the tool does with the stream.
#[derive(Debug, Clone, PartialEq, Eq, Hash, Structural)]
pub enum Mode {
    Encrypt,
    Decrypt,
    Keygen,
}

impl Mode {
    /// The mode selected by the first letter of a command-line word:
    /// `e`ncrypt, `d`ecrypt or `k`eygen, in either case.
    pub fn from_selector(c: char) -> (r: Option<Mode>)
        ensures
            r == Self::spec_from_selector(c),
    {
        match c {
            'e' | 'E' => Some(Mode::Encrypt),
            'd' | 'D' => Some(Mode::Decrypt),
            'k' | 'K' => Some(Mode::Keygen),
            _ => None,
        }
    }

    /// Which mode each selector letter names.
    pub open spec fn spec_from_selector(c: char) -> Option<Mode> {
        if c == 'e' || c == 'E' {
            Some(Mode::Encrypt)
        } else if c == 'd' || c == 'D' {
            Some(Mode::Decrypt)
        } else if c == 'k' || c == 'K' {
            Some(Mode::Keygen)
        } else {
            None
        }
    }
}

} // verus!
