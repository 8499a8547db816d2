//! Names, serialization codes and pinned commitments of the Turing jet
//! family: the native 256-bit word operations used by the trace verifier.

use vstd::prelude::*;

use crate::cmr::sha256_ext;
use crate::cmr::sha256_of;
use crate::cmr::Cmr32;

verus! {

/// The name of a native operation over 256-bit words.
#[derive(Clone, Copy, Debug, PartialEq, Eq, Structural)]
pub enum TuringJetName {
    /// Equality test of two words.
    Eq256,
    /// Move the set bit of a one-hot word one position toward the end.
    RightShift256,
    /// Move the set bit of a one-hot word one position toward the start.
    LeftShift256,
    /// Bitwise complement of a word.
    Complement256,
    /// Bitwise conjunction of two words.
    And256,
    /// Bitwise disjunction of two words.
    Or256,
    /// Test whether a word is all zero.
    IsZero256,
}

/// The stable numeric code of each native operation, part of the wire
/// format and therefore fixed across versions.
pub open spec fn jet_code_spec(name: TuringJetName) -> u8 {
    match name {
        TuringJetName::Eq256 => 0,
        TuringJetName::RightShift256 => 1,
        TuringJetName::LeftShift256 => 2,
        TuringJetName::Complement256 => 3,
        TuringJetName::And256 => 4,
        TuringJetName::Or256 => 5,
        TuringJetName::IsZero256 => 6,
    }
}

/// The stable numeric code of a native operation.
pub fn jet_code(name: TuringJetName) -> (c: u8)
    ensures
        c == jet_code_spec(name),
{
    match name {
        TuringJetName::Eq256 => 0,
        TuringJetName::RightShift256 => 1,
        TuringJetName::LeftShift256 => 2,
        TuringJetName::Complement256 => 3,
        TuringJetName::And256 => 4,
        TuringJetName::Or256 => 5,
        TuringJetName::IsZero256 => 6,
    }
}

/// The domain-separation tag whose digest pins a native operation's
/// commitment: the ASCII bytes of "jet" followed by the operation's code.
pub open spec fn jet_tag_bytes(name: TuringJetName) -> Seq<u8> {
    seq![0x6au8, 0x65u8, 0x74u8, jet_code_spec(name)]
}

/// The pinned commitment of a native operation: the digest of a fixed,
/// code-specific tag, never derived from any internal structure.
pub open spec fn jet_cmr_spec(name: TuringJetName) -> Seq<u8> {
    sha256_of(jet_tag_bytes(name))
}

/// Compute the pinned commitment of a native operation.
pub fn jet_cmr(name: TuringJetName) -> (c: Cmr32)
    ensures
        c@ == jet_cmr_spec(name),
{
    let code = jet_code(name);
    let tag: Vec<u8> = vec![0x6a, 0x65, 0x74, code];
    proof {
        assert(tag@ =~= jet_tag_bytes(name));
    }
    sha256_ext(&tag)
}

} // verus!
