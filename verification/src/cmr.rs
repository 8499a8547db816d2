//! Content commitments for combinator terms.
//!
//! A commitment is a 32-byte Merkle root that identifies a term by its
//! structure alone, never by the witness data that is later bound to it.
//! The commitment of every combinator is computed by the Simplicity
//! engine's own rules: a fixed initialization vector for each leaf
//! combinator, and a SHA-256 compression of the children's commitments
//! for each combinator with children.

use vstd::prelude::*;

verus! {

/// A 32-byte content commitment.
#[derive(Clone, Copy, Debug)]
pub struct Cmr32 {
    bytes: [u8; 32],
}

impl View for Cmr32 {
    type V = Seq<u8>;

    closed spec fn view(&self) -> Seq<u8> {
        self.bytes@
    }
}

/// The commitment wrapping the given bytes.
pub closed spec fn cmr32_of(bytes: [u8; 32]) -> Cmr32 {
    Cmr32 { bytes }
}

/// The bytes of a wrapped commitment are the bytes it was built from.
pub broadcast proof fn lemma_cmr32_of_view(bytes: [u8; 32])
    ensures
        #[trigger] cmr32_of(bytes)@ == bytes@,
{
}

impl Cmr32 {
    /// Wrap fixed bytes as a commitment, as is done for the pinned
    /// placeholder commitments of pruned branches.
    pub fn from_bytes(bytes: [u8; 32]) -> (c: Cmr32)
        ensures
            c == cmr32_of(bytes),
            c@ == bytes@,
    {
        Cmr32 { bytes }
    }

    /// The raw bytes of the commitment.
    pub fn to_bytes(&self) -> (b: [u8; 32])
        ensures
            b@ == self@,
    {
        self.bytes
    }

    /// Byte-for-byte equality of two commitments.
    pub fn eq_cmr(&self, other: &Cmr32) -> (r: bool)
        ensures
            r <==> self@ =~= other@,
    {
        let mut k: usize = 0;
        while k < 32
            invariant
                k <= 32,
                forall|j: int| 0 <= j < k ==> self.bytes@[j] == other.bytes@[j],
            decreases 32 - k,
        {
            if self.bytes[k] != other.bytes[k] {
                return false;
            }
            k = k + 1;
        }
        true
    }
}

/// Commitment of an injl combinator, from its child's commitment.
pub uninterp spec fn cmr_injl(child: Seq<u8>) -> Seq<u8>;

/// Commitment of an injr combinator, from its child's commitment.
pub uninterp spec fn cmr_injr(child: Seq<u8>) -> Seq<u8>;

/// Commitment of a take combinator, from its child's commitment.
pub uninterp spec fn cmr_take(child: Seq<u8>) -> Seq<u8>;

/// Commitment of a drop combinator, from its child's commitment.
pub uninterp spec fn cmr_drop(child: Seq<u8>) -> Seq<u8>;

/// Commitment of a comp combinator, from its children's commitments.
pub uninterp spec fn cmr_comp(left: Seq<u8>, right: Seq<u8>) -> Seq<u8>;

/// Commitment of a pair combinator, from its children's commitments.
pub uninterp spec fn cmr_pair(left: Seq<u8>, right: Seq<u8>) -> Seq<u8>;

/// Commitment of a case combinator, from its children's commitments.
/// Assertions share this rule: the pruned branch's placeholder commitment
/// simply stands where the hidden child's commitment would.
pub uninterp spec fn cmr_case(left: Seq<u8>, right: Seq<u8>) -> Seq<u8>;

/// The SHA-256 digest of a byte string.
pub uninterp spec fn sha256_of(data: Seq<u8>) -> Seq<u8>;

/// The fixed initialization vector that commits to the iden combinator.
pub open spec fn iden_cmr() -> Seq<u8> {
    seq![
        0x54u8, 0x1a, 0x1a, 0x69, 0xbd, 0x4b, 0xcb, 0xda,
        0x7fu8, 0x34, 0x31, 0x0e, 0x30, 0x78, 0xf7, 0x26,
        0x44u8, 0x31, 0x22, 0xfb, 0xcc, 0x1c, 0xb5, 0x36,
        0x0cu8, 0x78, 0x64, 0xec, 0x0d, 0x32, 0x3a, 0xc0,
    ]
}

/// The fixed initialization vector that commits to the unit combinator.
pub open spec fn unit_cmr() -> Seq<u8> {
    seq![
        0xc4u8, 0x0a, 0x10, 0x26, 0x3f, 0x74, 0x36, 0xb4,
        0x16u8, 0x0a, 0xcb, 0xef, 0x1c, 0x36, 0xfb, 0xa4,
        0xbeu8, 0x4d, 0x95, 0xdf, 0x18, 0x1a, 0x96, 0x8a,
        0xfeu8, 0xab, 0x5e, 0xac, 0x24, 0x7a, 0xdf, 0xf7,
    ]
}

/// The fixed initialization vector that commits to a witness combinator.
/// It does not depend on the value later bound to the witness.
pub open spec fn witness_cmr() -> Seq<u8> {
    seq![
        0xa0u8, 0xfc, 0x8d, 0xeb, 0xd6, 0x79, 0x69, 0x17,
        0xc8u8, 0x6b, 0x77, 0xad, 0xed, 0x82, 0xe6, 0xc6,
        0x16u8, 0x49, 0x88, 0x9a, 0xe8, 0xf2, 0xed, 0x65,
        0xb5u8, 0x7b, 0x41, 0xaa, 0x9d, 0x90, 0xe3, 0x75,
    ]
}

/// Relies on simplicity::Cmr::iden: it returns the fixed 32-byte
/// initialization vector of the iden combinator, stated literally above.
#[verifier::external_body]
pub(crate) fn cmr_iden_ext() -> (c: Cmr32)
    ensures
        c@ == iden_cmr(),
{
    Cmr32 { bytes: simplicity::Cmr::iden().to_byte_array() }
}

/// Relies on simplicity::Cmr::unit: it returns the fixed 32-byte
/// initialization vector of the unit combinator, stated literally above.
#[verifier::external_body]
pub(crate) fn cmr_unit_ext() -> (c: Cmr32)
    ensures
        c@ == unit_cmr(),
{
    Cmr32 { bytes: simplicity::Cmr::unit().to_byte_array() }
}

/// Relies on simplicity::Cmr::witness: it returns the fixed 32-byte
/// initialization vector of the witness combinator, stated literally above.
#[verifier::external_body]
pub(crate) fn cmr_witness_ext() -> (c: Cmr32)
    ensures
        c@ == witness_cmr(),
{
    Cmr32 { bytes: simplicity::Cmr::witness().to_byte_array() }
}

/// Relies on simplicity::Cmr::injl: the commitment of an injl combinator
/// is a function of its child's commitment alone.
#[verifier::external_body]
pub(crate) fn cmr_injl_ext(child: &Cmr32) -> (c: Cmr32)
    ensures
        c@ == cmr_injl(child@),
        c@.len() == 32,
{
    let k = simplicity::Cmr::from_byte_array(child.bytes);
    Cmr32 { bytes: simplicity::Cmr::injl(k).to_byte_array() }
}

/// Relies on simplicity::Cmr::injr: the commitment of an injr combinator
/// is a function of its child's commitment alone.
#[verifier::external_body]
pub(crate) fn cmr_injr_ext(child: &Cmr32) -> (c: Cmr32)
    ensures
        c@ == cmr_injr(child@),
        c@.len() == 32,
{
    let k = simplicity::Cmr::from_byte_array(child.bytes);
    Cmr32 { bytes: simplicity::Cmr::injr(k).to_byte_array() }
}

/// Relies on simplicity::Cmr::take: the commitment of a take combinator
/// is a function of its child's commitment alone.
#[verifier::external_body]
pub(crate) fn cmr_take_ext(child: &Cmr32) -> (c: Cmr32)
    ensures
        c@ == cmr_take(child@),
        c@.len() == 32,
{
    let k = simplicity::Cmr::from_byte_array(child.bytes);
    Cmr32 { bytes: simplicity::Cmr::take(k).to_byte_array() }
}

/// Relies on simplicity::Cmr::drop: the commitment of a drop combinator
/// is a function of its child's commitment alone.
#[verifier::external_body]
pub(crate) fn cmr_drop_ext(child: &Cmr32) -> (c: Cmr32)
    ensures
        c@ == cmr_drop(child@),
        c@.len() == 32,
{
    let k = simplicity::Cmr::from_byte_array(child.bytes);
    Cmr32 { bytes: simplicity::Cmr::drop(k).to_byte_array() }
}

/// Relies on simplicity::Cmr::comp: the commitment of a comp combinator
/// is a function of its children's commitments alone.
#[verifier::external_body]
pub(crate) fn cmr_comp_ext(left: &Cmr32, right: &Cmr32) -> (c: Cmr32)
    ensures
        c@ == cmr_comp(left@, right@),
        c@.len() == 32,
{
    let l = simplicity::Cmr::from_byte_array(left.bytes);
    let r = simplicity::Cmr::from_byte_array(right.bytes);
    Cmr32 { bytes: simplicity::Cmr::comp(l, r).to_byte_array() }
}

/// Relies on simplicity::Cmr::pair: the commitment of a pair combinator
/// is a function of its children's commitments alone.
#[verifier::external_body]
pub(crate) fn cmr_pair_ext(left: &Cmr32, right: &Cmr32) -> (c: Cmr32)
    ensures
        c@ == cmr_pair(left@, right@),
        c@.len() == 32,
{
    let l = simplicity::Cmr::from_byte_array(left.bytes);
    let r = simplicity::Cmr::from_byte_array(right.bytes);
    Cmr32 { bytes: simplicity::Cmr::pair(l, r).to_byte_array() }
}

/// Relies on simplicity::Cmr::case: the commitment of a case combinator
/// is a function of its children's commitments alone.
#[verifier::external_body]
pub(crate) fn cmr_case_ext(left: &Cmr32, right: &Cmr32) -> (c: Cmr32)
    ensures
        c@ == cmr_case(left@, right@),
        c@.len() == 32,
{
    let l = simplicity::Cmr::from_byte_array(left.bytes);
    let r = simplicity::Cmr::from_byte_array(right.bytes);
    Cmr32 { bytes: simplicity::Cmr::case(l, r).to_byte_array() }
}

/// Relies on bitcoin_hashes::sha256::Hash::hash: the digest is a function
/// of the input bytes alone, and is 32 bytes long.
#[verifier::external_body]
pub(crate) fn sha256_ext(data: &Vec<u8>) -> (c: Cmr32)
    ensures
        c@ == sha256_of(data@),
        c@.len() == 32,
{
    Cmr32 { bytes: bitcoin_hashes::sha256::Hash::hash(data.as_slice()).to_byte_array() }
}

} // verus!
