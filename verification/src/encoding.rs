//! Canonical byte encoding of combinator terms.
//!
//! Each node is written as a one-byte tag followed by its children (and,
//! for pruned branches, the 32 bytes of the placeholder commitment).
//! Native operations are written as a single byte with the high bit set,
//! so the seven-bit code space below it distinguishes them from every
//! built-in combinator tag.  Decoding an unrecognized code is a parse
//! failure, never a silent fallback.

use vstd::prelude::*;

use crate::jet::turing::jet_code_spec;
use crate::jet::turing::TuringJetName;
use crate::term::Term;

verus! {

/// A failure while decoding a serialized term.
#[derive(Clone, Copy, Debug, PartialEq, Eq, Structural)]
pub enum ParseError {
    /// A native-operation code that names no native operation.
    IllegalJet,
    /// A byte that is no tag of the encoding.
    UnknownTag,
    /// The input ended in the middle of a term.
    EndOfStream,
}

/// The byte that encodes a native-operation reference: the high bit set,
/// then the operation's seven-bit code.
pub open spec fn jet_encoding_spec(name: TuringJetName) -> u8 {
    (128 + jet_code_spec(name) as int) as u8
}

/// The canonical byte encoding of a term: a tag byte per node, children
/// in order, and the 32 placeholder bytes of each pruned branch.
pub open spec fn encode_term_spec(t: Term) -> Seq<u8>
    decreases t,
{
    match t {
        Term::Iden => seq![0u8],
        Term::Unit => seq![1u8],
        Term::Injl(s) => seq![2u8] + encode_term_spec(*s),
        Term::Injr(s) => seq![3u8] + encode_term_spec(*s),
        Term::Take(s) => seq![4u8] + encode_term_spec(*s),
        Term::Drop(s) => seq![5u8] + encode_term_spec(*s),
        Term::Comp(s, u) => seq![6u8] + encode_term_spec(*s) + encode_term_spec(*u),
        Term::Pair(s, u) => seq![7u8] + encode_term_spec(*s) + encode_term_spec(*u),
        Term::Case(s, u) => seq![8u8] + encode_term_spec(*s) + encode_term_spec(*u),
        Term::AssertL(s, h) => seq![9u8] + encode_term_spec(*s) + h@,
        Term::AssertR(h, s) => seq![10u8] + h@ + encode_term_spec(*s),
        Term::Witness => seq![11u8],
        Term::Jet(name) => seq![jet_encoding_spec(name)],
    }
}

/// Append the canonical encoding of a term to a byte vector.
pub fn encode_term(t: &Term, out: &mut Vec<u8>)
    ensures
        final(out)@ == old(out)@ + encode_term_spec(*t),
    decreases *t,
{
    match t {
        Term::Iden => {
            out.push(0);
            proof {
                assert(out@ =~= old(out)@ + encode_term_spec(*t));
            }
        },
        Term::Unit => {
            out.push(1);
            proof {
                assert(out@ =~= old(out)@ + encode_term_spec(*t));
            }
        },
        Term::Injl(s) => {
            out.push(2);
            encode_term(s, out);
            proof {
                assert(out@ =~= old(out)@ + encode_term_spec(*t));
            }
        },
        Term::Injr(s) => {
            out.push(3);
            encode_term(s, out);
            proof {
                assert(out@ =~= old(out)@ + encode_term_spec(*t));
            }
        },
        Term::Take(s) => {
            out.push(4);
            encode_term(s, out);
            proof {
                assert(out@ =~= old(out)@ + encode_term_spec(*t));
            }
        },
        Term::Drop(s) => {
            out.push(5);
            encode_term(s, out);
            proof {
                assert(out@ =~= old(out)@ + encode_term_spec(*t));
            }
        },
        Term::Comp(s, u) => {
            out.push(6);
            encode_term(s, out);
            encode_term(u, out);
            proof {
                assert(out@ =~= old(out)@ + encode_term_spec(*t));
            }
        },
        Term::Pair(s, u) => {
            out.push(7);
            encode_term(s, out);
            encode_term(u, out);
            proof {
                assert(out@ =~= old(out)@ + encode_term_spec(*t));
            }
        },
        Term::Case(s, u) => {
            out.push(8);
            encode_term(s, out);
            encode_term(u, out);
            proof {
                assert(out@ =~= old(out)@ + encode_term_spec(*t));
            }
        },
        Term::AssertL(s, h) => {
            out.push(9);
            encode_term(s, out);
            push_commitment(&h.to_bytes(), out);
            proof {
                assert(out@ =~= old(out)@ + encode_term_spec(*t));
            }
        },
        Term::AssertR(h, s) => {
            out.push(10);
            push_commitment(&h.to_bytes(), out);
            encode_term(s, out);
            proof {
                assert(out@ =~= old(out)@ + encode_term_spec(*t));
            }
        },
        Term::Witness => {
            out.push(11);
            proof {
                assert(out@ =~= old(out)@ + encode_term_spec(*t));
            }
        },
        Term::Jet(name) => {
            let b = crate::jet::application::Turing::encode_jet(*name);
            out.push(b);
            proof {
                assert(out@ =~= old(out)@ + encode_term_spec(*t));
            }
        },
    }
}

/// Append the 32 bytes of a commitment to a byte vector.
fn push_commitment(bytes: &[u8; 32], out: &mut Vec<u8>)
    ensures
        final(out)@ == old(out)@ + bytes@,
{
    let mut k: usize = 0;
    while k < 32
        invariant
            k <= 32,
            out@ == old(out)@ + bytes@.take(k as int),
        decreases 32 - k,
    {
        out.push(bytes[k]);
        proof {
            assert(out@ =~= old(out)@ + bytes@.take(k + 1));
        }
        k = k + 1;
    }
    proof {
        assert(bytes@.take(32) =~= bytes@);
    }
}

} // verus!
