//! The 128-bit identifier and its binary representation.

use vstd::prelude::*;

verus! {

/// An opaque 128-bit identifier, held as its 16-byte binary encoding.
///
/// The view of an `Identifier` is the sequence of its 16 bytes; every
/// constructor establishes (and the type invariant maintains) that the
/// view has length exactly 16.
#[derive(Debug, PartialEq, Eq)]
pub struct Identifier {
    bytes: Vec<u8>,
}

impl View for Identifier {
    type V = Seq<u8>;

    closed spec fn view(&self) -> Seq<u8> {
        self.bytes@
    }
}

#[verifier::type_invariant]
spec fn identifier_inv(id: &Identifier) -> bool {
    id.bytes@.len() == 16
}

impl Identifier {
    /// Wraps 16 raw bytes as an identifier.
    pub fn from_bytes(bytes: Vec<u8>) -> (r: Identifier)
        requires
            bytes@.len() == 16,
        ensures
            r@ == bytes@,
    {
        Identifier { bytes }
    }

    /// Hands back the 16-byte binary encoding.
    pub fn to_bytes(&self) -> (r: Vec<u8>)
        ensures
            r@ == self@,
            r@.len() == 16,
    {
        proof {
            use_type_invariant(self);
        }
        let mut out: Vec<u8> = Vec::new();
        let mut i: usize = 0;
        while i < 16
            invariant
                self@.len() == 16,
                i <= 16,
                out@ == self@.subrange(0, i as int),
            decreases 16 - i,
        {
            out.push(self.bytes[i]);
            i = i + 1;
            proof {
                assert(out@ =~= self@.subrange(0, i as int));
            }
        }
        proof {
            assert(out@ =~= self@);
        }
        out
    }
}

} // verus!
