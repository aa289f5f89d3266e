//! A verified UTF-8 validity check.
//!
//! The passthrough decoder must tell bytes that are not UTF-8 text apart
//! from text that merely fails the identifier grammar. The check walks the
//! input one encoded scalar at a time and is proved equivalent to the
//! mathematical well-formedness predicate `valid_utf8`.

use vstd::prelude::*;
use vstd::utf8::codepoint_width_2;
use vstd::utf8::codepoint_width_3;
use vstd::utf8::codepoint_width_4;
use vstd::utf8::length_of_first_scalar;
use vstd::utf8::pop_first_scalar;
use vstd::utf8::valid_first_scalar;
use vstd::utf8::valid_utf8;

verus! {

/// Whether the bytes are a valid UTF-8 encoding.
///
/// Walks the input scalar by scalar: each step consumes one well-formed
/// leading byte with its continuation bytes, rejecting truncated sequences,
/// stray continuation bytes, overlong encodings and surrogate codepoints.
pub fn is_valid_utf8(bytes: &Vec<u8>) -> (r: bool)
    ensures
        r == valid_utf8(bytes@),
{
    let n = bytes.len();
    let mut i: usize = 0;
    proof {
        assert(bytes@.skip(0) =~= bytes@);
    }
    while i < n
        invariant
            n == bytes@.len(),
            i <= n,
            valid_utf8(bytes@) == valid_utf8(bytes@.skip(i as int)),
        decreases n - i,
    {
        let ghost rest = bytes@.skip(i as int);
        proof {
            assert(rest.len() == n - i);
        }
        let b1 = bytes[i];
        proof {
            assert(rest[0] == b1);
        }
        if b1 < 0x80 {
            // One byte: the codepoint is the byte itself, below the
            // surrogate range, and a single byte is never overlong.
            proof {
                assert(valid_first_scalar(rest));
                assert(length_of_first_scalar(rest) == 1);
                assert(pop_first_scalar(rest) =~= bytes@.skip(i as int + 1));
            }
            i = i + 1;
        } else if 0xc0 <= b1 && b1 <= 0xdf {
            if n - i < 2 {
                proof {
                    assert(!valid_first_scalar(rest));
                }
                return false;
            }
            let b2 = bytes[i + 1];
            proof {
                assert(rest[1] == b2);
            }
            if !(0x80 <= b2 && b2 <= 0xbf) {
                proof {
                    assert(!valid_first_scalar(rest));
                }
                return false;
            }
            let cp: u32 = (((b1 & 0x1f) as u32) << 6u32) | ((b2 & 0x3f) as u32);
            proof {
                assert(cp == codepoint_width_2(b1, b2));
                assert(cp <= 0x7ff) by (bit_vector)
                    requires
                        cp == (((b1 & 0x1f) as u32) << 6u32) | ((b2 & 0x3f) as u32),
                ;
            }
            if cp < 0x80 {
                // Overlong: two bytes for a codepoint that fits in one.
                proof {
                    assert(!valid_first_scalar(rest));
                }
                return false;
            }
            proof {
                assert(valid_first_scalar(rest));
                assert(length_of_first_scalar(rest) == 2);
                assert(pop_first_scalar(rest) =~= bytes@.skip(i as int + 2));
            }
            i = i + 2;
        } else if 0xe0 <= b1 && b1 <= 0xef {
            if n - i < 3 {
                proof {
                    assert(!valid_first_scalar(rest));
                }
                return false;
            }
            let b2 = bytes[i + 1];
            let b3 = bytes[i + 2];
            proof {
                assert(rest[1] == b2);
                assert(rest[2] == b3);
            }
            if !(0x80 <= b2 && b2 <= 0xbf) || !(0x80 <= b3 && b3 <= 0xbf) {
                proof {
                    assert(!valid_first_scalar(rest));
                }
                return false;
            }
            let cp: u32 = (((b1 & 0x0f) as u32) << 12u32) | (((b2 & 0x3f) as u32) << 6u32) | ((b3
                & 0x3f) as u32);
            proof {
                assert(cp == codepoint_width_3(b1, b2, b3));
            }
            if cp < 0x800 {
                // Overlong: three bytes for a codepoint that fits in two.
                proof {
                    assert(!valid_first_scalar(rest));
                }
                return false;
            }
            if 0xd800 <= cp && cp <= 0xdfff {
                // The surrogate range is not valid Unicode.
                proof {
                    assert(!valid_first_scalar(rest));
                }
                return false;
            }
            proof {
                assert(valid_first_scalar(rest));
                assert(length_of_first_scalar(rest) == 3);
                assert(pop_first_scalar(rest) =~= bytes@.skip(i as int + 3));
            }
            i = i + 3;
        } else if 0xf0 <= b1 && b1 <= 0xf7 {
            if n - i < 4 {
                proof {
                    assert(!valid_first_scalar(rest));
                }
                return false;
            }
            let b2 = bytes[i + 1];
            let b3 = bytes[i + 2];
            let b4 = bytes[i + 3];
            proof {
                assert(rest[1] == b2);
                assert(rest[2] == b3);
                assert(rest[3] == b4);
            }
            if !(0x80 <= b2 && b2 <= 0xbf) || !(0x80 <= b3 && b3 <= 0xbf) || !(0x80 <= b4 && b4
                <= 0xbf) {
                proof {
                    assert(!valid_first_scalar(rest));
                }
                return false;
            }
            let cp: u32 = (((b1 & 0x07) as u32) << 18u32) | (((b2 & 0x3f) as u32) << 12u32) | (((
            b3 & 0x3f) as u32) << 6u32) | ((b4 & 0x3f) as u32);
            proof {
                assert(cp == codepoint_width_4(b1, b2, b3, b4));
            }
            if cp < 0x10000 || cp > 0x10ffff {
                // Overlong or beyond the last Unicode codepoint.
                proof {
                    assert(!valid_first_scalar(rest));
                }
                return false;
            }
            proof {
                assert(valid_first_scalar(rest));
                assert(length_of_first_scalar(rest) == 4);
                assert(pop_first_scalar(rest) =~= bytes@.skip(i as int + 4));
            }
            i = i + 4;
        } else {
            // A stray continuation byte, or a byte no encoding uses.
            proof {
                assert(!valid_first_scalar(rest));
            }
            return false;
        }
    }
    proof {
        assert(bytes@.skip(n as int) =~= Seq::<u8>::empty());
    }
    true
}

} // verus!
