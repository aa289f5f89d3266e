//! Encoding and decoding of identifiers.
//!
//! An identifier has two surface representations besides its 16 raw bytes:
//! canonical hyphenated hex text (32 hex digits grouped 8-4-4-4-12 by
//! hyphens, 36 bytes in all), rendered in either letter case and parsed
//! case-insensitively.

use vstd::prelude::*;
use vstd::utf8::valid_utf8;

use crate::identifier::Identifier;
use crate::types::DecodeError;
use crate::types::Format;

verus! {

/// ASCII hyphen.
pub const DASH: u8 = 0x2d;

/// ASCII line feed.
pub const LINE_FEED: u8 = 0x0a;

/// ASCII carriage return.
pub const CARRIAGE_RETURN: u8 = 0x0d;

/// The canonical text positions that hold a hyphen rather than a hex digit.
pub open spec fn is_hyphen_pos(i: int) -> bool {
    i == 8 || i == 13 || i == 18 || i == 23
}

/// ASCII hex digits, either case.
pub open spec fn is_hex_digit(b: u8) -> bool {
    (0x30 <= b && b <= 0x39) || (0x61 <= b && b <= 0x66) || (0x41 <= b && b <= 0x46)
}

/// Numeric value of an ASCII hex digit.
pub open spec fn hex_val(b: u8) -> u8
    recommends
        is_hex_digit(b),
{
    if 0x30 <= b && b <= 0x39 {
        (b - 0x30) as u8
    } else if 0x61 <= b && b <= 0x66 {
        (b - 0x57) as u8
    } else {
        (b - 0x37) as u8
    }
}

/// ASCII hex digit for a value below 16, in the requested case.
pub open spec fn hex_digit(v: u8, upper: bool) -> u8
    recommends
        v < 16,
{
    if v < 10 {
        (0x30 + v) as u8
    } else if upper {
        (0x37 + v) as u8
    } else {
        (0x57 + v) as u8
    }
}

/// Text position of the first (high-nibble) hex digit of byte `j`:
/// two positions per byte, shifted right by the hyphens already passed.
pub open spec fn digit_pos(j: int) -> int {
    2 * j + if j < 4 {
        0int
    } else if j < 6 {
        1int
    } else if j < 8 {
        2int
    } else if j < 10 {
        3int
    } else {
        4int
    }
}

/// How many hyphens stand before text position `i`.
pub open spec fn hyphens_before(i: int) -> int {
    if i < 8 {
        0int
    } else if i < 13 {
        1int
    } else if i < 18 {
        2int
    } else if i < 23 {
        3int
    } else {
        4int
    }
}

/// Which identifier byte the hex digit at text position `i` belongs to.
pub open spec fn byte_of_pos(i: int) -> int {
    (i - hyphens_before(i)) / 2
}

/// The canonical hyphenated hex grammar: 36 bytes, hyphens exactly at the
/// group boundaries, hex digits (either case) everywhere else.
pub open spec fn is_canonical_text(s: Seq<u8>) -> bool {
    &&& s.len() == 36
    &&& forall|i: int| 0 <= i < 36 && is_hyphen_pos(i) ==> s[i] == DASH
    &&& forall|i: int| 0 <= i < 36 && !is_hyphen_pos(i) ==> is_hex_digit(#[trigger] s[i])
}

/// Byte `j` of the identifier read from canonical text `s`.
pub open spec fn decoded_byte(s: Seq<u8>, j: int) -> u8
    recommends
        is_canonical_text(s),
        0 <= j < 16,
{
    ((hex_val(s[digit_pos(j)]) as int) * 16 + hex_val(s[digit_pos(j) + 1]) as int) as u8
}

/// The 16 identifier bytes read from canonical text `s`.
pub open spec fn decode_text(s: Seq<u8>) -> Seq<u8>
    recommends
        is_canonical_text(s),
{
    Seq::new(16, |j: int| decoded_byte(s, j))
}

/// The byte at position `i` of the canonical text of identifier `id`.
pub open spec fn encode_byte_at(id: Seq<u8>, i: int, upper: bool) -> u8
    recommends
        id.len() == 16,
        0 <= i < 36,
{
    if is_hyphen_pos(i) {
        DASH
    } else {
        let j = byte_of_pos(i);
        if (i - hyphens_before(i)) % 2 == 0 {
            hex_digit(id[j] / 16, upper)
        } else {
            hex_digit(id[j] % 16, upper)
        }
    }
}

/// The canonical hyphenated hex text of identifier `id`, in the requested
/// letter case.
pub open spec fn encode_text(id: Seq<u8>, upper: bool) -> Seq<u8>
    recommends
        id.len() == 16,
{
    Seq::new(36, |i: int| encode_byte_at(id, i, upper))
}

/// Hex digits survive the encode/decode pair.
proof fn lemma_hex_digit_val(v: u8, upper: bool)
    requires
        v < 16,
    ensures
        is_hex_digit(hex_digit(v, upper)),
        hex_val(hex_digit(v, upper)) == v,
{
}

/// The two text positions of byte `j` are in range, are not hyphen
/// positions, and map back to `j` with the right parities.
proof fn lemma_digit_pos(j: int)
    requires
        0 <= j < 16,
    ensures
        0 <= digit_pos(j),
        digit_pos(j) + 1 < 36,
        !is_hyphen_pos(digit_pos(j)),
        !is_hyphen_pos(digit_pos(j) + 1),
        byte_of_pos(digit_pos(j)) == j,
        byte_of_pos(digit_pos(j) + 1) == j,
        (digit_pos(j) - hyphens_before(digit_pos(j))) % 2 == 0,
        (digit_pos(j) + 1 - hyphens_before(digit_pos(j) + 1)) % 2 == 1,
{
}

/// The canonical text of any 16 bytes matches the canonical grammar.
pub proof fn lemma_encode_canonical(id: Seq<u8>, upper: bool)
    requires
        id.len() == 16,
    ensures
        is_canonical_text(encode_text(id, upper)),
{
    assert forall|i: int| 0 <= i < 36 && !is_hyphen_pos(i) implies is_hex_digit(
        #[trigger] encode_text(id, upper)[i],
    ) by {
        assert(0 <= byte_of_pos(i) < 16);
        if (i - hyphens_before(i)) % 2 == 0 {
            lemma_hex_digit_val(id[byte_of_pos(i)] / 16, upper);
        } else {
            lemma_hex_digit_val(id[byte_of_pos(i)] % 16, upper);
        }
    }
}

/// Decoding the canonical text of an identifier yields its bytes again,
/// whatever the letter case.
pub proof fn lemma_decode_encode(id: Seq<u8>, upper: bool)
    requires
        id.len() == 16,
    ensures
        decode_text(encode_text(id, upper)) == id,
{
    let s = encode_text(id, upper);
    assert forall|j: int| 0 <= j < 16 implies decode_text(s)[j] == id[j] by {
        lemma_digit_pos(j);
        lemma_hex_digit_val(id[j] / 16, upper);
        lemma_hex_digit_val(id[j] % 16, upper);
        assert(s[digit_pos(j)] == hex_digit(id[j] / 16, upper));
        assert(s[digit_pos(j) + 1] == hex_digit(id[j] % 16, upper));
        assert((id[j] / 16) as int * 16 + (id[j] % 16) as int == id[j] as int);
    }
    assert(decode_text(s) =~= id);
}

/// ASCII hex digit for a value below 16, in the requested case.
fn hex_digit_of(v: u8, upper: bool) -> (d: u8)
    requires
        v < 16,
    ensures
        d == hex_digit(v, upper),
{
    if v < 10 {
        0x30 + v
    } else if upper {
        0x37 + v
    } else {
        0x57 + v
    }
}

/// Numeric value of an ASCII hex digit.
fn hex_val_of(b: u8) -> (v: u8)
    requires
        is_hex_digit(b),
    ensures
        v == hex_val(b),
        v < 16,
{
    if b <= 0x39 {
        b - 0x30
    } else if b >= 0x61 {
        b - 0x57
    } else {
        b - 0x37
    }
}

/// Whether a byte is an ASCII hex digit of either case.
fn check_hex_digit(b: u8) -> (r: bool)
    ensures
        r == is_hex_digit(b),
{
    (0x30 <= b && b <= 0x39) || (0x61 <= b && b <= 0x66) || (0x41 <= b && b <= 0x46)
}

/// Renders an identifier as canonical hyphenated hex text in the requested
/// letter case.
fn encode_hex(id: &Identifier, upper: bool) -> (out: Vec<u8>)
    ensures
        out@ == encode_text(id@, upper),
{
    let bytes = id.to_bytes();
    let mut out: Vec<u8> = Vec::new();
    let mut j: usize = 0;
    while j < 16
        invariant
            bytes@ == id@,
            bytes@.len() == 16,
            j <= 16,
            out@ == encode_text(id@, upper).subrange(0, digit_pos(j as int)),
        decreases 16 - j,
    {
        let b = bytes[j];
        proof {
            lemma_digit_pos(j as int);
        }
        out.push(hex_digit_of(b / 16, upper));
        out.push(hex_digit_of(b % 16, upper));
        if j == 3 || j == 5 || j == 7 || j == 9 {
            out.push(DASH);
        }
        j = j + 1;
        proof {
            if j < 16 {
                lemma_digit_pos(j as int);
            }
            assert(out@ =~= encode_text(id@, upper).subrange(
                0,
                if j < 16 {
                    digit_pos(j as int)
                } else {
                    36
                },
            ));
        }
    }
    proof {
        assert(out@ =~= encode_text(id@, upper));
    }
    out
}

/// Removes one trailing line terminator (a line feed, or a carriage return
/// and line feed pair), if the text ends in one.
pub open spec fn trim_line(s: Seq<u8>) -> Seq<u8> {
    if s.len() >= 2 && s[s.len() - 2] == CARRIAGE_RETURN && s[s.len() - 1] == LINE_FEED {
        s.take(s.len() - 2)
    } else if s.len() >= 1 && s[s.len() - 1] == LINE_FEED {
        s.take(s.len() - 1)
    } else {
        s
    }
}

/// What the passthrough decoder returns for given piped bytes: exactly 16
/// bytes are the binary encoding; anything else must be UTF-8 text whose
/// trimmed form matches the canonical grammar.
pub open spec fn decode_outcome(input: Seq<u8>) -> Result<Seq<u8>, DecodeError> {
    if input.len() == 16 {
        Ok(input)
    } else if !valid_utf8(input) {
        Err(DecodeError::InvalidEncoding)
    } else if is_canonical_text(trim_line(input)) {
        Ok(decode_text(trim_line(input)))
    } else {
        Err(DecodeError::MalformedIdentifier)
    }
}

/// Decodes piped bytes into an identifier, per the passthrough policy.
///
/// Exactly 16 bytes are taken verbatim as the binary encoding; otherwise the
/// bytes must be UTF-8 text that, after removal of one trailing line
/// terminator, matches the canonical hyphenated hex grammar.
pub fn decode_passthrough(input: &Vec<u8>) -> (r: Result<Identifier, DecodeError>)
    ensures
        (match r {
            Ok(id) => decode_outcome(input@) == Ok::<Seq<u8>, DecodeError>(id@),
            Err(e) => decode_outcome(input@) == Err::<Seq<u8>, DecodeError>(e),
        }),
{
    let len = input.len();
    if len == 16 {
        let mut bytes: Vec<u8> = Vec::new();
        let mut i: usize = 0;
        while i < 16
            invariant
                input@.len() == 16,
                i <= 16,
                bytes@ == input@.subrange(0, i as int),
            decreases 16 - i,
        {
            bytes.push(input[i]);
            i = i + 1;
            proof {
                assert(bytes@ =~= input@.subrange(0, i as int));
            }
        }
        proof {
            assert(bytes@ =~= input@);
        }
        return Ok(Identifier::from_bytes(bytes));
    }
    if !crate::utf8::is_valid_utf8(input) {
        return Err(DecodeError::InvalidEncoding);
    }
    let end: usize = if len >= 2 && input[len - 2] == CARRIAGE_RETURN && input[len - 1]
        == LINE_FEED {
        len - 2
    } else if len >= 1 && input[len - 1] == LINE_FEED {
        len - 1
    } else {
        len
    };
    proof {
        assert(input@.subrange(0, end as int) =~= trim_line(input@));
    }
    let ghost trimmed = trim_line(input@);
    if end != 36 {
        return Err(DecodeError::MalformedIdentifier);
    }
    let mut i: usize = 0;
    while i < 36
        invariant
            input@.len() >= end == 36,
            input@.len() != 16,
            valid_utf8(input@),
            trimmed == trim_line(input@),
            trimmed == input@.subrange(0, 36),
            i <= 36,
            forall|k: int| 0 <= k < i && is_hyphen_pos(k) ==> trimmed[k] == DASH,
            forall|k: int|
                0 <= k < i && !is_hyphen_pos(k) ==> is_hex_digit(#[trigger] trimmed[k]),
        decreases 36 - i,
    {
        let b = input[i];
        proof {
            assert(trimmed[i as int] == input@[i as int]);
        }
        if i == 8 || i == 13 || i == 18 || i == 23 {
            if b != DASH {
                proof {
                    assert(trimmed[i as int] != DASH);
                    assert(!is_canonical_text(trimmed));
                }
                return Err(DecodeError::MalformedIdentifier);
            }
        } else {
            if !check_hex_digit(b) {
                proof {
                    assert(!is_hex_digit(trimmed[i as int]));
                    assert(!is_canonical_text(trimmed));
                }
                return Err(DecodeError::MalformedIdentifier);
            }
        }
        i = i + 1;
    }
    let mut bytes: Vec<u8> = Vec::new();
    let mut j: usize = 0;
    while j < 16
        invariant
            input@.len() >= 36,
            trimmed == input@.subrange(0, 36),
            is_canonical_text(trimmed),
            j <= 16,
            bytes@ == decode_text(trimmed).subrange(0, j as int),
        decreases 16 - j,
    {
        proof {
            lemma_digit_pos(j as int);
        }
        let pos = digit_pos_of(j);
        proof {
            assert(trimmed[pos as int] == input@[pos as int]);
            assert(trimmed[pos + 1int] == input@[pos + 1int]);
            assert(is_hex_digit(trimmed[pos as int]));
            assert(is_hex_digit(trimmed[pos + 1int]));
        }
        let hi = hex_val_of(input[pos]);
        let lo = hex_val_of(input[pos + 1]);
        bytes.push(hi * 16 + lo);
        j = j + 1;
        proof {
            assert(bytes@ =~= decode_text(trimmed).subrange(0, j as int));
        }
    }
    proof {
        assert(bytes@ =~= decode_text(trimmed));
    }
    Ok(Identifier::from_bytes(bytes))
}

/// Text position of the first hex digit of byte `j`.
fn digit_pos_of(j: usize) -> (pos: usize)
    requires
        j < 16,
    ensures
        pos == digit_pos(j as int),
{
    2 * j + if j < 4 {
        0
    } else if j < 6 {
        1
    } else if j < 8 {
        2
    } else if j < 10 {
        3
    } else {
        4
    }
}

/// Canonical text whose hex letters are all lowercase.
pub open spec fn is_lowercase_text(s: Seq<u8>) -> bool {
    forall|i: int| 0 <= i < s.len() ==> !(0x41 <= #[trigger] s[i] && s[i] <= 0x46)
}

/// For a non-hyphen text position `i`, the byte it belongs to and the
/// digit position it reads back from.
proof fn lemma_pos_inverse(i: int)
    requires
        0 <= i < 36,
        !is_hyphen_pos(i),
    ensures
        0 <= byte_of_pos(i) < 16,
        digit_pos(byte_of_pos(i)) == i - (i - hyphens_before(i)) % 2,
{
}

/// Encoding is the inverse of decoding on lowercase canonical text: the
/// binary and lowercase text representations are bijective.
pub proof fn lemma_encode_decode(s: Seq<u8>)
    requires
        is_canonical_text(s),
        is_lowercase_text(s),
    ensures
        encode_text(decode_text(s), false) == s,
{
    let id = decode_text(s);
    assert(id.len() == 16);
    assert forall|i: int| 0 <= i < 36 implies encode_text(id, false)[i] == s[i] by {
        if is_hyphen_pos(i) {
            assert(s[i] == DASH);
        } else {
            lemma_pos_inverse(i);
            let j = byte_of_pos(i);
            let par = (i - hyphens_before(i)) % 2;
            let p = digit_pos(j);
            lemma_digit_pos(j);
            let hi = hex_val(s[p]);
            let lo = hex_val(s[p + 1]);
            assert(is_hex_digit(s[p]) && is_hex_digit(s[p + 1]));
            assert(hi < 16 && lo < 16);
            assert(id[j] == ((hi as int) * 16 + lo as int) as u8);
            assert(id[j] / 16 == hi && id[j] % 16 == lo);
            if par == 0 {
                assert(s[i] == s[p]);
                assert(hex_digit(hi, false) == s[p]);
            } else {
                assert(s[i] == s[p + 1]);
                assert(hex_digit(lo, false) == s[p + 1]);
            }
        }
    }
    assert(encode_text(id, false) =~= s);
}

/// A sequence of ASCII bytes is a valid UTF-8 encoding.
proof fn lemma_ascii_valid_utf8(s: Seq<u8>)
    requires
        forall|i: int| 0 <= i < s.len() ==> #[trigger] s[i] < 0x80,
    ensures
        valid_utf8(s),
    decreases s.len(),
{
    if s.len() != 0 {
        assert(vstd::utf8::is_leading_byte_width_1(s[0]));
        assert(vstd::utf8::valid_first_scalar(s));
        assert(vstd::utf8::length_of_first_scalar(s) == 1);
        assert(vstd::utf8::pop_first_scalar(s) =~= s.subrange(1, s.len() as int));
        lemma_ascii_valid_utf8(s.subrange(1, s.len() as int));
    }
}

/// Every byte of canonical text is ASCII, and the text ends in a hex digit,
/// so it carries no trailing line terminator.
proof fn lemma_encode_text_ascii(id: Seq<u8>, upper: bool)
    requires
        id.len() == 16,
    ensures
        valid_utf8(encode_text(id, upper)),
        trim_line(encode_text(id, upper)) == encode_text(id, upper),
{
    let s = encode_text(id, upper);
    lemma_encode_canonical(id, upper);
    assert forall|i: int| 0 <= i < s.len() implies #[trigger] s[i] < 0x80 by {
        if !is_hyphen_pos(i) {
            assert(is_hex_digit(s[i]));
        }
    }
    lemma_ascii_valid_utf8(s);
    assert(is_hex_digit(s[35]));
    assert(s[35] != LINE_FEED);
}

/// The round-trip law: rendering an identifier in any of the three formats
/// and handing the bytes to the passthrough decoder yields the original
/// 16 bytes again.
pub proof fn lemma_render_round_trip(id: Seq<u8>, format: Format)
    requires
        id.len() == 16,
    ensures
        decode_outcome(render_spec(id, format)) == Ok::<Seq<u8>, DecodeError>(id),
{
    match format {
        Format::Binary => {
        },
        Format::Lowercase => {
            lemma_text_round_trip(id, false);
        },
        Format::Uppercase => {
            lemma_text_round_trip(id, true);
        },
    }
}

/// Canonical text of either case decodes back to the bytes it encodes.
proof fn lemma_text_round_trip(id: Seq<u8>, upper: bool)
    requires
        id.len() == 16,
    ensures
        decode_outcome(encode_text(id, upper)) == Ok::<Seq<u8>, DecodeError>(id),
{
    let s = encode_text(id, upper);
    lemma_encode_canonical(id, upper);
    lemma_encode_text_ascii(id, upper);
    lemma_decode_encode(id, upper);
}

/// What `render` writes for an identifier in each output format.
pub open spec fn render_spec(id: Seq<u8>, format: Format) -> Seq<u8>
    recommends
        id.len() == 16,
{
    match format {
        Format::Lowercase => encode_text(id, false),
        Format::Uppercase => encode_text(id, true),
        Format::Binary => id,
    }
}

/// Renders an identifier in the requested format: hyphenated hex text in
/// the chosen case, or the raw 16 bytes.
pub fn render(id: &Identifier, format: Format) -> (out: Vec<u8>)
    ensures
        out@ == render_spec(id@, format),
{
    match format {
        Format::Lowercase => encode_hex(id, false),
        Format::Uppercase => encode_hex(id, true),
        Format::Binary => id.to_bytes(),
    }
}

} // verus!
