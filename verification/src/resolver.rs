//! The request resolver: command-line tokens to version and format.
//!
//! Each token is matched independently; later flags override earlier ones
//! (last-wins), and the version and format axes are independent. The first
//! help token short-circuits; the first unrecognized token is a fatal error.

use vstd::prelude::*;

use crate::types::Format;
use crate::types::Version;

verus! {

/// The resolved request: the requested version, if any, and the output
/// format. When no version token was given the pipeline, not the resolver,
/// decides the effective default.
#[derive(Clone, Copy, PartialEq, Eq, Debug)]
pub struct Request {
    pub version: Option<Version>,
    pub format: Format,
}

/// What the resolver returns for a token list.
pub enum Resolution {
    /// Every token was a version or format flag: run the pipeline.
    Run(Request),
    /// A help token was reached before any unrecognized token.
    Help,
    /// The first token that matched no flag; the caller reports it and
    /// terminates without producing output.
    Unrecognized(String),
}

/// The resolver's outcome over mathematical token sequences.
pub enum SpecResolution {
    Run { version: Option<Version>, format: Format },
    Help,
    Unrecognized { token: Seq<char> },
}

pub open spec fn is_v4_token(t: Seq<char>) -> bool {
    t == "v4"@
}

pub open spec fn is_v5_token(t: Seq<char>) -> bool {
    t == "v5"@
}

pub open spec fn is_lowercase_token(t: Seq<char>) -> bool {
    t == "-l"@ || t == "--lowercase"@
}

pub open spec fn is_uppercase_token(t: Seq<char>) -> bool {
    t == "-u"@ || t == "-U"@ || t == "--uppercase"@
}

pub open spec fn is_binary_token(t: Seq<char>) -> bool {
    t == "-b"@ || t == "--binary"@
}

pub open spec fn is_help_token(t: Seq<char>) -> bool {
    t == "-h"@ || t == "--help"@
}

pub open spec fn is_format_token(t: Seq<char>) -> bool {
    is_lowercase_token(t) || is_uppercase_token(t) || is_binary_token(t)
}

pub open spec fn is_version_token(t: Seq<char>) -> bool {
    is_v4_token(t) || is_v5_token(t)
}

/// The version a version token selects.
pub open spec fn version_of(t: Seq<char>) -> Version
    recommends
        is_version_token(t),
{
    if is_v4_token(t) {
        Version::Random
    } else {
        Version::NameDerived
    }
}

/// The format a format token selects.
pub open spec fn format_of(t: Seq<char>) -> Format
    recommends
        is_format_token(t),
{
    if is_lowercase_token(t) {
        Format::Lowercase
    } else if is_uppercase_token(t) {
        Format::Uppercase
    } else {
        Format::Binary
    }
}

/// Resolution of the tokens from position `i` on, with the version and
/// format selected by the tokens before `i`.
pub open spec fn resolve_from(
    tokens: Seq<Seq<char>>,
    i: int,
    version: Option<Version>,
    format: Format,
) -> SpecResolution
    recommends
        0 <= i <= tokens.len(),
    decreases tokens.len() - i,
    when 0 <= i <= tokens.len()
{
    if i >= tokens.len() {
        SpecResolution::Run { version, format }
    } else {
        let t = tokens[i];
        if is_v4_token(t) {
            resolve_from(tokens, i + 1, Some(Version::Random), format)
        } else if is_v5_token(t) {
            resolve_from(tokens, i + 1, Some(Version::NameDerived), format)
        } else if is_format_token(t) {
            resolve_from(tokens, i + 1, version, format_of(t))
        } else if is_help_token(t) {
            SpecResolution::Help
        } else {
            SpecResolution::Unrecognized { token: t }
        }
    }
}

/// Resolution of a whole token list, starting from no version and the
/// default lowercase format.
pub open spec fn resolve_spec(tokens: Seq<Seq<char>>) -> SpecResolution {
    resolve_from(tokens, 0, None, Format::Lowercase)
}

/// Whether a `String` equals a string literal, by view.
fn token_is(arg: &String, lit: &str) -> (r: bool)
    ensures
        r == (arg@ == lit@),
{
    let s: String = lit.to_owned();
    *arg == s
}

/// Resolves the process argument list (excluding the program name).
///
/// Tokens are matched in order: version flags and format flags update the
/// pending request (last-wins), a help token returns `Help` at once, and
/// any other token returns it as `Unrecognized` at once.
pub fn resolve(args: &Vec<String>) -> (r: Resolution)
    ensures
        (match r {
            Resolution::Run(req) => resolve_spec(args.deep_view()) == (SpecResolution::Run {
                version: req.version,
                format: req.format,
            }),
            Resolution::Help => resolve_spec(args.deep_view()) == SpecResolution::Help,
            Resolution::Unrecognized(tok) => resolve_spec(args.deep_view())
                == (SpecResolution::Unrecognized { token: tok@ }),
        }),
{
    let ghost tokens = args.deep_view();
    let mut version: Option<Version> = None;
    let mut format = Format::Lowercase;
    let mut i: usize = 0;
    while i < args.len()
        invariant
            tokens == args.deep_view(),
            tokens.len() == args@.len(),
            i <= args@.len(),
            resolve_spec(tokens) == resolve_from(tokens, i as int, version, format),
        decreases args@.len() - i,
    {
        let arg = &args[i];
        proof {
            assert(tokens[i as int] == args@[i as int]@);
        }
        if token_is(arg, "v4") {
            version = Some(Version::Random);
        } else if token_is(arg, "v5") {
            version = Some(Version::NameDerived);
        } else if token_is(arg, "-l") || token_is(arg, "--lowercase") {
            format = Format::Lowercase;
        } else if token_is(arg, "-u") || token_is(arg, "-U") || token_is(arg, "--uppercase") {
            format = Format::Uppercase;
        } else if token_is(arg, "-b") || token_is(arg, "--binary") {
            format = Format::Binary;
        } else if token_is(arg, "-h") || token_is(arg, "--help") {
            return Resolution::Help;
        } else {
            return Resolution::Unrecognized(arg.clone());
        }
        i = i + 1;
    }
    Resolution::Run(Request { version, format })
}

/// No token selects more than one flag: the flag literals are pairwise
/// distinct strings.
proof fn lemma_token_classes_disjoint(t: Seq<char>)
    ensures
        is_format_token(t) ==> !is_v4_token(t) && !is_v5_token(t) && !is_help_token(t),
        is_version_token(t) ==> !is_format_token(t) && !is_help_token(t),
        is_v4_token(t) ==> !is_v5_token(t),
{
    reveal_strlit("v4");
    reveal_strlit("v5");
    reveal_strlit("-l");
    reveal_strlit("--lowercase");
    reveal_strlit("-u");
    reveal_strlit("-U");
    reveal_strlit("--uppercase");
    reveal_strlit("-b");
    reveal_strlit("--binary");
    reveal_strlit("-h");
    reveal_strlit("--help");
    assert("v4"@[0] == 'v' && "v5"@[0] == 'v');
    assert("v4"@[1] == '4' && "v5"@[1] == '5' && "v4"@.len() == 2 && "v5"@.len() == 2);
    assert("-l"@[0] == '-' && "-l"@[1] == 'l' && "-l"@.len() == 2);
    assert("-u"@[0] == '-' && "-u"@[1] == 'u' && "-u"@.len() == 2);
    assert("-U"@[0] == '-' && "-U"@[1] == 'U' && "-U"@.len() == 2);
    assert("-b"@[0] == '-' && "-b"@[1] == 'b' && "-b"@.len() == 2);
    assert("-h"@[0] == '-' && "-h"@[1] == 'h' && "-h"@.len() == 2);
    assert("--lowercase"@.len() == 11 && "--lowercase"@[0] == '-');
    assert("--uppercase"@.len() == 11 && "--uppercase"@[0] == '-');
    assert("--binary"@.len() == 8 && "--binary"@[0] == '-');
    assert("--help"@.len() == 6 && "--help"@[0] == '-');
}

/// Induction step for the last-wins law, generalized over the pending
/// version and format.
proof fn lemma_resolve_push_format(
    tokens: Seq<Seq<char>>,
    t: Seq<char>,
    i: int,
    version: Option<Version>,
    format: Format,
)
    requires
        is_format_token(t),
        0 <= i <= tokens.len(),
        resolve_from(tokens, i, version, format) is Run,
    ensures
        resolve_from(tokens.push(t), i, version, format) == (SpecResolution::Run {
            version: resolve_from(tokens, i, version, format)->version,
            format: format_of(t),
        }),
    decreases tokens.len() - i,
{
    let pushed = tokens.push(t);
    assert(pushed.len() == tokens.len() + 1);
    if i == tokens.len() {
        assert(pushed[i] == t);
        lemma_token_classes_disjoint(t);
        assert(resolve_from(pushed, i + 1, version, format_of(t)) == (SpecResolution::Run {
            version,
            format: format_of(t),
        }));
    } else {
        assert(pushed[i] == tokens[i]);
        let u = tokens[i];
        if is_v4_token(u) {
            lemma_resolve_push_format(tokens, t, i + 1, Some(Version::Random), format);
        } else if is_v5_token(u) {
            lemma_resolve_push_format(tokens, t, i + 1, Some(Version::NameDerived), format);
        } else if is_format_token(u) {
            lemma_resolve_push_format(tokens, t, i + 1, version, format_of(u));
        }
    }
}

/// Format selection is last-wins: appending a format flag to any token
/// list that resolves to a run makes the run use that flag's format,
/// whatever format flags came before, and leaves the version untouched.
pub proof fn lemma_format_last_wins(tokens: Seq<Seq<char>>, t: Seq<char>)
    requires
        is_format_token(t),
        resolve_spec(tokens) is Run,
    ensures
        resolve_spec(tokens.push(t)) == (SpecResolution::Run {
            version: resolve_spec(tokens)->version,
            format: format_of(t),
        }),
{
    lemma_resolve_push_format(tokens, t, 0, None, Format::Lowercase);
}

/// Induction step for the version last-wins law.
proof fn lemma_resolve_push_version(
    tokens: Seq<Seq<char>>,
    t: Seq<char>,
    i: int,
    version: Option<Version>,
    format: Format,
)
    requires
        is_version_token(t),
        0 <= i <= tokens.len(),
        resolve_from(tokens, i, version, format) is Run,
    ensures
        resolve_from(tokens.push(t), i, version, format) == (SpecResolution::Run {
            version: Some(version_of(t)),
            format: resolve_from(tokens, i, version, format)->format,
        }),
    decreases tokens.len() - i,
{
    let pushed = tokens.push(t);
    assert(pushed.len() == tokens.len() + 1);
    if i == tokens.len() {
        assert(pushed[i] == t);
        lemma_token_classes_disjoint(t);
    } else {
        assert(pushed[i] == tokens[i]);
        let u = tokens[i];
        if is_v4_token(u) {
            lemma_resolve_push_version(tokens, t, i + 1, Some(Version::Random), format);
        } else if is_v5_token(u) {
            lemma_resolve_push_version(tokens, t, i + 1, Some(Version::NameDerived), format);
        } else if is_format_token(u) {
            lemma_resolve_push_version(tokens, t, i + 1, version, format_of(u));
        }
    }
}

/// Version selection is last-wins too, and leaves the format untouched:
/// the version and format axes are independent.
pub proof fn lemma_version_last_wins(tokens: Seq<Seq<char>>, t: Seq<char>)
    requires
        is_version_token(t),
        resolve_spec(tokens) is Run,
    ensures
        resolve_spec(tokens.push(t)) == (SpecResolution::Run {
            version: Some(version_of(t)),
            format: resolve_spec(tokens)->format,
        }),
{
    lemma_resolve_push_version(tokens, t, 0, None, Format::Lowercase);
}

/// Format selection is idempotent under repetition: a repeated format flag
/// resolves exactly as a single occurrence does.
pub proof fn lemma_format_repeat_idempotent(tokens: Seq<Seq<char>>, t: Seq<char>)
    requires
        is_format_token(t),
        resolve_spec(tokens) is Run,
    ensures
        resolve_spec(tokens.push(t).push(t)) == resolve_spec(tokens.push(t)),
{
    lemma_format_last_wins(tokens, t);
    lemma_format_last_wins(tokens.push(t), t);
}

} // verus!
