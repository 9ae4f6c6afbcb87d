//! The lenient grammar of version strings and its parser.
//!
//! A version string is an optional marker (any run of characters that are not
//! digits, such as `v`), then one to three numbers separated by dots, then an
//! optional `-` with dot-separated prerelease identifiers, then an optional
//! `+` with dot-separated build identifiers. The build part starts at the
//! first `+`; the prerelease part starts at the first `-` before it. Missing
//! numbers are zero. Numbers may carry leading zeros and must fit in 64 bits,
//! as must a prerelease identifier made of digits only.

use crate::decimal::{all_digits, digits_value, is_number, parse_number};
use crate::text::{
    char_is_digit, char_is_identifier_char, find, first_index, is_digit, is_identifier_char,
    spans_are, split, split_spans, to_chars,
};
use crate::version::{
    is_identifier, BuildMetadata, Identifier, IdentifierView, Prerelease, Version, VersionView,
};
use vstd::prelude::*;
use vstd::string::StrSliceExecFns;

verus! {

/// The length of the marker of `s`: its longest prefix without a digit.
pub open spec fn marker_len(s: Seq<char>) -> nat
    decreases s.len(),
{
    if s.len() == 0 || is_digit(s[0]) {
        0
    } else {
        1 + marker_len(s.drop_first())
    }
}

/// `s` can be a prerelease identifier: an identifier which, if it is a
/// numeral, fits in 64 bits.
pub open spec fn is_prerelease_identifier(s: Seq<char>) -> bool {
    is_identifier(s) && (all_digits(s) ==> digits_value(s) <= u64::MAX)
}

/// A piece of a prerelease is numeric when it is made of digits only, and textual otherwise.
pub open spec fn classify(s: Seq<char>) -> IdentifierView {
    if all_digits(s) {
        IdentifierView::Numeric(digits_value(s))
    } else {
        IdentifierView::Text(s)
    }
}

/// The numbers of `X`, `X.Y` or `X.Y.Z`, with zero for those left out.
pub open spec fn parse_core(core: Seq<char>) -> Option<(nat, nat, nat)> {
    let numbers = split(core, '.');
    if numbers.len() <= 3 && forall|i: int|
        0 <= i < numbers.len() ==> is_number(#[trigger] numbers[i]) {
        Some(
            (
                digits_value(numbers[0]),
                if numbers.len() > 1 {
                    digits_value(numbers[1])
                } else {
                    0
                },
                if numbers.len() > 2 {
                    digits_value(numbers[2])
                } else {
                    0
                },
            ),
        )
    } else {
        None
    }
}

/// The identifiers of a prerelease text, which holds at least one.
pub open spec fn parse_prerelease(text: Seq<char>) -> Option<Seq<IdentifierView>> {
    let pieces = split(text, '.');
    if forall|i: int| 0 <= i < pieces.len() ==> is_prerelease_identifier(#[trigger] pieces[i]) {
        Some(Seq::new(pieces.len(), |i: int| classify(pieces[i])))
    } else {
        None
    }
}

/// The identifiers of a build text, which holds at least one.
pub open spec fn parse_build(text: Seq<char>) -> Option<Seq<Seq<char>>> {
    let pieces = split(text, '.');
    if forall|i: int| 0 <= i < pieces.len() ==> is_identifier(#[trigger] pieces[i]) {
        Some(pieces)
    } else {
        None
    }
}

/// The version that `s` denotes, or `None` when `s` is outside the grammar.
pub open spec fn parse_version(s: Seq<char>) -> Option<VersionView> {
    let body = s.skip(marker_len(s) as int);
    let plus = first_index(body, '+') as int;
    let main = body.take(plus);
    let dash = first_index(main, '-') as int;
    let core = parse_core(main.take(dash));
    let pre = if dash < main.len() {
        parse_prerelease(main.skip(dash + 1))
    } else {
        Some(Seq::empty())
    };
    let build = if plus < body.len() {
        parse_build(body.skip(plus + 1))
    } else {
        Some(Seq::empty())
    };
    if core is Some && pre is Some && build is Some {
        Some(
            VersionView {
                major: core.unwrap().0,
                minor: core.unwrap().1,
                patch: core.unwrap().2,
                pre: pre.unwrap(),
                build: build.unwrap(),
            },
        )
    } else {
        None
    }
}

/// The prerelease that `text` denotes: none for the empty text, otherwise its
/// dot-separated identifiers.
pub open spec fn prerelease_of(text: Seq<char>) -> Option<Seq<IdentifierView>> {
    if text.len() == 0 {
        Some(Seq::empty())
    } else {
        parse_prerelease(text)
    }
}

/// The build metadata that `text` denotes: none for the empty text, otherwise
/// its dot-separated identifiers.
pub open spec fn build_of(text: Seq<char>) -> Option<Seq<Seq<char>>> {
    if text.len() == 0 {
        Some(Seq::empty())
    } else {
        parse_build(text)
    }
}

/// A string that is not a version, kept for the report to the caller.
#[derive(Clone, Debug, PartialEq, Eq)]
pub struct ParseError {
    pub input: String,
}

/// The marker ends at the first digit, or at the end when there is no digit.
pub proof fn lemma_marker_len_is(s: Seq<char>, k: int)
    requires
        0 <= k <= s.len(),
        forall|j: int| 0 <= j < k ==> !is_digit(s[j]),
        k < s.len() ==> is_digit(s[k]),
    ensures
        marker_len(s) == k,
    decreases s.len(),
{
    if k > 0 {
        lemma_marker_len_is(s.drop_first(), k - 1);
    }
}

/// Whatever the grammar accepts is well formed.
pub proof fn lemma_parse_version_well_formed(s: Seq<char>)
    requires
        parse_version(s) is Some,
    ensures
        parse_version(s).unwrap().well_formed(),
{
}

/// Finds where the marker of `chars` ends.
fn marker_end(chars: &[char]) -> (k: usize)
    ensures
        k == marker_len(chars@),
        k <= chars@.len(),
{
    let mut k: usize = 0;
    while k < chars.len() && !char_is_digit(chars[k])
        invariant
            k <= chars@.len(),
            forall|j: int| 0 <= j < k ==> !is_digit(chars@[j]),
        decreases chars@.len() - k,
    {
        k += 1;
    }
    proof {
        lemma_marker_len_is(chars@, k as int);
    }
    k
}

/// Looks through `chars[from..to]`: is it an identifier, and is it made of digits only?
fn scan_identifier(chars: &[char], from: usize, to: usize) -> (r: (bool, bool))
    requires
        from <= to <= chars@.len(),
    ensures
        r.0 == is_identifier(chars@.subrange(from as int, to as int)),
        r.1 == all_digits(chars@.subrange(from as int, to as int)),
{
    let ghost piece = chars@.subrange(from as int, to as int);
    let mut valid = true;
    let mut numeric = true;
    let mut i: usize = from;
    while i < to
        invariant
            from <= i <= to <= chars@.len(),
            piece == chars@.subrange(from as int, to as int),
            valid == (forall|j: int| 0 <= j < i - from ==> is_identifier_char(#[trigger] piece[j])),
            numeric == (forall|j: int| 0 <= j < i - from ==> is_digit(#[trigger] piece[j])),
        decreases to - i,
    {
        let c = chars[i];
        assert(piece[i - from] == c);
        if !char_is_identifier_char(c) {
            valid = false;
        }
        if !char_is_digit(c) {
            numeric = false;
        }
        i += 1;
    }
    (valid && from < to, numeric)
}

/// Reads `chars[from..to]` as one to three numbers separated by dots.
fn read_core(chars: &[char], from: usize, to: usize) -> (r: Option<(u64, u64, u64)>)
    requires
        from <= to <= chars@.len(),
    ensures
        r is Some <==> parse_core(chars@.subrange(from as int, to as int)) is Some,
        r is Some ==> parse_core(chars@.subrange(from as int, to as int)) == Some(
            (r.unwrap().0 as nat, r.unwrap().1 as nat, r.unwrap().2 as nat),
        ),
{
    let ghost numbers = split(chars@.subrange(from as int, to as int), '.');
    let spans = split_spans(chars, from, to, '.');
    if spans.len() > 3 {
        return None;
    }
    let mut values: [u64; 3] = [0, 0, 0];
    let mut i: usize = 0;
    while i < spans.len()
        invariant
            from <= to <= chars@.len(),
            numbers == split(chars@.subrange(from as int, to as int), '.'),
            i <= spans@.len() <= 3,
            spans_are(spans@, chars@, numbers),
            forall|j: int| 0 <= j < i ==> is_number(#[trigger] numbers[j]),
            forall|j: int| 0 <= j < i ==> values@[j] == digits_value(numbers[j]),
            forall|j: int| i <= j < 3 ==> values@[j] == 0,
        decreases spans@.len() - i,
    {
        let span = spans[i];
        match parse_number(chars, span.start, span.end) {
            Some(n) => {
                values[i] = n;
            },
            None => {
                return None;
            },
        }
        i += 1;
    }
    Some((values[0], values[1], values[2]))
}

/// Reads `chars[from..to]` as dot-separated prerelease identifiers.
fn read_prerelease(raw: &str, chars: &[char], from: usize, to: usize) -> (r: Option<Prerelease>)
    requires
        chars@ == raw@,
        from <= to <= chars@.len(),
    ensures
        r is Some <==> parse_prerelease(chars@.subrange(from as int, to as int)) is Some,
        r is Some ==> parse_prerelease(chars@.subrange(from as int, to as int)) == Some(
            r.unwrap()@,
        ),
{
    let ghost pieces = split(chars@.subrange(from as int, to as int), '.');
    let spans = split_spans(chars, from, to, '.');
    let mut identifiers: Vec<Identifier> = Vec::new();
    let mut i: usize = 0;
    while i < spans.len()
        invariant
            chars@ == raw@,
            from <= to <= chars@.len(),
            pieces == split(chars@.subrange(from as int, to as int), '.'),
            i <= spans@.len(),
            spans_are(spans@, chars@, pieces),
            identifiers@.len() == i,
            forall|j: int| 0 <= j < i ==> is_prerelease_identifier(#[trigger] pieces[j]),
            forall|j: int| 0 <= j < i ==> (#[trigger] identifiers@[j])@ == classify(pieces[j]),
        decreases spans@.len() - i,
    {
        let span = spans[i];
        let (valid, numeric) = scan_identifier(chars, span.start, span.end);
        if !valid {
            return None;
        }
        if numeric {
            match parse_number(chars, span.start, span.end) {
                Some(n) => {
                    identifiers.push(Identifier::Numeric(n));
                },
                None => {
                    return None;
                },
            }
        } else {
            let text = raw.substring_char(span.start, span.end);
            identifiers.push(Identifier::Text(text.to_owned()));
        }
        i += 1;
    }
    let pre = Prerelease { identifiers };
    Some(pre)
}

/// Reads `chars[from..to]` as dot-separated build identifiers.
fn read_build(raw: &str, chars: &[char], from: usize, to: usize) -> (r: Option<BuildMetadata>)
    requires
        chars@ == raw@,
        from <= to <= chars@.len(),
    ensures
        r is Some <==> parse_build(chars@.subrange(from as int, to as int)) is Some,
        r is Some ==> parse_build(chars@.subrange(from as int, to as int)) == Some(r.unwrap()@),
{
    let ghost pieces = split(chars@.subrange(from as int, to as int), '.');
    let spans = split_spans(chars, from, to, '.');
    let mut identifiers: Vec<String> = Vec::new();
    let mut i: usize = 0;
    while i < spans.len()
        invariant
            chars@ == raw@,
            from <= to <= chars@.len(),
            pieces == split(chars@.subrange(from as int, to as int), '.'),
            i <= spans@.len(),
            spans_are(spans@, chars@, pieces),
            identifiers@.len() == i,
            forall|j: int| 0 <= j < i ==> is_identifier(#[trigger] pieces[j]),
            forall|j: int| 0 <= j < i ==> (#[trigger] identifiers@[j])@ == pieces[j],
        decreases spans@.len() - i,
    {
        let span = spans[i];
        let (valid, _numeric) = scan_identifier(chars, span.start, span.end);
        if !valid {
            return None;
        }
        let text = raw.substring_char(span.start, span.end);
        identifiers.push(text.to_owned());
        i += 1;
    }
    let build = BuildMetadata { identifiers };
    Some(build)
}

impl Prerelease {
    /// Reads a prerelease from its text, such as `rc.1`; the empty text gives
    /// the prerelease of a release.
    pub fn new(text: &str) -> (r: Result<Prerelease, ParseError>)
        ensures
            match r {
                Ok(pre) => prerelease_of(text@) == Some(pre@),
                Err(e) => prerelease_of(text@) is None && e.input@ == text@,
            },
    {
        let chars = to_chars(text);
        if chars.len() == 0 {
            return Ok(Prerelease::empty());
        }
        proof {
            assert(chars@.subrange(0, chars@.len() as int) =~= text@);
        }
        match read_prerelease(text, &chars, 0, chars.len()) {
            Some(pre) => Ok(pre),
            None => Err(ParseError { input: text.to_owned() }),
        }
    }
}

impl BuildMetadata {
    /// Reads build metadata from its text, such as `20240405.1`; the empty
    /// text gives none.
    pub fn new(text: &str) -> (r: Result<BuildMetadata, ParseError>)
        ensures
            match r {
                Ok(build) => build_of(text@) == Some(build@),
                Err(e) => build_of(text@) is None && e.input@ == text@,
            },
    {
        let chars = to_chars(text);
        if chars.len() == 0 {
            return Ok(BuildMetadata::empty());
        }
        proof {
            assert(chars@.subrange(0, chars@.len() as int) =~= text@);
        }
        match read_build(text, &chars, 0, chars.len()) {
            Some(build) => Ok(build),
            None => Err(ParseError { input: text.to_owned() }),
        }
    }
}

/// Parses a version string.
///
/// Succeeds exactly on the strings of the grammar, with the version they
/// denote; any other string comes back in the error.
pub fn parse(raw: &str) -> (r: Result<Version, ParseError>)
    ensures
        match r {
            Ok(v) => parse_version(raw@) == Some(v@) && v@.well_formed(),
            Err(e) => parse_version(raw@) is None && e.input@ == raw@,
        },
{
    let chars = to_chars(raw);
    let len = chars.len();
    let start = marker_end(&chars);
    let plus = find(&chars, start, len, '+');
    let dash = find(&chars, start, plus, '-');
    proof {
        let s = raw@;
        let body = s.skip(start as int);
        let main = body.take(plus - start);
        assert(main =~= s.subrange(start as int, plus as int));
        assert(main.take(dash - start) =~= s.subrange(start as int, dash as int));
        if dash < plus {
            assert(main.skip(dash - start + 1) =~= s.subrange(dash + 1, plus as int));
        }
        if plus < len {
            assert(body.skip(plus - start + 1) =~= s.subrange(plus + 1, len as int));
        }
    }
    let core = read_core(&chars, start, dash);
    let pre = if dash < plus {
        read_prerelease(raw, &chars, dash + 1, plus)
    } else {
        Some(Prerelease::empty())
    };
    let build = if plus < len {
        read_build(raw, &chars, plus + 1, len)
    } else {
        Some(BuildMetadata::empty())
    };
    match (core, pre, build) {
        (Some(numbers), Some(pre), Some(build)) => {
            proof {
                lemma_parse_version_well_formed(raw@);
            }
            Ok(Version { major: numbers.0, minor: numbers.1, patch: numbers.2, pre, build })
        },
        _ => Err(ParseError { input: raw.to_owned() }),
    }
}

} // verus!
