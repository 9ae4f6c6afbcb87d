//! Character classes, searching and splitting of character sequences.

use vstd::prelude::*;

verus! {

/// An ASCII decimal digit.
pub open spec fn is_digit(c: char) -> bool {
    '0' <= c && c <= '9'
}

/// A character that may stand in a prerelease or build identifier:
/// an ASCII letter, an ASCII digit or a hyphen.
pub open spec fn is_identifier_char(c: char) -> bool {
    is_digit(c) || ('a' <= c && c <= 'z') || ('A' <= c && c <= 'Z') || c == '-'
}

/// `s` does not hold `c`.
pub open spec fn lacks(s: Seq<char>, c: char) -> bool {
    forall|i: int| 0 <= i < s.len() ==> s[i] != c
}

/// Position of the first occurrence of `c` in `s`, or `s.len()` when `s` does not hold `c`.
pub open spec fn first_index(s: Seq<char>, c: char) -> nat
    decreases s.len(),
{
    if s.len() == 0 || s[0] == c {
        0
    } else {
        1 + first_index(s.drop_first(), c)
    }
}

/// The pieces of `s` that lie between the occurrences of `sep`, in order.
/// There is always at least one piece; pieces may be empty.
pub open spec fn split(s: Seq<char>, sep: char) -> Seq<Seq<char>>
    decreases s.len(),
{
    let i = first_index(s, sep) as int;
    if i >= s.len() {
        seq![s]
    } else {
        seq![s.take(i)] + split(s.skip(i + 1), sep)
    }
}

/// The pieces of `parts` written one after the other with `sep` between neighbours.
pub open spec fn join(parts: Seq<Seq<char>>, sep: char) -> Seq<char>
    decreases parts.len(),
{
    if parts.len() == 0 {
        Seq::empty()
    } else if parts.len() == 1 {
        parts[0]
    } else {
        parts[0] + seq![sep] + join(parts.drop_first(), sep)
    }
}

/// `first_index` is the least position that holds `c`, and the length when there is none.
pub proof fn lemma_first_index(s: Seq<char>, c: char)
    ensures
        first_index(s, c) <= s.len(),
        forall|j: int| 0 <= j < first_index(s, c) ==> s[j] != c,
        first_index(s, c) < s.len() ==> s[first_index(s, c) as int] == c,
    decreases s.len(),
{
    if s.len() == 0 || s[0] == c {
    } else {
        let rest = s.drop_first();
        lemma_first_index(rest, c);
        assert forall|j: int| 0 <= j < first_index(s, c) implies s[j] != c by {
            if j > 0 {
                assert(s[j] == rest[j - 1]);
            }
        }
    }
}

/// A position that holds `c` (or the length) with no `c` before it is the first index.
pub proof fn lemma_first_index_is(s: Seq<char>, c: char, k: int)
    requires
        0 <= k <= s.len(),
        forall|j: int| 0 <= j < k ==> s[j] != c,
        k < s.len() ==> s[k] == c,
    ensures
        first_index(s, c) == k,
{
    lemma_first_index(s, c);
}

/// In `a + b`, where `a` lacks `c`, the first `c` is the first `c` of `b`.
pub proof fn lemma_first_index_after(a: Seq<char>, b: Seq<char>, c: char)
    requires
        lacks(a, c),
    ensures
        first_index(a + b, c) == a.len() + first_index(b, c),
{
    lemma_first_index(b, c);
    lemma_first_index_is(a + b, c, (a.len() + first_index(b, c)) as int);
}

/// Splitting undoes joining, when no piece holds the separator.
pub proof fn lemma_split_join(parts: Seq<Seq<char>>, sep: char)
    requires
        parts.len() > 0,
        forall|i: int| 0 <= i < parts.len() ==> lacks(#[trigger] parts[i], sep),
    ensures
        split(join(parts, sep), sep) == parts,
    decreases parts.len(),
{
    let head = parts[0];
    if parts.len() == 1 {
        lemma_first_index_is(head, sep, head.len() as int);
    } else {
        let rest = parts.drop_first();
        let tail = seq![sep] + join(rest, sep);
        let s = join(parts, sep);
        assert(s =~= head + tail);
        lemma_first_index_after(head, tail, sep);
        assert(s.take(head.len() as int) =~= head);
        assert(s.skip(head.len() as int + 1) =~= join(rest, sep));
        lemma_split_join(rest, sep);
    }
}

/// Joining undoes splitting.
pub proof fn lemma_join_split(s: Seq<char>, sep: char)
    ensures
        join(split(s, sep), sep) == s,
    decreases s.len(),
{
    lemma_first_index(s, sep);
    let i = first_index(s, sep) as int;
    if i < s.len() {
        let rest = s.skip(i + 1);
        let pieces = split(s, sep);
        lemma_join_split(rest, sep);
        assert(pieces.drop_first() =~= split(rest, sep));
    }
}

/// A character that no piece holds, and that is not the separator, is not in the joined text.
pub proof fn lemma_join_lacks(parts: Seq<Seq<char>>, sep: char, c: char)
    requires
        c != sep,
        forall|i: int| 0 <= i < parts.len() ==> lacks(#[trigger] parts[i], c),
    ensures
        lacks(join(parts, sep), c),
    decreases parts.len(),
{
    if parts.len() > 1 {
        lemma_join_lacks(parts.drop_first(), sep, c);
    }
}

/// Joining one more piece appends the separator and the piece.
pub proof fn lemma_join_push(parts: Seq<Seq<char>>, last: Seq<char>, sep: char)
    requires
        parts.len() > 0,
    ensures
        join(parts.push(last), sep) == join(parts, sep) + seq![sep] + last,
    decreases parts.len(),
{
    let all = parts.push(last);
    if parts.len() == 1 {
        assert(join(all.drop_first(), sep) == last);
    } else {
        let rest = parts.drop_first();
        lemma_join_push(rest, last, sep);
        assert(all.drop_first() =~= rest.push(last));
    }
}

/// The characters of `raw`, in order.
pub fn to_chars(raw: &str) -> (chars: Vec<char>)
    ensures
        chars@ == raw@,
{
    let mut chars: Vec<char> = Vec::new();
    for c in it: raw.chars()
        invariant
            it.seq() == raw@,
            chars@ == raw@.take(it.index()),
    {
        chars.push(c);
    }
    chars
}

/// Tells whether `c` is an ASCII decimal digit.
pub fn char_is_digit(c: char) -> (b: bool)
    ensures
        b == is_digit(c),
{
    '0' <= c && c <= '9'
}

/// Tells whether `c` may stand in an identifier.
pub fn char_is_identifier_char(c: char) -> (b: bool)
    ensures
        b == is_identifier_char(c),
{
    char_is_digit(c) || ('a' <= c && c <= 'z') || ('A' <= c && c <= 'Z') || c == '-'
}

/// Finds the first `c` in `chars[from..to]`; returns `to` when there is none.
pub fn find(chars: &[char], from: usize, to: usize, c: char) -> (k: usize)
    requires
        from <= to <= chars@.len(),
    ensures
        from <= k <= to,
        k == from + first_index(chars@.subrange(from as int, to as int), c),
{
    let mut k: usize = from;
    while k < to && chars[k] != c
        invariant
            from <= k <= to <= chars@.len(),
            forall|j: int| from <= j < k ==> chars@[j] != c,
        decreases to - k,
    {
        k += 1;
    }
    proof {
        lemma_first_index_is(chars@.subrange(from as int, to as int), c, k - from);
    }
    k
}

/// A half-open range of positions in a character sequence.
#[derive(Clone, Copy, Debug)]
pub struct Span {
    pub start: usize,
    pub end: usize,
}

impl Span {
    /// The span lies inside a sequence of `len` characters.
    pub open spec fn within(self, len: nat) -> bool {
        self.start <= self.end <= len
    }

    /// The characters of `s` that the span covers.
    pub open spec fn of(self, s: Seq<char>) -> Seq<char> {
        s.subrange(self.start as int, self.end as int)
    }
}

/// The spans cover, piece by piece, exactly `pieces` in `s`.
pub open spec fn spans_are(spans: Seq<Span>, s: Seq<char>, pieces: Seq<Seq<char>>) -> bool {
    &&& spans.len() == pieces.len()
    &&& forall|i: int|
        0 <= i < spans.len() ==> (#[trigger] spans[i]).within(s.len()) && spans[i].of(s)
            == pieces[i]
}

/// Splits `chars[from..to]` at each `sep` and returns where the pieces lie.
pub fn split_spans(chars: &[char], from: usize, to: usize, sep: char) -> (spans: Vec<Span>)
    requires
        from <= to <= chars@.len(),
    ensures
        spans_are(spans@, chars@, split(chars@.subrange(from as int, to as int), sep)),
        spans@.len() > 0,
{
    let ghost whole = split(chars@.subrange(from as int, to as int), sep);
    let mut spans: Vec<Span> = Vec::new();
    let mut start: usize = from;
    let ghost mut done: Seq<Seq<char>> = Seq::empty();
    loop
        invariant_except_break
            from <= start <= to <= chars@.len(),
            spans_are(spans@, chars@, done),
            whole == done + split(chars@.subrange(start as int, to as int), sep),
        ensures
            spans_are(spans@, chars@, whole),
            spans@.len() > 0,
        decreases to - start,
    {
        let k = find(chars, start, to, sep);
        let ghost rest = chars@.subrange(start as int, to as int);
        let ghost piece = chars@.subrange(start as int, k as int);
        spans.push(Span { start, end: k });
        if k == to {
            proof {
                done = done.push(piece);
            }
            break;
        }
        proof {
            assert(rest.take(k - start) =~= piece);
            assert(rest.skip(k - start + 1) =~= chars@.subrange(k + 1, to as int));
            done = done.push(piece);
        }
        start = k + 1;
    }
    spans
}

} // verus!
