//! The precedence order of versions.
//!
//! Versions are ordered by major, minor and patch number. With these equal, a
//! version with a prerelease comes before the one without; two prereleases
//! are compared identifier by identifier, a numeric identifier by its value,
//! a textual one character by character, a numeric one before a textual one,
//! and a prerelease before every longer one that starts with it. Build
//! metadata plays no part.

use crate::version::{Identifier, IdentifierView, Prerelease, Version, VersionView};
use vstd::prelude::*;
use vstd::string::StrSliceExecFns;

verus! {

/// `a` comes before `b` in the lexicographic order that `lt` gives on elements:
/// at the first position where they differ `a` holds the smaller element, or
/// `a` ends there and `b` does not.
pub open spec fn lex_lt<T>(a: Seq<T>, b: Seq<T>, lt: spec_fn(T, T) -> bool) -> bool
    decreases a.len(),
{
    if a.len() == 0 {
        b.len() > 0
    } else if b.len() == 0 {
        false
    } else if a[0] != b[0] {
        lt(a[0], b[0])
    } else {
        lex_lt(a.drop_first(), b.drop_first(), lt)
    }
}

/// `lt` never holds of a value and itself.
pub open spec fn irreflexive<T>(lt: spec_fn(T, T) -> bool) -> bool {
    forall|x: T| !#[trigger] lt(x, x)
}

/// `lt` carries over a middle value.
pub open spec fn transitive<T>(lt: spec_fn(T, T) -> bool) -> bool {
    forall|x: T, y: T, z: T| #[trigger] lt(x, y) && #[trigger] lt(y, z) ==> lt(x, z)
}

/// `lt` orders every two different values.
pub open spec fn connected<T>(lt: spec_fn(T, T) -> bool) -> bool {
    forall|x: T, y: T| x != y ==> #[trigger] lt(x, y) || lt(y, x)
}

/// The order of characters by code point.
pub open spec fn char_lt() -> spec_fn(char, char) -> bool {
    |x: char, y: char| x < y
}

/// Textual identifiers are compared character by character.
pub open spec fn text_lt(a: Seq<char>, b: Seq<char>) -> bool {
    lex_lt(a, b, char_lt())
}

/// The order of single identifiers.
pub open spec fn identifier_lt(a: IdentifierView, b: IdentifierView) -> bool {
    match (a, b) {
        (IdentifierView::Numeric(x), IdentifierView::Numeric(y)) => x < y,
        (IdentifierView::Numeric(_), IdentifierView::Text(_)) => true,
        (IdentifierView::Text(_), IdentifierView::Numeric(_)) => false,
        (IdentifierView::Text(x), IdentifierView::Text(y)) => text_lt(x, y),
    }
}

/// `identifier_lt` as a value.
pub open spec fn identifier_order() -> spec_fn(IdentifierView, IdentifierView) -> bool {
    |x: IdentifierView, y: IdentifierView| identifier_lt(x, y)
}

/// The order of prereleases: any prerelease before none, otherwise identifier by identifier.
pub open spec fn prerelease_lt(a: Seq<IdentifierView>, b: Seq<IdentifierView>) -> bool {
    if a.len() == 0 {
        false
    } else if b.len() == 0 {
        true
    } else {
        lex_lt(a, b, identifier_order())
    }
}

impl VersionView {
    /// `self` has lower precedence than `other`.
    pub open spec fn precedes(self, other: VersionView) -> bool {
        if self.major != other.major {
            self.major < other.major
        } else if self.minor != other.minor {
            self.minor < other.minor
        } else if self.patch != other.patch {
            self.patch < other.patch
        } else {
            prerelease_lt(self.pre, other.pre)
        }
    }

    /// `self` and `other` are the same version but for build metadata.
    pub open spec fn same_precedence(self, other: VersionView) -> bool {
        &&& self.major == other.major
        &&& self.minor == other.minor
        &&& self.patch == other.patch
        &&& self.pre == other.pre
    }

    /// `self` precedes `other` or has the same precedence.
    pub open spec fn at_most(self, other: VersionView) -> bool {
        self.precedes(other) || self.same_precedence(other)
    }
}

/// No sequence comes before itself.
pub proof fn lemma_lex_irreflexive<T>(a: Seq<T>, lt: spec_fn(T, T) -> bool)
    ensures
        !lex_lt(a, a, lt),
    decreases a.len(),
{
    if a.len() > 0 {
        lemma_lex_irreflexive(a.drop_first(), lt);
    }
}

/// The lexicographic order of a strict order carries over a middle sequence.
pub proof fn lemma_lex_transitive<T>(a: Seq<T>, b: Seq<T>, c: Seq<T>, lt: spec_fn(T, T) -> bool)
    requires
        irreflexive(lt),
        transitive(lt),
        lex_lt(a, b, lt),
        lex_lt(b, c, lt),
    ensures
        lex_lt(a, c, lt),
    decreases a.len(),
{
    if a.len() > 0 {
        if a[0] == b[0] && b[0] == c[0] {
            lemma_lex_transitive(a.drop_first(), b.drop_first(), c.drop_first(), lt);
        }
    }
}

/// Two different sequences are ordered one way or the other, when their elements are.
pub proof fn lemma_lex_connected<T>(a: Seq<T>, b: Seq<T>, lt: spec_fn(T, T) -> bool)
    requires
        connected(lt),
    ensures
        a == b || lex_lt(a, b, lt) || lex_lt(b, a, lt),
    decreases a.len(),
{
    if a.len() == 0 || b.len() == 0 {
    } else if a[0] == b[0] {
        lemma_lex_connected(a.drop_first(), b.drop_first(), lt);
        if a.drop_first() == b.drop_first() {
            assert(a =~= seq![a[0]] + a.drop_first());
        }
    }
}

/// The order of characters is a strict total order.
pub proof fn lemma_char_order()
    ensures
        irreflexive(char_lt()),
        transitive(char_lt()),
        connected(char_lt()),
{
}

/// The order of identifiers is a strict total order.
pub proof fn lemma_identifier_order()
    ensures
        irreflexive(identifier_order()),
        transitive(identifier_order()),
        connected(identifier_order()),
{
    let lt = identifier_order();
    lemma_char_order();
    assert forall|x: IdentifierView| !#[trigger] lt(x, x) by {
        if let IdentifierView::Text(t) = x {
            lemma_lex_irreflexive(t, char_lt());
        }
    }
    assert forall|x: IdentifierView, y: IdentifierView, z: IdentifierView| #[trigger]
        lt(x, y) && #[trigger] lt(y, z) implies lt(x, z) by {
        match (x, y, z) {
            (IdentifierView::Text(a), IdentifierView::Text(b), IdentifierView::Text(c)) => {
                lemma_lex_transitive(a, b, c, char_lt());
            },
            _ => {},
        }
    }
    assert forall|x: IdentifierView, y: IdentifierView| x != y implies #[trigger] lt(x, y) || lt(
        y,
        x,
    ) by {
        match (x, y) {
            (IdentifierView::Text(a), IdentifierView::Text(b)) => {
                lemma_lex_connected(a, b, char_lt());
            },
            _ => {},
        }
    }
}

/// No version precedes itself.
pub proof fn lemma_precedes_irreflexive(a: VersionView)
    ensures
        !a.precedes(a),
{
    lemma_lex_irreflexive(a.pre, identifier_order());
}

/// Precedence carries over a middle version.
pub proof fn lemma_precedes_transitive(a: VersionView, b: VersionView, c: VersionView)
    requires
        a.precedes(b),
        b.precedes(c),
    ensures
        a.precedes(c),
{
    lemma_identifier_order();
    if a.major == b.major && b.major == c.major && a.minor == b.minor && b.minor == c.minor
        && a.patch == b.patch && b.patch == c.patch {
        if c.pre.len() > 0 {
            lemma_lex_transitive(a.pre, b.pre, c.pre, identifier_order());
        }
    }
}

/// Precedence is a total order on versions up to build metadata: of two
/// versions exactly one of three holds, the first precedes the second, the
/// second precedes the first, or they have the same precedence.
pub proof fn lemma_precedes_total(a: VersionView, b: VersionView)
    ensures
        a.precedes(b) || b.precedes(a) || a.same_precedence(b),
        !(a.precedes(b) && b.precedes(a)),
        !(a.precedes(b) && a.same_precedence(b)),
        !(b.precedes(a) && a.same_precedence(b)),
{
    lemma_identifier_order();
    lemma_lex_connected(a.pre, b.pre, identifier_order());
    lemma_precedes_irreflexive(a);
    if a.precedes(b) && b.precedes(a) {
        lemma_precedes_transitive(a, b, a);
    }
}

/// A version with a prerelease precedes the release with the same numbers.
pub proof fn lemma_prerelease_precedes_release(pre: VersionView, release: VersionView)
    requires
        pre.major == release.major,
        pre.minor == release.minor,
        pre.patch == release.patch,
        pre.pre.len() > 0,
        release.pre.len() == 0,
    ensures
        pre.precedes(release),
        !release.precedes(pre),
{
}

/// Versions that differ in build metadata only can stand for one another in
/// every comparison.
pub proof fn lemma_build_metadata_ignored(a: VersionView, b: VersionView, c: VersionView)
    requires
        a.major == b.major,
        a.minor == b.minor,
        a.patch == b.patch,
        a.pre == b.pre,
    ensures
        a.same_precedence(b),
        !a.precedes(b),
        !b.precedes(a),
        a.precedes(c) == b.precedes(c),
        c.precedes(a) == c.precedes(b),
        a.same_precedence(c) == b.same_precedence(c),
{
    lemma_precedes_irreflexive(a);
}

/// Tells whether `a` comes before `b`, character by character.
pub fn text_less(a: &str, b: &str) -> (r: bool)
    ensures
        r == text_lt(a@, b@),
{
    let n = a.unicode_len();
    let m = b.unicode_len();
    let mut i: usize = 0;
    proof {
        assert(a@.skip(0) =~= a@);
        assert(b@.skip(0) =~= b@);
    }
    while i < n && i < m
        invariant
            i <= n == a@.len(),
            i <= m == b@.len(),
            text_lt(a@, b@) == text_lt(a@.skip(i as int), b@.skip(i as int)),
        decreases n - i,
    {
        let x = a.get_char(i);
        let y = b.get_char(i);
        proof {
            assert(a@.skip(i as int).drop_first() =~= a@.skip(i + 1));
            assert(b@.skip(i as int).drop_first() =~= b@.skip(i + 1));
        }
        if x != y {
            return x < y;
        }
        i += 1;
    }
    i == n && i < m
}

/// Tells whether `a` and `b` are the same identifier.
pub fn identifier_same(a: &Identifier, b: &Identifier) -> (r: bool)
    ensures
        r == (a@ == b@),
{
    match (a, b) {
        (Identifier::Numeric(x), Identifier::Numeric(y)) => *x == *y,
        (Identifier::Text(x), Identifier::Text(y)) => *x == *y,
        _ => false,
    }
}

/// Tells whether `a` comes before `b`.
pub fn identifier_less(a: &Identifier, b: &Identifier) -> (r: bool)
    ensures
        r == identifier_lt(a@, b@),
{
    match (a, b) {
        (Identifier::Numeric(x), Identifier::Numeric(y)) => *x < *y,
        (Identifier::Numeric(_), Identifier::Text(_)) => true,
        (Identifier::Text(_), Identifier::Numeric(_)) => false,
        (Identifier::Text(x), Identifier::Text(y)) => text_less(x.as_str(), y.as_str()),
    }
}

impl Prerelease {
    /// Tells whether the two prereleases hold the same identifiers.
    pub fn same(&self, other: &Prerelease) -> (r: bool)
        ensures
            r == (self@ == other@),
    {
        let n = self.identifiers.len();
        if n != other.identifiers.len() {
            return false;
        }
        let mut i: usize = 0;
        while i < n
            invariant
                i <= n,
                n == self.identifiers@.len(),
                n == other.identifiers@.len(),
                forall|j: int| 0 <= j < i ==> self@[j] == other@[j],
            decreases n - i,
        {
            if !identifier_same(&self.identifiers[i], &other.identifiers[i]) {
                assert(self@[i as int] != other@[i as int]);
                return false;
            }
            i += 1;
        }
        assert(self@ =~= other@);
        true
    }

    /// Tells whether `self` comes before `other` in the order of prereleases.
    pub fn less(&self, other: &Prerelease) -> (r: bool)
        ensures
            r == prerelease_lt(self@, other@),
    {
        let n = self.identifiers.len();
        let m = other.identifiers.len();
        if n == 0 {
            return false;
        }
        if m == 0 {
            return true;
        }
        let ghost lt = identifier_order();
        let mut i: usize = 0;
        proof {
            assert(self@.skip(0) =~= self@);
            assert(other@.skip(0) =~= other@);
        }
        while i < n && i < m
            invariant
                i <= n == self.identifiers@.len(),
                i <= m == other.identifiers@.len(),
                lt == identifier_order(),
                lex_lt(self@, other@, lt) == lex_lt(self@.skip(i as int), other@.skip(i as int), lt),
            decreases n - i,
        {
            let x = &self.identifiers[i];
            let y = &other.identifiers[i];
            proof {
                assert(self@.skip(i as int).drop_first() =~= self@.skip(i + 1));
                assert(other@.skip(i as int).drop_first() =~= other@.skip(i + 1));
            }
            if !identifier_same(x, y) {
                return identifier_less(x, y);
            }
            i += 1;
        }
        i == n && i < m
    }
}

impl Version {
    /// Tells whether `self` has lower precedence than `other`.
    pub fn precedes(&self, other: &Version) -> (r: bool)
        ensures
            r == self@.precedes(other@),
    {
        if self.major != other.major {
            self.major < other.major
        } else if self.minor != other.minor {
            self.minor < other.minor
        } else if self.patch != other.patch {
            self.patch < other.patch
        } else {
            self.pre.less(&other.pre)
        }
    }

    /// Tells whether `self` and `other` are the same version but for build metadata.
    pub fn same_precedence(&self, other: &Version) -> (r: bool)
        ensures
            r == self@.same_precedence(other@),
    {
        self.major == other.major && self.minor == other.minor && self.patch == other.patch
            && self.pre.same(&other.pre)
    }
}

} // verus!
