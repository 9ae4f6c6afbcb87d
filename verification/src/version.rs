//! The version value: three numbers, prerelease identifiers and build
//! identifiers, with its mathematical view and its canonical text.

use crate::decimal::{all_digits, decimal, push_decimal};
use crate::text::{is_identifier_char, join, lemma_join_push};
use vstd::prelude::*;
use vstd::string::StringExecFns;

verus! {

/// One dot-separated piece of a prerelease, classified for comparison.
#[derive(Clone, Debug)]
pub enum Identifier {
    /// A piece made of digits only, held as its value.
    Numeric(u64),
    /// Any other piece, held as written.
    Text(String),
}

/// What an `Identifier` stands for.
pub enum IdentifierView {
    Numeric(nat),
    Text(Seq<char>),
}

impl View for Identifier {
    type V = IdentifierView;

    open spec fn view(&self) -> IdentifierView {
        match self {
            Identifier::Numeric(n) => IdentifierView::Numeric(*n as nat),
            Identifier::Text(t) => IdentifierView::Text(t@),
        }
    }
}

/// `s` can be an identifier: it is not empty and holds letters, digits and hyphens only.
pub open spec fn is_identifier(s: Seq<char>) -> bool {
    s.len() > 0 && forall|i: int| 0 <= i < s.len() ==> is_identifier_char(#[trigger] s[i])
}

impl IdentifierView {
    /// A numeric identifier fits in 64 bits; a textual one is an identifier
    /// that is not a numeral.
    pub open spec fn well_formed(self) -> bool {
        match self {
            IdentifierView::Numeric(n) => n <= u64::MAX,
            IdentifierView::Text(t) => is_identifier(t) && !all_digits(t),
        }
    }

    /// The identifier as it is written.
    pub open spec fn text(self) -> Seq<char> {
        match self {
            IdentifierView::Numeric(n) => decimal(n),
            IdentifierView::Text(t) => t,
        }
    }
}

/// The written forms of `identifiers`, in order.
pub open spec fn identifier_texts(identifiers: Seq<IdentifierView>) -> Seq<Seq<char>> {
    Seq::new(identifiers.len(), |i: int| identifiers[i].text())
}

/// The prerelease part of a version: its identifiers in order, none for a release.
#[derive(Clone, Debug)]
pub struct Prerelease {
    pub identifiers: Vec<Identifier>,
}

impl View for Prerelease {
    type V = Seq<IdentifierView>;

    open spec fn view(&self) -> Seq<IdentifierView> {
        Seq::new(self.identifiers@.len(), |i: int| self.identifiers@[i]@)
    }
}

/// The build metadata of a version: its identifiers in order, as written.
#[derive(Clone, Debug, PartialEq, Eq)]
pub struct BuildMetadata {
    pub identifiers: Vec<String>,
}

impl View for BuildMetadata {
    type V = Seq<Seq<char>>;

    open spec fn view(&self) -> Seq<Seq<char>> {
        Seq::new(self.identifiers@.len(), |i: int| self.identifiers@[i]@)
    }
}

/// A semantic version.
#[derive(Clone, Debug)]
pub struct Version {
    pub major: u64,
    pub minor: u64,
    pub patch: u64,
    pub pre: Prerelease,
    pub build: BuildMetadata,
}

/// What a `Version` stands for.
pub struct VersionView {
    pub major: nat,
    pub minor: nat,
    pub patch: nat,
    pub pre: Seq<IdentifierView>,
    pub build: Seq<Seq<char>>,
}

impl View for Version {
    type V = VersionView;

    open spec fn view(&self) -> VersionView {
        VersionView {
            major: self.major as nat,
            minor: self.minor as nat,
            patch: self.patch as nat,
            pre: self.pre@,
            build: self.build@,
        }
    }
}

impl VersionView {
    /// The numbers fit in 64 bits and every identifier is well formed.
    pub open spec fn well_formed(self) -> bool {
        &&& self.major <= u64::MAX
        &&& self.minor <= u64::MAX
        &&& self.patch <= u64::MAX
        &&& forall|i: int| 0 <= i < self.pre.len() ==> (#[trigger] self.pre[i]).well_formed()
        &&& forall|i: int| 0 <= i < self.build.len() ==> is_identifier(#[trigger] self.build[i])
    }

    /// `MAJOR.MINOR.PATCH`.
    pub open spec fn core_text(self) -> Seq<char> {
        decimal(self.major) + seq!['.'] + decimal(self.minor) + seq!['.'] + decimal(self.patch)
    }

    /// `-PRERELEASE`, or nothing for a release.
    pub open spec fn pre_suffix(self) -> Seq<char> {
        if self.pre.len() > 0 {
            seq!['-'] + join(identifier_texts(self.pre), '.')
        } else {
            Seq::empty()
        }
    }

    /// `+BUILD`, or nothing without build metadata.
    pub open spec fn build_suffix(self) -> Seq<char> {
        if self.build.len() > 0 {
            seq!['+'] + join(self.build, '.')
        } else {
            Seq::empty()
        }
    }

    /// The canonical text `MAJOR.MINOR.PATCH[-PRERELEASE][+BUILD]`.
    pub open spec fn render(self) -> Seq<char> {
        self.core_text() + self.pre_suffix() + self.build_suffix()
    }
}

/// Writing the piece at `i`, after a dot unless it is the first, carries the
/// joined text from the first `i` pieces to the first `i + 1`.
proof fn lemma_join_next(
    texts: Seq<Seq<char>>,
    i: int,
    base: Seq<char>,
    before: Seq<char>,
    after: Seq<char>,
)
    requires
        0 <= i < texts.len(),
        before == base + join(texts.take(i), '.'),
        after =~= before + (if i > 0 {
            seq!['.']
        } else {
            Seq::empty()
        }) + texts[i],
    ensures
        after == base + join(texts.take(i + 1), '.'),
{
    let piece = texts[i];
    assert(texts.take(i + 1) =~= texts.take(i).push(piece));
    if i > 0 {
        lemma_join_push(texts.take(i), piece, '.');
    }
}

impl Prerelease {
    /// The prerelease of a release: no identifiers.
    pub fn empty() -> (p: Prerelease)
        ensures
            p@ == Seq::<IdentifierView>::empty(),
    {
        Prerelease { identifiers: Vec::new() }
    }

    /// Tells whether there are no identifiers.
    pub fn is_empty(&self) -> (b: bool)
        ensures
            b == (self@.len() == 0),
    {
        self.identifiers.len() == 0
    }

    /// Appends the identifiers, separated by dots, to `out`.
    pub fn write(&self, out: &mut String)
        ensures
            final(out)@ == old(out)@ + join(identifier_texts(self@), '.'),
    {
        let ghost texts = identifier_texts(self@);
        let count = self.identifiers.len();
        let mut i: usize = 0;
        while i < count
            invariant
                i <= count == self.identifiers@.len(),
                texts == identifier_texts(self@),
                out@ == old(out)@ + join(texts.take(i as int), '.'),
            decreases count - i,
        {
            let ghost before = out@;
            if i > 0 {
                out.append(".");
            }
            match &self.identifiers[i] {
                Identifier::Numeric(n) => {
                    push_decimal(out, *n);
                },
                Identifier::Text(t) => {
                    out.append(t.as_str());
                },
            }
            proof {
                reveal_strlit(".");
                lemma_join_next(texts, i as int, old(out)@, before, out@);
            }
            i += 1;
        }
        proof {
            assert(texts.take(count as int) =~= texts);
        }
    }
}

impl BuildMetadata {
    /// No build metadata.
    pub fn empty() -> (b: BuildMetadata)
        ensures
            b@ == Seq::<Seq<char>>::empty(),
    {
        BuildMetadata { identifiers: Vec::new() }
    }

    /// Tells whether there are no identifiers.
    pub fn is_empty(&self) -> (b: bool)
        ensures
            b == (self@.len() == 0),
    {
        self.identifiers.len() == 0
    }

    /// Appends the identifiers, separated by dots, to `out`.
    pub fn write(&self, out: &mut String)
        ensures
            final(out)@ == old(out)@ + join(self@, '.'),
    {
        let ghost texts = self@;
        let count = self.identifiers.len();
        let mut i: usize = 0;
        while i < count
            invariant
                i <= count == self.identifiers@.len(),
                texts == self@,
                out@ == old(out)@ + join(texts.take(i as int), '.'),
            decreases count - i,
        {
            let ghost before = out@;
            if i > 0 {
                out.append(".");
            }
            out.append(self.identifiers[i].as_str());
            proof {
                reveal_strlit(".");
                lemma_join_next(texts, i as int, old(out)@, before, out@);
            }
            i += 1;
        }
        proof {
            assert(texts.take(count as int) =~= texts);
        }
    }
}

impl Version {
    /// The release `major.minor.patch`, without prerelease or build metadata.
    pub fn new(major: u64, minor: u64, patch: u64) -> (v: Version)
        ensures
            v@ == (VersionView {
                major: major as nat,
                minor: minor as nat,
                patch: patch as nat,
                pre: Seq::empty(),
                build: Seq::empty(),
            }),
            v@.well_formed(),
    {
        Version { major, minor, patch, pre: Prerelease::empty(), build: BuildMetadata::empty() }
    }

    /// The canonical text of the version.
    pub fn to_string(&self) -> (s: String)
        ensures
            s@ == self@.render(),
    {
        let mut out = String::new();
        push_decimal(&mut out, self.major);
        out.append(".");
        push_decimal(&mut out, self.minor);
        out.append(".");
        push_decimal(&mut out, self.patch);
        proof {
            reveal_strlit(".");
            reveal_strlit("-");
            reveal_strlit("+");
        }
        if !self.pre.is_empty() {
            out.append("-");
            self.pre.write(&mut out);
        }
        if !self.build.is_empty() {
            out.append("+");
            self.build.write(&mut out);
        }
        out
    }
}

} // verus!
