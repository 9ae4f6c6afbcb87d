//! Canonical version strings, `MAJOR.MINOR.PATCH[-PRERELEASE][+BUILD]`:
//! what `render` writes and `parse_version` reads back unchanged.

use crate::decimal::{
    all_digits, decimal, digits_value, is_canonical_number, lemma_decimal, lemma_decimal_canonical,
    lemma_decimal_of_value,
};
use crate::parse::{
    classify, is_prerelease_identifier, lemma_parse_version_well_formed, marker_len, parse_version,
};
use crate::text::{
    first_index, join, lacks, lemma_first_index, lemma_first_index_after, lemma_join_lacks,
    lemma_join_split, lemma_split_join, split,
};
use crate::version::{identifier_texts, is_identifier, IdentifierView, VersionView};
use vstd::prelude::*;

verus! {

/// `s` is a prerelease identifier in canonical form: if it is a numeral, it
/// has no needless zeros in front.
pub open spec fn is_canonical_identifier(s: Seq<char>) -> bool {
    is_prerelease_identifier(s) && (all_digits(s) ==> is_canonical_number(s))
}

/// `s` is a canonical version string: three numerals without needless zeros,
/// separated by dots; then, if there is a `-` before the first `+`, canonical
/// prerelease identifiers separated by dots; then, if there is a `+`, build
/// identifiers separated by dots. There is no marker.
pub open spec fn is_canonical(s: Seq<char>) -> bool {
    let plus = first_index(s, '+') as int;
    let main = s.take(plus);
    let dash = first_index(main, '-') as int;
    let numbers = split(main.take(dash), '.');
    let pre = split(main.skip(dash + 1), '.');
    let build = split(s.skip(plus + 1), '.');
    &&& numbers.len() == 3
    &&& forall|i: int| 0 <= i < numbers.len() ==> is_canonical_number(#[trigger] numbers[i])
    &&& dash < main.len() ==> forall|i: int|
        0 <= i < pre.len() ==> is_canonical_identifier(#[trigger] pre[i])
    &&& plus < s.len() ==> forall|i: int| 0 <= i < build.len() ==> is_identifier(#[trigger] build[i])
}

/// The written form of a well-formed identifier is a canonical identifier,
/// without `.` and `+`, that classifies as the identifier itself.
proof fn lemma_identifier_text(identifier: IdentifierView)
    requires
        identifier.well_formed(),
    ensures
        is_canonical_identifier(identifier.text()),
        classify(identifier.text()) == identifier,
        lacks(identifier.text(), '.'),
        lacks(identifier.text(), '+'),
{
    if let IdentifierView::Numeric(n) = identifier {
        lemma_decimal(n);
        lemma_decimal_canonical(n);
    }
}

/// A canonical identifier is the written form of what it classifies as.
proof fn lemma_classified_text(piece: Seq<char>)
    requires
        is_canonical_identifier(piece),
    ensures
        classify(piece).text() == piece,
{
    if all_digits(piece) {
        lemma_decimal_of_value(piece);
    }
}

/// Where the parts of the canonical text of a well-formed version lie.
proof fn lemma_render_parts(v: VersionView)
    requires
        v.well_formed(),
    ensures
        ({
            let s = v.render();
            let core = v.core_text();
            let plus = first_index(s, '+') as int;
            let main = s.take(plus);
            let dash = first_index(main, '-') as int;
            &&& marker_len(s) == 0
            &&& main == core + v.pre_suffix()
            &&& main.take(dash) == core
            &&& split(core, '.') == seq![decimal(v.major), decimal(v.minor), decimal(v.patch)]
            &&& v.pre.len() > 0 <==> dash < main.len()
            &&& v.pre.len() > 0 ==> split(main.skip(dash + 1), '.') == identifier_texts(v.pre)
            &&& v.build.len() > 0 <==> plus < s.len()
            &&& v.build.len() > 0 ==> split(s.skip(plus + 1), '.') == v.build
        }),
{
    let s = v.render();
    let core = v.core_text();
    let main = core + v.pre_suffix();
    let texts = identifier_texts(v.pre);

    // the numbers
    let numbers = seq![decimal(v.major), decimal(v.minor), decimal(v.patch)];
    lemma_decimal(v.major);
    lemma_decimal(v.minor);
    lemma_decimal(v.patch);
    assert(join(numbers.drop_first().drop_first(), '.') == decimal(v.patch));
    assert(join(numbers.drop_first(), '.') =~= decimal(v.minor) + seq!['.'] + decimal(v.patch));
    assert(join(numbers, '.') =~= core);
    lemma_split_join(numbers, '.');
    lemma_join_lacks(numbers, '.', '-');

    // the identifiers
    assert forall|i: int| 0 <= i < texts.len() implies lacks(#[trigger] texts[i], '.') && lacks(
        texts[i],
        '+',
    ) by {
        lemma_identifier_text(v.pre[i]);
    }
    if v.pre.len() > 0 {
        lemma_split_join(texts, '.');
        lemma_join_lacks(texts, '.', '+');
    }
    if v.build.len() > 0 {
        lemma_split_join(v.build, '.');
    }
    // the build part starts at the first `+`

    lemma_first_index_after(main, v.build_suffix(), '+');
    let plus = first_index(s, '+') as int;
    assert(s.take(plus) =~= main);
    if v.build.len() > 0 {
        assert(s.skip(plus + 1) =~= join(v.build, '.'));
    }
    // the prerelease part starts at the first `-` before it

    lemma_first_index_after(core, v.pre_suffix(), '-');
    let dash = first_index(main, '-') as int;
    if v.pre.len() > 0 {
        assert(main.skip(dash + 1) =~= join(texts, '.'));
    }
}

/// Parsing the canonical text of a well-formed version gives that version
/// back, build metadata included.
pub proof fn lemma_parse_render(v: VersionView)
    requires
        v.well_formed(),
    ensures
        parse_version(v.render()) == Some(v),
{
    let s = v.render();
    lemma_render_parts(v);
    assert(s.skip(0) =~= s);
    lemma_decimal(v.major);
    lemma_decimal(v.minor);
    lemma_decimal(v.patch);
    let texts = identifier_texts(v.pre);
    assert forall|i: int| 0 <= i < texts.len() implies is_prerelease_identifier(
        #[trigger] texts[i],
    ) && classify(texts[i]) == v.pre[i] by {
        lemma_identifier_text(v.pre[i]);
    }
    assert(parse_version(s).unwrap().pre =~= v.pre);
    assert(parse_version(s).unwrap().build =~= v.build);
}

/// The text that is written for a well-formed version is canonical.
pub proof fn lemma_render_canonical(v: VersionView)
    requires
        v.well_formed(),
    ensures
        is_canonical(v.render()),
{
    lemma_render_parts(v);
    let numbers = seq![decimal(v.major), decimal(v.minor), decimal(v.patch)];
    assert forall|i: int| 0 <= i < numbers.len() implies is_canonical_number(
        #[trigger] numbers[i],
    ) by {
        let n = if i == 0 {
            v.major
        } else if i == 1 {
            v.minor
        } else {
            v.patch
        };
        lemma_decimal(n);
        lemma_decimal_canonical(n);
    }
    let texts = identifier_texts(v.pre);
    assert forall|i: int| 0 <= i < texts.len() implies is_canonical_identifier(
        #[trigger] texts[i],
    ) by {
        lemma_identifier_text(v.pre[i]);
    }
}

/// Parsing a canonical string and writing the result gives the string back.
pub proof fn lemma_canonical_round_trip(s: Seq<char>)
    requires
        is_canonical(s),
    ensures
        parse_version(s) is Some,
        parse_version(s).unwrap().render() == s,
{
    let plus = first_index(s, '+') as int;
    let main = s.take(plus);
    let dash = first_index(main, '-') as int;
    let core = main.take(dash);
    let numbers = split(core, '.');
    lemma_first_index(s, '+');
    lemma_first_index(main, '-');

    // there is no marker
    lemma_join_split(core, '.');
    assert(join(numbers.drop_first().drop_first(), '.') == numbers[2]);
    assert(join(numbers.drop_first(), '.') =~= numbers[1] + seq!['.'] + numbers[2]);
    assert(core =~= numbers[0] + seq!['.'] + numbers[1] + seq!['.'] + numbers[2]);
    assert(s.skip(0) =~= s);
    let v = parse_version(s).unwrap();

    // the numbers are written as they were read
    assert forall|i: int| 0 <= i < 3 implies decimal(digits_value(#[trigger] numbers[i]))
        == numbers[i] by {
        lemma_decimal_of_value(numbers[i]);
    }

    // so are the prerelease identifiers
    if dash < main.len() {
        let text = main.skip(dash + 1);
        let pieces = split(text, '.');
        lemma_join_split(text, '.');
        assert forall|i: int| 0 <= i < pieces.len() implies identifier_texts(v.pre)[i]
            == pieces[i] by {
            lemma_classified_text(pieces[i]);
        }
        assert(identifier_texts(v.pre) =~= pieces);
    }

    // and the build identifiers
    if plus < s.len() {
        let text = s.skip(plus + 1);
        lemma_join_split(text, '.');
    }
}

/// Parsing is idempotent: the canonical text of whatever was parsed from `s`
/// parses to the same version again.
pub proof fn lemma_parse_idempotent(s: Seq<char>)
    requires
        parse_version(s) is Some,
    ensures
        parse_version(parse_version(s).unwrap().render()) == parse_version(s),
{
    lemma_parse_version_well_formed(s);
    lemma_parse_render(parse_version(s).unwrap());
}

} // verus!
