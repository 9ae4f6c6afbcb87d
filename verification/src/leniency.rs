//! What the grammar forgives: a marker before the numbers, and numbers left out.

use crate::decimal::{all_digits, digits_value};
use crate::parse::{marker_len, parse_core, parse_version};
use crate::text::{
    first_index, is_digit, lacks, lemma_first_index, lemma_first_index_after, lemma_first_index_is,
    split,
};
use vstd::prelude::*;

verus! {

/// The marker never reaches beyond the string.
pub proof fn lemma_marker_len_bound(s: Seq<char>)
    ensures
        marker_len(s) <= s.len(),
    decreases s.len(),
{
    if s.len() > 0 && !is_digit(s[0]) {
        lemma_marker_len_bound(s.drop_first());
    }
}

/// A string means the same with any run of characters that are not digits put
/// in front of it: `v1.2.3` is `1.2.3`.
pub proof fn lemma_marker_ignored(marker: Seq<char>, s: Seq<char>)
    requires
        forall|i: int| 0 <= i < marker.len() ==> !is_digit(marker[i]),
    ensures
        parse_version(marker + s) == parse_version(s),
    decreases marker.len(),
{
    if marker.len() > 0 {
        let rest = marker.drop_first();
        lemma_marker_ignored(rest, s);
        lemma_marker_len_bound(rest + s);
        let whole = marker + s;
        assert(whole.drop_first() =~= rest + s);
        assert(whole.skip(marker_len(whole) as int) =~= (rest + s).skip(
            marker_len(rest + s) as int,
        ));
    }
}

/// Where the parts of `core + rest` lie, when `core` starts with a digit and
/// holds neither `+` nor `-`, and `rest` is empty or starts with one of them.
proof fn lemma_parts(core: Seq<char>, rest: Seq<char>)
    requires
        core.len() > 0,
        is_digit(core[0]),
        lacks(core, '+'),
        lacks(core, '-'),
        rest.len() == 0 || rest[0] == '+' || rest[0] == '-',
    ensures
        ({
            let s = core + rest;
            let p = first_index(rest, '+') as int;
            let main = s.take(core.len() + p);
            &&& marker_len(s) == 0
            &&& p <= rest.len()
            &&& first_index(s, '+') == core.len() + p
            &&& first_index(main, '-') == core.len()
            &&& main.take(core.len() as int) == core
            &&& main.len() == core.len() + p
            &&& p > 0 ==> main.skip(core.len() as int + 1) == rest.take(p).skip(1)
            &&& p < rest.len() ==> s.skip(core.len() + p + 1) == rest.skip(p + 1)
        }),
{
    let s = core + rest;
    let p = first_index(rest, '+') as int;
    let main = s.take(core.len() + p);
    let before = rest.take(p);
    lemma_first_index(rest, '+');
    lemma_first_index_after(core, rest, '+');
    assert(main =~= core + before);
    lemma_first_index_after(core, before, '-');
}

/// Two strings that differ in their numbers only, and whose numbers read the
/// same, denote the same version.
pub proof fn lemma_same_numbers(first: Seq<char>, second: Seq<char>, rest: Seq<char>)
    requires
        first.len() > 0,
        second.len() > 0,
        is_digit(first[0]),
        is_digit(second[0]),
        lacks(first, '+'),
        lacks(first, '-'),
        lacks(second, '+'),
        lacks(second, '-'),
        rest.len() == 0 || rest[0] == '+' || rest[0] == '-',
        parse_core(first) == parse_core(second),
    ensures
        parse_version(first + rest) == parse_version(second + rest),
{
    lemma_parts(first, rest);
    lemma_parts(second, rest);
    assert((first + rest).skip(0) =~= first + rest);
    assert((second + rest).skip(0) =~= second + rest);
}

/// The numbers of `x.y.z`.
proof fn lemma_core_of_three(x: Seq<char>, y: Seq<char>, z: Seq<char>)
    requires
        all_digits(x),
        all_digits(y),
        all_digits(z),
    ensures
        split(x + seq!['.'] + y + seq!['.'] + z, '.') == seq![x, y, z],
{
    let yz = y + seq!['.'] + z;
    let s = x + seq!['.'] + y + seq!['.'] + z;
    let dot_yz = seq!['.'] + yz;
    let dot_z = seq!['.'] + z;
    lemma_first_index_is(z, '.', z.len() as int);
    assert(split(z, '.') == seq![z]);
    lemma_first_index_after(y, dot_z, '.');
    assert(yz =~= y + dot_z);
    assert(yz.take(y.len() as int) =~= y);
    assert(yz.skip(y.len() as int + 1) =~= z);
    assert(split(yz, '.') =~= seq![y, z]);
    lemma_first_index_after(x, dot_yz, '.');
    assert(s =~= x + dot_yz);
    assert(s.take(x.len() as int) =~= x);
    assert(s.skip(x.len() as int + 1) =~= yz);
}

/// The numbers of `x.y`.
proof fn lemma_core_of_two(x: Seq<char>, y: Seq<char>)
    requires
        all_digits(x),
        all_digits(y),
    ensures
        split(x + seq!['.'] + y, '.') == seq![x, y],
{
    let s = x + seq!['.'] + y;
    let dot_y = seq!['.'] + y;
    lemma_first_index_is(y, '.', y.len() as int);
    assert(split(y, '.') == seq![y]);
    lemma_first_index_after(x, dot_y, '.');
    assert(s =~= x + dot_y);
    assert(s.take(x.len() as int) =~= x);
    assert(s.skip(x.len() as int + 1) =~= y);
}

/// Numbers that are left out are zero: before any prerelease or build, `X`
/// means `X.0.0` and `X.Y` means `X.Y.0`.
pub proof fn lemma_default_fill(x: Seq<char>, y: Seq<char>, rest: Seq<char>)
    requires
        x.len() > 0,
        y.len() > 0,
        all_digits(x),
        all_digits(y),
        rest.len() == 0 || rest[0] == '+' || rest[0] == '-',
    ensures
        parse_version(x + rest) == parse_version(x + seq!['.', '0', '.', '0'] + rest),
        parse_version(x + seq!['.'] + y + rest) == parse_version(
            x + seq!['.'] + y + seq!['.', '0'] + rest,
        ),
{
    let zero = seq!['0'];
    assert(digits_value(zero.drop_last()) == 0);

    let one = x;
    let one_filled = x + seq!['.', '0', '.', '0'];
    lemma_first_index_is(x, '.', x.len() as int);
    lemma_core_of_three(x, zero, zero);
    assert(one_filled =~= x + seq!['.'] + zero + seq!['.'] + zero);
    lemma_same_numbers(one, one_filled, rest);

    let two = x + seq!['.'] + y;
    let two_filled = x + seq!['.'] + y + seq!['.', '0'];
    lemma_core_of_two(x, y);
    lemma_core_of_three(x, y, zero);
    assert(two_filled =~= x + seq!['.'] + y + seq!['.'] + zero);
    lemma_same_numbers(two, two_filled, rest);
}

} // verus!
