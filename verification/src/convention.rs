//! The convention of the package address: what the installation writes into
//! the manifest, the check for an update reads back.

use crate::canonical::lemma_parse_render;
use crate::decimal::lemma_decimal;
use crate::install::package_url;
use crate::package_manifest::{installed_version, version_token, ManifestFault};
use crate::text::{
    first_index, lacks, lemma_first_index, lemma_first_index_after, lemma_first_index_is,
    lemma_join_lacks, split,
};
use crate::version::VersionView;
use vstd::prelude::*;

verus! {

/// The first piece of `a + sep + b` is `a`, when `a` does not hold the separator.
proof fn lemma_split_first(a: Seq<char>, sep: char, b: Seq<char>)
    requires
        lacks(a, sep),
    ensures
        split(a + seq![sep] + b, sep) == seq![a] + split(b, sep),
{
    let s = a + seq![sep] + b;
    let tail = seq![sep] + b;
    assert(s =~= a + tail);
    lemma_first_index_after(a, tail, sep);
    assert(s.take(a.len() as int) =~= a);
    assert(s.skip(a.len() as int + 1) =~= b);
}

/// In the address of the package of `version`, the piece that is read as the
/// installed version is `version` up to its first hyphen.
pub proof fn lemma_token_of_package_url(version: Seq<char>)
    requires
        lacks(version, '/'),
    ensures
        version_token(package_url(version)) == Some(
            version.take(first_index(version, '-') as int),
        ),
{
    reveal_strlit("https://cdn.sheetjs.com/xlsx-");
    reveal_strlit("/xlsx-");
    reveal_strlit(".tgz");
    let scheme = seq!['h', 't', 't', 'p', 's', ':'];
    let empty = Seq::<char>::empty();
    let host = seq!['c', 'd', 'n', '.', 's', 'h', 'e', 'e', 't', 'j', 's', '.', 'c', 'o', 'm'];
    let name = seq!['x', 'l', 's', 'x'];
    let directory = name + seq!['-'] + version;
    let file = name + seq!['-'] + version + seq!['.', 't', 'g', 'z'];
    let after_host = directory + seq!['/'] + file;
    let after_empty = host + seq!['/'] + after_host;
    let after_scheme = empty + seq!['/'] + after_empty;
    let url = scheme + seq!['/'] + after_scheme;
    assert(package_url(version) =~= url);

    lemma_split_first(scheme, '/', after_scheme);
    lemma_split_first(empty, '/', after_empty);
    lemma_split_first(host, '/', after_host);
    lemma_split_first(directory, '/', file);
    lemma_split_first(name, '-', version);
    lemma_first_index(version, '-');
}

/// The canonical text of a release holds no `/`; it holds no `-` when no
/// build identifier does.
proof fn lemma_release_text(v: VersionView)
    requires
        v.well_formed(),
        v.pre.len() == 0,
        forall|i: int| 0 <= i < v.build.len() ==> lacks(#[trigger] v.build[i], '-'),
    ensures
        lacks(v.render(), '/'),
        lacks(v.render(), '-'),
{
    lemma_decimal(v.major);
    lemma_decimal(v.minor);
    lemma_decimal(v.patch);
    lemma_join_lacks(v.build, '.', '/');
    lemma_join_lacks(v.build, '.', '-');
}

/// A release that has been installed from its address is found installed:
/// the version read from the address of the canonical text of `v` is `v`,
/// when `v` has no prerelease and no hyphen in its build metadata.
pub proof fn lemma_installed_release_is_read_back(v: VersionView)
    requires
        v.well_formed(),
        v.pre.len() == 0,
        forall|i: int| 0 <= i < v.build.len() ==> lacks(#[trigger] v.build[i], '-'),
    ensures
        installed_version(Some(package_url(v.render()))) == Ok::<Option<VersionView>, ManifestFault>(
            Some(v),
        ),
{
    let text = v.render();
    lemma_release_text(v);
    lemma_token_of_package_url(text);
    lemma_first_index_is(text, '-', text.len() as int);
    assert(text.take(text.len() as int) =~= text);
    lemma_parse_render(v);
}

} // verus!
