//! The installed version, as the package manifest pins it.
//!
//! The manifest is a JSON document. Under `dependencies`, the entry `xlsx`
//! holds, as a string, the address the package was installed from, of the form
//! `https://<host>/<package>-<version>/<package>-<version>.<ext>`. The
//! version is taken from a fixed place in it: the address is split at `/`,
//! the fourth piece is split at `-`, and the second piece of that is read as
//! a version.

use crate::parse::{parse, parse_version, ParseError};
use crate::text::{split, split_spans, to_chars};
use crate::version::{Version, VersionView};
use vstd::prelude::*;
use vstd::string::StrSliceExecFns;

verus! {

/// The entry of the package in the manifest.
#[derive(Clone, Debug, PartialEq, Eq)]
pub enum Dependency {
    /// The manifest does not declare the package.
    Absent,
    /// The manifest declares the package with something else than a string.
    NotText,
    /// The manifest declares the package with this string.
    Text(String),
}

/// What a `Dependency` stands for.
pub enum DependencyView {
    Absent,
    NotText,
    Text(Seq<char>),
}

impl View for Dependency {
    type V = DependencyView;

    open spec fn view(&self) -> DependencyView {
        match self {
            Dependency::Absent => DependencyView::Absent,
            Dependency::NotText => DependencyView::NotText,
            Dependency::Text(text) => DependencyView::Text(text@),
        }
    }
}

/// Why the installed version could not be told.
#[derive(Clone, Debug, PartialEq, Eq)]
pub enum ManifestError {
    /// The manifest is not a JSON document; `reason` says what the reader found.
    InvalidJson { reason: String },
    /// The entry of the package is there, but it is not a string.
    DependencyNotText,
    /// The address has fewer than four pieces between `/`, or its fourth
    /// piece has no `-`.
    MalformedDependencyUrl { url: String },
    /// The piece of the address that should be a version is not one.
    InvalidVersion(ParseError),
}

/// What a `ManifestError` stands for.
pub enum ManifestFault {
    InvalidJson,
    DependencyNotText,
    MalformedDependencyUrl(Seq<char>),
    InvalidVersion(Seq<char>),
}

impl View for ManifestError {
    type V = ManifestFault;

    open spec fn view(&self) -> ManifestFault {
        match self {
            ManifestError::InvalidJson { .. } => ManifestFault::InvalidJson,
            ManifestError::DependencyNotText => ManifestFault::DependencyNotText,
            ManifestError::MalformedDependencyUrl { url } => ManifestFault::MalformedDependencyUrl(
                url@,
            ),
            ManifestError::InvalidVersion(e) => ManifestFault::InvalidVersion(e.input@),
        }
    }
}

/// The piece of `url` where the version stands, if `url` has that piece.
pub open spec fn version_token(url: Seq<char>) -> Option<Seq<char>> {
    let segments = split(url, '/');
    if segments.len() < 4 {
        None
    } else {
        let pieces = split(segments[3], '-');
        if pieces.len() < 2 {
            None
        } else {
            Some(pieces[1])
        }
    }
}

/// The installed version that a dependency entry tells: none without an
/// entry, otherwise the version in the address, or the fault of the address.
pub open spec fn installed_version(dependency: Option<Seq<char>>) -> Result<
    Option<VersionView>,
    ManifestFault,
> {
    match dependency {
        None => Ok(None),
        Some(url) => match version_token(url) {
            None => Err(ManifestFault::MalformedDependencyUrl(url)),
            Some(token) => match parse_version(token) {
                None => Err(ManifestFault::InvalidVersion(token)),
                Some(version) => Ok(Some(version)),
            },
        },
    }
}

/// The entry that a lookup found: nothing, a value that is no string, or a string.
pub open spec fn found_dependency(found: Option<Option<Seq<char>>>) -> DependencyView {
    match found {
        None => DependencyView::Absent,
        Some(None) => DependencyView::NotText,
        Some(Some(text)) => DependencyView::Text(text),
    }
}

/// The entry of the package `xlsx` under `dependencies` in the text of a manifest.
pub open spec fn dependency_of(manifest: Seq<char>) -> Result<DependencyView, ManifestFault> {
    match manifest_entry(manifest, "dependencies"@, "xlsx"@) {
        None => Err(ManifestFault::InvalidJson),
        Some(found) => Ok(found_dependency(found)),
    }
}

/// The installed version that an entry tells: none without an entry; an
/// error for an entry that is no string; otherwise what the string tells as
/// an address.
pub open spec fn dependency_version(dependency: DependencyView) -> Result<
    Option<VersionView>,
    ManifestFault,
> {
    match dependency {
        DependencyView::Absent => Ok(None),
        DependencyView::NotText => Err(ManifestFault::DependencyNotText),
        DependencyView::Text(url) => installed_version(Some(url)),
    }
}

/// The installed version that the text of a manifest tells.
pub open spec fn current_version(manifest: Seq<char>) -> Result<
    Option<VersionView>,
    ManifestFault,
> {
    match dependency_of(manifest) {
        Err(fault) => Err(fault),
        Ok(dependency) => dependency_version(dependency),
    }
}

/// The view of an address that may be absent.
pub open spec fn address_view(dependency: Option<&str>) -> Option<Seq<char>> {
    match dependency {
        None => None,
        Some(url) => Some(url@),
    }
}

/// The view of a result of reading the entry.
pub open spec fn reading_view(r: Result<Dependency, ManifestError>) -> Result<
    DependencyView,
    ManifestFault,
> {
    match r {
        Ok(dependency) => Ok(dependency@),
        Err(e) => Err(e@),
    }
}

/// The view of a result that tells the installed version.
pub open spec fn installed_view(r: Result<Option<Version>, ManifestError>) -> Result<
    Option<VersionView>,
    ManifestFault,
> {
    match r {
        Ok(None) => Ok(None),
        Ok(Some(version)) => Ok(Some(version@)),
        Err(e) => Err(e@),
    }
}

/// `serde_json::Error`, the error of `serde_json::from_str`, carried as an opaque value.
#[verifier::external_type_specification]
#[verifier::external_body]
pub struct ExJsonError(serde_json::Error);

/// What is found in the JSON document `manifest` under `section`, then
/// `name`: `None` where `serde_json::from_str` reports an error; else
/// `Some(None)` where `Value::get` finds no member `section`, or no member
/// `name` in it; else `Some(Some(None))` where the member is no string, and
/// `Some(Some(Some(text)))` where it is the string `text`.
pub uninterp spec fn manifest_entry(
    manifest: Seq<char>,
    section: Seq<char>,
    name: Seq<char>,
) -> Option<Option<Option<Seq<char>>>>;

/// Reads `manifest` with `serde_json::from_str` into a `serde_json::Value`,
/// looks up `section` and in it `name` with `Value::get`, and hands out what
/// `Value::as_str` returns for the member that was found. The reader reports
/// an error for whatever it does not accept, a document nested beyond its
/// limit included; `get` gives `None` for a value that is no object or has
/// no such member; `as_str` gives `None` for a value that is no string.
/// Reading and looking up are functions of their arguments alone, so the
/// outcome has a name, `manifest_entry`; the contract says nothing else of
/// it.
#[verifier::external_body]
fn read_entry(manifest: &str, section: &str, name: &str) -> (r: Result<
    Option<Option<String>>,
    serde_json::Error,
>)
    ensures
        r is Ok <==> manifest_entry(manifest@, section@, name@) is Some,
        r is Ok ==> r.unwrap().deep_view() == manifest_entry(manifest@, section@, name@).unwrap(),
{
    let value: serde_json::Value = serde_json::from_str(manifest)?;
    let member = value.get(section).and_then(|found| found.get(name));
    Ok(member.map(|entry| entry.as_str().map(String::from)))
}

/// The text that `serde_json::Error` shows through `Display`. Nothing is claimed of it.
#[verifier::external_body]
fn json_error_text(error: &serde_json::Error) -> (reason: String) {
    error.to_string()
}

/// Tells the installed version from the dependency entry of the manifest.
///
/// Without an entry there is no installed version, which is no error. With
/// one, the version is read from its place in the address; an address
/// without that place, or with something else than a version there, is an
/// error.
pub fn parse_current_xlsx_version(dependency: Option<&str>) -> (r: Result<
    Option<Version>,
    ManifestError,
>)
    ensures
        installed_view(r) == installed_version(address_view(dependency)),
{
    let url = match dependency {
        None => {
            return Ok(None);
        },
        Some(url) => url,
    };
    let chars = to_chars(url);
    let segments = split_spans(&chars, 0, chars.len(), '/');
    proof {
        assert(chars@.subrange(0, chars@.len() as int) =~= url@);
    }
    if segments.len() < 4 {
        return Err(ManifestError::MalformedDependencyUrl { url: url.to_owned() });
    }
    let segment = segments[3];
    let pieces = split_spans(&chars, segment.start, segment.end, '-');
    if pieces.len() < 2 {
        return Err(ManifestError::MalformedDependencyUrl { url: url.to_owned() });
    }
    let piece = pieces[1];
    let token = url.substring_char(piece.start, piece.end);
    match parse(token) {
        Ok(version) => Ok(Some(version)),
        Err(error) => Err(ManifestError::InvalidVersion(error)),
    }
}

/// Reads the entry of the package from the text of the manifest.
///
/// The text is read as JSON by the `serde_json` crate. Where that fails the
/// error is `InvalidJson`; otherwise the result is the entry `xlsx` under
/// `dependencies`, as the reader found it.
pub fn read_dependency(manifest: &str) -> (r: Result<Dependency, ManifestError>)
    ensures
        reading_view(r) == dependency_of(manifest@),
{
    match read_entry(manifest, "dependencies", "xlsx") {
        Err(error) => Err(ManifestError::InvalidJson { reason: json_error_text(&error) }),
        Ok(None) => Ok(Dependency::Absent),
        Ok(Some(None)) => Ok(Dependency::NotText),
        Ok(Some(Some(text))) => Ok(Dependency::Text(text)),
    }
}

/// Tells the installed version from the entry of the package.
///
/// A package that is not declared has no installed version, which is no
/// error. An entry that is no string is an error; one that is a string is
/// read as an address by `parse_current_xlsx_version`.
pub fn version_of_dependency(dependency: &Dependency) -> (r: Result<Option<Version>, ManifestError>)
    ensures
        installed_view(r) == dependency_version(dependency@),
{
    match dependency {
        Dependency::Absent => parse_current_xlsx_version(None),
        Dependency::NotText => Err(ManifestError::DependencyNotText),
        Dependency::Text(url) => parse_current_xlsx_version(Some(url.as_str())),
    }
}

/// Tells the installed version from the text of the manifest: that of
/// `version_of_dependency` on the entry that `read_dependency` finds.
pub fn get_current_version(manifest: &str) -> (r: Result<Option<Version>, ManifestError>)
    ensures
        installed_view(r) == current_version(manifest@),
{
    match read_dependency(manifest) {
        Err(error) => Err(error),
        Ok(dependency) => version_of_dependency(&dependency),
    }
}

} // verus!
