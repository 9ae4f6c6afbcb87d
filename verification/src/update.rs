//! From a feed and a manifest to the decision: which release is the latest,
//! and does the installed version call for an update?

use crate::convention::lemma_installed_release_is_read_back;
use crate::feed::{
    collected, entries_view, get_feed_items, FeedEntry, FeedError, FeedFault, FeedItemView,
};
use crate::install::{
    install_latest_version, install_plan, package_url, InstallPlan, InstallPlanView, PackageManager,
};
use crate::package_manifest::{
    current_version, get_current_version, installed_version, ManifestError, ManifestFault,
};
use crate::parse::ParseError;
use crate::precedence::{lemma_precedes_total, lemma_precedes_transitive};
use crate::release::{
    convert_to_release, converted, find_latest_release, is_latest, releases_view, Release,
};
use crate::text::lacks;
use crate::version::{Version, VersionView};
use vstd::prelude::*;

verus! {

/// Why a feed gave no latest release.
#[derive(Clone, Debug, PartialEq, Eq)]
pub enum ResolveError {
    /// An entry of the feed has no title or no link.
    Feed(FeedError),
    /// The title of an item is not a version.
    Version(ParseError),
}

/// What there is to do about the package of a project.
#[derive(Clone, Debug, PartialEq, Eq)]
pub enum Update {
    /// The manifest does not declare the package: there is nothing to update.
    NotDeclared,
    /// The installed version does not precede the latest.
    UpToDate,
    /// The installed version precedes the latest: these steps install it.
    Install(InstallPlan),
}

/// What an `Update` stands for.
pub enum UpdateView {
    NotDeclared,
    UpToDate,
    Install(InstallPlanView),
}

impl View for Update {
    type V = UpdateView;

    open spec fn view(&self) -> UpdateView {
        match self {
            Update::NotDeclared => UpdateView::NotDeclared,
            Update::UpToDate => UpdateView::UpToDate,
            Update::Install(plan) => UpdateView::Install(plan@),
        }
    }
}

/// `r` is what resolving the latest release of `items` must give: the fault
/// of the feed; else the first title that is not a version; else, for a feed
/// without items, no release, which is no error; else the latest release.
pub open spec fn resolved(
    items: Result<Seq<FeedItemView>, FeedFault>,
    r: Result<Option<Release>, ResolveError>,
) -> bool {
    match items {
        Err(fault) => r matches Err(ResolveError::Feed(e)) && e@ == fault,
        Ok(items) => match converted(items) {
            Err(title) => r matches Err(ResolveError::Version(e)) && e.input@ == title,
            Ok(releases) => if releases.len() == 0 {
                r matches Ok(None)
            } else {
                r matches Ok(Some(release)) && exists|k: int|
                    is_latest(releases, k) && release@ == #[trigger] releases[k]
            },
        },
    }
}

/// An update is called for when a version is installed and it precedes the latest.
pub open spec fn update_required(installed: Option<VersionView>, latest: VersionView) -> bool {
    installed matches Some(version) && version.precedes(latest)
}

/// The view of the dependency's installed version.
pub open spec fn version_view(installed: Option<&Version>) -> Option<VersionView> {
    match installed {
        None => None,
        Some(version) => Some(version@),
    }
}

/// The view of a result of the check for an update.
pub open spec fn check_view(r: Result<bool, ManifestError>) -> Result<bool, ManifestFault> {
    match r {
        Ok(b) => Ok(b),
        Err(e) => Err(e@),
    }
}

/// The view of a result of planning.
pub open spec fn plan_view(r: Result<Update, ManifestError>) -> Result<UpdateView, ManifestFault> {
    match r {
        Ok(update) => Ok(update@),
        Err(e) => Err(e@),
    }
}

/// What there is to do about a project with `installed` when the latest
/// version is `latest`: nothing where the package is not declared, nothing
/// where the installed version does not precede the latest, and otherwise
/// the steps of `manager` for the package of the canonical text of `latest`.
pub open spec fn planned(
    installed: Option<VersionView>,
    latest: VersionView,
    manager: PackageManager,
) -> UpdateView {
    match installed {
        None => UpdateView::NotDeclared,
        Some(version) => if version.precedes(latest) {
            UpdateView::Install(install_plan(manager, package_url(latest.render())))
        } else {
            UpdateView::UpToDate
        },
    }
}

/// Steps are planned exactly when an update is called for.
pub proof fn lemma_planned_when_required(
    installed: Option<VersionView>,
    latest: VersionView,
    manager: PackageManager,
)
    ensures
        planned(installed, latest, manager) is Install <==> update_required(installed, latest),
{
}

/// The decision only grows with the latest version: an update that is called
/// for stays called for when the latest version is replaced by one of the
/// same or higher precedence.
pub proof fn lemma_decision_monotone(
    installed: Option<VersionView>,
    latest: VersionView,
    later: VersionView,
)
    requires
        latest.at_most(later),
        update_required(installed, latest),
    ensures
        update_required(installed, later),
{
    let version = installed.unwrap();
    if latest.precedes(later) {
        lemma_precedes_transitive(version, latest, later);
    }
}

/// Without an installed version, and with one that does not precede the
/// latest, no update is called for.
pub proof fn lemma_no_update(installed: Option<VersionView>, latest: VersionView)
    requires
        installed is None || latest.at_most(installed.unwrap()),
    ensures
        !update_required(installed, latest),
{
    if let Some(version) = installed {
        lemma_precedes_total(version, latest);
    }
}

/// An update settles: once a release has been installed from the address of
/// its package, the version read back from that address calls for no update
/// to that release. This holds of a release without prerelease and without
/// hyphen in its build metadata.
pub proof fn lemma_update_settles(latest: VersionView, manager: PackageManager)
    requires
        latest.well_formed(),
        latest.pre.len() == 0,
        forall|i: int| 0 <= i < latest.build.len() ==> lacks(#[trigger] latest.build[i], '-'),
    ensures
        installed_version(Some(package_url(latest.render()))) matches Ok(installed) && planned(
            installed,
            latest,
            manager,
        ) is UpToDate,
{
    lemma_installed_release_is_read_back(latest);
}

/// Decides whether the installed version calls for an update to `latest`.
pub fn decide(installed: Option<&Version>, latest: &Version) -> (r: bool)
    ensures
        r == update_required(version_view(installed), latest@),
{
    match installed {
        None => false,
        Some(version) => version.precedes(latest),
    }
}

/// Finds the latest release among the entries of a feed document.
///
/// Every entry must have a title and a link, and every title must be a
/// version; the first entry that fails is reported. A feed without entries
/// has no latest release, which is no error.
pub fn find_latest_release_from_feed(entries: Vec<FeedEntry>) -> (r: Result<
    Option<Release>,
    ResolveError,
>)
    ensures
        resolved(collected(entries_view(entries@)), r),
{
    let items = match get_feed_items(entries) {
        Err(error) => {
            return Err(ResolveError::Feed(error));
        },
        Ok(items) => items,
    };
    let releases = match convert_to_release(items) {
        Err(error) => {
            return Err(ResolveError::Version(error));
        },
        Ok(releases) => releases,
    };
    let ghost views = releases_view(releases@);
    match find_latest_release(releases) {
        None => Ok(None),
        Some(release) => {
            proof {
                let k = choose|k: int| is_latest(views, k) && release == #[trigger] releases@[k];
                assert(release@ == views[k]);
            }
            Ok(Some(release))
        },
    }
}

/// Checks whether the version that the manifest pins calls for an update to `release`.
///
/// A manifest that does not name the package calls for none. A manifest that
/// cannot be read, or whose entry is malformed, is an error.
pub fn check_update_required(release: &Release, manifest: &str) -> (r: Result<bool, ManifestError>)
    ensures
        check_view(r) == match current_version(manifest@) {
            Err(fault) => Err(fault),
            Ok(installed) => Ok(update_required(installed, release.version@)),
        },
{
    match get_current_version(manifest) {
        Err(error) => Err(error),
        Ok(None) => Ok(decide(None, &release.version)),
        Ok(Some(installed)) => Ok(decide(Some(&installed), &release.version)),
    }
}

/// Plans the update to `release` of the project whose manifest is given:
/// the steps to run with `package_manager` when the manifest pins a version
/// that precedes the release; otherwise nothing, with the reason, so that a
/// package that is not declared can be told from one that is up to date.
pub fn plan_update(release: &Release, manifest: &str, package_manager: &PackageManager) -> (r:
    Result<Update, ManifestError>)
    ensures
        plan_view(r) == match current_version(manifest@) {
            Err(fault) => Err(fault),
            Ok(installed) => Ok(planned(installed, release.version@, *package_manager)),
        },
{
    match get_current_version(manifest) {
        Err(error) => Err(error),
        Ok(None) => Ok(Update::NotDeclared),
        Ok(Some(installed)) => {
            if decide(Some(&installed), &release.version) {
                let latest_version = release.version.to_string();
                let plan = install_latest_version(latest_version.as_str(), package_manager);
                Ok(Update::Install(plan))
            } else {
                Ok(Update::UpToDate)
            }
        },
    }
}

} // verus!
