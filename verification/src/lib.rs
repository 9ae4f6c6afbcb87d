//! Keeps a project's pinned `xlsx` package up to date with its release feed.
//!
//! The library reads loosely written version strings into semantic versions
//! (`parse`), orders them by precedence (`precedence`, `compare`), picks the
//! latest release of a feed (`feed`, `release`), tells the installed version
//! from the package manifest (`package_manifest`), decides whether an update
//! is called for and plans it (`update`, `install`).
//!
//! What holds of these in general is proved beside them: the order is total
//! (`precedence`), canonical strings are read and written back unchanged
//! (`canonical`), a marker and left-out numbers do not change what a string
//! means (`leniency`), and what an installation writes into the manifest is
//! read back as the installed version (`convention`).

pub mod canonical;
pub mod compare;
pub mod convention;
pub mod decimal;
pub mod feed;
pub mod install;
pub mod leniency;
pub mod package_manifest;
pub mod parse;
pub mod precedence;
pub mod release;
pub mod text;
pub mod update;
pub mod version;

pub use feed::{get_feed_items, FeedEntry, FeedError, FeedItem};
pub use install::{
    install_latest_version, install_latest_version_npm, install_latest_version_pnpm,
    install_latest_version_yarn, latest_version_url, InstallPlan, Invocation, PackageManager,
};
pub use package_manifest::{
    get_current_version, parse_current_xlsx_version, read_dependency, version_of_dependency,
    Dependency, ManifestError,
};
pub use parse::{parse, ParseError};
pub use release::{convert_to_release, find_latest_release, Release};
pub use update::{
    check_update_required, decide, find_latest_release_from_feed, plan_update, ResolveError,
    Update,
};
pub use version::{BuildMetadata, Identifier, Prerelease, Version};
