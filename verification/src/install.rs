//! What to run to install a version: the address of its package and the two
//! commands of each package manager, first the removal of the installed
//! package, then the installation from the address.

use vstd::prelude::*;
use vstd::string::StringExecFns;

verus! {

/// The package managers that can carry out the update.
#[derive(Clone, Copy, Debug, PartialEq, Eq, Structural)]
pub enum PackageManager {
    Npm,
    Yarn,
    Pnpm,
}

impl Default for PackageManager {
    fn default() -> (manager: PackageManager)
        ensures
            manager == PackageManager::Npm,
    {
        PackageManager::Npm
    }
}

/// A program and the arguments to run it with.
#[derive(Clone, Debug, PartialEq, Eq)]
pub struct Invocation {
    pub program: String,
    pub arguments: Vec<String>,
}

/// What an `Invocation` stands for.
pub struct InvocationView {
    pub program: Seq<char>,
    pub arguments: Seq<Seq<char>>,
}

impl View for Invocation {
    type V = InvocationView;

    open spec fn view(&self) -> InvocationView {
        InvocationView { program: self.program@, arguments: self.arguments.deep_view() }
    }
}

/// The two steps of an update, to be run in this order.
#[derive(Clone, Debug, PartialEq, Eq)]
pub struct InstallPlan {
    pub uninstall: Invocation,
    pub install: Invocation,
}

/// What an `InstallPlan` stands for.
pub struct InstallPlanView {
    pub uninstall: InvocationView,
    pub install: InvocationView,
}

impl View for InstallPlan {
    type V = InstallPlanView;

    open spec fn view(&self) -> InstallPlanView {
        InstallPlanView { uninstall: self.uninstall@, install: self.install@ }
    }
}

/// The address of the package of `version`.
pub open spec fn package_url(version: Seq<char>) -> Seq<char> {
    "https://cdn.sheetjs.com/xlsx-"@ + version + "/xlsx-"@ + version + ".tgz"@
}

/// `program` run with two arguments.
pub open spec fn invocation(
    program: Seq<char>,
    first: Seq<char>,
    second: Seq<char>,
) -> InvocationView {
    InvocationView { program, arguments: seq![first, second] }
}

/// The name of the program of a package manager.
pub open spec fn program_name(manager: PackageManager) -> Seq<char> {
    match manager {
        PackageManager::Npm => "npm"@,
        PackageManager::Yarn => "yarn"@,
        PackageManager::Pnpm => "pnpm"@,
    }
}

/// The steps by which `manager` replaces the installed package by the one at `url`.
pub open spec fn install_plan(manager: PackageManager, url: Seq<char>) -> InstallPlanView {
    let program = program_name(manager);
    match manager {
        PackageManager::Npm => InstallPlanView {
            uninstall: invocation(program, "rm"@, "xlsx"@),
            install: invocation(program, "install"@, url),
        },
        PackageManager::Yarn => InstallPlanView {
            uninstall: invocation(program, "remove"@, "xlsx"@),
            install: invocation(program, "add"@, url),
        },
        PackageManager::Pnpm => InstallPlanView {
            uninstall: invocation(program, "rm"@, "xlsx"@),
            install: invocation(program, "install"@, url),
        },
    }
}

impl PackageManager {
    /// The name of the program, which is also how the package manager is chosen.
    pub fn name(&self) -> (name: &'static str)
        ensures
            name@ == program_name(*self),
    {
        match self {
            PackageManager::Npm => "npm",
            PackageManager::Yarn => "yarn",
            PackageManager::Pnpm => "pnpm",
        }
    }

    /// The package managers, in the order in which they are offered.
    pub fn value_variants() -> (all: Vec<PackageManager>)
        ensures
            all@ == seq![PackageManager::Npm, PackageManager::Yarn, PackageManager::Pnpm],
    {
        let mut all: Vec<PackageManager> = Vec::new();
        all.push(PackageManager::Npm);
        all.push(PackageManager::Yarn);
        all.push(PackageManager::Pnpm);
        all
    }
}

/// Builds the invocation of `program` with two arguments.
fn invoke(program: &str, first: &str, second: &str) -> (call: Invocation)
    ensures
        call@ == invocation(program@, first@, second@),
{
    let mut arguments: Vec<String> = Vec::new();
    arguments.push(first.to_owned());
    arguments.push(second.to_owned());
    let call = Invocation { program: program.to_owned(), arguments };
    assert(call.arguments.deep_view() =~= seq![first@, second@]);
    call
}

/// The address from which the package of `latest_version` is installed.
pub fn latest_version_url(latest_version: &str) -> (url: String)
    ensures
        url@ == package_url(latest_version@),
{
    let mut url = "https://cdn.sheetjs.com/xlsx-".to_owned();
    url.append(latest_version);
    url.append("/xlsx-");
    url.append(latest_version);
    url.append(".tgz");
    url
}

/// The steps of an update with npm.
pub fn install_latest_version_npm(latest_version_url: &str) -> (plan: InstallPlan)
    ensures
        plan@ == install_plan(PackageManager::Npm, latest_version_url@),
{
    InstallPlan {
        uninstall: invoke(PackageManager::Npm.name(), "rm", "xlsx"),
        install: invoke(PackageManager::Npm.name(), "install", latest_version_url),
    }
}

/// The steps of an update with pnpm.
pub fn install_latest_version_pnpm(latest_version_url: &str) -> (plan: InstallPlan)
    ensures
        plan@ == install_plan(PackageManager::Pnpm, latest_version_url@),
{
    InstallPlan {
        uninstall: invoke(PackageManager::Pnpm.name(), "rm", "xlsx"),
        install: invoke(PackageManager::Pnpm.name(), "install", latest_version_url),
    }
}

/// The steps of an update with yarn.
pub fn install_latest_version_yarn(latest_version_url: &str) -> (plan: InstallPlan)
    ensures
        plan@ == install_plan(PackageManager::Yarn, latest_version_url@),
{
    InstallPlan {
        uninstall: invoke(PackageManager::Yarn.name(), "remove", "xlsx"),
        install: invoke(PackageManager::Yarn.name(), "add", latest_version_url),
    }
}

/// The steps by which `package_manager` installs `latest_version`.
pub fn install_latest_version(latest_version: &str, package_manager: &PackageManager) -> (plan:
    InstallPlan)
    ensures
        plan@ == install_plan(*package_manager, package_url(latest_version@)),
{
    let url = latest_version_url(latest_version);
    match package_manager {
        PackageManager::Npm => install_latest_version_npm(url.as_str()),
        PackageManager::Yarn => install_latest_version_yarn(url.as_str()),
        PackageManager::Pnpm => install_latest_version_pnpm(url.as_str()),
    }
}

} // verus!
