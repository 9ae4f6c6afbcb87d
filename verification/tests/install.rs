use xlsx_update::{
    install_latest_version, install_latest_version_npm, install_latest_version_pnpm,
    install_latest_version_yarn, latest_version_url, parse_current_xlsx_version, InstallPlan,
    Invocation, PackageManager, Version,
};

fn call(program: &str, arguments: [&str; 2]) -> Invocation {
    Invocation {
        program: program.to_string(),
        arguments: arguments.iter().map(|a| a.to_string()).collect(),
    }
}

#[test]
fn test_package_manager_argument() {
    // Test the possible values
    assert_eq!(
        PackageManager::value_variants(),
        &[
            PackageManager::Npm,
            PackageManager::Yarn,
            PackageManager::Pnpm,
        ]
    );

    // Test the possible value
    assert_eq!(PackageManager::Npm.name(), "npm");
    assert_eq!(PackageManager::Yarn.name(), "yarn");
    assert_eq!(PackageManager::Pnpm.name(), "pnpm");
}

#[test]
fn npm_is_the_default_package_manager() {
    assert_eq!(PackageManager::default(), PackageManager::Npm);
}

#[test]
fn the_address_holds_the_version_twice() {
    assert_eq!(
        latest_version_url("0.19.3"),
        "https://cdn.sheetjs.com/xlsx-0.19.3/xlsx-0.19.3.tgz"
    );
    assert_eq!(latest_version_url(""), "https://cdn.sheetjs.com/xlsx-/xlsx-.tgz");
}

#[test]
fn npm_removes_and_installs() {
    let plan = install_latest_version_npm("https://example.com/x.tgz");
    assert_eq!(plan.uninstall, call("npm", ["rm", "xlsx"]));
    assert_eq!(plan.install, call("npm", ["install", "https://example.com/x.tgz"]));
}

#[test]
fn pnpm_removes_and_installs() {
    let plan = install_latest_version_pnpm("https://example.com/x.tgz");
    assert_eq!(plan.uninstall, call("pnpm", ["rm", "xlsx"]));
    assert_eq!(plan.install, call("pnpm", ["install", "https://example.com/x.tgz"]));
}

#[test]
fn yarn_removes_and_adds() {
    let plan = install_latest_version_yarn("https://example.com/x.tgz");
    assert_eq!(plan.uninstall, call("yarn", ["remove", "xlsx"]));
    assert_eq!(plan.install, call("yarn", ["add", "https://example.com/x.tgz"]));
}

#[test]
fn the_plan_installs_from_the_address_of_the_version() {
    let url = "https://cdn.sheetjs.com/xlsx-0.20.2/xlsx-0.20.2.tgz";
    assert_eq!(
        install_latest_version("0.20.2", &PackageManager::Npm),
        InstallPlan { uninstall: call("npm", ["rm", "xlsx"]), install: call("npm", ["install", url]) }
    );
    assert_eq!(
        install_latest_version("0.20.2", &PackageManager::Yarn),
        InstallPlan { uninstall: call("yarn", ["remove", "xlsx"]), install: call("yarn", ["add", url]) }
    );
    assert_eq!(
        install_latest_version("0.20.2", &PackageManager::Pnpm),
        InstallPlan { uninstall: call("pnpm", ["rm", "xlsx"]), install: call("pnpm", ["install", url]) }
    );
}

#[test]
fn the_installed_version_is_read_back_from_the_address_that_was_installed() {
    for version in [Version::new(0, 20, 2), Version::new(1, 0, 0), Version::new(12, 345, 6789)] {
        let url = latest_version_url(&version.to_string());
        assert_eq!(parse_current_xlsx_version(Some(&url)), Ok(Some(version)));
    }
}
