use xlsx_update::{
    check_update_required, decide, find_latest_release_from_feed, install_latest_version, parse,
    parse_current_xlsx_version, plan_update, FeedEntry, FeedError, ManifestError, PackageManager,
    ParseError, Release, ResolveError, Update, Version,
};

fn entry(title: &str) -> FeedEntry {
    FeedEntry { title: Some(title.to_string()), link: Some(format!("https://example.com/{title}")) }
}

fn release(title: &str) -> Release {
    Release { version: parse(title).unwrap(), link: format!("https://example.com/{title}") }
}

fn manifest(url: &str) -> String {
    format!("{{\"dependencies\": {{\"xlsx\": \"{url}\"}}}}")
}

fn feed(titles: &[&str]) -> Vec<FeedEntry> {
    titles.iter().map(|title| entry(title)).collect()
}

#[test]
fn an_older_installed_version_calls_for_an_update() {
    assert!(decide(Some(&Version::new(0, 19, 2)), &Version::new(0, 19, 3)));
    assert!(decide(Some(&parse("0.19.3-rc.1").unwrap()), &Version::new(0, 19, 3)));
    assert!(decide(Some(&Version::new(0, 9, 9)), &Version::new(0, 10, 0)));
}

#[test]
fn the_same_or_a_newer_installed_version_calls_for_none() {
    assert!(!decide(Some(&Version::new(0, 19, 3)), &Version::new(0, 19, 3)));
    assert!(!decide(Some(&parse("0.19.3+local").unwrap()), &Version::new(0, 19, 3)));
    assert!(!decide(Some(&Version::new(0, 19, 4)), &Version::new(0, 19, 3)));
    assert!(!decide(Some(&Version::new(0, 19, 3)), &parse("0.19.3-rc.1").unwrap()));
}

#[test]
fn no_installed_version_calls_for_no_update() {
    assert!(!decide(None, &Version::new(0, 19, 3)));
}

#[test]
fn an_update_stays_called_for_as_the_latest_version_grows() {
    let installed = parse("1.4.0-beta").unwrap();
    let chain = ["1.3.9", "1.4.0-alpha", "1.4.0-beta", "1.4.0-beta.1", "1.4.0", "1.4.1", "2.0.0"];
    let mut required = false;
    for title in chain {
        let now = decide(Some(&installed), &parse(title).unwrap());
        assert!(now || !required, "{title}");
        required = now;
    }
    assert!(required);
}

#[test]
fn the_check_reads_the_installed_version_from_the_manifest() {
    let latest = release("0.20.2");
    let old = manifest("https://cdn.sheetjs.com/xlsx-0.19.3/xlsx-0.19.3.tgz");
    assert_eq!(check_update_required(&latest, &old), Ok(true));
    let same = manifest("https://cdn.sheetjs.com/xlsx-0.20.2/xlsx-0.20.2.tgz");
    assert_eq!(check_update_required(&latest, &same), Ok(false));
    let newer = manifest("https://cdn.sheetjs.com/xlsx-0.21.0/xlsx-0.21.0.tgz");
    assert_eq!(check_update_required(&latest, &newer), Ok(false));
    assert_eq!(check_update_required(&latest, "{\"dependencies\": {}}"), Ok(false));
    assert_eq!(
        check_update_required(&latest, "{\"dependencies\": {\"xlsx\": 1}}"),
        Err(ManifestError::DependencyNotText)
    );
}

#[test]
fn the_check_passes_on_the_faults_of_the_manifest() {
    let latest = release("0.20.2");
    assert!(matches!(
        check_update_required(&latest, "no json"),
        Err(ManifestError::InvalidJson { .. })
    ));
    assert_eq!(
        check_update_required(&latest, &manifest("xlsx")),
        Err(ManifestError::MalformedDependencyUrl { url: "xlsx".to_string() })
    );
    assert_eq!(
        check_update_required(&latest, &manifest("https://h/xlsx-x/x.tgz")),
        Err(ManifestError::InvalidVersion(ParseError { input: "x".to_string() }))
    );
}

#[test]
fn the_latest_release_of_a_feed_is_resolved() {
    let latest = find_latest_release_from_feed(feed(&["v0.20.2", "v0.20.1", "v0.7.6-a", "v0.7.6"]));
    assert_eq!(latest, Ok(Some(release("v0.20.2"))));
    let latest = find_latest_release_from_feed(feed(&["0.0.0", "1.0.0", "v1.1.0", "1.1.0-a"]));
    assert_eq!(latest, Ok(Some(release("v1.1.0"))));
}

#[test]
fn an_empty_feed_has_no_latest_release_and_is_no_error() {
    assert_eq!(find_latest_release_from_feed(vec![]), Ok(None));
}

#[test]
fn resolving_reports_each_fault() {
    let no_title = FeedEntry { title: None, link: Some("l".to_string()) };
    assert_eq!(
        find_latest_release_from_feed(vec![entry("1.0.0"), no_title]),
        Err(ResolveError::Feed(FeedError::MissingTitle { index: 1 }))
    );
    let no_link = FeedEntry { title: Some("edge".to_string()), link: None };
    assert_eq!(
        find_latest_release_from_feed(vec![no_link, entry("1.0.0")]),
        Err(ResolveError::Feed(FeedError::MissingLink { index: 0 }))
    );
    assert_eq!(
        find_latest_release_from_feed(feed(&["1.0.0", "edge", "rim"])),
        Err(ResolveError::Version(ParseError { input: "edge".to_string() }))
    );
}

#[test]
fn an_update_is_planned_when_the_manifest_pins_an_older_version() {
    let latest = release("v0.20.2");
    let old = manifest("https://cdn.sheetjs.com/xlsx-0.19.3/xlsx-0.19.3.tgz");
    for manager in [PackageManager::Npm, PackageManager::Yarn, PackageManager::Pnpm] {
        let update = plan_update(&latest, &old, &manager).unwrap();
        assert_eq!(update, Update::Install(install_latest_version("0.20.2", &manager)));
        let Update::Install(plan) = update else { unreachable!() };
        assert_eq!(plan.install.program, manager.name());
        assert_eq!(
            plan.install.arguments[1],
            "https://cdn.sheetjs.com/xlsx-0.20.2/xlsx-0.20.2.tgz"
        );
    }
}

#[test]
fn an_installed_version_that_does_not_precede_the_latest_is_up_to_date() {
    let latest = release("0.20.2");
    let same = manifest("https://cdn.sheetjs.com/xlsx-0.20.2/xlsx-0.20.2.tgz");
    assert_eq!(plan_update(&latest, &same, &PackageManager::Npm), Ok(Update::UpToDate));
    let newer = manifest("https://cdn.sheetjs.com/xlsx-1.0.0/xlsx-1.0.0.tgz");
    assert_eq!(plan_update(&latest, &newer, &PackageManager::Npm), Ok(Update::UpToDate));
}

#[test]
fn a_package_that_is_not_declared_is_told_from_one_that_is_up_to_date() {
    let latest = release("0.20.2");
    assert_eq!(plan_update(&latest, "{}", &PackageManager::Npm), Ok(Update::NotDeclared));
    assert_eq!(
        plan_update(&latest, "{\"dependencies\": {}}", &PackageManager::Yarn),
        Ok(Update::NotDeclared)
    );
}

#[test]
fn planning_passes_on_the_faults_of_the_manifest() {
    let latest = release("0.20.2");
    assert_eq!(
        plan_update(&latest, &manifest("xlsx@latest"), &PackageManager::Npm),
        Err(ManifestError::MalformedDependencyUrl { url: "xlsx@latest".to_string() })
    );
    assert_eq!(
        plan_update(&latest, "{\"dependencies\": {\"xlsx\": []}}", &PackageManager::Npm),
        Err(ManifestError::DependencyNotText)
    );
    assert!(matches!(
        plan_update(&latest, "", &PackageManager::Npm),
        Err(ManifestError::InvalidJson { .. })
    ));
}

#[test]
fn an_update_that_was_carried_out_is_not_planned_again() {
    for title in ["0.20.2", "v1", "2.5.0+build.7"] {
        let latest = release(title);
        let old = manifest("https://cdn.sheetjs.com/xlsx-0.1.0/xlsx-0.1.0.tgz");
        let Ok(Update::Install(plan)) = plan_update(&latest, &old, &PackageManager::Npm) else {
            unreachable!()
        };
        let installed_from = &plan.install.arguments[1];
        let installed = parse_current_xlsx_version(Some(installed_from)).unwrap().unwrap();
        assert_eq!(installed, latest.version);
        assert_eq!(
            plan_update(&latest, &manifest(installed_from), &PackageManager::Npm),
            Ok(Update::UpToDate)
        );
    }
}
