use xlsx_update::{parse, BuildMetadata, Identifier, ParseError, Prerelease, Version};

fn version(text: &str) -> Version {
    parse(text).unwrap()
}

fn rejected(text: &str) {
    assert_eq!(parse(text), Err(ParseError { input: text.to_string() }));
}

#[test]
fn parses_full_triplet() {
    let v = version("1.2.3");
    assert_eq!((v.major, v.minor, v.patch), (1, 2, 3));
    assert!(v.pre.is_empty());
    assert!(v.build.is_empty());
}

#[test]
fn leading_marker_is_ignored() {
    assert_eq!(version("v1.2.3"), version("1.2.3"));
    assert_eq!(version("V1.2.3").to_string(), "1.2.3");
    assert_eq!(version("release-1.2.3").to_string(), "1.2.3");
    assert_eq!(version(" \t1.2.3").to_string(), "1.2.3");
    assert_eq!(version("версия 4.5.6").to_string(), "4.5.6");
    assert_eq!(version(".1.2").to_string(), "1.2.0");
    assert_eq!(version("-1.2.3").to_string(), "1.2.3");
    assert_eq!(version("+1").to_string(), "1.0.0");
    assert_eq!(version("v.1-a").to_string(), "1.0.0-a");
}

#[test]
fn missing_numbers_default_to_zero() {
    assert_eq!(version("1"), version("1.0.0"));
    assert_eq!(version("1.2"), version("1.2.0"));
    assert_eq!(version("1").to_string(), "1.0.0");
    assert_eq!(version("1.2").to_string(), "1.2.0");
    assert_eq!(version("v7-rc.1+b7").to_string(), "7.0.0-rc.1+b7");
    assert_eq!(version("7.1+b7").to_string(), "7.1.0+b7");
}

#[test]
fn leading_zeros_are_dropped_from_numbers() {
    assert_eq!(version("01.002.0003").to_string(), "1.2.3");
    assert_eq!(version("1.0.0-007").to_string(), "1.0.0-7");
    assert_eq!(version("1.0.0-007a").to_string(), "1.0.0-007a");
    assert_eq!(version("1.0.0+007").to_string(), "1.0.0+007");
}

#[test]
fn prerelease_identifiers_are_classified() {
    let v = version("1.2.3-alpha.7.x-y.0");
    assert_eq!(v.pre.identifiers.len(), 4);
    assert!(matches!(&v.pre.identifiers[0], Identifier::Text(t) if t == "alpha"));
    assert!(matches!(&v.pre.identifiers[1], Identifier::Numeric(7)));
    assert!(matches!(&v.pre.identifiers[2], Identifier::Text(t) if t == "x-y"));
    assert!(matches!(&v.pre.identifiers[3], Identifier::Numeric(0)));
}

#[test]
fn build_starts_at_the_first_plus_and_prerelease_at_the_first_hyphen_before_it() {
    let v = version("1.0.0+a-b");
    assert!(v.pre.is_empty());
    assert_eq!(v.build.identifiers, vec!["a-b".to_string()]);

    let v = version("1.0.0-alpha-beta+exp.sha-5114f85");
    assert_eq!(v.pre.identifiers.len(), 1);
    assert!(matches!(&v.pre.identifiers[0], Identifier::Text(t) if t == "alpha-beta"));
    assert_eq!(v.build.identifiers, vec!["exp".to_string(), "sha-5114f85".to_string()]);
}

#[test]
fn numbers_up_to_64_bits_are_accepted() {
    let v = version("18446744073709551615.0.18446744073709551615-18446744073709551615");
    assert_eq!(v.major, u64::MAX);
    assert_eq!(v.patch, u64::MAX);
    assert!(matches!(&v.pre.identifiers[0], Identifier::Numeric(u64::MAX)));
    assert_eq!(
        v.to_string(),
        "18446744073709551615.0.18446744073709551615-18446744073709551615"
    );
}

#[test]
fn numbers_beyond_64_bits_are_rejected() {
    rejected("18446744073709551616");
    rejected("1.18446744073709551616");
    rejected("1.2.99999999999999999999999999");
    rejected("1.0.0-18446744073709551616");
    assert_eq!(
        version("1.0.0+18446744073709551616").build.identifiers,
        vec!["18446744073709551616".to_string()]
    );
}

#[test]
fn strings_without_a_leading_number_are_rejected() {
    rejected("");
    rejected("v");
    rejected("latest");
    rejected("v.x");
    rejected("-+.");
}

#[test]
fn malformed_numbers_are_rejected() {
    rejected("1.");
    rejected("1..2");
    rejected("1.2.");
    rejected("1.2.3.4");
    rejected("1.x");
    rejected("1.2.3 ");
    rejected("1.2.3rc1");
    rejected("1 .2");
}

#[test]
fn malformed_suffixes_are_rejected() {
    rejected("1.2.3-");
    rejected("1.2.3+");
    rejected("1.2.3-+b");
    rejected("1.2.3-a..b");
    rejected("1.2.3-.a");
    rejected("1.2.3-a.");
    rejected("1.2.3-a b");
    rejected("1.2.3-a_b");
    rejected("1.2.3-é");
    rejected("1.2.3+a+b");
    rejected("1.2.3+a..b");
    rejected("1.2.3+é");
}

#[test]
fn the_error_carries_the_offending_string() {
    let error = parse("not a version").unwrap_err();
    assert_eq!(error.input, "not a version");
    let error = parse("v1.2.3.4.5").unwrap_err();
    assert_eq!(error.input, "v1.2.3.4.5");
}

#[test]
fn canonical_strings_are_written_back_unchanged() {
    for s in [
        "0.0.0",
        "1.2.3",
        "10.20.30",
        "1.0.0-alpha",
        "1.0.0-alpha.1",
        "1.0.0-0.3.7",
        "1.0.0-x.7.z.92",
        "1.0.0-x-y-z.--",
        "1.0.0+20130313144700",
        "1.0.0+001",
        "1.0.0-beta+exp.sha.5114f85",
        "1.0.0+21AF26D3----117B344092BD",
        "18446744073709551615.18446744073709551615.18446744073709551615",
    ] {
        assert_eq!(version(s).to_string(), s);
    }
}

#[test]
fn parsing_the_written_form_gives_the_version_back() {
    for s in ["v1", "1.2", "01.02.03-004.rc+b.05", "x9.8.7-a.b.c"] {
        let v = version(s);
        let again = version(&v.to_string());
        assert_eq!(again, v);
        assert_eq!(again.build.identifiers, v.build.identifiers);
        assert_eq!(again.to_string(), v.to_string());
    }
}

#[test]
fn new_builds_a_release() {
    let v = Version::new(0, 19, 3);
    assert_eq!((v.major, v.minor, v.patch), (0, 19, 3));
    assert!(v.pre.is_empty());
    assert!(v.build.is_empty());
    assert_eq!(v.to_string(), "0.19.3");
    assert_eq!(v, version("0.19.3"));
}

#[test]
fn prerelease_and_build_are_read_from_their_text() {
    let pre = Prerelease::new("rc.1").unwrap();
    assert_eq!(pre.identifiers.len(), 2);
    assert!(matches!(&pre.identifiers[0], Identifier::Text(t) if t == "rc"));
    assert!(matches!(&pre.identifiers[1], Identifier::Numeric(1)));
    assert!(Prerelease::new("").unwrap().is_empty());
    assert!(Prerelease::empty().is_empty());
    assert_eq!(Prerelease::new("a..b"), Err(ParseError { input: "a..b".to_string() }));
    assert_eq!(Prerelease::new("rc.01"), Prerelease::new("rc.1"));
    assert_ne!(Prerelease::new("rc.1"), Prerelease::new("rc.2"));

    let build = BuildMetadata::new("exp.007").unwrap();
    assert_eq!(build.identifiers, vec!["exp".to_string(), "007".to_string()]);
    assert!(BuildMetadata::new("").unwrap().is_empty());
    assert!(BuildMetadata::empty().is_empty());
    assert_eq!(BuildMetadata::new("a+b"), Err(ParseError { input: "a+b".to_string() }));

    let v = Version {
        major: 1,
        minor: 1,
        patch: 0,
        pre: Prerelease::new("a").unwrap(),
        build: BuildMetadata::empty(),
    };
    assert_eq!(v, version("1.1.0-a"));
    assert_eq!(v.to_string(), "1.1.0-a");
}

#[test]
fn prerelease_precedes_its_release() {
    assert!(version("1.1.0-a") < version("1.1.0"));
    assert!(version("1.1.0-0") < version("1.1.0"));
    assert!(version("1.1.0-zzz.999") < version("1.1.0"));
    assert!(!(version("1.1.0") < version("1.1.0-a")));
    assert!(version("1.1.0") > version("1.1.0-a"));
    assert!(version("1.0.9") < version("1.1.0-a"));
}

#[test]
fn prereleases_are_ordered_by_their_identifiers() {
    assert!(version("1.1.0-a") < version("1.1.0-b"));
    assert!(!(version("1.1.0-b") < version("1.1.0-a")));
    let chain = [
        "1.0.0-alpha",
        "1.0.0-alpha.1",
        "1.0.0-alpha.beta",
        "1.0.0-beta",
        "1.0.0-beta.2",
        "1.0.0-beta.11",
        "1.0.0-rc.1",
        "1.0.0",
        "1.0.1-0",
        "1.0.1",
        "1.1.0",
        "2.0.0",
        "10.0.0",
    ];
    for i in 0..chain.len() {
        for j in 0..chain.len() {
            let (a, b) = (version(chain[i]), version(chain[j]));
            assert_eq!(a < b, i < j, "{} < {}", chain[i], chain[j]);
            assert_eq!(a > b, i > j, "{} > {}", chain[i], chain[j]);
            assert_eq!(a == b, i == j, "{} == {}", chain[i], chain[j]);
            assert_eq!(a.precedes(&b), i < j);
            assert_eq!(a.same_precedence(&b), i == j);
        }
    }
}

#[test]
fn textual_identifiers_are_compared_by_character() {
    assert!(version("1.0.0-A") < version("1.0.0-a"));
    assert!(version("1.0.0-a") < version("1.0.0-aa"));
    assert!(version("1.0.0-a-") < version("1.0.0-a0"));
    assert!(version("1.0.0-10a") < version("1.0.0-9a"));
    assert!(version("1.0.0-9") < version("1.0.0-10"));
    assert!(version("1.0.0-99999") < version("1.0.0-a"));
}

#[test]
fn build_metadata_is_ignored_in_comparisons() {
    assert_eq!(version("1.0.0+x"), version("1.0.0+y"));
    assert_eq!(version("1.0.0+x"), version("1.0.0"));
    assert_eq!(version("1.0.0+y"), version("1.0.0"));
    assert!(!(version("1.0.0+x") < version("1.0.0+y")));
    assert!(!(version("1.0.0+y") < version("1.0.0+x")));
    assert!(version("1.0.0-a+z") < version("1.0.0+a"));
    assert_ne!(version("1.0.0-a+x"), version("1.0.0+x"));
    assert_eq!(version("1.0.0+x").to_string(), "1.0.0+x");
}
