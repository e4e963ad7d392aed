use debversion::Version as DebVersion;
use nativepkg::error::Error;
use nativepkg::version::{MappedVersion, VersionSpec};

fn mapped(input: &str) -> MappedVersion {
    let spec = VersionSpec::parse(input).expect("test input should parse");
    MappedVersion::new(&spec, None).expect("test input should map")
}

#[test]
fn release_version_passes_through() {
    let m = mapped("1.2.3");
    assert_eq!(m.deb(), "1.2.3");
    assert_eq!(m.rpm_version(), "1.2.3");
    assert_eq!(m.rpm_release(), "1");
}

#[test]
fn prerelease_uses_tilde() {
    let m = mapped("1.2.3-beta.1");
    assert_eq!(m.deb(), "1.2.3~beta.1");
    assert_eq!(m.rpm_version(), "1.2.3~beta.1");
}

#[test]
fn build_metadata_uses_plus() {
    assert_eq!(mapped("1.2.3+build.5").deb(), "1.2.3+build.5");
}

#[test]
fn prerelease_and_build_metadata_combine() {
    assert_eq!(mapped("1.2.3-rc.1+build.5").deb(), "1.2.3~rc.1+build.5");
}

#[test]
fn epoch_prefixes_deb_but_not_rpm() {
    let spec = VersionSpec::parse("1.2.3").unwrap();
    let m = MappedVersion::new(&spec, Some(1)).unwrap();
    assert_eq!(m.deb(), "1:1.2.3");
    assert_eq!(m.rpm_version(), "1.2.3");
    assert_eq!(m.epoch(), Some(1));
}

#[test]
fn non_semver_but_valid_is_kept_literal() {
    let spec = VersionSpec::parse("1.2.3~rc1").unwrap();
    assert!(spec.is_literal());
    assert_eq!(MappedVersion::new(&spec, None).unwrap().deb(), "1.2.3~rc1");
}

#[test]
fn version_not_starting_with_digit_is_rejected() {
    assert!(matches!(
        VersionSpec::parse("v1.2.3"),
        Err(Error::InvalidVersion { .. })
    ));
}

#[test]
fn hyphen_never_survives_into_a_mapped_version() {
    assert_eq!(mapped("1.2.3-1").deb(), "1.2.3~1");
    for input in ["1.2.3-1", "1.2.3-beta.1", "1.2.3-rc.1+build.5"] {
        assert!(
            !mapped(input).deb().contains('-'),
            "`{input}` mapped to a version still containing `-`"
        );
    }
}

#[test]
fn hyphen_inside_a_prerelease_identifier_is_rewritten_not_rejected() {
    let m = mapped("2.0.0-experimental-build");
    assert_eq!(m.deb(), "2.0.0~experimental.build");
    assert!(
        m.hyphens_rewritten(),
        "caller must be able to warn about the rewrite"
    );
}

#[test]
fn hyphen_inside_build_metadata_is_rewritten() {
    let m = mapped("1.0.0-alpha+exp-sha.5114f85");
    assert_eq!(m.deb(), "1.0.0~alpha+exp.sha.5114f85");
    assert!(m.hyphens_rewritten());
}

#[test]
fn versions_without_embedded_hyphens_report_no_rewrite() {
    assert!(!mapped("1.2.3-beta.1").hyphens_rewritten());
    assert!(!mapped("1.2.3").hyphens_rewritten());
}

#[test]
fn mapping_error_names_the_version_as_supplied() {
    let err = VersionSpec::parse("1.2.3-really~odd-1")
        .unwrap_err()
        .text();
    assert!(err.contains("1.2.3-really~odd-1"), "{err:?}");
}

#[test]
fn literal_containing_a_hyphen_is_rejected() {
    assert!(matches!(
        VersionSpec::parse("1.2.3-really~odd-1"),
        Err(Error::InvalidVersion { .. })
    ));
}

#[test]
fn empty_version_is_rejected() {
    assert!(VersionSpec::parse("").is_err());
}

#[test]
fn error_message_names_the_input() {
    let err = VersionSpec::parse("nope").unwrap_err().text();
    assert!(err.contains("nope"), "error should quote the input: {err:?}");
}

#[test]
fn mapped_versions_parse_and_sort_correctly_per_debversion() {

    let cases = [
        ("1.2.3-beta.1", "1.2.3"),
        ("1.2.3-beta.1", "1.2.3-rc.1"),
        ("1.2.3-rc.1+build.5", "1.2.3"),
        ("2.0.0-experimental-build", "2.0.0"),
        ("1.0.0-alpha+exp-sha.5114f85", "1.0.0"),
    ];
    for (lower, higher) in cases {
        let lo: DebVersion = mapped(lower)
            .deb()
            .parse()
            .unwrap_or_else(|e| panic!("`{lower}` mapped to an unparseable version: {e}"));
        let hi: DebVersion = mapped(higher)
            .deb()
            .parse()
            .unwrap_or_else(|e| panic!("`{higher}` mapped to an unparseable version: {e}"));
        assert!(
            lo < hi,
            "expected {lower} ({lo}) to sort below {higher} ({hi})"
        );
    }
}

#[test]
fn unmapped_npm_prerelease_sorts_above_its_release() {
    let pre: DebVersion = "1.2.3-beta.1".parse().expect("valid debian version");
    let rel: DebVersion = "1.2.3".parse().expect("valid debian version");
    assert!(
        pre > rel,
        "if this ever fails, the tilde mapping is no longer needed"
    );
}
