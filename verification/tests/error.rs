use nativepkg::error::Error;

#[test]
fn every_variant_renders_a_non_empty_message() {
    let cases = [
        Error::io("/tmp/x".into(), "boom".into()),
        Error::manifest("no `name` field".into()),
        Error::InvalidPackageName {
            name: "@a/b".into(),
            reason: "contains `/`".into(),
        },
        Error::InvalidVersion {
            version: String::new(),
            reason: "empty".into(),
        },
        Error::Template {
            template: "control".into(),
            reason: "unknown variable".into(),
        },
    ];
    for case in cases {
        assert!(!case.text().is_empty(), "empty Display for {case:?}");
    }
}

#[test]
fn io_variant_exposes_source() {
    let err = Error::io("/tmp/x".into(), "boom".into());
    assert!(
        err.cause().is_some(),
        "Io must expose the underlying error as source"
    );
}
