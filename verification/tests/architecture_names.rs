use nativepkg::architecture::{spellings, Architecture};

#[test]
fn debian_and_gnu_spellings_agree() {
    for (a, b) in [
        ("amd64", "x86_64"),
        ("arm64", "aarch64"),
        ("i386", "i686"),
        ("armhf", "armv7hl"),
        ("ppc64el", "ppc64le"),
        ("all", "noarch"),
    ] {
        assert_eq!(
            Architecture::parse(a).unwrap(),
            Architecture::parse(b).unwrap(),
            "`{a}` and `{b}` should denote the same architecture"
        );
    }
}

#[test]
fn architecture_independent_renders_per_format() {
    let any = Architecture::parse("all").unwrap();
    assert_eq!(any.deb(), "all");
    assert_eq!(any.rpm(), "noarch");
    assert_eq!(any.arch_linux(), "any");
    assert!(any.is_any());
}

#[test]
fn amd64_renders_per_format() {
    let a = Architecture::parse("x86_64").unwrap();
    assert_eq!(a.deb(), "amd64");
    assert_eq!(a.rpm(), "x86_64");
    assert_eq!(a.arch_linux(), "x86_64");
}

#[test]
fn parsing_is_case_insensitive() {
    assert_eq!(Architecture::parse("AMD64").unwrap(), Architecture::Amd64);
}

#[test]
fn unknown_architecture_is_rejected_not_defaulted() {
    let err = Architecture::parse("sparc64").unwrap_err().text();
    assert!(err.contains("sparc64"), "{err:?}");
    assert!(
        err.contains("amd64"),
        "error should list accepted spellings: {err:?}"
    );
}

#[test]
fn every_spelling_round_trips_to_a_renderable_value() {
    for (spelling, _) in spellings() {
        let a = Architecture::parse(spelling).unwrap();
        assert!(!a.deb().is_empty());
        assert!(!a.rpm().is_empty());
        assert!(!a.arch_linux().is_empty());
    }
}

#[test]
fn default_matches_the_bash_implementation() {
    assert_eq!(Architecture::default().deb(), "all");
}
