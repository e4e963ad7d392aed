use nativepkg::error::Error;
use nativepkg::name::{EntryPoint, ExecutableName, InstallDir, PackageName, UnixName};

#[test]
fn scoped_name_loses_the_slash() {
    assert_eq!(
        PackageName::normalize("@acme/probe-app").unwrap().as_str(),
        "acme-probe-app"
    );
}

#[test]
fn uppercase_is_lowered() {
    assert_eq!(PackageName::normalize("MyApp").unwrap().as_str(), "myapp");
}

#[test]
fn underscores_become_hyphens() {
    assert_eq!(
        PackageName::normalize("My_App_Thing").unwrap().as_str(),
        "my-app-thing"
    );
}

#[test]
fn repeated_separators_collapse() {
    assert_eq!(PackageName::normalize("a__--//b").unwrap().as_str(), "a-b");
}

#[test]
fn already_valid_name_is_unchanged() {
    let input = "simple";
    assert_eq!(PackageName::normalize(input).unwrap().as_str(), input);
}

#[test]
fn plus_and_dot_survive_normalisation() {
    assert_eq!(
        PackageName::normalize("lib.foo+bar").unwrap().as_str(),
        "lib.foo+bar"
    );
}

#[test]
fn separator_only_input_is_rejected() {
    let err = PackageName::normalize("___").unwrap_err();
    assert!(matches!(err, Error::InvalidPackageName { .. }));
}

#[test]
fn empty_input_is_rejected() {
    assert!(PackageName::normalize("").is_err());
}

#[test]
fn name_starting_with_punctuation_is_rejected() {
    assert!(PackageName::normalize(".hidden").is_err());
}

#[test]
fn single_character_is_rejected() {
    assert!(PackageName::normalize("x").is_err());
}

#[test]
fn strict_parse_rejects_what_normalize_would_fix() {
    assert!(PackageName::parse_strict("MyApp").is_err());
    assert!(PackageName::parse_strict("@acme/app").is_err());
}

#[test]
fn strict_parse_accepts_a_valid_name() {
    assert_eq!(
        PackageName::parse_strict("my-app").unwrap().as_str(),
        "my-app"
    );
}

#[test]
fn every_normalised_name_satisfies_the_grammar() {
    for input in [
        "@acme/probe-app",
        "MyApp",
        "My_App_Thing",
        "a__--//b",
        "lib.foo+bar",
        "UPPER",
        "with spaces",
    ] {
        let name = PackageName::normalize(input).unwrap();
        assert!(
            PackageName::parse_strict(name.as_str()).is_ok(),
            "normalising `{input}` produced `{name:?}`, which fails strict validation"
        );
    }
}

#[test]
fn error_message_names_the_original_input() {
    let err = PackageName::normalize("___").unwrap_err().text();
    assert!(err.contains("___"), "error should quote the input: {err:?}");
}

#[test]
fn a_plain_name_is_accepted_unchanged() {
    assert_eq!(
        UnixName::parse_strict("user", "simple").unwrap().as_str(),
        "simple"
    );
}

#[test]
fn package_names_starting_with_a_digit_get_an_underscore() {
    assert_eq!(
        UnixName::derive_from("user", "0ad").unwrap().as_str(),
        "_0ad"
    );
}

#[test]
fn dots_and_pluses_valid_in_package_names_are_mapped_out() {
    assert_eq!(
        UnixName::derive_from("user", "lib.foo+bar")
            .unwrap()
            .as_str(),
        "lib-foo-bar"
    );
}

#[test]
fn derivation_truncates_to_the_shadow_limit() {
    let long = "a".repeat(64);
    let derived = UnixName::derive_from("user", &long).unwrap();
    assert_eq!(derived.as_str().len(), UnixName::MAX_LEN);
}

#[test]
fn strict_parse_rejects_a_leading_digit() {
    assert!(UnixName::parse_strict("user", "0ad").is_err());
}

#[test]
fn strict_parse_rejects_shell_metacharacters() {
    let err = UnixName::parse_strict("user", "bad user; rm -rf /").unwrap_err();
    assert!(matches!(err, Error::InvalidUnixName { .. }), "{err:?}");
}

#[test]
fn strict_parse_rejects_uppercase_and_dots() {
    assert!(UnixName::parse_strict("user", "MyUser").is_err());
    assert!(UnixName::parse_strict("group", "my.group").is_err());
}

#[test]
fn over_long_names_are_rejected() {
    assert!(UnixName::parse_strict("user", &"u".repeat(33)).is_err());
}

#[test]
fn empty_and_separator_only_sources_are_rejected() {
    assert!(UnixName::derive_from("user", "").is_err());
    assert!(UnixName::derive_from("user", "...").is_err());
}

#[test]
fn the_error_says_which_kind_it_was() {
    let err = UnixName::parse_strict("group", "Bad")
        .unwrap_err()
        .text();
    assert!(err.contains("group"), "{err:?}");
}

#[test]
fn every_derived_name_satisfies_strict_validation() {
    for source in ["0ad", "lib.foo+bar", "acme-probe-app", "simple", "a", "_x"] {
        let derived = UnixName::derive_from("user", source).unwrap();
        assert!(
            UnixName::parse_strict("user", derived.as_str()).is_ok(),
            "deriving from `{source}` produced `{derived:?}`, which fails strict validation"
        );
    }
}

#[test]
fn install_dir_accepts_plain_absolute_paths_and_normalises_them() {
    assert_eq!(InstallDir::parse("/usr/lib").unwrap().as_str(), "/usr/lib");
    assert_eq!(InstallDir::parse("/opt//x/").unwrap().as_str(), "/opt/x");
    assert_eq!(
        InstallDir::parse("/srv/app-1.2_3+b").unwrap().as_str(),
        "/srv/app-1.2_3+b"
    );
}

#[test]
fn install_dir_refuses_everything_a_shell_or_unit_file_would_misread() {
    for bad in [
        "usr/lib",
        "/",
        "/usr/lib/x'; touch /tmp/PWNED; y='",
        "/opt/my app",
        "/opt/$HOME",
        "/opt/a`b`",
        "/opt/../etc",
        "/opt/./x",
        "/opt/x\n",
    ] {
        assert!(InstallDir::parse(bad).is_err(), "{bad:?} must be refused");
    }
}

#[test]
fn executable_name_is_one_safe_component() {
    assert!(ExecutableName::parse("hello").is_ok());
    assert!(ExecutableName::parse("my-tool.v2").is_ok());
    for bad in [
        "",
        "../../etc/cron.d/evil",
        "a/b",
        "..",
        ".",
        "a b",
        "a;b",
        "a$b",
    ] {
        assert!(
            ExecutableName::parse(bad).is_err(),
            "{bad:?} must be refused"
        );
    }
}

#[test]
fn entrypoint_stays_inside_the_project_and_needs_no_quoting() {
    assert_eq!(
        EntryPoint::parse("./index.js").unwrap().as_str(),
        "index.js"
    );
    assert_eq!(
        EntryPoint::parse("bin/cli.js").unwrap().as_str(),
        "bin/cli.js"
    );
    assert!(EntryPoint::parse("node_modules/@scope/pkg/bin/x.js").is_ok());
    for bad in [
        "",
        "/etc/passwd",
        "../x.js",
        "index.js; touch /tmp/x",
        "my app.js",
        "a$(b).js",
        ".",
    ] {
        assert!(EntryPoint::parse(bad).is_err(), "{bad:?} must be refused");
    }
}
