use nativepkg::architecture::Architecture;
use nativepkg::destination::Destination;
use nativepkg::error::Result;
use nativepkg::plan::{
    BuildPlan, Description, EntryKind, Identity, PlanMetadata, PlannedFile,
    BYTES_PER_FILE_OVERHEAD, KIB, OVERHEAD_KIB,
};
use nativepkg::timestamp::Timestamp;

#[test]
fn a_file_where_a_directory_is_needed_is_refused() {
    let err = plan(vec![
        PlannedFile::from_source(dest("/var/log/app"), "a".into(), 1, false),
        PlannedFile::from_source(dest("/var/log/app/x.log"), "x".into(), 1, false),
    ])
    .expect_err("a path cannot be both a file and a directory");
    let msg = err.text();
    assert!(msg.contains("/var/log/app"), "{msg}");
    assert!(msg.contains("/var/log/app/x.log"), "{msg}");
    assert!(msg.contains("directory"), "{msg}");
}

#[test]
fn a_symlink_where_a_directory_is_needed_is_refused() {
    let err = plan(vec![
        PlannedFile::symlink_to(dest("/usr/lib/app/bin"), "../elsewhere".into()),
        PlannedFile::from_source(dest("/usr/lib/app/bin/tool"), "t".into(), 1, false),
    ])
    .expect_err("a symlink cannot be an ancestor");
    assert!(err.text().contains("/usr/lib/app/bin"), "{err:?}");
}

#[test]
fn synthesis_never_produces_a_duplicate_destination() {
    let p = plan(vec![
        PlannedFile::directory(dest("/opt/app")),
        PlannedFile::from_source(dest("/opt/app/a"), "a".into(), 1, false),
        PlannedFile::from_source(dest("/opt/app/lib/b"), "b".into(), 1, false),
    ])
    .unwrap();
    let mut seen = std::collections::BTreeSet::new();
    for f in &p.files {
        assert!(
            seen.insert(f.destination.as_str()),
            "`{}` appears twice",
            f.destination.as_str()
        );
    }
}

#[test]
fn every_ancestor_directory_is_an_entry_of_the_plan() {
    let p = plan(vec![PlannedFile::from_source(
        dest("/usr/lib/app/lib/deep/file.js"),
        "f".into(),
        1,
        false,
    )])
    .unwrap();

    let directories: Vec<&str> = p
        .files
        .iter()
        .filter(|f| f.kind == EntryKind::Directory)
        .map(|f| f.destination.as_str())
        .collect();
    assert_eq!(
        directories,
        [
            "/usr",
            "/usr/lib",
            "/usr/lib/app",
            "/usr/lib/app/lib",
            "/usr/lib/app/lib/deep"
        ]
    );
    assert!(
        !directories.contains(&"/"),
        "the filesystem root is never an entry"
    );
}

#[test]
fn an_explicit_directory_keeps_its_mode_when_ancestors_are_added() {
    let mut explicit = PlannedFile::directory(dest("/var/log/app"));
    explicit.mode = 0o750;
    let p = plan(vec![
        explicit,
        PlannedFile::from_source(dest("/var/log/app/x.log"), "x".into(), 1, false),
    ])
    .unwrap();

    let mode_of = |path: &str| {
        p.files
            .iter()
            .find(|f| f.destination.as_str() == path)
            .map(|f| f.mode)
    };
    assert_eq!(mode_of("/var/log/app"), Some(0o750));
    assert_eq!(mode_of("/var/log"), Some(PlannedFile::MODE_DIRECTORY));
    assert_eq!(
        p.files
            .iter()
            .filter(|f| f.destination.as_str() == "/var/log/app")
            .count(),
        1,
        "an explicit directory must not be duplicated by a synthesised one"
    );
}

#[test]
fn parents_precede_children() {
    let p = plan(vec![PlannedFile::from_source(
        dest("/opt/x/y/z"),
        "z".into(),
        1,
        false,
    )])
    .unwrap();
    let order: Vec<&str> = p.files.iter().map(|f| f.destination.as_str()).collect();
    assert_eq!(order, ["/opt", "/opt/x", "/opt/x/y", "/opt/x/y/z"]);
}

fn dest(p: &str) -> Destination {
    Destination::new(p).expect("test path should normalise")
}

#[test]
fn destinations_normalise_dot_segments() {
    assert_eq!(dest("/usr/./share/../lib/app").as_str(), "/usr/lib/app");
}

#[test]
fn destinations_collapse_repeated_separators() {
    assert_eq!(dest("/usr//lib///app").as_str(), "/usr/lib/app");
}

#[test]
fn destinations_reject_escape() {
    let err = Destination::new("/usr/../../etc/passwd").unwrap_err();
    assert!(err.text().contains("escapes"), "{err:?}");
}

#[test]
fn destinations_reject_relative_paths() {
    assert!(Destination::new("usr/lib/app").is_err());
}

#[test]
fn destinations_reject_the_root_itself() {
    assert!(Destination::new("/").is_err());
    assert!(Destination::new("/..").is_err());
}

#[test]
fn destinations_reject_control_characters() {
    for bad in [
        "/usr/lib/app/two\nlines",
        "/usr/lib/app/tab\there",
        "/usr/lib/app/nul\0",
    ] {
        let err = Destination::new(bad).unwrap_err().text();
        assert!(
            !err.contains("  "),
            "the message should not contain runs of spaces: {err:?}"
        );
        assert!(
            err.contains("package metadata is line-oriented"),
            "the message should explain why: {err:?}"
        );
        assert!(
            err.contains("control character"),
            "`{}` should be refused: {err:?}",
            bad.escape_debug()
        );
    }
}

#[test]
fn destinations_accept_ordinary_awkward_characters() {
    for good in ["/usr/lib/app/with space", "/usr/lib/app/with'quote"] {
        assert!(
            Destination::new(good).is_ok(),
            "`{good}` should be accepted"
        );
    }
}

#[test]
fn destinations_reject_empty() {
    assert!(Destination::new("").is_err());
}

#[test]
fn relative_form_drops_the_leading_separator() {
    assert_eq!(dest("/usr/lib/app").relative_str(), "usr/lib/app");
}

#[test]
fn ancestors_are_outermost_first() {
    let a = dest("/usr/lib/app/bin/x");
    let names: Vec<String> = a.ancestors().iter().map(|d| d.as_str().to_owned()).collect();
    assert_eq!(
        names,
        ["/usr", "/usr/lib", "/usr/lib/app", "/usr/lib/app/bin"]
    );
}

#[test]
fn symlink_within_one_top_level_directory_is_relative() {
    let link = dest("/usr/bin/app");
    let target = dest("/usr/lib/app/bin/app");
    assert_eq!(link.link_target_from(&target), "../lib/app/bin/app");
}

#[test]
fn symlink_across_top_level_directories_is_absolute() {
    let link = dest("/etc/app/current");
    let target = dest("/usr/lib/app");
    assert_eq!(link.link_target_from(&target), "/usr/lib/app");
}

#[test]
fn symlink_to_its_own_directory_is_self_referential_not_empty() {
    let link = dest("/usr/lib/app/current");
    let target = dest("/usr/lib/app");
    assert_eq!(link.link_target_from(&target), ".");
}

#[test]
fn every_computed_link_target_is_non_empty() {
    let cases = [
        ("/usr/bin/app", "/usr/lib/app/bin/app"),
        ("/etc/app/current", "/usr/lib/app"),
        ("/usr/lib/app/current", "/usr/lib/app/v1"),
        ("/usr/lib/app/current", "/usr/lib/app"),
        ("/usr/a", "/usr/b"),
    ];
    for (link, target) in cases {
        let computed = dest(link).link_target_from(&dest(target));
        assert!(
            !computed.is_empty(),
            "`{link}` -> `{target}` produced an empty target"
        );
    }
}

#[test]
fn overhead_constant_matches_its_stated_identity() {
    for len in [0_u64, 1, 1023, 1024, 1025, 4096, 100_000] {
        let via_constant = (len + BYTES_PER_FILE_OVERHEAD) / KIB;
        let via_intent = len.div_ceil(KIB) + OVERHEAD_KIB;
        assert_eq!(via_constant, via_intent, "identity broken for len = {len}");
    }
}

#[test]
fn symlink_within_the_same_directory_needs_no_ascent() {
    let link = dest("/usr/lib/app/current");
    let target = dest("/usr/lib/app/v1");
    assert_eq!(link.link_target_from(&target), "v1");
}

#[test]
fn description_splits_synopsis_from_body() {
    let d = Description::split("a tool\n\ndoes things").unwrap();
    assert_eq!(d.synopsis, "a tool");
    assert_eq!(d.body, "does things");
}

#[test]
fn single_line_description_has_no_body() {
    let d = Description::split("a tool").unwrap();
    assert_eq!(d.synopsis, "a tool");
    assert!(d.body.is_empty());
}

#[test]
fn empty_description_is_rejected() {
    assert!(Description::split("").is_err());
    assert!(Description::split("   \n  ").is_err());
}

fn identity() -> Identity {
    Identity {
        package_name: "app".into(),
        version_deb: "1.0.0".into(),
        version_rpm: "1.0.0".into(),
        release_rpm: "1".into(),
        epoch: None,
        description: Description::split("a tool").unwrap(),
        maintainer: "A <a@example.com>".into(),
        architecture: Architecture::Any,
        dependencies: Some("nodejs".into()),
        homepage: None,
        license: None,
    }
}

fn metadata() -> PlanMetadata {
    PlanMetadata {
        generator: "nativepkg".into(),
        generator_version: "0.1.0".into(),
    }
}

fn plan(files: Vec<PlannedFile>) -> Result<BuildPlan> {
    BuildPlan::new(identity(), files, Timestamp::from_secs(1000), metadata())
}

#[test]
fn plan_entries_are_sorted_by_destination() {
    let p = plan(vec![
        PlannedFile::from_source(dest("/usr/b"), "b".into(), 1, false),
        PlannedFile::from_source(dest("/usr/a"), "a".into(), 1, false),
    ])
    .unwrap();
    let order: Vec<&str> = p.files.iter().map(|f| f.destination.as_str()).collect();
    assert_eq!(order, ["/usr", "/usr/a", "/usr/b"]);
}

#[test]
fn duplicate_destinations_are_rejected() {
    let err = plan(vec![
        PlannedFile::from_source(dest("/usr/a"), "one".into(), 1, false),
        PlannedFile::from_source(dest("/usr/a"), "two".into(), 1, false),
    ])
    .unwrap_err();
    assert!(err.text().contains("/usr/a"), "{err:?}");
}

#[test]
fn installed_size_allows_per_file_overhead() {
    let p = plan(vec![
        PlannedFile::from_source(dest("/usr/a"), "a".into(), 1, false),
        PlannedFile::from_source(dest("/usr/b"), "b".into(), 1, false),
        PlannedFile::from_source(dest("/usr/c"), "c".into(), 1, false),
    ])
    .unwrap();
    assert_eq!(p.installed_size_kib(), 6);
}

#[test]
fn installed_size_scales_with_content() {
    let p = plan(vec![PlannedFile::from_source(
        dest("/usr/big"),
        "big".into(),
        10 * 1024,
        false,
    )])
    .unwrap();
    assert_eq!(p.installed_size_kib(), 11);
}

#[test]
fn symlinks_and_directories_do_not_inflate_installed_size() {
    let target = dest("/usr/lib/app/bin/app");
    let p = plan(vec![
        PlannedFile::directory(dest("/usr/lib/app")),
        PlannedFile::symlink(dest("/usr/bin/app"), &target),
    ])
    .unwrap();
    assert_eq!(p.installed_size_kib(), 0);
}

#[test]
fn modes_follow_entry_kind() {
    let target = dest("/usr/lib/app/bin/app");
    assert_eq!(
        PlannedFile::directory(dest("/usr/lib/app")).mode,
        PlannedFile::MODE_DIRECTORY
    );
    assert_eq!(
        PlannedFile::symlink(dest("/usr/bin/app"), &target).mode,
        PlannedFile::MODE_SYMLINK
    );
    assert_eq!(
        PlannedFile::from_source(dest("/usr/a"), "a".into(), 1, true).mode,
        PlannedFile::MODE_EXECUTABLE
    );
    assert_eq!(
        PlannedFile::from_source(dest("/usr/a"), "a".into(), 1, false).mode,
        PlannedFile::MODE_REGULAR
    );
}

#[test]
fn config_files_are_listed_in_order() {
    let p = plan(vec![
        PlannedFile::from_source(dest("/etc/app/b.conf"), "b".into(), 1, false).as_config(),
        PlannedFile::from_source(dest("/usr/a"), "a".into(), 1, false),
        PlannedFile::from_source(dest("/etc/app/a.conf"), "a".into(), 1, false).as_config(),
    ])
    .unwrap();
    let names: Vec<&str> = p
        .config_files()
        .iter()
        .map(|f| f.destination.as_str())
        .collect();
    assert_eq!(names, ["/etc/app/a.conf", "/etc/app/b.conf"]);
}

#[test]
fn long_destinations_are_recorded_in_full() {
    let deep = format!(
        "/usr/lib/app/node_modules/{}/index.js",
        "a/node_modules/b".repeat(8)
    );
    let d = Destination::new(&deep).unwrap();
    assert!(d.as_str().len() > 100);
    assert!(d.as_str().ends_with("/index.js"));
}

#[test]
fn a_stored_link_normalises_to_its_target() {
    for (link, target) in [
        ("/usr/bin/app", "/usr/lib/app/bin/app"),
        ("/usr/lib/app/current", "/usr/lib/app/v1"),
        ("/usr/lib/app/self", "/usr/lib/app"),
        ("/usr/a/b/c/d", "/usr/a/x"),
        ("/opt", "/opt/app"),
    ] {
        let stored = dest(link).link_target_from(&dest(target));
        let (dir, _) = link.rsplit_once('/').expect("absolute");
        let resolved = dest(&format!("{dir}/{stored}"));
        assert_eq!(resolved.as_str(), target, "{link} -> {stored}");
    }
    assert_eq!(dest("/usr/a/b/c/d").link_target_from(&dest("/usr/a/x")), "../../x");
}
