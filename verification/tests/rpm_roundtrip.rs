use std::cmp::Ordering;

use nativepkg::architecture::Architecture;
use nativepkg::destination::Destination;
use nativepkg::packing::{SourceFile, Sources};
use nativepkg::plan::{BuildPlan, Description, Identity, PlanMetadata, PlannedFile};
use nativepkg::rpm::{build_bytes, file_name, file_name_from, source_date, Options};
use nativepkg::timestamp::Timestamp;
use nativepkg::version::{MappedVersion, VersionSpec};

const TIMESTAMP: u64 = 1_700_000_000;

fn dest(path: &str) -> Destination {
    Destination::new(path).expect("fixture path should normalise")
}

fn identity(version: &str, arch: Architecture) -> Identity {
    Identity {
        package_name: "probe-app".into(),
        version_deb: version.into(),
        version_rpm: version.into(),
        release_rpm: "1".into(),
        epoch: None,
        description: Description::split("a probe\n\nwith a body").expect("splits"),
        maintainer: "A <a@example.com>".into(),
        architecture: arch,
        dependencies: Some("nodejs, redis-server".into()),
        homepage: Some("https://example.com".into()),
        license: Some("MIT".into()),
    }
}

fn plan_with(files: Vec<PlannedFile>, version: &str, arch: Architecture) -> BuildPlan {
    BuildPlan::new(
        identity(version, arch),
        files,
        Timestamp::from_secs(TIMESTAMP),
        PlanMetadata {
            generator: "nativepkg".into(),
            generator_version: "0.1.0".into(),
        },
    )
    .expect("fixture plan should assemble")
}

fn sample_plan() -> BuildPlan {
    let target = dest("/usr/lib/probe-app/bin/probe-app");
    plan_with(
        vec![
            PlannedFile::inline(
                dest("/usr/lib/probe-app/app/app.js"),
                b"console.log(1)\n".to_vec(),
                PlannedFile::MODE_REGULAR,
            ),
            PlannedFile::inline(
                target.clone(),
                b"#!/bin/sh\nexec node app.js\n".to_vec(),
                PlannedFile::MODE_EXECUTABLE,
            ),
            PlannedFile::inline(
                dest("/etc/probe-app/config.json"),
                b"{}\n".to_vec(),
                PlannedFile::MODE_REGULAR,
            )
            .as_config(),
            PlannedFile::symlink(dest("/usr/bin/probe-app"), &target),
        ],
        "1.2.3",
        Architecture::Any,
    )
}

fn parse(bytes: &[u8]) -> rpm::Package {
    rpm::Package::parse(&mut std::io::Cursor::new(bytes)).expect("should parse back")
}

fn read_of(path: &str, bytes: &[u8], modified: u64) -> Sources {
    Sources::new().with(path.to_owned(), Ok(SourceFile { bytes: bytes.to_vec(), modified }))
}

fn build(plan: &BuildPlan) -> rpm::Package {
    parse(&build_bytes(plan, &Options::default(), &Sources::new()).expect("should build"))
}

#[test]
fn the_fixture_exercises_several_entry_kinds() {
    let plan = sample_plan();
    assert!(plan.files.iter().filter(|f| f.is_regular()).count() >= 3);
    assert!(plan.files.iter().any(PlannedFile::is_symlink));
    assert!(!plan.config_files().is_empty());
}

#[test]
fn identity_fields_match_the_plan() {
    let package = build(&sample_plan());
    let header = &package.metadata;
    assert_eq!(header.get_name().expect("name"), "probe-app");
    assert_eq!(header.get_version().expect("version"), "1.2.3");
    assert_eq!(header.get_release().expect("release"), "1");
    assert_eq!(header.get_arch().expect("arch"), "noarch");
    assert_eq!(header.get_license().expect("license"), "MIT");
    assert_eq!(header.get_summary().expect("summary"), "a probe");
    assert_eq!(header.get_url().expect("url"), "https://example.com");
}

#[test]
fn architecture_uses_the_rpm_spelling() {
    for (arch, expected) in [
        (Architecture::Any, "noarch"),
        (Architecture::Amd64, "x86_64"),
        (Architecture::Arm64, "aarch64"),
    ] {
        let plan = plan_with(
            vec![PlannedFile::inline(
                dest("/usr/lib/probe-app/app.js"),
                b"x\n".to_vec(),
                PlannedFile::MODE_REGULAR,
            )],
            "1.2.3",
            arch,
        );
        assert_eq!(
            build(&plan).metadata.get_arch().expect("arch"),
            expected,
            "{arch:?}"
        );
    }
}

#[test]
fn the_description_carries_synopsis_and_body() {
    let package = build(&sample_plan());
    let description = package.metadata.get_description().expect("description");
    assert!(description.contains("a probe"), "{description}");
    assert!(description.contains("with a body"), "{description}");
}

#[test]
fn dependencies_become_requirements() {
    let package = build(&sample_plan());
    let names: Vec<String> = package
        .metadata
        .get_requires()
        .expect("requires")
        .into_iter()
        .map(|d| d.name)
        .collect();
    assert!(names.iter().any(|n| n == "nodejs"), "{names:?}");
    assert!(names.iter().any(|n| n == "redis-server"), "{names:?}");
}

#[test]
fn every_planned_file_appears_in_the_payload() {
    let package = build(&sample_plan());
    let paths: Vec<String> = package
        .metadata
        .get_file_paths()
        .expect("paths")
        .into_iter()
        .map(|p| p.display().to_string())
        .collect();

    for expected in [
        "/usr/lib/probe-app/app/app.js",
        "/usr/lib/probe-app/bin/probe-app",
        "/etc/probe-app/config.json",
        "/usr/bin/probe-app",
    ] {
        assert!(
            paths.contains(&expected.to_owned()),
            "{expected} missing from {paths:?}"
        );
    }
}

#[test]
fn the_symlink_is_stored_as_a_symlink_with_its_planned_target() {
    let package = build(&sample_plan());
    let entry = package
        .metadata
        .get_file_entries()
        .expect("entries")
        .into_iter()
        .find(|e| e.path().display().to_string() == "/usr/bin/probe-app")
        .expect("the link should be present");

    assert_eq!(
        entry.file_type(),
        rpm::FileType::SymbolicLink,
        "a symlink stored as a regular file installs a zero-byte file, not a link"
    );
    assert_eq!(
        entry.linkto(),
        Some("../lib/probe-app/bin/probe-app"),
        "the link must carry the target the plan computed"
    );
}

#[test]
fn an_explicit_directory_entry_is_packaged() {
    let plan = plan_with(
        vec![
            PlannedFile::inline(
                dest("/usr/lib/probe-app/app.js"),
                b"x\n".to_vec(),
                PlannedFile::MODE_REGULAR,
            ),
            PlannedFile::directory(dest("/var/log/probe-app")),
        ],
        "1.2.3",
        Architecture::Any,
    );
    let package = build(&plan);
    let entry = package
        .metadata
        .get_file_entries()
        .expect("entries")
        .into_iter()
        .find(|e| e.path().display().to_string() == "/var/log/probe-app")
        .expect("an explicitly planned directory must be packaged");
    assert_eq!(entry.file_type(), rpm::FileType::Dir);
    assert_eq!(entry.permissions(), 0o755);
}

#[test]
fn configuration_files_are_flagged_and_others_are_not() {
    let package = build(&sample_plan());
    let entries = package.metadata.get_file_entries().expect("entries");

    let config = entries
        .iter()
        .find(|e| e.path().display().to_string() == "/etc/probe-app/config.json")
        .expect("config file present");
    assert!(
        config.flags().contains(rpm::FileFlags::CONFIG),
        "a configuration file must be flagged: {:?}",
        config.flags()
    );
    assert!(
        config.flags().contains(rpm::FileFlags::NOREPLACE),
        "edits must survive an upgrade: {:?}",
        config.flags()
    );

    let ordinary = entries
        .iter()
        .find(|e| e.path().display().to_string() == "/usr/lib/probe-app/app/app.js")
        .expect("ordinary file present");
    assert!(
        !ordinary.flags().contains(rpm::FileFlags::CONFIG),
        "an ordinary file must not be flagged as configuration: {:?}",
        ordinary.flags()
    );
}

#[test]
fn maintainer_scripts_become_scriptlets() {
    let options = Options {
        maintainer_scripts: vec![
            ("post".to_owned(), b"#!/bin/sh\nexit 0\n".to_vec()),
            ("preun".to_owned(), b"#!/bin/sh\nexit 0\n".to_vec()),
        ],
        ..Options::default()
    };
    let package = parse(&build_bytes(&sample_plan(), &options, &Sources::new()).expect("should build"));
    assert!(package.metadata.get_post_install_script().is_ok());
    assert!(package.metadata.get_pre_uninstall_script().is_ok());
}

#[test]
fn an_unmappable_scriptlet_name_is_refused() {
    let options = Options {
        maintainer_scripts: vec![("triggerin".to_owned(), b"x".to_vec())],
        ..Options::default()
    };
    let err = build_bytes(&sample_plan(), &options, &Sources::new()).expect_err("RPM has four slots");
    assert!(err.text().contains("triggerin"), "{err:?}");
}

#[test]
fn rpm_roundtrip_two_builds_of_one_plan_are_byte_identical() {
    let plan = sample_plan();
    let first = build_bytes(&plan, &Options::default(), &Sources::new()).expect("build");
    let second = build_bytes(&plan, &Options::default(), &Sources::new()).expect("build");
    assert_eq!(first, second);
}

#[test]
fn rpm_roundtrip_a_different_timestamp_produces_different_bytes() {
    let plan = sample_plan();
    let mut other = sample_plan();
    other.timestamp = Timestamp::from_secs(TIMESTAMP + 1000);
    assert_ne!(
        build_bytes(&plan, &Options::default(), &Sources::new()).expect("build"),
        build_bytes(&other, &Options::default(), &Sources::new()).expect("build")
    );
}

#[test]
fn the_build_time_is_the_plans_not_the_clock() {
    let package = build(&sample_plan());
    let build_time = package.metadata.get_build_time().expect("build time");
    assert_eq!(build_time, TIMESTAMP);
}

#[test]
fn the_mappers_own_output_sorts_correctly_under_rpm_rules() {
    let mapped = |input: &str| {
        let spec = VersionSpec::parse(input).expect("test input should parse");
        MappedVersion::new(&spec, None).expect("test input should map")
    };

    for (pre, release) in [
        ("1.2.3-beta.1", "1.2.3"),
        ("1.2.3-rc.1", "1.2.3"),
        ("1.2.3-beta.1", "1.2.3-rc.1"),
        ("2.0.0-alpha.1+build.5", "2.0.0"),
    ] {
        let lower = mapped(pre);
        let higher = mapped(release);
        assert_eq!(
            rpm_version::rpm_evr_compare(lower.rpm_version(), higher.rpm_version()),
            Ordering::Less,
            "`{pre}` mapped to `{}` should sort below `{release}` mapped to `{}`",
            lower.rpm_version(),
            higher.rpm_version()
        );
    }
}

#[test]
fn the_package_carries_the_mapped_version() {
    let spec = VersionSpec::parse("1.2.3-beta.1").expect("parses");
    let mapped = MappedVersion::new(&spec, None).expect("maps");
    assert_eq!(mapped.rpm_version(), "1.2.3~beta.1");

    let plan = plan_with(
        vec![PlannedFile::inline(
            dest("/usr/lib/probe-app/app.js"),
            b"x\n".to_vec(),
            PlannedFile::MODE_REGULAR,
        )],
        mapped.rpm_version(),
        Architecture::Any,
    );
    assert_eq!(
        build(&plan).metadata.get_version().expect("version"),
        "1.2.3~beta.1"
    );
}

#[test]
fn the_unmapped_npm_spelling_sorts_the_wrong_way_under_rpm_rules() {
    assert_eq!(
        rpm_version::rpm_evr_compare("1.2.3-beta.1", "1.2.3"),
        Ordering::Greater,
        "if this ever fails, the tilde mapping is no longer needed for RPM"
    );
}

#[test]
fn an_epoch_is_carried_in_its_own_field() {
    let mut identity = identity("1.2.3", Architecture::Any);
    identity.epoch = Some(2);
    let plan = BuildPlan::new(
        identity,
        vec![PlannedFile::inline(
            dest("/usr/lib/probe-app/app.js"),
            b"x\n".to_vec(),
            PlannedFile::MODE_REGULAR,
        )],
        Timestamp::from_secs(TIMESTAMP),
        PlanMetadata {
            generator: "nativepkg".into(),
            generator_version: "0.1.0".into(),
        },
    )
    .expect("plan should assemble");

    let package = build(&plan);
    assert_eq!(package.metadata.get_epoch().expect("epoch"), 2);
    assert_eq!(
        package.metadata.get_version().expect("version"),
        "1.2.3",
        "the epoch must not be folded into the version string"
    );
}

#[test]
fn no_epoch_means_no_epoch_field() {
    let package = build(&sample_plan());
    assert!(package.metadata.get_epoch().is_err());
}

#[test]
fn ownership_scales_with_a_custom_installation_root() {
    let mut plan = sample_plan();
    plan.files = plan
        .files
        .iter()
        .filter(|file| file.destination.as_str().starts_with("/usr/lib/probe-app"))
        .map(|file| {
            let mut moved = file.clone();
            moved.destination = Destination::new(
                &file
                    .destination
                    .as_str()
                    .replace("/usr/lib/probe-app", "/usr/local/lib/probe-app"),
            )
            .expect("a valid destination");
            moved
        })
        .collect();

    let bytes = build_bytes(&plan, &Options::default(), &Sources::new()).expect("builds");
    let package =
        rpm::Package::parse(&mut std::io::Cursor::new(bytes)).expect("a readable package");
    let directories: Vec<String> = package
        .metadata
        .get_file_entries()
        .expect("file entries")
        .iter()
        .filter(|entry| entry.file_type() == rpm::FileType::Dir)
        .map(|entry| entry.path().display().to_string())
        .collect();

    assert!(
        directories.iter().any(|d| d == "/usr/local/lib/probe-app"),
        "the package must own the root it creates:\n{directories:#?}"
    );
    for shared in ["/usr", "/usr/local", "/usr/local/lib"] {
        assert!(
            !directories.iter().any(|d| d == shared),
            "`{shared}` belongs to the base system; a package must not claim it:\n\
             {directories:#?}"
        );
    }
}

#[test]
fn the_package_owns_the_directories_its_files_live_in() {
    let plan = sample_plan();
    let bytes = build_bytes(&plan, &Options::default(), &Sources::new()).expect("builds");
    let package =
        rpm::Package::parse(&mut std::io::Cursor::new(bytes)).expect("a readable package");

    let entries = package.metadata.get_file_entries().expect("file entries");

    let directories: Vec<String> = entries
        .iter()
        .filter(|entry| entry.file_type() == rpm::FileType::Dir)
        .map(|entry| entry.path().display().to_string())
        .collect();

    assert!(
        !directories.is_empty(),
        "the package declares no directories at all, so `rpm --erase` would leave every one \
         of them behind"
    );

    for expected in [
        "/usr/lib/probe-app",
        "/usr/lib/probe-app/app",
        "/usr/lib/probe-app/bin",
    ] {
        assert!(
            directories.iter().any(|d| d == expected),
            "`{expected}` is created by this package but not owned, so `rpm --erase` would \
             leave it behind:\n{directories:#?}"
        );
    }

    for system in ["/usr", "/usr/lib", "/etc", "/var", "/var/log"] {
        assert!(
            !directories.iter().any(|d| d == system),
            "`{system}` belongs to the base system; a package must not claim it:\n\
             {directories:#?}"
        );
    }
}

#[test]
fn a_preset_service_ships_its_enabling_policy_without_owning_the_directory() {
    let options = Options {
        preset_service: Some("probe-app".to_owned()),
        ..Options::default()
    };
    let package = parse(&build_bytes(&sample_plan(), &options, &Sources::new()).expect("should build"));
    let paths: Vec<String> = package
        .metadata
        .get_file_paths()
        .expect("paths")
        .into_iter()
        .map(|p| p.display().to_string())
        .collect();
    assert!(
        paths.contains(&"/usr/lib/systemd/system-preset/50-probe-app.preset".to_owned()),
        "{paths:#?}"
    );
    assert!(
        !paths.contains(&"/usr/lib/systemd/system-preset".to_owned()),
        "the preset directory belongs to systemd:\n{paths:#?}"
    );

    let without = parse(&build_bytes(&sample_plan(), &Options::default(), &Sources::new()).expect("should build"));
    let plain: Vec<String> = without
        .metadata
        .get_file_paths()
        .expect("paths")
        .into_iter()
        .map(|p| p.display().to_string())
        .collect();
    assert!(
        !plain.iter().any(|p| p.contains("system-preset")),
        "no policy is shipped when nothing is preset:\n{plain:#?}"
    );
}

#[test]
fn an_rpm_is_produced_without_any_rpm_toolchain() {
    let bytes =
        build_bytes(&sample_plan(), &Options::default(), &Sources::new()).expect("should build");
    assert!(!bytes.is_empty());
    assert_eq!(&bytes[..4], &[0xed, 0xab, 0xee, 0xdb]);
}

#[test]
fn streamed_files_reach_the_payload() {
    let content = vec![7u8; 4096];
    let plan = plan_with(
        vec![PlannedFile::from_source(
            dest("/usr/lib/probe-app/payload.bin"),
            "/project/payload.bin".to_owned(),
            content.len() as u64,
            false,
        )],
        "1.2.3",
        Architecture::Any,
    );
    let read = read_of("/project/payload.bin", &content, TIMESTAMP);
    let package = parse(&build_bytes(&plan, &Options::default(), &read).expect("should build"));

    let entry = package
        .metadata
        .get_file_entries()
        .expect("entries")
        .into_iter()
        .find(|e| e.path().display().to_string() == "/usr/lib/probe-app/payload.bin")
        .expect("the streamed file should be present");
    assert_eq!(entry.size(), content.len());
    assert_eq!(entry.file_type(), rpm::FileType::Regular);
}

#[test]
fn streamed_file_timestamps_follow_the_documented_rule() {
    for (label, offset, expected) in [
        ("older than the plan: leaks", -10_000_i64, TIMESTAMP - 10_000),
        ("newer than the plan: clamped", 10_000_i64, TIMESTAMP),
    ] {
        let plan = plan_with(
            vec![PlannedFile::from_source(
                dest("/usr/lib/probe-app/payload.bin"),
                "/project/payload.bin".to_owned(),
                1,
                false,
            )],
            "1.2.3",
            Architecture::Any,
        );
        let read = read_of("/project/payload.bin", b"x", TIMESTAMP.wrapping_add_signed(offset));
        let package = parse(&build_bytes(&plan, &Options::default(), &read).expect("should build"));
        let entry = package
            .metadata
            .get_file_entries()
            .expect("entries")
            .into_iter()
            .find(|e| e.path().display().to_string() == "/usr/lib/probe-app/payload.bin")
            .expect("the streamed file");
        assert_eq!(u64::from(entry.modified_at().0), expected, "{label}");
    }
}

#[test]
fn a_file_that_could_not_be_read_names_its_source() {
    let plan = plan_with(
        vec![PlannedFile::from_source(
            dest("/usr/lib/probe-app/payload.bin"),
            "/project/payload.bin".to_owned(),
            1,
            false,
        )],
        "1.2.3",
        Architecture::Any,
    );
    let err = build_bytes(&plan, &Options::default(), &Sources::new()).expect_err("nothing read");
    assert!(err.text().contains("/project/payload.bin"), "{err:?}");
}

#[test]
fn a_scriptlet_that_is_not_text_is_read_loosely() {
    let options = Options {
        maintainer_scripts: vec![("post".to_owned(), vec![b'x', 0xff])],
        ..Options::default()
    };
    let bytes = build_bytes(&sample_plan(), &options, &Sources::new()).expect("should build");
    let script = parse(&bytes).metadata.get_post_install_script().expect("a scriptlet").script;
    assert_eq!(script, "x\u{fffd}");
}

#[test]
fn the_file_name_is_the_conventional_one() {
    assert_eq!(file_name(&sample_plan()), "probe-app-1.2.3-1.noarch.rpm");
    assert_eq!(file_name_from("custom", &sample_plan()), "custom-1.2.3-1.noarch.rpm");
}

#[test]
fn a_date_beyond_the_field_is_clamped() {
    let mut plan = sample_plan();
    assert_eq!(u64::from(source_date(&plan)), TIMESTAMP);
    plan.timestamp = Timestamp::from_secs(u64::from(u32::MAX) + 7);
    assert_eq!(source_date(&plan), u32::MAX);
}

#[test]
fn payload_bytes_and_permissions_are_kept() {
    let package = build(&sample_plan());
    let entries = package.metadata.get_file_entries().expect("entries");
    let find = |path: &str| {
        entries
            .iter()
            .find(|e| e.path().display().to_string() == path)
            .expect("present")
    };
    assert_eq!(find("/usr/lib/probe-app/app/app.js").size(), 15);
    assert_eq!(find("/usr/lib/probe-app/app/app.js").permissions(), 0o644);
    assert_eq!(find("/usr/lib/probe-app/bin/probe-app").permissions(), 0o755);
    assert_eq!(package.metadata.get_packager().expect("packager"), "A <a@example.com>");
}
