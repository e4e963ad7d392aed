use md5::{Digest, Md5};
use nativepkg::architecture::Architecture;
use nativepkg::container::is_step_readable;
use nativepkg::deb::docs;
use nativepkg::deb::read::{Entry, EntryKind};
use nativepkg::deb::{build_bytes, read, Compression, MaintainerScript, Options};
use nativepkg::destination::Destination;
use nativepkg::packing::{SourceFile, Sources};
use nativepkg::plan::{
    BuildPlan, Description, FileContent, Identity, PlanMetadata, PlannedFile,
};
use nativepkg::strmap::StrMap;
use nativepkg::tarwalk::is_member_readable;
use nativepkg::timestamp::Timestamp;

const TIMESTAMP: u64 = 1_700_000_000;

fn dest(path: &str) -> Destination {
    Destination::new(path).expect("fixture path should normalise")
}

fn plan_with_files(files: Vec<PlannedFile>, description: &str) -> BuildPlan {
    let identity = Identity {
        package_name: "probe-app".into(),
        version_deb: "1.2.3".into(),
        version_rpm: "1.2.3".into(),
        release_rpm: "1".into(),
        epoch: None,
        description: Description::split(description).expect("description should split"),
        maintainer: "A <a@example.com>".into(),
        architecture: Architecture::Any,
        dependencies: Some("nodejs".into()),
        homepage: Some("https://example.com".into()),
        license: Some("MIT".into()),
    };
    BuildPlan::new(
        identity,
        files,
        Timestamp::from_secs(TIMESTAMP),
        PlanMetadata {
            generator: "nativepkg".into(),
            generator_version: "0.1.0".into(),
        },
    )
    .expect("fixture plan should assemble")
}

fn sample_plan() -> BuildPlan {
    let target = dest("/usr/lib/probe-app/bin/probe-app");
    plan_with_files(
        vec![
            PlannedFile::inline(
                dest("/usr/lib/probe-app/app/app.js"),
                b"console.log(1)\n".to_vec(),
                PlannedFile::MODE_REGULAR,
            ),
            PlannedFile::inline(
                target.clone(),
                b"#!/bin/sh\nexec node app.js\n".to_vec(),
                PlannedFile::MODE_EXECUTABLE,
            ),
            PlannedFile::inline(
                dest("/etc/probe-app/config.json"),
                b"{}\n".to_vec(),
                PlannedFile::MODE_REGULAR,
            )
            .as_config(),
            PlannedFile::symlink(dest("/usr/bin/probe-app"), &target),
        ],
        "a probe\n\nwith a body",
    )
}

fn at<'a>(data: &'a StrMap<Entry>, path: &str) -> &'a Entry {
    data.get(path).expect("the entry is there")
}

fn entries(data: &StrMap<Entry>) -> Vec<(&str, &Entry)> {
    (0..data.len()).map(|i| (data.key_at(i), data.value_at(i))).collect()
}

fn script(name: &str, bytes: &[u8]) -> MaintainerScript {
    MaintainerScript { name: name.to_owned(), bytes: bytes.to_vec() }
}

fn source(path: &str, bytes: &[u8]) -> Sources {
    Sources::new().with(
        path.to_owned(),
        Ok(SourceFile { bytes: bytes.to_vec(), modified: TIMESTAMP }),
    )
}

fn build(plan: &BuildPlan, options: &Options) -> read::Package {
    let bytes = build_bytes(plan, options, &Sources::new()).expect("should build");
    read::parse(&bytes).expect("should parse back")
}

#[test]
fn the_fixture_actually_exercises_several_entry_kinds() {
    let plan = sample_plan();
    assert!(
        plan.files.iter().filter(|f| f.is_regular()).count() >= 3,
        "fixture should contain several regular files"
    );
    assert!(plan.files.iter().any(PlannedFile::is_symlink));
    assert!(!plan.config_files().is_empty());
}

#[test]
fn the_container_has_the_three_members_in_order() {
    let package = build(&sample_plan(), &Options::default());
    assert_eq!(
        package.members,
        vec!["debian-binary", "control.tar.xz", "data.tar.xz"]
    );
}

#[test]
fn every_compressor_produces_a_readable_package() {
    for compression in [
        Compression::Gzip,
        Compression::Xz,
        Compression::Zstd,
        Compression::Stored,
    ] {
        let options = Options {
            compression,
            ..Options::default()
        };
        let package = build(&sample_plan(), &options);
        assert_eq!(
            package.members[1],
            compression.member_name("control"),
            "{compression:?}"
        );
        assert!(
            package.data.contains_key("usr/lib/probe-app/app/app.js"),
            "{compression:?} lost the payload"
        );
    }
}

#[test]
fn control_fields_match_the_plan() {
    let package = build(&sample_plan(), &Options::default());
    for (field, expected) in [
        ("Package", "probe-app"),
        ("Version", "1.2.3"),
        ("Architecture", "all"),
        ("Depends", "nodejs"),
        ("Homepage", "https://example.com"),
    ] {
        assert_eq!(
            package.control.get(field),
            Some(expected),
            "field `{field}`"
        );
    }
    for field in ["Installed-Size", "Priority", "Section", "Maintainer"] {
        assert!(package.control.contains_key(field), "missing `{field}`");
    }
}

#[test]
fn a_multi_line_description_survives_a_round_trip() {
    let package = build(&sample_plan(), &Options::default());
    let description = package.control.get("Description").expect("present");
    assert!(description.starts_with("a probe"), "{description}");
    assert!(description.contains("with a body"), "{description}");
}

#[test]
fn parent_directories_are_present_exactly_once() {
    let package = build(&sample_plan(), &Options::default());
    for directory in [
        "usr",
        "usr/lib",
        "usr/lib/probe-app",
        "etc",
        "etc/probe-app",
    ] {
        let entry = package
            .data
            .get(directory)
            .unwrap_or_else(|| panic!("directory `{directory}` missing; lintian requires it"));
        assert_eq!(entry.kind, EntryKind::Directory, "{directory}");
        assert_eq!(
            package.occurrences(directory),
            1,
            "`{directory}` appears {} times in data.tar",
            package.occurrences(directory)
        );
    }
}

#[test]
fn an_explicit_directory_entry_is_packaged_with_its_own_mode() {
    let restricted = PlannedFile {
        destination: dest("/var/log/probe-app"),
        kind: nativepkg::plan::EntryKind::Directory,
        content: FileContent::Absent,
        mode: 0o700,
        is_config: false,
    };
    let plan = plan_with_files(
        vec![
            PlannedFile::inline(
                dest("/usr/lib/probe-app/app.js"),
                b"x\n".to_vec(),
                PlannedFile::MODE_REGULAR,
            ),
            restricted,
        ],
        "a probe",
    );
    let package = build(&plan, &Options::default());

    let entry = package
        .data
        .get("var/log/probe-app")
        .expect("an explicitly planned directory must be packaged");
    assert_eq!(entry.kind, EntryKind::Directory);
    assert_eq!(
        entry.mode, 0o700,
        "the mode the plan asked for must reach the archive"
    );
    assert_eq!(package.occurrences("var/log/probe-app"), 1);

    assert_eq!(at(&package.data, "var/log").mode, 0o755);
}

#[test]
fn a_directory_that_is_also_an_ancestor_is_not_duplicated() {
    let plan = plan_with_files(
        vec![
            PlannedFile::directory(dest("/usr/lib/probe-app")),
            PlannedFile::inline(
                dest("/usr/lib/probe-app/app.js"),
                b"x\n".to_vec(),
                PlannedFile::MODE_REGULAR,
            ),
        ],
        "a probe",
    );
    let package = build(&plan, &Options::default());
    assert_eq!(package.occurrences("usr/lib/probe-app"), 1);
}

#[test]
fn entry_modes_and_ownership_follow_their_kind() {
    let package = build(&sample_plan(), &Options::default());
    for (path, entry) in entries(&package.data) {
        assert_eq!(entry.uid, 0, "`{path}` must be owned by root");
        assert_eq!(entry.gid, 0, "`{path}` must be owned by root");
    }
    assert_eq!(at(&package.data, "usr/lib/probe-app").mode, 0o755, "directory");
    assert_eq!(
        at(&package.data, "usr/lib/probe-app/bin/probe-app").mode, 0o755,
        "executable"
    );
    assert_eq!(
        at(&package.data, "usr/lib/probe-app/app/app.js").mode, 0o644,
        "regular file"
    );
    assert_eq!(at(&package.data, "usr/bin/probe-app").mode, 0o777, "symlink");
    assert_eq!(
        at(&package.data, "etc/probe-app/config.json").mode, 0o644,
        "configuration file"
    );
}

#[test]
fn the_symlink_survives_with_its_planned_target() {
    let package = build(&sample_plan(), &Options::default());
    let link = at(&package.data, "usr/bin/probe-app");
    assert_eq!(link.kind, EntryKind::Symlink);
    assert_eq!(
        link.link_target.as_deref(),
        Some("../lib/probe-app/bin/probe-app"),
        "a link within /usr must stay relative"
    );
}

#[test]
fn md5sums_cover_regular_files_and_exclude_symlinks() {
    let package = build(&sample_plan(), &Options::default());
    assert!(package.md5sums.contains_key("usr/lib/probe-app/app/app.js"));
    assert!(
        !package.md5sums.contains_key("usr/bin/probe-app"),
        "a symlink has no content to checksum"
    );
    assert!(
        !(0..package.md5sums.len()).any(|i| package.md5sums.at(i).0.starts_with('/')),
        "md5sums paths carry no leading separator"
    );
}

#[test]
fn md5sums_are_the_real_digests_of_the_content() {
    let content = b"console.log(1)\n";
    let expected = md5_hex(content);
    let package = build(&sample_plan(), &Options::default());
    assert_eq!(package.md5sums.get("usr/lib/probe-app/app/app.js").expect("a digest"), expected);
}

#[test]
fn configuration_files_are_declared_and_nothing_else_is() {
    let package = build(&sample_plan(), &Options::default());
    assert_eq!(package.conffiles, vec!["/etc/probe-app/config.json"]);
}

#[test]
fn a_package_with_no_configuration_has_no_conffiles_member() {
    let plan = plan_with_files(
        vec![PlannedFile::inline(
            dest("/usr/lib/probe-app/app.js"),
            b"x\n".to_vec(),
            PlannedFile::MODE_REGULAR,
        )],
        "a probe",
    );
    assert!(build(&plan, &Options::default()).conffiles.is_empty());
}

#[test]
fn policy_required_documentation_is_shipped_and_accounted_for() {
    let package = build(&sample_plan(), &Options::default());
    assert!(
        package
            .data
            .contains_key("usr/share/doc/probe-app/copyright"),
        "a missing copyright file is a lintian error"
    );
    assert!(
        package
            .data
            .contains_key("usr/share/doc/probe-app/changelog.gz"),
        "a missing changelog is a lintian error"
    );
    assert!(
        package
            .md5sums
            .contains_key("usr/share/doc/probe-app/copyright"),
        "documentation must be checksummed like any other file"
    );
}

#[test]
fn installed_size_is_reported_and_grows_with_the_payload() {
    let small = build(&sample_plan(), &Options::default());
    let small_size: u64 = small.control.get("Installed-Size").expect("the field").parse().expect("a number");
    assert!(small_size > 0);

    let big = plan_with_files(
        vec![PlannedFile::inline(
            dest("/usr/lib/probe-app/big.bin"),
            vec![0u8; 512 * 1024],
            PlannedFile::MODE_REGULAR,
        )],
        "a probe",
    );
    let big_size: u64 = build(&big, &Options::default()).control.get("Installed-Size").expect("the field")
        .parse()
        .expect("a number");
    assert!(
        big_size > small_size + 400,
        "half a megabyte should move the figure: {small_size} -> {big_size}"
    );
}

#[test]
fn maintainer_scripts_land_in_the_control_member() {
    let options = Options {
        maintainer_scripts: vec![
            script("postinst", b"#!/bin/sh\nexit 0\n"),
            script("prerm", b"#!/bin/sh\nexit 0\n"),
        ],
        ..Options::default()
    };
    assert_eq!(
        build(&sample_plan(), &options).scripts,
        vec!["postinst", "prerm"]
    );
}

#[test]
fn deb_roundtrip_two_builds_of_one_plan_are_byte_identical() {
    let plan = sample_plan();
    let first = build_bytes(&plan, &Options::default(), &Sources::new()).expect("should build");
    let second = build_bytes(&plan, &Options::default(), &Sources::new()).expect("should build");
    assert_eq!(
        first, second,
        "two builds of one plan differ"
    );
}

#[test]
fn deb_roundtrip_a_different_timestamp_produces_different_bytes() {
    let plan = sample_plan();
    let mut other = sample_plan();
    other.timestamp = Timestamp::from_secs(TIMESTAMP + 1);

    let a = build_bytes(&plan, &Options::default(), &Sources::new()).expect("build");
    let b = build_bytes(&other, &Options::default(), &Sources::new()).expect("build");
    assert_ne!(a, b, "the timestamp must actually reach the archive");
}

#[test]
fn no_timestamp_anywhere_reflects_the_build_time() {
    let bytes = build_bytes(&sample_plan(), &Options::default(), &Sources::new()).expect("should build");
    let package = read::parse(&bytes).expect("should parse");
    for (path, entry) in entries(&package.data) {
        assert_eq!(entry.mtime, TIMESTAMP, "`{path}` carries a wall-clock time");
    }
    for (name, _, _, _, mtime) in ar_members(&bytes) {
        assert_eq!(
            mtime, TIMESTAMP,
            "ar member `{name}` carries a wall-clock time"
        );
    }
}

#[test]
fn ar_member_headers_match_what_dpkg_deb_writes() {
    let bytes = build_bytes(&sample_plan(), &Options::default(), &Sources::new()).expect("should build");
    let members = ar_members(&bytes);
    assert_eq!(members.len(), 3);
    for (name, mode, uid, gid, _) in members {
        assert_eq!(
            mode, 0o100_644,
            "`{name}` mode must carry the file-type bits"
        );
        assert_eq!(uid, 0, "`{name}` uid");
        assert_eq!(gid, 0, "`{name}` gid");
    }
}

#[test]
fn a_path_longer_than_the_tar_name_field_round_trips() {
    let deep = format!(
        "/usr/lib/probe-app/app/node_modules/{}/index.js",
        ["nested-package-name"; 8].join("/node_modules/")
    );
    assert!(
        deep.len() > 100,
        "fixture must exceed the limit to test it: {}",
        deep.len()
    );

    let plan = plan_with_files(
        vec![PlannedFile::inline(
            dest(&deep),
            b"module.exports = 1\n".to_vec(),
            PlannedFile::MODE_REGULAR,
        )],
        "a probe",
    );
    let package = build(&plan, &Options::default());
    let expected = deep.trim_start_matches('/');
    assert!(
        package.data.contains_key(expected),
        "long path truncated or lost; got {:?}",
        package.data_order
    );
    assert!(package.md5sums.contains_key(expected));
}

fn md5_hex(content: &[u8]) -> String {
    Md5::digest(content)
        .iter()
        .map(|b| format!("{b:02x}"))
        .collect()
}

fn ar_members(bytes: &[u8]) -> Vec<(String, u32, u32, u32, u64)> {
    let mut out = Vec::new();
    let mut offset = 8; // past "!<arch>\n"
    while offset + 60 <= bytes.len() {
        let header = &bytes[offset..offset + 60];
        let field = |range: std::ops::Range<usize>| {
            String::from_utf8_lossy(&header[range]).trim().to_owned()
        };
        let name = field(0..16);
        let mtime: u64 = field(16..28).parse().unwrap_or(u64::MAX);
        let uid: u32 = field(28..34).parse().unwrap_or(u32::MAX);
        let gid: u32 = field(34..40).parse().unwrap_or(u32::MAX);
        let mode = u32::from_str_radix(&field(40..48), 8).unwrap_or(0);
        let size: usize = field(48..58).parse().unwrap_or(0);
        out.push((name, mode, uid, gid, mtime));
        offset += 60 + size + (size % 2);
    }
    out
}

#[test]
fn triggers_are_a_control_member_only_when_supplied() {
    let plan = sample_plan();

    let without = build_bytes(&plan, &Options::default(), &Sources::new()).expect("builds");
    let package = read::parse(&without).expect("readable");
    assert!(
        !package.scripts.iter().any(|s| s == "triggers"),
        "no triggers were supplied, yet a triggers member exists: {:?}",
        package.scripts
    );

    let options = Options {
        triggers: Some(b"interest-noawait /usr/lib/probe-app\n".to_vec()),
        ..Options::default()
    };
    let with = build_bytes(&plan, &options, &Sources::new()).expect("builds");
    let package = read::parse(&with).expect("readable");
    assert_eq!(
        package.script_bodies.get("triggers"),
        Some("interest-noawait /usr/lib/probe-app\n"),
        "the triggers member must carry the supplied bytes verbatim"
    );
}

#[test]
fn a_source_that_changed_since_planning_is_refused() {
    let plan = plan_with_files(
        vec![PlannedFile::from_source(
            dest("/usr/lib/probe-app/app.js"),
            "/project/app.js".to_owned(),
            b"original\n".len() as u64,
            false,
        )],
        "a probe",
    );
    let grown = source("/project/app.js", b"original, but longer now\n");
    let result = build_bytes(&plan, &Options::default(), &grown);

    let err = result.expect_err("a changed source must be detected");
    assert!(err.text().contains("app.js"), "{err:?}");
}

#[test]
fn a_stream_that_yields_a_different_length_than_declared_is_refused() {
    let plan = plan_with_files(
        vec![PlannedFile::from_source(
            dest("/usr/lib/probe-app/captured"),
            "/proc/self/status".to_owned(),
            0,
            false,
        )],
        "a probe",
    );
    let read = source("/proc/self/status", b"Name:\tprobe\n");
    let err = build_bytes(&plan, &Options::default(), &read)
        .expect_err("a stream longer than its declared size must be refused");
    assert!(
        err.text().contains("bytes"),
        "the error should report the length mismatch: {err:?}"
    );
}

#[test]
fn file_contents_are_streamed_from_their_sources() {
    let content = vec![7u8; 4096];
    let plan = plan_with_files(
        vec![PlannedFile::from_source(
            dest("/usr/lib/probe-app/payload.bin"),
            "/project/payload.bin".to_owned(),
            content.len() as u64,
            false,
        )],
        "a probe",
    );
    let read = source("/project/payload.bin", &content);
    let bytes = build_bytes(&plan, &Options::default(), &read).expect("should build");
    let package = read::parse(&bytes).expect("should parse back");

    assert_eq!(
        at(&package.data, "usr/lib/probe-app/payload.bin").size,
        content.len() as u64
    );
    let expected = md5_hex(&content);
    assert_eq!(
        package.md5sums.get("usr/lib/probe-app/payload.bin"),
        Some(expected.as_str())
    );
}

#[test]
fn a_source_that_was_not_read_is_refused() {
    let plan = plan_with_files(
        vec![PlannedFile::from_source(
            dest("/usr/lib/probe-app/app.js"),
            "/project/app.js".to_owned(),
            3,
            false,
        )],
        "a probe",
    );
    let unread = Sources::new().with("/project/app.js".to_owned(), Err("denied".to_owned()));
    let err = build_bytes(&plan, &Options::default(), &unread).expect_err("nothing was read");
    assert_eq!(err.text(), "i/o error at `/project/app.js`");
    assert_eq!(err.cause(), Some("denied"));
}

#[test]
fn every_payload_byte_reads_back() {
    let package = build(&sample_plan(), &Options::default());
    assert_eq!(
        at(&package.data, "usr/lib/probe-app/app/app.js").content.as_deref(),
        Some(&b"console.log(1)\n"[..])
    );
    assert_eq!(package.data_text("etc/probe-app/config.json"), "{}\n");
    assert_eq!(package.control_text.lines().next(), Some("Package: probe-app"));
}

#[test]
fn a_truncated_package_is_refused() {
    let bytes = build_bytes(&sample_plan(), &Options::default(), &Sources::new()).expect("build");
    assert!(read::parse(&bytes[..bytes.len() / 2]).is_err());
    assert!(read::parse(b"not an archive").is_err());
}

/// An `ar` member: its name field, the bytes its size counts, and a padding byte where needed.
fn raw_member(name: &str, content: &[u8]) -> Vec<u8> {
    let size = content.len();
    let mut bytes = format!("{name:<16}{:<12}{:<6}{:<6}{:<8}{size:<10}`\n", 0, 0, 0, "100644")
        .into_bytes();
    bytes.extend_from_slice(content);
    if size % 2 == 1 {
        bytes.push(b'\n');
    }
    bytes
}

/// Whether the first few steps through a container are all taken without a panic.
fn is_readable_container(bytes: &[u8]) -> bool {
    (0..4).all(|step| is_step_readable(bytes, step))
}

fn container(members: &[Vec<u8>]) -> Vec<u8> {
    let mut bytes = b"!<arch>\n".to_vec();
    for member in members {
        bytes.extend_from_slice(member);
    }
    bytes
}

#[test]
fn a_built_package_is_a_readable_container() {
    let bytes = build_bytes(&sample_plan(), &Options::default(), &Sources::new()).expect("build");
    assert!(is_readable_container(&bytes));
}

#[test]
fn names_from_a_name_table_are_read() {
    let bytes = container(&[
        raw_member("//", b"a-name-that-is-too-long-for-its-header/\n"),
        raw_member("/0", b"odd"),
        raw_member("short/", b"even"),
    ]);
    assert!(is_readable_container(&bytes));
    let package = read::parse(&bytes).expect("no member needs reading");
    assert_eq!(
        package.members,
        ["a-name-that-is-too-long-for-its-header", "short"]
    );
}

#[test]
fn a_name_past_its_name_table_is_a_member_that_cannot_be_read() {
    let bytes = container(&[raw_member("//", b"name/\n"), raw_member("/7", b"x")]);
    assert!(!is_step_readable(&bytes, 0));
    assert!(!is_readable_container(&container(&[raw_member("/1", b"")])));
    let error = read::parse(&bytes).expect_err("must be refused");
    assert!(error.text().contains("could not read an ar member"), "{}", error.text());
    let at_the_end = container(&[raw_member("//", b"name/\n"), raw_member("/6", b"x")]);
    assert!(is_readable_container(&at_the_end));
    assert_eq!(read::parse(&at_the_end).expect("an empty name").members, [""]);
}

#[test]
fn names_in_front_of_the_content_are_read() {
    let bytes = container(&[raw_member("#1/20", b"a-name-of-nineteen-\0x"), raw_member("/9", b"")]);
    assert!(is_readable_container(&bytes));
    let package = read::parse(&bytes).expect("no member needs reading");
    assert_eq!(package.members, ["a-name-of-nineteen-", "/9"]);
}

#[test]
fn a_header_that_is_no_header_is_refused() {
    let mut bytes = container(&[raw_member("debian-binary", b"2.0\n"), raw_member("/1", b"")]);
    bytes[8 + 48] = b'x';
    for broken in [bytes, b"not an archive at all".to_vec(), b"!<arch".to_vec()] {
        assert!(is_readable_container(&broken));
        let error = read::parse(&broken).expect_err("must be refused");
        assert!(
            error.text().contains("could not read an ar member"),
            "{}",
            error.text()
        );
    }
    let mut padded = container(&[raw_member("a", b"x"), raw_member("/1", b"")]);
    padded[8 + 60 + 1] = b'?';
    assert!(is_readable_container(&padded));
    assert!(read::parse(&padded).is_err());
}

#[test]
fn a_member_with_an_unknown_suffix_is_refused() {
    let error = read::parse(&container(&[raw_member("data.tar.lz4", b"")]))
        .expect_err("must be refused");
    assert!(
        error.text().contains("unrecognised archive member suffix `.lz4`"),
        "{}",
        error.text()
    );
}

#[test]
fn documentation_holds_the_changelog_it_is_given() {
    let files = docs::entries_with(&sample_plan(), b"packed".to_vec()).expect("plain paths");
    let paths: Vec<&str> = files.iter().map(|f| f.destination.as_str()).collect();
    assert_eq!(
        paths,
        [
            "/usr/share/doc/probe-app/copyright",
            "/usr/share/doc/probe-app/changelog.gz"
        ]
    );
    assert!(matches!(&files[1].content, FileContent::Inline(bytes) if bytes == b"packed"));
    assert!(
        matches!(&files[0].content, FileContent::Inline(bytes)
            if String::from_utf8_lossy(bytes).contains("License: MIT\n"))
    );
}

#[test]
fn a_member_is_read_into_what_was_read_before() {
    let before = read::Package::default();
    let after = read::read_member(before, "debian-binary".to_owned(), b"2.0\n".to_vec())
        .expect("nothing to read");
    assert_eq!(after.members, ["debian-binary"]);
    let error = read::read_member(after, "data.tar.xz".to_owned(), b"not xz".to_vec())
        .expect_err("must be refused");
    assert!(error.text().contains("xz decompression failed"), "{}", error.text());
}

/// A header of a kind and a size, with an extension flag and a real size for a sparse member.
fn raw_header(kind: tar::EntryType, size: u64, extended: bool, real: u64) -> Vec<u8> {
    let mut header = tar::Header::new_gnu();
    header.set_entry_type(kind);
    header.set_size(size);
    if let Some(gnu) = header.as_gnu_mut() {
        gnu.set_is_extended(extended);
        gnu.set_real_size(real);
    }
    header.set_cksum();
    header.as_bytes().to_vec()
}

fn blocks(parts: &[Vec<u8>]) -> Vec<u8> {
    let mut bytes = Vec::new();
    for part in parts {
        bytes.extend_from_slice(part);
        bytes.resize(bytes.len().div_ceil(512) * 512, 0);
    }
    bytes
}

#[test]
fn a_sparse_member_past_all_bounds_is_refused() {
    let sparse = tar::EntryType::GNUSparse;
    let zeros = vec![0u8; 512];
    let records = b"29 size=18446744073709549568\n".to_vec();
    let overlong = [
        blocks(&[raw_header(sparse, u64::MAX - 1023, true, 0), zeros.clone()]),
        blocks(&[raw_header(sparse, 0, false, u64::MAX), zeros.clone()]),
        blocks(&[
            raw_header(tar::EntryType::XHeader, records.len() as u64, false, 0),
            records,
            raw_header(sparse, 0, true, 0),
            zeros.clone(),
        ]),
    ];
    for image in overlong {
        assert!(!is_member_readable(&image, 0));
        let error = read::read_data_tar(&image, read::Package::default())
            .expect_err("must be refused");
        assert!(error.text().contains("could not read a data entry"), "{}", error.text());
        let error = read::read_control_tar(&image, read::Package::default())
            .expect_err("must be refused");
        assert!(error.text().contains("could not read a control entry"), "{}", error.text());
        assert!(error.cause().is_some());
    }
}

#[test]
fn sparse_members_and_extended_headers_within_bounds_are_readable() {
    let sparse = tar::EntryType::GNUSparse;
    let zeros = vec![0u8; 512];
    let record = b"13 path=long\n".to_vec();
    for image in [
        Vec::new(),
        b"not a tarball".to_vec(),
        blocks(&[raw_header(sparse, 0, true, 0), zeros.clone()]),
        blocks(&[raw_header(sparse, 0, false, 4096), zeros.clone()]),
        blocks(&[
            raw_header(tar::EntryType::XHeader, record.len() as u64, false, 0),
            record,
            raw_header(tar::EntryType::Regular, 0, false, 0),
            zeros.clone(),
        ]),
    ] {
        assert!((0..4).all(|index| is_member_readable(&image, index)));
    }
    let built = build_bytes(&sample_plan(), &Options::default(), &Sources::new()).expect("build");
    assert!(read::parse(&built).is_ok());
}

#[test]
fn what_a_file_holds_is_not_taken_for_a_header() {
    let inner = raw_header(tar::EntryType::GNUSparse, u64::MAX - 1023, true, 0);
    let plan = plan_with_files(
        vec![PlannedFile::inline(
            dest("/usr/lib/probe-app/inner.tar"),
            inner.clone(),
            PlannedFile::MODE_REGULAR,
        )],
        "a probe",
    );
    let package = build(&plan, &Options::default());
    let entry = at(&package.data, "usr/lib/probe-app/inner.tar");
    assert_eq!(entry.content.as_deref(), Some(&inner[..]));
}

#[test]
fn every_compressor_gives_back_what_it_took() {
    for compression in [
        Compression::Gzip,
        Compression::Xz,
        Compression::Zstd,
        Compression::Stored,
    ] {
        let image = b"some bytes, some bytes".to_vec();
        let packed = compression.compress(&image).expect("compresses");
        assert_eq!(packed, compression.compress(&image).expect("again"));
        assert_eq!(packed == image, compression == Compression::Stored);
        assert_eq!(compression.decompress(&packed).expect("decompresses"), image);
    }
}

#[test]
fn what_is_wrong_first_is_told_first() {
    let named = |path: &str, content: &[u8]| {
        let mut header = tar::Header::new_gnu();
        header.set_path(path).expect("a short path");
        header.set_size(content.len() as u64);
        header.set_cksum();
        blocks(&[header.as_bytes().to_vec(), content.to_vec()])
    };
    let past = raw_header(tar::EntryType::GNUSparse, u64::MAX - 2047, true, 0);
    let zeros = vec![0u8; 512];
    let image = blocks(&[named("./conffiles", b"\xff\xfe"), past.clone(), zeros.clone()]);
    assert!(is_member_readable(&image, 0));
    assert!(!is_member_readable(&image, 1));
    let error = read::read_control_tar(&image, read::Package::default())
        .expect_err("must be refused");
    assert!(
        error.text().contains("could not read control entry `conffiles`"),
        "{}",
        error.text()
    );

    let image = blocks(&[named("./conffiles", b"/etc/app\n"), past, zeros]);
    assert!(is_member_readable(&image, 0));
    assert!(!is_member_readable(&image, 1));
    let error = read::read_control_tar(&image, read::Package::default())
        .expect_err("must be refused");
    assert!(error.text().contains("could not read a control entry"), "{}", error.text());

    let bytes = container(&[raw_member("data.tar.lz4", b""), raw_member("/1", b"")]);
    assert!(is_step_readable(&bytes, 0));
    assert!(!is_step_readable(&bytes, 1));
    let error = read::parse(&bytes).expect_err("must be refused");
    assert!(
        error.text().contains("unrecognised archive member suffix `.lz4`"),
        "{}",
        error.text()
    );
}

#[test]
fn a_sparse_member_without_holes_is_read_as_far_as_it_goes() {
    let mut header = tar::Header::new_gnu();
    header.set_entry_type(tar::EntryType::GNUSparse);
    header.set_path("./short").expect("a short path");
    header.set_size(1 << 63);
    if let Some(gnu) = header.as_gnu_mut() {
        gnu.set_real_size(1 << 63);
        gnu.sparse[0].set_offset(0);
        gnu.sparse[0].set_length(1 << 63);
    }
    header.set_cksum();
    let image = blocks(&[header.as_bytes().to_vec(), b"some".to_vec()]);
    assert!(is_member_readable(&image, 0));
    let error = read::read_data_tar(&image, read::Package::default())
        .expect_err("the data ends early");
    assert!(error.text().contains("could not read a data entry"), "{}", error.text());
}
