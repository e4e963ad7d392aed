use std::collections::BTreeMap;
use std::io::Read as _;

use nativepkg::arch::{assemble, build_bytes, payload, file_name, file_name_from, mtree, pkginfo, Error, Options};
use nativepkg::architecture::Architecture;
use nativepkg::destination::Destination;
use nativepkg::packing::{SourceFile, Sources};
use nativepkg::plan::{
    BuildPlan, Description, EntryKind, FileContent, Identity, PlanMetadata, PlannedFile,
};
use nativepkg::timestamp::Timestamp;
use sha2::{Digest, Sha256};

const TIMESTAMP: u64 = 1_700_000_000;

fn dest(path: &str) -> Destination {
    Destination::new(path).expect("fixture path should normalise")
}

fn identity(arch: Architecture) -> Identity {
    Identity {
        package_name: "probe-app".into(),
        version_deb: "1.2.3".into(),
        version_rpm: "1.2.3".into(),
        release_rpm: "1".into(),
        epoch: None,
        description: Description::split("a probe\n\nwith a body").expect("splits"),
        maintainer: "A <a@example.com>".into(),
        architecture: arch,
        dependencies: Some("nodejs, redis-server".into()),
        homepage: Some("https://example.com".into()),
        license: Some("MIT".into()),
    }
}

fn plan_with(files: Vec<PlannedFile>, arch: Architecture) -> BuildPlan {
    BuildPlan::new(
        identity(arch),
        files,
        Timestamp::from_secs(TIMESTAMP),
        PlanMetadata {
            generator: "nativepkg".into(),
            generator_version: "0.1.0".into(),
        },
    )
    .expect("fixture plan should assemble")
}

fn sample_plan() -> BuildPlan {
    let target = dest("/usr/lib/probe-app/bin/probe-app");
    plan_with(
        vec![
            PlannedFile::inline(
                dest("/usr/lib/probe-app/app/app.js"),
                b"console.log(1)\n".to_vec(),
                PlannedFile::MODE_REGULAR,
            ),
            PlannedFile::inline(
                target.clone(),
                b"#!/bin/sh\nexec node app.js\n".to_vec(),
                PlannedFile::MODE_EXECUTABLE,
            ),
            PlannedFile::inline(
                dest("/etc/probe-app/config.json"),
                b"{}\n".to_vec(),
                PlannedFile::MODE_REGULAR,
            )
            .as_config(),
            PlannedFile::symlink(dest("/usr/bin/probe-app"), &target),
            PlannedFile::directory(dest("/var/log/probe-app")),
        ],
        Architecture::Any,
    )
}

fn listing(bytes: &[u8]) -> BTreeMap<String, (char, Option<String>)> {
    let tar = decompress(bytes);
    let mut archive = tar::Archive::new(&tar[..]);
    let mut found = BTreeMap::new();
    for entry in archive.entries().expect("entries") {
        let entry = entry.expect("an entry");
        let name = entry.path().expect("a path").to_string_lossy().into_owned();
        let kind = match entry.header().entry_type() {
            tar::EntryType::Symlink => 'l',
            tar::EntryType::Directory => 'd',
            _ => '-',
        };
        let link = entry
            .link_name()
            .expect("a link name")
            .map(|target| target.to_string_lossy().into_owned());
        found.insert(
            name.trim_end_matches('/').trim_start_matches("./").to_owned(),
            (kind, link),
        );
    }
    found
}

fn names(bytes: &[u8]) -> Vec<String> {
    let tar = decompress(bytes);
    let mut archive = tar::Archive::new(&tar[..]);
    archive
        .entries()
        .expect("entries")
        .map(|entry| {
            let entry = entry.expect("an entry");
            entry.path().expect("a path").to_string_lossy().into_owned()
        })
        .collect()
}

fn member(bytes: &[u8], name: &str) -> Vec<u8> {
    let tar = decompress(bytes);
    let mut archive = tar::Archive::new(&tar[..]);
    for entry in archive.entries().expect("entries") {
        let mut entry = entry.expect("an entry");
        if entry.path().expect("a path").to_string_lossy() == name {
            let mut out = Vec::new();
            entry.read_to_end(&mut out).expect("readable");
            return out;
        }
    }
    panic!("member `{name}` not found");
}

fn decompress(bytes: &[u8]) -> Vec<u8> {
    zstd::decode_all(bytes).expect("a readable zstd stream")
}

fn hex(bytes: &[u8]) -> String {
    bytes.iter().map(|b| format!("{b:02x}")).collect()
}

fn pkginfo_of(bytes: &[u8]) -> String {
    String::from_utf8_lossy(&member(bytes, ".PKGINFO")).into_owned()
}

fn mtree_of(bytes: &[u8]) -> String {
    let gz = member(bytes, ".MTREE");
    let mut out = String::new();
    flate2::read::GzDecoder::new(&gz[..])
        .read_to_string(&mut out)
        .expect("the manifest should be gzipped");
    out
}

fn build(plan: &BuildPlan) -> Vec<u8> {
    build_bytes(plan, &Options::default(), &Sources::new()).expect("should build")
}

#[test]
fn the_fixture_exercises_every_entry_kind() {
    let plan = sample_plan();
    assert!(plan.files.iter().filter(|f| f.is_regular()).count() >= 3);
    assert!(plan.files.iter().any(PlannedFile::is_symlink));
    assert!(!plan.config_files().is_empty());
}

#[test]
fn a_package_is_produced_without_makepkg() {
    assert!(!build(&sample_plan()).is_empty());
}

#[test]
fn metadata_members_come_before_the_payload() {
    let names = names(&build(&sample_plan()));

    assert_eq!(names[0], ".MTREE", "{names:?}");
    assert_eq!(names[1], ".PKGINFO", "{names:?}");
    assert!(
        names[2..].iter().all(|n| !n.starts_with('.')),
        "metadata must precede the payload: {names:?}"
    );
}

#[test]
fn package_information_carries_the_required_fields() {
    let info = pkginfo_of(&build(&sample_plan()));
    for key in [
        "pkgname",
        "pkgbase",
        "xdata",
        "pkgver",
        "pkgdesc",
        "builddate",
        "packager",
        "size",
        "arch",
        "license",
    ] {
        assert!(
            !pkginfo::values(&info, key).is_empty(),
            "missing `{key}` in:\n{info}"
        );
    }
    assert_eq!(pkginfo::values(&info, "pkgname"), vec!["probe-app"]);
    assert_eq!(pkginfo::values(&info, "arch"), vec!["any"]);
    assert_eq!(pkginfo::values(&info, "license"), vec!["MIT"]);
    assert_eq!(
        pkginfo::values(&info, "builddate"),
        vec![TIMESTAMP.to_string()]
    );
}

#[test]
fn pkgver_joins_version_and_release() {
    let info = pkginfo_of(&build(&sample_plan()));
    assert_eq!(pkginfo::values(&info, "pkgver"), vec!["1.2.3-1"]);
    assert_eq!(pkginfo::pkgver("1.2.3", "1", Some(2)), "2:1.2.3-1");
}

#[test]
fn size_is_a_byte_count_not_kibibytes() {
    let plan = plan_with(
        vec![PlannedFile::inline(
            dest("/usr/lib/probe-app/big.bin"),
            vec![0_u8; 5000],
            PlannedFile::MODE_REGULAR,
        )],
        Architecture::Any,
    );
    let info = pkginfo_of(&build(&plan));
    assert_eq!(
        pkginfo::values(&info, "size"),
        vec!["5000"],
        "the field is a byte count"
    );
    assert_ne!(
        pkginfo::values(&info, "size"),
        vec![plan.installed_size_kib().to_string()],
        "reusing the Debian kibibyte figure would be wrong"
    );
}

#[test]
fn dependencies_and_backup_paths_are_declared() {
    let info = pkginfo_of(&build(&sample_plan()));
    assert_eq!(
        pkginfo::values(&info, "depend"),
        vec!["nodejs", "redis-server"]
    );
    assert_eq!(
        pkginfo::values(&info, "backup"),
        vec!["etc/probe-app/config.json"],
        "a backup path is recorded without the leading separator"
    );
}

#[test]
fn architecture_uses_the_arch_spelling() {
    for (arch, expected) in [
        (Architecture::Any, "any"),
        (Architecture::Amd64, "x86_64"),
        (Architecture::Arm64, "aarch64"),
    ] {
        let plan = plan_with(
            vec![PlannedFile::inline(
                dest("/usr/lib/probe-app/app.js"),
                b"x\n".to_vec(),
                PlannedFile::MODE_REGULAR,
            )],
            arch,
        );
        assert_eq!(
            pkginfo::values(&pkginfo_of(&build(&plan)), "arch"),
            vec![expected],
            "{arch:?}"
        );
    }
}

#[test]
fn the_symlink_is_a_symlink_at_the_archive_level() {
    let entries = listing(&build(&sample_plan()));
    let (kind, link) = entries
        .get("usr/bin/probe-app")
        .expect("the link should be present");
    assert_eq!(
        *kind, 'l',
        "system tar must see a symlink, not a regular file"
    );
    assert_eq!(link.as_deref(), Some("../lib/probe-app/bin/probe-app"));
}

#[test]
fn an_explicit_directory_is_a_directory_at_the_archive_level() {
    let entries = listing(&build(&sample_plan()));
    let (kind, _) = entries
        .get("var/log/probe-app")
        .expect("the directory should be present");
    assert_eq!(*kind, 'd');
}

#[test]
fn the_manifest_agrees_with_the_payload_in_both_directions() {
    let bytes = build(&sample_plan());
    let manifest = mtree::parse(&mtree_of(&bytes));
    let payload: BTreeMap<String, (char, Option<String>)> = listing(&bytes)
        .into_iter()
        .filter(|(name, _)| name != ".MTREE")
        .collect();

    for name in payload.keys() {
        assert!(
            manifest.contains_key(&format!("./{name}")),
            "`{name}` is in the payload but not the manifest"
        );
    }
    for i in 0..manifest.len() {
        let path = manifest.key_at(i);
        let name = path.trim_start_matches("./");
        assert!(
            payload.contains_key(name),
            "`{path}` is in the manifest but not the payload"
        );
    }
}

#[test]
fn the_manifest_does_not_list_itself() {
    let manifest = mtree::parse(&mtree_of(&build(&sample_plan())));
    assert!(!manifest.contains_key("./.MTREE"), "{manifest:?}");
}

#[test]
fn the_manifest_lists_the_package_information_member() {
    let manifest = mtree::parse(&mtree_of(&build(&sample_plan())));
    let entry = manifest
        .get("./.PKGINFO")
        .expect("`.PKGINFO` must be described by the manifest");
    assert_eq!(
        entry.get("type"),
        Some("file"),
        "{entry:?}"
    );
    assert!(
        entry.contains_key("sha256digest"),
        "the manifest entry must carry a digest: {entry:?}"
    );
}

#[test]
fn the_manifest_lists_the_install_scriptlet_when_there_is_one() {
    let options = Options {
        install_scriptlet: Some(b"post_install() {\n  :\n}\n".to_vec()),
        ..Options::default()
    };
    let bytes = build_bytes(&sample_plan(), &options, &Sources::new()).expect("build succeeds");

    let manifest = mtree::parse(&mtree_of(&bytes));
    let entry = manifest
        .get("./.INSTALL")
        .expect("`.INSTALL` must be described by the manifest");
    assert!(entry.contains_key("sha256digest"), "{entry:?}");
    assert!(
        listing(&bytes).contains_key(".INSTALL"),
        "and it must actually be in the archive"
    );
}

#[test]
fn manifest_digests_are_the_real_sha256_of_the_content() {
    let manifest = mtree::parse(&mtree_of(&build(&sample_plan())));
    let entry = manifest
        .get("./usr/lib/probe-app/app/app.js")
        .expect("entry present");
    let expected = hex(&Sha256::digest(b"console.log(1)\n"));
    assert_eq!(
        entry.get("sha256digest"),
        Some(expected.as_str())
    );
}

#[test]
fn roundtrip_two_builds_of_one_plan_are_byte_identical() {
    let plan = sample_plan();
    assert_eq!(build(&plan), build(&plan));
}

#[test]
fn roundtrip_a_different_timestamp_produces_different_bytes() {
    let plan = sample_plan();
    let mut other = sample_plan();
    other.timestamp = Timestamp::from_secs(TIMESTAMP + 1000);
    assert_ne!(build(&plan), build(&other));
}

#[test]
fn the_install_scriptlet_is_emitted_only_when_supplied() {
    let without = listing(&build(&sample_plan()));
    assert!(!without.contains_key(".INSTALL"), "{without:?}");

    let options = Options {
        install_scriptlet: Some(b"post_install() { :; }\n".to_vec()),
        ..Options::default()
    };
    let bytes = build_bytes(&sample_plan(), &options, &Sources::new()).expect("should build");
    assert!(listing(&bytes).contains_key(".INSTALL"));
    assert!(String::from_utf8_lossy(&member(&bytes, ".INSTALL")).contains("post_install"));
}


#[test]
fn a_preset_service_ships_its_enabling_policy() {
    let options = Options {
        preset_service: Some("probe-app".to_owned()),
        ..Options::default()
    };
    let bytes = build_bytes(&sample_plan(), &options, &Sources::new()).expect("build succeeds");
    let policy = "usr/lib/systemd/system-preset/50-probe-app.preset";
    assert_eq!(
        member(&bytes, policy),
        b"enable probe-app.service\n",
        "the policy must enable exactly this unit"
    );
    let manifest = mtree::parse(&mtree_of(&bytes));
    assert!(
        manifest.contains_key(&format!("./{policy}")),
        "the manifest must list the policy"
    );

    let plain = build_bytes(&sample_plan(), &Options::default(), &Sources::new()).expect("build");
    assert!(
        !listing(&plain).keys().any(|k| k.contains("system-preset")),
        "no policy is shipped when nothing is preset"
    );
}

#[test]
fn the_digest_is_of_the_bytes_written() {
    let file = || PlannedFile {
        destination: dest("/usr/lib/app/payload.js"),
        kind: EntryKind::Regular,
        mode: 0o644,
        content: FileContent::FromPath { path: "/project/payload.js".to_owned(), len: 4 },
        is_config: false,
    };
    let read = |bytes: &[u8]| {
        Sources::new().with(
            "/project/payload.js".to_owned(),
            Ok(SourceFile { bytes: bytes.to_vec(), modified: TIMESTAMP }),
        )
    };
    let plan = plan_with(vec![file()], Architecture::Any);
    for content in [b"AAAA", b"BBBB"] {
        let bytes = build_bytes(&plan, &Options::default(), &read(content)).expect("streams");
        let manifest = mtree::parse(&mtree_of(&bytes));
        let entry = manifest.get("./usr/lib/app/payload.js").expect("listed");
        let expected = hex(&Sha256::digest(content));
        assert_eq!(entry.get("sha256digest"), Some(expected.as_str()));
    }

    let error = build_bytes(&plan, &Options::default(), &read(b"BBBBB")).expect_err("size changed");
    assert!(matches!(error, Error::SourceChanged { .. }), "{error:?}");
}

#[test]
fn the_file_name_carries_version_release_and_architecture() {
    assert_eq!(file_name(&sample_plan()), "probe-app-1.2.3-1-any.pkg.tar.zst");
    assert_eq!(file_name_from("custom", &sample_plan()), "custom-1.2.3-1-any.pkg.tar.zst");
}

#[test]
fn the_manifest_records_modes_and_link_targets() {
    let manifest = mtree::parse(&mtree_of(&build(&sample_plan())));
    let link = manifest.get("./usr/bin/probe-app").expect("listed");
    assert_eq!(link.get("type"), Some("link"));
    assert_eq!(link.get("link"), Some("../lib/probe-app/bin/probe-app"));
    let program = manifest.get("./usr/lib/probe-app/bin/probe-app").expect("listed");
    assert_eq!(program.get("mode"), Some("755"));
    assert_eq!(program.get("size"), Some("27"));
}

#[test]
fn the_given_manifest_is_the_first_member() {
    let plan = sample_plan();
    let (written, digests) = payload(&plan, &Sources::new()).expect("the payload is inline");
    assert_eq!(
        digests.get("usr/lib/probe-app/app/app.js"),
        Some(hex(&Sha256::digest(b"console.log(1)\n")).as_str())
    );
    let image = assemble(&plan, &Options::default(), &b"manifest".to_vec(), &written)
        .expect("assembles");
    let mut archive = tar::Archive::new(&image[..]);
    let mut found = Vec::new();
    for entry in archive.entries().expect("entries") {
        let mut entry = entry.expect("entry");
        let mut content = Vec::new();
        entry.read_to_end(&mut content).expect("read");
        found.push((entry.path().expect("path").to_string_lossy().into_owned(), content));
    }
    assert_eq!(found[0], (".MTREE".to_owned(), b"manifest".to_vec()));
    assert_eq!(found[1].0, ".PKGINFO");
    assert!(found
        .iter()
        .any(|(path, content)| path.ends_with("app/app.js") && content == b"console.log(1)\n"));
}
