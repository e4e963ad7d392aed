//! The Arch Linux backend: a zstd tarball holding `.MTREE`, `.PKGINFO` and the payload,
//! assembled from a plan.
//!
//! `.BUILDINFO` is not emitted: it describes a `makepkg` build environment that does not exist
//! here, and `pacman` does not require it.

pub mod error;
pub mod install;
pub mod mtree;
pub mod pkginfo;
pub mod snippets;

use vstd::prelude::*;
use vstd::string::StrSliceExecFns;
use vstd::utf8::encode_utf8;

use crate::arch::mtree::{
    manifest_lines, record_for, record_of, Record, RecordView,
};
use crate::arch::pkginfo::{info_lines, pkgver, pkgver_of};
use crate::build::{policy_fits, policy_plan, policy_refused, preset_entry, with_preset};
use crate::codec::{
    gunzipped, gzip, gzip_image, sha256, sha256_of, unzstded, zstd, zstd_image, zstd_takes,
};
use crate::destination::{destination_form, one_component};
use crate::digits::{hex, hex_bytes};
use crate::error::opt;
use crate::packing::{bytes_of, settled, Sources};
use crate::payload::{
    append_plain, digests_are_of_the_bytes, directory_member, early_failure, entries_added,
    entries_added_exactly, entry_member, new_member, packaged_bytes, readable_entries_are_faithful,
    readable_entry, regular_member, relative, root_member, symlink_member, MEMBER_PREFIX,
};
use crate::plan::{
    completed_is, completes, copy_bytes, dests, BuildPlan, BuildPlanView, EntryKind, EntryKindView,
    PlannedFile, PlannedFileView,
};
use crate::strings::{ascending, less, less_irreflexive, unlines, views, views_push};
use crate::tarball::{
    faithful, member_path, reads_as, reads_back, tar_content, tar_header, tar_image, tar_members,
    MemberKind, MemberView, TarWriter,
};
use crate::textmap::TextMap;

pub use crate::arch::error::{Error, ErrorView, Result};

verus! {

pub const INSTALL_MEMBER: &'static str = ".INSTALL";

pub const INFO_MEMBER: &'static str = ".PKGINFO";

pub const MANIFEST_MEMBER: &'static str = ".MTREE";

/// Arch's own packages are built at this level.
pub const ZSTD_LEVEL: i32 = 19;

pub const METADATA_MODE: u32 = 0o644;

/// How to write a package.
#[derive(Debug)]
pub struct Options {
    /// The `.INSTALL` script: one file of shell functions, not four, which is Arch's shape.
    pub install_scriptlet: Option<Vec<u8>>,
    /// Service whose unit `post_install` presets, so that the package must ship the preset
    /// policy: Arch's `99-default.preset` says `disable *`, which leaves a unit running until
    /// reboot and disabled after it. Decided with [`install::uses_preset`].
    pub preset_service: Option<String>,
}

pub struct OptionsView {
    pub install_scriptlet: Option<Seq<u8>>,
    pub preset_service: Option<Seq<char>>,
}

impl View for Options {
    type V = OptionsView;

    open spec fn view(&self) -> OptionsView {
        OptionsView {
            install_scriptlet: match self.install_scriptlet {
                Some(bytes) => Some(bytes@),
                None => None,
            },
            preset_service: opt(self.preset_service),
        }
    }
}

impl Default for Options {
    fn default() -> (o: Self)
        ensures
            o@ == (OptionsView { install_scriptlet: None, preset_service: None }),
    {
        Options { install_scriptlet: None, preset_service: None }
    }
}

/// The name of the file a plan's package is written to, given its base.
pub open spec fn named_file(base: Seq<char>, p: BuildPlanView) -> Seq<char> {
    let id = p.identity;
    base + "-"@ + pkgver_of(id.version_rpm, id.release_rpm, id.epoch) + "-"@
        + id.architecture.arch_linux_spelling() + ".pkg.tar.zst"@
}

/// The conventional name of the file a plan's package is written to.
pub open spec fn package_file(p: BuildPlanView) -> Seq<char> {
    named_file(p.identity.package_name, p)
}

/// The file name for a package, with a base of the caller's choice.
pub fn file_name_from(base: &str, plan: &BuildPlan) -> (s: String)
    ensures
        s@ == named_file(base@, plan@),
{
    let identity = &plan.identity;
    let version = pkgver(
        identity.version_rpm.as_str(),
        identity.release_rpm.as_str(),
        identity.epoch,
    );
    let mut s = base.to_owned();
    s.append("-");
    s.append(version.as_str());
    s.append("-");
    s.append(identity.architecture.arch_linux());
    s.append(".pkg.tar.zst");
    s
}

/// The conventional file name for a package.
pub fn file_name(plan: &BuildPlan) -> (s: String)
    ensures
        s@ == package_file(plan@),
{
    file_name_from(plan.identity.package_name.as_str(), plan)
}

// ---- metadata -------------------------------------------------------------------------------

/// The name and version of the generator.
pub open spec fn generator_of(p: BuildPlanView) -> Seq<char> {
    p.metadata.generator + " "@ + p.metadata.generator_version
}

/// The metadata members beside the manifest: their names and bytes.
pub open spec fn metadata_of(p: BuildPlanView, options: OptionsView) -> Seq<(Seq<char>, Seq<u8>)> {
    seq![(INFO_MEMBER@, encode_utf8(unlines(info_lines(p, generator_of(p)))))] + (
    match options.install_scriptlet {
        Some(script) => seq![(INSTALL_MEMBER@, script)],
        None => Seq::empty(),
    })
}

/// The record of a metadata member.
pub open spec fn metadata_record(name: Seq<char>, bytes: Seq<u8>) -> RecordView {
    RecordView {
        path: MEMBER_PREFIX@ + name,
        kind: "file"@,
        mode: METADATA_MODE,
        size: bytes.len() as u64,
        digest: Some(hex_bytes(sha256_of(bytes))),
        link: None,
    }
}

/// The record of an entry, a regular file with the digest of its bytes.
pub open spec fn entry_record(
    file: PlannedFileView,
    digests: Map<Seq<char>, Seq<char>>,
) -> RecordView {
    record_of(
        file,
        match file.kind {
            EntryKindView::Regular => Some(digests[relative(file.destination)]),
            _ => None,
        },
    )
}

/// The manifest records: metadata members, then every entry.
pub open spec fn records_of(
    p: BuildPlanView,
    options: OptionsView,
    digests: Map<Seq<char>, Seq<char>>,
) -> Seq<RecordView> {
    metadata_of(p, options).map_values(|m: (Seq<char>, Seq<u8>)| metadata_record(m.0, m.1))
        + p.files.map_values(|f: PlannedFileView| entry_record(f, digests))
}

/// The manifest.
pub open spec fn manifest_text(
    p: BuildPlanView,
    options: OptionsView,
    digests: Map<Seq<char>, Seq<char>>,
) -> Seq<char> {
    let records = records_of(p, options, digests);
    unlines(manifest_lines(records, p.timestamp, records.len() as int))
}

pub open spec fn metadata_member(name: Seq<char>, bytes: Seq<u8>, mtime: u64) -> MemberView {
    root_member(MEMBER_PREFIX@ + name, MemberKind::Regular, METADATA_MODE, mtime, None, bytes)
}

/// The members of a package, in order: the manifest, the other metadata, the payload.
pub open spec fn members_with(
    p: BuildPlanView,
    options: OptionsView,
    manifest: Seq<u8>,
    payload: Seq<MemberView>,
) -> Seq<MemberView> {
    seq![metadata_member(MANIFEST_MEMBER@, manifest, p.timestamp)] + metadata_of(
        p,
        options,
    ).map_values(|m: (Seq<char>, Seq<u8>)| metadata_member(m.0, m.1, p.timestamp)) + payload
}

/// The members of a package whose manifest is that of its payload, compressed.
pub open spec fn package_members(
    p: BuildPlanView,
    options: OptionsView,
    payload: Seq<MemberView>,
    digests: Map<Seq<char>, Seq<char>>,
) -> Seq<MemberView> {
    members_with(
        p,
        options,
        gzip_image(encode_utf8(manifest_text(p, options, digests))),
        payload,
    )
}

/// The digests of the manifest.
pub open spec fn sha256_digest() -> spec_fn(Seq<u8>) -> Seq<u8> {
    |bytes: Seq<u8>| sha256_of(bytes)
}

/// The payload members of a plan and the digests of its regular files.
pub open spec fn payload_of(
    p: BuildPlanView,
    sources: Map<Seq<char>, core::result::Result<Seq<u8>, Seq<char>>>,
) -> core::result::Result<(Seq<MemberView>, Map<Seq<char>, Seq<char>>), ErrorView> {
    entries_added(p.files, sources, p.timestamp, sha256_digest(), p.files.len() as int)
}

/// The package of a plan that has its preset policy, if its payload can be written.
pub open spec fn package_of(
    p: BuildPlanView,
    options: OptionsView,
    sources: Map<Seq<char>, core::result::Result<Seq<u8>, Seq<char>>>,
) -> core::result::Result<Seq<u8>, ErrorView> {
    match payload_of(p, sources) {
        Err(e) => Err(e),
        Ok(payload) => {
            let tar = tar_image(package_members(p, options, payload.0, payload.1));
            if zstd_takes(tar, ZSTD_LEVEL) {
                Ok(zstd_image(tar, ZSTD_LEVEL))
            } else {
                Err(ErrorView::Archive { reason: "zstd compression failed"@, told: true })
            }
        },
    }
}

/// What writing a package comes to.
pub open spec fn packages(
    p: BuildPlanView,
    options: OptionsView,
    sources: Map<Seq<char>, core::result::Result<Seq<u8>, Seq<char>>>,
    r: core::result::Result<Seq<u8>, ErrorView>,
) -> bool {
    if policy_fits(p, options.preset_service) {
        r == package_of(policy_plan(p, options.preset_service), options, sources)
    } else {
        r is Err && r->Err_0 is Core && policy_refused(
            p,
            options.preset_service,
            r->Err_0->Core_0,
        )
    }
}

/// `image` is the package of a plan, and every layer of it reads back: the compressed tarball,
/// the tarball, and the compressed manifest in it.
pub open spec fn stored(
    p: BuildPlanView,
    options: OptionsView,
    sources: Map<Seq<char>, core::result::Result<Seq<u8>, Seq<char>>>,
    image: Seq<u8>,
) -> bool {
    let payload = payload_of(p, sources);
    let members = package_members(p, options, payload->Ok_0.0, payload->Ok_0.1);
    &&& payload is Ok
    &&& unzstded(image) == Some(tar_image(members))
    &&& reads_back(members, tar_image(members))
    &&& gunzipped(members[0].bytes) == Some(
        encode_utf8(manifest_text(p, options, payload->Ok_0.1)),
    )
}

// ---- writing --------------------------------------------------------------------------------

/// Adds a regular file and returns its hex digest.
fn append_regular(
    builder: &mut TarWriter,
    file: &PlannedFile,
    sources: &Sources,
    mtime: u64,
) -> (r: Result<String>)
    requires
        file@.kind is Regular,
    ensures
        match r {
            Ok(digest) => bytes_of(file@, sources@) is Ok && digest@ == hex_bytes(
                sha256_of(bytes_of(file@, sources@)->Ok_0),
            ) && tar_members(*final(builder)) == tar_members(*old(builder)).push(
                entry_member(file@, mtime, bytes_of(file@, sources@)->Ok_0),
            ),
            Err(e) => bytes_of(file@, sources@) == Err::<Seq<u8>, ErrorView>(e@),
        },
{
    let bytes = match sources.content(file) {
        Err(e) => {
            return Err(e);
        },
        Ok(bytes) => bytes,
    };
    let member = regular_member(file, bytes, mtime);
    match append_plain(builder, &member, file.destination.as_str()) {
        Err(e) => Err(e),
        Ok(_) => Ok(hex(sha256(bytes.as_slice()).as_slice())),
    }
}

/// Writes the payload entries, returning each regular file's digest by relative path.
fn write_payload(builder: &mut TarWriter, plan: &BuildPlan, sources: &Sources) -> (r: Result<
    TextMap,
>)
    ensures
        match r {
            Ok(digests) => {
                &&& payload_of(plan@, sources@) is Ok
                &&& tar_members(*final(builder)) == tar_members(*old(builder)) + payload_of(
                    plan@,
                    sources@,
                )->Ok_0.0
                &&& digests@ == payload_of(plan@, sources@)->Ok_0.1
            },
            Err(e) => payload_of(plan@, sources@) == Err::<
                (Seq<MemberView>, Map<Seq<char>, Seq<char>>),
                ErrorView,
            >(e@),
        },
{
    let mtime = plan.timestamp.as_secs();
    let mut digests = TextMap::new();
    let ghost files = plan@.files;
    let ghost n = files.len() as int;
    let ghost start = tar_members(*builder);
    let ghost mut done: Seq<MemberView> = Seq::empty();
    let mut i: usize = 0;
    assert(start + done =~= start);
    while i < plan.files.len()
        invariant
            i <= plan.files@.len(),
            files == plan@.files,
            n == files.len(),
            mtime == plan@.timestamp,
            entries_added(files, sources@, mtime, sha256_digest(), i as int) == Ok::<
                (Seq<MemberView>, Map<Seq<char>, Seq<char>>),
                ErrorView,
            >((done, digests@)),
            tar_members(*builder) == start + done,
        decreases plan.files@.len() - i,
    {
        let file = &plan.files[i];
        assert(files[i as int] == file@);
        match &file.kind {
            EntryKind::Directory => {
                let member = directory_member(file, mtime);
                match append_plain(builder, &member, file.destination.as_str()) {
                    Err(e) => {
                        return Err(e);
                    },
                    Ok(_) => {},
                }
            },
            EntryKind::Symlink { target } => {
                let member = symlink_member(file, target.as_str(), mtime);
                match append_plain(builder, &member, file.destination.as_str()) {
                    Err(e) => {
                        proof {
                            early_failure(files, sources@, mtime, sha256_digest(), i + 1, n);
                        }
                        return Err(e);
                    },
                    Ok(_) => {},
                }
            },
            EntryKind::Regular => {
                match append_regular(builder, file, sources, mtime) {
                    Err(e) => {
                        proof {
                            early_failure(files, sources@, mtime, sha256_digest(), i + 1, n);
                        }
                        return Err(e);
                    },
                    Ok(digest) => {
                        digests.insert(file.destination.relative_str().to_owned(), digest);
                    },
                }
            },
        }
        proof {
            let now = entries_added(files, sources@, mtime, sha256_digest(), i + 1)->Ok_0.0;
            assert(now == done.push(now.last()));
            assert(start + now =~= (start + done).push(now.last()));
            done = now;
        }
        i = i + 1;
    }
    Ok(digests)
}


/// A metadata member, whose name is one an archive takes.
fn append_metadata(builder: &mut TarWriter, name: &str, bytes: &Vec<u8>, mtime: u64) -> (r: Result<
    (),
>)
    requires
        destination_form("/"@ + name@),
    ensures
        r is Ok,
        tar_members(*final(builder)) == tar_members(*old(builder)).push(
            metadata_member(name@, bytes@, mtime),
        ),
{
    let mut path = MEMBER_PREFIX.to_owned();
    path.append(name);
    proof {
        reveal_strlit("./");
        reveal_strlit(".");
        reveal_strlit("/");
        assert(MEMBER_PREFIX@ + name@ =~= "."@ + ("/"@ + name@));
        assert(member_path(path@));
    }
    let member = new_member(
        path,
        MemberKind::Regular,
        METADATA_MODE,
        mtime,
        None,
        copy_bytes(bytes),
    );
    append_plain(builder, &member, name)
}

/// The names of the metadata members are plain.
proof fn metadata_names()
    ensures
        destination_form("/"@ + INFO_MEMBER@),
        destination_form("/"@ + INSTALL_MEMBER@),
        destination_form("/"@ + MANIFEST_MEMBER@),
{
    reveal_strlit(".PKGINFO");
    reveal_strlit(".INSTALL");
    reveal_strlit(".MTREE");
    reveal_strlit(".");
    reveal_strlit("..");
    one_component(INFO_MEMBER@);
    one_component(INSTALL_MEMBER@);
    one_component(MANIFEST_MEMBER@);
}

/// The metadata members beside the manifest.
fn metadata(plan: &BuildPlan, options: &Options) -> (r: Vec<(&'static str, Vec<u8>)>)
    ensures
        r@.len() == metadata_of(plan@, options@).len(),
        forall|i: int|
            0 <= i < r@.len() ==> (#[trigger] r@[i]).0@ == metadata_of(plan@, options@)[i].0
                && r@[i].1@ == metadata_of(plan@, options@)[i].1 && destination_form(
                "/"@ + r@[i].0@,
            ),
{
    let mut generator = plan.metadata.generator.clone();
    generator.append(" ");
    generator.append(plan.metadata.generator_version.as_str());
    let info = pkginfo::render(plan, generator.as_str());
    let mut r: Vec<(&'static str, Vec<u8>)> = Vec::new();
    proof {
        metadata_names();
    }
    r.push((INFO_MEMBER, info.as_str().as_bytes_vec()));
    match &options.install_scriptlet {
        Some(script) => {
            r.push((INSTALL_MEMBER, copy_bytes(script)));
        },
        None => {},
    }
    r
}

/// The manifest records: metadata members, then every plan entry, regular files carrying the
/// digest of their bytes.
///
/// Metadata members are archive entries like any other; the manifest alone is absent, since a
/// digest cannot cover the file carrying it.
fn manifest_records(
    plan: &BuildPlan,
    options: &Options,
    metadata: &Vec<(&'static str, Vec<u8>)>,
    digests: &TextMap,
    Ghost(sources): Ghost<Map<Seq<char>, core::result::Result<Seq<u8>, Seq<char>>>>,
) -> (r: Result<Vec<Record>>)
    requires
        metadata@.len() == metadata_of(plan@, options@).len(),
        forall|i: int|
            0 <= i < metadata@.len() ==> (#[trigger] metadata@[i]).0@ == metadata_of(
                plan@,
                options@,
            )[i].0 && metadata@[i].1@ == metadata_of(plan@, options@)[i].1,
        payload_of(plan@, sources) is Ok,
        digests@ == payload_of(plan@, sources)->Ok_0.1,
    ensures
        r is Ok,
        views(r->Ok_0@) == records_of(plan@, options@, digests@),
{
    let ghost first = metadata_of(plan@, options@).map_values(
        |m: (Seq<char>, Seq<u8>)| metadata_record(m.0, m.1),
    );
    let ghost second = plan@.files.map_values(|f: PlannedFileView| entry_record(f, digests@));
    let mut records: Vec<Record> = Vec::new();
    let mut i: usize = 0;
    assert(views(records@) =~= first.take(0));
    while i < metadata.len()
        invariant
            i <= metadata@.len(),
            first == metadata_of(plan@, options@).map_values(
                |m: (Seq<char>, Seq<u8>)| metadata_record(m.0, m.1),
            ),
            metadata@.len() == metadata_of(plan@, options@).len(),
            forall|j: int|
                0 <= j < metadata@.len() ==> (#[trigger] metadata@[j]).0@ == metadata_of(
                    plan@,
                    options@,
                )[j].0 && metadata@[j].1@ == metadata_of(plan@, options@)[j].1,
            views(records@) == first.take(i as int),
        decreases metadata@.len() - i,
    {
        let (name, contents) = &metadata[i];
        assert(metadata@[i as int].0@ == metadata_of(plan@, options@)[i as int].0);
        let mut path = MEMBER_PREFIX.to_owned();
        path.append(name);
        let record = Record {
            path,
            kind: "file",
            mode: METADATA_MODE,
            size: contents.len() as u64,
            digest: Some(hex(sha256(contents.as_slice()).as_slice())),
            link: None,
        };
        proof {
            assert(record@ == first[i as int]);
            views_push(records@, record);
            assert(first.take(i + 1) =~= first.take(i as int).push(record@));
        }
        records.push(record);
        i = i + 1;
    }
    assert(first.take(i as int) =~= first);
    let mut i: usize = 0;
    assert(views(records@) =~= first + second.take(0));
    while i < plan.files.len()
        invariant
            i <= plan.files@.len(),
            second == plan@.files.map_values(|f: PlannedFileView| entry_record(f, digests@)),
            views(records@) == first + second.take(i as int),
            payload_of(plan@, sources) is Ok,
            digests@ == payload_of(plan@, sources)->Ok_0.1,
        decreases plan.files@.len() - i,
    {
        let file = &plan.files[i];
        assert(plan@.files[i as int] == file@);
        let record = match &file.kind {
            EntryKind::Directory => record_for(file, None),
            EntryKind::Symlink { target } => record_for(file, None),
            EntryKind::Regular => {
                proof {
                    digests_are_of_the_bytes(
                        plan@.files,
                        sources,
                        plan@.timestamp,
                        sha256_digest(),
                        i as int,
                        plan@.files.len() as int,
                    );
                }
                match digests.get(file.destination.relative_str()) {
                    Some(digest) => record_for(file, Some(digest.to_owned())),
                    None => {
                        let mut m = "`".to_owned();
                        m.append(file.destination.as_str());
                        m.append(
                            "` was not written to the payload; this is a defect in the backend",
                        );
                        return Err(Error::refused(m));
                    },
                }
            },
        };
        proof {
            assert(record@ == second[i as int]);
            views_push(records@, record);
            assert(first + second.take(i + 1) =~= (first + second.take(i as int)).push(record@));
        }
        records.push(record);
        i = i + 1;
    }
    assert(second.take(i as int) =~= second);
    Ok(records)
}

/// The payload of a plan, written and hashed.
pub fn payload(plan: &BuildPlan, sources: &Sources) -> (r: Result<(TarWriter, TextMap)>)
    ensures
        match r {
            Ok(done) => payload_of(plan@, sources@) == Ok::<
                (Seq<MemberView>, Map<Seq<char>, Seq<char>>),
                ErrorView,
            >((tar_members(done.0), done.1@)),
            Err(e) => payload_of(plan@, sources@) == Err::<
                (Seq<MemberView>, Map<Seq<char>, Seq<char>>),
                ErrorView,
            >(e@),
        },
{
    let mut builder = TarWriter::new();
    match write_payload(&mut builder, plan, sources) {
        Err(e) => Err(e),
        Ok(digests) => {
            assert(tar_members(builder) =~= payload_of(plan@, sources@)->Ok_0.0);
            Ok((builder, digests))
        },
    }
}

/// Assembles the tarball of a package from its compressed manifest and its payload.
pub fn assemble(plan: &BuildPlan, options: &Options, manifest: &Vec<u8>, payload: &TarWriter) -> (r:
    Result<Vec<u8>>)
    ensures
        r is Ok,
        r->Ok_0@ == tar_image(
            members_with(plan@, options@, manifest@, tar_members(*payload)),
        ),
        reads_back(
            members_with(plan@, options@, manifest@, tar_members(*payload)),
            r->Ok_0@,
        ),
{
    let mtime = plan.timestamp.as_secs();
    let metadata = metadata(plan, options);
    let ghost described = metadata_of(plan@, options@);
    let ghost expected = members_with(plan@, options@, manifest@, tar_members(*payload));
    let mut tar = TarWriter::new();
    proof {
        metadata_names();
    }
    match append_metadata(&mut tar, MANIFEST_MEMBER, manifest, mtime) {
        Err(e) => {
            return Err(e);
        },
        Ok(_) => {},
    }
    let mut i: usize = 0;
    assert(tar_members(tar) =~= expected.take(1));
    while i < metadata.len()
        invariant
            i <= metadata@.len(),
            mtime == plan@.timestamp,
            metadata@.len() == described.len(),
            described == metadata_of(plan@, options@),
            expected == members_with(plan@, options@, manifest@, tar_members(*payload)),
            forall|j: int|
                0 <= j < metadata@.len() ==> (#[trigger] metadata@[j]).0@ == described[j].0
                    && metadata@[j].1@ == described[j].1 && destination_form(
                    "/"@ + metadata@[j].0@,
                ),
            tar_members(tar) == expected.take(i + 1),
        decreases metadata@.len() - i,
    {
        let (name, contents) = &metadata[i];
        assert(metadata@[i as int].0@ == described[i as int].0);
        match append_metadata(&mut tar, name, contents, mtime) {
            Err(e) => {
                return Err(e);
            },
            Ok(_) => {},
        }
        proof {
            assert(expected[i + 1] == metadata_member(name@, contents@, mtime));
            assert(expected.take(i + 2) =~= expected.take(i + 1).push(expected[i + 1]));
        }
        i = i + 1;
    }
    tar.splice(payload);
    assert(tar_members(tar) =~= expected);
    match tar.finish() {
        Err(e) => Err(Error::archive("could not finish the archive".to_owned(), &e)),
        Ok(image) => Ok(image),
    }
}

/// Builds the package in memory. `sources` holds what was read of the files the plan copies.
///
/// The manifest precedes the payload it describes, so the payload is written first, hashed as
/// it goes, and spliced in after the metadata.
pub fn build_bytes(plan: &BuildPlan, options: &Options, sources: &Sources) -> (r: Result<Vec<u8>>)
    ensures
        packages(plan@, options@, sources@, settled(r)),
        r is Ok ==> stored(
            policy_plan(plan@, options@.preset_service),
            options@,
            sources@,
            r->Ok_0@,
        ),
{
    let service = match &options.preset_service {
        Some(name) => Some(name.as_str()),
        None => None,
    };
    let plan = match with_preset(plan, service) {
        Err(e) => {
            return Err(Error::Core(e));
        },
        Ok(p) => p,
    };
    let (payload, digests) = match payload(&plan, sources) {
        Err(e) => {
            return Err(e);
        },
        Ok(done) => done,
    };
    let metadata = metadata(&plan, options);
    let records = match manifest_records(&plan, options, &metadata, &digests, Ghost(sources@)) {
        Err(e) => {
            return Err(e);
        },
        Ok(records) => records,
    };
    let manifest = mtree::render(records.as_slice(), &plan);
    assert(views(records@).len() == records@.len());
    let packed = match gzip(manifest.as_str().as_bytes_vec().as_slice()) {
        Err(e) => {
            return Err(Error::archive("could not compress the manifest".to_owned(), &e));
        },
        Ok(packed) => packed,
    };
    let image = match assemble(&plan, options, &packed, &payload) {
        Err(e) => {
            return Err(e);
        },
        Ok(image) => image,
    };
    match zstd(image.as_slice(), ZSTD_LEVEL) {
        Err(e) => Err(Error::archive("zstd compression failed".to_owned(), &e)),
        Ok(bytes) => Ok(bytes),
    }
}

/// Two builds of one plan from the same bytes are identical.
pub proof fn builds_are_reproducible(
    p: BuildPlanView,
    options: OptionsView,
    sources: Map<Seq<char>, core::result::Result<Seq<u8>, Seq<char>>>,
    first: Seq<u8>,
    second: Seq<u8>,
)
    requires
        packages(p, options, sources, Ok(first)),
        packages(p, options, sources, Ok(second)),
    ensures
        first == second,
{
}

/// Whether a manifest record describes a member: the path, but for the separator that ends a
/// directory's, the mode, the link target, and of a regular file the size and the digest of its
/// bytes.
pub open spec fn describes(r: RecordView, m: MemberView) -> bool {
    &&& m.path == (if m.kind is Directory {
        r.path + "/"@
    } else {
        r.path
    })
    &&& r.kind == (match m.kind {
        MemberKind::Regular => "file"@,
        MemberKind::Directory => "dir"@,
        MemberKind::Symlink => "link"@,
    })
    &&& r.link == m.link
    &&& m.kind is Regular ==> r.size == m.bytes.len() as u64 && r.digest == Some(
        hex_bytes(sha256_of(m.bytes)),
    )
    &&& m.kind is Symlink || r.mode == m.mode
}

/// The manifest and the archive agree in both directions: every member but the manifest itself
/// has a record that describes it, and there is no other record.
pub proof fn the_manifest_agrees_with_the_archive(
    p: BuildPlanView,
    options: OptionsView,
    sources: Map<Seq<char>, core::result::Result<Seq<u8>, Seq<char>>>,
)
    requires
        payload_of(p, sources) is Ok,
        ascending(dests(p.files)),
        forall|k: int| 0 <= k < p.files.len() ==> destination_form(
            (#[trigger] p.files[k]).destination,
        ),
    ensures
        ({
            let payload = payload_of(p, sources)->Ok_0;
            let members = package_members(p, options, payload.0, payload.1);
            let records = records_of(p, options, payload.1);
            &&& members.len() == records.len() + 1
            &&& members[0].path == MEMBER_PREFIX@ + MANIFEST_MEMBER@
            &&& forall|i: int|
                0 <= i < records.len() ==> describes(#[trigger] records[i], members[i + 1])
        }),
{
    let payload = payload_of(p, sources)->Ok_0;
    let n = p.files.len() as int;
    let members = package_members(p, options, payload.0, payload.1);
    let records = records_of(p, options, payload.1);
    let m = metadata_of(p, options).len() as int;
    entries_added_exactly(p.files, sources, p.timestamp, sha256_digest(), n);
    assert forall|i: int| 0 <= i < records.len() implies describes(
        #[trigger] records[i],
        members[i + 1],
    ) by {
        if i >= m {
            let k = i - m;
            let file = p.files[k];
            assert(members[i + 1] == payload.0[k]);
            assert(payload.0[k] == entry_member(file, p.timestamp, packaged_bytes(file, sources)));
            assert(records[i] == entry_record(file, payload.1));
            if file.kind is Regular {
                assert(bytes_of(file, sources) is Ok);
                digests_are_of_the_bytes(
                    p.files,
                    sources,
                    p.timestamp,
                    sha256_digest(),
                    k,
                    n,
                );
                let path = relative(file.destination);
                assert forall|j: int| k < j < n implies relative(
                    (#[trigger] p.files[j]).destination,
                ) != path by {
                    assert(less(dests(p.files)[k], dests(p.files)[j]));
                    less_irreflexive(dests(p.files)[k]);
                    assert(destination_form(p.files[k].destination));
                    assert(destination_form(p.files[j].destination));
                    if relative(p.files[j].destination) == path {
                        assert(p.files[j].destination =~= seq!['/'] + path);
                        assert(p.files[k].destination =~= seq!['/'] + path);
                    }
                }
                assert(packaged_bytes(file, sources).len() == file.content.length());
            }
        }
    }
}


/// A package gives back what it was built from: decompressing it gives a tarball of the members
/// in order, each with its header and bytes and none after them, and the first of them
/// decompresses to the manifest.
pub proof fn a_package_reads_back(
    p: BuildPlanView,
    options: OptionsView,
    sources: Map<Seq<char>, core::result::Result<Seq<u8>, Seq<char>>>,
    image: Seq<u8>,
)
    requires
        stored(p, options, sources, image),
        forall|k: int| 0 <= k < p.files.len() ==> readable_entry(#[trigger] p.files[k]),
    ensures
        ({
            let payload = payload_of(p, sources)->Ok_0;
            let members = package_members(p, options, payload.0, payload.1);
            let tar = unzstded(image)->0;
            &&& unzstded(image) is Some
            &&& tar_header(tar, members.len()) is None
            &&& forall|i: int|
                #![trigger members[i]]
                0 <= i < members.len() ==> read_as(members[i], tar, i as nat)
            &&& gunzipped(tar_content(tar, 0)->0) == Some(
                encode_utf8(manifest_text(p, options, payload.1)),
            )
        }),
{
    let payload = payload_of(p, sources)->Ok_0;
    let n = p.files.len() as int;
    let members = package_members(p, options, payload.0, payload.1);
    let tar = tar_image(members);
    let m = metadata_of(p, options).len() as int;
    entries_added_exactly(p.files, sources, p.timestamp, sha256_digest(), n);
    metadata_names();
    assert forall|i: int| #![trigger members[i]] 0 <= i < members.len() implies read_as(
        members[i],
        tar,
        i as nat,
    ) by {
        if i <= m {
            let name = if i == 0 {
                MANIFEST_MEMBER@
            } else {
                metadata_of(p, options)[i - 1].0
            };
            assert(destination_form("/"@ + name));
            assert(members[i].path == MEMBER_PREFIX@ + name);
            reveal_strlit("./");
            reveal_strlit(".");
            reveal_strlit("/");
            assert(MEMBER_PREFIX@ + name =~= "."@ + ("/"@ + name));
            assert(faithful(members[i]));
        } else {
            let k = i - m - 1;
            assert(members[i] == payload.0[k]);
            assert(readable_entry(p.files[k]));
            readable_entries_are_faithful(
                p.files[k],
                p.timestamp,
                packaged_bytes(p.files[k], sources),
            );
        }
    }
    assert(read_as(members[0], tar, 0));
}

/// A plan with another date gives other bytes.
pub proof fn another_date_gives_another_package(
    p: BuildPlanView,
    q: BuildPlanView,
    options: OptionsView,
    sources: Map<Seq<char>, core::result::Result<Seq<u8>, Seq<char>>>,
    image: Seq<u8>,
    other: Seq<u8>,
)
    requires
        p.timestamp != q.timestamp,
        stored(p, options, sources, image),
        stored(q, options, sources, other),
    ensures
        image != other,
{
    let mine = payload_of(p, sources)->Ok_0;
    let theirs = payload_of(q, sources)->Ok_0;
    let members = package_members(p, options, mine.0, mine.1);
    let others = package_members(q, options, theirs.0, theirs.1);
    metadata_names();
    reveal_strlit("./");
    reveal_strlit(".");
    reveal_strlit("/");
    assert(MEMBER_PREFIX@ + MANIFEST_MEMBER@ =~= "."@ + ("/"@ + MANIFEST_MEMBER@));
    assert(members[0].path == MEMBER_PREFIX@ + MANIFEST_MEMBER@);
    assert(faithful(members[0]));
    assert(faithful(others[0]));
    if image == other {
        assert(tar_image(members) == tar_image(others));
    }
}

/// Whether the member at a position of a tarball reads as it was written.
pub open spec fn read_as(m: MemberView, tar: Seq<u8>, i: nat) -> bool {
    &&& tar_header(tar, i) is Some
    &&& tar_header(tar, i)->0 is Some
    &&& reads_as(m, tar_header(tar, i)->0->0)
    &&& tar_content(tar, i) == Some(m.bytes)
}

/// An Arch package is named after its base name, its version with release and epoch, and its
/// architecture.
pub proof fn a_package_is_named_after_its_version(base: Seq<char>, p: BuildPlanView)
    ensures
        named_file(base, p) == base + "-"@ + pkgver_of(
            p.identity.version_rpm,
            p.identity.release_rpm,
            p.identity.epoch,
        ) + "-"@ + p.identity.architecture.arch_linux_spelling() + ".pkg.tar.zst"@,
        package_file(p) == named_file(p.identity.package_name, p),
{
}

/// The metadata of a package is its information, then its install functions where it has any.
pub proof fn metadata_is_information_and_functions(p: BuildPlanView, options: OptionsView)
    ensures
        ({
            let metadata = metadata_of(p, options);
            &&& metadata[0].0 == ".PKGINFO"@
            &&& options.install_scriptlet is None ==> metadata.len() == 1
            &&& options.install_scriptlet matches Some(script) ==> metadata.len() == 2
                && metadata[1] == (".INSTALL"@, script)
        }),
{
}

/// A package whose service is enabled by policy holds the policy beside all that was planned: it
/// is written from a plan with every entry of both.
pub proof fn a_package_holds_its_preset(
    p: BuildPlanView,
    options: OptionsView,
    sources: Map<Seq<char>, core::result::Result<Seq<u8>, Seq<char>>>,
    image: Seq<u8>,
    name: Seq<char>,
    out: Seq<PlannedFileView>,
    i: int,
)
    requires
        packages(p, options, sources, Ok(image)),
        options.preset_service == Some(name),
        completes(p.files.push(preset_entry(name)->Ok_0), out),
    ensures
        preset_entry(name) is Ok,
        out.contains(preset_entry(name)->Ok_0),
        0 <= i < p.files.len() ==> out.contains(p.files[i]),
        package_of((BuildPlanView { files: out, ..p }), options, sources) == Ok::<Seq<u8>, ErrorView>(
            image,
        ),
{
    let all = p.files.push(preset_entry(name)->Ok_0);
    completed_is(all, out);
    assert(all[p.files.len() as int] == preset_entry(name)->Ok_0);
    assert(all.contains(preset_entry(name)->Ok_0));
    if 0 <= i < p.files.len() {
        assert(all[i] == p.files[i]);
        assert(all.contains(p.files[i]));
    }
}

} // verus!
