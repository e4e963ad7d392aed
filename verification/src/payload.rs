//! The tarball members a plan's entries become, whatever package they go into.
//!
//! Lintian wants an entry for every parent directory, with a trailing separator. Headers are
//! deterministic with an explicit mtime, so identical input gives identical bytes.

use vstd::prelude::*;

use crate::destination::destination_form;
use crate::digits::hex_bytes;
use crate::packing::{bytes_of, Error, ErrorView, Result};
use crate::plan::{copy_bytes, EntryKindView, PlannedFile, PlannedFileView};
use crate::tarball::{
    faithful, member_path, plain_link, tar_members, tar_takes_link, AppendFault, Member, MemberKind, MemberView,
    TarWriter,
};

verus! {

/// Stated rather than inherited from disk; that is what removes the `fakeroot` dependency.
pub const ROOT_NAME: &'static str = "root";

/// `dpkg-deb` writes every member path with this prefix.
pub const MEMBER_PREFIX: &'static str = "./";

/// A destination without its leading separator.
pub open spec fn relative(destination: Seq<char>) -> Seq<char> {
    destination.skip(1)
}

/// A member with the fields every entry shares: owned by root, by id and by name.
pub open spec fn root_member(
    path: Seq<char>,
    kind: MemberKind,
    mode: u32,
    mtime: u64,
    link: Option<Seq<char>>,
    bytes: Seq<u8>,
) -> MemberView {
    MemberView { path, kind, mode, mtime, uid: 0, gid: 0, owner: ROOT_NAME@, link, bytes }
}

pub fn new_member(
    path: String,
    kind: MemberKind,
    mode: u32,
    mtime: u64,
    link: Option<String>,
    bytes: Vec<u8>,
) -> (m: Member)
    ensures
        m@ == root_member(path@, kind, mode, mtime, crate::error::opt(link), bytes@),
{
    Member { path, kind, mode, mtime, uid: 0, gid: 0, owner: ROOT_NAME, link, bytes }
}

/// The member a planned entry becomes. A directory's path ends with a separator.
pub open spec fn entry_member(file: PlannedFileView, mtime: u64, bytes: Seq<u8>) -> MemberView {
    let path = MEMBER_PREFIX@ + relative(file.destination);
    match file.kind {
        EntryKindView::Directory => root_member(
            path + "/"@,
            MemberKind::Directory,
            file.mode,
            mtime,
            None,
            Seq::empty(),
        ),
        EntryKindView::Symlink { target } => root_member(
            path,
            MemberKind::Symlink,
            PlannedFile::MODE_SYMLINK,
            mtime,
            Some(target),
            Seq::empty(),
        ),
        EntryKindView::Regular => root_member(
            path,
            MemberKind::Regular,
            file.mode,
            mtime,
            None,
            bytes,
        ),
    }
}

/// The path of a planned entry is one an archive takes.
pub proof fn entry_paths_are_plain(file: PlannedFileView, mtime: u64, bytes: Seq<u8>)
    requires
        destination_form(file.destination),
    ensures
        member_path(entry_member(file, mtime, bytes).path),
{
    reveal_strlit("./");
    reveal_strlit(".");
    reveal_strlit("/");
    let d = file.destination;
    assert(MEMBER_PREFIX@ + relative(d) =~= "."@ + d);
    assert(MEMBER_PREFIX@ + relative(d) + "/"@ =~= "."@ + d + "/"@);
}

pub open spec fn unrecorded_link(target: Seq<char>) -> ErrorView {
    ErrorView::Archive { reason: "could not record symlink target `"@ + target + "`"@, told: true }
}

/// What one entry adds to an archive, and to the digests where it is a regular file.
pub open spec fn entry_added(
    file: PlannedFileView,
    sources: Map<Seq<char>, core::result::Result<Seq<u8>, Seq<char>>>,
    mtime: u64,
    before: (Seq<MemberView>, Map<Seq<char>, Seq<char>>),
    digest: spec_fn(Seq<u8>) -> Seq<u8>,
) -> core::result::Result<(Seq<MemberView>, Map<Seq<char>, Seq<char>>), ErrorView> {
    match file.kind {
        EntryKindView::Directory => Ok(
            (before.0.push(entry_member(file, mtime, Seq::empty())), before.1),
        ),
        EntryKindView::Symlink { target } => if tar_takes_link(target) {
            Ok((before.0.push(entry_member(file, mtime, Seq::empty())), before.1))
        } else {
            Err(unrecorded_link(target))
        },
        EntryKindView::Regular => match bytes_of(file, sources) {
            Err(e) => Err(e),
            Ok(bytes) => Ok(
                (
                    before.0.push(entry_member(file, mtime, bytes)),
                    before.1.insert(relative(file.destination), hex_bytes(digest(bytes))),
                ),
            ),
        },
    }
}

/// The members of the first `n` entries, and the digest of each regular file among them by its
/// path without the leading separator.
pub open spec fn entries_added(
    files: Seq<PlannedFileView>,
    sources: Map<Seq<char>, core::result::Result<Seq<u8>, Seq<char>>>,
    mtime: u64,
    digest: spec_fn(Seq<u8>) -> Seq<u8>,
    n: int,
) -> core::result::Result<(Seq<MemberView>, Map<Seq<char>, Seq<char>>), ErrorView>
    decreases n,
{
    if n <= 0 {
        Ok((Seq::empty(), Map::empty()))
    } else {
        match entries_added(files, sources, mtime, digest, n - 1) {
            Err(e) => Err(e),
            Ok(before) => entry_added(files[n - 1], sources, mtime, before, digest),
        }
    }
}

/// A failure among the first entries is a failure of them all.
pub proof fn early_failure(
    files: Seq<PlannedFileView>,
    sources: Map<Seq<char>, core::result::Result<Seq<u8>, Seq<char>>>,
    mtime: u64,
    digest: spec_fn(Seq<u8>) -> Seq<u8>,
    n: int,
    m: int,
)
    requires
        0 <= n <= m,
        entries_added(files, sources, mtime, digest, n) is Err,
    ensures
        entries_added(files, sources, mtime, digest, m) == entries_added(
            files,
            sources,
            mtime,
            digest,
            n,
        ),
    decreases m - n,
{
    if n < m {
        early_failure(files, sources, mtime, digest, n, m - 1);
    }
}

/// The bytes an entry is packaged with.
pub open spec fn packaged_bytes(file: PlannedFileView, sources: Map<Seq<char>, core::result::Result<Seq<u8>, Seq<char>>>) -> Seq<u8> {
    match file.kind {
        EntryKindView::Regular => bytes_of(file, sources)->Ok_0,
        _ => Seq::empty(),
    }
}

/// The members are those of the entries, in order.
pub proof fn entries_added_exactly(
    files: Seq<PlannedFileView>,
    sources: Map<Seq<char>, core::result::Result<Seq<u8>, Seq<char>>>,
    mtime: u64,
    digest: spec_fn(Seq<u8>) -> Seq<u8>,
    n: int,
)
    requires
        0 <= n <= files.len(),
        entries_added(files, sources, mtime, digest, n) is Ok,
    ensures
        entries_added(files, sources, mtime, digest, n)->Ok_0.0.len() == n,
        forall|k: int|
            0 <= k < n ==> #[trigger] entries_added(files, sources, mtime, digest, n)->Ok_0.0[k]
                == entry_member(files[k], mtime, packaged_bytes(files[k], sources)),
        forall|k: int|
            0 <= k < n && (#[trigger] files[k]).kind is Regular ==> bytes_of(files[k], sources) is Ok,
    decreases n,
{
    if n > 0 {
        entries_added_exactly(files, sources, mtime, digest, n - 1);
        let before = entries_added(files, sources, mtime, digest, n - 1)->Ok_0.0;
        let now = entries_added(files, sources, mtime, digest, n)->Ok_0.0;
        assert forall|k: int| 0 <= k < n implies #[trigger] now[k] == entry_member(
            files[k],
            mtime,
            packaged_bytes(files[k], sources),
        ) by {
            if k < n - 1 {
                assert(now[k] == before[k]);
            }
        }
    }
}

/// The digest of a regular file is that of its bytes, where no later entry has its path.
pub proof fn digests_are_of_the_bytes(
    files: Seq<PlannedFileView>,
    sources: Map<Seq<char>, core::result::Result<Seq<u8>, Seq<char>>>,
    mtime: u64,
    digest: spec_fn(Seq<u8>) -> Seq<u8>,
    k: int,
    n: int,
)
    requires
        0 <= k < n <= files.len(),
        entries_added(files, sources, mtime, digest, n) is Ok,
        files[k].kind is Regular,
    ensures
        ({
            let digests = entries_added(files, sources, mtime, digest, n)->Ok_0.1;
            let path = relative(files[k].destination);
            &&& digests.dom().contains(path)
            &&& (forall|j: int|
                k < j < n ==> relative((#[trigger] files[j]).destination) != path)
                ==> digests[path] == hex_bytes(digest(packaged_bytes(files[k], sources)))
        }),
    decreases n,
{
    if k < n - 1 {
        digests_are_of_the_bytes(files, sources, mtime, digest, k, n - 1);
        let path = relative(files[k].destination);
        if forall|j: int| k < j < n ==> relative((#[trigger] files[j]).destination) != path {
            assert(relative(files[n - 1].destination) != path);
        }
    }
}

/// An entry that is read back: its destination is in normal form, its mode fits, its link
/// target is plain.
pub open spec fn readable_entry(file: PlannedFileView) -> bool {
    &&& destination_form(file.destination)
    &&& file.mode < 0o10000000
    &&& file.kind matches EntryKindView::Symlink { target } ==> plain_link(target)
}

/// Every field of the member of such an entry is read back.
pub proof fn readable_entries_are_faithful(file: PlannedFileView, mtime: u64, bytes: Seq<u8>)
    requires
        readable_entry(file),
    ensures
        faithful(entry_member(file, mtime, bytes)),
{
    entry_paths_are_plain(file, mtime, bytes);
}

/// The member path of an entry.
fn member_name(file: &PlannedFile) -> (s: String)
    ensures
        s@ == MEMBER_PREFIX@ + relative(file@.destination),
        destination_form(file@.destination),
{
    let mut s = MEMBER_PREFIX.to_owned();
    s.append(file.destination.relative_str());
    s
}

/// The member of a directory.
pub fn directory_member(file: &PlannedFile, mtime: u64) -> (m: Member)
    requires
        file@.kind is Directory,
    ensures
        m@ == entry_member(file@, mtime, Seq::empty()),
        member_path(m@.path),
{
    let mut path = member_name(file);
    path.append("/");
    let none: Vec<u8> = Vec::new();
    proof {
        entry_paths_are_plain(file@, mtime, Seq::empty());
        assert(none@ =~= Seq::empty());
    }
    new_member(path, MemberKind::Directory, file.mode, mtime, None, none)
}

/// The member of a symlink.
pub fn symlink_member(file: &PlannedFile, target: &str, mtime: u64) -> (m: Member)
    requires
        file@.kind == (EntryKindView::Symlink { target: target@ }),
    ensures
        m@ == entry_member(file@, mtime, Seq::empty()),
        member_path(m@.path),
{
    let none: Vec<u8> = Vec::new();
    let path = member_name(file);
    proof {
        entry_paths_are_plain(file@, mtime, Seq::empty());
        assert(none@ =~= Seq::empty());
    }
    new_member(
        path,
        MemberKind::Symlink,
        PlannedFile::MODE_SYMLINK,
        mtime,
        Some(target.to_owned()),
        none,
    )
}

/// The member of a regular file.
pub fn regular_member(file: &PlannedFile, bytes: &Vec<u8>, mtime: u64) -> (m: Member)
    requires
        file@.kind is Regular,
    ensures
        m@ == entry_member(file@, mtime, bytes@),
        member_path(m@.path),
{
    let path = member_name(file);
    proof {
        entry_paths_are_plain(file@, mtime, bytes@);
    }
    new_member(path, MemberKind::Regular, file.mode, mtime, None, copy_bytes(bytes))
}

/// Adds a member whose path the archive takes.
pub fn append_plain(builder: &mut TarWriter, member: &Member, what: &str) -> (r: Result<()>)
    requires
        member_path(member@.path),
    ensures
        match r {
            Ok(_) => tar_members(*final(builder)) == tar_members(*old(builder)).push(member@) && (
            member@.link is Some ==> tar_takes_link(member@.link->0)),
            Err(e) => member@.link is Some && !tar_takes_link(member@.link->0) && e@
                == unrecorded_link(member@.link->0),
        },
{
    match builder.append(member) {
        Ok(_) => Ok(()),
        Err(AppendFault::Link(e)) => {
            let mut m = "could not record symlink target `".to_owned();
            match &member.link {
                Some(target) => {
                    m.append(target.as_str());
                },
                None => {},
            }
            m.append("`");
            Err(Error::archive(m, &e))
        },
        Err(AppendFault::Entry(e)) => {
            let mut m = "could not add ".to_owned();
            m.append(what);
            Err(Error::archive(m, &e))
        },
    }
}

/// Every member is root's, dated alike, and is what its entry says: a directory with its
/// separator, a link with its target, a file with its bytes and its mode.
pub proof fn every_member_is_its_entry(file: PlannedFileView, mtime: u64, bytes: Seq<u8>)
    ensures
        ({
            let m = entry_member(file, mtime, bytes);
            let path = "./"@ + file.destination.skip(1);
            &&& m.uid == 0 && m.gid == 0 && m.owner == "root"@ && m.mtime == mtime
            &&& file.kind is Regular ==> m.path == path && m.kind is Regular && m.mode == file.mode
                && m.bytes == bytes && m.link is None
            &&& file.kind is Directory ==> m.path == path + "/"@ && m.kind is Directory && m.mode
                == file.mode && m.bytes.len() == 0 && m.link is None
            &&& file.kind matches EntryKindView::Symlink { target } ==> m.path == path && m.kind
                is Symlink && m.mode == 0o777 && m.bytes.len() == 0 && m.link == Some(target)
        }),
{
}

} // verus!
