//! Building the two tarballs a `.deb` contains.
//!
//! Contents are hashed as they are added, serving both `md5sums` and the payload.

use vstd::prelude::*;

use crate::codec::{md5, md5_of};
use crate::digits::{hex, hex_bytes};
use crate::packing::{bytes_of, Error, ErrorView, Result, Sources};
use crate::payload::{
    append_plain, directory_member, early_failure, entries_added, entry_member, new_member,
    regular_member, root_member, symlink_member, MEMBER_PREFIX,
};
use crate::plan::{copy_bytes, BuildPlan, BuildPlanView, EntryKind, PlannedFile};
use crate::strings::views;
use crate::tarball::{
    reads_back, tar_image, tar_members, tar_takes_path, AppendFault, MemberKind, MemberView,
    TarWriter,
};
use crate::textmap::TextMap;

verus! {

/// The digests of `md5sums`.
pub open spec fn md5_digest() -> spec_fn(Seq<u8>) -> Seq<u8> {
    |bytes: Seq<u8>| md5_of(bytes)
}

/// The members and digests of a plan's payload.
pub open spec fn data_members(
    p: BuildPlanView,
    sources: Map<Seq<char>, core::result::Result<Seq<u8>, Seq<char>>>,
) -> core::result::Result<(Seq<MemberView>, Map<Seq<char>, Seq<char>>), ErrorView> {
    entries_added(p.files, sources, p.timestamp, md5_digest(), p.files.len() as int)
}

/// Adds a regular file and returns its hex digest.
fn append_regular(
    builder: &mut TarWriter,
    file: &PlannedFile,
    sources: &Sources,
    mtime: u64,
) -> (r: Result<String>)
    requires
        file@.kind is Regular,
    ensures
        match r {
            Ok(digest) => bytes_of(file@, sources@) is Ok && digest@ == hex_bytes(
                md5_of(bytes_of(file@, sources@)->Ok_0),
            ) && tar_members(*final(builder)) == tar_members(*old(builder)).push(
                entry_member(file@, mtime, bytes_of(file@, sources@)->Ok_0),
            ),
            Err(e) => bytes_of(file@, sources@) == Err::<Seq<u8>, ErrorView>(e@),
        },
{
    let bytes = match sources.content(file) {
        Err(e) => {
            return Err(e);
        },
        Ok(bytes) => bytes,
    };
    let member = regular_member(file, bytes, mtime);
    match append_plain(builder, &member, file.destination.as_str()) {
        Err(e) => Err(e),
        Ok(_) => Ok(hex(md5(bytes.as_slice()).as_slice())),
    }
}

/// Writes the data tarball and returns each regular file's MD5, keyed by destination without
/// its leading slash, which is what `md5sums` wants. Ancestors are entries of the plan, parents
/// before children, so there is no separate directory pass.
pub fn write_data_archive(plan: &BuildPlan, sources: &Sources) -> (r: Result<(Vec<u8>, TextMap)>)
    ensures
        match r {
            Ok((image, digests)) => {
                &&& data_members(plan@, sources@) is Ok
                &&& image@ == tar_image(data_members(plan@, sources@)->Ok_0.0)
                &&& reads_back(data_members(plan@, sources@)->Ok_0.0, image@)
                &&& digests@ == data_members(plan@, sources@)->Ok_0.1
            },
            Err(e) => data_members(plan@, sources@) == Err::<
                (Seq<MemberView>, Map<Seq<char>, Seq<char>>),
                ErrorView,
            >(e@),
        },
{
    let mtime = plan.timestamp.as_secs();
    let mut builder = TarWriter::new();
    let mut digests = TextMap::new();
    let ghost files = plan@.files;
    let ghost n = files.len() as int;
    let mut i: usize = 0;
    while i < plan.files.len()
        invariant
            i <= plan.files@.len(),
            files == plan@.files,
            n == files.len(),
            mtime == plan@.timestamp,
            entries_added(files, sources@, mtime, md5_digest(), i as int) == Ok::<
                (Seq<MemberView>, Map<Seq<char>, Seq<char>>),
                ErrorView,
            >((tar_members(builder), digests@)),
        decreases plan.files@.len() - i,
    {
        let file = &plan.files[i];
        assert(files[i as int] == file@);
        match &file.kind {
            EntryKind::Directory => {
                let member = directory_member(file, mtime);
                match append_plain(&mut builder, &member, file.destination.as_str()) {
                    Err(e) => {
                        return Err(e);
                    },
                    Ok(_) => {},
                }
            },
            EntryKind::Symlink { target } => {
                let member = symlink_member(file, target.as_str(), mtime);
                match append_plain(&mut builder, &member, file.destination.as_str()) {
                    Err(e) => {
                        proof {
                            early_failure(files, sources@, mtime, md5_digest(), i + 1, n);
                        }
                        return Err(e);
                    },
                    Ok(_) => {},
                }
            },
            EntryKind::Regular => {
                match append_regular(&mut builder, file, sources, mtime) {
                    Err(e) => {
                        proof {
                            early_failure(files, sources@, mtime, md5_digest(), i + 1, n);
                        }
                        return Err(e);
                    },
                    Ok(digest) => {
                        digests.insert(file.destination.relative_str().to_owned(), digest);
                    },
                }
            },
        }
        i = i + 1;
    }
    match builder.finish() {
        Err(e) => Err(Error::archive("could not finish the data tarball".to_owned(), &e)),
        Ok(image) => Ok((image, digests)),
    }
}

// ---- the control tarball --------------------------------------------------------------------

/// One member of the control tarball: its name, its bytes and its mode.
#[derive(Debug)]
pub struct ControlMember {
    pub name: String,
    pub bytes: Vec<u8>,
    pub mode: u32,
}

pub struct ControlMemberView {
    pub name: Seq<char>,
    pub bytes: Seq<u8>,
    pub mode: u32,
}

impl View for ControlMember {
    type V = ControlMemberView;

    open spec fn view(&self) -> ControlMemberView {
        ControlMemberView { name: self.name@, bytes: self.bytes@, mode: self.mode }
    }
}

pub open spec fn control_member(m: ControlMemberView, mtime: u64) -> MemberView {
    root_member(MEMBER_PREFIX@ + m.name, MemberKind::Regular, m.mode, mtime, None, m.bytes)
}

/// The tarball members of some control members; the first whose name the archive refuses gives
/// the error.
pub open spec fn control_added(members: Seq<ControlMemberView>, mtime: u64) -> core::result::Result<
    Seq<MemberView>,
    ErrorView,
>
    decreases members.len(),
{
    if members.len() == 0 {
        Ok(Seq::empty())
    } else {
        match control_added(members.drop_last(), mtime) {
            Err(e) => Err(e),
            Ok(before) => if tar_takes_path(MEMBER_PREFIX@ + members.last().name) {
                Ok(before.push(control_member(members.last(), mtime)))
            } else {
                Err(
                    ErrorView::Archive {
                        reason: "could not add `"@ + members.last().name
                            + "` to the control tarball"@,
                        told: true,
                    },
                )
            },
        }
    }
}

proof fn early_control_failure(members: Seq<ControlMemberView>, mtime: u64, n: int)
    requires
        0 <= n <= members.len(),
        control_added(members.take(n), mtime) is Err,
    ensures
        control_added(members, mtime) == control_added(members.take(n), mtime),
    decreases members.len() - n,
{
    if n < members.len() {
        assert(members.take(n + 1).drop_last() =~= members.take(n));
        early_control_failure(members, mtime, n + 1);
    } else {
        assert(members.take(n) =~= members);
    }
}

/// Builds `control.tar` from its members, in the order given.
pub fn control_archive(members: &Vec<ControlMember>, mtime: u64) -> (r: Result<Vec<u8>>)
    ensures
        match r {
            Ok(image) => {
                &&& control_added(views(members@), mtime) is Ok
                &&& image@ == tar_image(control_added(views(members@), mtime)->Ok_0)
                &&& reads_back(control_added(views(members@), mtime)->Ok_0, image@)
            },
            Err(e) => control_added(views(members@), mtime) == Err::<Seq<MemberView>, ErrorView>(
                e@,
            ),
        },
{
    let mut builder = TarWriter::new();
    let ghost all = views(members@);
    let mut i: usize = 0;
    assert(all.take(0) =~= Seq::empty());
    while i < members.len()
        invariant
            i <= members@.len(),
            all == views(members@),
            control_added(all.take(i as int), mtime) == Ok::<Seq<MemberView>, ErrorView>(
                tar_members(builder),
            ),
        decreases members@.len() - i,
    {
        proof {
            assert(all.take(i + 1).drop_last() =~= all.take(i as int));
            assert(all.take(i + 1).last() == members@[i as int]@);
        }
        let name = members[i].name.as_str();
        let mut path = MEMBER_PREFIX.to_owned();
        path.append(name);
        let member = new_member(
            path,
            MemberKind::Regular,
            members[i].mode,
            mtime,
            None,
            copy_bytes(&members[i].bytes),
        );
        match builder.append(&member) {
            Ok(_) => {},
            Err(fault) => {
                let mut m = "could not add `".to_owned();
                m.append(name);
                m.append("` to the control tarball");
                proof {
                    early_control_failure(all, mtime, i + 1);
                }
                return match fault {
                    AppendFault::Link(e) => Err(Error::archive(m, &e)),
                    AppendFault::Entry(e) => Err(Error::archive(m, &e)),
                };
            },
        }
        i = i + 1;
    }
    assert(all.take(i as int) =~= all);
    match builder.finish() {
        Err(e) => Err(Error::archive("could not finish the control tarball".to_owned(), &e)),
        Ok(image) => Ok(image),
    }
}

} // verus!
