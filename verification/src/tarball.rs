//! Tar images, written and read by the `tar` crate.

use vstd::prelude::*;

use crate::destination::destination_form;
use crate::error::opt;
use crate::strings::byte_len;
use crate::tarwalk::member_readable;

verus! {

#[derive(Debug, Clone, Copy, PartialEq, Eq, Structural)]
pub enum MemberKind {
    Regular,
    Directory,
    Symlink,
}

/// One member of a tarball, as it is handed over to be written.
#[derive(Debug)]
pub struct Member {
    pub path: String,
    pub kind: MemberKind,
    pub mode: u32,
    pub mtime: u64,
    pub uid: u64,
    pub gid: u64,
    /// The name of the owning user and group.
    pub owner: &'static str,
    pub link: Option<String>,
    pub bytes: Vec<u8>,
}

pub struct MemberView {
    pub path: Seq<char>,
    pub kind: MemberKind,
    pub mode: u32,
    pub mtime: u64,
    pub uid: u64,
    pub gid: u64,
    pub owner: Seq<char>,
    pub link: Option<Seq<char>>,
    pub bytes: Seq<u8>,
}

impl View for Member {
    type V = MemberView;

    open spec fn view(&self) -> MemberView {
        MemberView {
            path: self.path@,
            kind: self.kind,
            mode: self.mode,
            mtime: self.mtime,
            uid: self.uid,
            gid: self.gid,
            owner: self.owner@,
            link: opt(self.link),
            bytes: self.bytes@,
        }
    }
}

/// A path below the root of an archive: `./` and a destination without its leading separator,
/// with or without a separator at the end.
pub open spec fn member_path(path: Seq<char>) -> bool {
    exists|d: Seq<char>| #[trigger]
        destination_form(d) && (path == "."@ + d || path == "."@ + d + "/"@)
}

/// A link target that is stored as it stands: a destination, or a relative path of the same
/// plain components after any number of steps up.
pub open spec fn plain_link(target: Seq<char>) -> bool {
    &&& target.len() > 0
    &&& target.last() != '/'
    &&& forall|i: int|
        0 <= i < target.len() ==> (#[trigger] target[i] as int) != 0
    &&& forall|i: int|
        0 <= i < target.len() - 1 && #[trigger] target[i] == '/' ==> target[i + 1] != '/' && (
        target[i + 1] != '.' || (i + 2 < target.len() && target[i + 2] != '/'))
}

/// The longest link target a header holds, in bytes.
pub const LINK_BYTES: usize = 100;

/// What went wrong while a member was added.
#[derive(Debug)]
pub enum AppendFault {
    /// The link target could not be recorded.
    Link(std::io::Error),
    /// The member could not be written.
    Entry(std::io::Error),
}

/// A tarball being written: a `tar::Builder` into memory.
#[verifier::external_body]
pub struct TarWriter {
    inner: tar::Builder<Vec<u8>>,
}

/// The members written so far.
pub uninterp spec fn tar_members(w: TarWriter) -> Seq<MemberView>;

/// Whether `tar::Builder::append_data` takes a path.
pub uninterp spec fn tar_takes_path(path: Seq<char>) -> bool;

/// Whether `tar::Header::set_link_name` takes a target.
pub uninterp spec fn tar_takes_link(target: Seq<char>) -> bool;

/// Which part of adding a member went wrong.
#[derive(Debug, Clone, Copy, PartialEq, Eq, Structural)]
pub enum Stage {
    Link,
    Entry,
}

/// Where adding a member went wrong, if it did.
pub open spec fn fault_of(r: core::result::Result<(), AppendFault>) -> Option<Stage> {
    match r {
        Ok(_) => None,
        Err(AppendFault::Link(_)) => Some(Stage::Link),
        Err(AppendFault::Entry(_)) => Some(Stage::Entry),
    }
}

/// The link target is recorded first, and the path after it.
pub open spec fn fault_where(link_taken: bool, path_taken: bool) -> Option<Stage> {
    if !link_taken {
        Some(Stage::Link)
    } else if !path_taken {
        Some(Stage::Entry)
    } else {
        None
    }
}

/// The link target, empty where there is none.
pub open spec fn link_text(link: Option<Seq<char>>) -> Seq<char> {
    match link {
        Some(target) => target,
        None => Seq::empty(),
    }
}

/// The image `tar::Builder` makes of some members.
pub uninterp spec fn tar_image(members: Seq<MemberView>) -> Seq<u8>;

/// What the header of one member says when it is read.
#[derive(Debug)]
pub struct TarHeader {
    pub path: String,
    pub directory: bool,
    pub symlink: bool,
    pub mode: Option<u32>,
    pub mtime: Option<u64>,
    pub uid: Option<u64>,
    pub gid: Option<u64>,
    pub size: Option<u64>,
    pub link: Option<String>,
}

pub struct TarHeaderView {
    pub path: Seq<char>,
    pub directory: bool,
    pub symlink: bool,
    pub mode: Option<u32>,
    pub mtime: Option<u64>,
    pub uid: Option<u64>,
    pub gid: Option<u64>,
    pub size: Option<u64>,
    pub link: Option<Seq<char>>,
}

impl View for TarHeader {
    type V = TarHeaderView;

    open spec fn view(&self) -> TarHeaderView {
        TarHeaderView {
            path: self.path@,
            directory: self.directory,
            symlink: self.symlink,
            mode: self.mode,
            mtime: self.mtime,
            uid: self.uid,
            gid: self.gid,
            size: self.size,
            link: opt(self.link),
        }
    }
}

/// The fixed fields of a header.
#[derive(Debug)]
pub struct TarFields {
    pub directory: bool,
    pub symlink: bool,
    pub mode: Option<u32>,
    pub mtime: Option<u64>,
    pub uid: Option<u64>,
    pub gid: Option<u64>,
    pub size: Option<u64>,
}

/// What the header fields of the member at a position say, as `tar::Archive` reads them:
/// nothing past the last member, and no fields where its header cannot be read.
pub uninterp spec fn tar_fields(image: Seq<u8>, index: nat) -> Option<Option<TarFields>>;

/// The path and the link target of the member at a position, as `tar::Archive` reads them.
pub uninterp spec fn tar_names(image: Seq<u8>, index: nat) -> Option<
    (Seq<char>, Option<Seq<char>>),
>;

/// What is read of the member at a position: nothing past the last one, and no header where it
/// cannot be read.
pub open spec fn tar_header(image: Seq<u8>, index: nat) -> Option<Option<TarHeaderView>> {
    match tar_fields(image, index) {
        None => None,
        Some(None) => Some(None),
        Some(Some(f)) => match tar_names(image, index) {
            None => Some(None),
            Some((path, link)) => Some(
                Some(
                    TarHeaderView {
                        path,
                        directory: f.directory,
                        symlink: f.symlink,
                        mode: f.mode,
                        mtime: f.mtime,
                        uid: f.uid,
                        gid: f.gid,
                        size: f.size,
                        link,
                    },
                ),
            ),
        },
    }
}

/// The bytes `tar::Archive` reads for the member at a position, if it can.
pub uninterp spec fn tar_content(image: Seq<u8>, index: nat) -> Option<Seq<u8>>;

/// A member whose every field is read back as written: a plain path, a mode of seven octal
/// digits, root's numeric ids, and a plain link target where it is a link and none where it is
/// not.
pub open spec fn faithful(m: MemberView) -> bool {
    &&& member_path(m.path)
    &&& m.mode < 0o10000000
    &&& m.uid == 0
    &&& m.gid == 0
    &&& match m.link {
        Some(target) => m.kind is Symlink && plain_link(target),
        None => !(m.kind is Symlink),
    }
}

/// What a header says of a faithful member. A leading `./` is dropped from a path that fits the
/// header.
pub open spec fn reads_as(m: MemberView, h: TarHeaderView) -> bool {
    &&& h.path == m.path || "./"@ + h.path == m.path
    &&& h.directory == (m.kind is Directory)
    &&& h.symlink == (m.kind is Symlink)
    &&& h.mode == Some(m.mode)
    &&& h.mtime == Some(m.mtime)
    &&& h.uid == Some(m.uid)
    &&& h.gid == Some(m.gid)
    &&& h.size == Some(m.bytes.len() as u64)
    &&& h.link == m.link
}

/// Reading an image never panics and gives back the members: as many, with their bytes, and with the headers of
/// the faithful ones. Every member takes at least one block of the image.
pub open spec fn reads_back(members: Seq<MemberView>, image: Seq<u8>) -> bool {
    &&& forall|i: nat| #[trigger] member_readable(image, i)
    &&& members.len() < image.len()
    &&& tar_header(image, members.len()) is None
    &&& forall|i: int|
        #![trigger members[i]]
        0 <= i < members.len() && faithful(members[i]) ==> (tar_header(image, i as nat) matches Some(
            Some(h),
        ) && reads_as(members[i], h))
    &&& forall|i: int|
        #![trigger members[i]]
        0 <= i < members.len() ==> tar_content(image, i as nat) == Some(members[i].bytes)
}

impl TarWriter {
    /// `tar::Builder::new` into an empty vector.
    #[verifier::external_body]
    pub(crate) fn new() -> (w: Self)
        ensures
            tar_members(w) == Seq::<MemberView>::empty(),
    {
        TarWriter { inner: tar::Builder::new(Vec::new()) }
    }

    /// `tar::Builder::append_data` with a GNU header of the given fields. A plain path is
    /// accepted at any length, since a long one gets an extension entry; a plain link target is
    /// accepted up to the hundred bytes its header field holds.
    #[verifier::external_body]
    pub(crate) fn append(&mut self, member: &Member) -> (r: core::result::Result<(), AppendFault>)
        ensures
            r is Ok ==> tar_members(*final(self)) == tar_members(*old(self)).push(member@),
            fault_of(r) == fault_where(
                member@.link is None || tar_takes_link(member@.link->0),
                tar_takes_path(member@.path),
            ),
            member_path(member@.path) ==> fault_of(r) != Some(Stage::Entry),
            plain_link(link_text(member@.link)) ==> (fault_of(r) == Some(Stage::Link)) == (byte_len(
                link_text(member@.link),
            ) > LINK_BYTES),
    {
        let mut header = tar::Header::new_gnu();
        header.set_entry_type(match member.kind {
            MemberKind::Regular => tar::EntryType::Regular,
            MemberKind::Directory => tar::EntryType::Directory,
            MemberKind::Symlink => tar::EntryType::Symlink,
        });
        header.set_mode(member.mode);
        header.set_mtime(member.mtime);
        header.set_uid(member.uid);
        header.set_gid(member.gid);
        let _ = header.set_username(member.owner).and(header.set_groupname(member.owner));
        header.set_size(member.bytes.len() as u64);
        member.link.iter().try_for_each(|to| header.set_link_name(to)).map_err(AppendFault::Link)?;
        self.inner.append_data(&mut header, &member.path, &member.bytes[..]).map_err(AppendFault::Entry)
    }

    /// `tar::Builder::get_mut` and `get_ref`: puts the entries written to another tarball behind
    /// those written here. A builder writes each entry through to its vector, and nothing else
    /// before it is finished.
    #[verifier::external_body]
    pub(crate) fn splice(&mut self, other: &TarWriter)
        ensures
            tar_members(*final(self)) == tar_members(*old(self)) + tar_members(*other),
    {
        self.inner.get_mut().extend_from_slice(other.inner.get_ref());
    }

    /// `tar::Builder::into_inner`, which writes the trailer and cannot fail in memory. The image
    /// depends on the members alone. `tar::Archive` reads it without a panic, lists as many members as were written,
    /// their bytes unchanged, and the header of a faithful member says what was written; each
    /// member has a header block of its own.
    #[verifier::external_body]
    pub(crate) fn finish(self) -> (r: core::result::Result<Vec<u8>, std::io::Error>)
        ensures
            r is Ok,
            r->Ok_0@ == tar_image(tar_members(self)),
            reads_back(tar_members(self), r->Ok_0@),
    {
        self.inner.into_inner()
    }
}

/// The header fields of the member at a position, through `tar::Archive::entries`. Only
/// positions its reader gets to without a panic are admitted.
#[verifier::external_body]
fn fields_at(image: &[u8], index: usize) -> (r: Option<
    core::result::Result<TarFields, std::io::Error>,
>)
    requires
        member_readable(image@, index as nat),
    ensures
        tar_fields(image@, index as nat) == (match r {
            None => None,
            Some(Ok(f)) => Some(Some(f)),
            Some(Err(_)) => Some(None::<TarFields>),
        }),
{
    let mut archive = tar::Archive::new(image);
    let entry = archive.entries().map(|mut all| all.nth(index)).transpose()?;
    Some(entry.and_then(|found| found).map(|entry| TarFields {
        directory: entry.header().entry_type().is_dir(),
        symlink: entry.header().entry_type().is_symlink(),
        mode: entry.header().mode().ok(),
        mtime: entry.header().mtime().ok(),
        uid: entry.header().uid().ok(),
        gid: entry.header().gid().ok(),
        size: entry.header().size().ok(),
    }))
}

/// The path and the link target of the member at a position, through `tar::Archive::entries`,
/// where its reader gets there without a panic.
#[verifier::external_body]
fn names_at(image: &[u8], index: usize) -> (r: core::result::Result<
    (String, Option<String>),
    std::io::Error,
>)
    requires
        member_readable(image@, index as nat),
    ensures
        tar_names(image@, index as nat) == (match r {
            Ok((path, link)) => Some((path@, opt(link))),
            Err(_) => None,
        }),
{
    let mut archive = tar::Archive::new(image);
    let missing = || Err(std::io::Error::from(std::io::ErrorKind::UnexpectedEof));
    let entry = archive.entries()?.nth(index).unwrap_or_else(missing)?;
    let path = entry.path()?.to_string_lossy().into_owned();
    let link = entry.link_name().ok().flatten().map(|to| to.to_string_lossy().into_owned());
    Ok((path, link))
}

/// The header of the member at a position.
pub(crate) fn header_at(image: &[u8], index: usize) -> (r: Option<
    core::result::Result<TarHeader, std::io::Error>,
>)
    requires
        member_readable(image@, index as nat),
    ensures
        tar_header(image@, index as nat) == (match r {
            None => None,
            Some(Ok(h)) => Some(Some(h@)),
            Some(Err(_)) => Some(None::<TarHeaderView>),
        }),
{
    let f = match fields_at(image, index) {
        None => {
            return None;
        },
        Some(Err(e)) => {
            return Some(Err(e));
        },
        Some(Ok(f)) => f,
    };
    match names_at(image, index) {
        Err(e) => Some(Err(e)),
        Ok((path, link)) => Some(
            Ok(
                TarHeader {
                    path,
                    directory: f.directory,
                    symlink: f.symlink,
                    mode: f.mode,
                    mtime: f.mtime,
                    uid: f.uid,
                    gid: f.gid,
                    size: f.size,
                    link,
                },
            ),
        ),
    }
}

/// The bytes of the member at a position, through `tar::Archive::entries`, where its reader
/// gets there, and through them, without a panic.
#[verifier::external_body]
pub(crate) fn content_at(image: &[u8], index: usize) -> (r: core::result::Result<
    Vec<u8>,
    std::io::Error,
>)
    requires
        member_readable(image@, index as nat),
    ensures
        tar_content(image@, index as nat) == (match r {
            Ok(bytes) => Some(bytes@),
            Err(_) => None,
        }),
{
    let mut archive = tar::Archive::new(image);
    let entry = archive.entries()?.nth(index);
    let mut bytes = Vec::new();
    let missing = || Err(std::io::Error::from(std::io::ErrorKind::UnexpectedEof));
    std::io::Read::read_to_end(&mut entry.unwrap_or_else(missing)?, &mut bytes)?;
    Ok(bytes)
}

} // verus!
