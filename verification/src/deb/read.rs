//! Reading a `.deb` back: build, parse and compare on any host, with no `dpkg-deb`.

use vstd::prelude::*;
use vstd::utf8::{decode_utf8, encode_utf8_decode_utf8, encode_utf8_valid_utf8, valid_utf8};

use crate::codec::{lossy, lossy_text, text_of};
use crate::container::{
    ar_place, ar_step, is_step_readable, step_readable, ArReader, ArStep, ArStepView,
};
use crate::deb::compression::Compression;
use crate::deb::error::{settled, Error, ErrorView, Result};
use crate::error::opt;
use crate::strings::{
    begins_with, less, less_irreflexive, less_total, less_transitive, lines, lines_of, precedes,
    same, split_first, split_once, starts_with, strip_end, strip_prefix, strip_start, stripped_end, stripped_start, views, views_push,
};
use crate::strmap::StrMap;
use crate::tarball::{content_at, header_at, tar_content, tar_header, TarHeaderView};
use crate::tarwalk::{is_member_readable, member_readable};
use crate::textmap::TextMap;

verus! {

#[derive(Debug, Clone, Copy, PartialEq, Eq, Structural)]
pub enum EntryKind {
    Regular,
    Directory,
    Symlink,
}

/// One entry of `data.tar`.
#[derive(Debug)]
pub struct Entry {
    pub kind: EntryKind,
    pub mode: u32,
    pub mtime: u64,
    pub uid: u64,
    pub gid: u64,
    pub size: u64,
    pub link_target: Option<String>,
    /// Bytes of a regular entry.
    pub content: Option<Vec<u8>>,
}

pub struct EntryView {
    pub kind: EntryKind,
    pub mode: u32,
    pub mtime: u64,
    pub uid: u64,
    pub gid: u64,
    pub size: u64,
    pub link_target: Option<Seq<char>>,
    pub content: Option<Seq<u8>>,
}

impl View for Entry {
    type V = EntryView;

    open spec fn view(&self) -> EntryView {
        EntryView {
            kind: self.kind,
            mode: self.mode,
            mtime: self.mtime,
            uid: self.uid,
            gid: self.gid,
            size: self.size,
            link_target: opt(self.link_target),
            content: match self.content {
                Some(bytes) => Some(bytes@),
                None => None,
            },
        }
    }
}

/// What a package holds.
#[derive(Debug)]
pub struct Package {
    pub members: Vec<String>,
    pub control: TextMap,
    pub control_text: String,
    /// `data.tar` entries by path, without `./`. A map collapses duplicates; see
    /// [`Package::data_order`] for how many times a path appeared.
    pub data: StrMap<Entry>,
    /// Every `data.tar` entry path, in stream order, duplicates included.
    pub data_order: Vec<String>,
    pub md5sums: TextMap,
    pub conffiles: Vec<String>,
    pub scripts: Vec<String>,
    pub script_bodies: TextMap,
}

pub struct PackageView {
    pub members: Seq<Seq<char>>,
    pub control: Map<Seq<char>, Seq<char>>,
    pub control_text: Seq<char>,
    pub data: Map<Seq<char>, EntryView>,
    pub data_order: Seq<Seq<char>>,
    pub md5sums: Map<Seq<char>, Seq<char>>,
    pub conffiles: Seq<Seq<char>>,
    pub scripts: Seq<Seq<char>>,
    pub script_bodies: Map<Seq<char>, Seq<char>>,
}

/// The plain values of the entries of a map.
pub open spec fn entry_views(m: Map<Seq<char>, Entry>) -> Map<Seq<char>, EntryView> {
    m.map_values(|e: Entry| e@)
}

impl View for Package {
    type V = PackageView;

    open spec fn view(&self) -> PackageView {
        PackageView {
            members: views(self.members@),
            control: self.control@,
            control_text: self.control_text@,
            data: entry_views(self.data@),
            data_order: views(self.data_order@),
            md5sums: self.md5sums@,
            conffiles: views(self.conffiles@),
            scripts: views(self.scripts@),
            script_bodies: self.script_bodies@,
        }
    }
}

pub open spec fn empty_package() -> PackageView {
    PackageView {
        members: Seq::empty(),
        control: Map::empty(),
        control_text: Seq::empty(),
        data: Map::empty(),
        data_order: Seq::empty(),
        md5sums: Map::empty(),
        conffiles: Seq::empty(),
        scripts: Seq::empty(),
        script_bodies: Map::empty(),
    }
}

impl Default for Package {
    fn default() -> (p: Self)
        ensures
            p@ == empty_package(),
    {
        let p = Package {
            members: Vec::new(),
            control: TextMap::new(),
            control_text: String::new(),
            data: StrMap::new(),
            data_order: Vec::new(),
            md5sums: TextMap::new(),
            conffiles: Vec::new(),
            scripts: Vec::new(),
            script_bodies: TextMap::new(),
        };
        assert(views(p.members@) =~= Seq::empty());
        assert(p.control_text@ =~= Seq::empty());
        assert(entry_views(p.data@) =~= Map::empty());
        assert(views(p.data_order@) =~= Seq::empty());
        assert(views(p.conffiles@) =~= Seq::empty());
        assert(views(p.scripts@) =~= Seq::empty());
        p
    }
}

/// How many of `paths` are `path`.
pub open spec fn count_of(paths: Seq<Seq<char>>, path: Seq<char>) -> nat
    decreases paths.len(),
{
    if paths.len() == 0 {
        0
    } else {
        count_of(paths.drop_last(), path) + (if paths.last() == path {
            1nat
        } else {
            0
        })
    }
}

impl Package {
    /// Text of a regular entry, or empty if absent.
    pub fn data_text(&self, path: &str) -> (s: String)
        ensures
            s@ == (if self@.data.dom().contains(path@) && self@.data[path@].content is Some {
                lossy_text(self@.data[path@].content->0)
            } else {
                Seq::empty()
            }),
    {
        match self.data.get(path) {
            Some(entry) => match &entry.content {
                Some(bytes) => lossy(bytes.as_slice()),
                None => {
                    let s = String::new();
                    assert(s@ =~= Seq::empty());
                    s
                },
            },
            None => {
                let s = String::new();
                assert(s@ =~= Seq::empty());
                s
            },
        }
    }

    /// How many times a path appears in `data.tar`.
    pub fn occurrences(&self, path: &str) -> (n: usize)
        ensures
            n == count_of(self@.data_order, path@),
    {
        let ghost all = views(self.data_order@);
        let mut n: usize = 0;
        let mut i: usize = 0;
        while i < self.data_order.len()
            invariant
                i <= self.data_order@.len(),
                all == views(self.data_order@),
                n <= i,
                n == count_of(all.take(i as int), path@),
            decreases self.data_order@.len() - i,
        {
            assert(all.take(i + 1).drop_last() =~= all.take(i as int));
            assert(all.take(i + 1).last() == self.data_order@[i as int]@);
            if same(self.data_order[i].as_str(), path) {
                n = n + 1;
            }
            i = i + 1;
        }
        assert(all.take(i as int) =~= all);
        n
    }
}

/// The compressor a member's suffix names.
pub open spec fn compressor_for(suffix: Seq<char>) -> core::result::Result<
    Compression,
    ErrorView,
> {
    if suffix == ""@ {
        Ok(Compression::Stored)
    } else if suffix == ".gz"@ {
        Ok(Compression::Gzip)
    } else if suffix == ".xz"@ {
        Ok(Compression::Xz)
    } else if suffix == ".zst"@ {
        Ok(Compression::Zstd)
    } else {
        Err(
            ErrorView::Archive {
                reason: "unrecognised archive member suffix `"@ + suffix + "`"@,
                told: false,
            },
        )
    }
}

pub fn compression_for(suffix: &str) -> (r: Result<Compression>)
    ensures
        settled(r) == compressor_for(suffix@),
{
    if same(suffix, "") {
        Ok(Compression::Stored)
    } else if same(suffix, ".gz") {
        Ok(Compression::Gzip)
    } else if same(suffix, ".xz") {
        Ok(Compression::Xz)
    } else if same(suffix, ".zst") {
        Ok(Compression::Zstd)
    } else {
        let mut m = "unrecognised archive member suffix `".to_owned();
        m.append(suffix);
        m.append("`");
        Err(Error::refused(m))
    }
}

/// Decompresses a member.
pub fn decompress(compression: Compression, bytes: &Vec<u8>) -> (r: Result<Vec<u8>>)
    ensures
        settled(r) == compression.decompressing(bytes@),
{
    compression.decompress(bytes)
}

// ---- control fields -----------------------------------------------------------------------

/// The fields read so far, and the one still being read.
pub struct FieldsView {
    pub done: Map<Seq<char>, Seq<char>>,
    pub current: Option<(Seq<char>, Seq<char>)>,
}

pub open spec fn flushed(f: FieldsView) -> Map<Seq<char>, Seq<char>> {
    match f.current {
        Some(field) => f.done.insert(field.0, field.1),
        None => f.done,
    }
}

/// What one line does: a folded line continues the field, a field line starts one, and anything
/// else is passed over.
pub open spec fn field_step(f: FieldsView, line: Seq<char>) -> FieldsView {
    if begins_with(line, " "@) {
        match f.current {
            Some(field) => FieldsView {
                done: f.done,
                current: Some((field.0, field.1 + "\n"@ + stripped_start(line, ' '))),
            },
            None => f,
        }
    } else {
        match split_first(line, ": "@) {
            Some(field) => FieldsView { done: flushed(f), current: Some(field) },
            None => f,
        }
    }
}

pub open spec fn fields_after(lines: Seq<Seq<char>>) -> FieldsView
    decreases lines.len(),
{
    if lines.len() == 0 {
        FieldsView { done: Map::empty(), current: None }
    } else {
        field_step(fields_after(lines.drop_last()), lines.last())
    }
}

/// The fields of a control file, folded lines joined back onto their field.
pub open spec fn control_fields(text: Seq<char>) -> Map<Seq<char>, Seq<char>> {
    flushed(fields_after(lines_of(text)))
}

/// Joins folded continuation lines back onto their field.
pub fn parse_control_fields(text: &str) -> (fields: TextMap)
    ensures
        fields@ == control_fields(text@),
{
    let all = lines(text);
    let ghost every = lines_of(text@);
    let mut fields = TextMap::new();
    let mut current: Option<(String, String)> = None;
    let mut i: usize = 0;
    assert(every.take(0) =~= Seq::empty());
    while i < all.len()
        invariant
            i <= all@.len(),
            views(all@) == every,
            fields_after(every.take(i as int)).done == fields@,
            match current {
                Some(field) => fields_after(every.take(i as int)).current == Some(
                    (field.0@, field.1@),
                ),
                None => fields_after(every.take(i as int)).current is None,
            },
        decreases all@.len() - i,
    {
        let line = all[i].as_str();
        proof {
            assert(every[i as int] == line@);
            assert(every.take(i + 1).drop_last() =~= every.take(i as int));
            assert(every.take(i + 1).last() == line@);
        }
        if starts_with(line, " ") {
            match current {
                Some((key, value)) => {
                    let mut longer = value;
                    longer.append("\n");
                    longer.append(strip_start(line, ' ').as_str());
                    current = Some((key, longer));
                },
                None => {
                    current = None;
                },
            }
        } else {
            match split_once(line, ": ") {
                Some((key, value)) => {
                    match current {
                        Some((k, v)) => {
                            fields.insert(k, v);
                        },
                        None => {},
                    }
                    current = Some((key, value));
                },
                None => {},
            }
        }
        i = i + 1;
    }
    assert(every.take(i as int) =~= every);
    match current {
        Some((k, v)) => {
            fields.insert(k, v);
        },
        None => {},
    }
    fields
}

// ---- the control tarball --------------------------------------------------------------------

/// A path without any leading `./`.
pub open spec fn without_dots(path: Seq<char>) -> Seq<char>
    decreases path.len(),
{
    if path.len() >= 2 && path[0] == '.' && path[1] == '/' {
        without_dots(path.skip(2))
    } else {
        path
    }
}

fn strip_dots(path: &str) -> (s: String)
    ensures
        s@ == without_dots(path@),
{
    let mut s = path.to_owned();
    proof {
        reveal_strlit("./");
        assert("./"@ =~= seq!['.', '/']);
    }
    loop
        invariant
            without_dots(path@) == without_dots(s@),
            "./"@ == seq!['.', '/'],
        decreases s@.len(),
    {
        match strip_prefix(s.as_str(), "./") {
            Some(rest) => {
                proof {
                    assert(s@.take(2) =~= "./"@);
                    assert(s@[0] == '.' && s@[1] == '/');
                    assert(rest@ == s@.skip(2));
                }
                s = rest;
            },
            None => {
                proof {
                    if s@.len() >= 2 && s@[0] == '.' && s@[1] == '/' {
                        assert(s@.take(2) =~= "./"@);
                    }
                }
                return s;
            },
        }
    }
}

/// The digests of `md5sums`, by path.
pub open spec fn md5_entries(lines: Seq<Seq<char>>) -> Map<Seq<char>, Seq<char>>
    decreases lines.len(),
{
    if lines.len() == 0 {
        Map::empty()
    } else {
        match split_first(lines.last(), "  "@) {
            Some(pair) => md5_entries(lines.drop_last()).insert(pair.1, pair.0),
            None => md5_entries(lines.drop_last()),
        }
    }
}

fn parse_md5sums(text: &str) -> (m: TextMap)
    ensures
        m@ == md5_entries(lines_of(text@)),
{
    let all = lines(text);
    let ghost every = lines_of(text@);
    let mut m = TextMap::new();
    let mut i: usize = 0;
    assert(every.take(0) =~= Seq::empty());
    while i < all.len()
        invariant
            i <= all@.len(),
            views(all@) == every,
            m@ == md5_entries(every.take(i as int)),
        decreases all@.len() - i,
    {
        assert(every.take(i + 1).drop_last() =~= every.take(i as int));
        assert(every.take(i + 1).last() == all@[i as int]@);
        match split_once(all[i].as_str(), "  ") {
            Some((digest, file)) => {
                m.insert(file, digest);
            },
            None => {},
        }
        i = i + 1;
    }
    assert(every.take(i as int) =~= every);
    m
}

/// `list`, which ascends, with one more text in its place, after any equal to it.
pub open spec fn inserted(list: Seq<Seq<char>>, x: Seq<char>) -> Seq<Seq<char>>
    decreases list.len(),
{
    if list.len() > 0 && less(x, list.last()) {
        inserted(list.drop_last(), x).push(list.last())
    } else {
        list.push(x)
    }
}

/// The texts in ascending order, duplicates kept.
pub open spec fn sorted_texts(list: Seq<Seq<char>>) -> Seq<Seq<char>>
    decreases list.len(),
{
    if list.len() == 0 {
        Seq::empty()
    } else {
        inserted(sorted_texts(list.drop_last()), list.last())
    }
}

/// Puts one more text in its place.
fn insert_text(list: &mut Vec<String>, x: String)
    ensures
        views(final(list)@) == inserted(views(old(list)@), x@),
{
    let ghost all = views(list@);
    let mut at: usize = list.len();
    assert(all.take(at as int) =~= all);
    assert(all.skip(at as int) =~= Seq::empty());
    assert(inserted(all, x@) =~= inserted(all.take(at as int), x@) + all.skip(at as int));
    while at > 0 && precedes(x.as_str(), list[at - 1].as_str())
        invariant
            at <= list@.len(),
            all == views(list@),
            inserted(all, x@) == inserted(all.take(at as int), x@) + all.skip(at as int),
        decreases at,
    {
        proof {
            let here = all.take(at as int);
            assert(here.last() == list@[at - 1]@);
            assert(here.drop_last() =~= all.take(at - 1));
            assert(inserted(all.take(at - 1), x@).push(here.last()) + all.skip(at as int)
                =~= inserted(all.take(at - 1), x@) + all.skip(at - 1));
        }
        at = at - 1;
    }
    proof {
        if at > 0 {
            assert(all.take(at as int).last() == list@[at - 1]@);
        }
        assert(inserted(all.take(at as int), x@) == all.take(at as int).push(x@));
    }
    list.insert(at, x);
    assert(views(list@) =~= all.take(at as int).push(x@) + all.skip(at as int));
}

/// The texts in ascending order.
fn sort_texts(list: Vec<String>) -> (r: Vec<String>)
    ensures
        views(r@) == sorted_texts(views(list@)),
{
    let ghost all = views(list@);
    let mut r: Vec<String> = Vec::new();
    let mut i: usize = 0;
    assert(all.take(0) =~= Seq::empty());
    assert(views(r@) =~= Seq::empty());
    while i < list.len()
        invariant
            i <= list@.len(),
            all == views(list@),
            views(r@) == sorted_texts(all.take(i as int)),
        decreases list@.len() - i,
    {
        assert(all.take(i + 1).drop_last() =~= all.take(i as int));
        assert(all.take(i + 1).last() == list@[i as int]@);
        insert_text(&mut r, list[i].clone());
        i = i + 1;
    }
    assert(all.take(i as int) =~= all);
    r
}

/// What one control entry adds to a package.
pub open spec fn control_entry(p: PackageView, path: Seq<char>, text: Seq<char>) -> PackageView {
    if path == "control"@ {
        PackageView { control: control_fields(text), control_text: text, ..p }
    } else if path == "md5sums"@ {
        PackageView { md5sums: md5_entries(lines_of(text)), ..p }
    } else if path == "conffiles"@ {
        PackageView { conffiles: lines_of(text), ..p }
    } else {
        PackageView {
            scripts: p.scripts.push(path),
            script_bodies: p.script_bodies.insert(path, text),
            ..p
        }
    }
}

/// Why a control entry that is no UTF-8 cannot be read.
pub const NOT_TEXT: &'static str = "stream did not contain valid UTF-8";

/// Why a member named past the end of the name table cannot be read.
pub const NO_NAME: &'static str = "a name stands past the end of the name table";

/// Why a tarball with a sparse member past all bounds cannot be read.
pub const TOO_LARGE: &'static str = "a sparse entry is larger than can be read";

pub open spec fn archive_error(reason: Seq<char>) -> ErrorView {
    ErrorView::Archive { reason, told: true }
}

/// What the entries of a control tarball from `i` on add to a package. One that the reader cannot
/// get to is an entry that cannot be read.
pub open spec fn control_from(image: Seq<u8>, i: nat, p: PackageView) -> core::result::Result<
    PackageView,
    ErrorView,
>
    decreases image.len() - i,
{
    if i >= image.len() {
        Ok(p)
    } else if !member_readable(image, i) {
        Err(archive_error("could not read a control entry"@))
    } else {
        match tar_header(image, i) {
            None => Ok(p),
            Some(None) => Err(archive_error("could not read a control entry"@)),
            Some(Some(h)) => {
                let path = without_dots(h.path);
                let unreadable = archive_error(
                    "could not read control entry `"@ + path + "`"@,
                );
                match tar_content(image, i) {
                    None => Err(unreadable),
                    Some(bytes) => if valid_utf8(bytes) {
                        control_from(image, i + 1, control_entry(p, path, decode_utf8(bytes)))
                    } else {
                        Err(unreadable)
                    },
                }
            },
        }
    }
}

/// What a control tarball adds to a package; the scripts end up sorted.
pub open spec fn control_read(image: Seq<u8>, p: PackageView) -> core::result::Result<
    PackageView,
    ErrorView,
> {
    match control_from(image, 0, p) {
        Err(e) => Err(e),
        Ok(done) => Ok(PackageView { scripts: sorted_texts(done.scripts), ..done }),
    }
}

fn unreadable_entry(path: &str, e: &std::io::Error) -> (r: Error)
    ensures
        r@ == archive_error("could not read control entry `"@ + path@ + "`"@),
{
    let mut m = "could not read control entry `".to_owned();
    m.append(path);
    m.append("`");
    Error::archive(m, e)
}

pub fn read_control_tar(image: &Vec<u8>, before: Package) -> (r: Result<Package>)
    ensures
        settled(r) == control_read(image@, before@),
{
    let mut package = before;
    let limit: usize = image.len();
    let mut i: usize = 0;
    loop
        invariant
            limit == image@.len(),
            i <= limit,
            control_from(image@, 0, before@) == control_from(image@, i as nat, package@),
        ensures
            control_from(image@, 0, before@) == Ok::<PackageView, ErrorView>(package@),
        decreases limit - i,
    {
        if i >= limit {
            break;
        }
        if !is_member_readable(image.as_slice(), i) {
            return Err(
                Error::because("could not read a control entry".to_owned(), TOO_LARGE.to_owned()),
            );
        }
        let header = match header_at(image.as_slice(), i) {
            None => {
                break;
            },
            Some(Err(e)) => {
                return Err(Error::archive("could not read a control entry".to_owned(), &e));
            },
            Some(Ok(h)) => h,
        };
        let path = strip_dots(header.path.as_str());
        let bytes = match content_at(image.as_slice(), i) {
            Err(e) => {
                return Err(unreadable_entry(path.as_str(), &e));
            },
            Ok(bytes) => bytes,
        };
        let ghost read = bytes@;
        let text = match text_of(bytes) {
            None => {
                let mut m = "could not read control entry `".to_owned();
                m.append(path.as_str());
                m.append("`");
                return Err(Error::because(m, NOT_TEXT.to_owned()));
            },
            Some(text) => text,
        };
        proof {
            encode_utf8_valid_utf8(text@);
            encode_utf8_decode_utf8(text@);
        }
        let ghost so_far = package@;
        if same(path.as_str(), "control") {
            package.control = parse_control_fields(text.as_str());
            package.control_text = text;
        } else if same(path.as_str(), "md5sums") {
            package.md5sums = parse_md5sums(text.as_str());
        } else if same(path.as_str(), "conffiles") {
            package.conffiles = lines(text.as_str());
        } else {
            proof {
                views_push(package.scripts@, path);
            }
            package.script_bodies.insert(path.clone(), text);
            package.scripts.push(path);
        }
        assert(package@ == control_entry(so_far, without_dots(header.path@), decode_utf8(read)));
        i = i + 1;
    }
    let mut unsorted: Vec<String> = Vec::new();
    std::mem::swap(&mut unsorted, &mut package.scripts);
    package.scripts = sort_texts(unsorted);
    Ok(package)
}

// ---- the data tarball -----------------------------------------------------------------------

/// A path as a package names it: without `./` before it or a separator after it.
pub open spec fn listed_path(path: Seq<char>) -> Seq<char> {
    stripped_end(without_dots(path), '/')
}

/// The kind of an entry.
pub open spec fn kind_of(h: TarHeaderView) -> EntryKind {
    if h.directory {
        EntryKind::Directory
    } else if h.symlink {
        EntryKind::Symlink
    } else {
        EntryKind::Regular
    }
}

pub open spec fn or_value<T>(o: Option<T>, fallback: T) -> T {
    match o {
        Some(v) => v,
        None => fallback,
    }
}

/// What a header and the bytes of a regular entry say.
pub open spec fn entry_read(h: TarHeaderView, content: Option<Seq<u8>>) -> EntryView {
    EntryView {
        kind: kind_of(h),
        mode: or_value(h.mode, 0),
        mtime: or_value(h.mtime, 0),
        uid: or_value(h.uid, u64::MAX),
        gid: or_value(h.gid, u64::MAX),
        size: or_value(h.size, 0),
        link_target: h.link,
        content,
    }
}

pub open spec fn data_entry(p: PackageView, path: Seq<char>, e: EntryView) -> PackageView {
    PackageView { data: p.data.insert(path, e), data_order: p.data_order.push(path), ..p }
}

/// What the entries of a data tarball from `i` on add to a package. One that the reader cannot
/// get to is an entry that cannot be read.
pub open spec fn data_from(image: Seq<u8>, i: nat, p: PackageView) -> core::result::Result<
    PackageView,
    ErrorView,
>
    decreases image.len() - i,
{
    if i >= image.len() {
        Ok(p)
    } else if !member_readable(image, i) {
        Err(archive_error("could not read a data entry"@))
    } else {
        match tar_header(image, i) {
            None => Ok(p),
            Some(None) => Err(archive_error("could not read a data entry"@)),
            Some(Some(h)) => {
                let path = listed_path(h.path);
                if kind_of(h) is Regular {
                    match tar_content(image, i) {
                        None => Err(
                            archive_error("could not read `"@ + path + "` from data.tar"@),
                        ),
                        Some(bytes) => data_from(
                            image,
                            i + 1,
                            data_entry(p, path, entry_read(h, Some(bytes))),
                        ),
                    }
                } else {
                    data_from(image, i + 1, data_entry(p, path, entry_read(h, None)))
                }
            },
        }
    }
}

fn or_u32(o: Option<u32>, fallback: u32) -> (n: u32)
    ensures
        n == or_value(o, fallback),
{
    match o {
        Some(v) => v,
        None => fallback,
    }
}

fn or_u64(o: Option<u64>, fallback: u64) -> (n: u64)
    ensures
        n == or_value(o, fallback),
{
    match o {
        Some(v) => v,
        None => fallback,
    }
}

pub fn read_data_tar(image: &Vec<u8>, before: Package) -> (r: Result<Package>)
    ensures
        settled(r) == data_from(image@, 0, before@),
{
    let mut package = before;
    let limit: usize = image.len();
    let mut i: usize = 0;
    loop
        invariant
            limit == image@.len(),
            i <= limit,
            data_from(image@, 0, before@) == data_from(image@, i as nat, package@),
        ensures
            data_from(image@, 0, before@) == Ok::<PackageView, ErrorView>(package@),
        decreases limit - i,
    {
        if i >= limit {
            break;
        }
        if !is_member_readable(image.as_slice(), i) {
            return Err(
                Error::because("could not read a data entry".to_owned(), TOO_LARGE.to_owned()),
            );
        }
        let header = match header_at(image.as_slice(), i) {
            None => {
                break;
            },
            Some(Err(e)) => {
                return Err(Error::archive("could not read a data entry".to_owned(), &e));
            },
            Some(Ok(h)) => h,
        };
        let path = strip_end(strip_dots(header.path.as_str()).as_str(), '/');
        let kind = if header.directory {
            EntryKind::Directory
        } else if header.symlink {
            EntryKind::Symlink
        } else {
            EntryKind::Regular
        };
        let mut content: Option<Vec<u8>> = None;
        if kind == EntryKind::Regular {
            match content_at(image.as_slice(), i) {
                Err(e) => {
                    let mut m = "could not read `".to_owned();
                    m.append(path.as_str());
                    m.append("` from data.tar");
                    return Err(Error::archive(m, &e));
                },
                Ok(bytes) => {
                    content = Some(bytes);
                },
            }
        }
        let ghost so_far = package@;
        let ghost said = header@;
        let entry = Entry {
            kind,
            mode: or_u32(header.mode, 0),
            mtime: or_u64(header.mtime, 0),
            uid: or_u64(header.uid, u64::MAX),
            gid: or_u64(header.gid, u64::MAX),
            size: or_u64(header.size, 0),
            link_target: header.link,
            content,
        };
        proof {
            views_push(package.data_order@, path);
            assert(entry_views(package.data@.insert(path@, entry)) =~= so_far.data.insert(
                path@,
                entry@,
            ));
        }
        package.data.insert(path.clone(), entry);
        package.data_order.push(path);
        assert(package@ == data_entry(so_far, listed_path(said.path), entry@));
        i = i + 1;
    }
    Ok(package)
}

// ---- the container --------------------------------------------------------------------------

/// What one member adds to a package.
pub open spec fn member_read(p: PackageView, name: Seq<char>, bytes: Seq<u8>) -> core::result::Result<
    PackageView,
    ErrorView,
> {
    let named = PackageView { members: p.members.push(name), ..p };
    if begins_with(name, "control.tar"@) {
        match compressor_for(name.skip("control.tar"@.len() as int)) {
            Err(e) => Err(e),
            Ok(c) => match c.decompressed(bytes) {
                None => Err(c.decoder_failure()),
                Some(image) => control_read(image, named),
            },
        }
    } else if begins_with(name, "data.tar"@) {
        match compressor_for(name.skip("data.tar"@.len() as int)) {
            Err(e) => Err(e),
            Ok(c) => match c.decompressed(bytes) {
                None => Err(c.decoder_failure()),
                Some(image) => data_from(image, 0, named),
            },
        }
    } else {
        Ok(named)
    }
}

/// What the steps through a container from `i` on add to a package. One that the reader cannot
/// get to is a member that cannot be read.
pub open spec fn members_from(image: Seq<u8>, i: nat, p: PackageView) -> core::result::Result<
    PackageView,
    ErrorView,
>
    decreases image.len() + 1 - i,
{
    if 0 < i && i >= image.len() {
        Ok(p)
    } else if !step_readable(image, i) {
        Err(archive_error("could not read an ar member"@))
    } else {
        match ar_step(image, i) {
            None => Ok(p),
            Some(ArStepView::Failed) => Err(archive_error("could not read an ar member"@)),
            Some(ArStepView::Unreadable { name }) => Err(
                archive_error("could not read member `"@ + name + "`"@),
            ),
            Some(ArStepView::Member { name, bytes }) => match member_read(p, name, bytes) {
                Err(e) => Err(e),
                Ok(next) => members_from(image, i + 1, next),
            },
        }
    }
}

/// What a container holds.
pub open spec fn package_read(image: Seq<u8>) -> core::result::Result<PackageView, ErrorView> {
    members_from(image, 0, empty_package())
}

/// Reads one member into a package.
pub fn read_member(before: Package, name: String, bytes: Vec<u8>) -> (r: Result<Package>)
    ensures
        settled(r) == member_read(before@, name@, bytes@),
{
    let mut package = before;
    proof {
        views_push(package.members@, name);
    }
    package.members.push(name.clone());
    match strip_prefix(name.as_str(), "control.tar") {
        Some(stem) => {
            let compression = match compression_for(stem.as_str()) {
                Err(e) => {
                    return Err(e);
                },
                Ok(c) => c,
            };
            return match decompress(compression, &bytes) {
                Err(e) => Err(e),
                Ok(image) => read_control_tar(&image, package),
            };
        },
        None => {},
    }
    match strip_prefix(name.as_str(), "data.tar") {
        Some(stem) => {
            let compression = match compression_for(stem.as_str()) {
                Err(e) => {
                    return Err(e);
                },
                Ok(c) => c,
            };
            match decompress(compression, &bytes) {
                Err(e) => Err(e),
                Ok(image) => read_data_tar(&image, package),
            }
        },
        None => Ok(package),
    }
}

/// Reads a package. A member whose name stands past the end of the name table is one that cannot
/// be read.
pub fn parse(bytes: &[u8]) -> (r: Result<Package>)
    ensures
        settled(r) == package_read(bytes@),
{
    let mut package = Package::default();
    let mut archive = ArReader::new(bytes);
    let limit: usize = bytes.len();
    let mut i: usize = 0;
    loop
        invariant_except_break
            ar_place(archive) == (bytes@, i as nat),
        invariant
            limit == bytes@.len(),
            i <= limit || i <= 1,
            package_read(bytes@) == members_from(bytes@, i as nat, package@),
        ensures
            package_read(bytes@) == Ok::<PackageView, ErrorView>(package@),
        decreases limit + 1 - i,
    {
        if 0 < i && i >= limit {
            break;
        }
        if !is_step_readable(bytes, i) {
            return Err(
                Error::because("could not read an ar member".to_owned(), NO_NAME.to_owned()),
            );
        }
        match archive.next() {
            None => {
                break;
            },
            Some(ArStep::Failed { error }) => {
                return Err(Error::archive("could not read an ar member".to_owned(), &error));
            },
            Some(ArStep::Unreadable { name, error }) => {
                let mut m = "could not read member `".to_owned();
                m.append(name.as_str());
                m.append("`");
                return Err(Error::archive(m, &error));
            },
            Some(ArStep::Member { name, bytes }) => match read_member(package, name, bytes) {
                Err(e) => {
                    return Err(e);
                },
                Ok(next) => {
                    package = next;
                },
            },
        }
        i = i + 1;
    }
    Ok(package)
}

// ---- laws -----------------------------------------------------------------------------

/// A member's ending names its compression, and no other ending does.
pub proof fn endings_name_their_compression(suffix: Seq<char>)
    ensures
        compressor_for(suffix) == Ok::<Compression, ErrorView>(Compression::Stored) <==> suffix
            == ""@,
        compressor_for(suffix) == Ok::<Compression, ErrorView>(Compression::Gzip) <==> suffix
            == ".gz"@,
        compressor_for(suffix) == Ok::<Compression, ErrorView>(Compression::Xz) <==> suffix
            == ".xz"@,
        compressor_for(suffix) == Ok::<Compression, ErrorView>(Compression::Zstd) <==> suffix
            == ".zst"@,
{
    reveal_strlit("");
    reveal_strlit(".gz");
    reveal_strlit(".xz");
    reveal_strlit(".zst");
    assert(""@.len() == 0);
    assert(".gz"@.len() == 3 && ".gz"@[1] == 'g');
    assert(".xz"@.len() == 3 && ".xz"@[1] == 'x');
    assert(".zst"@.len() == 4);
}

/// Paths are counted one by one.
pub proof fn paths_are_counted_one_by_one(a: Seq<Seq<char>>, x: Seq<char>, path: Seq<char>)
    ensures
        count_of(Seq::empty(), path) == 0,
        count_of(a.push(x), path) == count_of(a, path) + (if x == path {
            1nat
        } else {
            0
        }),
        count_of(a, path) > 0 <==> a.contains(path),
    decreases a.len(),
{
    assert(a.push(x).drop_last() =~= a);
    if a.len() > 0 {
        let init = a.drop_last();
        paths_are_counted_one_by_one(init, x, path);
        assert(a =~= init.push(a.last()));
        if a.contains(path) {
            let k = a.index_of(path);
            if k < init.len() {
                assert(init[k] == path);
            }
        }
        if init.contains(path) {
            let k = init.index_of(path);
            assert(a[k] == path);
        }
        assert(a[a.len() - 1] == a.last());
    }
}

proof fn inserting_keeps_the_order(list: Seq<Seq<char>>, x: Seq<char>)
    requires
        forall|i: int, j: int| 0 <= i < j < list.len() ==> !less(#[trigger] list[j], #[trigger] list[i]),
    ensures
        inserted(list, x).to_multiset() == list.to_multiset().insert(x),
        inserted(list, x).len() == list.len() + 1,
        forall|k: int|
            0 <= k < inserted(list, x).len() ==> (list.contains(#[trigger] inserted(list, x)[k])
                || inserted(list, x)[k] == x),
        forall|i: int, j: int|
            0 <= i < j < inserted(list, x).len() ==> !less(
                #[trigger] inserted(list, x)[j],
                #[trigger] inserted(list, x)[i],
            ),
    decreases list.len(),
{
    broadcast use vstd::seq_lib::group_to_multiset_ensures;

    let out = inserted(list, x);
    if list.len() > 0 && less(x, list.last()) {
        let init = list.drop_last();
        let last = list.last();
        assert forall|i: int, j: int| 0 <= i < j < init.len() implies !less(
            #[trigger] init[j],
            #[trigger] init[i],
        ) by {
            assert(init[i] == list[i] && init[j] == list[j]);
        }
        inserting_keeps_the_order(init, x);
        let before = inserted(init, x);
        assert(list =~= init.push(last));
        assert(out =~= before.push(last));
        assert(init.to_multiset().insert(x).insert(last) =~= init.to_multiset().insert(
            last,
        ).insert(x));
        assert forall|k: int| 0 <= k < out.len() implies (list.contains(#[trigger] out[k])
            || out[k] == x) by {
            if k < before.len() {
                assert(out[k] == before[k]);
                if init.contains(before[k]) {
                    let m = init.index_of(before[k]);
                    assert(list[m] == before[k]);
                }
            } else {
                assert(list[list.len() - 1] == out[k]);
            }
        }
        assert forall|i: int, j: int| 0 <= i < j < out.len() implies !less(
            #[trigger] out[j],
            #[trigger] out[i],
        ) by {
            if j < before.len() {
                assert(out[i] == before[i] && out[j] == before[j]);
            } else {
                assert(out[j] == last);
                assert(out[i] == before[i]);
                if before[i] == x {
                    if less(last, x) {
                        less_transitive(last, x, last);
                        less_irreflexive(last);
                    }
                } else {
                    let m = init.index_of(before[i]);
                    assert(list[m] == before[i]);
                    assert(list[list.len() - 1] == last);
                }
            }
        }
    } else {
        assert(out =~= list.push(x));
        assert forall|k: int| 0 <= k < out.len() implies (list.contains(#[trigger] out[k])
            || out[k] == x) by {
            if k < list.len() {
                assert(list[k] == out[k]);
            }
        }
        assert forall|i: int, j: int| 0 <= i < j < out.len() implies !less(
            #[trigger] out[j],
            #[trigger] out[i],
        ) by {
            if j < list.len() {
                assert(out[i] == list[i] && out[j] == list[j]);
            } else {
                assert(out[i] == list[i]);
                let last = list[list.len() - 1];
                if less(x, out[i]) {
                    if i < list.len() - 1 {
                        assert(!less(last, list[i]));
                        less_total(last, list[i]);
                        if last != list[i] {
                            less_transitive(x, list[i], last);
                        }
                    }
                }
            }
        }
    }
}

/// Sorting keeps every text, as often as it was there, and puts none after a later one.
pub proof fn sorting_keeps_and_orders(list: Seq<Seq<char>>)
    ensures
        sorted_texts(list).to_multiset() == list.to_multiset(),
        forall|i: int, j: int|
            0 <= i < j < sorted_texts(list).len() ==> !less(
                #[trigger] sorted_texts(list)[j],
                #[trigger] sorted_texts(list)[i],
            ),
    decreases list.len(),
{
    broadcast use vstd::seq_lib::group_to_multiset_ensures;

    if list.len() > 0 {
        let init = list.drop_last();
        sorting_keeps_and_orders(init);
        inserting_keeps_the_order(sorted_texts(init), list.last());
        assert(list =~= init.push(list.last()));
    } else {
        assert(list =~= Seq::empty());
        assert(sorted_texts(list) =~= Seq::empty());
    }
}

} // verus!
