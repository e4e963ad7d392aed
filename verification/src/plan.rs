//! The build plan: the sole contract between this crate and the format backends.
//!
//! A plan describes what a package contains without saying how any format encodes it.
//! Content is lazy: a regular file records its source path and length, not its bytes.
//! Everything reproducibility needs (one timestamp, sorted entries, explicit ownership and
//! mode) is in the plan, so no backend implements it.

use vstd::prelude::*;

use crate::architecture::Architecture;
use crate::destination::{
    ancestor_form, ancestor_is_prefix, ancestors_nest, ancestors_of, destination_form,
    form_is_its_parts, link_target, parts_of,
};
use crate::error::{opt, outcome, Error, ErrorView, Result};
use crate::strings::{
    ascending, bare, clean_line, join, joined, less, less_irreflexive, less_total, less_transitive,
    lines, lines_of, lines_of_unlines, precedes, split_at_char, split_concat, split_whole, strip,
    stripped, text_holds, texts_hold_their_pieces, trim, trimmed, trimming_takes_the_blanks,
    unlines, views, views_push,
};
use crate::strmap::StrMap;
use crate::timestamp::Timestamp;

pub use crate::destination::Destination;

verus! {

/// Installed-size allowance per file: round up to a whole kibibyte (`KIB - 1` is the bias) and
/// charge one more (`OVERHEAD_KIB`). `dpkg` counts per-file overhead, and a plain byte sum
/// badly understates a tree of thousands of small files.
pub const BYTES_PER_FILE_OVERHEAD: u64 = 2047;

pub const OVERHEAD_KIB: u64 = 1;

pub const KIB: u64 = 1024;

#[derive(Debug, PartialEq, Eq)]
pub enum EntryKind {
    Regular,
    Directory,
    Symlink {
        /// As it should be stored, computed by [`Destination::link_target_from`].
        target: String,
    },
}

pub enum EntryKindView {
    Regular,
    Directory,
    Symlink { target: Seq<char> },
}

impl View for EntryKind {
    type V = EntryKindView;

    open spec fn view(&self) -> EntryKindView {
        match *self {
            EntryKind::Regular => EntryKindView::Regular,
            EntryKind::Directory => EntryKindView::Directory,
            EntryKind::Symlink { target } => EntryKindView::Symlink { target: target@ },
        }
    }
}

impl Clone for EntryKind {
    fn clone(&self) -> (r: Self)
        ensures
            r@ == self@,
    {
        match self {
            EntryKind::Regular => EntryKind::Regular,
            EntryKind::Directory => EntryKind::Directory,
            EntryKind::Symlink { target } => EntryKind::Symlink { target: target.clone() },
        }
    }
}

/// Where an entry's bytes come from: application files reference their source; generated files
/// (scripts, units, the control file) carry their bytes.
#[derive(Debug, PartialEq, Eq)]
pub enum FileContent {
    FromPath {
        path: String,
        /// Recorded at plan time, so a backend can detect a source that changed underneath it.
        len: u64,
    },
    Inline(Vec<u8>),
    /// Directories and symlinks.
    Absent,
}

pub enum FileContentView {
    FromPath { path: Seq<char>, len: u64 },
    Inline(Seq<u8>),
    Absent,
}

impl View for FileContent {
    type V = FileContentView;

    open spec fn view(&self) -> FileContentView {
        match *self {
            FileContent::FromPath { path, len } => FileContentView::FromPath { path: path@, len },
            FileContent::Inline(bytes) => FileContentView::Inline(bytes@),
            FileContent::Absent => FileContentView::Absent,
        }
    }
}

impl FileContentView {
    /// The length the plan records.
    pub open spec fn length(self) -> nat {
        match self {
            FileContentView::FromPath { path, len } => len as nat,
            FileContentView::Inline(bytes) => bytes.len(),
            FileContentView::Absent => 0,
        }
    }
}

/// A copy of some bytes.
pub fn copy_bytes(bytes: &Vec<u8>) -> (r: Vec<u8>)
    ensures
        r@ == bytes@,
{
    let r = bytes.clone();
    assert(r@ =~= bytes@);
    r
}

impl FileContent {
    pub fn len(&self) -> (n: u64)
        ensures
            n == self@.length(),
    {
        match self {
            FileContent::FromPath { path, len } => *len,
            FileContent::Inline(bytes) => bytes.len() as u64,
            FileContent::Absent => 0,
        }
    }

    pub fn is_empty(&self) -> (b: bool)
        ensures
            b == (self@.length() == 0),
    {
        self.len() == 0
    }
}

impl Clone for FileContent {
    fn clone(&self) -> (r: Self)
        ensures
            r@ == self@,
    {
        match self {
            FileContent::FromPath { path, len } => FileContent::FromPath {
                path: path.clone(),
                len: *len,
            },
            FileContent::Inline(bytes) => FileContent::Inline(copy_bytes(bytes)),
            FileContent::Absent => FileContent::Absent,
        }
    }
}

/// One thing the package installs.
#[derive(Debug, PartialEq, Eq)]
pub struct PlannedFile {
    pub destination: Destination,
    pub kind: EntryKind,
    pub content: FileContent,
    /// Permission bits, without file-type bits.
    pub mode: u32,
    /// Whether the target's package manager should preserve local edits to this file.
    pub is_config: bool,
}

/// A planned entry as plain values.
pub struct PlannedFileView {
    pub destination: Seq<char>,
    pub kind: EntryKindView,
    pub content: FileContentView,
    pub mode: u32,
    pub is_config: bool,
}

impl View for PlannedFile {
    type V = PlannedFileView;

    open spec fn view(&self) -> PlannedFileView {
        PlannedFileView {
            destination: self.destination@,
            kind: self.kind@,
            content: self.content@,
            mode: self.mode,
            is_config: self.is_config,
        }
    }
}

/// The entry of a directory nobody planned by hand.
pub open spec fn directory_entry(destination: Seq<char>) -> PlannedFileView {
    PlannedFileView {
        destination,
        kind: EntryKindView::Directory,
        content: FileContentView::Absent,
        mode: PlannedFile::MODE_DIRECTORY,
        is_config: false,
    }
}

impl PlannedFile {
    pub const MODE_EXECUTABLE: u32 = 0o755;

    pub const MODE_REGULAR: u32 = 0o644;

    pub const MODE_DIRECTORY: u32 = 0o755;

    pub const MODE_SYMLINK: u32 = 0o777;

    pub fn from_source(destination: Destination, path: String, len: u64, executable: bool) -> (f:
        Self)
        ensures
            f@ == (PlannedFileView {
                destination: destination@,
                kind: EntryKindView::Regular,
                content: FileContentView::FromPath { path: path@, len },
                mode: if executable {
                    Self::MODE_EXECUTABLE
                } else {
                    Self::MODE_REGULAR
                },
                is_config: false,
            }),
    {
        PlannedFile {
            destination,
            kind: EntryKind::Regular,
            content: FileContent::FromPath { path, len },
            mode: if executable {
                Self::MODE_EXECUTABLE
            } else {
                Self::MODE_REGULAR
            },
            is_config: false,
        }
    }

    pub fn inline(destination: Destination, bytes: Vec<u8>, mode: u32) -> (f: Self)
        ensures
            f@ == (PlannedFileView {
                destination: destination@,
                kind: EntryKindView::Regular,
                content: FileContentView::Inline(bytes@),
                mode,
                is_config: false,
            }),
    {
        PlannedFile {
            destination,
            kind: EntryKind::Regular,
            content: FileContent::Inline(bytes),
            mode,
            is_config: false,
        }
    }

    pub fn directory(destination: Destination) -> (f: Self)
        ensures
            f@ == directory_entry(destination@),
    {
        PlannedFile {
            destination,
            kind: EntryKind::Directory,
            content: FileContent::Absent,
            mode: Self::MODE_DIRECTORY,
            is_config: false,
        }
    }

    /// A symlink, with its target normalised per Debian policy.
    pub fn symlink(destination: Destination, target: &Destination) -> (f: Self)
        ensures
            f@ == (PlannedFileView {
                destination: destination@,
                kind: EntryKindView::Symlink { target: link_target(destination@, target@) },
                content: FileContentView::Absent,
                mode: Self::MODE_SYMLINK,
                is_config: false,
            }),
    {
        let stored = destination.link_target_from(target);
        Self::symlink_to(destination, stored)
    }

    /// A symlink whose stored target is supplied verbatim. Prefer [`PlannedFile::symlink`],
    /// which applies the relativity policy.
    pub fn symlink_to(destination: Destination, target: String) -> (f: Self)
        ensures
            f@ == (PlannedFileView {
                destination: destination@,
                kind: EntryKindView::Symlink { target: target@ },
                content: FileContentView::Absent,
                mode: Self::MODE_SYMLINK,
                is_config: false,
            }),
    {
        PlannedFile {
            destination,
            kind: EntryKind::Symlink { target },
            content: FileContent::Absent,
            mode: Self::MODE_SYMLINK,
            is_config: false,
        }
    }

    pub fn is_symlink(&self) -> (b: bool)
        ensures
            b == (self@.kind is Symlink),
    {
        match &self.kind {
            EntryKind::Symlink { target } => true,
            _ => false,
        }
    }

    pub fn is_directory(&self) -> (b: bool)
        ensures
            b == (self@.kind is Directory),
    {
        match &self.kind {
            EntryKind::Directory => true,
            _ => false,
        }
    }

    pub fn as_config(self) -> (f: Self)
        ensures
            f@ == (PlannedFileView { is_config: true, ..self@ }),
    {
        PlannedFile {
            destination: self.destination,
            kind: self.kind,
            content: self.content,
            mode: self.mode,
            is_config: true,
        }
    }

    pub fn is_regular(&self) -> (b: bool)
        ensures
            b == (self@.kind is Regular),
    {
        match &self.kind {
            EntryKind::Regular => true,
            _ => false,
        }
    }
}

impl Clone for PlannedFile {
    fn clone(&self) -> (r: Self)
        ensures
            r@ == self@,
    {
        PlannedFile {
            destination: self.destination.clone(),
            kind: self.kind.clone(),
            content: self.content.clone(),
            mode: self.mode,
            is_config: self.is_config,
        }
    }
}

/// A copy of a list of entries.
pub fn copy_files(files: &Vec<PlannedFile>) -> (r: Vec<PlannedFile>)
    ensures
        views(r@) == views(files@),
{
    let mut out: Vec<PlannedFile> = Vec::new();
    let mut i: usize = 0;
    while i < files.len()
        invariant
            i <= files@.len(),
            views(out@) == views(files@).take(i as int),
        decreases files@.len() - i,
    {
        let file = files[i].clone();
        proof {
            views_push(out@, file);
            assert(views(files@).take(i + 1) =~= views(files@).take(i as int).push(file@));
        }
        out.push(file);
        i = i + 1;
    }
    assert(views(files@).take(i as int) =~= views(files@));
    out
}

/// A package description, split the way both target formats want it.
#[derive(Debug, PartialEq, Eq)]
pub struct Description {
    /// First line: Debian's `Description:` value and RPM's `Summary`.
    pub synopsis: String,
    /// Remaining lines, empty when there are none.
    pub body: String,
}

pub struct DescriptionView {
    pub synopsis: Seq<char>,
    pub body: Seq<char>,
}

impl View for Description {
    type V = DescriptionView;

    open spec fn view(&self) -> DescriptionView {
        DescriptionView { synopsis: self.synopsis@, body: self.body@ }
    }
}

impl Clone for Description {
    fn clone(&self) -> (r: Self)
        ensures
            r@ == self@,
    {
        Description { synopsis: self.synopsis.clone(), body: self.body.clone() }
    }
}

/// The first line trimmed; the rest without blank lines at either end.
pub open spec fn description_of(raw: Seq<char>) -> core::result::Result<
    DescriptionView,
    ErrorView,
> {
    let all = lines_of(raw);
    if all.len() == 0 || trimmed(all[0]).len() == 0 {
        Err(
            ErrorView::Manifest {
                message: "description is empty; both package formats require a synopsis"@,
            },
        )
    } else {
        Ok(
            DescriptionView {
                synopsis: trimmed(all[0]),
                body: stripped(joined(all.skip(1), "\n"@), '\n'),
            },
        )
    }
}

impl Description {
    /// Refuses empty or whitespace-only text: both formats require a synopsis.
    pub fn split(raw: &str) -> (r: Result<Self>)
        ensures
            outcome(r) == description_of(raw@),
    {
        let mut all = lines(raw);
        let ghost every = views(all@);
        if all.len() == 0 {
            return Err(
                Error::manifest(
                    "description is empty; both package formats require a synopsis".to_owned(),
                ),
            );
        }
        let first = all.remove(0);
        assert(first@ == every[0]);
        assert(views(all@) =~= every.skip(1));
        let synopsis = trim(first.as_str());
        if synopsis.as_str().is_empty() {
            return Err(
                Error::manifest(
                    "description is empty; both package formats require a synopsis".to_owned(),
                ),
            );
        }
        let rest = join(&all, "\n");
        Ok(Description { synopsis, body: strip(rest.as_str(), '\n') })
    }
}

/// Who the package is, independent of how it is encoded.
#[derive(Debug, PartialEq, Eq)]
pub struct Identity {
    pub package_name: String,
    /// Epoch included.
    pub version_deb: String,
    pub version_rpm: String,
    pub release_rpm: String,
    /// Carried separately for formats with their own epoch field.
    pub epoch: Option<u32>,
    pub description: Description,
    pub maintainer: String,
    pub architecture: Architecture,
    pub dependencies: Option<String>,
    pub homepage: Option<String>,
    pub license: Option<String>,
}

pub struct IdentityView {
    pub package_name: Seq<char>,
    pub version_deb: Seq<char>,
    pub version_rpm: Seq<char>,
    pub release_rpm: Seq<char>,
    pub epoch: Option<u32>,
    pub description: DescriptionView,
    pub maintainer: Seq<char>,
    pub architecture: Architecture,
    pub dependencies: Option<Seq<char>>,
    pub homepage: Option<Seq<char>>,
    pub license: Option<Seq<char>>,
}

impl View for Identity {
    type V = IdentityView;

    open spec fn view(&self) -> IdentityView {
        IdentityView {
            package_name: self.package_name@,
            version_deb: self.version_deb@,
            version_rpm: self.version_rpm@,
            release_rpm: self.release_rpm@,
            epoch: self.epoch,
            description: self.description@,
            maintainer: self.maintainer@,
            architecture: self.architecture,
            dependencies: opt(self.dependencies),
            homepage: opt(self.homepage),
            license: opt(self.license),
        }
    }
}

/// A copy of an optional text.
pub fn copy_text(text: &Option<String>) -> (r: Option<String>)
    ensures
        opt(r) == opt(*text),
{
    match text {
        Some(s) => Some(s.clone()),
        None => None,
    }
}

impl Clone for Identity {
    fn clone(&self) -> (r: Self)
        ensures
            r@ == self@,
    {
        Identity {
            package_name: self.package_name.clone(),
            version_deb: self.version_deb.clone(),
            version_rpm: self.version_rpm.clone(),
            release_rpm: self.release_rpm.clone(),
            epoch: self.epoch,
            description: self.description.clone(),
            maintainer: self.maintainer.clone(),
            architecture: self.architecture,
            dependencies: copy_text(&self.dependencies),
            homepage: copy_text(&self.homepage),
            license: copy_text(&self.license),
        }
    }
}

/// Provenance of the plan itself.
#[derive(Debug, PartialEq, Eq)]
pub struct PlanMetadata {
    pub generator: String,
    pub generator_version: String,
}

pub struct PlanMetadataView {
    pub generator: Seq<char>,
    pub generator_version: Seq<char>,
}

impl View for PlanMetadata {
    type V = PlanMetadataView;

    open spec fn view(&self) -> PlanMetadataView {
        PlanMetadataView {
            generator: self.generator@,
            generator_version: self.generator_version@,
        }
    }
}

impl Clone for PlanMetadata {
    fn clone(&self) -> (r: Self)
        ensures
            r@ == self@,
    {
        PlanMetadata {
            generator: self.generator.clone(),
            generator_version: self.generator_version.clone(),
        }
    }
}

/// Everything a backend needs to emit a package.
#[derive(Debug, PartialEq, Eq)]
pub struct BuildPlan {
    pub identity: Identity,
    /// Sorted by destination, no duplicates, every ancestor directory present.
    pub files: Vec<PlannedFile>,
    /// One timestamp for every entry.
    pub timestamp: Timestamp,
    pub metadata: PlanMetadata,
}

pub struct BuildPlanView {
    pub identity: IdentityView,
    pub files: Seq<PlannedFileView>,
    pub timestamp: u64,
    pub metadata: PlanMetadataView,
}

impl View for BuildPlan {
    type V = BuildPlanView;

    open spec fn view(&self) -> BuildPlanView {
        BuildPlanView {
            identity: self.identity@,
            files: views(self.files@),
            timestamp: self.timestamp@,
            metadata: self.metadata@,
        }
    }
}

impl Clone for BuildPlan {
    fn clone(&self) -> (r: Self)
        ensures
            r@ == self@,
    {
        BuildPlan {
            identity: self.identity.clone(),
            files: copy_files(&self.files),
            timestamp: self.timestamp,
            metadata: self.metadata.clone(),
        }
    }
}

// ---- what a complete plan is ----------------------------------------------------------

/// The destinations of some entries.
pub open spec fn dests(fs: Seq<PlannedFileView>) -> Seq<Seq<char>> {
    Seq::new(fs.len(), |i: int| fs[i].destination)
}

/// Whether an entry has this destination.
pub open spec fn present(fs: Seq<PlannedFileView>, d: Seq<char>) -> bool {
    exists|i: int| 0 <= i < fs.len() && (#[trigger] fs[i]).destination == d
}

/// Whether two entries have this destination.
pub open spec fn claimed_twice(fs: Seq<PlannedFileView>, d: Seq<char>) -> bool {
    exists|i: int, j: int|
        0 <= i < j < fs.len() && (#[trigger] fs[i]).destination == d && (
        #[trigger] fs[j]).destination == d
}

/// Whether something other than a directory has this destination.
pub open spec fn blocks(fs: Seq<PlannedFileView>, a: Seq<char>) -> bool {
    exists|i: int|
        0 <= i < fs.len() && (#[trigger] fs[i]).destination == a && !(fs[i].kind is Directory)
}

/// Whether the entry at `d` lives inside `a`, which is no directory.
pub open spec fn obstructed(fs: Seq<PlannedFileView>, d: Seq<char>, a: Seq<char>) -> bool {
    present(fs, d) && ancestors_of(d).contains(a) && blocks(fs, a)
}

/// Whether a plan can be made of these entries.
pub open spec fn plannable(fs: Seq<PlannedFileView>) -> bool {
    &&& forall|d: Seq<char>| !claimed_twice(fs, d)
    &&& forall|d: Seq<char>, a: Seq<char>| !obstructed(fs, d, a)
}

/// A directory that holds an entry and is none itself.
pub open spec fn missing_directory(fs: Seq<PlannedFileView>, a: Seq<char>) -> bool {
    !present(fs, a) && exists|i: int|
        0 <= i < fs.len() && ancestors_of((#[trigger] fs[i]).destination).contains(a)
}

/// `out` is `fs` and an ordinary directory entry for every missing ancestor, ascending by
/// destination.
pub open spec fn completes(fs: Seq<PlannedFileView>, out: Seq<PlannedFileView>) -> bool {
    &&& ascending(dests(out))
    &&& forall|f: PlannedFileView|
        #[trigger] out.contains(f) <==> fs.contains(f) || (f == directory_entry(f.destination)
            && missing_directory(fs, f.destination))
}

/// The first destination claimed twice, in order.
pub open spec fn first_claimed_twice(fs: Seq<PlannedFileView>, d: Seq<char>) -> bool {
    claimed_twice(fs, d) && forall|x: Seq<char>| #[trigger]
        claimed_twice(fs, x) ==> !less(x, d)
}

/// The first obstructed entry, in order, and the outermost thing in its way.
pub open spec fn first_obstructed(
    fs: Seq<PlannedFileView>,
    d: Seq<char>,
    a: Seq<char>,
) -> bool {
    &&& obstructed(fs, d, a)
    &&& forall|x: Seq<char>, y: Seq<char>| #[trigger] obstructed(fs, x, y) ==> !less(x, d)
    &&& forall|y: Seq<char>| #[trigger] obstructed(fs, d, y) ==> !less(y, a)
}

pub open spec fn twice_error(d: Seq<char>) -> ErrorView {
    ErrorView::Manifest {
        message: "two entries claim the destination `"@ + d
            + "`; refusing to guess which should win"@,
    }
}

pub open spec fn obstruction_error(a: Seq<char>, d: Seq<char>) -> ErrorView {
    ErrorView::Manifest {
        message: "`"@ + a + "` must be a directory, because `"@ + d
            + "` lives inside it, but the plan places a file there; a path cannot be both"@,
    }
}

/// Why no plan can be made: the first destination claimed twice, else the first obstruction.
pub open spec fn unplannable(fs: Seq<PlannedFileView>, e: ErrorView) -> bool {
    ||| exists|d: Seq<char>| #[trigger] first_claimed_twice(fs, d) && e == twice_error(d)
    ||| (forall|d: Seq<char>| !claimed_twice(fs, d)) && exists|d: Seq<char>, a: Seq<char>|
        #[trigger] first_obstructed(fs, d, a) && e == obstruction_error(a, d)
}

/// An ancestor is no longer than what it holds and comes before it, so the ancestors of a path
/// ascend.
proof fn ancestors_ascend(d: Seq<char>, i: int, j: int)
    requires
        destination_form(d),
        0 <= i < j < ancestors_of(d).len(),
    ensures
        less(ancestors_of(d)[i], ancestors_of(d)[j]),
{
    ancestor_form(d, j);
    ancestors_nest(d, j);
    let a = ancestors_of(d)[j];
    assert(ancestors_of(a)[i] == ancestors_of(d)[i]);
    ancestor_is_prefix(a, i);
}

/// Merges two ascending lists with no destination in common.
fn merge_files(a: Vec<PlannedFile>, b: Vec<PlannedFile>) -> (out: Vec<PlannedFile>)
    requires
        ascending(dests(views(a@))),
        ascending(dests(views(b@))),
        forall|i: int, j: int|
            0 <= i < a@.len() && 0 <= j < b@.len() ==> (#[trigger] a@[i]).destination@ != (
            #[trigger] b@[j]).destination@,
    ensures
        ascending(dests(views(out@))),
        forall|f: PlannedFileView| #[trigger]
            views(out@).contains(f) <==> views(a@).contains(f) || views(b@).contains(f),
{
    let ghost va = views(a@);
    let ghost vb = views(b@);
    let ghost da = dests(va);
    let ghost db = dests(vb);
    assert forall|i: int, j: int| 0 <= i < da.len() && 0 <= j < db.len() implies #[trigger] da[i]
        != #[trigger] db[j] by {
        assert(a@[i].destination@ != b@[j].destination@);
    }
    let mut left = a;
    let mut right = b;
    let mut rev: Vec<PlannedFile> = Vec::new();
    while left.len() > 0 || right.len() > 0
        invariant
            left@.len() <= va.len(),
            right@.len() <= vb.len(),
            views(left@) == va.take(left@.len() as int),
            views(right@) == vb.take(right@.len() as int),
            da == dests(va),
            db == dests(vb),
            ascending(da),
            ascending(db),
            forall|i: int, j: int|
                0 <= i < da.len() && 0 <= j < db.len() ==> #[trigger] da[i] != #[trigger] db[j],
            forall|i: int, j: int|
                0 <= i < j < rev@.len() ==> less(
                    (#[trigger] rev@[j]).destination@,
                    (#[trigger] rev@[i]).destination@,
                ),
            forall|i: int, j: int|
                0 <= i < left@.len() && 0 <= j < rev@.len() ==> less(
                    #[trigger] da[i],
                    (#[trigger] rev@[j]).destination@,
                ),
            forall|i: int, j: int|
                0 <= i < right@.len() && 0 <= j < rev@.len() ==> less(
                    #[trigger] db[i],
                    (#[trigger] rev@[j]).destination@,
                ),
            forall|j: int|
                0 <= j < rev@.len() ==> va.contains((#[trigger] rev@[j])@) || vb.contains(
                    rev@[j]@,
                ),
            forall|i: int| left@.len() <= i < va.len() ==> views(rev@).contains(#[trigger] va[i]),
            forall|i: int| right@.len() <= i < vb.len() ==> views(rev@).contains(#[trigger] vb[i]),
        decreases left@.len() + right@.len(),
    {
        let take_right = if left.len() == 0 {
            true
        } else if right.len() == 0 {
            false
        } else {
            precedes(
                left[left.len() - 1].destination.as_str(),
                right[right.len() - 1].destination.as_str(),
            )
        };
        let ghost before = rev@;
        let ghost ll = left@.len();
        let ghost rl = right@.len();
        proof {
            if ll > 0 {
                assert(views(left@)[ll - 1] == va[ll - 1]);
                assert(da[ll - 1] == left@[ll - 1].destination@);
            }
            if rl > 0 {
                assert(views(right@)[rl - 1] == vb[rl - 1]);
                assert(db[rl - 1] == right@[rl - 1].destination@);
            }
            if ll > 0 && rl > 0 {
                less_total(da[ll - 1], db[rl - 1]);
                assert(da[ll - 1] != db[rl - 1]);
            }
        }
        if take_right {
            match right.pop() {
                Some(file) => {
                    proof {
                        assert(file@ == vb[rl - 1]);
                        assert(file.destination@ == db[rl - 1]);
                        assert(views(right@) =~= vb.take(right@.len() as int));
                        assert forall|i: int| 0 <= i < ll implies less(
                            #[trigger] da[i],
                            file.destination@,
                        ) by {
                            if i < ll - 1 {
                                less_transitive(da[i], da[ll - 1], db[rl - 1]);
                            }
                        }
                        views_push(rev@, file);
                        assert(vb[rl - 1] == file@);
                        assert forall|x: PlannedFileView| views(before).contains(x) implies views(
                            before.push(file),
                        ).contains(x) by {
                            let k = views(before).index_of(x);
                            assert(views(before.push(file))[k] == x);
                        }
                        assert(views(before.push(file))[before.len() as int] == file@);
                    }
                    rev.push(file);
                },
                None => {},
            }
        } else {
            match left.pop() {
                Some(file) => {
                    proof {
                        assert(file@ == va[ll - 1]);
                        assert(file.destination@ == da[ll - 1]);
                        assert(views(left@) =~= va.take(left@.len() as int));
                        assert forall|i: int| 0 <= i < rl implies less(
                            #[trigger] db[i],
                            file.destination@,
                        ) by {
                            if i < rl - 1 {
                                less_transitive(db[i], db[rl - 1], da[ll - 1]);
                            }
                        }
                        views_push(rev@, file);
                        assert forall|x: PlannedFileView| views(before).contains(x) implies views(
                            before.push(file),
                        ).contains(x) by {
                            let k = views(before).index_of(x);
                            assert(views(before.push(file))[k] == x);
                        }
                        assert(views(before.push(file))[before.len() as int] == file@);
                    }
                    rev.push(file);
                },
                None => {},
            }
        }
    }
    let ghost descending = rev@;
    let ghost n = rev@.len();
    let mut out: Vec<PlannedFile> = Vec::new();
    while rev.len() > 0
        invariant
            rev@.len() + out@.len() == n,
            n == descending.len(),
            rev@ == descending.take(rev@.len() as int),
            forall|i: int| 0 <= i < out@.len() ==> #[trigger] out@[i] == descending[n - 1 - i],
        decreases rev@.len(),
    {
        match rev.pop() {
            Some(file) => {
                assert(rev@ =~= descending.take(rev@.len() as int));
                out.push(file);
            },
            None => {},
        }
    }
    proof {
        let vo = views(out@);
        assert forall|i: int, j: int| 0 <= i < j < dests(vo).len() implies less(
            #[trigger] dests(vo)[i],
            #[trigger] dests(vo)[j],
        ) by {
            assert(out@[i] == descending[n - 1 - i]);
            assert(out@[j] == descending[n - 1 - j]);
        }
        assert forall|f: PlannedFileView| #[trigger] vo.contains(f) <==> va.contains(f)
            || vb.contains(f) by {
            if vo.contains(f) {
                let i = vo.index_of(f);
                assert(out@[i] == descending[n - 1 - i]);
                assert(descending[n - 1 - i]@ == f);
            }
            if va.contains(f) || vb.contains(f) {
                if va.contains(f) {
                    assert(va[va.index_of(f)] == f);
                } else {
                    assert(vb[vb.index_of(f)] == f);
                }
                assert(views(descending).contains(f));
                let k = views(descending).index_of(f);
                assert(out@[n - 1 - k] == descending[k]);
                assert(vo[n - 1 - k] == f);
            }
        }
    }
    out
}

/// `table` holds these entries by destination.
spec fn indexed(table: StrMap<PlannedFile>, fs: Seq<PlannedFileView>) -> bool {
    &&& forall|k: Seq<char>| #[trigger] table@.dom().contains(k) <==> present(fs, k)
    &&& forall|k: Seq<char>| #[trigger]
        table@.dom().contains(k) ==> table@[k]@.destination == k && fs.contains(table@[k]@)
}

proof fn present_push(fs: Seq<PlannedFileView>, f: PlannedFileView, k: Seq<char>)
    ensures
        present(fs.push(f), k) <==> present(fs, k) || f.destination == k,
{
    if present(fs, k) {
        let i = choose|i: int| 0 <= i < fs.len() && (#[trigger] fs[i]).destination == k;
        assert(fs.push(f)[i].destination == k);
    }
    if f.destination == k {
        assert(fs.push(f)[fs.len() as int].destination == k);
    }
    if present(fs.push(f), k) {
        let i = choose|i: int|
            0 <= i < fs.push(f).len() && (#[trigger] fs.push(f)[i]).destination == k;
        if i < fs.len() {
            assert(fs[i].destination == k);
        }
    }
}

proof fn twice_push(fs: Seq<PlannedFileView>, f: PlannedFileView, k: Seq<char>)
    ensures
        claimed_twice(fs.push(f), k) <==> claimed_twice(fs, k) || (f.destination == k && present(
            fs,
            k,
        )),
{
    let more = fs.push(f);
    if claimed_twice(fs, k) {
        let (i, j) = choose|i: int, j: int|
            0 <= i < j < fs.len() && (#[trigger] fs[i]).destination == k && (
            #[trigger] fs[j]).destination == k;
        assert(more[i].destination == k && more[j].destination == k);
    }
    if f.destination == k && present(fs, k) {
        let i = choose|i: int| 0 <= i < fs.len() && (#[trigger] fs[i]).destination == k;
        assert(more[i].destination == k && more[fs.len() as int].destination == k);
    }
    if claimed_twice(more, k) {
        let (i, j) = choose|i: int, j: int|
            0 <= i < j < more.len() && (#[trigger] more[i]).destination == k && (
            #[trigger] more[j]).destination == k;
        assert(fs[i].destination == k);
        if j < fs.len() {
            assert(fs[j].destination == k);
        }
    }
}

/// Indexes entries by destination, refusing the first destination claimed twice.
fn index_files(files: Vec<PlannedFile>) -> (r: Result<StrMap<PlannedFile>>)
    ensures
        match r {
            Ok(table) => (forall|d: Seq<char>| !claimed_twice(views(files@), d)) && indexed(
                table,
                views(files@),
            ),
            Err(e) => exists|d: Seq<char>| #[trigger]
                first_claimed_twice(views(files@), d) && e@ == twice_error(d),
        },
{
    let ghost fs = views(files@);
    let mut table: StrMap<PlannedFile> = StrMap::new();
    let mut twice: Option<Destination> = None;
    for file in it: files
        invariant
            fs == views(it.seq()),
            indexed(table, fs.take(it.index() as int)),
            match twice {
                None => forall|d: Seq<char>| !claimed_twice(fs.take(it.index() as int), d),
                Some(d) => first_claimed_twice(fs.take(it.index() as int), d@),
            },
    {
        let ghost n = it.index() as int;
        let ghost seen = fs.take(n);
        proof {
            assert(fs[n] == file@);
            assert(fs.take(n + 1) =~= seen.push(file@));
            assert forall|k: Seq<char>| #[trigger]
                present(fs.take(n + 1), k) <==> present(seen, k) || file@.destination == k by {
                present_push(seen, file@, k);
            }
            assert forall|k: Seq<char>| #[trigger]
                claimed_twice(fs.take(n + 1), k) <==> claimed_twice(seen, k) || (
            file@.destination == k && present(seen, k)) by {
                twice_push(seen, file@, k);
            }
            assert forall|f: PlannedFileView| seen.contains(f) implies fs.take(n + 1).contains(
                f,
            ) by {
                let i = seen.index_of(f);
                assert(fs.take(n + 1)[i] == f);
            }
            assert(fs.take(n + 1)[n] == file@);
        }
        if table.contains_key(file.destination.as_str()) {
            let lower = match &twice {
                None => true,
                Some(d) => precedes(file.destination.as_str(), d.as_str()),
            };
            proof {
                less_irreflexive(file@.destination);
                if twice is Some {
                    let d = twice->0@;
                    less_total(file@.destination, d);
                    assert forall|x: Seq<char>| #[trigger]
                        claimed_twice(fs.take(n + 1), x) implies !less(
                        x,
                        if lower {
                            file@.destination
                        } else {
                            d
                        },
                    ) by {
                        if claimed_twice(seen, x) && lower {
                            if less(x, file@.destination) {
                                less_transitive(x, file@.destination, d);
                            }
                        }
                    }
                }
            }
            if lower {
                twice = Some(file.destination);
            }
        } else {
            let key = file.destination.as_str().to_owned();
            table.insert(key, file);
        }
    }
    proof {
        assert(fs.take(fs.len() as int) =~= fs);
    }
    match twice {
        Some(d) => {
            let mut m = "two entries claim the destination `".to_owned();
            m.append(d.as_str());
            m.append("`; refusing to guess which should win");
            Err(Error::manifest(m))
        },
        None => Ok(table),
    }
}

/// Without double claims the table holds every entry at its destination.
proof fn indexed_exactly(table: StrMap<PlannedFile>, fs: Seq<PlannedFileView>, i: int)
    requires
        indexed(table, fs),
        forall|d: Seq<char>| !claimed_twice(fs, d),
        0 <= i < fs.len(),
    ensures
        table@.dom().contains(fs[i].destination),
        table@[fs[i].destination]@ == fs[i],
{
    let d = fs[i].destination;
    assert(present(fs, d));
    assert(table@.dom().contains(d));
    let j = fs.index_of(table@[d]@);
    assert(fs[j] == table@[d]@);
    assert(!claimed_twice(fs, d));
    if i < j {
        assert(fs[i].destination == d && fs[j].destination == d);
    }
    if j < i {
        assert(fs[j].destination == d && fs[i].destination == d);
    }
}

/// The ordinary directory entries for the ancestors nobody planned. Fails when an ancestor is
/// already occupied by something that is not a directory: every archive writer would accept
/// both entries, and unpacking would silently replace the file.
fn missing_directories(
    table: &StrMap<PlannedFile>,
    Ghost(fs): Ghost<Seq<PlannedFileView>>,
) -> (r: Result<StrMap<PlannedFile>>)
    requires
        indexed(*table, fs),
        forall|d: Seq<char>| !claimed_twice(fs, d),
    ensures
        match r {
            Ok(m) => {
                &&& forall|d: Seq<char>, a: Seq<char>| !obstructed(fs, d, a)
                &&& forall|k: Seq<char>| #[trigger]
                    m@.dom().contains(k) <==> missing_directory(fs, k)
                &&& forall|k: Seq<char>| #[trigger]
                    m@.dom().contains(k) ==> m@[k]@ == directory_entry(k)
            },
            Err(e) => exists|d: Seq<char>, a: Seq<char>| #[trigger]
                first_obstructed(fs, d, a) && e@ == obstruction_error(a, d),
        },
{
    let mut missing: StrMap<PlannedFile> = StrMap::new();
    let count = table.len();
    let ghost keys = table.keys();
    let mut i: usize = 0;
    while i < count
        invariant
            i <= count,
            count == keys.len(),
            keys == table.keys(),
            ascending(keys),
            table.agrees(),
            indexed(*table, fs),
            forall|d: Seq<char>| !claimed_twice(fs, d),
            forall|j: int, a: Seq<char>|
                0 <= j < i && #[trigger] ancestors_of(keys[j]).contains(a) ==> !blocks(fs, a),
            forall|k: Seq<char>| #[trigger]
                missing@.dom().contains(k) <==> !present(fs, k) && exists|j: int|
                    0 <= j < i && ancestors_of(#[trigger] keys[j]).contains(k),
            forall|k: Seq<char>| #[trigger]
                missing@.dom().contains(k) ==> missing@[k]@ == directory_entry(k),
        decreases count - i,
    {
        let file = table.value_at(i);
        let ghost d = keys[i as int];
        assert(table@[d] == *file);
        assert(file.destination@ == d);
        let dirs = file.destination.ancestors();
        let ghost above = ancestors_of(d);
        let own = file.destination.as_str();
        let mut n: usize = 0;
        while n < dirs.len()
            invariant
                n <= dirs@.len(),
                i < count,
                count == keys.len(),
                keys == table.keys(),
                ascending(keys),
                table.agrees(),
                indexed(*table, fs),
                forall|d: Seq<char>| !claimed_twice(fs, d),
                d == keys[i as int],
                own@ == d,
                destination_form(d),
                above == ancestors_of(d),
                views(dirs@) == above,
                forall|j: int, a: Seq<char>|
                    0 <= j < i && #[trigger] ancestors_of(keys[j]).contains(a) ==> !blocks(fs, a),
                forall|m: int| 0 <= m < n ==> !blocks(fs, #[trigger] above[m]),
                forall|k: Seq<char>| #[trigger]
                    missing@.dom().contains(k) <==> !present(fs, k) && ((exists|j: int|
                        0 <= j < i && ancestors_of(#[trigger] keys[j]).contains(k)) || above.take(
                        n as int,
                    ).contains(k)),
                forall|k: Seq<char>| #[trigger]
                    missing@.dom().contains(k) ==> missing@[k]@ == directory_entry(k),
            decreases dirs@.len() - n,
        {
            let dir = &dirs[n];
            let ghost a = above[n as int];
            assert(dir@ == a);
            proof {
                assert(above.take(n + 1) =~= above.take(n as int).push(a));
                assert forall|k: Seq<char>| #[trigger]
                    above.take(n + 1).contains(k) <==> above.take(n as int).contains(k) || k
                        == a by {
                    if above.take(n as int).contains(k) {
                        let m = above.take(n as int).index_of(k);
                        assert(above.take(n + 1)[m] == k);
                    }
                    assert(above.take(n + 1)[n as int] == a);
                    if above.take(n + 1).contains(k) && k != a {
                        let m = above.take(n + 1).index_of(k);
                        assert(above.take(n as int)[m] == k);
                    }
                }
            }
            match table.get(dir.as_str()) {
                Some(entry) => {
                    assert(table@[a] == *entry);
                    assert(present(fs, a));
                    if !entry.is_directory() {
                        proof {
                            let j = fs.index_of(entry@);
                            assert(fs[j] == entry@);
                            assert(blocks(fs, a));
                            assert(above.contains(a)) by {
                                assert(above[n as int] == a);
                            }
                            assert(table@.dom().contains(d));
                            assert(obstructed(fs, d, a));
                            assert forall|x: Seq<char>, y: Seq<char>| #[trigger]
                                obstructed(fs, x, y) implies !less(x, d) by {
                                assert(table@.dom().contains(x));
                                assert(keys.contains(x));
                                let q = keys.index_of(x);
                                assert(keys[q] == x);
                                if q < i {
                                    assert(ancestors_of(keys[q]).contains(y));
                                } else {
                                    less_irreflexive(d);
                                    if i < q {
                                        less_total(d, x);
                                        assert(less(keys[i as int], keys[q]));
                                    }
                                }
                            }
                            assert forall|y: Seq<char>| #[trigger] obstructed(fs, d, y) implies !less(
                                y,
                                a,
                            ) by {
                                let m = above.index_of(y);
                                assert(above[m] == y);
                                assert(m >= n);
                                less_irreflexive(a);
                                if m > n {
                                    ancestors_ascend(d, n as int, m);
                                    less_total(a, y);
                                }
                            }
                            assert(first_obstructed(fs, d, a));
                        }
                        let mut m = "`".to_owned();
                        m.append(dir.as_str());
                        m.append("` must be a directory, because `");
                        m.append(own);
                        m.append(
                            "` lives inside it, but the plan places a file there; a path cannot be both",
                        );
                        return Err(Error::manifest(m));
                    }
                    proof {
                        assert(!blocks(fs, a)) by {
                            if blocks(fs, a) {
                                let j = choose|j: int|
                                    0 <= j < fs.len() && (#[trigger] fs[j]).destination == a && !(
                                    fs[j].kind is Directory);
                                indexed_exactly(*table, fs, j);
                            }
                        }
                    }
                },
                None => {
                    proof {
                        assert(!present(fs, a));
                        assert(!blocks(fs, a)) by {
                            if blocks(fs, a) {
                                let j = choose|j: int|
                                    0 <= j < fs.len() && (#[trigger] fs[j]).destination == a && !(
                                    fs[j].kind is Directory);
                                assert(present(fs, a));
                            }
                        }
                    }
                    let key = dir.as_str().to_owned();
                    missing.insert(key, PlannedFile::directory(dir.clone()));
                },
            }
            n = n + 1;
        }
        proof {
            assert(above.take(n as int) =~= above);
            assert forall|j: int, a: Seq<char>|
                0 <= j < i + 1 && #[trigger] ancestors_of(keys[j]).contains(a) implies !blocks(
                fs,
                a,
            ) by {
                if j == i {
                    let m = above.index_of(a);
                    assert(above[m] == a);
                }
            }
            assert forall|k: Seq<char>|
                (exists|j: int| 0 <= j < i + 1 && ancestors_of(#[trigger] keys[j]).contains(k)) <==> (
                exists|j: int| 0 <= j < i && ancestors_of(#[trigger] keys[j]).contains(k))
                    || #[trigger] above.contains(k) by {
                if above.contains(k) {
                    assert(ancestors_of(keys[i as int]).contains(k));
                }
            }
        }
        i = i + 1;
    }
    proof {
        assert forall|d: Seq<char>, a: Seq<char>| !obstructed(fs, d, a) by {
            if obstructed(fs, d, a) {
                assert(table@.dom().contains(d));
                assert(keys.contains(d));
                let j = keys.index_of(d);
                assert(ancestors_of(keys[j]).contains(a));
            }
        }
        assert forall|k: Seq<char>| #[trigger] missing@.dom().contains(k) <==> missing_directory(
            fs,
            k,
        ) by {
            if missing@.dom().contains(k) {
                let j = choose|j: int|
                    0 <= j < i && ancestors_of(#[trigger] keys[j]).contains(k);
                assert(table@.dom().contains(keys[j]));
                assert(present(fs, keys[j]));
                let q = choose|q: int|
                    0 <= q < fs.len() && (#[trigger] fs[q]).destination == keys[j];
                assert(ancestors_of(fs[q].destination).contains(k));
            }
            if missing_directory(fs, k) {
                let q = choose|q: int|
                    0 <= q < fs.len() && ancestors_of((#[trigger] fs[q]).destination).contains(k);
                assert(present(fs, fs[q].destination));
                assert(table@.dom().contains(fs[q].destination));
                let j = keys.index_of(fs[q].destination);
                assert(ancestors_of(keys[j]).contains(k));
            }
        }
    }
    Ok(missing)
}

/// The values of a table keyed by destination ascend.
proof fn values_ascend(table: StrMap<PlannedFile>)
    requires
        ascending(table.keys()),
        table.agrees(),
        forall|k: Seq<char>| #[trigger]
            table@.dom().contains(k) ==> table@[k]@.destination == k,
    ensures
        dests(views(table.values())) == table.keys(),
        ascending(dests(views(table.values()))),
        forall|f: PlannedFileView| #[trigger]
            views(table.values()).contains(f) <==> table@.dom().contains(f.destination)
                && table@[f.destination]@ == f,
{
    let vs = views(table.values());
    assert forall|i: int| 0 <= i < vs.len() implies #[trigger] dests(vs)[i] == table.keys()[i] by {
        assert(table@.dom().contains(table.keys()[i]));
        assert(table@[table.keys()[i]] == table.values()[i]);
    }
    assert(dests(vs) =~= table.keys());
    assert forall|f: PlannedFileView| #[trigger] vs.contains(f) <==> table@.dom().contains(
        f.destination,
    ) && table@[f.destination]@ == f by {
        if vs.contains(f) {
            let i = vs.index_of(f);
            assert(dests(vs)[i] == f.destination);
            assert(table@[table.keys()[i]] == table.values()[i]);
        }
        if table@.dom().contains(f.destination) && table@[f.destination]@ == f {
            assert(table.keys().contains(f.destination));
            let i = table.keys().index_of(f.destination);
            assert(table@[table.keys()[i]] == table.values()[i]);
            assert(vs[i] == f);
        }
    }
}

impl BuildPlan {
    /// Every entry is written as root. Stating ownership in the plan is what removes the
    /// `fakeroot` dependency.
    pub const UID: u32 = 0;

    pub const GID: u32 = 0;

    /// Sorts entries, rejects duplicate destinations, and adds every ancestor directory.
    pub fn new(
        identity: Identity,
        files: Vec<PlannedFile>,
        timestamp: Timestamp,
        metadata: PlanMetadata,
    ) -> (r: Result<Self>)
        ensures
            match r {
                Ok(plan) => {
                    &&& plannable(views(files@))
                    &&& completes(views(files@), plan@.files)
                    &&& plan@.identity == identity@
                    &&& plan@.timestamp == timestamp@
                    &&& plan@.metadata == metadata@
                },
                Err(e) => !plannable(views(files@)) && unplannable(views(files@), e@),
            },
    {
        let ghost fs = views(files@);
        let table = match index_files(files) {
            Ok(table) => table,
            Err(e) => {
                proof {
                    let d = choose|d: Seq<char>| #[trigger]
                        first_claimed_twice(fs, d) && e@ == twice_error(d);
                    assert(claimed_twice(fs, d));
                }
                return Err(e);
            },
        };
        let missing = match missing_directories(&table, Ghost(fs)) {
            Ok(missing) => missing,
            Err(e) => {
                proof {
                    let (d, a) = choose|d: Seq<char>, a: Seq<char>| #[trigger]
                        first_obstructed(fs, d, a) && e@ == obstruction_error(a, d);
                    assert(obstructed(fs, d, a));
                }
                return Err(e);
            },
        };
        let planned = table.len();
        let added = missing.len();
        proof {
            values_ascend(table);
            values_ascend(missing);
            assert forall|i: int, j: int|
                0 <= i < table.values().len() && 0 <= j < missing.values().len() implies (
            #[trigger] table.values()[i]).destination@ != (
            #[trigger] missing.values()[j]).destination@ by {
                assert(dests(views(table.values()))[i] == table.values()[i].destination@);
                assert(dests(views(missing.values()))[j] == missing.values()[j].destination@);
                assert(table@.dom().contains(table.keys()[i]));
                assert(missing@.dom().contains(missing.keys()[j]));
            }
        }
        let ghost first = table;
        let ghost second = missing;
        let all = merge_files(table.into_values(), missing.into_values());
        proof {
            assert forall|f: PlannedFileView| #[trigger] views(all@).contains(f) <==> fs.contains(f)
                || (f == directory_entry(f.destination) && missing_directory(
                fs,
                f.destination,
            )) by {
                assert(views(all@).contains(f) <==> views(first.values()).contains(f) || views(
                    second.values(),
                ).contains(f));
                if fs.contains(f) {
                    indexed_exactly(first, fs, fs.index_of(f));
                }
            }
        }
        Ok(BuildPlan { identity, files: all, timestamp, metadata })
    }
}

// ---- sizes and configuration ----------------------------------------------------------

/// What one entry adds to the installed size, in kibibytes; symlinks and directories add
/// nothing.
pub open spec fn entry_kib(f: PlannedFileView) -> nat {
    if f.kind is Regular {
        (f.content.length() + BYTES_PER_FILE_OVERHEAD as nat) / (KIB as nat)
    } else {
        0
    }
}

pub open spec fn size_kib(fs: Seq<PlannedFileView>) -> nat
    decreases fs.len(),
{
    if fs.len() == 0 {
        0
    } else {
        size_kib(fs.drop_last()) + entry_kib(fs.last())
    }
}

/// The entries marked as configuration, in order.
pub open spec fn config_entries(fs: Seq<PlannedFileView>) -> Seq<PlannedFileView>
    decreases fs.len(),
{
    if fs.len() == 0 {
        Seq::empty()
    } else if fs.last().is_config {
        config_entries(fs.drop_last()).push(fs.last())
    } else {
        config_entries(fs.drop_last())
    }
}

impl BuildPlan {
    /// Installed size in kibibytes with per-file overhead; symlinks and directories count
    /// nothing.
    pub fn installed_size_kib(&self) -> (n: u128)
        ensures
            n == size_kib(self@.files),
    {
        let count: usize = self.files.len();
        let mut n: u128 = 0;
        let mut i: usize = 0;
        let ghost fs = self@.files;
        while i < count
            invariant
                count == self.files@.len(),
                fs == views(self.files@),
                i <= count,
                n == size_kib(fs.take(i as int)),
                n <= (i as u128) * 0x40_0000_0000_0002,
            decreases count - i,
        {
            let file = &self.files[i];
            proof {
                assert(fs.take(i + 1).drop_last() =~= fs.take(i as int));
                assert(fs.take(i + 1).last() == file@);
            }
            if file.is_regular() {
                let len: u128 = file.content.len() as u128;
                let more: u128 = (len + BYTES_PER_FILE_OVERHEAD as u128) / (KIB as u128);
                assert(more == (len + 2047) / 1024);
                assert(more <= 0x40_0000_0000_0002);
                n = n + more;
            }
            i = i + 1;
        }
        assert(fs.take(i as int) =~= fs);
        n
    }

    pub fn config_files(&self) -> (r: Vec<&PlannedFile>)
        ensures
            views(r@) == config_entries(self@.files),
    {
        let mut out: Vec<&PlannedFile> = Vec::new();
        let mut i: usize = 0;
        let ghost fs = self@.files;
        assert(views(out@) =~= config_entries(fs.take(0)));
        while i < self.files.len()
            invariant
                fs == views(self.files@),
                i <= self.files@.len(),
                views(out@) == config_entries(fs.take(i as int)),
            decreases self.files@.len() - i,
        {
            let file = &self.files[i];
            proof {
                assert(fs.take(i + 1).drop_last() =~= fs.take(i as int));
                assert(fs.take(i + 1).last() == file@);
            }
            if file.is_config {
                proof {
                    views_push(out@, file);
                }
                out.push(file);
            }
            i = i + 1;
        }
        assert(fs.take(i as int) =~= fs);
        out
    }
}

// ---- laws -----------------------------------------------------------------------------

/// The allowance is a whole kibibyte rounded up, plus the overhead.
pub proof fn overhead_is_one_rounded_up_kibibyte(len: nat)
    ensures
        (len + BYTES_PER_FILE_OVERHEAD as nat) / (KIB as nat) == (len + (KIB as nat - 1) as nat) / (
        KIB as nat) + OVERHEAD_KIB as nat,
{
}

proof fn ascending_index(fs: Seq<PlannedFileView>, i: int, j: int)
    requires
        ascending(dests(fs)),
        0 <= i < fs.len(),
        0 <= j < fs.len(),
        less(fs[i].destination, fs[j].destination),
    ensures
        i < j,
{
    assert(dests(fs)[i] == fs[i].destination);
    assert(dests(fs)[j] == fs[j].destination);
    less_irreflexive(fs[i].destination);
    if j < i {
        assert(less(dests(fs)[j], dests(fs)[i]));
        less_total(fs[i].destination, fs[j].destination);
    }
}

/// Two ascending lists with the same entries are the same list.
proof fn same_entries_same_list(x: Seq<PlannedFileView>, y: Seq<PlannedFileView>)
    requires
        ascending(dests(x)),
        ascending(dests(y)),
        forall|f: PlannedFileView| x.contains(f) <==> y.contains(f),
    ensures
        x == y,
    decreases x.len(),
{
    if x.len() == 0 {
        if y.len() > 0 {
            assert(y.contains(y[0]));
        }
        assert(x =~= y);
    } else {
        let f = x.last();
        assert(x.contains(x[x.len() - 1]));
        assert(y.contains(f));
        let k = y.index_of(f);
        assert(y[k] == f);
        if k < y.len() - 1 {
            let g = y.last();
            assert(y.contains(y[y.len() - 1]));
            assert(x.contains(g));
            let m = x.index_of(g);
            assert(x[m] == g);
            assert(less(dests(y)[k], dests(y)[y.len() - 1]));
            assert(less(f.destination, g.destination));
            ascending_index(x, x.len() - 1, m);
        }
        let xi = x.drop_last();
        let yi = y.drop_last();
        assert(y.last() == f);
        assert forall|i: int, j: int| 0 <= i < j < dests(xi).len() implies less(
            #[trigger] dests(xi)[i],
            #[trigger] dests(xi)[j],
        ) by {
            assert(less(dests(x)[i], dests(x)[j]));
        }
        assert forall|i: int, j: int| 0 <= i < j < dests(yi).len() implies less(
            #[trigger] dests(yi)[i],
            #[trigger] dests(yi)[j],
        ) by {
            assert(less(dests(y)[i], dests(y)[j]));
        }
        assert forall|g: PlannedFileView| xi.contains(g) <==> yi.contains(g) by {
            init_contains(x, g);
            init_contains(y, g);
        }
        same_entries_same_list(xi, yi);
        assert(x =~= xi.push(f));
        assert(y =~= yi.push(f));
    }
}

proof fn init_contains(x: Seq<PlannedFileView>, g: PlannedFileView)
    requires
        x.len() > 0,
        ascending(dests(x)),
    ensures
        x.drop_last().contains(g) <==> x.contains(g) && g != x.last(),
{
    let xi = x.drop_last();
    if xi.contains(g) {
        let i = xi.index_of(g);
        assert(x[i] == g);
        assert(less(dests(x)[i], dests(x)[x.len() - 1]));
        less_irreflexive(g.destination);
    }
    if x.contains(g) && g != x.last() {
        let i = x.index_of(g);
        assert(x[i] == g);
        assert(xi[i] == g);
    }
}

/// The entries decide the plan: whatever order they come in, only one list completes them.
pub proof fn a_plan_is_unique(
    fs: Seq<PlannedFileView>,
    x: Seq<PlannedFileView>,
    y: Seq<PlannedFileView>,
)
    requires
        completes(fs, x),
        completes(fs, y),
    ensures
        x == y,
{
    assert forall|f: PlannedFileView| x.contains(f) <==> y.contains(f) by {
        assert(x.contains(f) <==> fs.contains(f) || (f == directory_entry(f.destination)
            && missing_directory(fs, f.destination)));
    }
    same_entries_same_list(x, y);
}

/// The list that completes some entries.
pub open spec fn completed(fs: Seq<PlannedFileView>) -> Seq<PlannedFileView> {
    choose|out: Seq<PlannedFileView>| completes(fs, out)
}

/// Whatever completes some entries is the list that does.
pub proof fn completed_is(fs: Seq<PlannedFileView>, out: Seq<PlannedFileView>)
    requires
        completes(fs, out),
    ensures
        completed(fs) == out,
{
    a_plan_is_unique(fs, completed(fs), out);
}

/// The destinations of real entries are in normal form.
pub open spec fn well_placed(fs: Seq<PlannedFileView>) -> bool {
    forall|i: int| 0 <= i < fs.len() ==> destination_form((#[trigger] fs[i]).destination)
}

proof fn present_by_contains(fs: Seq<PlannedFileView>, f: PlannedFileView)
    requires
        fs.contains(f),
    ensures
        present(fs, f.destination),
{
    let i = fs.index_of(f);
    assert(fs[i].destination == f.destination);
}

/// Every directory above an entry of a complete plan is in the plan, as a directory.
pub proof fn every_ancestor_is_planned(
    fs: Seq<PlannedFileView>,
    out: Seq<PlannedFileView>,
    f: PlannedFileView,
    a: Seq<char>,
)
    requires
        well_placed(fs),
        plannable(fs),
        completes(fs, out),
        out.contains(f),
        ancestors_of(f.destination).contains(a),
    ensures
        exists|g: PlannedFileView|
            #[trigger] out.contains(g) && g.destination == a && g.kind is Directory,
{
    let n = ancestors_of(f.destination).index_of(a);
    // The planned entry whose ancestor `a` is: `f` itself, or what made `f` necessary.
    let e = if fs.contains(f) {
        f
    } else {
        let i = choose|i: int|
            0 <= i < fs.len() && ancestors_of((#[trigger] fs[i]).destination).contains(
                f.destination,
            );
        fs[i]
    };
    if !fs.contains(f) {
        let i = choose|i: int|
            0 <= i < fs.len() && ancestors_of((#[trigger] fs[i]).destination).contains(
                f.destination,
            );
        assert(destination_form(fs[i].destination));
        let m = ancestors_of(e.destination).index_of(f.destination);
        assert(ancestors_of(e.destination)[m] == f.destination);
        ancestors_nest(e.destination, m);
        assert(ancestors_of(f.destination) == ancestors_of(e.destination).take(m));
        assert(ancestors_of(e.destination)[n] == a);
    }
    assert(fs.contains(e));
    let k = fs.index_of(e);
    assert(fs[k] == e);
    assert(ancestors_of(e.destination).contains(a)) by {
        assert(ancestors_of(e.destination)[n] == a);
    }
    if present(fs, a) {
        let j = choose|j: int| 0 <= j < fs.len() && (#[trigger] fs[j]).destination == a;
        assert(present(fs, e.destination));
        assert(!obstructed(fs, e.destination, a));
        if !(fs[j].kind is Directory) {
            assert(blocks(fs, a));
        }
        assert(fs.contains(fs[j]));
        assert(out.contains(fs[j]));
    } else {
        assert(missing_directory(fs, a));
        assert(out.contains(directory_entry(a)));
    }
}

/// Parents precede children: the directory above an entry stands earlier in the list.
pub proof fn parents_precede_children(out: Seq<PlannedFileView>, i: int, j: int)
    requires
        well_placed(out),
        ascending(dests(out)),
        0 <= i < out.len(),
        0 <= j < out.len(),
        ancestors_of(out[j].destination).contains(out[i].destination),
    ensures
        i < j,
{
    let d = out[j].destination;
    let n = ancestors_of(d).index_of(out[i].destination);
    assert(destination_form(out[j].destination));
    ancestor_is_prefix(d, n);
    ascending_index(out, i, j);
}

/// A complete plan holds every entry it was made of, unchanged.
pub proof fn planned_entries_are_kept(
    fs: Seq<PlannedFileView>,
    out: Seq<PlannedFileView>,
    f: PlannedFileView,
)
    requires
        completes(fs, out),
        fs.contains(f),
    ensures
        out.contains(f),
{
}

/// Completing a complete plan changes nothing.
pub proof fn completing_is_idempotent(fs: Seq<PlannedFileView>, out: Seq<PlannedFileView>)
    requires
        well_placed(fs),
        plannable(fs),
        completes(fs, out),
    ensures
        well_placed(out),
        plannable(out),
        completes(out, out),
{
    assert forall|i: int| 0 <= i < out.len() implies destination_form(
        (#[trigger] out[i]).destination,
    ) by {
        let f = out[i];
        assert(out.contains(f));
        if fs.contains(f) {
            let k = fs.index_of(f);
            assert(destination_form(fs[k].destination));
        } else {
            let q = choose|q: int|
                0 <= q < fs.len() && ancestors_of((#[trigger] fs[q]).destination).contains(
                    f.destination,
                );
            assert(destination_form(fs[q].destination));
            let m = ancestors_of(fs[q].destination).index_of(f.destination);
            ancestor_form(fs[q].destination, m);
        }
    }
    assert forall|d: Seq<char>| !claimed_twice(out, d) by {
        if claimed_twice(out, d) {
            let (i, j) = choose|i: int, j: int|
                0 <= i < j < out.len() && (#[trigger] out[i]).destination == d && (
                #[trigger] out[j]).destination == d;
            assert(less(dests(out)[i], dests(out)[j]));
            less_irreflexive(d);
        }
    }
    assert forall|d: Seq<char>, a: Seq<char>| !obstructed(out, d, a) by {
        if obstructed(out, d, a) {
            let i = choose|i: int| 0 <= i < out.len() && (#[trigger] out[i]).destination == d;
            assert(out.contains(out[i]));
            every_ancestor_is_planned(fs, out, out[i], a);
            let g = choose|g: PlannedFileView|
                #[trigger] out.contains(g) && g.destination == a && g.kind is Directory;
            let j = choose|j: int|
                0 <= j < out.len() && (#[trigger] out[j]).destination == a && !(
                out[j].kind is Directory);
            let k = out.index_of(g);
            assert(out[k] == g);
            less_irreflexive(a);
            if j < k {
                assert(less(dests(out)[j], dests(out)[k]));
            } else if k < j {
                assert(less(dests(out)[k], dests(out)[j]));
            }
        }
    }
    assert forall|f: PlannedFileView| #[trigger] out.contains(f) <==> out.contains(f) || (f
        == directory_entry(f.destination) && missing_directory(out, f.destination)) by {
        if missing_directory(out, f.destination) {
            let i = choose|i: int|
                0 <= i < out.len() && ancestors_of((#[trigger] out[i]).destination).contains(
                    f.destination,
                );
            assert(out.contains(out[i]));
            every_ancestor_is_planned(fs, out, out[i], f.destination);
            let g = choose|g: PlannedFileView|
                #[trigger] out.contains(g) && g.destination == f.destination
                    && g.kind is Directory;
            present_by_contains(out, g);
        }
    }
}

/// A description is its first line, trimmed, and the lines after it; one without a first line is
/// refused.
pub proof fn a_description_is_its_first_line_and_the_rest(lines: Seq<Seq<char>>, line: Seq<char>)
    requires
        forall|i: int| 0 <= i < lines.len() ==> clean_line(#[trigger] lines[i]),
        clean_line(line),
    ensures
        lines.len() > 0 && trimmed(lines[0]).len() > 0 ==> description_of(unlines(lines)) == Ok::<
            DescriptionView,
            ErrorView,
        >(
            DescriptionView {
                synopsis: trimmed(lines[0]),
                body: stripped(joined(lines.skip(1), "\n"@), '\n'),
            },
        ),
        lines.len() == 0 || trimmed(lines[0]).len() == 0 ==> description_of(unlines(lines)) is Err,
        line.len() > 0 && bare(line) ==> description_of(line) == Ok::<DescriptionView, ErrorView>(
            DescriptionView { synopsis: line, body: Seq::empty() },
        ),
        description_of(Seq::empty()) is Err,
{
    lines_of_unlines(lines);
    let none = Seq::<char>::empty();
    split_whole(line, '\n');
    split_whole(none, '\n');
    if line.len() > 0 && bare(line) {
        assert(lines_of(line) =~= seq![line]);
        assert(none + line + none =~= line);
        trimming_takes_the_blanks(none, line, none);
        assert(lines_of(line).skip(1) =~= Seq::<Seq<char>>::empty());
        assert(stripped(none, '\n') =~= none);
    }
    assert(lines_of(none) =~= Seq::<Seq<char>>::empty());
}

/// The installed size is counted file by file: each regular file takes its length, rounded up to
/// a whole kibibyte, and one more; links and directories take nothing.
pub proof fn the_installed_size_is_counted_file_by_file(
    a: Seq<PlannedFileView>,
    b: Seq<PlannedFileView>,
    f: PlannedFileView,
)
    ensures
        size_kib(Seq::empty()) == 0,
        size_kib(seq![f]) == (if f.kind is Regular {
            (f.content.length() + 1023) / 1024 + 1
        } else {
            0
        }),
        size_kib(a + b) == size_kib(a) + size_kib(b),
    decreases b.len(),
{
    assert(seq![f].drop_last() =~= Seq::empty());
    assert(size_kib(seq![f].drop_last()) == 0);
    if b.len() == 0 {
        assert(a + b =~= a);
    } else {
        the_installed_size_is_counted_file_by_file(a, b.drop_last(), f);
        assert((a + b).drop_last() =~= a + b.drop_last());
        assert((a + b).last() == b.last());
    }
}

/// The configuration files of a plan are its entries marked as such: all of them, none other, in
/// the plan's order.
pub proof fn configuration_files_are_the_marked_ones(
    a: Seq<PlannedFileView>,
    b: Seq<PlannedFileView>,
    f: PlannedFileView,
)
    ensures
        config_entries(a).contains(f) <==> a.contains(f) && f.is_config,
        config_entries(a + b) == config_entries(a) + config_entries(b),
    decreases a.len() + b.len(),
{
    if a.len() > 0 {
        configuration_files_are_the_marked_ones(a.drop_last(), Seq::empty(), f);
        let init = a.drop_last();
        let kept = config_entries(init);
        assert(a =~= init.push(a.last()));
        if config_entries(a).contains(f) {
            let i = config_entries(a).index_of(f);
            if i < kept.len() {
                assert(kept[i] == f);
                let k = init.index_of(f);
                assert(a[k] == f);
            } else {
                assert(a[a.len() - 1] == f);
            }
        }
        if a.contains(f) && f.is_config {
            let k = a.index_of(f);
            if k < init.len() {
                assert(init[k] == f);
                let i = kept.index_of(f);
                assert(config_entries(a)[i] == f);
            } else {
                assert(config_entries(a)[kept.len() as int] == f);
            }
        }
    }
    if b.len() == 0 {
        assert(a + b =~= a);
        assert(config_entries(a) + config_entries(b) =~= config_entries(a));
    } else {
        configuration_files_are_the_marked_ones(a, b.drop_last(), f);
        assert((a + b).drop_last() =~= a + b.drop_last());
        assert((a + b).last() == b.last());
        assert((config_entries(a) + config_entries(b.drop_last())).push(b.last())
            =~= config_entries(a) + config_entries(b.drop_last()).push(b.last()));
    }
}

/// A directory added for its contents can be entered and listed by everyone, written by its owner
/// alone, and holds nothing itself.
pub proof fn added_directories_are_ordinary(destination: Seq<char>)
    ensures
        ({
            let d = directory_entry(destination);
            &&& d.destination == destination
            &&& d.kind is Directory
            &&& d.content is Absent
            &&& d.mode == 0o755
            &&& !d.is_config
        }),
{
}

/// Nothing is guessed at: two entries at one place are refused, and so is an entry inside a file
/// or a link; the refusal names the places.
pub proof fn colliding_entries_are_refused(
    fs: Seq<PlannedFileView>,
    i: int,
    j: int,
    rest: Seq<char>,
    e: ErrorView,
)
    requires
        well_placed(fs),
        0 <= i < fs.len(),
        0 <= j < fs.len(),
    ensures
        i != j && fs[i].destination == fs[j].destination ==> !plannable(fs),
        fs[j].destination == fs[i].destination + seq!['/'] + rest && !(fs[i].kind is Directory)
            ==> !plannable(fs),
        unplannable(fs, e) ==> exists|k: int|
            0 <= k < fs.len() && text_holds(e.text(), (#[trigger] fs[k]).destination),
{
    let a = fs[i].destination;
    let d = fs[j].destination;
    if i != j && a == d {
        if i < j {
            assert(claimed_twice(fs, d));
        } else {
            assert(fs[j].destination == d && fs[i].destination == d);
            assert(claimed_twice(fs, d));
        }
    }
    if d == a + seq!['/'] + rest && !(fs[i].kind is Directory) {
        split_concat(a, rest, '/');
        assert(d =~= a.push('/') + rest);
        form_is_its_parts(a);
        let n = parts_of(a).len() as int;
        assert(parts_of(d) =~= parts_of(a) + split_at_char(rest, '/'));
        assert(parts_of(d).take(n) =~= parts_of(a));
        assert(split_at_char(rest, '/').len() > 0);
        assert(ancestors_of(d)[n - 1] == a);
        assert(blocks(fs, a));
        assert(present(fs, d));
        assert(obstructed(fs, d, a));
    }
    if unplannable(fs, e) {
        texts_hold_their_pieces();
        if exists|x: Seq<char>| #[trigger] first_claimed_twice(fs, x) && e == twice_error(x) {
            let x = choose|x: Seq<char>| #[trigger]
                first_claimed_twice(fs, x) && e == twice_error(x);
            assert(text_holds(e->Manifest_message, x));
            assert(text_holds(e.text(), x));
        } else {
            let (x, y) = choose|x: Seq<char>, y: Seq<char>| #[trigger]
                first_obstructed(fs, x, y) && e == obstruction_error(y, x);
            assert(obstructed(fs, x, y));
            assert(text_holds(e->Manifest_message, x));
            assert(text_holds(e.text(), x));
        }
    }
}

} // verus!
