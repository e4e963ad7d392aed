//! What a project tree holds, as it was read from disk.
//!
//! The caller reads the tree once; what is collected from it is decided on these records, so
//! nothing here touches the filesystem. Paths are canonical and absolute unless said otherwise.

use vstd::prelude::*;

use crate::error::{opt, Error, ErrorView, Result};
use crate::strings::{
    begins_with, chars_of, join_splits_back, joined, same, split, split_at_char, starts_with,
    string_of, views,
};

verus! {

/// What decides whether a file can be executed.
#[derive(Debug)]
pub struct FileFacts {
    /// Permission bits as the filesystem reports them.
    pub mode: u32,
    /// The first four bytes, or as many as could be read.
    pub head: Vec<u8>,
}

pub struct FileFactsView {
    pub mode: u32,
    pub head: Seq<u8>,
}

impl View for FileFacts {
    type V = FileFactsView;

    open spec fn view(&self) -> FileFactsView {
        FileFactsView { mode: self.mode, head: self.head@ }
    }
}

/// Where a symlink leads, every component followed.
#[derive(Debug)]
pub enum LinkTarget {
    /// Nothing is there.
    Dangling,
    /// Something is there, and its path could not be resolved.
    Unresolvable { reason: String },
    /// The resolved path, and what is known of the file there.
    Resolved { path: String, facts: Option<FileFacts> },
}

pub enum LinkTargetView {
    Dangling,
    Unresolvable { reason: Seq<char> },
    Resolved { path: Seq<char>, facts: Option<FileFactsView> },
}

impl View for LinkTarget {
    type V = LinkTargetView;

    open spec fn view(&self) -> LinkTargetView {
        match *self {
            LinkTarget::Dangling => LinkTargetView::Dangling,
            LinkTarget::Unresolvable { reason } => LinkTargetView::Unresolvable {
                reason: reason@,
            },
            LinkTarget::Resolved { path, facts } => LinkTargetView::Resolved {
                path: path@,
                facts: opt(facts),
            },
        }
    }
}

#[derive(Debug)]
pub enum NodeKind {
    Directory,
    /// A regular file; `modified` is in seconds since the epoch, zero for anything earlier.
    File { len: u64, modified: u64, facts: FileFacts },
    /// A regular file whose metadata could not be read.
    UnreadableFile { reason: String },
    Symlink(LinkTarget),
    /// A socket, a fifo or a device node.
    Special,
    /// Something the walk could not list.
    Failed { reason: String },
}

pub enum NodeKindView {
    Directory,
    File { len: u64, modified: u64, facts: FileFactsView },
    UnreadableFile { reason: Seq<char> },
    Symlink(LinkTargetView),
    Special,
    Failed { reason: Seq<char> },
}

impl View for NodeKind {
    type V = NodeKindView;

    open spec fn view(&self) -> NodeKindView {
        match *self {
            NodeKind::Directory => NodeKindView::Directory,
            NodeKind::File { len, modified, facts } => NodeKindView::File {
                len,
                modified,
                facts: facts@,
            },
            NodeKind::UnreadableFile { reason } => NodeKindView::UnreadableFile {
                reason: reason@,
            },
            NodeKind::Symlink(target) => NodeKindView::Symlink(target@),
            NodeKind::Special => NodeKindView::Special,
            NodeKind::Failed { reason } => NodeKindView::Failed { reason: reason@ },
        }
    }
}

/// One entry of the tree.
#[derive(Debug)]
pub struct Node {
    pub path: String,
    pub kind: NodeKind,
}

pub struct NodeView {
    pub path: Seq<char>,
    pub kind: NodeKindView,
}

impl View for Node {
    type V = NodeView;

    open spec fn view(&self) -> NodeView {
        NodeView { path: self.path@, kind: self.kind@ }
    }
}

/// Where a path the user named leads.
#[derive(Debug)]
pub enum Place {
    Missing,
    /// There, but `path` could not be resolved.
    Unresolvable { path: String, reason: String },
    At { path: String },
}

pub enum PlaceView {
    Missing,
    Unresolvable { path: Seq<char>, reason: Seq<char> },
    At { path: Seq<char> },
}

impl View for Place {
    type V = PlaceView;

    open spec fn view(&self) -> PlaceView {
        match *self {
            Place::Missing => PlaceView::Missing,
            Place::Unresolvable { path, reason } => PlaceView::Unresolvable {
                path: path@,
                reason: reason@,
            },
            Place::At { path } => PlaceView::At { path: path@ },
        }
    }
}

/// A path the user named, as typed, and where it leads.
#[derive(Debug)]
pub struct Input {
    pub label: String,
    pub place: Place,
}

pub struct InputView {
    pub label: Seq<char>,
    pub place: PlaceView,
}

impl View for Input {
    type V = InputView;

    open spec fn view(&self) -> InputView {
        InputView { label: self.label@, place: self.place@ }
    }
}

/// A project tree and the paths named in it.
#[derive(Debug)]
pub struct Survey {
    /// The project root.
    pub root: String,
    /// Every entry below the root, each directory before what it holds, names ascending.
    pub nodes: Vec<Node>,
    /// The inputs, relative to the root, in the order given.
    pub inputs: Vec<Input>,
    /// `package.json`, where it is a file.
    pub manifest: Option<Place>,
    /// `node_modules`, where it is a directory.
    pub dependencies: Option<Place>,
    /// The extra-files directory, where it is one.
    pub extra: Option<Place>,
    /// The declared workspace roots that exist.
    pub workspaces: Vec<String>,
}

pub struct SurveyView {
    pub root: Seq<char>,
    pub nodes: Seq<NodeView>,
    pub inputs: Seq<InputView>,
    pub manifest: Option<PlaceView>,
    pub dependencies: Option<PlaceView>,
    pub extra: Option<PlaceView>,
    pub workspaces: Seq<Seq<char>>,
}

impl View for Survey {
    type V = SurveyView;

    open spec fn view(&self) -> SurveyView {
        SurveyView {
            root: self.root@,
            nodes: views(self.nodes@),
            inputs: views(self.inputs@),
            manifest: opt(self.manifest),
            dependencies: opt(self.dependencies),
            extra: opt(self.extra),
            workspaces: views(self.workspaces@),
        }
    }
}

// ---- paths ----------------------------------------------------------------------------

/// `root` with the separator that leads into it.
pub open spec fn into_root(root: Seq<char>) -> Seq<char> {
    if root == "/"@ {
        root
    } else {
        root + "/"@
    }
}

/// Whether `path` is `root` or lies below it.
pub open spec fn within(root: Seq<char>, path: Seq<char>) -> bool {
    path == root || begins_with(path, into_root(root))
}

/// What follows `root` in a path below it.
pub open spec fn below(root: Seq<char>, path: Seq<char>) -> Seq<char> {
    path.skip(into_root(root).len() as int)
}

/// What lies within something within `root` lies within `root`.
pub proof fn within_is_transitive(root: Seq<char>, middle: Seq<char>, path: Seq<char>)
    requires
        within(root, middle),
        within(middle, path),
    ensures
        within(root, path),
{
    reveal_strlit("/");
    if middle != root && path != middle {
        let r = into_root(root);
        let m = into_root(middle);
        assert(m.take(middle.len() as int) =~= middle);
        assert(path.take(m.len() as int) =~= m);
        assert(path.take(r.len() as int) =~= m.take(r.len() as int));
        assert(m.take(r.len() as int) =~= middle.take(r.len() as int));
    }
}

/// `root` with the separator that leads into it.
pub fn entering(root: &str) -> (s: String)
    ensures
        s@ == into_root(root@),
{
    let mut s = root.to_owned();
    if !same(root, "/") {
        s.append("/");
    }
    s
}

/// Whether `path` is `root` or lies below it.
pub fn lies_within(root: &str, path: &str) -> (b: bool)
    ensures
        b == within(root@, path@),
{
    same(path, root) || starts_with(path, entering(root).as_str())
}

/// What follows `root` in a path below it.
pub fn relative_to(root: &str, path: &str) -> (s: String)
    requires
        begins_with(path@, into_root(root@)),
    ensures
        s@ == below(root@, path@),
{
    let lead = chars_of(entering(root).as_str());
    let all = chars_of(path);
    let s = string_of(&all, lead.len(), all.len());
    assert(s@ =~= below(root@, path@));
    s
}

/// Whether some component of `path` is `name`.
pub open spec fn has_component(path: Seq<char>, name: Seq<char>) -> bool {
    split_at_char(path, '/').contains(name)
}

/// Whether some component of `path` is `name`.
pub fn names_component(path: &str, name: &str) -> (b: bool)
    ensures
        b == has_component(path@, name@),
{
    let parts = split(path, '/');
    let ghost all = views(parts@);
    let mut i: usize = 0;
    while i < parts.len()
        invariant
            i <= parts@.len(),
            all == views(parts@),
            all == split_at_char(path@, '/'),
            forall|j: int| 0 <= j < i ==> #[trigger] all[j] != name@,
        decreases parts@.len() - i,
    {
        assert(all[i as int] == parts@[i as int]@);
        if same(parts[i].as_str(), name) {
            return true;
        }
        i = i + 1;
    }
    false
}

/// Whether the owner-executable bit is set. Group and other bits are an accident of the
/// developer's umask and must not reach a package.
pub open spec fn owner_executable(mode: u32) -> bool {
    (mode / 64) % 2 == 1
}

pub fn is_executable(mode: u32) -> (b: bool)
    ensures
        b == owner_executable(mode),
{
    assert((mode & 0o100 != 0) <==> (mode / 64) % 2 == 1) by (bit_vector);
    mode & 0o100 != 0
}

/// Whether a file's first bytes are `#!` or the ELF magic, which is what makes an executable
/// bit mean anything.
pub open spec fn runs(head: Seq<u8>) -> bool {
    ||| head.len() >= 2 && head[0] == 0x23 && head[1] == 0x21
    ||| head.len() >= 4 && head[0] == 0x7f && head[1] == 0x45 && head[2] == 0x4c && head[3] == 0x46
}

pub fn has_shebang(head: &Vec<u8>) -> (b: bool)
    ensures
        b == runs(head@),
{
    (head.len() >= 2 && head[0] == 0x23 && head[1] == 0x21) || (head.len() >= 4 && head[0] == 0x7f
        && head[1] == 0x45 && head[2] == 0x4c && head[3] == 0x46)
}

impl FileFactsView {
    /// Whether the kernel can execute the file.
    pub open spec fn runnable(self) -> bool {
        owner_executable(self.mode) && runs(self.head)
    }
}

impl FileFacts {
    /// Whether the kernel can execute the file.
    pub fn is_runnable(&self) -> (b: bool)
        ensures
            b == self@.runnable(),
    {
        is_executable(self.mode) && has_shebang(&self.head)
    }
}

/// Where a named path leads, refused when that is outside `root`.
pub open spec fn contained(root: Seq<char>, place: PlaceView, label: Seq<char>) -> core::result::Result<
    Seq<char>,
    ErrorView,
> {
    match place {
        PlaceView::Missing => Err(
            ErrorView::Manifest { message: "input `"@ + label + "` does not exist"@ },
        ),
        PlaceView::Unresolvable { path, reason } => Err(ErrorView::Io { path, source: reason }),
        PlaceView::At { path } => if within(root, path) {
            Ok(path)
        } else {
            Err(
                ErrorView::Manifest {
                    message: "`"@ + label + "` resolves to `"@ + path
                        + "`, which is outside the project; it escapes the package. Use the extra-files directory to place content from elsewhere"@,
                },
            )
        },
    }
}

/// The containment gate: where a named path leads, refused when that is outside `root`.
/// Every component was resolved, so a symlink in the middle of a path is caught here. `label`
/// is what the user typed.
pub fn canonical_within(root: &str, place: &Place, label: &str) -> (r: Result<String>)
    ensures
        crate::error::outcome(r) == contained(root@, place@, label@),
{
    match place {
        Place::Missing => {
            let mut m = "input `".to_owned();
            m.append(label);
            m.append("` does not exist");
            Err(Error::manifest(m))
        },
        Place::Unresolvable { path, reason } => Err(Error::io(path.clone(), reason.clone())),
        Place::At { path } => {
            if lies_within(root, path.as_str()) {
                Ok(path.clone())
            } else {
                let mut m = "`".to_owned();
                m.append(label);
                m.append("` resolves to `");
                m.append(path.as_str());
                m.append(
                    "`, which is outside the project; it escapes the package. Use the extra-files directory to place content from elsewhere",
                );
                Err(Error::manifest(m))
            }
        },
    }
}

// ---- laws -----------------------------------------------------------------------------

/// What lies below a directory begins with it and a separator: the directory itself and
/// everything after its separator lie within it, a sibling that merely begins alike does not.
pub proof fn siblings_are_not_within(root: Seq<char>, rest: Seq<char>)
    ensures
        within(root, root),
        within(root, root + "/"@ + rest),
        root != "/"@ && rest.len() > 0 && rest[0] != '/' ==> !within(root, root + rest),
        within("/"@, "/"@ + rest),
        root != "/"@ ==> below(root, root + "/"@ + rest) == rest,
{
    reveal_strlit("/");
    let path = root + "/"@ + rest;
    if root == "/"@ {
        assert(path.take(1) =~= "/"@);
    } else {
        assert(path.take(root.len() as int + 1) =~= root + "/"@);
        assert(below(root, path) =~= rest);
        if rest.len() > 0 && rest[0] != '/' {
            let other = root + rest;
            assert(other.len() != root.len());
            assert(other[root.len() as int] == rest[0]);
            assert((root + "/"@)[root.len() as int] == '/');
            if begins_with(other, root + "/"@) {
                assert(other.take(root.len() as int + 1)[root.len() as int] == other[root.len() as int]);
            }
        }
    }
    assert(("/"@ + rest).take(1) =~= "/"@);
}

/// A path has a component where one of the names between its separators is that one, whole.
pub proof fn components_are_whole_names(parts: Seq<Seq<char>>, name: Seq<char>)
    requires
        parts.len() > 0,
        forall|i: int| 0 <= i < parts.len() ==> !(#[trigger] parts[i]).contains('/'),
    ensures
        has_component(joined(parts, "/"@), name) <==> parts.contains(name),
{
    reveal_strlit("/");
    assert("/"@ =~= seq!['/']);
    join_splits_back(parts, '/');
}

/// A file can be executed where its owner may execute it and it begins with `#!` or as an ELF
/// file does; group and other bits, and the rest of the file, play no part.
pub proof fn running_takes_the_bit_and_the_magic(facts: FileFactsView)
    ensures
        facts.runnable() ==> (facts.mode / 64) % 2 == 1 && facts.head.len() >= 2,
        facts.head.len() >= 2 && facts.head[0] == 0x23 && facts.head[1] == 0x21 ==> (
        facts.runnable() <==> (facts.mode / 64) % 2 == 1),
        facts.head.len() >= 4 && facts.head[0] == 0x7f && facts.head[1] == 0x45 && facts.head[2]
            == 0x4c && facts.head[3] == 0x46 ==> (facts.runnable() <==> (facts.mode / 64) % 2 == 1),
        facts.head.len() >= 1 && facts.head[0] != 0x23 && facts.head[0] != 0x7f
            ==> !facts.runnable(),
        facts.head.len() >= 2 && facts.head[0] == 0x23 && facts.head[1] != 0x21
            ==> !facts.runnable(),
        facts.head.len() >= 1 && facts.head[0] == 0x7f && !(facts.head.len() >= 4 && facts.head[1]
            == 0x45 && facts.head[2] == 0x4c && facts.head[3] == 0x46) ==> !facts.runnable(),
{
}

/// A place is taken exactly where it exists, could be resolved and lies inside the root, and is
/// taken as it is.
pub proof fn places_inside_are_taken(root: Seq<char>, place: PlaceView, label: Seq<char>)
    ensures
        contained(root, place, label) is Ok <==> (place matches PlaceView::At { path } && within(
            root,
            path,
        )),
        contained(root, place, label) matches Ok(path) ==> place == (PlaceView::At { path }),
        place matches PlaceView::Unresolvable { path, reason } ==> contained(root, place, label)
            == Err::<Seq<char>, ErrorView>(ErrorView::Io { path, source: reason }),
{
}

} // verus!
