//! Turning the paths a user named into planned entries.
//!
//! Nothing is copied: this produces a list of records a backend streams from.
//!
//! Containment is structural rather than per case: every path that enters is canonical and
//! proved to be inside the project root, and canonical form is used for both the boundary check
//! and destination mapping.

use vstd::prelude::*;

use crate::architecture::{architecture_named, Architecture};
use crate::catalogue::selections_hold;
use crate::destination::{destination_of, link_target};
use crate::error::{opt, outcome, Error, ErrorView, Result};
use crate::npm::{InitSystem, InstallStrategy};
use crate::plan::{Destination, EntryKindView, FileContentView, PlannedFile, PlannedFileView};
use crate::resolve::{ResolvedConfig, ResolvedConfigView, Warning, WarningView};
use crate::strings::{
    begins_with, chars_of, lowercase, same, split, split_append, split_at_char, starts_with,
    string_of, to_lowercase, views, views_push,
};
use crate::strmap::StrMap;
use crate::survey::{
    below, canonical_within, contained, entering, has_component, into_root, lies_within,
    names_component, relative_to, within, within_is_transitive, LinkTarget, LinkTargetView, Node,
    NodeKind, NodeKindView, NodeView, PlaceView, Survey, SurveyView,
};

verus! {

pub const DEPENDENCY_DIR: &'static str = "node_modules";

pub const BIN_DIR: &'static str = "/usr/bin";

/// Anything landing here is a configuration file.
pub const CONFIG_PREFIX: &'static str = "/etc/";

pub open spec fn refusal(message: Seq<char>) -> ErrorView {
    ErrorView::Manifest { message }
}

// ---- what the configuration decides -----------------------------------------------------

/// Where the application's files go.
pub open spec fn app_root_of(c: ResolvedConfigView) -> Seq<char> {
    c.install_dir + "/"@ + c.package_name + "/app"@
}

pub fn app_root(config: &ResolvedConfig) -> (s: String)
    ensures
        s@ == app_root_of(config@),
{
    let mut s = config.install_dir.as_str().to_owned();
    s.append("/");
    s.append(config.package_name.as_str());
    s.append("/app");
    s
}

/// The destination of an entry point, when it can form one.
pub open spec fn entry_destination(root: Seq<char>, entry: Option<Seq<char>>) -> Option<Seq<char>> {
    match entry {
        None => None,
        Some(e) => match destination_of(root + "/"@ + e) {
            Ok(d) => Some(d),
            Err(_) => None,
        },
    }
}

/// Every destination something in the package executes directly, with what executes it. The
/// `/usr/bin` wrapper exists for every build; the service unit only with a service.
pub open spec fn executed_of(c: ResolvedConfigView) -> Seq<(Seq<char>, Seq<char>)> {
    let cli = entry_destination(app_root_of(c), c.cli_entrypoint);
    let daemon = entry_destination(app_root_of(c), c.daemon_entrypoint);
    (match cli {
        Some(d) => seq![(d, "the `/usr/bin` wrapper"@)],
        None => Seq::empty(),
    }) + (match daemon {
        Some(d) => if c.init is NoInit {
            Seq::empty()
        } else {
            seq![(d, "the service unit"@)]
        },
        None => Seq::empty(),
    })
}

/// The plain values of what is executed.
pub open spec fn executed_views(v: Seq<(String, &'static str)>) -> Seq<(Seq<char>, Seq<char>)> {
    v.map_values(|e: (String, &'static str)| (e.0@, e.1@))
}

fn normalised_entry(root: &str, entry: Option<&str>) -> (r: Option<String>)
    ensures
        opt(r) == entry_destination(root@, opt(entry)),
{
    match entry {
        None => None,
        Some(e) => {
            let mut path = root.to_owned();
            path.append("/");
            path.append(e);
            match Destination::new(path.as_str()) {
                Ok(d) => Some(d.as_str().to_owned()),
                Err(_) => None,
            }
        },
    }
}

/// Every destination something in the package executes directly, with what executes it.
/// Normalised as planned destinations are, because the two are compared. An entry point that
/// cannot form a destination is skipped; collection reports it on its own.
pub fn executed_destinations(config: &ResolvedConfig) -> (r: Vec<(String, &'static str)>)
    ensures
        executed_views(r@) == executed_of(config@),
{
    let root = app_root(config);
    let mut r: Vec<(String, &'static str)> = Vec::new();
    let cli = match &config.cli_entrypoint {
        Some(e) => normalised_entry(root.as_str(), Some(e.as_str())),
        None => None,
    };
    let daemon = match &config.daemon_entrypoint {
        Some(e) => normalised_entry(root.as_str(), Some(e.as_str())),
        None => None,
    };
    assert(opt(cli) == entry_destination(root@, config@.cli_entrypoint));
    assert(opt(daemon) == entry_destination(root@, config@.daemon_entrypoint));
    match cli {
        Some(d) => {
            r.push((d, "the `/usr/bin` wrapper"));
        },
        None => {},
    }
    if config.init != InitSystem::NoInit {
        match daemon {
            Some(d) => {
                r.push((d, "the service unit"));
            },
            None => {},
        }
    }
    assert(executed_views(r@) =~= executed_of(config@));
    r
}

/// The `/usr/bin` link and what it points at.
pub open spec fn executable_link(c: ResolvedConfigView) -> core::result::Result<
    PlannedFileView,
    ErrorView,
> {
    match destination_of(BIN_DIR@ + "/"@ + c.executable_name) {
        Err(e) => Err(e),
        Ok(link) => match destination_of(
            c.install_dir + "/"@ + c.package_name + "/bin/"@ + c.executable_name,
        ) {
            Err(e) => Err(e),
            Ok(target) => Ok(link_entry(link, target)),
        },
    }
}

pub open spec fn link_entry(link: Seq<char>, target: Seq<char>) -> PlannedFileView {
    PlannedFileView {
        destination: link,
        kind: EntryKindView::Symlink { target: link_target(link, target) },
        content: FileContentView::Absent,
        mode: PlannedFile::MODE_SYMLINK,
        is_config: false,
    }
}

pub fn executable_symlink(config: &ResolvedConfig) -> (r: Result<PlannedFile>)
    ensures
        outcome(r) == executable_link(config@),
{
    let mut at = BIN_DIR.to_owned();
    at.append("/");
    at.append(config.executable_name.as_str());
    let link = match Destination::new(at.as_str()) {
        Err(e) => {
            return Err(e);
        },
        Ok(d) => d,
    };
    let mut to = config.install_dir.as_str().to_owned();
    to.append("/");
    to.append(config.package_name.as_str());
    to.append("/bin/");
    to.append(config.executable_name.as_str());
    match Destination::new(to.as_str()) {
        Err(e) => Err(e),
        Ok(target) => Ok(PlannedFile::symlink(link, &target)),
    }
}

pub fn names_dependency_dir(input: &str) -> (b: bool)
    ensures
        b == has_component(input@, DEPENDENCY_DIR@),
{
    names_component(input, DEPENDENCY_DIR)
}

/// An entry, flagged as configuration when it lands under `/etc` and is no link.
pub open spec fn marked(f: PlannedFileView) -> PlannedFileView {
    if begins_with(f.destination, CONFIG_PREFIX@) && !(f.kind is Symlink) {
        PlannedFileView { is_config: true, ..f }
    } else {
        f
    }
}

pub fn mark_config(planned: PlannedFile) -> (r: PlannedFile)
    ensures
        r@ == marked(planned@),
{
    if starts_with(planned.destination.as_str(), CONFIG_PREFIX) && !planned.is_symlink() {
        planned.as_config()
    } else {
        planned
    }
}

// ---- one tree ---------------------------------------------------------------------------

/// One tree being collected: where it starts, and how its paths map onto destinations.
#[derive(Debug)]
pub struct Tree {
    pub start: String,
    pub source_root: String,
    /// Without a trailing separator; empty means the filesystem root.
    pub dest_root: String,
    /// Where resolved symlink targets must stay.
    pub boundary: String,
    /// Whether oddities (a dangling link, a socket) are the user's mistake, as in the
    /// application's own tree, or ordinary, as in a dependency tree.
    pub strict: bool,
    /// Whether the walk keeps out of `node_modules`.
    pub skip_dependency_dir: bool,
}

pub struct TreeView {
    pub start: Seq<char>,
    pub source_root: Seq<char>,
    pub dest_root: Seq<char>,
    pub boundary: Seq<char>,
    pub strict: bool,
    pub skip_dependency_dir: bool,
}

impl View for Tree {
    type V = TreeView;

    open spec fn view(&self) -> TreeView {
        TreeView {
            start: self.start@,
            source_root: self.source_root@,
            dest_root: self.dest_root@,
            boundary: self.boundary@,
            strict: self.strict,
            skip_dependency_dir: self.skip_dependency_dir,
        }
    }
}

/// The destination of a source path, or nothing when the path lies outside the tree.
pub open spec fn mapped(source_root: Seq<char>, dest_root: Seq<char>, path: Seq<char>) -> core::result::Result<
    Option<Seq<char>>,
    ErrorView,
> {
    if !within(source_root, path) {
        Ok(None)
    } else {
        let text = if path == source_root {
            dest_root
        } else {
            dest_root + "/"@ + below(source_root, path)
        };
        match destination_of(text) {
            Ok(d) => Ok(Some(d)),
            Err(e) => Err(e),
        }
    }
}

impl Tree {
    /// The destination of a source path, or `None` when the path lies outside this tree.
    pub fn destination_for(&self, path: &str) -> (r: Result<Option<Destination>>)
        ensures
            match r {
                Ok(d) => mapped(self@.source_root, self@.dest_root, path@) == Ok::<
                    Option<Seq<char>>,
                    ErrorView,
                >(opt(d)),
                Err(e) => mapped(self@.source_root, self@.dest_root, path@) == Err::<
                    Option<Seq<char>>,
                    ErrorView,
                >(e@),
            },
    {
        if same(path, self.source_root.as_str()) {
            return match Destination::new(self.dest_root.as_str()) {
                Ok(d) => Ok(Some(d)),
                Err(e) => Err(e),
            };
        }
        if !lies_within(self.source_root.as_str(), path) {
            return Ok(None);
        }
        let mut text = self.dest_root.clone();
        text.append("/");
        text.append(relative_to(self.source_root.as_str(), path).as_str());
        match Destination::new(text.as_str()) {
            Ok(d) => Ok(Some(d)),
            Err(e) => Err(e),
        }
    }
}

/// What stays the same over a whole collection.
#[derive(Debug)]
pub struct Env<'a> {
    pub nodes: &'a Vec<Node>,
    /// Destinations executed directly, with what executes each.
    pub executed: Vec<(String, &'static str)>,
    /// Directories a dependency link may point at.
    pub workspaces: Vec<String>,
}

pub struct EnvView {
    pub nodes: Seq<NodeView>,
    pub executed: Seq<(Seq<char>, Seq<char>)>,
    pub workspaces: Seq<Seq<char>>,
}

impl<'a> View for Env<'a> {
    type V = EnvView;

    open spec fn view(&self) -> EnvView {
        EnvView {
            nodes: views(self.nodes@),
            executed: executed_views(self.executed@),
            workspaces: views(self.workspaces@),
        }
    }
}

/// What executes `destination`, if anything does.
pub open spec fn executor(executed: Seq<(Seq<char>, Seq<char>)>, destination: Seq<char>) -> Option<
    Seq<char>,
>
    decreases executed.len(),
{
    if executed.len() == 0 {
        None
    } else if executed[0].0 == destination {
        Some(executed[0].1)
    } else {
        executor(executed.drop_first(), destination)
    }
}

/// Refuses a file something in the package will execute directly but the kernel cannot.
/// `path` is the file actually read: the entry itself, or a symlink's resolved target.
pub open spec fn unrunnable(
    executed: Seq<(Seq<char>, Seq<char>)>,
    destination: Seq<char>,
    path: Seq<char>,
    runnable: bool,
) -> Option<ErrorView> {
    match executor(executed, destination) {
        Some(by) => if runnable {
            None
        } else {
            Some(
                refusal(
                    "`"@ + path + "` is executed directly by "@ + by
                        + " but cannot be: it needs a `#!/usr/bin/env node` first line and the executable bit"@,
                ),
            )
        },
        None => None,
    }
}

/// Whether a dependency link may have what it leads to packaged in its place.
pub open spec fn admitted(workspaces: Seq<Seq<char>>, resolved: Seq<char>) -> bool {
    exists|i: int| 0 <= i < workspaces.len() && within(#[trigger] workspaces[i], resolved)
}

impl<'a> Env<'a> {
    /// What executes `destination`, if anything does.
    fn executor_of(&self, destination: &str) -> (r: Option<&'static str>)
        ensures
            opt(r) == executor(self@.executed, destination@),
    {
        let ghost all = executed_views(self.executed@);
        let mut i: usize = 0;
        assert(all.skip(0) =~= all);
        while i < self.executed.len()
            invariant
                i <= self.executed@.len(),
                all == executed_views(self.executed@),
                executor(all, destination@) == executor(all.skip(i as int), destination@),
            decreases self.executed@.len() - i,
        {
            assert(all.skip(i as int).drop_first() =~= all.skip(i + 1));
            assert(all.skip(i as int)[0] == (self.executed@[i as int].0@, self.executed@[i as int].1@));
            if same(self.executed[i].0.as_str(), destination) {
                return Some(self.executed[i].1);
            }
            i = i + 1;
        }
        None
    }

    /// Refuses a file something in the package will execute directly but the kernel cannot.
    pub fn refuse_unrunnable_entrypoint(&self, destination: &str, path: &str, runnable: bool) -> (r:
        Option<Error>)
        ensures
            opt(r) == unrunnable(self@.executed, destination@, path@, runnable),
    {
        match self.executor_of(destination) {
            Some(by) => {
                if runnable {
                    return None;
                }
                let mut m = "`".to_owned();
                m.append(path);
                m.append("` is executed directly by ");
                m.append(by);
                m.append(
                    " but cannot be: it needs a `#!/usr/bin/env node` first line and the executable bit",
                );
                Some(Error::manifest(m))
            },
            None => None,
        }
    }

    /// Whether a dependency link may have what it leads to packaged in its place: only inside
    /// a declared workspace root.
    pub fn may_materialise(&self, resolved: &str) -> (b: bool)
        ensures
            b == admitted(self@.workspaces, resolved@),
    {
        let ghost all = views(self.workspaces@);
        let mut i: usize = 0;
        while i < self.workspaces.len()
            invariant
                i <= self.workspaces@.len(),
                all == views(self.workspaces@),
                forall|j: int| 0 <= j < i ==> !within(#[trigger] all[j], resolved@),
            decreases self.workspaces@.len() - i,
        {
            assert(all[i as int] == self.workspaces@[i as int]@);
            if lies_within(self.workspaces[i].as_str(), resolved) {
                return true;
            }
            i = i + 1;
        }
        false
    }
}

// ---- claims -----------------------------------------------------------------------------

/// Destinations claimed so far, each remembering which source claimed it: the same file
/// collected twice is a no-op, two different files claiming one destination is an error.
#[derive(Debug)]
pub struct Claims {
    held: StrMap<String>,
}

impl View for Claims {
    type V = Map<Seq<char>, Seq<char>>;

    closed spec fn view(&self) -> Map<Seq<char>, Seq<char>> {
        Map::new(|k: Seq<char>| self.held@.dom().contains(k), |k: Seq<char>| self.held@[k]@)
    }
}

impl Claims {
    pub fn new() -> (c: Self)
        ensures
            c@ == Map::<Seq<char>, Seq<char>>::empty(),
    {
        let c = Claims { held: StrMap::new() };
        assert(c@ =~= Map::empty());
        c
    }

    fn holder(&self, destination: &str) -> (r: Option<&str>)
        ensures
            match r {
                Some(s) => self@.dom().contains(destination@) && s@ == self@[destination@],
                None => !self@.dom().contains(destination@),
            },
    {
        match self.held.get(destination) {
            Some(s) => Some(s.as_str()),
            None => None,
        }
    }

    fn record(self, destination: &str, source: &str) -> (c: Self)
        ensures
            c@ == self@.insert(destination@, source@),
    {
        let mut held = self.held;
        held.insert(destination.to_owned(), source.to_owned());
        let c = Claims { held };
        assert(c@ =~= self@.insert(destination@, source@));
        c
    }
}

/// What has been collected so far.
#[derive(Debug)]
pub struct Gathered {
    pub files: Vec<PlannedFile>,
    pub claims: Claims,
}

pub struct GatheredView {
    pub files: Seq<PlannedFileView>,
    pub claims: Map<Seq<char>, Seq<char>>,
}

impl View for Gathered {
    type V = GatheredView;

    open spec fn view(&self) -> GatheredView {
        GatheredView { files: views(self.files@), claims: self.claims@ }
    }
}

pub open spec fn conflict(first: Seq<char>, second: Seq<char>, destination: Seq<char>) -> ErrorView {
    refusal(
        "`"@ + first + "` and `"@ + second + "` both install to `"@ + destination
            + "`; refusing to guess which should win"@,
    )
}

/// `state` with one more entry, unless the same source already holds its destination; refused
/// when another source does.
pub open spec fn claimed(state: GatheredView, file: PlannedFileView, source: Seq<char>) -> core::result::Result<
    GatheredView,
    ErrorView,
> {
    if state.claims.dom().contains(file.destination) {
        if state.claims[file.destination] == source {
            Ok(state)
        } else {
            Err(conflict(state.claims[file.destination], source, file.destination))
        }
    } else {
        Ok(
            GatheredView {
                files: state.files.push(file),
                claims: state.claims.insert(file.destination, source),
            },
        )
    }
}

impl Gathered {
    pub fn new() -> (g: Self)
        ensures
            g@ == (GatheredView {
                files: Seq::empty(),
                claims: Map::<Seq<char>, Seq<char>>::empty(),
            }),
    {
        let g = Gathered { files: Vec::new(), claims: Claims::new() };
        assert(views(g.files@) =~= Seq::empty());
        g
    }

    /// Adds an entry, unless the same source already holds its destination; refused when
    /// another source does.
    pub fn claim(self, file: PlannedFile, source: &str) -> (r: Result<Self>)
        ensures
            outcome(r) == claimed(self@, file@, source@),
    {
        let held = match self.claims.holder(file.destination.as_str()) {
            Some(existing) => {
                if same(existing, source) {
                    true
                } else {
                    let mut m = "`".to_owned();
                    m.append(existing);
                    m.append("` and `");
                    m.append(source);
                    m.append("` both install to `");
                    m.append(file.destination.as_str());
                    m.append("`; refusing to guess which should win");
                    return Err(Error::manifest(m));
                }
            },
            None => false,
        };
        if held {
            return Ok(self);
        }
        let claims = self.claims.record(file.destination.as_str(), source);
        let mut files = self.files;
        proof {
            views_push(files@, file);
        }
        files.push(file);
        Ok(Gathered { files, claims })
    }
}

// ---- one step of a walk -------------------------------------------------------------------

/// What a walk does with one entry of the tree.
#[derive(Debug)]
pub enum Step {
    /// Nothing.
    Pass,
    Fail(Error),
    Add { file: PlannedFile, source: String },
    /// Package what a link leads to under the link's own destination.
    Enter { resolved: String, dest_root: String },
}

pub enum StepView {
    Pass,
    Fail(ErrorView),
    Add { file: PlannedFileView, source: Seq<char> },
    Enter { resolved: Seq<char>, dest_root: Seq<char> },
}

impl View for Step {
    type V = StepView;

    open spec fn view(&self) -> StepView {
        match *self {
            Step::Pass => StepView::Pass,
            Step::Fail(e) => StepView::Fail(e@),
            Step::Add { file, source } => StepView::Add { file: file@, source: source@ },
            Step::Enter { resolved, dest_root } => StepView::Enter {
                resolved: resolved@,
                dest_root: dest_root@,
            },
        }
    }
}

pub open spec fn dangling(link: Seq<char>) -> ErrorView {
    refusal(
        "`"@ + link
            + "` is a dangling symlink; it points at something that does not exist"@,
    )
}

pub open spec fn escaping(link: Seq<char>, resolved: Seq<char>) -> ErrorView {
    refusal(
        "`"@ + link + "` is a symlink to `"@ + resolved
            + "`, which escapes the package. Use the extra-files directory to place content from elsewhere"@,
    )
}

pub open spec fn undeclared(link: Seq<char>, resolved: Seq<char>) -> ErrorView {
    refusal(
        "`"@ + link + "` links to `"@ + resolved
            + "`, which is outside its own tree and is not inside a declared workspace root. If this is a workspace package, declare it in the `workspaces` field of package.json; otherwise this dependency is reaching for a file it has no business packaging"@,
    )
}

pub open spec fn cyclic(link: Seq<char>, resolved: Seq<char>) -> ErrorView {
    refusal(
        "`"@ + link + "` is a symlink to `"@ + resolved
            + "`, which is already being packaged through another link; this is a cycle"@,
    )
}

/// What a walk does with a symlink. A target inside the tree becomes a link entry; a target in
/// a declared workspace has its contents planned under the link's destination; a link that
/// leaves the boundary is refused in every tree.
pub open spec fn link_step(
    env: EnvView,
    tree: TreeView,
    visited: Seq<Seq<char>>,
    link: Seq<char>,
    destination: Seq<char>,
    target: LinkTargetView,
) -> StepView {
    match target {
        LinkTargetView::Dangling => if tree.strict {
            StepView::Fail(dangling(link))
        } else {
            StepView::Pass
        },
        LinkTargetView::Unresolvable { reason } => StepView::Fail(
            ErrorView::Io { path: link, source: reason },
        ),
        LinkTargetView::Resolved { path, facts } => if !within(tree.boundary, path) {
            StepView::Fail(escaping(link, path))
        } else {
            match mapped(tree.source_root, tree.dest_root, path) {
                Err(e) => StepView::Fail(e),
                Ok(Some(target_destination)) => match (match facts {
                    Some(f) => unrunnable(env.executed, destination, path, f.runnable()),
                    None => None,
                }) {
                    Some(e) => StepView::Fail(e),
                    None => StepView::Add {
                        file: link_entry(destination, target_destination),
                        source: link,
                    },
                },
                Ok(None) => if !admitted(env.workspaces, path) {
                    StepView::Fail(undeclared(link, path))
                } else if visited.contains(path) {
                    StepView::Fail(cyclic(link, path))
                } else {
                    StepView::Enter { resolved: path, dest_root: destination }
                },
            }
        },
    }
}

/// The entry of a file that is copied.
pub open spec fn file_entry(
    destination: Seq<char>,
    path: Seq<char>,
    len: u64,
    runnable: bool,
) -> PlannedFileView {
    marked(
        PlannedFileView {
            destination,
            kind: EntryKindView::Regular,
            content: FileContentView::FromPath { path, len },
            mode: if runnable {
                PlannedFile::MODE_EXECUTABLE
            } else {
                PlannedFile::MODE_REGULAR
            },
            is_config: false,
        },
    )
}

/// What a walk does with one entry of the tree.
pub open spec fn step_of(
    env: EnvView,
    tree: TreeView,
    visited: Seq<Seq<char>>,
    node: NodeView,
) -> StepView {
    if !within(tree.start, node.path) {
        StepView::Pass
    } else if node.kind is Failed {
        StepView::Fail(ErrorView::Io { path: node.path, source: node.kind->Failed_reason })
    } else if tree.skip_dependency_dir && has_component(node.path, DEPENDENCY_DIR@) {
        StepView::Pass
    } else if node.kind is Directory {
        StepView::Pass
    } else {
        match mapped(tree.source_root, tree.dest_root, node.path) {
            Err(e) => StepView::Fail(e),
            Ok(None) => StepView::Fail(
                refusal("`"@ + node.path + "` resolved outside the tree being collected"@),
            ),
            Ok(Some(destination)) => match node.kind {
                NodeKindView::Symlink(target) => link_step(
                    env,
                    tree,
                    visited,
                    node.path,
                    destination,
                    target,
                ),
                NodeKindView::File { len, modified, facts } => match unrunnable(
                    env.executed,
                    destination,
                    node.path,
                    facts.runnable(),
                ) {
                    Some(e) => StepView::Fail(e),
                    None => StepView::Add {
                        file: file_entry(destination, node.path, len, facts.runnable()),
                        source: node.path,
                    },
                },
                NodeKindView::UnreadableFile { reason } => StepView::Fail(
                    ErrorView::Io { path: node.path, source: reason },
                ),
                _ => if tree.strict {
                    StepView::Fail(
                        refusal(
                            "`"@ + node.path
                                + "` is neither a regular file, a directory nor a symlink; sockets, fifos and device nodes cannot be packaged"@,
                        ),
                    )
                } else {
                    StepView::Pass
                },
            },
        }
    }
}

/// A refusal about a link and where it leads.
fn refuse_link(link: &str, middle: &str, resolved: &str, tail: &str) -> (r: Step)
    ensures
        r@ == StepView::Fail(refusal("`"@ + link@ + middle@ + resolved@ + tail@)),
{
    let mut m = "`".to_owned();
    m.append(link);
    m.append(middle);
    m.append(resolved);
    m.append(tail);
    Step::Fail(Error::manifest(m))
}

/// Whether `path` is among `paths`.
fn among(paths: &Vec<String>, path: &str) -> (b: bool)
    ensures
        b == views(paths@).contains(path@),
{
    let ghost all = views(paths@);
    let mut i: usize = 0;
    while i < paths.len()
        invariant
            i <= paths@.len(),
            all == views(paths@),
            forall|j: int| 0 <= j < i ==> #[trigger] all[j] != path@,
        decreases paths@.len() - i,
    {
        assert(all[i as int] == paths@[i as int]@);
        if same(paths[i].as_str(), path) {
            return true;
        }
        i = i + 1;
    }
    false
}

impl<'a> Env<'a> {
    /// Plans a symlink, or decides to package what it leads to when that lies outside the
    /// current tree.
    pub fn plan_symlink(
        &self,
        tree: &Tree,
        visited: &Vec<String>,
        link: &str,
        destination: Destination,
        target: &LinkTarget,
    ) -> (r: Step)
        ensures
            r@ == link_step(self@, tree@, views(visited@), link@, destination@, target@),
    {
        match target {
            LinkTarget::Dangling => {
                if tree.strict {
                    let mut m = "`".to_owned();
                    m.append(link);
                    m.append(
                        "` is a dangling symlink; it points at something that does not exist",
                    );
                    Step::Fail(Error::manifest(m))
                } else {
                    Step::Pass
                }
            },
            LinkTarget::Unresolvable { reason } => Step::Fail(
                Error::io(link.to_owned(), reason.clone()),
            ),
            LinkTarget::Resolved { path, facts } => {
                if !lies_within(tree.boundary.as_str(), path.as_str()) {
                    // In every tree: a link leaving the project is at least as serious as one
                    // reaching an undeclared spot inside it.
                    return refuse_link(
                        link,
                        "` is a symlink to `",
                        path.as_str(),
                        "`, which escapes the package. Use the extra-files directory to place content from elsewhere",
                    );
                }
                match tree.destination_for(path.as_str()) {
                    Err(e) => Step::Fail(e),
                    Ok(Some(target_destination)) => {
                        // A symlinked entry point executes its target, so the resolved file is
                        // checked, not the link.
                        match facts {
                            Some(f) => {
                                match self.refuse_unrunnable_entrypoint(
                                    destination.as_str(),
                                    path.as_str(),
                                    f.is_runnable(),
                                ) {
                                    Some(e) => {
                                        return Step::Fail(e);
                                    },
                                    None => {},
                                }
                            },
                            None => {},
                        }
                        Step::Add {
                            file: PlannedFile::symlink(destination, &target_destination),
                            source: link.to_owned(),
                        }
                    },
                    Ok(None) => {
                        // Inside the boundary but outside this tree: only a declared workspace
                        // package may be packaged in the link's place.
                        if !self.may_materialise(path.as_str()) {
                            return refuse_link(
                                link,
                                "` links to `",
                                path.as_str(),
                                "`, which is outside its own tree and is not inside a declared workspace root. If this is a workspace package, declare it in the `workspaces` field of package.json; otherwise this dependency is reaching for a file it has no business packaging",
                            );
                        }
                        if among(visited, path.as_str()) {
                            return refuse_link(
                                link,
                                "` is a symlink to `",
                                path.as_str(),
                                "`, which is already being packaged through another link; this is a cycle",
                            );
                        }
                        Step::Enter {
                            resolved: path.clone(),
                            dest_root: destination.as_str().to_owned(),
                        }
                    },
                }
            },
        }
    }

    /// What a walk does with one entry of the tree.
    pub fn step(&self, tree: &Tree, visited: &Vec<String>, node: &Node) -> (r: Step)
        ensures
            r@ == step_of(self@, tree@, views(visited@), node@),
    {
        let path = node.path.as_str();
        if !lies_within(tree.start.as_str(), path) {
            return Step::Pass;
        }
        match &node.kind {
            NodeKind::Failed { reason } => {
                return Step::Fail(Error::io(path.to_owned(), reason.clone()));
            },
            _ => {},
        }
        if tree.skip_dependency_dir && names_dependency_dir(path) {
            return Step::Pass;
        }
        match &node.kind {
            NodeKind::Directory => {
                return Step::Pass;
            },
            _ => {},
        }
        let destination = match tree.destination_for(path) {
            Err(e) => {
                return Step::Fail(e);
            },
            Ok(None) => {
                let mut m = "`".to_owned();
                m.append(path);
                m.append("` resolved outside the tree being collected");
                return Step::Fail(Error::manifest(m));
            },
            Ok(Some(d)) => d,
        };
        match &node.kind {
            NodeKind::Symlink(target) => self.plan_symlink(
                tree,
                visited,
                path,
                destination,
                target,
            ),
            NodeKind::File { len, modified, facts } => {
                let runnable = facts.is_runnable();
                match self.refuse_unrunnable_entrypoint(destination.as_str(), path, runnable) {
                    Some(e) => Step::Fail(e),
                    None => Step::Add {
                        file: mark_config(
                            PlannedFile::from_source(
                                destination,
                                path.to_owned(),
                                *len,
                                runnable,
                            ),
                        ),
                        source: path.to_owned(),
                    },
                }
            },
            NodeKind::UnreadableFile { reason } => Step::Fail(
                Error::io(path.to_owned(), reason.clone()),
            ),
            _ => {
                if tree.strict {
                    let mut m = "`".to_owned();
                    m.append(path);
                    m.append(
                        "` is neither a regular file, a directory nor a symlink; sockets, fifos and device nodes cannot be packaged",
                    );
                    Step::Fail(Error::manifest(m))
                } else {
                    Step::Pass
                }
            },
        }
    }
}

// ---- the walk -----------------------------------------------------------------------------

/// How many links lead somewhere not yet being packaged.
pub open spec fn open_links(nodes: Seq<NodeView>, visited: Seq<Seq<char>>) -> nat
    decreases nodes.len(),
{
    if nodes.len() == 0 {
        0
    } else {
        open_links(nodes.drop_last(), visited) + (if leads_on(nodes.last(), visited) {
            1nat
        } else {
            0
        })
    }
}

pub open spec fn leads_on(node: NodeView, visited: Seq<Seq<char>>) -> bool {
    node.kind matches NodeKindView::Symlink(LinkTargetView::Resolved { path, facts })
        && !visited.contains(path)
}

/// Visiting one more place opens no link.
proof fn visiting_opens_nothing(nodes: Seq<NodeView>, visited: Seq<Seq<char>>, more: Seq<char>)
    ensures
        open_links(nodes, visited.push(more)) <= open_links(nodes, visited),
    decreases nodes.len(),
{
    if nodes.len() > 0 {
        visiting_opens_nothing(nodes.drop_last(), visited, more);
        let node = nodes.last();
        if leads_on(node, visited.push(more)) {
            let path = node.kind->Symlink_0->Resolved_path;
            if visited.contains(path) {
                let k = visited.index_of(path);
                assert(visited.push(more)[k] == path);
            }
        }
    }
}

/// Entering where a link leads closes that link.
proof fn entering_closes_a_link(nodes: Seq<NodeView>, visited: Seq<Seq<char>>, k: int)
    requires
        0 <= k < nodes.len(),
        leads_on(nodes[k], visited),
    ensures
        open_links(nodes, visited.push(nodes[k].kind->Symlink_0->Resolved_path)) < open_links(
            nodes,
            visited,
        ),
    decreases nodes.len(),
{
    let more = nodes[k].kind->Symlink_0->Resolved_path;
    assert(visited.push(more)[visited.len() as int] == more);
    let init = nodes.drop_last();
    let node = nodes.last();
    if k == nodes.len() - 1 {
        visiting_opens_nothing(init, visited, more);
    } else {
        assert(init[k] == nodes[k]);
        entering_closes_a_link(init, visited, k);
        if leads_on(node, visited.push(more)) {
            let path = node.kind->Symlink_0->Resolved_path;
            if visited.contains(path) {
                let j = visited.index_of(path);
                assert(visited.push(more)[j] == path);
            }
        }
    }
}

/// The tree a link's contents are packaged as.
pub open spec fn nested_tree(tree: TreeView, resolved: Seq<char>, dest_root: Seq<char>) -> TreeView {
    TreeView {
        start: resolved,
        source_root: resolved,
        dest_root,
        boundary: tree.boundary,
        strict: tree.strict,
        skip_dependency_dir: false,
    }
}

/// What `state` becomes when a tree is walked from entry `i` on. `visited` holds the places
/// being packaged through links further up, so a cycle of links ends.
pub open spec fn walked(
    env: EnvView,
    tree: TreeView,
    visited: Seq<Seq<char>>,
    i: int,
    state: GatheredView,
) -> core::result::Result<GatheredView, ErrorView>
    decreases open_links(env.nodes, visited), env.nodes.len() - i,
    via walked_decreases
{
    if i < 0 || i >= env.nodes.len() {
        Ok(state)
    } else {
        match step_of(env, tree, visited, env.nodes[i]) {
            StepView::Pass => walked(env, tree, visited, i + 1, state),
            StepView::Fail(e) => Err(e),
            StepView::Add { file, source } => match claimed(state, file, source) {
                Err(e) => Err(e),
                Ok(next) => walked(env, tree, visited, i + 1, next),
            },
            StepView::Enter { resolved, dest_root } => match walked(
                env,
                nested_tree(tree, resolved, dest_root),
                visited.push(resolved),
                0,
                state,
            ) {
                Err(e) => Err(e),
                Ok(next) => walked(env, tree, visited, i + 1, next),
            },
        }
    }
}

#[via_fn]
proof fn walked_decreases(
    env: EnvView,
    tree: TreeView,
    visited: Seq<Seq<char>>,
    i: int,
    state: GatheredView,
) {
    if 0 <= i < env.nodes.len() {
        if step_of(env, tree, visited, env.nodes[i]) is Enter {
            entering_closes_a_link(env.nodes, visited, i);
        }
    }
}

impl<'a> Env<'a> {
    /// Walks one tree, adding what it holds to `state`.
    pub fn walk(&self, tree: &Tree, visited: &Vec<String>, before: Gathered) -> (r: Result<Gathered>)
        ensures
            outcome(r) == walked(self@, tree@, views(visited@), 0, before@),
        decreases open_links(self@.nodes, views(visited@)),
    {
        let mut state = before;
        let mut i: usize = 0;
        while i < self.nodes.len()
            invariant
                i <= self.nodes@.len(),
                walked(self@, tree@, views(visited@), 0, before@) == walked(
                    self@,
                    tree@,
                    views(visited@),
                    i as int,
                    state@,
                ),
            decreases self.nodes@.len() - i,
        {
            assert(self@.nodes[i as int] == self.nodes@[i as int]@);
            match self.step(tree, visited, &self.nodes[i]) {
                Step::Pass => {},
                Step::Fail(e) => {
                    return Err(e);
                },
                Step::Add { file, source } => {
                    match state.claim(file, source.as_str()) {
                        Err(e) => {
                            return Err(e);
                        },
                        Ok(next) => {
                            state = next;
                        },
                    }
                },
                Step::Enter { resolved, dest_root } => {
                    let nested = Tree {
                        start: resolved.clone(),
                        source_root: resolved.clone(),
                        dest_root,
                        boundary: tree.boundary.clone(),
                        strict: tree.strict,
                        skip_dependency_dir: false,
                    };
                    let mut deeper: Vec<String> = copy_paths(visited);
                    proof {
                        entering_closes_a_link(self@.nodes, views(visited@), i as int);
                        views_push(deeper@, resolved);
                    }
                    deeper.push(resolved);
                    match self.walk(&nested, &deeper, state) {
                        Err(e) => {
                            return Err(e);
                        },
                        Ok(next) => {
                            state = next;
                        },
                    }
                },
            }
            i = i + 1;
        }
        Ok(state)
    }
}

fn copy_paths(paths: &Vec<String>) -> (r: Vec<String>)
    ensures
        views(r@) == views(paths@),
{
    let ghost all = views(paths@);
    let mut r: Vec<String> = Vec::new();
    let mut i: usize = 0;
    assert(views(r@) =~= all.take(0));
    while i < paths.len()
        invariant
            i <= paths@.len(),
            all == views(paths@),
            views(r@) == all.take(i as int),
        decreases paths@.len() - i,
    {
        let path = paths[i].clone();
        proof {
            views_push(r@, path);
            assert(all.take(i + 1) =~= all.take(i as int).push(path@));
        }
        r.push(path);
        i = i + 1;
    }
    assert(all.take(i as int) =~= all);
    r
}

// ---- the whole collection -------------------------------------------------------------------

/// The workspace roots a manifest may grant: inside the project and not the project itself.
pub open spec fn granted(root: Seq<char>, declared: Seq<Seq<char>>) -> Seq<Seq<char>>
    decreases declared.len(),
{
    if declared.len() == 0 {
        Seq::empty()
    } else {
        let before = granted(root, declared.drop_last());
        let last = declared.last();
        if within(root, last) && last != root {
            before.push(last)
        } else {
            before
        }
    }
}

/// The workspace roots a manifest may grant.
pub fn canonical_workspace_roots(root: &str, declared: &Vec<String>) -> (r: Vec<String>)
    ensures
        views(r@) == granted(root@, views(declared@)),
{
    let ghost all = views(declared@);
    let mut r: Vec<String> = Vec::new();
    let mut i: usize = 0;
    assert(views(r@) =~= Seq::empty());
    assert(all.take(0) =~= Seq::empty());
    while i < declared.len()
        invariant
            i <= declared@.len(),
            all == views(declared@),
            views(r@) == granted(root@, all.take(i as int)),
        decreases declared@.len() - i,
    {
        let path = declared[i].clone();
        proof {
            assert(all.take(i + 1).drop_last() =~= all.take(i as int));
            assert(all.take(i + 1).last() == path@);
            views_push(r@, path);
        }
        if lies_within(root, path.as_str()) && !same(path.as_str(), root) {
            r.push(path);
        }
        i = i + 1;
    }
    assert(all.take(i as int) =~= all);
    r
}

pub open spec fn env_of(c: ResolvedConfigView, survey: SurveyView) -> EnvView {
    EnvView {
        nodes: survey.nodes,
        executed: executed_of(c),
        workspaces: granted(survey.root, survey.workspaces),
    }
}

/// The application's own tree, from one input on.
pub open spec fn app_tree(c: ResolvedConfigView, root: Seq<char>, start: Seq<char>) -> TreeView {
    TreeView {
        start,
        source_root: root,
        dest_root: app_root_of(c),
        boundary: root,
        strict: true,
        skip_dependency_dir: true,
    }
}

/// The dependency tree. Its boundary is the project: a link leaving `node_modules` for a
/// workspace is packaged, a link leaving the project is refused.
pub open spec fn dependency_tree(c: ResolvedConfigView, root: Seq<char>, start: Seq<char>) -> TreeView {
    TreeView {
        start,
        source_root: start,
        dest_root: app_root_of(c) + "/"@ + DEPENDENCY_DIR@,
        boundary: root,
        strict: false,
        skip_dependency_dir: false,
    }
}

/// The tree that lands at the filesystem root.
pub open spec fn extra_tree(start: Seq<char>) -> TreeView {
    TreeView {
        start,
        source_root: start,
        dest_root: Seq::empty(),
        boundary: start,
        strict: true,
        skip_dependency_dir: false,
    }
}

pub open spec fn absolute_input(label: Seq<char>) -> ErrorView {
    refusal(
        "`"@ + label
            + "` is an absolute path; inputs must be relative to the project root so the package layout does not depend on where the project happens to live"@,
    )
}

pub open spec fn excluded_by_command_line() -> WarningView {
    WarningView::DependenciesExcluded {
        reason:
            "the install strategy decides whether dependencies are vendored, not the command line"@,
    }
}

/// What the first `n` inputs come to.
pub open spec fn inputs_walked(c: ResolvedConfigView, survey: SurveyView, n: int) -> core::result::Result<
    (GatheredView, Seq<WarningView>),
    ErrorView,
>
    decreases n,
{
    if n <= 0 {
        Ok((GatheredView { files: Seq::empty(), claims: Map::empty() }, Seq::empty()))
    } else {
        match inputs_walked(c, survey, n - 1) {
            Err(e) => Err(e),
            Ok(before) => {
                let input = survey.inputs[n - 1];
                if begins_with(input.label, "/"@) {
                    Err(absolute_input(input.label))
                } else if has_component(input.label, DEPENDENCY_DIR@) {
                    Ok((before.0, before.1.push(excluded_by_command_line())))
                } else {
                    match contained(survey.root, input.place, input.label) {
                        Err(e) => Err(e),
                        Ok(start) => match walked(
                            env_of(c, survey),
                            app_tree(c, survey.root, start),
                            Seq::empty(),
                            0,
                            before.0,
                        ) {
                            Err(e) => Err(e),
                            Ok(state) => Ok((state, before.1)),
                        },
                    }
                }
            },
        }
    }
}

/// A failure among the first inputs is a failure of them all.
proof fn early_failure(c: ResolvedConfigView, survey: SurveyView, n: int, m: int)
    requires
        0 <= n <= m,
        inputs_walked(c, survey, n) is Err,
    ensures
        inputs_walked(c, survey, m) == inputs_walked(c, survey, n),
    decreases m - n,
{
    if n < m {
        early_failure(c, survey, n, m - 1);
    }
}

/// `state` with the manifest, which is always packaged where there is one.
pub open spec fn manifest_walked(
    c: ResolvedConfigView,
    survey: SurveyView,
    state: GatheredView,
) -> core::result::Result<GatheredView, ErrorView> {
    match survey.manifest {
        None => Ok(state),
        Some(place) => match contained(survey.root, place, "package.json"@) {
            Err(e) => Err(e),
            Ok(start) => walked(
                env_of(c, survey),
                app_tree(c, survey.root, start),
                Seq::empty(),
                0,
                state,
            ),
        },
    }
}

/// Where the last `.` of a text stands.
pub open spec fn last_dot(s: Seq<char>) -> Option<int>
    decreases s.len(),
{
    if s.len() == 0 {
        None
    } else if s.last() == '.' {
        Some(s.len() - 1)
    } else {
        last_dot(s.drop_last())
    }
}

/// Whether a path names a compiled addon: its last component has the extension `node`, in any
/// case, after a name.
pub open spec fn is_addon(path: Seq<char>) -> bool {
    let name = split_at_char(path, '/').last();
    match last_dot(name) {
        Some(at) => at > 0 && lowercase(name.skip(at + 1)) == "node"@,
        None => false,
    }
}

/// The first compiled addon among the entries from `i` on that lie below `tree`, spelled as a
/// path below `shown`.
pub open spec fn addon_from(
    nodes: Seq<NodeView>,
    tree: Seq<char>,
    shown: Seq<char>,
    i: int,
) -> Option<Seq<char>>
    decreases nodes.len() - i,
{
    if i < 0 || i >= nodes.len() {
        None
    } else {
        let node = nodes[i];
        if (node.kind is File || node.kind is UnreadableFile) && within(tree, node.path) && is_addon(
            node.path,
        ) {
            Some(shown + node.path.skip(tree.len() as int))
        } else {
            addon_from(nodes, tree, shown, i + 1)
        }
    }
}

/// Where the dependency directory stands in the project.
pub open spec fn dependency_path(root: Seq<char>) -> Seq<char> {
    into_root(root) + DEPENDENCY_DIR@
}

/// The warnings vendoring a dependency tree gives.
pub open spec fn vendoring_warnings(
    survey: SurveyView,
    any_architecture: bool,
    tree: Seq<char>,
) -> Seq<WarningView> {
    let general = seq![WarningView::DependenciesMayIncludeDevelopmentPackages];
    if any_architecture {
        match addon_from(survey.nodes, tree, dependency_path(survey.root), 0) {
            Some(example) => general.push(
                WarningView::CompiledAddonsInArchitectureIndependentPackage { example },
            ),
            None => general,
        }
    } else {
        general
    }
}

/// `before` with what the install strategy says of the dependency directory.
pub open spec fn dependencies_walked(
    c: ResolvedConfigView,
    survey: SurveyView,
    before: (GatheredView, Seq<WarningView>),
) -> core::result::Result<(GatheredView, Seq<WarningView>), ErrorView> {
    if c.install_strategy is NpmInstall {
        let told = before.1.push(WarningView::DependenciesInstalledAtInstallTime);
        Ok(
            (
                before.0,
                if survey.dependencies is Some {
                    told.push(
                        WarningView::DependenciesExcluded {
                            reason:
                                "the install strategy installs them during package installation"@,
                        },
                    )
                } else {
                    told
                },
            ),
        )
    } else {
        match survey.dependencies {
            None => Ok(before),
            Some(place) => match architecture_named(c.architecture) {
                Err(e) => Err(e),
                Ok(architecture) => match contained(survey.root, place, DEPENDENCY_DIR@) {
                    Err(e) => Err(e),
                    Ok(start) => match walked(
                        env_of(c, survey),
                        dependency_tree(c, survey.root, start),
                        Seq::empty(),
                        0,
                        before.0,
                    ) {
                        Err(e) => Err(e),
                        Ok(state) => Ok(
                            (
                                state,
                                before.1 + vendoring_warnings(
                                    survey,
                                    architecture == Architecture::Any,
                                    start,
                                ),
                            ),
                        ),
                    },
                },
            },
        }
    }
}

/// `state` with the extra files, which land at the filesystem root.
pub open spec fn extra_walked(
    c: ResolvedConfigView,
    survey: SurveyView,
    state: GatheredView,
) -> core::result::Result<GatheredView, ErrorView> {
    match c.extra_files {
        None => Ok(state),
        Some(extra) => match survey.extra {
            None => Err(
                refusal("extra-files directory `"@ + extra + "` does not exist"@),
            ),
            Some(place) => match contained(survey.root, place, extra) {
                Err(e) => Err(e),
                Ok(start) => walked(
                    env_of(c, survey),
                    extra_tree(start),
                    Seq::empty(),
                    0,
                    state,
                ),
            },
        },
    }
}

/// Everything the package takes from the project, before the `/usr/bin` link.
pub open spec fn project_walked(c: ResolvedConfigView, survey: SurveyView) -> core::result::Result<
    (GatheredView, Seq<WarningView>),
    ErrorView,
> {
    match inputs_walked(c, survey, survey.inputs.len() as int) {
        Err(e) => Err(e),
        Ok(named) => match manifest_walked(c, survey, named.0) {
            Err(e) => Err(e),
            Ok(described) => match dependencies_walked(c, survey, (described, named.1)) {
                Err(e) => Err(e),
                Ok(vendored) => match extra_walked(c, survey, vendored.0) {
                    Err(e) => Err(e),
                    Ok(state) => Ok((state, vendored.1)),
                },
            },
        },
    }
}

/// The planned entries of a project, and what the user should know of them.
pub open spec fn collected(c: ResolvedConfigView, survey: SurveyView) -> core::result::Result<
    (Seq<PlannedFileView>, Seq<WarningView>),
    ErrorView,
> {
    match project_walked(c, survey) {
        Err(e) => Err(e),
        Ok(found) => match executable_link(c) {
            Err(e) => Err(e),
            Ok(link) => if found.0.claims.dom().contains(link.destination)
                && found.0.claims[link.destination] != "<generated>"@ {
                Err(
                    conflict(
                        found.0.claims[link.destination],
                        "<generated>"@,
                        link.destination,
                    ),
                )
            } else {
                Ok((found.0.files.push(link), found.1))
            },
        },
    }
}

/// Adds the inputs.
fn walk_inputs<'a>(config: &ResolvedConfig, survey: &Survey, env: &Env<'a>) -> (r: Result<
    (Gathered, Vec<Warning>),
>)
    requires
        env@ == env_of(config@, survey@),
    ensures
        match r {
            Ok(found) => inputs_walked(config@, survey@, survey@.inputs.len() as int) == Ok::<
                (GatheredView, Seq<WarningView>),
                ErrorView,
            >((found.0@, views(found.1@))),
            Err(e) => inputs_walked(config@, survey@, survey@.inputs.len() as int) == Err::<
                (GatheredView, Seq<WarningView>),
                ErrorView,
            >(e@),
        },
{
    let root = survey.root.as_str();
    let mut state = Gathered::new();
    let mut warnings: Vec<Warning> = Vec::new();
    let mut i: usize = 0;
    assert(views(warnings@) =~= Seq::empty());
    while i < survey.inputs.len()
        invariant
            i <= survey.inputs@.len(),
            root@ == survey@.root,
            env@ == env_of(config@, survey@),
            inputs_walked(config@, survey@, i as int) == Ok::<
                (GatheredView, Seq<WarningView>),
                ErrorView,
            >((state@, views(warnings@))),
        decreases survey.inputs@.len() - i,
    {
        let input = &survey.inputs[i];
        let label = input.label.as_str();
        assert(survey@.inputs[i as int] == input@);
        if starts_with(label, "/") {
            let mut m = "`".to_owned();
            m.append(label);
            m.append(
                "` is an absolute path; inputs must be relative to the project root so the package layout does not depend on where the project happens to live",
            );
            proof {
                early_failure(config@, survey@, i + 1, survey@.inputs.len() as int);
            }
            return Err(Error::manifest(m));
        }
        if names_dependency_dir(label) {
            let warning = Warning::DependenciesExcluded {
                reason: "the install strategy decides whether dependencies are vendored, not the command line".to_owned(),
            };
            proof {
                views_push(warnings@, warning);
            }
            warnings.push(warning);
        } else {
            let start = match canonical_within(root, &input.place, label) {
                Err(e) => {
                    proof {
                        early_failure(config@, survey@, i + 1, survey@.inputs.len() as int);
                    }
                    return Err(e);
                },
                Ok(path) => path,
            };
            let tree = Tree {
                start,
                source_root: survey.root.clone(),
                dest_root: app_root(config),
                boundary: survey.root.clone(),
                strict: true,
                skip_dependency_dir: true,
            };
            let none: Vec<String> = Vec::new();
            assert(views(none@) =~= Seq::empty());
            match env.walk(&tree, &none, state) {
                Err(e) => {
                    proof {
                        early_failure(config@, survey@, i + 1, survey@.inputs.len() as int);
                    }
                    return Err(e);
                },
                Ok(next) => {
                    state = next;
                },
            }
        }
        i = i + 1;
    }
    Ok((state, warnings))
}

/// Adds the manifest.
fn walk_manifest<'a>(config: &ResolvedConfig, survey: &Survey, env: &Env<'a>, state: Gathered) -> (r:
    Result<Gathered>)
    requires
        env@ == env_of(config@, survey@),
    ensures
        outcome(r) == manifest_walked(config@, survey@, state@),
{
    match &survey.manifest {
        None => Ok(state),
        Some(place) => {
            let start = match canonical_within(survey.root.as_str(), place, "package.json") {
                Err(e) => {
                    return Err(e);
                },
                Ok(path) => path,
            };
            let tree = Tree {
                start,
                source_root: survey.root.clone(),
                dest_root: app_root(config),
                boundary: survey.root.clone(),
                strict: true,
                skip_dependency_dir: true,
            };
            let none: Vec<String> = Vec::new();
            assert(views(none@) =~= Seq::empty());
            env.walk(&tree, &none, state)
        },
    }
}

/// Where the last `.` stands.
fn find_last_dot(name: &Vec<char>) -> (r: Option<usize>)
    ensures
        match r {
            Some(at) => last_dot(name@) == Some(at as int) && at < name@.len(),
            None => last_dot(name@) is None,
        },
{
    let mut n: usize = name.len();
    assert(name@.take(n as int) =~= name@);
    while n > 0
        invariant
            n <= name@.len(),
            last_dot(name@) == last_dot(name@.take(n as int)),
        decreases n,
    {
        assert(name@.take(n as int).drop_last() =~= name@.take(n - 1));
        if name[n - 1] == '.' {
            return Some(n - 1);
        }
        n = n - 1;
    }
    None
}

/// Whether a path names a compiled addon.
fn names_addon(path: &str) -> (b: bool)
    ensures
        b == is_addon(path@),
{
    let parts = split(path, '/');
    assert(views(parts@).len() == parts@.len());
    let last = parts[parts.len() - 1].as_str();
    assert(views(parts@).last() == last@);
    let name = chars_of(last);
    let end: usize = name.len();
    match find_last_dot(&name) {
        Some(at) => {
            let ending = string_of(&name, at + 1, end);
            assert(ending@ =~= last@.skip(at + 1));
            at > 0 && same(to_lowercase(ending.as_str()).as_str(), "node")
        },
        None => false,
    }
}

/// The first compiled addon in a dependency tree. Vendoring one into a package for every
/// architecture installs everywhere and works in one place.
pub fn find_compiled_addon(nodes: &Vec<Node>, tree: &str, shown: &str) -> (r: Option<String>)
    ensures
        opt(r) == addon_from(views(nodes@), tree@, shown@, 0),
{
    let ghost all = views(nodes@);
    let mut i: usize = 0;
    while i < nodes.len()
        invariant
            i <= nodes@.len(),
            all == views(nodes@),
            addon_from(all, tree@, shown@, 0) == addon_from(all, tree@, shown@, i as int),
        decreases nodes@.len() - i,
    {
        assert(all[i as int] == nodes@[i as int]@);
        let path = nodes[i].path.as_str();
        let file = match &nodes[i].kind {
            NodeKind::File { len, modified, facts } => true,
            NodeKind::UnreadableFile { reason } => true,
            _ => false,
        };
        if file && lies_within(tree, path) && names_addon(path) {
            let all_chars = chars_of(path);
            let lead = chars_of(tree);
            assert(path@ == tree@ || begins_with(path@, into_root(tree@)));
            let rest = string_of(&all_chars, lead.len(), all_chars.len());
            let mut s = shown.to_owned();
            s.append(rest.as_str());
            assert(rest@ =~= path@.skip(tree@.len() as int));
            return Some(s);
        }
        i = i + 1;
    }
    None
}

/// Applies the install strategy to the dependency directory.
pub fn collect_dependencies<'a>(
    config: &ResolvedConfig,
    survey: &Survey,
    env: &Env<'a>,
    state: Gathered,
    warnings: Vec<Warning>,
) -> (r: Result<(Gathered, Vec<Warning>)>)
    requires
        env@ == env_of(config@, survey@),
    ensures
        match r {
            Ok(found) => dependencies_walked(config@, survey@, (state@, views(warnings@))) == Ok::<
                (GatheredView, Seq<WarningView>),
                ErrorView,
            >((found.0@, views(found.1@))),
            Err(e) => dependencies_walked(config@, survey@, (state@, views(warnings@))) == Err::<
                (GatheredView, Seq<WarningView>),
                ErrorView,
            >(e@),
        },
{
    let ghost told = views(warnings@);
    let mut warnings = warnings;
    if config.install_strategy == InstallStrategy::NpmInstall {
        let first = Warning::DependenciesInstalledAtInstallTime;
        proof {
            views_push(warnings@, first);
        }
        warnings.push(first);
        if survey.dependencies.is_some() {
            let second = Warning::DependenciesExcluded {
                reason: "the install strategy installs them during package installation".to_owned(),
            };
            proof {
                views_push(warnings@, second);
            }
            warnings.push(second);
        }
        return Ok((state, warnings));
    }
    match &survey.dependencies {
        None => Ok((state, warnings)),
        Some(place) => {
            let architecture = match config.architecture_parsed() {
                Err(e) => {
                    return Err(e);
                },
                Ok(a) => a,
            };
            let start = match canonical_within(survey.root.as_str(), place, DEPENDENCY_DIR) {
                Err(e) => {
                    return Err(e);
                },
                Ok(path) => path,
            };
            let general = Warning::DependenciesMayIncludeDevelopmentPackages;
            proof {
                views_push(warnings@, general);
            }
            warnings.push(general);
            if architecture.is_any() {
                let mut shown = entering(survey.root.as_str());
                shown.append(DEPENDENCY_DIR);
                match find_compiled_addon(&survey.nodes, start.as_str(), shown.as_str()) {
                    Some(example) => {
                        let addon = Warning::CompiledAddonsInArchitectureIndependentPackage {
                            example,
                        };
                        proof {
                            views_push(warnings@, addon);
                        }
                        warnings.push(addon);
                    },
                    None => {},
                }
            }
            assert(views(warnings@) =~= told + vendoring_warnings(
                survey@,
                architecture == Architecture::Any,
                start@,
            ));
            let mut dest_root = app_root(config);
            dest_root.append("/");
            dest_root.append(DEPENDENCY_DIR);
            let tree = Tree {
                start: start.clone(),
                source_root: start,
                dest_root,
                boundary: survey.root.clone(),
                strict: false,
                skip_dependency_dir: false,
            };
            let none: Vec<String> = Vec::new();
            assert(views(none@) =~= Seq::empty());
            match env.walk(&tree, &none, state) {
                Err(e) => Err(e),
                Ok(next) => Ok((next, warnings)),
            }
        },
    }
}

/// Adds the extra files.
fn walk_extra<'a>(config: &ResolvedConfig, survey: &Survey, env: &Env<'a>, state: Gathered) -> (r:
    Result<Gathered>)
    requires
        env@ == env_of(config@, survey@),
    ensures
        outcome(r) == extra_walked(config@, survey@, state@),
{
    match &config.extra_files {
        None => Ok(state),
        Some(extra) => match &survey.extra {
            None => {
                let mut m = "extra-files directory `".to_owned();
                m.append(extra.as_str());
                m.append("` does not exist");
                Err(Error::manifest(m))
            },
            Some(place) => {
                let start = match canonical_within(survey.root.as_str(), place, extra.as_str()) {
                    Err(e) => {
                        return Err(e);
                    },
                    Ok(path) => path,
                };
                let tree = Tree {
                    start: start.clone(),
                    source_root: start.clone(),
                    dest_root: String::new(),
                    boundary: start,
                    strict: true,
                    skip_dependency_dir: false,
                };
                let none: Vec<String> = Vec::new();
                assert(views(none@) =~= Seq::empty());
                assert(tree@.dest_root =~= Seq::empty());
                env.walk(&tree, &none, state)
            },
        },
    }
}

/// Collects planned entries for a project.
///
/// Refuses an absolute or missing input, anything resolving outside the project root (directly
/// or through a symlinked component), sockets, fifos and device nodes, and two different
/// sources claiming one destination.
pub fn collect(config: &ResolvedConfig, survey: &Survey) -> (r: Result<
    (Vec<PlannedFile>, Vec<Warning>),
>)
    ensures
        match r {
            Ok(found) => collected(config@, survey@) == Ok::<
                (Seq<PlannedFileView>, Seq<WarningView>),
                ErrorView,
            >((views(found.0@), views(found.1@))),
            Err(e) => collected(config@, survey@) == Err::<
                (Seq<PlannedFileView>, Seq<WarningView>),
                ErrorView,
            >(e@),
        },
{
    let env = Env {
        nodes: &survey.nodes,
        executed: executed_destinations(config),
        workspaces: canonical_workspace_roots(survey.root.as_str(), &survey.workspaces),
    };
    let (named, told) = match walk_inputs(config, survey, &env) {
        Err(e) => {
            return Err(e);
        },
        Ok(found) => found,
    };
    let described = match walk_manifest(config, survey, &env, named) {
        Err(e) => {
            return Err(e);
        },
        Ok(state) => state,
    };
    let (vendored, warnings) = match collect_dependencies(config, survey, &env, described, told) {
        Err(e) => {
            return Err(e);
        },
        Ok(found) => found,
    };
    let state = match walk_extra(config, survey, &env, vendored) {
        Err(e) => {
            return Err(e);
        },
        Ok(state) => state,
    };
    let link = match executable_symlink(config) {
        Err(e) => {
            return Err(e);
        },
        Ok(link) => link,
    };
    match state.claims.holder(link.destination.as_str()) {
        Some(existing) => {
            if !same(existing, "<generated>") {
                let mut m = "`".to_owned();
                m.append(existing);
                m.append("` and `");
                m.append("<generated>");
                m.append("` both install to `");
                m.append(link.destination.as_str());
                m.append("`; refusing to guess which should win");
                return Err(Error::manifest(m));
            }
        },
        None => {},
    }
    let mut files = state.files;
    proof {
        views_push(files@, link);
    }
    files.push(link);
    Ok((files, warnings))
}

// ---- laws -----------------------------------------------------------------------------------

/// Every entry satisfies `good`.
pub open spec fn all_good(files: Seq<PlannedFileView>, good: spec_fn(PlannedFileView) -> bool) -> bool {
    forall|i: int| 0 <= i < files.len() ==> good(#[trigger] files[i])
}

/// What every step of a kind of tree adds holds of what a walk adds.
proof fn walks_keep(
    env: EnvView,
    tree: TreeView,
    visited: Seq<Seq<char>>,
    i: int,
    state: GatheredView,
    trees: spec_fn(TreeView) -> bool,
    good: spec_fn(PlannedFileView) -> bool,
)
    requires
        trees(tree),
        forall|t: TreeView, v: Seq<Seq<char>>, n: NodeView|
            trees(t) && (#[trigger] step_of(env, t, v, n)) is Enter ==> trees(
                nested_tree(
                    t,
                    step_of(env, t, v, n)->resolved,
                    step_of(env, t, v, n)->dest_root,
                ),
            ),
        forall|t: TreeView, v: Seq<Seq<char>>, n: NodeView|
            trees(t) && (#[trigger] step_of(env, t, v, n)) is Add ==> good(
                step_of(env, t, v, n)->file,
            ),
        all_good(state.files, good),
        walked(env, tree, visited, i, state) is Ok,
    ensures
        all_good(walked(env, tree, visited, i, state)->Ok_0.files, good),
    decreases open_links(env.nodes, visited), env.nodes.len() - i,
{
    if 0 <= i < env.nodes.len() {
        match step_of(env, tree, visited, env.nodes[i]) {
            StepView::Pass => {
                walks_keep(env, tree, visited, i + 1, state, trees, good);
            },
            StepView::Fail(e) => {},
            StepView::Add { file, source } => {
                let next = claimed(state, file, source)->Ok_0;
                assert(all_good(next.files, good));
                walks_keep(env, tree, visited, i + 1, next, trees, good);
            },
            StepView::Enter { resolved, dest_root } => {
                entering_closes_a_link(env.nodes, visited, i);
                let inner = nested_tree(tree, resolved, dest_root);
                walks_keep(env, inner, visited.push(resolved), 0, state, trees, good);
                let next = walked(env, inner, visited.push(resolved), 0, state)->Ok_0;
                walks_keep(env, tree, visited, i + 1, next, trees, good);
            },
        }
    }
}

/// What every step of each tree of a project adds holds of all that is collected from it.
proof fn projects_keep(
    c: ResolvedConfigView,
    survey: SurveyView,
    trees: spec_fn(TreeView) -> bool,
    good: spec_fn(PlannedFileView) -> bool,
)
    requires
        project_walked(c, survey) is Ok,
        forall|k: int, start: Seq<char>|
            0 <= k < survey.inputs.len() && #[trigger] survey.inputs[k].place == (PlaceView::At {
                path: start,
            }) && within(survey.root, start) ==> trees(#[trigger] app_tree(c, survey.root, start)),
        forall|start: Seq<char>|
            survey.manifest == Some(PlaceView::At { path: start }) && within(survey.root, start)
                ==> trees(#[trigger] app_tree(c, survey.root, start)),
        forall|start: Seq<char>|
            !(c.install_strategy is NpmInstall) && survey.dependencies == Some(
                PlaceView::At { path: start },
            ) && within(survey.root, start) ==> trees(
                #[trigger] dependency_tree(c, survey.root, start),
            ),
        forall|start: Seq<char>|
            survey.extra == Some(PlaceView::At { path: start }) && within(survey.root, start)
                ==> trees(#[trigger] extra_tree(start)),
        forall|t: TreeView, v: Seq<Seq<char>>, n: NodeView|
            trees(t) && (#[trigger] step_of(env_of(c, survey), t, v, n)) is Enter ==> trees(
                nested_tree(
                    t,
                    step_of(env_of(c, survey), t, v, n)->resolved,
                    step_of(env_of(c, survey), t, v, n)->dest_root,
                ),
            ),
        forall|t: TreeView, v: Seq<Seq<char>>, n: NodeView|
            trees(t) && (#[trigger] step_of(env_of(c, survey), t, v, n)) is Add ==> good(
                step_of(env_of(c, survey), t, v, n)->file,
            ),
    ensures
        all_good(project_walked(c, survey)->Ok_0.0.files, good),
{
    let env = env_of(c, survey);
    let n = survey.inputs.len() as int;
    inputs_keep(c, survey, n, trees, good);
    let named = inputs_walked(c, survey, n)->Ok_0;
    let described = manifest_walked(c, survey, named.0)->Ok_0;
    if survey.manifest is Some {
        let start = contained(survey.root, survey.manifest->0, "package.json"@)->Ok_0;
        let tree = app_tree(c, survey.root, start);
        assert(trees(tree));
        walks_keep(env, tree, Seq::empty(), 0, named.0, trees, good);
    }
    let vendored = dependencies_walked(c, survey, (described, named.1))->Ok_0;
    if !(c.install_strategy is NpmInstall) && survey.dependencies is Some {
        let start = contained(survey.root, survey.dependencies->0, DEPENDENCY_DIR@)->Ok_0;
        let tree = dependency_tree(c, survey.root, start);
        assert(trees(tree));
        walks_keep(env, tree, Seq::empty(), 0, described, trees, good);
    }
    if c.extra_files is Some {
        let start = contained(survey.root, survey.extra->0, c.extra_files->0)->Ok_0;
        let tree = extra_tree(start);
        assert(trees(tree));
        walks_keep(env, tree, Seq::empty(), 0, vendored.0, trees, good);
    }
}

/// What every step of the application's tree adds holds of what the inputs add.
proof fn inputs_keep(
    c: ResolvedConfigView,
    survey: SurveyView,
    n: int,
    trees: spec_fn(TreeView) -> bool,
    good: spec_fn(PlannedFileView) -> bool,
)
    requires
        n <= survey.inputs.len(),
        inputs_walked(c, survey, n) is Ok,
        forall|k: int, start: Seq<char>|
            0 <= k < survey.inputs.len() && #[trigger] survey.inputs[k].place == (PlaceView::At {
                path: start,
            }) && within(survey.root, start) ==> trees(#[trigger] app_tree(c, survey.root, start)),
        forall|t: TreeView, v: Seq<Seq<char>>, m: NodeView|
            trees(t) && (#[trigger] step_of(env_of(c, survey), t, v, m)) is Enter ==> trees(
                nested_tree(
                    t,
                    step_of(env_of(c, survey), t, v, m)->resolved,
                    step_of(env_of(c, survey), t, v, m)->dest_root,
                ),
            ),
        forall|t: TreeView, v: Seq<Seq<char>>, m: NodeView|
            trees(t) && (#[trigger] step_of(env_of(c, survey), t, v, m)) is Add ==> good(
                step_of(env_of(c, survey), t, v, m)->file,
            ),
    ensures
        all_good(inputs_walked(c, survey, n)->Ok_0.0.files, good),
    decreases n,
{
    if n > 0 {
        inputs_keep(c, survey, n - 1, trees, good);
        let input = survey.inputs[n - 1];
        let before = inputs_walked(c, survey, n - 1)->Ok_0;
        if !has_component(input.label, DEPENDENCY_DIR@) {
            let start = contained(survey.root, input.place, input.label)->Ok_0;
            let tree = app_tree(c, survey.root, start);
            assert(survey.inputs[n - 1].place == PlaceView::At { path: start });
            assert(trees(tree));
            walks_keep(env_of(c, survey), tree, Seq::empty(), 0, before.0, trees, good);
        }
    }
}

/// Granted workspace roots lie inside the project.
proof fn granted_roots_are_inside(root: Seq<char>, declared: Seq<Seq<char>>)
    ensures
        forall|i: int|
            0 <= i < granted(root, declared).len() ==> within(
                root,
                #[trigger] granted(root, declared)[i],
            ) && granted(root, declared)[i] != root,
    decreases declared.len(),
{
    if declared.len() > 0 {
        let before = granted(root, declared.drop_last());
        granted_roots_are_inside(root, declared.drop_last());
        assert forall|i: int| 0 <= i < granted(root, declared).len() implies within(
            root,
            #[trigger] granted(root, declared)[i],
        ) && granted(root, declared)[i] != root by {
            if i < before.len() {
                assert(granted(root, declared)[i] == before[i]);
            }
        }
    }
}

/// A path something named leads to, or a declared workspace admits.
pub open spec fn reachable(c: ResolvedConfigView, survey: SurveyView, path: Seq<char>) -> bool {
    ||| exists|k: int, start: Seq<char>|
        0 <= k < survey.inputs.len() && #[trigger] survey.inputs[k].place == (PlaceView::At {
            path: start,
        }) && #[trigger] within(start, path) && within(survey.root, start)
    ||| exists|start: Seq<char>|
        survey.manifest == Some(PlaceView::At { path: start }) && #[trigger] within(start, path)
            && within(survey.root, start)
    ||| exists|start: Seq<char>|
        survey.dependencies == Some(PlaceView::At { path: start }) && #[trigger] within(
            start,
            path,
        ) && within(survey.root, start)
    ||| exists|start: Seq<char>|
        survey.extra == Some(PlaceView::At { path: start }) && #[trigger] within(start, path)
            && within(survey.root, start)
    ||| admitted(granted(survey.root, survey.workspaces), path)
}

/// Nothing is packaged but what the inputs, the manifest, the dependency directory or the
/// extra-files directory hold, and what lies in a declared workspace root: no link reaches
/// another file of the project.
pub proof fn links_reach_only_declared_workspaces(
    c: ResolvedConfigView,
    survey: SurveyView,
    i: int,
)
    requires
        collected(c, survey) is Ok,
        0 <= i < collected(c, survey)->Ok_0.0.len(),
        collected(c, survey)->Ok_0.0[i].content is FromPath,
    ensures
        reachable(c, survey, collected(c, survey)->Ok_0.0[i].content->path),
{
    let env = env_of(c, survey);
    let ok = |p: Seq<char>| reachable(c, survey, p);
    let trees = |t: TreeView| forall|p: Seq<char>| #[trigger] within(t.start, p) ==> ok(p);
    let good = |f: PlannedFileView|
        f.content matches FileContentView::FromPath { path, len } ==> ok(path);
    assert forall|t: TreeView, v: Seq<Seq<char>>, n: NodeView|
        trees(t) && (#[trigger] step_of(env, t, v, n)) is Enter implies trees(
        nested_tree(t, step_of(env, t, v, n)->resolved, step_of(env, t, v, n)->dest_root),
    ) by {
        let resolved = step_of(env, t, v, n)->resolved;
        assert(admitted(env.workspaces, resolved));
        let w = choose|w: int|
            0 <= w < env.workspaces.len() && within(#[trigger] env.workspaces[w], resolved);
        assert forall|p: Seq<char>| #[trigger] within(resolved, p) implies ok(p) by {
            within_is_transitive(env.workspaces[w], resolved, p);
            assert(admitted(env.workspaces, p));
        }
    }
    assert forall|t: TreeView, v: Seq<Seq<char>>, n: NodeView|
        trees(t) && (#[trigger] step_of(env, t, v, n)) is Add implies good(
        step_of(env, t, v, n)->file,
    ) by {
        assert(within(t.start, n.path));
    }
    projects_keep(c, survey, trees, good);
    let files = project_walked(c, survey)->Ok_0.0.files;
    assert(good(files[i]));
}

/// Nothing packaged comes from outside the project.
pub proof fn nothing_comes_from_outside_the_project(
    c: ResolvedConfigView,
    survey: SurveyView,
    i: int,
)
    requires
        collected(c, survey) is Ok,
        0 <= i < collected(c, survey)->Ok_0.0.len(),
        collected(c, survey)->Ok_0.0[i].content is FromPath,
    ensures
        within(survey.root, collected(c, survey)->Ok_0.0[i].content->path),
{
    links_reach_only_declared_workspaces(c, survey, i);
    let path = collected(c, survey)->Ok_0.0[i].content->path;
    let roots = granted(survey.root, survey.workspaces);
    granted_roots_are_inside(survey.root, survey.workspaces);
    if admitted(roots, path) {
        let w = choose|w: int| 0 <= w < roots.len() && within(#[trigger] roots[w], path);
        within_is_transitive(survey.root, roots[w], path);
    } else if exists|k: int, start: Seq<char>|
        0 <= k < survey.inputs.len() && #[trigger] survey.inputs[k].place == (PlaceView::At {
            path: start,
        }) && #[trigger] within(start, path) && within(survey.root, start) {
        let (k, start) = choose|k: int, start: Seq<char>|
            0 <= k < survey.inputs.len() && #[trigger] survey.inputs[k].place == (PlaceView::At {
                path: start,
            }) && #[trigger] within(start, path) && within(survey.root, start);
        within_is_transitive(survey.root, start, path);
    } else {
        let start = choose|start: Seq<char>| #[trigger]
            within(start, path) && within(survey.root, start) && (survey.manifest == Some(
                PlaceView::At { path: start },
            ) || survey.dependencies == Some(PlaceView::At { path: start }) || survey.extra == Some(
                PlaceView::At { path: start },
            ));
        within_is_transitive(survey.root, start, path);
    }
}

/// A collected file is executable or it is not, nothing in between; what the package executes
/// is executable; and exactly what lands under `/etc` and is no link is configuration.
pub proof fn collected_entries_are_normal(c: ResolvedConfigView, survey: SurveyView, i: int)
    requires
        collected(c, survey) is Ok,
        0 <= i < collected(c, survey)->Ok_0.0.len() - 1,
    ensures
        ({
            let f = collected(c, survey)->Ok_0.0[i];
            &&& f.kind is Regular ==> f.mode == PlannedFile::MODE_EXECUTABLE || f.mode
                == PlannedFile::MODE_REGULAR
            &&& f.kind is Regular && executor(executed_of(c), f.destination) is Some ==> f.mode
                == PlannedFile::MODE_EXECUTABLE
            &&& f.kind is Symlink ==> f.mode == PlannedFile::MODE_SYMLINK
            &&& !(f.kind is Directory)
            &&& f.is_config <==> begins_with(f.destination, CONFIG_PREFIX@) && f.kind is Regular
        }),
{
    let env = env_of(c, survey);
    let trees = |t: TreeView| true;
    let good = |f: PlannedFileView|
        {
            &&& f.kind is Regular ==> f.mode == PlannedFile::MODE_EXECUTABLE || f.mode
                == PlannedFile::MODE_REGULAR
            &&& f.kind is Regular && executor(executed_of(c), f.destination) is Some ==> f.mode
                == PlannedFile::MODE_EXECUTABLE
            &&& f.kind is Symlink ==> f.mode == PlannedFile::MODE_SYMLINK
            &&& !(f.kind is Directory)
            &&& f.is_config <==> begins_with(f.destination, CONFIG_PREFIX@) && f.kind is Regular
        };
    projects_keep(c, survey, trees, good);
    let files = project_walked(c, survey)->Ok_0.0.files;
    assert(good(files[i]));
}

/// Whether no file of a project goes by what claims the generated link. The paths of a survey are
/// absolute, and that is none.
pub open spec fn nothing_poses_as_generated(nodes: Seq<NodeView>) -> bool {
    forall|i: int| 0 <= i < nodes.len() ==> (#[trigger] nodes[i]).path != "<generated>"@
}

/// Each collected destination is claimed, once, by a file of the project.
pub open spec fn claims_hold(state: GatheredView) -> bool {
    &&& forall|k: Seq<char>| #[trigger]
        state.claims.dom().contains(k) ==> state.claims[k] != "<generated>"@
    &&& forall|i: int|
        0 <= i < state.files.len() ==> state.claims.dom().contains(
            (#[trigger] state.files[i]).destination,
        )
    &&& forall|i: int, j: int|
        0 <= i < j < state.files.len() ==> (#[trigger] state.files[i]).destination != (
        #[trigger] state.files[j]).destination
}

proof fn walks_claim(
    env: EnvView,
    tree: TreeView,
    visited: Seq<Seq<char>>,
    i: int,
    state: GatheredView,
)
    requires
        nothing_poses_as_generated(env.nodes),
        claims_hold(state),
        walked(env, tree, visited, i, state) is Ok,
    ensures
        claims_hold(walked(env, tree, visited, i, state)->Ok_0),
    decreases open_links(env.nodes, visited), env.nodes.len() - i,
{
    if 0 <= i < env.nodes.len() {
        match step_of(env, tree, visited, env.nodes[i]) {
            StepView::Pass => {
                walks_claim(env, tree, visited, i + 1, state);
            },
            StepView::Fail(e) => {},
            StepView::Add { file, source } => {
                let next = claimed(state, file, source)->Ok_0;
                assert(claims_hold(next));
                walks_claim(env, tree, visited, i + 1, next);
            },
            StepView::Enter { resolved, dest_root } => {
                entering_closes_a_link(env.nodes, visited, i);
                let inner = nested_tree(tree, resolved, dest_root);
                walks_claim(env, inner, visited.push(resolved), 0, state);
                let next = walked(env, inner, visited.push(resolved), 0, state)->Ok_0;
                walks_claim(env, tree, visited, i + 1, next);
            },
        }
    }
}

proof fn inputs_claim(c: ResolvedConfigView, survey: SurveyView, n: int)
    requires
        nothing_poses_as_generated(survey.nodes),
        inputs_walked(c, survey, n) is Ok,
    ensures
        claims_hold(inputs_walked(c, survey, n)->Ok_0.0),
    decreases n,
{
    if n > 0 {
        inputs_claim(c, survey, n - 1);
        let input = survey.inputs[n - 1];
        let before = inputs_walked(c, survey, n - 1)->Ok_0;
        if !has_component(input.label, DEPENDENCY_DIR@) {
            let start = contained(survey.root, input.place, input.label)->Ok_0;
            walks_claim(
                env_of(c, survey),
                app_tree(c, survey.root, start),
                Seq::empty(),
                0,
                before.0,
            );
        }
    }
}

/// No two entries install to one destination, the `/usr/bin` link among them.
pub proof fn no_destination_is_collected_twice(
    c: ResolvedConfigView,
    survey: SurveyView,
    i: int,
    j: int,
)
    requires
        nothing_poses_as_generated(survey.nodes),
        collected(c, survey) is Ok,
        0 <= i < j < collected(c, survey)->Ok_0.0.len(),
    ensures
        collected(c, survey)->Ok_0.0[i].destination != collected(c, survey)->Ok_0.0[j].destination,
{
    let env = env_of(c, survey);
    let n = survey.inputs.len() as int;
    inputs_claim(c, survey, n);
    let named = inputs_walked(c, survey, n)->Ok_0;
    let described = manifest_walked(c, survey, named.0)->Ok_0;
    if survey.manifest is Some {
        let start = contained(survey.root, survey.manifest->0, "package.json"@)->Ok_0;
        walks_claim(env, app_tree(c, survey.root, start), Seq::empty(), 0, named.0);
    }
    let vendored = dependencies_walked(c, survey, (described, named.1))->Ok_0;
    if !(c.install_strategy is NpmInstall) && survey.dependencies is Some {
        let start = contained(survey.root, survey.dependencies->0, DEPENDENCY_DIR@)->Ok_0;
        walks_claim(env, dependency_tree(c, survey.root, start), Seq::empty(), 0, described);
    }
    if c.extra_files is Some {
        let start = contained(survey.root, survey.extra->0, c.extra_files->0)->Ok_0;
        walks_claim(env, extra_tree(start), Seq::empty(), 0, vendored.0);
    }
    let state = project_walked(c, survey)->Ok_0.0;
    assert(claims_hold(state));
    if j < state.files.len() {
        assert(state.files[i].destination != state.files[j].destination);
    } else {
        assert(state.claims.dom().contains(state.files[i].destination));
    }
}

// ---- completeness ---------------------------------------------------------------------------

/// Whether a survey lists each path once, as a walk of a file system does.
pub open spec fn listed_once(nodes: Seq<NodeView>) -> bool {
    forall|i: int, j: int|
        0 <= i < j < nodes.len() ==> (#[trigger] nodes[i]).path != (#[trigger] nodes[j]).path
}

/// Whether `f` is a copy of the regular file `node`: its bytes, executable where the file can be
/// executed and plain where it cannot.
pub open spec fn copies(node: NodeView, f: PlannedFileView) -> bool {
    match node.kind {
        NodeKindView::File { len, modified, facts } => {
            &&& f.kind is Regular
            &&& f.content == FileContentView::FromPath { path: node.path, len }
            &&& f.mode == (if facts.runnable() {
                0o755u32
            } else {
                0o644
            })
        },
        _ => false,
    }
}

/// Whether `f` is what the package makes of the entry at `source`.
spec fn made_from(nodes: Seq<NodeView>, source: Seq<char>, f: PlannedFileView) -> bool {
    exists|k: int|
        0 <= k < nodes.len() && (#[trigger] nodes[k]).path == source && (nodes[k].kind is File
            ==> copies(nodes[k], f)) && (nodes[k].kind is Symlink ==> f.kind is Symlink)
}

/// Whether an entry made from `source` goes to `destination`.
spec fn arrives(
    nodes: Seq<NodeView>,
    files: Seq<PlannedFileView>,
    source: Seq<char>,
    destination: Seq<char>,
) -> bool {
    exists|i: int|
        0 <= i < files.len() && (#[trigger] files[i]).destination == destination && made_from(
            nodes,
            source,
            files[i],
        )
}

/// Whether there is an entry behind every claim.
spec fn faithful(nodes: Seq<NodeView>, state: GatheredView) -> bool {
    forall|d: Seq<char>| #[trigger]
        state.claims.dom().contains(d) ==> arrives(nodes, state.files, state.claims[d], d)
}

/// Whether every claim of `a` is one of `b`.
spec fn keeps(a: GatheredView, b: GatheredView) -> bool {
    forall|d: Seq<char>| #[trigger]
        a.claims.dom().contains(d) ==> b.claims.dom().contains(d) && b.claims[d] == a.claims[d]
}

proof fn claiming_is_faithful(
    nodes: Seq<NodeView>,
    state: GatheredView,
    file: PlannedFileView,
    source: Seq<char>,
)
    requires
        faithful(nodes, state),
        made_from(nodes, source, file),
        claimed(state, file, source) is Ok,
    ensures
        faithful(nodes, claimed(state, file, source)->Ok_0),
        keeps(state, claimed(state, file, source)->Ok_0),
        claimed(state, file, source)->Ok_0.claims.dom().contains(file.destination),
        claimed(state, file, source)->Ok_0.claims[file.destination] == source,
{
    let next = claimed(state, file, source)->Ok_0;
    if !state.claims.dom().contains(file.destination) {
        assert forall|d: Seq<char>| #[trigger] next.claims.dom().contains(d) implies arrives(
            nodes,
            next.files,
            next.claims[d],
            d,
        ) by {
            if d == file.destination {
                assert(next.files[state.files.len() as int] == file);
            } else {
                assert(state.claims.dom().contains(d));
                let i = choose|i: int|
                    0 <= i < state.files.len() && (#[trigger] state.files[i]).destination == d
                        && made_from(nodes, state.claims[d], state.files[i]);
                assert(next.files[i] == state.files[i]);
            }
        }
    }
}

/// A walk keeps what was claimed, and puts an entry behind every claim.
proof fn walks_are_faithful(
    env: EnvView,
    tree: TreeView,
    visited: Seq<Seq<char>>,
    i: int,
    state: GatheredView,
)
    requires
        faithful(env.nodes, state),
        walked(env, tree, visited, i, state) is Ok,
    ensures
        faithful(env.nodes, walked(env, tree, visited, i, state)->Ok_0),
        keeps(state, walked(env, tree, visited, i, state)->Ok_0),
    decreases open_links(env.nodes, visited), env.nodes.len() - i,
{
    if 0 <= i < env.nodes.len() {
        match step_of(env, tree, visited, env.nodes[i]) {
            StepView::Pass => {
                walks_are_faithful(env, tree, visited, i + 1, state);
            },
            StepView::Fail(e) => {},
            StepView::Add { file, source } => {
                assert(made_from(env.nodes, source, file)) by {
                    assert(env.nodes[i].path == source);
                }
                claiming_is_faithful(env.nodes, state, file, source);
                let next = claimed(state, file, source)->Ok_0;
                walks_are_faithful(env, tree, visited, i + 1, next);
            },
            StepView::Enter { resolved, dest_root } => {
                entering_closes_a_link(env.nodes, visited, i);
                let inner = nested_tree(tree, resolved, dest_root);
                walks_are_faithful(env, inner, visited.push(resolved), 0, state);
                let next = walked(env, inner, visited.push(resolved), 0, state)->Ok_0;
                walks_are_faithful(env, tree, visited, i + 1, next);
            },
        }
    }
}

/// Whether a walk of `tree` takes `node` as it is: a regular file, or a link that leads to
/// something of the same tree.
spec fn taken(tree: TreeView, node: NodeView) -> bool {
    &&& within(tree.start, node.path)
    &&& !(tree.skip_dependency_dir && has_component(node.path, "node_modules"@))
    &&& node.kind is File || (node.kind matches NodeKindView::Symlink(
        LinkTargetView::Resolved { path, facts },
    ) && within(tree.source_root, path))
}

/// A walk that succeeds has claimed the destination of everything it takes.
proof fn walks_reach(
    env: EnvView,
    tree: TreeView,
    visited: Seq<Seq<char>>,
    i: int,
    state: GatheredView,
    k: int,
)
    requires
        faithful(env.nodes, state),
        walked(env, tree, visited, i, state) is Ok,
        0 <= i <= k < env.nodes.len(),
        taken(tree, env.nodes[k]),
    ensures
        ({
            let end = walked(env, tree, visited, i, state)->Ok_0;
            let path = env.nodes[k].path;
            &&& mapped(tree.source_root, tree.dest_root, path) is Ok
            &&& mapped(tree.source_root, tree.dest_root, path)->Ok_0 matches Some(d)
                && end.claims.dom().contains(d) && end.claims[d] == path
        }),
    decreases env.nodes.len() - i,
{
    match step_of(env, tree, visited, env.nodes[i]) {
        StepView::Pass => {
            walks_reach(env, tree, visited, i + 1, state, k);
        },
        StepView::Fail(e) => {},
        StepView::Add { file, source } => {
            assert(made_from(env.nodes, source, file)) by {
                assert(env.nodes[i].path == source);
            }
            claiming_is_faithful(env.nodes, state, file, source);
            let next = claimed(state, file, source)->Ok_0;
            if i == k {
                walks_are_faithful(env, tree, visited, i + 1, next);
            } else {
                walks_reach(env, tree, visited, i + 1, next, k);
            }
        },
        StepView::Enter { resolved, dest_root } => {
            let inner = nested_tree(tree, resolved, dest_root);
            walks_are_faithful(env, inner, visited.push(resolved), 0, state);
            let next = walked(env, inner, visited.push(resolved), 0, state)->Ok_0;
            walks_reach(env, tree, visited, i + 1, next, k);
        },
    }
}

proof fn inputs_are_faithful(c: ResolvedConfigView, survey: SurveyView, n: int)
    requires
        inputs_walked(c, survey, n) is Ok,
    ensures
        faithful(survey.nodes, inputs_walked(c, survey, n)->Ok_0.0),
        n > 0 ==> inputs_walked(c, survey, n - 1) is Ok && keeps(
            inputs_walked(c, survey, n - 1)->Ok_0.0,
            inputs_walked(c, survey, n)->Ok_0.0,
        ),
    decreases n,
{
    if n > 0 {
        inputs_are_faithful(c, survey, n - 1);
        let input = survey.inputs[n - 1];
        let before = inputs_walked(c, survey, n - 1)->Ok_0;
        if !has_component(input.label, DEPENDENCY_DIR@) {
            let start = contained(survey.root, input.place, input.label)->Ok_0;
            walks_are_faithful(
                env_of(c, survey),
                app_tree(c, survey.root, start),
                Seq::empty(),
                0,
                before.0,
            );
        }
    }
}

/// What an input's own walk claims stays claimed.
proof fn inputs_reach(
    c: ResolvedConfigView,
    survey: SurveyView,
    n: int,
    k: int,
    start: Seq<char>,
    j: int,
)
    requires
        0 <= k < n <= survey.inputs.len(),
        inputs_walked(c, survey, n) is Ok,
        survey.inputs[k].place == (PlaceView::At { path: start }),
        !has_component(survey.inputs[k].label, "node_modules"@),
        0 <= j < survey.nodes.len(),
        taken(app_tree(c, survey.root, start), survey.nodes[j]),
    ensures
        ({
            let end = inputs_walked(c, survey, n)->Ok_0.0;
            let path = survey.nodes[j].path;
            &&& mapped(survey.root, app_root_of(c), path) is Ok
            &&& mapped(survey.root, app_root_of(c), path)->Ok_0 matches Some(d)
                && end.claims.dom().contains(d) && end.claims[d] == path
        }),
    decreases n,
{
    inputs_are_faithful(c, survey, n);
    if k == n - 1 {
        inputs_are_faithful(c, survey, n - 1);
        walks_reach(
            env_of(c, survey),
            app_tree(c, survey.root, start),
            Seq::empty(),
            0,
            inputs_walked(c, survey, n - 1)->Ok_0.0,
            j,
        );
    } else {
        inputs_reach(c, survey, n - 1, k, start, j);
    }
}

/// Each part of a collection keeps what the parts before it claimed.
proof fn projects_are_faithful(c: ResolvedConfigView, survey: SurveyView)
    requires
        project_walked(c, survey) is Ok,
    ensures
        ({
            let named = inputs_walked(c, survey, survey.inputs.len() as int)->Ok_0;
            let described = manifest_walked(c, survey, named.0)->Ok_0;
            let vendored = dependencies_walked(c, survey, (described, named.1))->Ok_0;
            let end = project_walked(c, survey)->Ok_0.0;
            &&& faithful(survey.nodes, named.0) && keeps(named.0, end)
            &&& faithful(survey.nodes, described) && keeps(described, end)
            &&& faithful(survey.nodes, vendored.0) && keeps(vendored.0, end)
            &&& faithful(survey.nodes, end)
        }),
{
    let env = env_of(c, survey);
    let n = survey.inputs.len() as int;
    inputs_are_faithful(c, survey, n);
    let named = inputs_walked(c, survey, n)->Ok_0;
    let described = manifest_walked(c, survey, named.0)->Ok_0;
    if survey.manifest is Some {
        let start = contained(survey.root, survey.manifest->0, "package.json"@)->Ok_0;
        walks_are_faithful(env, app_tree(c, survey.root, start), Seq::empty(), 0, named.0);
    }
    let vendored = dependencies_walked(c, survey, (described, named.1))->Ok_0;
    if !(c.install_strategy is NpmInstall) && survey.dependencies is Some {
        let start = contained(survey.root, survey.dependencies->0, DEPENDENCY_DIR@)->Ok_0;
        walks_are_faithful(env, dependency_tree(c, survey.root, start), Seq::empty(), 0, described);
    }
    if c.extra_files is Some {
        let start = contained(survey.root, survey.extra->0, c.extra_files->0)->Ok_0;
        walks_are_faithful(env, extra_tree(start), Seq::empty(), 0, vendored.0);
    }
}

/// Whether the package holds a copy of the regular file `node` at the destination of `path`.
pub open spec fn packaged(files: Seq<PlannedFileView>, node: NodeView, path: Seq<char>) -> bool {
    exists|i: int|
        0 <= i < files.len() && destination_of(path) == Ok::<Seq<char>, ErrorView>(
            (#[trigger] files[i]).destination,
        ) && copies(node, files[i])
}

/// A claim of the end state by a regular file is a copy of it in the package.
proof fn claims_are_packaged(
    c: ResolvedConfigView,
    survey: SurveyView,
    j: int,
    text: Seq<char>,
    d: Seq<char>,
)
    requires
        collected(c, survey) is Ok,
        listed_once(survey.nodes),
        0 <= j < survey.nodes.len(),
        survey.nodes[j].kind is File,
        destination_of(text) == Ok::<Seq<char>, ErrorView>(d),
        project_walked(c, survey)->Ok_0.0.claims.dom().contains(d),
        project_walked(c, survey)->Ok_0.0.claims[d] == survey.nodes[j].path,
    ensures
        packaged(collected(c, survey)->Ok_0.0, survey.nodes[j], text),
{
    let nodes = survey.nodes;
    let end = project_walked(c, survey)->Ok_0.0;
    let files = collected(c, survey)->Ok_0.0;
    projects_are_faithful(c, survey);
    assert(arrives(nodes, end.files, nodes[j].path, d));
    let i = choose|i: int|
        0 <= i < end.files.len() && (#[trigger] end.files[i]).destination == d && made_from(
            nodes,
            nodes[j].path,
            end.files[i],
        );
    let k = choose|k: int|
        0 <= k < nodes.len() && (#[trigger] nodes[k]).path == nodes[j].path && (nodes[k].kind
            is File ==> copies(nodes[k], end.files[i])) && (nodes[k].kind is Symlink
            ==> end.files[i].kind is Symlink);
    assert(k == j);
    assert(files[i] == end.files[i]);
}

/// A path below a root is mapped below the root's destination.
proof fn mapped_below(root: Seq<char>, dest_root: Seq<char>, path: Seq<char>, rest: Seq<char>)
    requires
        rest.len() > 0,
        path == into_root(root) + rest,
    ensures
        within(root, path),
        path != root,
        mapped(root, dest_root, path) == (match destination_of(dest_root + "/"@ + rest) {
            Ok(d) => Ok::<Option<Seq<char>>, ErrorView>(Some(d)),
            Err(e) => Err(e),
        }),
{
    reveal_strlit("/");
    assert(path.take(into_root(root).len() as int) =~= into_root(root));
    assert(below(root, path) =~= rest);
    assert(path.len() > root.len());
}

/// Nothing an input names is left out: every regular file within it, outside `node_modules`, is
/// packaged below the application's directory at the place it has below the project root.
pub proof fn every_named_file_is_packaged(
    c: ResolvedConfigView,
    survey: SurveyView,
    k: int,
    start: Seq<char>,
    j: int,
    rest: Seq<char>,
)
    requires
        collected(c, survey) is Ok,
        listed_once(survey.nodes),
        0 <= k < survey.inputs.len(),
        survey.inputs[k].place == (PlaceView::At { path: start }),
        !has_component(survey.inputs[k].label, "node_modules"@),
        0 <= j < survey.nodes.len(),
        survey.nodes[j].kind is File,
        within(start, survey.nodes[j].path),
        !has_component(survey.nodes[j].path, "node_modules"@),
        rest.len() > 0,
        survey.nodes[j].path == into_root(survey.root) + rest,
    ensures
        packaged(
            collected(c, survey)->Ok_0.0,
            survey.nodes[j],
            c.install_dir + "/"@ + c.package_name + "/app"@ + "/"@ + rest,
        ),
{
    inputs_reach(c, survey, survey.inputs.len() as int, k, start, j);
    projects_are_faithful(c, survey);
    let path = survey.nodes[j].path;
    mapped_below(survey.root, app_root_of(c), path, rest);
    let d = mapped(survey.root, app_root_of(c), path)->Ok_0->0;
    claims_are_packaged(c, survey, j, app_root_of(c) + "/"@ + rest, d);
}

/// The manifest is packaged, whatever the inputs name.
pub proof fn the_manifest_is_packaged(
    c: ResolvedConfigView,
    survey: SurveyView,
    j: int,
    rest: Seq<char>,
)
    requires
        collected(c, survey) is Ok,
        listed_once(survey.nodes),
        0 <= j < survey.nodes.len(),
        survey.nodes[j].kind is File,
        survey.manifest == Some(PlaceView::At { path: survey.nodes[j].path }),
        !has_component(survey.nodes[j].path, "node_modules"@),
        rest.len() > 0,
        survey.nodes[j].path == into_root(survey.root) + rest,
    ensures
        packaged(
            collected(c, survey)->Ok_0.0,
            survey.nodes[j],
            c.install_dir + "/"@ + c.package_name + "/app"@ + "/"@ + rest,
        ),
{
    let path = survey.nodes[j].path;
    projects_are_faithful(c, survey);
    let named = inputs_walked(c, survey, survey.inputs.len() as int)->Ok_0;
    walks_reach(env_of(c, survey), app_tree(c, survey.root, path), Seq::empty(), 0, named.0, j);
    mapped_below(survey.root, app_root_of(c), path, rest);
    let d = mapped(survey.root, app_root_of(c), path)->Ok_0->0;
    claims_are_packaged(c, survey, j, app_root_of(c) + "/"@ + rest, d);
}

/// Vendored dependencies are packaged whole: every regular file of the dependency directory goes
/// below the application's own `node_modules`.
pub proof fn every_vendored_file_is_packaged(
    c: ResolvedConfigView,
    survey: SurveyView,
    start: Seq<char>,
    j: int,
    rest: Seq<char>,
)
    requires
        collected(c, survey) is Ok,
        listed_once(survey.nodes),
        !(c.install_strategy is NpmInstall),
        survey.dependencies == Some(PlaceView::At { path: start }),
        0 <= j < survey.nodes.len(),
        survey.nodes[j].kind is File,
        rest.len() > 0,
        survey.nodes[j].path == into_root(start) + rest,
    ensures
        packaged(
            collected(c, survey)->Ok_0.0,
            survey.nodes[j],
            c.install_dir + "/"@ + c.package_name + "/app"@ + "/"@ + "node_modules"@ + "/"@ + rest,
        ),
{
    let path = survey.nodes[j].path;
    let dest_root = app_root_of(c) + "/"@ + DEPENDENCY_DIR@;
    projects_are_faithful(c, survey);
    mapped_below(start, dest_root, path, rest);
    let named = inputs_walked(c, survey, survey.inputs.len() as int)->Ok_0;
    let described = manifest_walked(c, survey, named.0)->Ok_0;
    walks_reach(
        env_of(c, survey),
        dependency_tree(c, survey.root, start),
        Seq::empty(),
        0,
        described,
        j,
    );
    let d = mapped(start, dest_root, path)->Ok_0->0;
    claims_are_packaged(c, survey, j, dest_root + "/"@ + rest, d);
}

/// Extra files are packaged whole, each at the place below the file system root that it has below
/// its directory.
pub proof fn every_extra_file_is_packaged(
    c: ResolvedConfigView,
    survey: SurveyView,
    start: Seq<char>,
    j: int,
    rest: Seq<char>,
)
    requires
        collected(c, survey) is Ok,
        listed_once(survey.nodes),
        c.extra_files is Some,
        survey.extra == Some(PlaceView::At { path: start }),
        0 <= j < survey.nodes.len(),
        survey.nodes[j].kind is File,
        rest.len() > 0,
        survey.nodes[j].path == into_root(start) + rest,
    ensures
        packaged(collected(c, survey)->Ok_0.0, survey.nodes[j], "/"@ + rest),
{
    let path = survey.nodes[j].path;
    projects_are_faithful(c, survey);
    mapped_below(start, Seq::empty(), path, rest);
    let named = inputs_walked(c, survey, survey.inputs.len() as int)->Ok_0;
    let described = manifest_walked(c, survey, named.0)->Ok_0;
    let vendored = dependencies_walked(c, survey, (described, named.1))->Ok_0;
    walks_reach(env_of(c, survey), extra_tree(start), Seq::empty(), 0, vendored.0, j);
    let d = mapped(start, Seq::empty(), path)->Ok_0->0;
    assert(Seq::<char>::empty() + "/"@ + rest =~= "/"@ + rest);
    claims_are_packaged(c, survey, j, "/"@ + rest, d);
}

/// A walk that succeeds has claimed, for every link whose contents it packages, the destination
/// of every regular file found there.
proof fn walks_enter(
    env: EnvView,
    tree: TreeView,
    visited: Seq<Seq<char>>,
    i: int,
    state: GatheredView,
    k: int,
    target: Seq<char>,
    m: int,
)
    requires
        faithful(env.nodes, state),
        walked(env, tree, visited, i, state) is Ok,
        0 <= i <= k < env.nodes.len(),
        within(tree.start, env.nodes[k].path),
        !tree.skip_dependency_dir,
        env.nodes[k].kind matches NodeKindView::Symlink(LinkTargetView::Resolved { path, facts })
            && path == target,
        !within(tree.source_root, target),
        0 <= m < env.nodes.len(),
        env.nodes[m].kind is File,
        within(target, env.nodes[m].path),
    ensures
        ({
            let end = walked(env, tree, visited, i, state)->Ok_0;
            let link = mapped(tree.source_root, tree.dest_root, env.nodes[k].path);
            &&& link is Ok && link->Ok_0 is Some
            &&& mapped(target, link->Ok_0->0, env.nodes[m].path) is Ok
            &&& mapped(target, link->Ok_0->0, env.nodes[m].path)->Ok_0 matches Some(d)
                && end.claims.dom().contains(d) && end.claims[d] == env.nodes[m].path
        }),
    decreases env.nodes.len() - i,
{
    match step_of(env, tree, visited, env.nodes[i]) {
        StepView::Pass => {
            walks_enter(env, tree, visited, i + 1, state, k, target, m);
        },
        StepView::Fail(e) => {},
        StepView::Add { file, source } => {
            assert(made_from(env.nodes, source, file)) by {
                assert(env.nodes[i].path == source);
            }
            claiming_is_faithful(env.nodes, state, file, source);
            let next = claimed(state, file, source)->Ok_0;
            walks_enter(env, tree, visited, i + 1, next, k, target, m);
        },
        StepView::Enter { resolved, dest_root } => {
            let inner = nested_tree(tree, resolved, dest_root);
            walks_are_faithful(env, inner, visited.push(resolved), 0, state);
            let next = walked(env, inner, visited.push(resolved), 0, state)->Ok_0;
            if i == k {
                walks_reach(env, inner, visited.push(resolved), 0, state, m);
                walks_are_faithful(env, tree, visited, i + 1, next);
            } else {
                walks_enter(env, tree, visited, i + 1, next, k, target, m);
            }
        },
    }
}

/// A dependency that is a link to a workspace package is packaged whole, in the link's place:
/// every regular file of the workspace package goes below the destination of the link.
pub proof fn every_linked_workspace_file_is_packaged(
    c: ResolvedConfigView,
    survey: SurveyView,
    start: Seq<char>,
    k: int,
    link_rest: Seq<char>,
    target: Seq<char>,
    j: int,
    rest: Seq<char>,
)
    requires
        collected(c, survey) is Ok,
        listed_once(survey.nodes),
        !(c.install_strategy is NpmInstall),
        survey.dependencies == Some(PlaceView::At { path: start }),
        0 <= k < survey.nodes.len(),
        survey.nodes[k].kind matches NodeKindView::Symlink(
            LinkTargetView::Resolved { path, facts },
        ) && path == target,
        link_rest.len() > 0,
        survey.nodes[k].path == into_root(start) + link_rest,
        !within(start, target),
        0 <= j < survey.nodes.len(),
        survey.nodes[j].kind is File,
        rest.len() > 0,
        survey.nodes[j].path == into_root(target) + rest,
    ensures
        destination_of(
            c.install_dir + "/"@ + c.package_name + "/app"@ + "/"@ + "node_modules"@ + "/"@
                + link_rest,
        ) matches Ok(link) && packaged(
            collected(c, survey)->Ok_0.0,
            survey.nodes[j],
            link + "/"@ + rest,
        ),
{
    let dest_root = app_root_of(c) + "/"@ + DEPENDENCY_DIR@;
    projects_are_faithful(c, survey);
    mapped_below(start, dest_root, survey.nodes[k].path, link_rest);
    let named = inputs_walked(c, survey, survey.inputs.len() as int)->Ok_0;
    let described = manifest_walked(c, survey, named.0)->Ok_0;
    let path = survey.nodes[j].path;
    let link = mapped(start, dest_root, survey.nodes[k].path)->Ok_0->0;
    mapped_below(target, link, path, rest);
    walks_enter(
        env_of(c, survey),
        dependency_tree(c, survey.root, start),
        Seq::empty(),
        0,
        described,
        k,
        target,
        j,
    );
    let d = mapped(target, link, path)->Ok_0->0;
    claims_are_packaged(c, survey, j, link + "/"@ + rest, d);
}

/// A link an input holds, leading to something else of the project, is packaged as a link at the
/// place it has below the project root.
pub proof fn every_named_link_is_packaged(
    c: ResolvedConfigView,
    survey: SurveyView,
    k: int,
    start: Seq<char>,
    j: int,
    rest: Seq<char>,
)
    requires
        collected(c, survey) is Ok,
        listed_once(survey.nodes),
        0 <= k < survey.inputs.len(),
        survey.inputs[k].place == (PlaceView::At { path: start }),
        !has_component(survey.inputs[k].label, "node_modules"@),
        0 <= j < survey.nodes.len(),
        survey.nodes[j].kind matches NodeKindView::Symlink(
            LinkTargetView::Resolved { path, facts },
        ) && within(survey.root, path),
        within(start, survey.nodes[j].path),
        !has_component(survey.nodes[j].path, "node_modules"@),
        rest.len() > 0,
        survey.nodes[j].path == into_root(survey.root) + rest,
    ensures
        exists|i: int|
            0 <= i < collected(c, survey)->Ok_0.0.len() && destination_of(
                c.install_dir + "/"@ + c.package_name + "/app"@ + "/"@ + rest,
            ) == Ok::<Seq<char>, ErrorView>(
                (#[trigger] collected(c, survey)->Ok_0.0[i]).destination,
            ) && collected(c, survey)->Ok_0.0[i].kind is Symlink,
{
    let nodes = survey.nodes;
    inputs_reach(c, survey, survey.inputs.len() as int, k, start, j);
    projects_are_faithful(c, survey);
    let path = nodes[j].path;
    mapped_below(survey.root, app_root_of(c), path, rest);
    let d = mapped(survey.root, app_root_of(c), path)->Ok_0->0;
    let end = project_walked(c, survey)->Ok_0.0;
    assert(arrives(nodes, end.files, path, d));
    let i = choose|i: int|
        0 <= i < end.files.len() && (#[trigger] end.files[i]).destination == d && made_from(
            nodes,
            path,
            end.files[i],
        );
    let m = choose|m: int|
        0 <= m < nodes.len() && (#[trigger] nodes[m]).path == path && (nodes[m].kind is File
            ==> copies(nodes[m], end.files[i])) && (nodes[m].kind is Symlink
            ==> end.files[i].kind is Symlink);
    assert(m == j);
    assert(collected(c, survey)->Ok_0.0[i] == end.files[i]);
}

/// A link is packaged as a link that leads, in the package, to where what it led to in the
/// project is installed.
pub proof fn a_link_leads_where_it_led(
    env: EnvView,
    tree: TreeView,
    visited: Seq<Seq<char>>,
    node: NodeView,
)
    requires
        step_of(env, tree, visited, node) is Add,
        node.kind is Symlink,
    ensures
        ({
            let f = step_of(env, tree, visited, node)->file;
            &&& node.kind->Symlink_0 matches LinkTargetView::Resolved { path, facts } && within(
                tree.boundary,
                path,
            ) && (mapped(tree.source_root, tree.dest_root, path) matches Ok(Some(target))
                && f.kind == (EntryKindView::Symlink { target: link_target(f.destination, target) }))
            &&& mapped(tree.source_root, tree.dest_root, node.path) == Ok::<
                Option<Seq<char>>,
                ErrorView,
            >(Some(f.destination))
            &&& f.content is Absent
            &&& f.mode == 0o777
            &&& !f.is_config
        }),
{
}

// ---- what is refused ------------------------------------------------------------------------

/// A walk that succeeds refused nothing.
proof fn walks_refuse_nothing(
    env: EnvView,
    tree: TreeView,
    visited: Seq<Seq<char>>,
    i: int,
    state: GatheredView,
    k: int,
)
    requires
        walked(env, tree, visited, i, state) is Ok,
        0 <= i <= k < env.nodes.len(),
    ensures
        !(step_of(env, tree, visited, env.nodes[k]) is Fail),
    decreases env.nodes.len() - i,
{
    if i < k {
        match step_of(env, tree, visited, env.nodes[i]) {
            StepView::Pass => {
                walks_refuse_nothing(env, tree, visited, i + 1, state, k);
            },
            StepView::Fail(e) => {},
            StepView::Add { file, source } => {
                let next = claimed(state, file, source)->Ok_0;
                walks_refuse_nothing(env, tree, visited, i + 1, next, k);
            },
            StepView::Enter { resolved, dest_root } => {
                let inner = nested_tree(tree, resolved, dest_root);
                let next = walked(env, inner, visited.push(resolved), 0, state)->Ok_0;
                walks_refuse_nothing(env, tree, visited, i + 1, next, k);
            },
        }
    }
}

proof fn each_input_is_walked(c: ResolvedConfigView, survey: SurveyView, n: int, k: int)
    requires
        0 <= k < n <= survey.inputs.len(),
        inputs_walked(c, survey, n) is Ok,
    ensures
        !begins_with(survey.inputs[k].label, "/"@),
        inputs_walked(c, survey, k) is Ok,
        inputs_walked(c, survey, k + 1) is Ok,
        !has_component(survey.inputs[k].label, "node_modules"@) ==> (survey.inputs[k].place matches
            PlaceView::At { path } && within(survey.root, path) && walked(
            env_of(c, survey),
            app_tree(c, survey.root, path),
            Seq::empty(),
            0,
            inputs_walked(c, survey, k)->Ok_0.0,
        ) is Ok),
    decreases n,
{
    if k < n - 1 {
        each_input_is_walked(c, survey, n - 1, k);
    }
}

/// An input is relative to the project root, exists and stays inside the project, or collection
/// fails.
pub proof fn stray_inputs_are_refused(c: ResolvedConfigView, survey: SurveyView, k: int)
    requires
        0 <= k < survey.inputs.len(),
        collected(c, survey) is Ok,
    ensures
        !begins_with(survey.inputs[k].label, "/"@),
        !has_component(survey.inputs[k].label, "node_modules"@) ==> (survey.inputs[k].place matches
            PlaceView::At { path } && within(survey.root, path)),
{
    each_input_is_walked(c, survey, survey.inputs.len() as int, k);
}

/// Whatever an input holds is packaged or refused, never dropped: where collection succeeds, each
/// entry of an input outside `node_modules` is a directory, a readable regular file or a link
/// that leads to something of the project.
pub proof fn nothing_named_is_dropped(
    c: ResolvedConfigView,
    survey: SurveyView,
    k: int,
    start: Seq<char>,
    j: int,
)
    requires
        collected(c, survey) is Ok,
        0 <= k < survey.inputs.len(),
        survey.inputs[k].place == (PlaceView::At { path: start }),
        !has_component(survey.inputs[k].label, "node_modules"@),
        0 <= j < survey.nodes.len(),
        within(start, survey.nodes[j].path),
    ensures
        !(survey.nodes[j].kind is Failed),
        !has_component(survey.nodes[j].path, "node_modules"@) ==> {
            ||| survey.nodes[j].kind is Directory
            ||| survey.nodes[j].kind is File
            ||| survey.nodes[j].kind matches NodeKindView::Symlink(
                LinkTargetView::Resolved { path, facts },
            ) && within(survey.root, path)
        },
{
    each_input_is_walked(c, survey, survey.inputs.len() as int, k);
    walks_refuse_nothing(
        env_of(c, survey),
        app_tree(c, survey.root, start),
        Seq::empty(),
        0,
        inputs_walked(c, survey, k)->Ok_0.0,
        j,
    );
}

/// A dependency tree holds no unreadable file and no link out of the project or to a place that
/// no declared workspace admits, or collection fails; a dangling link or a socket in it is
/// ordinary.
pub proof fn stray_dependencies_are_refused(
    c: ResolvedConfigView,
    survey: SurveyView,
    start: Seq<char>,
    j: int,
)
    requires
        collected(c, survey) is Ok,
        !(c.install_strategy is NpmInstall),
        survey.dependencies == Some(PlaceView::At { path: start }),
        0 <= j < survey.nodes.len(),
        within(start, survey.nodes[j].path),
    ensures
        within(survey.root, start),
        !(survey.nodes[j].kind is Failed),
        !(survey.nodes[j].kind is UnreadableFile),
        survey.nodes[j].kind matches NodeKindView::Symlink(
            LinkTargetView::Resolved { path, facts },
        ) ==> within(survey.root, path) && (within(start, path) || admitted(
            granted(survey.root, survey.workspaces),
            path,
        )),
{
    let named = inputs_walked(c, survey, survey.inputs.len() as int)->Ok_0;
    let described = manifest_walked(c, survey, named.0)->Ok_0;
    walks_refuse_nothing(
        env_of(c, survey),
        dependency_tree(c, survey.root, start),
        Seq::empty(),
        0,
        described,
        j,
    );
}

/// Oddities of a dependency tree stop nothing: a dangling link, a socket or a directory in it is
/// passed over.
pub proof fn odd_dependencies_are_passed_over(
    c: ResolvedConfigView,
    survey: SurveyView,
    start: Seq<char>,
    visited: Seq<Seq<char>>,
    node: NodeView,
)
    requires
        node.kind is Directory || node.kind is Special || node.kind == NodeKindView::Symlink(
            LinkTargetView::Dangling,
        ),
        mapped(start, app_root_of(c) + "/"@ + "node_modules"@, node.path) is Ok,
    ensures
        step_of(env_of(c, survey), dependency_tree(c, survey.root, start), visited, node)
            is Pass,
{
}

/// An extra-files directory that was asked for is there and lies inside the project, and all it
/// holds is a directory, a readable regular file or a link that stays inside it; otherwise
/// collection fails.
pub proof fn stray_extra_files_are_refused(c: ResolvedConfigView, survey: SurveyView, j: int)
    requires
        collected(c, survey) is Ok,
        c.extra_files is Some,
        0 <= j < survey.nodes.len(),
    ensures
        survey.extra matches Some(PlaceView::At { path: start }) && within(survey.root, start) && (
        within(start, survey.nodes[j].path) ==> {
            ||| survey.nodes[j].kind is Directory
            ||| survey.nodes[j].kind is File
            ||| survey.nodes[j].kind matches NodeKindView::Symlink(
                LinkTargetView::Resolved { path, facts },
            ) && within(start, path)
        }),
{
    let named = inputs_walked(c, survey, survey.inputs.len() as int)->Ok_0;
    let described = manifest_walked(c, survey, named.0)->Ok_0;
    let vendored = dependencies_walked(c, survey, (described, named.1))->Ok_0;
    let start = survey.extra->0->At_path;
    walks_refuse_nothing(env_of(c, survey), extra_tree(start), Seq::empty(), 0, vendored.0, j);
}

/// A file that the package executes directly is one the kernel can execute, or collection fails.
pub proof fn what_is_executed_can_be(
    c: ResolvedConfigView,
    survey: SurveyView,
    tree: TreeView,
    visited: Seq<Seq<char>>,
    node: NodeView,
    entry: Seq<char>,
)
    requires
        node.kind is File,
        within(tree.start, node.path),
        !(tree.skip_dependency_dir && has_component(node.path, "node_modules"@)),
        (c.cli_entrypoint == Some(entry)) || (c.daemon_entrypoint == Some(entry) && !(c.init
            is NoInit)),
        destination_of(c.install_dir + "/"@ + c.package_name + "/app"@ + "/"@ + entry) is Ok,
        mapped(tree.source_root, tree.dest_root, node.path) == Ok::<Option<Seq<char>>, ErrorView>(
            Some(
                destination_of(
                    c.install_dir + "/"@ + c.package_name + "/app"@ + "/"@ + entry,
                )->Ok_0,
            ),
        ),
        !node.kind->facts.runnable(),
    ensures
        step_of(env_of(c, survey), tree, visited, node) is Fail,
{
    let executed = executed_of(c);
    let d = destination_of(app_root_of(c) + "/"@ + entry)->Ok_0;
    reveal_with_fuel(executor, 3);
    if executed.len() > 0 {
        assert(executed.drop_first().len() == executed.len() - 1);
        if executed.len() > 1 {
            assert(executed.drop_first()[0] == executed[1]);
        }
    }
    assert(executor(executed, d) is Some);
}

/// Nothing of `node_modules` is packaged but by the install strategy: a packaged file whose path
/// has such a component comes from vendored dependencies, from the extra-files directory or from
/// a workspace package; where dependencies are installed at install time, not from the first.
pub proof fn dependencies_come_by_the_strategy_alone(
    c: ResolvedConfigView,
    survey: SurveyView,
    i: int,
)
    requires
        collected(c, survey) is Ok,
        0 <= i < collected(c, survey)->Ok_0.0.len(),
        collected(c, survey)->Ok_0.0[i].content is FromPath,
        has_component(collected(c, survey)->Ok_0.0[i].content->path, "node_modules"@),
    ensures
        ({
            let path = collected(c, survey)->Ok_0.0[i].content->path;
            ||| !(c.install_strategy is NpmInstall) && (survey.dependencies matches Some(
                PlaceView::At { path: start },
            ) && within(start, path))
            ||| survey.extra matches Some(PlaceView::At { path: start }) && within(start, path)
            ||| admitted(granted(survey.root, survey.workspaces), path)
        }),
{
    let env = env_of(c, survey);
    let ok = |p: Seq<char>|
        {
            ||| !has_component(p, "node_modules"@)
            ||| !(c.install_strategy is NpmInstall) && (survey.dependencies matches Some(
                PlaceView::At { path: start },
            ) && within(start, p))
            ||| survey.extra matches Some(PlaceView::At { path: start }) && within(start, p)
            ||| admitted(granted(survey.root, survey.workspaces), p)
        };
    let trees = |t: TreeView|
        t.skip_dependency_dir || forall|p: Seq<char>| #[trigger] within(t.start, p) ==> ok(p);
    let good = |f: PlannedFileView|
        f.content matches FileContentView::FromPath { path, len } ==> ok(path);
    assert forall|t: TreeView, v: Seq<Seq<char>>, n: NodeView|
        trees(t) && (#[trigger] step_of(env, t, v, n)) is Enter implies trees(
        nested_tree(t, step_of(env, t, v, n)->resolved, step_of(env, t, v, n)->dest_root),
    ) by {
        let resolved = step_of(env, t, v, n)->resolved;
        assert(admitted(env.workspaces, resolved));
        let w = choose|w: int|
            0 <= w < env.workspaces.len() && within(#[trigger] env.workspaces[w], resolved);
        assert forall|p: Seq<char>| #[trigger] within(resolved, p) implies ok(p) by {
            within_is_transitive(env.workspaces[w], resolved, p);
            assert(admitted(env.workspaces, p));
        }
    }
    assert forall|t: TreeView, v: Seq<Seq<char>>, n: NodeView|
        trees(t) && (#[trigger] step_of(env, t, v, n)) is Add implies good(
        step_of(env, t, v, n)->file,
    ) by {
        assert(within(t.start, n.path));
    }
    projects_keep(c, survey, trees, good);
    let files = project_walked(c, survey)->Ok_0.0.files;
    assert(good(files[i]));
}

// ---- what is warned of ----------------------------------------------------------------------

/// An input that names `node_modules` is warned of, and is the only reason inputs give to warn.
proof fn inputs_warn(c: ResolvedConfigView, survey: SurveyView, n: int)
    requires
        0 <= n <= survey.inputs.len(),
        inputs_walked(c, survey, n) is Ok,
    ensures
        inputs_walked(c, survey, n)->Ok_0.1.len() > 0 <==> exists|k: int|
            0 <= k < n && has_component((#[trigger] survey.inputs[k]).label, "node_modules"@),
        forall|i: int|
            0 <= i < inputs_walked(c, survey, n)->Ok_0.1.len() ==> #[trigger] inputs_walked(
                c,
                survey,
                n,
            )->Ok_0.1[i] is DependenciesExcluded,
    decreases n,
{
    if n > 0 {
        inputs_warn(c, survey, n - 1);
        let told = inputs_walked(c, survey, n)->Ok_0.1;
        let before = inputs_walked(c, survey, n - 1)->Ok_0.1;
        if has_component(survey.inputs[n - 1].label, "node_modules"@) {
            assert(told == before.push(excluded_by_command_line()));
        } else {
            assert(told == before);
        }
    }
}

/// What becomes of `node_modules` is told: that an input's was passed over, that dependencies
/// are installed at install time, that vendored ones may include development packages, and that
/// a compiled addon does not fit a package for every architecture.
pub proof fn what_becomes_of_dependencies_is_told(c: ResolvedConfigView, survey: SurveyView)
    requires
        collected(c, survey) is Ok,
    ensures
        ({
            let told = collected(c, survey)->Ok_0.1;
            let strange = exists|k: int|
                0 <= k < survey.inputs.len() && has_component(
                    (#[trigger] survey.inputs[k]).label,
                    "node_modules"@,
                );
            &&& strange ==> told.len() > 0 && told[0] is DependenciesExcluded
            &&& c.install_strategy is NpmInstall <==> told.contains(
                WarningView::DependenciesInstalledAtInstallTime,
            )
            &&& !(c.install_strategy is NpmInstall) && survey.dependencies is Some
                <==> told.contains(WarningView::DependenciesMayIncludeDevelopmentPackages)
            &&& c.install_strategy is NpmInstall && survey.dependencies is Some ==> told.last()
                is DependenciesExcluded
            &&& !strange && !(c.install_strategy is NpmInstall) && survey.dependencies is None
                ==> told.len() == 0
        }),
{
    let n = survey.inputs.len() as int;
    inputs_warn(c, survey, n);
    let named = inputs_walked(c, survey, n)->Ok_0;
    let described = manifest_walked(c, survey, named.0)->Ok_0;
    let told = collected(c, survey)->Ok_0.1;
    let m = named.1.len() as int;
    assert(forall|i: int| 0 <= i < m ==> told[i] == named.1[i]);
    if c.install_strategy is NpmInstall {
        assert(told[m] is DependenciesInstalledAtInstallTime);
        assert(forall|i: int|
            0 <= i < told.len() ==> !(#[trigger] told[i] is DependenciesMayIncludeDevelopmentPackages));
    } else if survey.dependencies is Some {
        assert(told[m] is DependenciesMayIncludeDevelopmentPackages);
        assert(forall|i: int|
            0 <= i < told.len() ==> !(#[trigger] told[i] is DependenciesInstalledAtInstallTime));
    } else {
        assert(told == named.1);
    }
}

/// The first addon found is one of the tree, and one is found where there is one.
proof fn addons_are_found(nodes: Seq<NodeView>, tree: Seq<char>, shown: Seq<char>, i: int)
    requires
        0 <= i <= nodes.len(),
    ensures
        addon_from(nodes, tree, shown, i) is Some <==> exists|k: int|
            i <= k < nodes.len() && ((#[trigger] nodes[k]).kind is File || nodes[k].kind
                is UnreadableFile) && within(tree, nodes[k].path) && is_addon(nodes[k].path),
        addon_from(nodes, tree, shown, i) matches Some(s) ==> exists|k: int|
            i <= k < nodes.len() && is_addon((#[trigger] nodes[k]).path) && within(
                tree,
                nodes[k].path,
            ) && s == shown + nodes[k].path.skip(tree.len() as int),
    decreases nodes.len() - i,
{
    if i < nodes.len() {
        addons_are_found(nodes, tree, shown, i + 1);
    }
}

/// A package for every architecture warns of a compiled addon among its vendored dependencies,
/// naming one, exactly where there is one; a package for one architecture does not.
pub proof fn compiled_addons_are_warned_of(
    c: ResolvedConfigView,
    survey: SurveyView,
    start: Seq<char>,
)
    requires
        collected(c, survey) is Ok,
        !(c.install_strategy is NpmInstall),
        survey.dependencies == Some(PlaceView::At { path: start }),
    ensures
        collected(c, survey)->Ok_0.1.len() > 0,
        collected(c, survey)->Ok_0.1.last() is CompiledAddonsInArchitectureIndependentPackage
            <==> architecture_named(c.architecture) == Ok::<Architecture, ErrorView>(
            Architecture::Any,
        ) && exists|k: int|
            0 <= k < survey.nodes.len() && ((#[trigger] survey.nodes[k]).kind is File
                || survey.nodes[k].kind is UnreadableFile) && within(start, survey.nodes[k].path)
                && is_addon(survey.nodes[k].path),
{
    addons_are_found(survey.nodes, start, dependency_path(survey.root), 0);
    let told = collected(c, survey)->Ok_0.1;
    let named = inputs_walked(c, survey, survey.inputs.len() as int)->Ok_0;
    let more = vendoring_warnings(
        survey,
        architecture_named(c.architecture)->Ok_0 == Architecture::Any,
        start,
    );
    assert(told == named.1 + more);
    assert(told.last() == more.last());
}

// ---- what the configuration decides, and workspaces --------------------------------------------

/// What the package executes directly is the command's entry point, and with a service the
/// daemon's; nothing else.
pub proof fn the_entry_points_are_executed(c: ResolvedConfigView, d: Seq<char>)
    ensures
        executor(executed_of(c), d) is Some <==> {
            ||| c.cli_entrypoint matches Some(e) && destination_of(
                c.install_dir + "/"@ + c.package_name + "/app"@ + "/"@ + e,
            ) == Ok::<Seq<char>, ErrorView>(d)
            ||| !(c.init is NoInit) && (c.daemon_entrypoint matches Some(e) && destination_of(
                c.install_dir + "/"@ + c.package_name + "/app"@ + "/"@ + e,
            ) == Ok::<Seq<char>, ErrorView>(d))
        },
{
    let executed = executed_of(c);
    reveal_with_fuel(executor, 3);
    if executed.len() > 0 {
        assert(executed.drop_first().len() == executed.len() - 1);
        if executed.len() > 1 {
            assert(executed.drop_first()[0] == executed[1]);
        }
    }
}

/// The command is a link on the usual path, under the executable's name, to the wrapper of that
/// name beside the application; it is the last entry collected.
pub proof fn the_command_is_on_the_path(c: ResolvedConfigView, survey: SurveyView)
    requires
        collected(c, survey) is Ok,
    ensures
        ({
            let f = collected(c, survey)->Ok_0.0.last();
            &&& destination_of("/usr/bin"@ + "/"@ + c.executable_name) == Ok::<
                Seq<char>,
                ErrorView,
            >(f.destination)
            &&& destination_of(
                c.install_dir + "/"@ + c.package_name + "/bin/"@ + c.executable_name,
            ) matches Ok(target) && f.kind == (EntryKindView::Symlink {
                target: link_target(f.destination, target),
            })
            &&& f.mode == 0o777
            &&& !f.is_config
        }),
{
}

/// Every declared workspace root inside the project is granted, and nothing else is: not the
/// project itself, and nothing outside it.
pub proof fn workspaces_inside_the_project_are_granted(
    root: Seq<char>,
    declared: Seq<Seq<char>>,
    path: Seq<char>,
)
    ensures
        granted(root, declared).contains(path) <==> declared.contains(path) && within(root, path)
            && path != root,
    decreases declared.len(),
{
    if declared.len() > 0 {
        let init = declared.drop_last();
        let last = declared.last();
        workspaces_inside_the_project_are_granted(root, init, path);
        assert(declared =~= init.push(last));
        selections_hold::<Seq<char>>();
        assert(init.push(last).contains(path) <==> init.contains(path) || path == last);
    } else {
        assert(!declared.contains(path));
        assert(granted(root, declared).len() == 0);
    }
}

/// A link to a place that is already being packaged through a link is refused, so packaging ends.
pub proof fn links_in_a_circle_are_refused(
    env: EnvView,
    tree: TreeView,
    visited: Seq<Seq<char>>,
    node: NodeView,
    target: Seq<char>,
)
    requires
        within(tree.start, node.path),
        !tree.skip_dependency_dir,
        node.kind matches NodeKindView::Symlink(LinkTargetView::Resolved { path, facts }) && path
            == target,
        !within(tree.source_root, target),
        visited.contains(target) || !admitted(env.workspaces, target) || !within(
            tree.boundary,
            target,
        ),
    ensures
        step_of(env, tree, visited, node) is Fail,
{
}

proof fn last_dot_before(stem: Seq<char>, ending: Seq<char>)
    requires
        !ending.contains('.'),
    ensures
        last_dot(stem.push('.') + ending) == Some(stem.len() as int),
    decreases ending.len(),
{
    let name = stem.push('.') + ending;
    if ending.len() == 0 {
        assert(name =~= stem.push('.'));
    } else {
        let init = ending.drop_last();
        assert forall|i: int| 0 <= i < init.len() implies init[i] != '.' by {
            assert(ending.contains(ending[i]));
        }
        assert(ending.contains(ending[ending.len() - 1]));
        assert(name.last() == ending.last());
        assert(name.drop_last() =~= stem.push('.') + init);
        last_dot_before(stem, init);
    }
}

/// A compiled addon is a file whose name ends in `.node`, in any case, after at least one
/// character; what its directories are called plays no part.
pub proof fn addons_are_known_by_their_ending(dir: Seq<char>, stem: Seq<char>, ending: Seq<char>)
    requires
        !stem.contains('/'),
        !ending.contains('/'),
        !ending.contains('.'),
    ensures
        is_addon(dir + "/"@ + stem + "."@ + ending) <==> stem.len() > 0 && lowercase(ending)
            == "node"@,
{
    reveal_strlit("/");
    reveal_strlit(".");
    let name = stem.push('.') + ending;
    assert forall|i: int| 0 <= i < name.len() implies name[i] != '/' by {
        if i < stem.len() {
            assert(stem.contains(stem[i]));
        } else if i > stem.len() {
            assert(ending.contains(ending[i - stem.len() - 1]));
        }
    }
    assert(dir + "/"@ + stem + "."@ + ending =~= dir.push('/') + name);
    split_append(dir, name, '/');
    last_dot_before(stem, ending);
    assert(name.skip(stem.len() as int + 1) =~= ending);
}

/// What lies below `/etc` is configuration, links excepted, and being marked changes nothing else
/// of an entry.
pub proof fn configuration_lies_below_etc(f: PlannedFileView)
    ensures
        marked(f) == (PlannedFileView { is_config: marked(f).is_config, ..f }),
        marked(f).is_config <==> f.is_config || (f.destination.len() >= 5 && f.destination.take(5)
            == "/etc/"@ && !(f.kind is Symlink)),
{
    reveal_strlit("/etc/");
    assert("/etc/"@.len() == 5);
    if f.destination.len() >= 5 {
        assert(f.destination.take(5) =~= f.destination.subrange(0, 5));
    }
}

/// A file is packaged as it is, readable by all, and executable by all where it can be run; a link
/// is a link, open to all.
pub proof fn files_keep_what_they_are(
    destination: Seq<char>,
    path: Seq<char>,
    len: u64,
    runnable: bool,
    target: Seq<char>,
)
    ensures
        ({
            let f = file_entry(destination, path, len, runnable);
            &&& f.destination == destination && f.kind is Regular
            &&& f.content == (FileContentView::FromPath { path, len })
            &&& f.mode == (if runnable {
                0o755u32
            } else {
                0o644
            })
        }),
        link_entry(destination, target).destination == destination,
        link_entry(destination, target).kind is Symlink,
        link_entry(destination, target).mode == 0o777,
        !link_entry(destination, target).is_config,
{
}

} // verus!
