//! The RPM backend: an `.rpm` (lead, signature, header, compressed cpio payload) assembled in
//! process, so that one can be built on a Debian host.

pub mod error;
pub mod scriptlets;
pub mod snippets;
pub mod writer;

use vstd::prelude::*;

use crate::build::{policy_fits, policy_plan, policy_refused, preset_entry, with_preset};
use crate::codec::{lossy, lossy_text};
use crate::dependencies::named_dependencies;
use crate::error::opt;
use crate::packing::Sources;
use crate::plan::{
    completed_is, completes, copy_bytes, BuildPlan, BuildPlanView, EntryKind, EntryKindView,
    FileContent, FileContentView, PlannedFile, PlannedFileView,
};
use crate::rpm::error::settled;
use crate::rpm::scriptlets::{early, runs_before_install};
use crate::rpm::writer::{
    bears, new_recipe, rpm_accepts, rpm_assembles, rpm_image, rpm_recipe, stamped,
    with_entry, FinishFault, RecipeView, RpmEntryKind, RpmWriter,
};
use crate::strings::{same, split, split_at_char, views};

pub use crate::dependencies::dependency_names;
pub use crate::rpm::error::{Error, ErrorView, Result};

verus! {

/// RPM requires a licence; saying the manifest declared none is honest, inventing one is not.
pub const UNKNOWN_LICENSE: &'static str = "UNKNOWN";

/// How to write a package.
#[derive(Debug)]
pub struct Options {
    /// Scriptlets as name and contents, named in RPM's own vocabulary (`pre`, `post`, `preun`,
    /// `postun`), never dpkg's: dpkg's `$1` is an action word, RPM's is a package count.
    pub maintainer_scripts: Vec<(String, Vec<u8>)>,
    /// Service whose unit the scriptlets preset, so that the package must also ship the preset
    /// policy; Fedora's `disable *` default otherwise leaves the service disabled. Decided with
    /// [`scriptlets::uses_preset`].
    pub preset_service: Option<String>,
}

pub struct OptionsView {
    pub maintainer_scripts: Seq<(Seq<char>, Seq<u8>)>,
    pub preset_service: Option<Seq<char>>,
}

impl View for Options {
    type V = OptionsView;

    open spec fn view(&self) -> OptionsView {
        OptionsView {
            maintainer_scripts: self.maintainer_scripts@.map_values(
                |s: (String, Vec<u8>)| (s.0@, s.1@),
            ),
            preset_service: opt(self.preset_service),
        }
    }
}

impl Default for Options {
    fn default() -> (o: Self)
        ensures
            o@ == (OptionsView { maintainer_scripts: Seq::empty(), preset_service: None }),
    {
        let o = Options { maintainer_scripts: Vec::new(), preset_service: None };
        assert(o@.maintainer_scripts =~= Seq::empty());
        o
    }
}

// ---- what a package says of itself ------------------------------------------------------------

/// The name of the file a plan's package is written to, given its base.
pub open spec fn named_file(base: Seq<char>, p: BuildPlanView) -> Seq<char> {
    let id = p.identity;
    base + "-"@ + id.version_rpm + "-"@ + id.release_rpm + "."@ + id.architecture.rpm_spelling()
        + ".rpm"@
}

/// The conventional name of the file a plan's package is written to.
pub open spec fn package_file(p: BuildPlanView) -> Seq<char> {
    named_file(p.identity.package_name, p)
}

/// The file name for a package, with a base of the caller's choice.
pub fn file_name_from(base: &str, plan: &BuildPlan) -> (s: String)
    ensures
        s@ == named_file(base@, plan@),
{
    let identity = &plan.identity;
    let mut s = base.to_owned();
    s.append("-");
    s.append(identity.version_rpm.as_str());
    s.append("-");
    s.append(identity.release_rpm.as_str());
    s.append(".");
    s.append(identity.architecture.rpm());
    s.append(".rpm");
    s
}

/// The conventional file name for a package.
pub fn file_name(plan: &BuildPlan) -> (s: String)
    ensures
        s@ == package_file(plan@),
{
    file_name_from(plan.identity.package_name.as_str(), plan)
}

/// A time clamped to RPM's epoch field.
pub open spec fn clamped(secs: u64) -> u32 {
    if secs <= u32::MAX {
        secs as u32
    } else {
        u32::MAX
    }
}

/// The build timestamp, clamped to RPM's 32-bit epoch field rather than wrapped into the past.
pub fn source_date(plan: &BuildPlan) -> (d: u32)
    ensures
        d == clamped(plan@.timestamp),
{
    let secs: u64 = plan.timestamp.as_secs();
    if secs <= u32::MAX as u64 {
        secs as u32
    } else {
        u32::MAX
    }
}

/// The permission bits of a mode.
pub open spec fn permissions(mode: u32) -> u16 {
    (mode & 0o7777) as u16
}

/// Permission bits without file-type bits; the mask leaves twelve bits.
pub fn mode_bits(mode: u32) -> (bits: u16)
    ensures
        bits == permissions(mode),
        bits <= 0o7777,
        bits == mode % 0o10000,
{
    assert(mode & 0o7777 <= 0o7777) by (bit_vector);
    assert(mode & 0o7777 == mode % 0o10000) by (bit_vector);
    (mode & 0o7777) as u16
}

/// The description RPM shows: the synopsis, and the body after a blank line where there is one.
pub open spec fn description_of(p: BuildPlanView) -> Seq<char> {
    let d = p.identity.description;
    if d.body.len() == 0 {
        d.synopsis
    } else {
        d.synopsis + "\n\n"@ + d.body
    }
}

/// The description RPM shows, synopsis included when there is no body.
pub fn full_description(plan: &BuildPlan) -> (s: String)
    ensures
        s@ == description_of(plan@),
{
    let description = &plan.identity.description;
    let mut s = description.synopsis.clone();
    if !description.body.as_str().is_empty() {
        s.append("\n\n");
        s.append(description.body.as_str());
    }
    s
}

/// Roots no package may claim, whatever its name. A backstop for a package named after a system
/// directory; the real rule is [`owns_directory`].
pub open spec fn filesystem_roots() -> Seq<Seq<char>> {
    seq![
        "/"@,
        "/bin"@,
        "/boot"@,
        "/etc"@,
        "/lib"@,
        "/lib64"@,
        "/opt"@,
        "/run"@,
        "/sbin"@,
        "/srv"@,
        "/usr"@,
        "/var"@,
    ]
}

fn is_filesystem_root(path: &str) -> (b: bool)
    ensures
        b == filesystem_roots().contains(path@),
{
    let b = same(path, "/") || same(path, "/bin") || same(path, "/boot") || same(path, "/etc")
        || same(path, "/lib") || same(path, "/lib64") || same(path, "/opt") || same(path, "/run")
        || same(path, "/sbin") || same(path, "/srv") || same(path, "/usr") || same(path, "/var");
    proof {
        let roots = filesystem_roots();
        assert(roots[0] == "/"@ && roots[1] == "/bin"@ && roots[2] == "/boot"@ && roots[3]
            == "/etc"@ && roots[4] == "/lib"@ && roots[5] == "/lib64"@ && roots[6] == "/opt"@
            && roots[7] == "/run"@ && roots[8] == "/sbin"@ && roots[9] == "/srv"@ && roots[10]
            == "/usr"@ && roots[11] == "/var"@);
        if roots.contains(path@) {
            let i = roots.index_of(path@);
            assert(0 <= i < 12);
        }
    }
    b
}

/// Whether a package owns a directory: not a root of the filesystem, and its name is one of the
/// components.
pub open spec fn owned(package: Seq<char>, path: Seq<char>) -> bool {
    !filesystem_roots().contains(path) && split_at_char(path, '/').contains(package)
}

/// Whether the package owns a directory rather than merely installing into it.
///
/// `/usr` and `/etc` belong to `filesystem`; RPM, unlike dpkg, does not reference-count shared
/// directories, so claiming them makes two packages own one path. A list of system directories
/// alone would claim `/usr/local` for a package installed below it, and the install directory
/// is free-form.
pub fn owns_directory(plan: &BuildPlan, path: &str) -> (b: bool)
    ensures
        b == owned(plan@.identity.package_name, path@),
{
    if is_filesystem_root(path) {
        return false;
    }
    let package = plan.identity.package_name.as_str();
    let parts = split(path, '/');
    let ghost all = split_at_char(path@, '/');
    let mut i: usize = 0;
    while i < parts.len()
        invariant
            i <= parts@.len(),
            views(parts@) == all,
            all == split_at_char(path@, '/'),
            package@ == plan@.identity.package_name,
            !filesystem_roots().contains(path@),
            forall|j: int| 0 <= j < i ==> #[trigger] all[j] != package@,
        decreases parts@.len() - i,
    {
        assert(all[i as int] == parts@[i as int]@);
        if same(parts[i].as_str(), package) {
            assert(all.contains(package@));
            return true;
        }
        i = i + 1;
    }
    assert(!all.contains(package@));
    false
}

// ---- the recipe -------------------------------------------------------------------------------

/// The requirements some dependencies become: what `%pre` itself calls must be there before
/// installing starts.
pub open spec fn requirements(names: Seq<Seq<char>>) -> Seq<(Seq<char>, bool)> {
    names.map_values(|name: Seq<char>| (name, early(name)))
}

/// A package without its entries and scriptlets.
pub open spec fn identity_recipe(p: BuildPlanView) -> RecipeView {
    let id = p.identity;
    RecipeView {
        source_date: Some(clamped(p.timestamp)),
        release: id.release_rpm,
        description: Some(description_of(p)),
        packager: Some(id.maintainer),
        epoch: id.epoch,
        url: id.homepage,
        requires: requirements(named_dependencies(id.dependencies)),
        ..new_recipe(
            id.package_name,
            id.version_rpm,
            match id.license {
                Some(text) => text,
                None => UNKNOWN_LICENSE@,
            },
            id.architecture.rpm_spelling(),
            id.description.synopsis,
        )
    }
}

pub open spec fn rpm_error(context: Seq<char>) -> ErrorView {
    ErrorView::Rpm { context }
}

/// The failure to add a file read from a path.
pub open spec fn unreadable(destination: Seq<char>, path: Seq<char>) -> ErrorView {
    rpm_error("could not add `"@ + destination + "` from `"@ + path + "`"@)
}

/// What one entry adds to a package. A file read from disk keeps its own time where that is
/// before the package's: entries are dated when they are added, and the package's date caps
/// them.
pub open spec fn entry_added(
    recipe: RecipeView,
    file: PlannedFileView,
    sources: Map<Seq<char>, core::result::Result<(Seq<u8>, u64), Seq<char>>>,
) -> core::result::Result<RecipeView, ErrorView> {
    let at = file.destination;
    let taken = recipe.entries.dom().contains(at);
    match file.kind {
        EntryKindView::Symlink { target } => if target.len() == 0 || taken {
            Err(rpm_error("could not add symlink `"@ + at + "`"@))
        } else {
            Ok(with_entry(recipe, at, RpmEntryKind::Symlink { target }))
        },
        EntryKindView::Directory => if taken {
            Err(rpm_error("could not add directory `"@ + at + "`"@))
        } else {
            Ok(with_entry(recipe, at, RpmEntryKind::Directory { mode: permissions(file.mode) }))
        },
        EntryKindView::Regular => match file.content {
            FileContentView::Inline(bytes) => if taken {
                Err(rpm_error("could not add `"@ + at + "`"@))
            } else {
                Ok(
                    with_entry(
                        recipe,
                        at,
                        RpmEntryKind::File {
                            mode: permissions(file.mode),
                            config: file.is_config,
                            bytes,
                        },
                    ),
                )
            },
            FileContentView::FromPath { path, len } => if taken || !sources.dom().contains(path)
                || sources[path] is Err || sources[path]->Ok_0.1 > u32::MAX {
                Err(unreadable(at, path))
            } else {
                let read = sources[path]->Ok_0;
                let dated = RecipeView { source_date: Some(read.1 as u32), ..recipe };
                Ok(
                    RecipeView {
                        source_date: recipe.source_date,
                        ..with_entry(
                            dated,
                            at,
                            RpmEntryKind::File {
                                mode: permissions(file.mode),
                                config: file.is_config,
                                bytes: read.0,
                            },
                        )
                    },
                )
            },
            FileContentView::Absent => Err(
                ErrorView::Unrepresentable {
                    destination: at,
                    reason: "a regular file with no content is a defect in the plan"@,
                },
            ),
        },
    }
}

/// The package after the first `n` entries; directories the package does not own are passed
/// over.
pub open spec fn entries_added(
    p: BuildPlanView,
    sources: Map<Seq<char>, core::result::Result<(Seq<u8>, u64), Seq<char>>>,
    n: int,
) -> core::result::Result<RecipeView, ErrorView>
    decreases n,
{
    if n <= 0 {
        Ok(identity_recipe(p))
    } else {
        match entries_added(p, sources, n - 1) {
            Err(e) => Err(e),
            Ok(before) => {
                let file = p.files[n - 1];
                if file.kind is Directory && !owned(p.identity.package_name, file.destination) {
                    Ok(before)
                } else {
                    entry_added(before, file, sources)
                }
            },
        }
    }
}

pub open spec fn unmapped_script(name: Seq<char>) -> ErrorView {
    ErrorView::Unrepresentable {
        destination: name,
        reason: "RPM's scriptlet slots are `pre`, `post`, `preun` and `postun`; this name is none of them"@,
    }
}

/// What one scriptlet adds to a package.
pub open spec fn script_added(recipe: RecipeView, name: Seq<char>, text: Seq<char>) -> core::result::Result<
    RecipeView,
    ErrorView,
> {
    if name == "pre"@ {
        Ok(RecipeView { pre: Some(text), ..recipe })
    } else if name == "post"@ {
        Ok(RecipeView { post: Some(text), ..recipe })
    } else if name == "preun"@ {
        Ok(RecipeView { preun: Some(text), ..recipe })
    } else if name == "postun"@ {
        Ok(RecipeView { postun: Some(text), ..recipe })
    } else {
        Err(unmapped_script(name))
    }
}

/// The package after the first `n` scriptlets.
pub open spec fn scripts_added(
    recipe: RecipeView,
    scripts: Seq<(Seq<char>, Seq<u8>)>,
    n: int,
) -> core::result::Result<RecipeView, ErrorView>
    decreases n,
{
    if n <= 0 {
        Ok(recipe)
    } else {
        match scripts_added(recipe, scripts, n - 1) {
            Err(e) => Err(e),
            Ok(before) => script_added(before, scripts[n - 1].0, lossy_text(scripts[n - 1].1)),
        }
    }
}

/// Everything the package of a plan that has its preset policy is assembled from.
pub open spec fn recipe_of(
    p: BuildPlanView,
    options: OptionsView,
    sources: Map<Seq<char>, core::result::Result<(Seq<u8>, u64), Seq<char>>>,
) -> core::result::Result<RecipeView, ErrorView> {
    match entries_added(p, sources, p.files.len() as int) {
        Err(e) => Err(e),
        Ok(recipe) => scripts_added(
            recipe,
            options.maintainer_scripts,
            options.maintainer_scripts.len() as int,
        ),
    }
}

/// What writing a package comes to: an image of its recipe, or the first thing that stands in
/// its way.
pub open spec fn packages(
    p: BuildPlanView,
    options: OptionsView,
    sources: Map<Seq<char>, core::result::Result<(Seq<u8>, u64), Seq<char>>>,
    r: core::result::Result<Seq<u8>, ErrorView>,
) -> bool {
    if policy_fits(p, options.preset_service) {
        match recipe_of(policy_plan(p, options.preset_service), options, sources) {
            Err(e) => r == Err::<Seq<u8>, ErrorView>(e),
            Ok(recipe) => if rpm_accepts(recipe) {
                r is Ok && rpm_assembles(recipe, r->Ok_0)
            } else {
                r == Err::<Seq<u8>, ErrorView>(rpm_error("could not assemble the package"@))
            },
        }
    } else {
        r is Err && r->Err_0 is Core && policy_refused(
            p,
            options.preset_service,
            r->Err_0->Core_0,
        )
    }
}


// ---- writing ----------------------------------------------------------------------------------

/// A sentence with a path in it.
fn about(before: &str, path: &str, after: &str) -> (s: String)
    ensures
        s@ == before@ + path@ + after@,
{
    let mut s = before.to_owned();
    s.append(path);
    s.append(after);
    s
}

/// Adds the bytes of a regular file.
fn add_bytes(builder: &mut RpmWriter, file: &PlannedFile, bytes: Vec<u8>) -> (r:
    core::result::Result<(), String>)
    requires
        rpm_recipe(*old(builder)).source_date is Some,
    ensures
        (r is Err) == rpm_recipe(*old(builder)).entries.dom().contains(file@.destination),
        r is Ok ==> rpm_recipe(*final(builder)) == with_entry(
            rpm_recipe(*old(builder)),
            file@.destination,
            RpmEntryKind::File {
                mode: permissions(file@.mode),
                config: file@.is_config,
                bytes: bytes@,
            },
        ),
{
    let destination = file.destination.as_str();
    let mode = mode_bits(file.mode);
    if file.is_config {
        // `noreplace` keeps an administrator's edits across an upgrade, like `conffiles`.
        builder.add_config(destination, mode, bytes)
    } else {
        builder.add_file(destination, mode, bytes)
    }
}

/// Adds one plan entry to the builder. A source older than the plan's timestamp keeps its own
/// time, where the other backends stamp every entry.
fn add_entry(builder: &mut RpmWriter, file: &PlannedFile, sources: &Sources, date: u32) -> (r:
    Result<()>)
    requires
        rpm_recipe(*old(builder)).source_date == Some(date),
    ensures
        match r {
            Ok(_) => entry_added(rpm_recipe(*old(builder)), file@, sources.dated()) == Ok::<
                RecipeView,
                ErrorView,
            >(rpm_recipe(*final(builder))) && rpm_recipe(*final(builder)).source_date == Some(date),
            Err(e) => entry_added(rpm_recipe(*old(builder)), file@, sources.dated()) == Err::<
                RecipeView,
                ErrorView,
            >(e@),
        },
{
    let destination = file.destination.as_str();
    match &file.kind {
        EntryKind::Symlink { target } => match builder.add_symlink(destination, target.as_str()) {
            Ok(_) => Ok(()),
            Err(said) => Err(Error::rpm(about("could not add symlink `", destination, "`"), said)),
        },
        EntryKind::Directory => match builder.add_directory(destination, mode_bits(file.mode)) {
            Ok(_) => Ok(()),
            Err(said) => Err(Error::rpm(about("could not add directory `", destination, "`"), said)),
        },
        EntryKind::Regular => match &file.content {
            FileContent::Inline(bytes) => match add_bytes(builder, file, copy_bytes(bytes)) {
                Ok(_) => Ok(()),
                Err(said) => Err(Error::rpm(about("could not add `", destination, "`"), said)),
            },
            FileContent::FromPath { path, len } => {
                let mut context = about("could not add `", destination, "` from `");
                context.append(path.as_str());
                context.append("`");
                let read = match sources.get(path.as_str()) {
                    None => {
                        return Err(Error::rpm(context, "no bytes were read from it".to_owned()));
                    },
                    Some(Err(reason)) => {
                        return Err(Error::rpm(context, reason.clone()));
                    },
                    Some(Ok(read)) => read,
                };
                if read.modified > u32::MAX as u64 {
                    return Err(
                        Error::rpm(context, "its time does not fit a package".to_owned()),
                    );
                }
                builder.set_source_date(read.modified as u32);
                match add_bytes(builder, file, copy_bytes(&read.bytes)) {
                    Ok(_) => {
                        builder.set_source_date(date);
                        Ok(())
                    },
                    Err(said) => Err(Error::rpm(context, said)),
                }
            },
            FileContent::Absent => Err(
                Error::Unrepresentable {
                    destination: destination.to_owned(),
                    reason: "a regular file with no content is a defect in the plan".to_owned(),
                },
            ),
        },
    }
}

/// A failure among the first entries is a failure of them all.
proof fn early_entry_failure(
    p: BuildPlanView,
    sources: Map<Seq<char>, core::result::Result<(Seq<u8>, u64), Seq<char>>>,
    n: int,
    m: int,
)
    requires
        0 <= n <= m,
        entries_added(p, sources, n) is Err,
    ensures
        entries_added(p, sources, m) == entries_added(p, sources, n),
    decreases m - n,
{
    if n < m {
        early_entry_failure(p, sources, n, m - 1);
    }
}

proof fn early_script_failure(
    recipe: RecipeView,
    scripts: Seq<(Seq<char>, Seq<u8>)>,
    n: int,
    m: int,
)
    requires
        0 <= n <= m,
        scripts_added(recipe, scripts, n) is Err,
    ensures
        scripts_added(recipe, scripts, m) == scripts_added(recipe, scripts, n),
    decreases m - n,
{
    if n < m {
        early_script_failure(recipe, scripts, n, m - 1);
    }
}

/// A builder that holds what a package says of itself.
fn start(plan: &BuildPlan) -> (builder: RpmWriter)
    ensures
        rpm_recipe(builder) == identity_recipe(plan@),
{
    let identity = &plan.identity;
    let license = match &identity.license {
        Some(text) => text.as_str(),
        None => UNKNOWN_LICENSE,
    };
    let mut builder = RpmWriter::new(
        identity.package_name.as_str(),
        identity.version_rpm.as_str(),
        license,
        identity.architecture.rpm(),
        identity.description.synopsis.as_str(),
    );
    builder.set_source_date(source_date(plan));
    builder.set_release(identity.release_rpm.as_str());
    builder.set_description(full_description(plan));
    builder.set_packager(identity.maintainer.as_str());
    match identity.epoch {
        Some(epoch) => {
            builder.set_epoch(epoch);
        },
        None => {},
    }
    match &identity.homepage {
        Some(homepage) => {
            builder.set_url(homepage.as_str());
        },
        None => {},
    }
    let names = match &identity.dependencies {
        Some(text) => dependency_names(Some(text.as_str())),
        None => dependency_names(None),
    };
    let ghost all = requirements(named_dependencies(plan@.identity.dependencies));
    let ghost base = rpm_recipe(builder);
    let mut i: usize = 0;
    assert(base.requires =~= all.take(0));
    while i < names.len()
        invariant
            i <= names@.len(),
            views(names@) == named_dependencies(plan@.identity.dependencies),
            all == requirements(named_dependencies(plan@.identity.dependencies)),
            rpm_recipe(builder) == (RecipeView { requires: all.take(i as int), ..base }),
        decreases names@.len() - i,
    {
        let name = names[i].as_str();
        proof {
            assert(views(names@)[i as int] == name@);
            assert(all[i as int] == (name@, early(name@)));
            assert(all.take(i + 1) =~= all.take(i as int).push(all[i as int]));
        }
        // A plain requirement does not promise that the package is configured as early as
        // `%pre` runs.
        if runs_before_install(name) {
            builder.add_early_requirement(name);
        } else {
            builder.add_requirement(name);
        }
        i = i + 1;
    }
    assert(all.take(i as int) =~= all);
    builder
}

/// Puts everything a package is assembled from into a builder.
fn fill(plan: &BuildPlan, options: &Options, sources: &Sources) -> (r: Result<RpmWriter>)
    ensures
        match r {
            Ok(builder) => recipe_of(plan@, options@, sources.dated()) == Ok::<RecipeView, ErrorView>(
                rpm_recipe(builder),
            ) && rpm_recipe(builder).source_date is Some,
            Err(e) => recipe_of(plan@, options@, sources.dated()) == Err::<RecipeView, ErrorView>(e@),
        },
{
    let date = source_date(plan);
    let mut builder = start(plan);
    let ghost n = plan@.files.len() as int;
    let mut i: usize = 0;
    // Directories too: the plan synthesises every ancestor, and a header that lists only files
    // leaves the application's directory behind when the package is erased.
    while i < plan.files.len()
        invariant
            i <= plan.files@.len(),
            n == plan@.files.len(),
            entries_added(plan@, sources.dated(), i as int) == Ok::<RecipeView, ErrorView>(
                rpm_recipe(builder),
            ),
            rpm_recipe(builder).source_date == Some(date),
        decreases plan.files@.len() - i,
    {
        let file = &plan.files[i];
        assert(plan@.files[i as int] == file@);
        if !file.is_directory() || owns_directory(plan, file.destination.as_str()) {
            match add_entry(&mut builder, file, sources, date) {
                Err(e) => {
                    proof {
                        early_entry_failure(plan@, sources.dated(), i + 1, n);
                    }
                    return Err(e);
                },
                Ok(_) => {},
            }
        }
        i = i + 1;
    }
    let ghost recipe = rpm_recipe(builder);
    let ghost scripts = options@.maintainer_scripts;
    let ghost m = scripts.len() as int;
    let mut i: usize = 0;
    while i < options.maintainer_scripts.len()
        invariant
            i <= options.maintainer_scripts@.len(),
            scripts == options@.maintainer_scripts,
            m == scripts.len(),
            entries_added(plan@, sources.dated(), plan@.files.len() as int) == Ok::<
                RecipeView,
                ErrorView,
            >(recipe),
            scripts_added(recipe, scripts, i as int) == Ok::<RecipeView, ErrorView>(
                rpm_recipe(builder),
            ),
            rpm_recipe(builder).source_date is Some,
        decreases options.maintainer_scripts@.len() - i,
    {
        let (name, contents) = &options.maintainer_scripts[i];
        assert(scripts[i as int] == (name@, contents@));
        let script = lossy(contents.as_slice());
        if same(name.as_str(), "pre") {
            builder.set_pre(script);
        } else if same(name.as_str(), "post") {
            builder.set_post(script);
        } else if same(name.as_str(), "preun") {
            builder.set_preun(script);
        } else if same(name.as_str(), "postun") {
            builder.set_postun(script);
        } else {
            proof {
                early_script_failure(recipe, scripts, i + 1, m);
            }
            return Err(
                Error::Unrepresentable {
                    destination: name.clone(),
                    reason: "RPM's scriptlet slots are `pre`, `post`, `preun` and `postun`; this name is none of them".to_owned(),
                },
            );
        }
        i = i + 1;
    }
    Ok(builder)
}

/// Builds the package in memory. `sources` holds what was read of the files the plan copies.
pub fn build_bytes(plan: &BuildPlan, options: &Options, sources: &Sources) -> (r: Result<
    Vec<u8>,
>)
    ensures
        packages(plan@, options@, sources.dated(), settled(r)),
{
    let service = match &options.preset_service {
        Some(name) => Some(name.as_str()),
        None => None,
    };
    let plan = match with_preset(plan, service) {
        Err(e) => {
            return Err(Error::Core(e));
        },
        Ok(p) => p,
    };
    let builder = match fill(&plan, options, sources) {
        Err(e) => {
            return Err(e);
        },
        Ok(builder) => builder,
    };
    let ghost recipe = rpm_recipe(builder);
    match builder.finish() {
        Ok(bytes) => {
            proof {
                let built = choose|built: u32|
                    built <= recipe.source_date->0 && #[trigger] rpm_image(recipe, built)
                        == bytes@ && bears(bytes@, built);
                assert(stamped(recipe, built, bytes@));
            }
            Ok(bytes)
        },
        Err(FinishFault::Assemble(said)) => Err(
            Error::rpm("could not assemble the package".to_owned(), said),
        ),
        Err(FinishFault::Serialise(said)) => Err(
            Error::rpm("could not serialise the package".to_owned(), said),
        ),
    }
}

// ---- laws -------------------------------------------------------------------------------------

/// Builds are reproducible: two packages of the same plan with the same build time are the same
/// bytes. The build time is never later than the plan's date.
pub proof fn builds_are_reproducible(
    p: BuildPlanView,
    options: OptionsView,
    sources: Map<Seq<char>, core::result::Result<(Seq<u8>, u64), Seq<char>>>,
    a: Seq<u8>,
    b: Seq<u8>,
    built: u32,
)
    requires
        packages(p, options, sources, Ok(a)),
        packages(p, options, sources, Ok(b)),
        stamped(
            recipe_of(policy_plan(p, options.preset_service), options, sources)->Ok_0,
            built,
            a,
        ),
        stamped(
            recipe_of(policy_plan(p, options.preset_service), options, sources)->Ok_0,
            built,
            b,
        ),
    ensures
        a == b,
        built <= clamped(p.timestamp),
{
    let q = policy_plan(p, options.preset_service);
    entries_keep_the_identity(q, sources, q.files.len() as int);
    let recipe = entries_added(q, sources, q.files.len() as int)->Ok_0;
    scripts_keep_the_rest(
        recipe,
        options.maintainer_scripts,
        options.maintainer_scripts.len() as int,
    );
}

/// The recipe a package was assembled from.
pub open spec fn followed_recipe(
    p: BuildPlanView,
    options: OptionsView,
    sources: Map<Seq<char>, core::result::Result<(Seq<u8>, u64), Seq<char>>>,
) -> RecipeView {
    recipe_of(policy_plan(p, options.preset_service), options, sources)->Ok_0
}

/// A plan with another date gives other bytes, whatever else differs. Dates ahead of the clock
/// are left out: they are not the build time.
pub proof fn another_date_gives_other_bytes(
    p: BuildPlanView,
    q: BuildPlanView,
    options: OptionsView,
    sources: Map<Seq<char>, core::result::Result<(Seq<u8>, u64), Seq<char>>>,
    a: Seq<u8>,
    b: Seq<u8>,
)
    requires
        p.timestamp != q.timestamp,
        p.timestamp <= u32::MAX,
        q.timestamp <= u32::MAX,
        packages(p, options, sources, Ok(a)),
        packages(q, options, sources, Ok(b)),
        stamped(followed_recipe(p, options, sources), p.timestamp as u32, a),
        stamped(followed_recipe(q, options, sources), q.timestamp as u32, b),
    ensures
        a != b,
{
    if a == b {
        let other = followed_recipe(q, options, sources);
        assert(rpm_accepts(other));
        assert(rpm_image(other, q.timestamp as u32) == a);
    }
}

/// A package is assembled with the identity of its plan.
pub proof fn the_recipe_says_what_the_plan_does(
    p: BuildPlanView,
    options: OptionsView,
    sources: Map<Seq<char>, core::result::Result<(Seq<u8>, u64), Seq<char>>>,
)
    requires
        recipe_of(policy_plan(p, options.preset_service), options, sources) is Ok,
    ensures
        ({
            let recipe = followed_recipe(p, options, sources);
            let id = p.identity;
            &&& recipe.name == id.package_name
            &&& recipe.epoch == id.epoch
            &&& recipe.version == id.version_rpm
            &&& recipe.release == id.release_rpm
            &&& recipe.arch == id.architecture.rpm_spelling()
            &&& recipe.license == (match id.license {
                Some(text) => text,
                None => UNKNOWN_LICENSE@,
            })
            &&& recipe.summary == id.description.synopsis
            &&& recipe.description == Some(description_of(p))
            &&& recipe.url == id.homepage
            &&& recipe.packager == Some(id.maintainer)
            &&& recipe.source_date == Some(clamped(p.timestamp))
            &&& recipe.requires == requirements(named_dependencies(id.dependencies))
        }),
{
    let q = policy_plan(p, options.preset_service);
    entries_keep_the_identity(q, sources, q.files.len() as int);
    let recipe = entries_added(q, sources, q.files.len() as int)->Ok_0;
    scripts_keep_the_rest(
        recipe,
        options.maintainer_scripts,
        options.maintainer_scripts.len() as int,
    );
}

/// Adding entries changes nothing but the entries.
proof fn entries_keep_the_identity(
    p: BuildPlanView,
    sources: Map<Seq<char>, core::result::Result<(Seq<u8>, u64), Seq<char>>>,
    n: int,
)
    requires
        entries_added(p, sources, n) is Ok,
    ensures
        entries_added(p, sources, n)->Ok_0 == (RecipeView {
            entries: entries_added(p, sources, n)->Ok_0.entries,
            ..identity_recipe(p)
        }),
    decreases n,
{
    if n > 0 {
        entries_keep_the_identity(p, sources, n - 1);
    }
}

/// Adding scriptlets changes nothing but the scriptlets.
proof fn scripts_keep_the_rest(recipe: RecipeView, scripts: Seq<(Seq<char>, Seq<u8>)>, n: int)
    requires
        scripts_added(recipe, scripts, n) is Ok,
    ensures
        ({
            let done = scripts_added(recipe, scripts, n)->Ok_0;
            done == (RecipeView {
                pre: done.pre,
                post: done.post,
                preun: done.preun,
                postun: done.postun,
                ..recipe
            })
        }),
    decreases n,
{
    if n > 0 {
        scripts_keep_the_rest(recipe, scripts, n - 1);
    }
}

/// A package never claims a directory it does not own: no root of the filesystem, and nothing
/// without its name among the components.
pub proof fn only_owned_directories_are_claimed(
    p: BuildPlanView,
    sources: Map<Seq<char>, core::result::Result<(Seq<u8>, u64), Seq<char>>>,
    n: int,
    path: Seq<char>,
)
    requires
        0 <= n <= p.files.len(),
        entries_added(p, sources, n) is Ok,
        entries_added(p, sources, n)->Ok_0.entries.dom().contains(path),
        entries_added(p, sources, n)->Ok_0.entries[path].kind is Directory,
    ensures
        owned(p.identity.package_name, path),
    decreases n,
{
    if n > 0 {
        let before = entries_added(p, sources, n - 1)->Ok_0;
        if before.entries.dom().contains(path) && before.entries[path].kind is Directory {
            only_owned_directories_are_claimed(p, sources, n - 1, path);
        }
    }
}

/// Every file and link of a plan is in its package, with its bytes or its target, its
/// permissions and its configuration mark; so is every directory the package owns.
pub proof fn every_entry_is_packaged(
    p: BuildPlanView,
    sources: Map<Seq<char>, core::result::Result<(Seq<u8>, u64), Seq<char>>>,
    k: int,
    n: int,
)
    requires
        0 <= k < n <= p.files.len(),
        entries_added(p, sources, n) is Ok,
        p.files[k].kind is Directory ==> owned(p.identity.package_name, p.files[k].destination),
    ensures
        ({
            let entries = entries_added(p, sources, n)->Ok_0.entries;
            let file = p.files[k];
            &&& entries.dom().contains(file.destination)
            &&& match file.kind {
                EntryKindView::Symlink { target } => entries[file.destination].kind == (
                RpmEntryKind::Symlink { target }),
                EntryKindView::Directory => entries[file.destination].kind == (
                RpmEntryKind::Directory { mode: permissions(file.mode) }),
                EntryKindView::Regular => entries[file.destination].kind == (RpmEntryKind::File {
                    mode: permissions(file.mode),
                    config: file.is_config,
                    bytes: match file.content {
                        FileContentView::Inline(bytes) => bytes,
                        FileContentView::FromPath { path, len } => sources[path]->Ok_0.0,
                        FileContentView::Absent => Seq::empty(),
                    },
                }),
            }
        }),
    decreases n,
{
    if k < n - 1 {
        every_entry_is_packaged(p, sources, k, n - 1);
    }
}

/// An entry made here is added under the package's date, and one read from disk under its own;
/// the package's date caps both when it is assembled.
pub proof fn entries_are_dated(
    p: BuildPlanView,
    sources: Map<Seq<char>, core::result::Result<(Seq<u8>, u64), Seq<char>>>,
    k: int,
    n: int,
)
    requires
        0 <= k < n <= p.files.len(),
        entries_added(p, sources, n) is Ok,
        p.files[k].kind is Directory ==> owned(p.identity.package_name, p.files[k].destination),
    ensures
        ({
            let entry = entries_added(p, sources, n)->Ok_0.entries[p.files[k].destination];
            match (p.files[k].kind, p.files[k].content) {
                (EntryKindView::Regular, FileContentView::FromPath { path, len }) => entry.modified
                    == sources[path]->Ok_0.1,
                _ => entry.modified == clamped(p.timestamp),
            }
        }),
    decreases n,
{
    entries_keep_the_identity(p, sources, n - 1);
    if k < n - 1 {
        every_entry_is_packaged(p, sources, k, n - 1);
        entries_are_dated(p, sources, k, n - 1);
    }
}

/// An RPM package is named after its base name, its version, its release and its architecture.
pub proof fn a_package_is_named_after_its_version(base: Seq<char>, p: BuildPlanView)
    ensures
        named_file(base, p) == base + "-"@ + p.identity.version_rpm + "-"@ + p.identity.release_rpm
            + "."@ + p.identity.architecture.rpm_spelling() + ".rpm"@,
        package_file(p) == named_file(p.identity.package_name, p),
{
}

/// A date is kept as it is as far as the format can hold it, and is the latest it can hold beyond.
pub proof fn dates_are_kept_as_far_as_they_fit(secs: u64)
    ensures
        secs <= 0xffff_ffff ==> clamped(secs) == secs,
        secs > 0xffff_ffff ==> clamped(secs) == 0xffff_ffff,
{
}

/// The permission bits of a mode are kept, all of them.
pub proof fn permissions_are_kept(mode: u32)
    requires
        mode <= 0o7777,
    ensures
        permissions(mode) == mode,
{
    assert(mode & 0o7777 == mode) by (bit_vector)
        requires
            mode <= 0o7777,
    ;
}

/// The description is the synopsis, and the body after a blank line where there is one.
pub proof fn a_description_is_its_synopsis_and_its_body(p: BuildPlanView)
    ensures
        p.identity.description.body.len() == 0 ==> description_of(p)
            == p.identity.description.synopsis,
        p.identity.description.body.len() > 0 ==> description_of(p)
            == p.identity.description.synopsis + "\n\n"@ + p.identity.description.body,
{
}

/// A package owns a directory where one of the names in its path is the package's, and never one
/// that every system has.
pub proof fn directories_are_owned_by_name(package: Seq<char>, path: Seq<char>)
    ensures
        owned(package, path) ==> split_at_char(path, '/').contains(package),
        path == "/"@ || path == "/bin"@ || path == "/boot"@ || path == "/etc"@ || path == "/lib"@
            || path == "/lib64"@ || path == "/opt"@ || path == "/run"@ || path == "/sbin"@ || path
            == "/srv"@ || path == "/usr"@ || path == "/var"@ ==> !owned(package, path),
        split_at_char(path, '/').contains(package) && path.len() > 6 ==> owned(package, path),
{
    let roots = filesystem_roots();
    assert(roots[0] == "/"@ && roots[1] == "/bin"@ && roots[2] == "/boot"@ && roots[3] == "/etc"@);
    assert(roots[4] == "/lib"@ && roots[5] == "/lib64"@ && roots[6] == "/opt"@ && roots[7]
        == "/run"@);
    assert(roots[8] == "/sbin"@ && roots[9] == "/srv"@ && roots[10] == "/usr"@ && roots[11]
        == "/var"@);
    reveal_strlit("/");
    reveal_strlit("/bin");
    reveal_strlit("/boot");
    reveal_strlit("/etc");
    reveal_strlit("/lib");
    reveal_strlit("/lib64");
    reveal_strlit("/opt");
    reveal_strlit("/run");
    reveal_strlit("/sbin");
    reveal_strlit("/srv");
    reveal_strlit("/usr");
    reveal_strlit("/var");
    assert("/"@.len() == 1 && "/bin"@.len() == 4 && "/boot"@.len() == 5 && "/etc"@.len() == 4);
    assert("/lib"@.len() == 4 && "/lib64"@.len() == 6 && "/opt"@.len() == 4 && "/run"@.len() == 4);
    assert("/sbin"@.len() == 5 && "/srv"@.len() == 4 && "/usr"@.len() == 4 && "/var"@.len() == 4);
}

/// Each dependency is required by name, in order, and the one the account is created with already
/// before installation; a package without a license says that it is unknown.
pub proof fn each_dependency_is_required(p: BuildPlanView, i: int)
    ensures
        ({
            let names = named_dependencies(p.identity.dependencies);
            let recipe = identity_recipe(p);
            &&& recipe.requires.len() == names.len()
            &&& 0 <= i < names.len() ==> recipe.requires[i] == (
                names[i],
                names[i] == "shadow-utils"@,
            )
            &&& p.identity.license is None ==> recipe.license == "UNKNOWN"@
            &&& p.identity.license matches Some(text) ==> recipe.license == text
        }),
{
}

/// Each scriptlet goes into the slot of its name and leaves the rest of the recipe alone; a name
/// that is no slot is refused.
pub proof fn each_scriptlet_has_its_slot(recipe: RecipeView, name: Seq<char>, text: Seq<char>)
    ensures
        script_added(recipe, "pre"@, text) == Ok::<RecipeView, ErrorView>(
            RecipeView { pre: Some(text), ..recipe },
        ),
        script_added(recipe, "post"@, text) == Ok::<RecipeView, ErrorView>(
            RecipeView { post: Some(text), ..recipe },
        ),
        script_added(recipe, "preun"@, text) == Ok::<RecipeView, ErrorView>(
            RecipeView { preun: Some(text), ..recipe },
        ),
        script_added(recipe, "postun"@, text) == Ok::<RecipeView, ErrorView>(
            RecipeView { postun: Some(text), ..recipe },
        ),
        script_added(recipe, name, text) is Ok <==> name == "pre"@ || name == "post"@ || name
            == "preun"@ || name == "postun"@,
{
    reveal_strlit("pre");
    reveal_strlit("post");
    reveal_strlit("preun");
    reveal_strlit("postun");
    assert("pre"@.len() == 3 && "post"@.len() == 4 && "preun"@.len() == 5 && "postun"@.len() == 6);
}

/// A package whose service is enabled by policy holds the policy beside all that was planned: it
/// is written from a plan with every entry of both.
pub proof fn a_package_holds_its_preset(
    p: BuildPlanView,
    options: OptionsView,
    sources: Map<Seq<char>, core::result::Result<(Seq<u8>, u64), Seq<char>>>,
    image: Seq<u8>,
    name: Seq<char>,
    out: Seq<PlannedFileView>,
    i: int,
)
    requires
        packages(p, options, sources, Ok(image)),
        options.preset_service == Some(name),
        completes(p.files.push(preset_entry(name)->Ok_0), out),
    ensures
        preset_entry(name) is Ok,
        out.contains(preset_entry(name)->Ok_0),
        0 <= i < p.files.len() ==> out.contains(p.files[i]),
        recipe_of((BuildPlanView { files: out, ..p }), options, sources) matches Ok(recipe)
            && rpm_assembles(recipe, image),
{
    let all = p.files.push(preset_entry(name)->Ok_0);
    completed_is(all, out);
    assert(all[p.files.len() as int] == preset_entry(name)->Ok_0);
    assert(all.contains(preset_entry(name)->Ok_0));
    if 0 <= i < p.files.len() {
        assert(all[i] == p.files[i]);
        assert(all.contains(p.files[i]));
    }
}

} // verus!
