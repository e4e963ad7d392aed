//! Assembling a plan from a resolved configuration and a surveyed source tree.
//!
//! Resolution answers "what is this package", collection answers "what does it contain"; this
//! module joins them with one build timestamp. Backends see only the result.

use vstd::prelude::*;
use vstd::string::StrSliceExecFns;
use vstd::utf8::encode_utf8;

use crate::architecture::{architecture_named, Architecture};
use crate::catalogue::selections_hold;
use crate::collect::{
    collect, collected, executable_link, executed_destinations, executed_of, executed_views,
    listed_once, refusal, CONFIG_PREFIX,
};
use crate::destination::{destination_of, link_target};
use crate::error::{opt, outcome, Error, ErrorView, Result};
use crate::npm::InitSystem;
use crate::plan::{
    completed, completed_is, completes, copy_files, copy_text, description_of, plannable, present,
    unplannable, BuildPlan, BuildPlanView, Description, DescriptionView, Destination, EntryKindView,
    FileContent, FileContentView, Identity, IdentityView, PlanMetadata, PlanMetadataView,
    PlannedFile, PlannedFileView,
};
use crate::resolve::{ResolvedConfig, ResolvedConfigView, Warning, WarningView};
use crate::strings::{begins_with, same, starts_with, views, views_push};
use crate::strmap::StrMap;
use crate::survey::{Node, NodeKind, NodeKindView, NodeView, Survey, SurveyView};
use crate::timestamp::{
    newest_is_greatest, resolve_from, timestamp_of, Timestamp, TimestampSource,
};

verus! {

/// Name this tool reports as the generator of a package.
pub const GENERATOR: &'static str = "nativepkg";

/// Version this tool reports as the generator of a package.
pub const GENERATOR_VERSION: &'static str = "0.1.0";

pub const TMPFILES_DIR: &'static str = "/usr/lib/tmpfiles.d";

/// `/lib/systemd/system` is only a compatibility symlink on merged-`usr` systems.
pub const SYSTEMD_UNIT_DIR: &'static str = "/usr/lib/systemd/system";

/// Where `systemctl preset` reads a package's policy for its own units.
///
/// `preset` respects an administrator's decision where `enable` overrides it, but it only
/// applies policy, and some distributions ship a final `disable *`. A package that wants its
/// unit enabled ships its own policy here; the administrator's own directory is consulted
/// first and still wins.
pub const SYSTEMD_PRESET_DIR: &'static str = "/usr/lib/systemd/system-preset";

// ---- the preset entry -------------------------------------------------------------------

/// A generated file.
pub open spec fn inline_entry(destination: Seq<char>, text: Seq<char>, mode: u32) -> PlannedFileView {
    PlannedFileView {
        destination,
        kind: EntryKindView::Regular,
        content: FileContentView::Inline(encode_utf8(text)),
        mode,
        is_config: false,
    }
}

pub open spec fn preset_entry(package_name: Seq<char>) -> core::result::Result<
    PlannedFileView,
    ErrorView,
> {
    match destination_of(SYSTEMD_PRESET_DIR@ + "/50-"@ + package_name + ".preset"@) {
        Err(e) => Err(e),
        Ok(at) => Ok(
            inline_entry(
                at,
                "enable "@ + package_name + ".service\n"@,
                PlannedFile::MODE_REGULAR,
            ),
        ),
    }
}

/// The preset entry enabling `<package_name>.service`.
///
/// Offered to backends rather than planned for every format: where the default policy enables a
/// unit no line matches, the file changes nothing. `50-`: above a distribution's `90-` and
/// `99-` defaults, below an administrator's `00-`.
pub fn systemd_preset_entry(package_name: &str) -> (r: Result<PlannedFile>)
    ensures
        outcome(r) == preset_entry(package_name@),
{
    let mut at = SYSTEMD_PRESET_DIR.to_owned();
    at.append("/50-");
    at.append(package_name);
    at.append(".preset");
    let destination = match Destination::new(at.as_str()) {
        Err(e) => {
            return Err(e);
        },
        Ok(d) => d,
    };
    let mut text = "enable ".to_owned();
    text.append(package_name);
    text.append(".service\n");
    Ok(
        PlannedFile::inline(
            destination,
            text.as_str().as_bytes_vec(),
            PlannedFile::MODE_REGULAR,
        ),
    )
}

/// Whether the preset policy for a service can be added to a plan.
pub open spec fn policy_fits(p: BuildPlanView, service: Option<Seq<char>>) -> bool {
    service matches Some(name) ==> preset_entry(name) is Ok && plannable(
        p.files.push(preset_entry(name)->Ok_0),
    )
}

/// The plan with the preset policy for a service: one more entry, and the directories it needs.
pub open spec fn policy_plan(p: BuildPlanView, service: Option<Seq<char>>) -> BuildPlanView {
    match service {
        None => p,
        Some(name) => BuildPlanView {
            files: completed(p.files.push(preset_entry(name)->Ok_0)),
            ..p
        },
    }
}

/// Why the preset policy for a service cannot be added to a plan.
pub open spec fn policy_refused(
    p: BuildPlanView,
    service: Option<Seq<char>>,
    e: ErrorView,
) -> bool {
    service is Some && match preset_entry(service->0) {
        Err(first) => e == first,
        Ok(entry) => !plannable(p.files.push(entry)) && unplannable(p.files.push(entry), e),
    }
}

/// The plan plus the preset policy for a service, or the plan as it was. Rebuilt through
/// [`BuildPlan::new`] so that the preset directory is synthesised like any other ancestor and a
/// duplicate destination is refused.
pub fn with_preset(plan: &BuildPlan, service: Option<&str>) -> (r: Result<BuildPlan>)
    ensures
        match r {
            Ok(p) => policy_fits(plan@, opt(service)) && p@ == policy_plan(plan@, opt(service)),
            Err(e) => !policy_fits(plan@, opt(service)) && policy_refused(
                plan@,
                opt(service),
                e@,
            ),
        },
{
    let mut files = copy_files(&plan.files);
    let name = match service {
        None => {
            return Ok(
                BuildPlan {
                    identity: plan.identity.clone(),
                    files,
                    timestamp: plan.timestamp,
                    metadata: plan.metadata.clone(),
                },
            );
        },
        Some(name) => name,
    };
    let entry = match systemd_preset_entry(name) {
        Err(e) => {
            return Err(e);
        },
        Ok(entry) => entry,
    };
    proof {
        views_push(files@, entry);
    }
    files.push(entry);
    let ghost all = views(files@);
    match BuildPlan::new(plan.identity.clone(), files, plan.timestamp, plan.metadata.clone()) {
        Err(e) => Err(e),
        Ok(p) => {
            proof {
                completed_is(all, p@.files);
            }
            Ok(p)
        },
    }
}

// ---- generated files ----------------------------------------------------------------------

/// A file this tool generates rather than copies, and where it belongs.
///
/// Placement is decided here because it is a fact about Linux, not about a package format.
/// Rendering is not, because the templates carry per-format spellings.
#[derive(Debug)]
pub struct ServiceFile {
    pub template: &'static str,
    pub destination: Destination,
    pub mode: u32,
}

pub struct ServiceFileView {
    pub template: Seq<char>,
    pub destination: Seq<char>,
    pub mode: u32,
}

impl View for ServiceFile {
    type V = ServiceFileView;

    open spec fn view(&self) -> ServiceFileView {
        ServiceFileView {
            template: self.template@,
            destination: self.destination@,
            mode: self.mode,
        }
    }
}

/// The files a configuration needs generated, each with the path it is wanted at. Upstart only
/// where it was named.
pub open spec fn wanted_files(c: ResolvedConfigView) -> Seq<ServiceFileView> {
    let name = c.package_name;
    let executable = seq![
        ServiceFileView {
            template: "executable"@,
            destination: c.install_dir + "/"@ + name + "/bin/"@ + c.executable_name,
            mode: 0o755,
        },
    ];
    let defaults = seq![
        ServiceFileView {
            template: "default"@,
            destination: "/etc/default/"@ + name,
            mode: 0o644,
        },
    ];
    let systemd = seq![
        ServiceFileView {
            template: "systemd.service"@,
            destination: SYSTEMD_UNIT_DIR@ + "/"@ + name + ".service"@,
            mode: 0o644,
        },
        ServiceFileView {
            template: "tmpfiles.conf"@,
            destination: TMPFILES_DIR@ + "/"@ + name + ".conf"@,
            mode: 0o644,
        },
    ];
    let sysv = seq![
        ServiceFileView {
            template: "sysv-init"@,
            destination: "/etc/init.d/"@ + name,
            mode: 0o755,
        },
    ];
    let upstart = seq![
        ServiceFileView {
            template: "upstart.conf"@,
            destination: "/etc/init/"@ + name + ".conf"@,
            mode: 0o644,
        },
    ];
    if c.init is NoInit {
        executable
    } else {
        executable + defaults + (if c.init.serves(InitSystem::Systemd) {
            systemd
        } else {
            Seq::empty()
        }) + (if c.init.serves(InitSystem::Sysv) {
            sysv
        } else {
            Seq::empty()
        }) + (if c.init is Upstart {
            upstart
        } else {
            Seq::empty()
        })
    }
}

/// `wanted` with each path normalised; the first that cannot be gives the error.
pub open spec fn placed(wanted: Seq<ServiceFileView>) -> core::result::Result<
    Seq<ServiceFileView>,
    ErrorView,
>
    decreases wanted.len(),
{
    if wanted.len() == 0 {
        Ok(Seq::empty())
    } else {
        match placed(wanted.drop_last()) {
            Err(e) => Err(e),
            Ok(before) => match destination_of(wanted.last().destination) {
                Err(e) => Err(e),
                Ok(at) => Ok(
                    before.push(ServiceFileView { destination: at, ..wanted.last() }),
                ),
            },
        }
    }
}

/// A failure among the first files is a failure of them all.
proof fn early_failure(wanted: Seq<ServiceFileView>, n: int)
    requires
        0 <= n <= wanted.len(),
        placed(wanted.take(n)) is Err,
    ensures
        placed(wanted) == placed(wanted.take(n)),
    decreases wanted.len() - n,
{
    if n < wanted.len() {
        assert(wanted.take(n + 1).drop_last() =~= wanted.take(n));
        early_failure(wanted, n + 1);
    } else {
        assert(wanted.take(n) =~= wanted);
    }
}

/// The plain values of wanted files.
pub open spec fn wanted_views(v: Seq<(&'static str, String, u32)>) -> Seq<ServiceFileView> {
    v.map_values(
        |w: (&'static str, String, u32)|
            ServiceFileView { template: w.0@, destination: w.1@, mode: w.2 },
    )
}

/// The files a configuration needs generated, each with the path it is wanted at.
fn wanted(config: &ResolvedConfig) -> (r: Vec<(&'static str, String, u32)>)
    ensures
        wanted_views(r@) == wanted_files(config@),
{
    let name = config.package_name.as_str();
    let mut r: Vec<(&'static str, String, u32)> = Vec::new();
    // Always generated: the `/usr/bin` link points at it.
    let mut executable = config.install_dir.as_str().to_owned();
    executable.append("/");
    executable.append(name);
    executable.append("/bin/");
    executable.append(config.executable_name.as_str());
    r.push(("executable", executable, 0o755));
    if config.init == InitSystem::NoInit {
        assert(wanted_views(r@) =~= wanted_files(config@));
        return r;
    }
    let mut defaults = "/etc/default/".to_owned();
    defaults.append(name);
    r.push(("default", defaults, 0o644));
    if config.init.uses(InitSystem::Systemd) {
        let mut unit = SYSTEMD_UNIT_DIR.to_owned();
        unit.append("/");
        unit.append(name);
        unit.append(".service");
        r.push(("systemd.service", unit, 0o644));
        // The log directory as a declaration rather than a `mkdir` in a script: recreated at
        // boot if missing.
        let mut tmpfiles = TMPFILES_DIR.to_owned();
        tmpfiles.append("/");
        tmpfiles.append(name);
        tmpfiles.append(".conf");
        r.push(("tmpfiles.conf", tmpfiles, 0o644));
    }
    if config.init.uses(InitSystem::Sysv) {
        let mut script = "/etc/init.d/".to_owned();
        script.append(name);
        r.push(("sysv-init", script, 0o755));
    }
    if config.init == InitSystem::Upstart {
        let mut job = "/etc/init/".to_owned();
        job.append(name);
        job.append(".conf");
        r.push(("upstart.conf", job, 0o644));
    }
    assert(wanted_views(r@) =~= wanted_files(config@));
    r
}

/// The files this configuration needs generated, in a stable order.
pub fn service_files(config: &ResolvedConfig) -> (r: Result<Vec<ServiceFile>>)
    ensures
        match r {
            Ok(files) => placed(wanted_files(config@)) == Ok::<Seq<ServiceFileView>, ErrorView>(
                views(files@),
            ),
            Err(e) => placed(wanted_files(config@)) == Err::<Seq<ServiceFileView>, ErrorView>(e@),
        },
{
    let all = wanted(config);
    let ghost list = wanted_views(all@);
    let mut files: Vec<ServiceFile> = Vec::new();
    let mut i: usize = 0;
    assert(views(files@) =~= Seq::empty());
    assert(list.take(0) =~= Seq::empty());
    while i < all.len()
        invariant
            i <= all@.len(),
            list == wanted_views(all@),
            list == wanted_files(config@),
            placed(list.take(i as int)) == Ok::<Seq<ServiceFileView>, ErrorView>(views(files@)),
        decreases all@.len() - i,
    {
        assert(list.take(i + 1).drop_last() =~= list.take(i as int));
        assert(list.take(i + 1).last() == list[i as int]);
        match Destination::new(all[i].1.as_str()) {
            Err(e) => {
                proof {
                    early_failure(list, i + 1);
                }
                return Err(e);
            },
            Ok(destination) => {
                let file = ServiceFile { template: all[i].0, destination, mode: all[i].2 };
                proof {
                    views_push(files@, file);
                }
                files.push(file);
            },
        }
        i = i + 1;
    }
    assert(list.take(i as int) =~= list);
    Ok(files)
}

// ---- adding generated content -------------------------------------------------------------

/// A generated file, flagged as configuration where it lands under `/etc`.
pub open spec fn generated_entry(file: ServiceFileView, content: Seq<char>) -> PlannedFileView {
    PlannedFileView {
        is_config: begins_with(file.destination, CONFIG_PREFIX@),
        ..inline_entry(file.destination, content, file.mode)
    }
}

/// The plain values of generated files.
pub open spec fn generated_views(v: Seq<(ServiceFile, String)>) -> Seq<(ServiceFileView, Seq<char>)> {
    v.map_values(|g: (ServiceFile, String)| (g.0@, g.1@))
}

pub open spec fn generated_entries(v: Seq<(ServiceFileView, Seq<char>)>) -> Seq<PlannedFileView> {
    v.map_values(|g: (ServiceFileView, Seq<char>)| generated_entry(g.0, g.1))
}

/// What making a plan of some entries comes to.
pub open spec fn plans(
    identity: IdentityView,
    files: Seq<PlannedFileView>,
    timestamp: u64,
    metadata: PlanMetadataView,
    r: core::result::Result<BuildPlanView, ErrorView>,
) -> bool {
    match r {
        Ok(plan) => {
            &&& plannable(files)
            &&& completes(files, plan.files)
            &&& plan.identity == identity
            &&& plan.timestamp == timestamp
            &&& plan.metadata == metadata
        },
        Err(e) => !plannable(files) && unplannable(files, e),
    }
}

/// Returns a plan with generated content added to its payload. The caller renders, because it
/// knows the target format's spellings. A generated file under `/etc` is configuration like
/// any other.
pub fn with_generated(plan: &BuildPlan, generated: Vec<(ServiceFile, String)>) -> (r: Result<
    BuildPlan,
>)
    ensures
        plans(
            plan@.identity,
            plan@.files + generated_entries(generated_views(generated@)),
            plan@.timestamp,
            plan@.metadata,
            outcome(r),
        ),
{
    let mut files = copy_files(&plan.files);
    let ghost added = generated_entries(generated_views(generated@));
    assert(views(files@) =~= plan@.files + added.take(0));
    for entry in it: generated
        invariant
            it.seq() == generated@,
            added == generated_entries(generated_views(generated@)),
            views(files@) == plan@.files + added.take(it.index() as int),
    {
        let ghost at = it.index() as int;
        let (service, content) = entry;
        let bytes = content.as_str().as_bytes_vec();
        let file = PlannedFile::inline(service.destination, bytes, service.mode);
        let file = if starts_with(file.destination.as_str(), CONFIG_PREFIX) {
            file.as_config()
        } else {
            file
        };
        proof {
            assert(file@ == added[at]);
            views_push(files@, file);
            assert(added.take(at + 1) =~= added.take(at).push(added[at]));
            assert(plan@.files + added.take(at + 1) =~= (plan@.files + added.take(at)).push(
                added[at],
            ));
        }
        files.push(file);
    }
    assert(added.take(added.len() as int) =~= added);
    BuildPlan::new(plan.identity.clone(), files, plan.timestamp, plan.metadata.clone())
}

// ---- planning -----------------------------------------------------------------------------

/// Refuses a package that lacks a file something in it executes.
pub open spec fn absent_entrypoint(
    executed: Seq<(Seq<char>, Seq<char>)>,
    files: Seq<PlannedFileView>,
) -> Option<ErrorView>
    decreases executed.len(),
{
    if executed.len() == 0 {
        None
    } else if !present(files, executed[0].0) {
        Some(
            refusal(
                "`"@ + executed[0].0 + "` is executed by "@ + executed[0].1
                    + " but is not in the package; the entry point must be among the inputs and must not resolve outside the project"@,
            ),
        )
    } else {
        absent_entrypoint(executed.drop_first(), files)
    }
}

/// Whether some entry has this destination.
fn holds_destination(files: &Vec<PlannedFile>, destination: &str) -> (b: bool)
    ensures
        b == present(views(files@), destination@),
{
    let ghost all = views(files@);
    let mut i: usize = 0;
    while i < files.len()
        invariant
            i <= files@.len(),
            all == views(files@),
            forall|j: int| 0 <= j < i ==> (#[trigger] all[j]).destination != destination@,
        decreases files@.len() - i,
    {
        assert(all[i as int] == files@[i as int]@);
        if same(files[i].destination.as_str(), destination) {
            return true;
        }
        i = i + 1;
    }
    false
}

/// Every file something in the package executes must be in the package.
pub fn refuse_missing_entrypoints(config: &ResolvedConfig, files: &Vec<PlannedFile>) -> (r: Result<
    (),
>)
    ensures
        match r {
            Ok(_) => absent_entrypoint(executed_of(config@), views(files@)) is None,
            Err(e) => absent_entrypoint(executed_of(config@), views(files@)) == Some(e@),
        },
{
    let executed = executed_destinations(config);
    let ghost all = executed_views(executed@);
    let mut i: usize = 0;
    assert(all.skip(0) =~= all);
    while i < executed.len()
        invariant
            i <= executed@.len(),
            all == executed_views(executed@),
            all == executed_of(config@),
            absent_entrypoint(all, views(files@)) == absent_entrypoint(
                all.skip(i as int),
                views(files@),
            ),
        decreases executed@.len() - i,
    {
        assert(all.skip(i as int).drop_first() =~= all.skip(i + 1));
        assert(all.skip(i as int)[0] == (executed@[i as int].0@, executed@[i as int].1@));
        if !holds_destination(files, executed[i].0.as_str()) {
            let mut m = "`".to_owned();
            m.append(executed[i].0.as_str());
            m.append("` is executed by ");
            m.append(executed[i].1);
            m.append(
                " but is not in the package; the entry point must be among the inputs and must not resolve outside the project",
            );
            return Err(Error::manifest(m));
        }
        i = i + 1;
    }
    Ok(())
}

/// Who a configuration says the package is.
pub open spec fn identity_of(c: ResolvedConfigView) -> core::result::Result<
    IdentityView,
    ErrorView,
> {
    match description_of(c.description) {
        Err(e) => Err(e),
        Ok(description) => match architecture_named(c.architecture) {
            Err(e) => Err(e),
            Ok(architecture) => Ok(
                IdentityView {
                    package_name: c.package_name,
                    version_deb: c.version.deb,
                    version_rpm: c.version.rpm_version,
                    release_rpm: c.version.rpm_release,
                    epoch: c.version.epoch,
                    description,
                    maintainer: c.maintainer,
                    architecture,
                    dependencies: c.dependencies,
                    homepage: c.homepage,
                    license: c.license,
                },
            ),
        },
    }
}

pub fn identity_from(config: &ResolvedConfig) -> (r: Result<Identity>)
    ensures
        outcome(r) == identity_of(config@),
{
    let description = match Description::split(config.description.as_str()) {
        Err(e) => {
            return Err(e);
        },
        Ok(d) => d,
    };
    let architecture = match config.architecture_parsed() {
        Err(e) => {
            return Err(e);
        },
        Ok(a) => a,
    };
    Ok(
        Identity {
            package_name: config.package_name.as_str().to_owned(),
            version_deb: config.version.deb().to_owned(),
            version_rpm: config.version.rpm_version().to_owned(),
            release_rpm: config.version.rpm_release().to_owned(),
            epoch: config.version.epoch(),
            description,
            maintainer: config.maintainer.clone(),
            architecture,
            dependencies: copy_text(&config.dependencies),
            homepage: copy_text(&config.homepage),
            license: copy_text(&config.license),
        },
    )
}

/// What this tool says of itself in a package.
pub open spec fn generator_metadata() -> PlanMetadataView {
    PlanMetadataView { generator: GENERATOR@, generator_version: GENERATOR_VERSION@ }
}

fn metadata() -> (m: PlanMetadata)
    ensures
        m@ == generator_metadata(),
{
    PlanMetadata {
        generator: GENERATOR.to_owned(),
        generator_version: GENERATOR_VERSION.to_owned(),
    }
}

/// When the file at `path` was modified.
pub open spec fn modified_at(nodes: Seq<NodeView>, path: Seq<char>) -> Option<u64>
    decreases nodes.len(),
{
    if nodes.len() == 0 {
        None
    } else {
        match modified_at(nodes.drop_last(), path) {
            Some(when) => Some(when),
            None => if nodes.last().path == path {
                match nodes.last().kind {
                    NodeKindView::File { len, modified, facts } => Some(modified),
                    _ => None,
                }
            } else {
                None
            },
        }
    }
}

/// The modification times of the files that are copied.
pub open spec fn source_times(nodes: Seq<NodeView>, files: Seq<PlannedFileView>) -> Seq<u64>
    decreases files.len(),
{
    if files.len() == 0 {
        Seq::empty()
    } else {
        let before = source_times(nodes, files.drop_last());
        match files.last().content {
            FileContentView::FromPath { path, len } => before.push(
                match modified_at(nodes, path) {
                    Some(when) => when,
                    None => 0,
                },
            ),
            _ => before,
        }
    }
}

/// `table` says when each surveyed file was modified.
pub open spec fn tabulates(table: Map<Seq<char>, u64>, nodes: Seq<NodeView>) -> bool {
    forall|path: Seq<char>|
        #![trigger table.dom().contains(path)]
        #![trigger modified_at(nodes, path)]
        (match modified_at(nodes, path) {
            Some(when) => table.dom().contains(path) && table[path] == when,
            None => !table.dom().contains(path),
        })
}

/// When each surveyed file was modified.
fn modification_table(nodes: &Vec<Node>) -> (table: StrMap<u64>)
    ensures
        tabulates(table@, views(nodes@)),
{
    let ghost all = views(nodes@);
    let mut table: StrMap<u64> = StrMap::new();
    let mut i: usize = 0;
    assert(all.take(0) =~= Seq::empty());
    while i < nodes.len()
        invariant
            i <= nodes@.len(),
            all == views(nodes@),
            tabulates(table@, all.take(i as int)),
        decreases nodes@.len() - i,
    {
        let ghost before = table@;
        proof {
            assert(all.take(i + 1).drop_last() =~= all.take(i as int));
            assert(all.take(i + 1).last() == nodes@[i as int]@);
        }
        match &nodes[i].kind {
            NodeKind::File { len, modified, facts } => {
                if !table.contains_key(nodes[i].path.as_str()) {
                    table.insert(nodes[i].path.clone(), *modified);
                }
            },
            _ => {},
        }
        proof {
            let now = all.take(i + 1);
            assert forall|path: Seq<char>| (match #[trigger] modified_at(now, path) {
                Some(when) => table@.dom().contains(path) && table@[path] == when,
                None => !table@.dom().contains(path),
            }) by {
                assert(now.drop_last() == all.take(i as int));
                let earlier = modified_at(all.take(i as int), path);
                assert(before.dom().contains(path) <==> earlier is Some);
            }
            assert(tabulates(table@, now));
        }
        i = i + 1;
    }
    assert(all.take(i as int) =~= all);
    table
}

/// The modification times of the files that are copied.
pub fn modification_times(nodes: &Vec<Node>, files: &Vec<PlannedFile>) -> (r: Vec<u64>)
    ensures
        r@ == source_times(views(nodes@), views(files@)),
{
    let table = modification_table(nodes);
    let ghost all = views(files@);
    let mut r: Vec<u64> = Vec::new();
    let mut i: usize = 0;
    assert(all.take(0) =~= Seq::empty());
    while i < files.len()
        invariant
            i <= files@.len(),
            all == views(files@),
            tabulates(table@, views(nodes@)),
            r@ == source_times(views(nodes@), all.take(i as int)),
        decreases files@.len() - i,
    {
        proof {
            assert(all.take(i + 1).drop_last() =~= all.take(i as int));
            assert(all.take(i + 1).last() == files@[i as int]@);
        }
        match &files[i].content {
            FileContent::FromPath { path, len } => {
                match table.get(path.as_str()) {
                    Some(when) => {
                        r.push(*when);
                    },
                    None => {
                        r.push(0);
                    },
                }
            },
            _ => {},
        }
        i = i + 1;
    }
    assert(all.take(i as int) =~= all);
    r
}

/// What planning a project comes to. `r` is the plan, what the user should know of it and where
/// its timestamp is from.
pub open spec fn planning(
    c: ResolvedConfigView,
    survey: SurveyView,
    source_date_epoch: Option<Seq<char>>,
    commit: Option<u64>,
    r: core::result::Result<(BuildPlanView, Seq<WarningView>, TimestampSource), ErrorView>,
) -> bool {
    match collected(c, survey) {
        Err(e) => r == Err::<(BuildPlanView, Seq<WarningView>, TimestampSource), ErrorView>(e),
        Ok(found) => match absent_entrypoint(executed_of(c), found.0) {
            Some(e) => r == Err::<
                (BuildPlanView, Seq<WarningView>, TimestampSource),
                ErrorView,
            >(e),
            None => match timestamp_of(
                source_date_epoch,
                commit,
                source_times(survey.nodes, found.0),
            ) {
                Err(e) => r == Err::<
                    (BuildPlanView, Seq<WarningView>, TimestampSource),
                    ErrorView,
                >(e),
                Ok(time) => match identity_of(c) {
                    Err(e) => r == Err::<
                        (BuildPlanView, Seq<WarningView>, TimestampSource),
                        ErrorView,
                    >(e),
                    Ok(identity) => match r {
                        Ok(planned) => plans(
                            identity,
                            found.0,
                            time.0,
                            generator_metadata(),
                            Ok(planned.0),
                        ) && planned.1 == found.1 && planned.2 == time.1,
                        Err(e) => plans(identity, found.0, time.0, generator_metadata(), Err(e)),
                    },
                },
            },
        },
    }
}

/// Builds a plan for a project from what was read of it: its tree, `SOURCE_DATE_EPOCH` and the
/// time of the current commit.
pub fn plan(
    config: &ResolvedConfig,
    survey: &Survey,
    source_date_epoch: Option<&str>,
    commit: Option<u64>,
) -> (r: Result<(BuildPlan, Vec<Warning>, TimestampSource)>)
    ensures
        planning(
            config@,
            survey@,
            opt(source_date_epoch),
            commit,
            match r {
                Ok(planned) => Ok((planned.0@, views(planned.1@), planned.2)),
                Err(e) => Err(e@),
            },
        ),
{
    let (files, warnings) = match collect(config, survey) {
        Err(e) => {
            return Err(e);
        },
        Ok(found) => found,
    };
    match refuse_missing_entrypoints(config, &files) {
        Err(e) => {
            return Err(e);
        },
        Ok(_) => {},
    }
    let times = modification_times(&survey.nodes, &files);
    let (timestamp, source) = match resolve_from(source_date_epoch, commit, &times) {
        Err(e) => {
            return Err(e);
        },
        Ok(found) => found,
    };
    let identity = match identity_from(config) {
        Err(e) => {
            return Err(e);
        },
        Ok(identity) => identity,
    };
    match BuildPlan::new(identity, files, timestamp, metadata()) {
        Err(e) => Err(e),
        Ok(plan) => Ok((plan, warnings, source)),
    }
}

/// What planning a project with a known timestamp comes to.
pub open spec fn planning_at(
    c: ResolvedConfigView,
    survey: SurveyView,
    timestamp: u64,
    r: core::result::Result<(BuildPlanView, Seq<WarningView>), ErrorView>,
) -> bool {
    match collected(c, survey) {
        Err(e) => r == Err::<(BuildPlanView, Seq<WarningView>), ErrorView>(e),
        Ok(found) => match identity_of(c) {
            Err(e) => r == Err::<(BuildPlanView, Seq<WarningView>), ErrorView>(e),
            Ok(identity) => match r {
                Ok(planned) => plans(
                    identity,
                    found.0,
                    timestamp,
                    generator_metadata(),
                    Ok(planned.0),
                ) && planned.1 == found.1,
                Err(e) => plans(identity, found.0, timestamp, generator_metadata(), Err(e)),
            },
        },
    }
}

/// Builds a plan with an explicit timestamp, for callers that already know it. Unlike [`plan`],
/// this does not refuse missing entry points.
pub fn plan_at(config: &ResolvedConfig, survey: &Survey, timestamp: Timestamp) -> (r: Result<
    (BuildPlan, Vec<Warning>),
>)
    ensures
        planning_at(
            config@,
            survey@,
            timestamp@,
            match r {
                Ok(planned) => Ok((planned.0@, views(planned.1@))),
                Err(e) => Err(e@),
            },
        ),
{
    let (files, warnings) = match collect(config, survey) {
        Err(e) => {
            return Err(e);
        },
        Ok(found) => found,
    };
    let identity = match identity_from(config) {
        Err(e) => {
            return Err(e);
        },
        Ok(identity) => identity,
    };
    match BuildPlan::new(identity, files, timestamp, metadata()) {
        Err(e) => Err(e),
        Ok(plan) => Ok((plan, warnings)),
    }
}

// ---- laws -----------------------------------------------------------------------------------

/// The `/usr/bin` link of every package points at a file the package generates.
pub proof fn the_executable_link_is_not_dangling(c: ResolvedConfigView)
    requires
        executable_link(c) is Ok,
        placed(wanted_files(c)) is Ok,
    ensures
        placed(wanted_files(c))->Ok_0.len() > 0,
        placed(wanted_files(c))->Ok_0[0].template == "executable"@,
        executable_link(c)->Ok_0.kind == (EntryKindView::Symlink {
            target: link_target(
                executable_link(c)->Ok_0.destination,
                placed(wanted_files(c))->Ok_0[0].destination,
            ),
        }),
{
    let wanted = wanted_files(c);
    first_is_placed(wanted);
    assert(wanted[0].template == "executable"@);
}

/// Placing keeps the first file first.
proof fn first_is_placed(wanted: Seq<ServiceFileView>)
    requires
        wanted.len() > 0,
        placed(wanted) is Ok,
    ensures
        placed(wanted)->Ok_0.len() == wanted.len(),
        destination_of(wanted[0].destination) == Ok::<Seq<char>, ErrorView>(
            placed(wanted)->Ok_0[0].destination,
        ),
        placed(wanted)->Ok_0[0].template == wanted[0].template,
    decreases wanted.len(),
{
    let before = wanted.drop_last();
    if before.len() > 0 {
        first_is_placed(before);
    } else {
        assert(placed(before) == Ok::<Seq<ServiceFileView>, ErrorView>(Seq::empty()));
    }
}

/// Whatever a planned package executes is in it.
pub proof fn planned_packages_hold_their_entry_points(
    c: ResolvedConfigView,
    survey: SurveyView,
    source_date_epoch: Option<Seq<char>>,
    commit: Option<u64>,
    r: core::result::Result<(BuildPlanView, Seq<WarningView>, TimestampSource), ErrorView>,
    k: int,
)
    requires
        planning(c, survey, source_date_epoch, commit, r),
        r is Ok,
        0 <= k < executed_of(c).len(),
    ensures
        present(r->Ok_0.0.files, executed_of(c)[k].0),
{
    let files = collected(c, survey)->Ok_0.0;
    let plan = r->Ok_0.0;
    all_entry_points_present(executed_of(c), files, k);
    let d = executed_of(c)[k].0;
    let i = choose|i: int| 0 <= i < files.len() && (#[trigger] files[i]).destination == d;
    assert(files.contains(files[i]));
    assert(plan.files.contains(files[i]));
    let j = plan.files.index_of(files[i]);
    assert(plan.files[j].destination == d);
}

proof fn all_entry_points_present(
    executed: Seq<(Seq<char>, Seq<char>)>,
    files: Seq<PlannedFileView>,
    k: int,
)
    requires
        absent_entrypoint(executed, files) is None,
        0 <= k < executed.len(),
    ensures
        present(files, executed[k].0),
    decreases executed.len(),
{
    if k > 0 {
        assert(executed.drop_first()[k - 1] == executed[k]);
        all_entry_points_present(executed.drop_first(), files, k - 1);
    }
}

/// Adding generated files changes nothing already planned.
pub proof fn generating_keeps_what_was_planned(
    before: BuildPlanView,
    generated: Seq<(ServiceFileView, Seq<char>)>,
    after: BuildPlanView,
    i: int,
)
    requires
        plans(
            before.identity,
            before.files + generated_entries(generated),
            before.timestamp,
            before.metadata,
            Ok(after),
        ),
        0 <= i < before.files.len(),
    ensures
        after.files.contains(before.files[i]),
        after.identity == before.identity,
        after.timestamp == before.timestamp,
        after.metadata == before.metadata,
{
    let all = before.files + generated_entries(generated);
    assert(all[i] == before.files[i]);
    assert(all.contains(before.files[i]));
}

/// A package's identity is its configuration's, field by field.
pub proof fn an_identity_is_its_configuration(c: ResolvedConfigView)
    requires
        identity_of(c) is Ok,
    ensures
        ({
            let id = identity_of(c)->Ok_0;
            &&& id.package_name == c.package_name
            &&& id.version_deb == c.version.deb
            &&& id.version_rpm == c.version.rpm_version
            &&& id.release_rpm == c.version.rpm_release
            &&& id.epoch == c.version.epoch
            &&& description_of(c.description) == Ok::<DescriptionView, ErrorView>(id.description)
            &&& id.maintainer == c.maintainer
            &&& architecture_named(c.architecture) == Ok::<Architecture, ErrorView>(
                id.architecture,
            )
            &&& id.dependencies == c.dependencies
            &&& id.homepage == c.homepage
            &&& id.license == c.license
        }),
{
}

/// Each generated file is there exactly where its init system is served: the wrapper always, the
/// defaults with any service, the unit and its log directory with systemd, the init script with
/// System V, the job with Upstart.
pub proof fn each_init_system_gets_its_files(c: ResolvedConfigView)
    ensures
        ({
            let wanted = wanted_files(c);
            let name = c.package_name;
            let systemd = c.init is Auto || c.init is Systemd;
            &&& wanted.contains(
                ServiceFileView {
                    template: "executable"@,
                    destination: c.install_dir + "/"@ + name + "/bin/"@ + c.executable_name,
                    mode: 0o755,
                },
            )
            &&& wanted.contains(
                ServiceFileView {
                    template: "default"@,
                    destination: "/etc/default/"@ + name,
                    mode: 0o644,
                },
            ) <==> !(c.init is NoInit)
            &&& wanted.contains(
                ServiceFileView {
                    template: "systemd.service"@,
                    destination: "/usr/lib/systemd/system"@ + "/"@ + name + ".service"@,
                    mode: 0o644,
                },
            ) <==> systemd
            &&& wanted.contains(
                ServiceFileView {
                    template: "tmpfiles.conf"@,
                    destination: "/usr/lib/tmpfiles.d"@ + "/"@ + name + ".conf"@,
                    mode: 0o644,
                },
            ) <==> systemd
            &&& wanted.contains(
                ServiceFileView {
                    template: "sysv-init"@,
                    destination: "/etc/init.d/"@ + name,
                    mode: 0o755,
                },
            ) <==> c.init is Auto || c.init is Sysv
            &&& wanted.contains(
                ServiceFileView {
                    template: "upstart.conf"@,
                    destination: "/etc/init/"@ + name + ".conf"@,
                    mode: 0o644,
                },
            ) <==> c.init is Upstart
            &&& wanted.len() == 1 + (if c.init is NoInit {
                0int
            } else {
                1
            }) + (if systemd {
                2int
            } else {
                0
            }) + (if c.init is Auto || c.init is Sysv {
                1int
            } else {
                0
            }) + (if c.init is Upstart {
                1int
            } else {
                0
            })
        }),
{
    reveal_strlit("executable");
    reveal_strlit("default");
    reveal_strlit("systemd.service");
    reveal_strlit("tmpfiles.conf");
    reveal_strlit("sysv-init");
    reveal_strlit("upstart.conf");
    assert("executable"@.len() == 10);
    assert("default"@.len() == 7);
    assert("systemd.service"@.len() == 15);
    assert("tmpfiles.conf"@.len() == 13);
    assert("sysv-init"@.len() == 9);
    assert("upstart.conf"@.len() == 12);
    selections_hold::<ServiceFileView>();
}

/// Placing puts each file at the normal form of its destination and changes nothing else.
pub proof fn placing_keeps_the_files(wanted: Seq<ServiceFileView>, i: int)
    requires
        placed(wanted) is Ok,
        0 <= i < wanted.len(),
    ensures
        placed(wanted)->Ok_0.len() == wanted.len(),
        destination_of(wanted[i].destination) == Ok::<Seq<char>, ErrorView>(
            placed(wanted)->Ok_0[i].destination,
        ),
        placed(wanted)->Ok_0[i].template == wanted[i].template,
        placed(wanted)->Ok_0[i].mode == wanted[i].mode,
    decreases wanted.len(),
{
    reveal_with_fuel(placed, 2);
    if wanted.len() > 1 {
        let init = wanted.drop_last();
        if i < init.len() {
            placing_keeps_the_files(init, i);
        } else {
            placing_keeps_the_files(init, 0);
        }
    }
}

/// A generated file holds what was rendered for it, with its own mode, and is a configuration
/// file where it lies under `/etc`.
pub proof fn generated_files_hold_what_was_rendered(file: ServiceFileView, content: Seq<char>)
    ensures
        ({
            let f = generated_entry(file, content);
            &&& f.destination == file.destination
            &&& f.kind is Regular
            &&& f.content == FileContentView::Inline(encode_utf8(content))
            &&& f.mode == file.mode
            &&& f.is_config <==> begins_with(file.destination, "/etc/"@)
        }),
{
}

/// The preset policy of a package enables its unit and nothing else.
pub proof fn the_preset_enables_the_unit(package_name: Seq<char>)
    requires
        preset_entry(package_name) is Ok,
    ensures
        ({
            let f = preset_entry(package_name)->Ok_0;
            &&& destination_of(
                "/usr/lib/systemd/system-preset"@ + "/50-"@ + package_name + ".preset"@,
            ) == Ok::<Seq<char>, ErrorView>(f.destination)
            &&& f.kind is Regular
            &&& f.content == FileContentView::Inline(
                encode_utf8("enable "@ + package_name + ".service\n"@),
            )
            &&& f.mode == 0o644
            &&& !f.is_config
        }),
{
}

/// A plan with a preset policy holds the policy and everything it held without it.
pub proof fn a_policy_is_added_to_the_plan(p: BuildPlanView, name: Seq<char>, i: int, out: Seq<PlannedFileView>)
    requires
        policy_fits(p, Some(name)),
        0 <= i < p.files.len(),
        completes(p.files.push(preset_entry(name)->Ok_0), out),
    ensures
        policy_plan(p, Some(name)).files.contains(preset_entry(name)->Ok_0),
        policy_plan(p, Some(name)).files.contains(p.files[i]),
        policy_plan(p, Some(name)).identity == p.identity,
        policy_plan(p, Some(name)).timestamp == p.timestamp,
        policy_plan(p, None) == p,
{
    let all = p.files.push(preset_entry(name)->Ok_0);
    completed_is(all, out);
    assert(all[p.files.len() as int] == preset_entry(name)->Ok_0);
    assert(all.contains(preset_entry(name)->Ok_0));
    assert(all[i] == p.files[i]);
    assert(all.contains(p.files[i]));
}

/// A plan holds all that was collected, under the configuration's identity, dated by the first
/// source that has a date; and what collection warned of is passed on.
pub proof fn everything_collected_is_planned(
    c: ResolvedConfigView,
    survey: SurveyView,
    source_date_epoch: Option<Seq<char>>,
    commit: Option<u64>,
    r: core::result::Result<(BuildPlanView, Seq<WarningView>, TimestampSource), ErrorView>,
    i: int,
)
    requires
        planning(c, survey, source_date_epoch, commit, r),
        r is Ok,
    ensures
        collected(c, survey) is Ok,
        0 <= i < collected(c, survey)->Ok_0.0.len() ==> r->Ok_0.0.files.contains(
            collected(c, survey)->Ok_0.0[i],
        ),
        identity_of(c) == Ok::<IdentityView, ErrorView>(r->Ok_0.0.identity),
        r->Ok_0.0.metadata.generator == "nativepkg"@,
        r->Ok_0.1 == collected(c, survey)->Ok_0.1,
        timestamp_of(
            source_date_epoch,
            commit,
            source_times(survey.nodes, collected(c, survey)->Ok_0.0),
        ) == Ok::<(u64, TimestampSource), ErrorView>((r->Ok_0.0.timestamp, r->Ok_0.2)),
{
    let files = collected(c, survey)->Ok_0.0;
    if 0 <= i < files.len() {
        assert(files.contains(files[i]));
    }
}

proof fn a_file_was_modified_when_it_was(nodes: Seq<NodeView>, k: int)
    requires
        listed_once(nodes),
        0 <= k < nodes.len(),
        nodes[k].kind is File,
    ensures
        modified_at(nodes, nodes[k].path) == Some(nodes[k].kind->modified),
    decreases nodes.len(),
{
    let init = nodes.drop_last();
    assert(listed_once(init)) by {
        assert forall|i: int, j: int| 0 <= i < j < init.len() implies (#[trigger] init[i]).path != (
        #[trigger] init[j]).path by {
            assert(init[i] == nodes[i] && init[j] == nodes[j]);
        }
    }
    if k < nodes.len() - 1 {
        assert(init[k] == nodes[k]);
        a_file_was_modified_when_it_was(init, k);
    } else {
        nothing_else_was_modified(init, nodes[k].path);
    }
}

proof fn nothing_else_was_modified(nodes: Seq<NodeView>, path: Seq<char>)
    requires
        forall|i: int| 0 <= i < nodes.len() ==> (#[trigger] nodes[i]).path != path,
    ensures
        modified_at(nodes, path) is None,
    decreases nodes.len(),
{
    if nodes.len() > 0 {
        let init = nodes.drop_last();
        assert forall|i: int| 0 <= i < init.len() implies (#[trigger] init[i]).path != path by {
            assert(init[i] == nodes[i]);
        }
        nothing_else_was_modified(init, path);
        assert(nodes[nodes.len() - 1].path != path);
    }
}

proof fn each_source_has_a_time(
    nodes: Seq<NodeView>,
    files: Seq<PlannedFileView>,
    i: int,
    when: u64,
)
    requires
        0 <= i < files.len(),
        files[i].content matches FileContentView::FromPath { path, len } && modified_at(nodes, path)
            == Some(when),
    ensures
        source_times(nodes, files).contains(when),
    decreases files.len(),
{
    let init = files.drop_last();
    let all = source_times(nodes, files);
    if i == files.len() - 1 {
        assert(all[all.len() - 1] == when);
    } else {
        assert(init[i] == files[i]);
        each_source_has_a_time(nodes, init, i, when);
        let before = source_times(nodes, init);
        let k = before.index_of(when);
        assert(all[k] == when);
    }
}

/// Without a date from elsewhere, a package is as new as the newest file in it: no file it copies
/// was modified later.
pub proof fn a_package_is_as_new_as_its_newest_file(
    c: ResolvedConfigView,
    survey: SurveyView,
    r: core::result::Result<(BuildPlanView, Seq<WarningView>, TimestampSource), ErrorView>,
    i: int,
    k: int,
)
    requires
        planning(c, survey, None, None, r),
        r is Ok,
        listed_once(survey.nodes),
        0 <= k < survey.nodes.len(),
        survey.nodes[k].kind is File,
        0 <= i < collected(c, survey)->Ok_0.0.len(),
        collected(c, survey)->Ok_0.0[i].content matches FileContentView::FromPath { path, len }
            && path == survey.nodes[k].path,
    ensures
        survey.nodes[k].kind->modified <= r->Ok_0.0.timestamp,
        r->Ok_0.2 == TimestampSource::NewestSourceMtime,
{
    let files = collected(c, survey)->Ok_0.0;
    let times = source_times(survey.nodes, files);
    a_file_was_modified_when_it_was(survey.nodes, k);
    each_source_has_a_time(survey.nodes, files, i, survey.nodes[k].kind->modified);
    newest_is_greatest(times);
    let m = times.index_of(survey.nodes[k].kind->modified);
    assert(times[m] == survey.nodes[k].kind->modified);
}

/// Every generated file is in the plan it was added to.
pub proof fn everything_generated_is_planned(
    before: BuildPlanView,
    generated: Seq<(ServiceFileView, Seq<char>)>,
    after: BuildPlanView,
    i: int,
)
    requires
        plans(
            before.identity,
            before.files + generated_entries(generated),
            before.timestamp,
            before.metadata,
            Ok(after),
        ),
        0 <= i < generated.len(),
    ensures
        after.files.contains(generated_entry(generated[i].0, generated[i].1)),
{
    let all = before.files + generated_entries(generated);
    assert(all[before.files.len() + i] == generated_entry(generated[i].0, generated[i].1));
    assert(all.contains(generated_entry(generated[i].0, generated[i].1)));
}

} // verus!
