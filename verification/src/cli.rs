//! The command line surface: what every option says, once parsed.

use vstd::prelude::*;

use crate::catalogue::selections_hold;
use crate::format::Format;
use crate::npm::{InitSystem, InstallStrategy};
use crate::report::{Reporter, Verbosity};
use crate::strings::unlines;

verus! {

/// Init systems the tool can integrate with.
#[derive(Debug, Clone, Copy, PartialEq, Eq, Structural)]
pub enum InitChoice {
    /// Integrate with whatever the target has.
    Auto,
    Systemd,
    Upstart,
    Sysv,
    /// No service integration at all; spelled `none`.
    NoInit,
}

impl InitChoice {
    /// The init system chosen.
    pub open spec fn meaning(self) -> InitSystem {
        match self {
            InitChoice::Auto => InitSystem::Auto,
            InitChoice::Systemd => InitSystem::Systemd,
            InitChoice::Upstart => InitSystem::Upstart,
            InitChoice::Sysv => InitSystem::Sysv,
            InitChoice::NoInit => InitSystem::NoInit,
        }
    }
}

impl From<InitChoice> for InitSystem {
    fn from(choice: InitChoice) -> (init: InitSystem) {
        match choice {
            InitChoice::Auto => InitSystem::Auto,
            InitChoice::Systemd => InitSystem::Systemd,
            InitChoice::Upstart => InitSystem::Upstart,
            InitChoice::Sysv => InitSystem::Sysv,
            InitChoice::NoInit => InitSystem::NoInit,
        }
    }
}

impl vstd::std_specs::convert::FromSpecImpl<InitChoice> for InitSystem {
    open spec fn obeys_from_spec() -> bool {
        true
    }

    open spec fn from_spec(choice: InitChoice) -> InitSystem {
        choice.meaning()
    }
}

/// How dependencies get into the package.
#[derive(Debug, Clone, Copy, PartialEq, Eq, Structural)]
pub enum StrategyChoice {
    /// Decide from the project's shape.
    Auto,
    /// Copy `node_modules` as it is.
    Copy,
    /// Run `npm install` when the package is installed.
    NpmInstall,
}

impl StrategyChoice {
    /// The strategy chosen.
    pub open spec fn meaning(self) -> InstallStrategy {
        match self {
            StrategyChoice::Auto => InstallStrategy::Auto,
            StrategyChoice::Copy => InstallStrategy::Copy,
            StrategyChoice::NpmInstall => InstallStrategy::NpmInstall,
        }
    }
}

impl From<StrategyChoice> for InstallStrategy {
    fn from(choice: StrategyChoice) -> (strategy: InstallStrategy) {
        match choice {
            StrategyChoice::Auto => InstallStrategy::Auto,
            StrategyChoice::Copy => InstallStrategy::Copy,
            StrategyChoice::NpmInstall => InstallStrategy::NpmInstall,
        }
    }
}

impl vstd::std_specs::convert::FromSpecImpl<StrategyChoice> for InstallStrategy {
    open spec fn obeys_from_spec() -> bool {
        true
    }

    open spec fn from_spec(choice: StrategyChoice) -> InstallStrategy {
        choice.meaning()
    }
}

/// What the command line said.
#[derive(Debug)]
pub struct Cli {
    /// Package name; defaults to `package_name` in `.nativepkg`.
    pub package_name: Option<String>,
    /// Package version; defaults to `version` in `.nativepkg`.
    pub version: Option<String>,
    /// Print this tool's own version and exit.
    pub tool_version: bool,
    /// Version epoch, for when an upstream version scheme goes backwards.
    pub epoch: Option<u32>,
    /// One-line description; defaults to `description` in `.nativepkg`.
    pub description: Option<String>,
    /// Maintainer, as `Name <email>`.
    pub maintainer: Option<String>,
    /// Target architecture.
    pub architecture: Option<String>,
    /// Deprecated spelling of `--architecture`.
    pub arch_deprecated: Option<String>,
    /// Name of the executable placed on `PATH`.
    pub executable_name: Option<String>,
    /// Directory the application is installed into.
    pub install_dir: Option<String>,
    /// How dependencies get into the package.
    pub install_strategy: Option<StrategyChoice>,
    /// Override the install-at-unpack command (default: plain `npm install`).
    pub install_command: Option<String>,
    /// Override the binary the install command's guard checks for.
    pub install_binary: Option<String>,
    /// Extra files to package, as a whitespace-separated list.
    pub extra_files: Option<String>,
    /// A dpkg `triggers` control file to ship verbatim (Debian only).
    pub triggers_file: Option<String>,
    /// The file the service runs, relative to the project root.
    pub daemon_entrypoint: Option<String>,
    /// The file the command-line wrapper runs; defaults to the daemon entry point.
    pub cli_entrypoint: Option<String>,
    /// Init system to integrate with.
    pub init: Option<InitChoice>,
    /// User the service runs as.
    pub user: Option<String>,
    /// Group the service runs as.
    pub group: Option<String>,
    /// Package dependencies, as a comma-separated list.
    pub deps: Option<String>,
    /// Add `nodejs` as a dependency; for a Node.js application.
    pub nodejs: bool,
    /// Formats to build.
    pub format: Vec<Format>,
    /// Directory the packages are written to.
    pub output_dir: String,
    /// Base name of the output file.
    pub output_name: Option<String>,
    /// Resolve and plan, but write nothing.
    pub dry_run: bool,
    /// Emit machine-readable output.
    pub json: bool,
    /// Print more about what is happening.
    pub verbose: bool,
    /// Print only errors.
    pub quiet: bool,
    /// List the config keys accepted in `.nativepkg`.
    pub list_json_overrides: bool,
    /// List the available templates.
    pub list_templates: bool,
    /// List the variables templates may use.
    pub list_template_variables: bool,
    /// Print one template by name.
    pub cat_template: Option<String>,
    /// Print this tool's README.
    pub show_readme: bool,
    /// Print this tool's changelog.
    pub show_changelog: bool,
    /// Path to a replacement for the `/usr/bin` wrapper template.
    pub template_executable: Option<String>,
    /// Path to a replacement for the systemd unit template.
    pub template_systemd_service: Option<String>,
    /// Path to a replacement for the System V init script template.
    pub template_sysv_init: Option<String>,
    /// Path to a replacement for the Upstart job template.
    pub template_upstart_conf: Option<String>,
    /// Path to a replacement for the `/etc/default` variables template.
    pub template_default: Option<String>,
    // Options that can no longer be honoured: `removed_options` says why.
    pub no_delete_temp: bool,
    pub no_md5sums: bool,
    pub no_rebuild: bool,
    pub template_control: Option<String>,
    pub template_preinst: Option<String>,
    pub template_postinst: Option<String>,
    pub template_prerm: Option<String>,
    pub template_postrm: Option<String>,
    /// Files and directories to package.
    pub inputs: Vec<String>,
}

impl Default for Cli {
    /// What a command line without options says.
    fn default() -> (c: Self)
        ensures
            c.package_name is None,
            c.version is None,
            !c.tool_version,
            c.epoch is None,
            c.description is None,
            c.maintainer is None,
            c.architecture is None,
            c.arch_deprecated is None,
            c.executable_name is None,
            c.install_dir is None,
            c.install_strategy is None,
            c.install_command is None,
            c.install_binary is None,
            c.extra_files is None,
            c.triggers_file is None,
            c.daemon_entrypoint is None,
            c.cli_entrypoint is None,
            c.init is None,
            c.user is None,
            c.group is None,
            c.deps is None,
            !c.nodejs,
            c.format@ == seq![Format::Deb],
            c.output_dir@ == "."@,
            c.output_name is None,
            !c.dry_run,
            !c.json,
            !c.verbose,
            !c.quiet,
            !c.list_json_overrides,
            !c.list_templates,
            !c.list_template_variables,
            c.cat_template is None,
            !c.show_readme,
            !c.show_changelog,
            c.template_executable is None,
            c.template_systemd_service is None,
            c.template_sysv_init is None,
            c.template_upstart_conf is None,
            c.template_default is None,
            !c.no_delete_temp,
            !c.no_md5sums,
            !c.no_rebuild,
            c.template_control is None,
            c.template_preinst is None,
            c.template_postinst is None,
            c.template_prerm is None,
            c.template_postrm is None,
            c.inputs@ == Seq::<String>::empty(),
    {
        Cli {
            package_name: None,
            version: None,
            tool_version: false,
            epoch: None,
            description: None,
            maintainer: None,
            architecture: None,
            arch_deprecated: None,
            executable_name: None,
            install_dir: None,
            install_strategy: None,
            install_command: None,
            install_binary: None,
            extra_files: None,
            triggers_file: None,
            daemon_entrypoint: None,
            cli_entrypoint: None,
            init: None,
            user: None,
            group: None,
            deps: None,
            nodejs: false,
            format: vec![Format::Deb],
            output_dir: ".".to_owned(),
            output_name: None,
            dry_run: false,
            json: false,
            verbose: false,
            quiet: false,
            list_json_overrides: false,
            list_templates: false,
            list_template_variables: false,
            cat_template: None,
            show_readme: false,
            show_changelog: false,
            template_executable: None,
            template_systemd_service: None,
            template_sysv_init: None,
            template_upstart_conf: None,
            template_default: None,
            no_delete_temp: false,
            no_md5sums: false,
            no_rebuild: false,
            template_control: None,
            template_preinst: None,
            template_postinst: None,
            template_prerm: None,
            template_postrm: None,
            inputs: Vec::new(),
        }
    }
}

/// An option that is gone, and why.
#[derive(Debug)]
pub struct Removed {
    pub option: &'static str,
    pub reason: &'static str,
}

pub const NO_STAGING: &'static str =
    "there is no staging directory to keep: files are streamed into the archive from the project tree";

pub const NEEDS_MD5SUMS: &'static str =
    "Debian policy requires a `md5sums` control file, and omitting it makes the package fail `lintian`";

pub const NO_BUILD_STEP: &'static str =
    "this tool never invokes a build step, so there is nothing to skip";

pub const CONTROL_IS_WRITTEN: &'static str =
    "the control file is written from the plan's data rather than rendered from a template, which is what makes a multi-line description safe";

pub const SCRIPTS_ARE_COMPOSED: &'static str =
    "maintainer scripts are composed from named snippets selected at build time, so a whole-file override is no longer the unit of replacement";

/// An option and why it is gone, if it was passed.
pub open spec fn noted(
    passed: bool,
    option: Seq<char>,
    reason: Seq<char>,
) -> Seq<(Seq<char>, Seq<char>)> {
    if passed {
        seq![(option, reason)]
    } else {
        Seq::empty()
    }
}

/// Removed options as plain values.
pub open spec fn removed_views(found: Seq<Removed>) -> Seq<(Seq<char>, Seq<char>)> {
    found.map_values(|r: Removed| (r.option@, r.reason@))
}

/// A template and the file that replaces it, if one was named.
pub open spec fn replacing(name: Seq<char>, path: Option<String>) -> Seq<(Seq<char>, Seq<char>)> {
    match path {
        Some(path) => seq![(name, path@)],
        None => Seq::empty(),
    }
}

/// Template overrides as plain values.
pub open spec fn override_views(found: Seq<(&'static str, &str)>) -> Seq<(Seq<char>, Seq<char>)> {
    found.map_values(|o: (&'static str, &str)| (o.0@, o.1@))
}

fn note(found: &mut Vec<Removed>, passed: bool, option: &'static str, reason: &'static str)
    ensures
        removed_views(final(found)@) == removed_views(old(found)@) + noted(
            passed,
            option@,
            reason@,
        ),
{
    let ghost before = found@;
    if passed {
        found.push(Removed { option, reason });
        assert(removed_views(found@) =~= removed_views(before) + noted(passed, option@, reason@));
    } else {
        assert(removed_views(found@) =~= removed_views(before) + noted(passed, option@, reason@));
    }
}

fn replace<'a>(
    found: &mut Vec<(&'static str, &'a str)>,
    name: &'static str,
    path: &'a Option<String>,
)
    ensures
        override_views(final(found)@) == override_views(old(found)@) + replacing(name@, *path),
{
    let ghost before = found@;
    match path {
        Some(path) => {
            found.push((name, path.as_str()));
        },
        None => {},
    }
    assert(override_views(found@) =~= override_views(before) + replacing(name@, *path));
}

impl Cli {
    /// The removed options that were passed, with the reason for each.
    pub open spec fn removed(self) -> Seq<(Seq<char>, Seq<char>)> {
        noted(self.no_delete_temp, "--no-delete-temp"@, NO_STAGING@) + noted(
            self.no_md5sums,
            "--no-md5sums"@,
            NEEDS_MD5SUMS@,
        ) + noted(self.no_rebuild, "--no-rebuild"@, NO_BUILD_STEP@) + noted(
            self.template_control is Some,
            "--template-control"@,
            CONTROL_IS_WRITTEN@,
        ) + noted(
            self.template_preinst is Some,
            "--template-preinst"@,
            SCRIPTS_ARE_COMPOSED@,
        ) + noted(
            self.template_postinst is Some,
            "--template-postinst"@,
            SCRIPTS_ARE_COMPOSED@,
        ) + noted(
            self.template_prerm is Some,
            "--template-prerm"@,
            SCRIPTS_ARE_COMPOSED@,
        ) + noted(
            self.template_postrm is Some,
            "--template-postrm"@,
            SCRIPTS_ARE_COMPOSED@,
        )
    }

    /// The templates that are overridden, each with the file that replaces it.
    pub open spec fn overridden(self) -> Seq<(Seq<char>, Seq<char>)> {
        replacing("executable"@, self.template_executable) + replacing(
            "systemd.service"@,
            self.template_systemd_service,
        ) + replacing("sysv-init"@, self.template_sysv_init) + replacing(
            "upstart.conf"@,
            self.template_upstart_conf,
        ) + replacing("default"@, self.template_default)
    }

    /// Whether the tool is asked about itself.
    pub open spec fn asks(self) -> bool {
        ||| self.list_json_overrides
        ||| self.list_templates
        ||| self.list_template_variables
        ||| self.cat_template is Some
        ||| self.show_readme
        ||| self.show_changelog
    }

    /// Every removed option the user passed. Refused, not ignored: a build script must not keep
    /// working while quietly losing what it asked for.
    pub fn removed_options(&self) -> (r: Vec<Removed>)
        ensures
            removed_views(r@) == self.removed(),
    {
        let mut found: Vec<Removed> = Vec::new();
        assert(removed_views(found@) =~= Seq::empty());
        note(&mut found, self.no_delete_temp, "--no-delete-temp", NO_STAGING);
        assert(removed_views(found@) =~= noted(
            self.no_delete_temp,
            "--no-delete-temp"@,
            NO_STAGING@,
        ));
        note(&mut found, self.no_md5sums, "--no-md5sums", NEEDS_MD5SUMS);
        note(&mut found, self.no_rebuild, "--no-rebuild", NO_BUILD_STEP);
        note(
            &mut found,
            self.template_control.is_some(),
            "--template-control",
            CONTROL_IS_WRITTEN,
        );
        note(
            &mut found,
            self.template_preinst.is_some(),
            "--template-preinst",
            SCRIPTS_ARE_COMPOSED,
        );
        note(
            &mut found,
            self.template_postinst.is_some(),
            "--template-postinst",
            SCRIPTS_ARE_COMPOSED,
        );
        note(&mut found, self.template_prerm.is_some(), "--template-prerm", SCRIPTS_ARE_COMPOSED);
        note(
            &mut found,
            self.template_postrm.is_some(),
            "--template-postrm",
            SCRIPTS_ARE_COMPOSED,
        );
        found
    }

    /// The template overrides the user supplied, by built-in template name.
    pub fn template_overrides(&self) -> (r: Vec<(&'static str, &str)>)
        ensures
            override_views(r@) == self.overridden(),
    {
        let mut found: Vec<(&'static str, &str)> = Vec::new();
        assert(override_views(found@) =~= Seq::empty());
        replace(&mut found, "executable", &self.template_executable);
        assert(override_views(found@) =~= replacing("executable"@, self.template_executable));
        replace(&mut found, "systemd.service", &self.template_systemd_service);
        replace(&mut found, "sysv-init", &self.template_sysv_init);
        replace(&mut found, "upstart.conf", &self.template_upstart_conf);
        replace(&mut found, "default", &self.template_default);
        found
    }

    /// Whether the tool is asked about itself rather than to build.
    pub fn is_introspection(&self) -> (b: bool)
        ensures
            b == self.asks(),
    {
        self.list_json_overrides || self.list_templates || self.list_template_variables
            || self.cat_template.is_some() || self.show_readme || self.show_changelog
    }

    /// How much to print. `--quiet` wins.
    pub fn verbosity(&self) -> (v: Verbosity)
        ensures
            v == (if self.quiet {
                Verbosity::Quiet
            } else if self.verbose {
                Verbosity::Verbose
            } else {
                Verbosity::Normal
            }),
    {
        if self.quiet {
            Verbosity::Quiet
        } else if self.verbose {
            Verbosity::Verbose
        } else {
            Verbosity::Normal
        }
    }
}

/// The lines that refuse removed options.
pub open spec fn refusals(removed: Seq<(Seq<char>, Seq<char>)>) -> Seq<Seq<char>> {
    removed.map_values(
        |r: (Seq<char>, Seq<char>)| "error: "@ + r.0 + " can no longer be honoured: "@ + r.1,
    )
}

/// Tells the user of every removed option they passed, and says whether there was one. It stops
/// the run before anything is written.
pub fn refuse_removed(cli: &Cli, reporter: &mut Reporter) -> (stop: bool)
    ensures
        stop == (cli.removed().len() > 0),
        final(reporter).err@ == old(reporter).err@ + unlines(refusals(cli.removed())),
        final(reporter).out == old(reporter).out,
        final(reporter).verbosity == old(reporter).verbosity,
{
    let removed = cli.removed_options();
    let ghost all = refusals(cli.removed());
    let ghost before = reporter.err@;
    assert(all.len() == removed@.len());
    assert(all.take(0) =~= Seq::empty());
    assert(before + unlines(all.take(0)) =~= before);
    let mut i: usize = 0;
    while i < removed.len()
        invariant
            i <= removed@.len(),
            removed_views(removed@) == cli.removed(),
            all == refusals(cli.removed()),
            reporter.err@ == before + unlines(all.take(i as int)),
            reporter.out == old(reporter).out,
            reporter.verbosity == old(reporter).verbosity,
        decreases removed@.len() - i,
    {
        let entry = &removed[i];
        assert(cli.removed()[i as int] == (entry.option@, entry.reason@));
        let mut line = "error: ".to_owned();
        line.append(entry.option);
        line.append(" can no longer be honoured: ");
        line.append(entry.reason);
        reporter.error_line(line.as_str());
        proof {
            let next = all.take(i + 1);
            assert(next.drop_last() =~= all.take(i as int));
            assert(next.last() == line@);
            assert(before + unlines(next) =~= before + unlines(all.take(i as int)) + line@
                + "\n"@);
        }
        i = i + 1;
    }
    assert(all.take(i as int) =~= all);
    removed.len() > 0
}

// ---- laws -----------------------------------------------------------------------------

/// A choice on the command line is the choice of the same name.
pub proof fn choices_mean_what_they_say(init: InitChoice, strategy: StrategyChoice)
    ensures
        init is Auto <==> init.meaning() is Auto,
        init is Systemd <==> init.meaning() is Systemd,
        init is Upstart <==> init.meaning() is Upstart,
        init is Sysv <==> init.meaning() is Sysv,
        init is NoInit <==> init.meaning() is NoInit,
        strategy is Auto <==> strategy.meaning() is Auto,
        strategy is Copy <==> strategy.meaning() is Copy,
        strategy is NpmInstall <==> strategy.meaning() is NpmInstall,
{
}

/// Each option that is gone is refused exactly where it was passed, under its own name and with
/// its own reason; without one of them nothing is refused.
pub proof fn each_removed_option_is_refused(cli: Cli)
    ensures
        ({
            let gone = cli.removed();
            &&& gone.contains(("--no-delete-temp"@, NO_STAGING@)) <==> cli.no_delete_temp
            &&& gone.contains(("--no-md5sums"@, NEEDS_MD5SUMS@)) <==> cli.no_md5sums
            &&& gone.contains(("--no-rebuild"@, NO_BUILD_STEP@)) <==> cli.no_rebuild
            &&& gone.contains(("--template-control"@, CONTROL_IS_WRITTEN@)) <==> cli.template_control
                is Some
            &&& gone.contains(("--template-preinst"@, SCRIPTS_ARE_COMPOSED@))
                <==> cli.template_preinst is Some
            &&& gone.contains(("--template-postinst"@, SCRIPTS_ARE_COMPOSED@))
                <==> cli.template_postinst is Some
            &&& gone.contains(("--template-prerm"@, SCRIPTS_ARE_COMPOSED@)) <==> cli.template_prerm
                is Some
            &&& gone.contains(("--template-postrm"@, SCRIPTS_ARE_COMPOSED@))
                <==> cli.template_postrm is Some
        }),
        cli.removed().len() == 0 <==> !(cli.no_delete_temp || cli.no_md5sums || cli.no_rebuild
            || cli.template_control is Some || cli.template_preinst is Some
            || cli.template_postinst is Some || cli.template_prerm is Some || cli.template_postrm
            is Some),
{
    reveal_strlit("--no-delete-temp");
    reveal_strlit("--no-md5sums");
    reveal_strlit("--no-rebuild");
    reveal_strlit("--template-control");
    reveal_strlit("--template-preinst");
    reveal_strlit("--template-postinst");
    reveal_strlit("--template-prerm");
    reveal_strlit("--template-postrm");
    assert("--no-delete-temp"@.len() == 16 && "--no-delete-temp"@[2] == 'n');
    assert("--no-md5sums"@.len() == 12 && "--no-md5sums"@[5] == 'm');
    assert("--no-rebuild"@.len() == 12 && "--no-rebuild"@[5] == 'r');
    assert("--template-control"@.len() == 18 && "--template-control"@[11] == 'c');
    assert("--template-preinst"@.len() == 18 && "--template-preinst"@[11] == 'p');
    assert("--template-postinst"@.len() == 19);
    assert("--template-prerm"@.len() == 16 && "--template-prerm"@[2] == 't');
    assert("--template-postrm"@.len() == 17);
    what_was_passed_is_noted(cli, ("--no-delete-temp"@, NO_STAGING@));
    what_was_passed_is_noted(cli, ("--no-md5sums"@, NEEDS_MD5SUMS@));
    what_was_passed_is_noted(cli, ("--no-rebuild"@, NO_BUILD_STEP@));
    what_was_passed_is_noted(cli, ("--template-control"@, CONTROL_IS_WRITTEN@));
    what_was_passed_is_noted(cli, ("--template-preinst"@, SCRIPTS_ARE_COMPOSED@));
    what_was_passed_is_noted(cli, ("--template-postinst"@, SCRIPTS_ARE_COMPOSED@));
    what_was_passed_is_noted(cli, ("--template-prerm"@, SCRIPTS_ARE_COMPOSED@));
    what_was_passed_is_noted(cli, ("--template-postrm"@, SCRIPTS_ARE_COMPOSED@));
    as_many_are_noted_as_were_passed(cli);
}

proof fn what_was_passed_is_noted(cli: Cli, x: (Seq<char>, Seq<char>))
    ensures
        cli.removed().contains(x) <==> {
            ||| cli.no_delete_temp && x == ("--no-delete-temp"@, NO_STAGING@)
            ||| cli.no_md5sums && x == ("--no-md5sums"@, NEEDS_MD5SUMS@)
            ||| cli.no_rebuild && x == ("--no-rebuild"@, NO_BUILD_STEP@)
            ||| cli.template_control is Some && x == ("--template-control"@, CONTROL_IS_WRITTEN@)
            ||| cli.template_preinst is Some && x == ("--template-preinst"@, SCRIPTS_ARE_COMPOSED@)
            ||| cli.template_postinst is Some && x == (
                "--template-postinst"@,
                SCRIPTS_ARE_COMPOSED@,
            )
            ||| cli.template_prerm is Some && x == ("--template-prerm"@, SCRIPTS_ARE_COMPOSED@)
            ||| cli.template_postrm is Some && x == ("--template-postrm"@, SCRIPTS_ARE_COMPOSED@)
        },
{
    selections_hold::<(Seq<char>, Seq<char>)>();
}

proof fn as_many_are_noted_as_were_passed(cli: Cli)
    ensures
        cli.removed().len() == 0 <==> !(cli.no_delete_temp || cli.no_md5sums || cli.no_rebuild
            || cli.template_control is Some || cli.template_preinst is Some
            || cli.template_postinst is Some || cli.template_prerm is Some || cli.template_postrm
            is Some),
{
}

/// Each refusal names its option and says why.
pub proof fn each_refusal_names_its_option(removed: Seq<(Seq<char>, Seq<char>)>, i: int)
    requires
        0 <= i < removed.len(),
    ensures
        refusals(removed).len() == removed.len(),
        refusals(removed)[i] == "error: "@ + removed[i].0 + " can no longer be honoured: "@
            + removed[i].1,
{
}

} // verus!
