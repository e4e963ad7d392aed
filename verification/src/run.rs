//! Resolving, planning and building, in that order.
//!
//! Each step takes what was read from the machine as values, so that the steps can be stated and
//! proved; reading, writing and printing are left to the caller.

use vstd::prelude::*;
use vstd::utf8::encode_utf8;

use crate::build::{
    self, everything_generated_is_planned, generated_entries, generated_entry,
    generated_files_hold_what_was_rendered, generated_views, generating_keeps_what_was_planned,
    placed, placing_keeps_the_files, planning, plans, service_files, wanted_files, with_generated,
    ServiceFile, ServiceFileView,
};
use crate::catalogue::{looked_up, selections_hold};
use crate::cli::{override_views, Cli};
use crate::destination::destination_of;
use crate::digits::{decimal, decimal_text};
use crate::error::{opt, outcome, Error, ErrorView};
use crate::format::{concluded, read_triggers, Format, Package, PackageView};
use crate::npm::{InitSystem, InstallStrategy, Manifest, ManifestView};
use crate::packing::Sources;
use crate::plan::{copy_text, BuildPlan, BuildPlanView, FileContentView, PlannedFileView};
use crate::report::{
    failure_lines, failures_are_told_link_by_link, links_of, Failure, Reporter, Verbosity,
};
use crate::resolve::{
    pick, resolve, resolved, Overrides, OverridesView, ResolvedConfig, ResolvedConfigView, Warning,
    WarningView,
};
use crate::strings::{
    clean_line, lines_of, lines_of_unlines, same, split, split_append, split_at_char,
    split_joins_back, stands_at, starts_with, text_holds, texts_hold_their_pieces, unlines, views,
    views_push,
};
use crate::survey::{Survey, SurveyView};
use crate::template::{self, builtin_table, rendered, Variables};
use crate::timestamp::TimestampSource;

verus! {

// ---- warnings ---------------------------------------------------------------------------------

/// What warnings add to the diagnostics.
pub open spec fn warned(verbosity: Verbosity, messages: Seq<Seq<char>>) -> Seq<char> {
    if verbosity == Verbosity::Quiet {
        Seq::empty()
    } else {
        unlines(messages.map_values(|m: Seq<char>| "warning: "@ + m))
    }
}

/// One more warning, after others.
proof fn one_more_warning(verbosity: Verbosity, messages: Seq<Seq<char>>, last: Seq<char>)
    ensures
        warned(verbosity, messages.push(last)) == (if verbosity == Verbosity::Quiet {
            warned(verbosity, messages)
        } else {
            warned(verbosity, messages) + "warning: "@ + last + "\n"@
        }),
{
    let lines = messages.map_values(|m: Seq<char>| "warning: "@ + m);
    let more = messages.push(last).map_values(|m: Seq<char>| "warning: "@ + m);
    assert(more.drop_last() =~= lines);
    assert(more.last() == "warning: "@ + last);
    if verbosity != Verbosity::Quiet {
        assert(warned(verbosity, messages.push(last)) =~= warned(verbosity, messages)
            + "warning: "@ + last + "\n"@);
    }
}

/// No warnings add nothing.
proof fn no_warnings(verbosity: Verbosity, before: Seq<char>)
    ensures
        before + warned(verbosity, Seq::empty()) == before,
{
    let lines = Seq::<Seq<char>>::empty().map_values(|m: Seq<char>| "warning: "@ + m);
    assert(lines =~= Seq::empty());
    assert(before + warned(verbosity, Seq::empty()) =~= before);
}

/// The sentences of some warnings.
pub open spec fn warning_texts(warnings: Seq<WarningView>) -> Seq<Seq<char>> {
    warnings.map_values(|w: WarningView| w.text())
}

/// Warnings go out before any package is written: printed after, they read as a remark on
/// something already done rather than a reason to stop.
pub fn report_warnings(reporter: &mut Reporter, warnings: &Vec<Warning>)
    ensures
        final(reporter).err@ == old(reporter).err@ + warned(
            old(reporter).verbosity,
            warning_texts(views(warnings@)),
        ),
        final(reporter).out == old(reporter).out,
        final(reporter).verbosity == old(reporter).verbosity,
{
    let ghost before = reporter.err@;
    let ghost verbosity = reporter.verbosity;
    let ghost all = warning_texts(views(warnings@));
    let mut i: usize = 0;
    proof {
        assert(all.take(0) =~= Seq::empty());
        no_warnings(verbosity, before);
    }
    while i < warnings.len()
        invariant
            i <= warnings@.len(),
            all == warning_texts(views(warnings@)),
            verbosity == old(reporter).verbosity,
            reporter.err@ == before + warned(verbosity, all.take(i as int)),
            reporter.out == old(reporter).out,
            reporter.verbosity == verbosity,
        decreases warnings@.len() - i,
    {
        let text = warnings[i].text();
        proof {
            assert(views(warnings@)[i as int] == warnings@[i as int]@);
            assert(all[i as int] == text@);
            assert(all.take(i + 1) =~= all.take(i as int).push(text@));
            one_more_warning(verbosity, all.take(i as int), text@);
            let so_far = warned(verbosity, all.take(i as int));
            assert(before + (so_far + "warning: "@ + text@ + "\n"@) =~= (before + so_far)
                + "warning: "@ + text@ + "\n"@);
        }
        reporter.warn(text.as_str());
        i = i + 1;
    }
    assert(all.take(i as int) =~= all);
}

// ---- configuration ----------------------------------------------------------------------------

/// The architecture the command line names; the current spelling wins.
pub open spec fn named_architecture(cli: Cli) -> Option<Seq<char>> {
    if cli.architecture is Some {
        opt(cli.architecture)
    } else {
        opt(cli.arch_deprecated)
    }
}

/// Whether only the deprecated spelling of the architecture was used.
pub open spec fn spelled_the_old_way(cli: Cli) -> bool {
    cli.architecture is None && cli.arch_deprecated is Some
}

/// What the command line overrides.
pub open spec fn overrides_of(cli: Cli) -> OverridesView {
    OverridesView {
        package_name: opt(cli.package_name),
        version: opt(cli.version),
        epoch: cli.epoch,
        description: opt(cli.description),
        maintainer: opt(cli.maintainer),
        architecture: named_architecture(cli),
        dependencies: opt(cli.deps),
        install_dir: opt(cli.install_dir),
        user: opt(cli.user),
        group: opt(cli.group),
        executable_name: opt(cli.executable_name),
        output_deb_name: opt(cli.output_name),
        extra_files: opt(cli.extra_files),
        triggers_file: opt(cli.triggers_file),
        daemon_entrypoint: opt(cli.daemon_entrypoint),
        cli_entrypoint: opt(cli.cli_entrypoint),
        init: match cli.init {
            Some(choice) => Some(choice.meaning()),
            None => None,
        },
        install_strategy: match cli.install_strategy {
            Some(choice) => Some(choice.meaning()),
            None => None,
        },
        install_command: opt(cli.install_command),
        install_binary: opt(cli.install_binary),
        include_nodejs: cli.nodejs,
    }
}

/// What using the deprecated spelling is answered with.
pub open spec fn spelling_warnings(cli: Cli) -> Seq<Seq<char>> {
    if spelled_the_old_way(cli) {
        seq!["`--arch` is deprecated; use `--architecture`"@]
    } else {
        Seq::empty()
    }
}

pub fn overrides_from(cli: &Cli, reporter: &mut Reporter) -> (o: Overrides)
    ensures
        o@ == overrides_of(*cli),
        final(reporter).err@ == old(reporter).err@ + warned(
            old(reporter).verbosity,
            spelling_warnings(*cli),
        ),
        final(reporter).out == old(reporter).out,
        final(reporter).verbosity == old(reporter).verbosity,
{
    let ghost before = reporter.err@;
    let ghost verbosity = reporter.verbosity;
    proof {
        no_warnings(verbosity, before);
        let message = "`--arch` is deprecated; use `--architecture`"@;
        one_more_warning(verbosity, Seq::empty(), message);
        assert(Seq::<Seq<char>>::empty().push(message) =~= seq![message]);
        let none = warned(verbosity, Seq::empty());
        assert(before + (none + "warning: "@ + message + "\n"@) =~= (before + none) + "warning: "@
            + message + "\n"@);
    }
    let architecture = match &cli.architecture {
        Some(current) => Some(current.clone()),
        None => match &cli.arch_deprecated {
            Some(legacy) => {
                reporter.warn("`--arch` is deprecated; use `--architecture`");
                Some(legacy.clone())
            },
            None => None,
        },
    };
    Overrides {
        package_name: copy_text(&cli.package_name),
        version: copy_text(&cli.version),
        epoch: cli.epoch,
        description: copy_text(&cli.description),
        maintainer: copy_text(&cli.maintainer),
        architecture,
        dependencies: copy_text(&cli.deps),
        install_dir: copy_text(&cli.install_dir),
        user: copy_text(&cli.user),
        group: copy_text(&cli.group),
        executable_name: copy_text(&cli.executable_name),
        output_deb_name: copy_text(&cli.output_name),
        extra_files: copy_text(&cli.extra_files),
        triggers_file: copy_text(&cli.triggers_file),
        daemon_entrypoint: copy_text(&cli.daemon_entrypoint),
        cli_entrypoint: copy_text(&cli.cli_entrypoint),
        init: match cli.init {
            Some(choice) => Some(InitSystem::from(choice)),
            None => None,
        },
        install_strategy: match cli.install_strategy {
            Some(choice) => Some(InstallStrategy::from(choice)),
            None => None,
        },
        install_command: copy_text(&cli.install_command),
        install_binary: copy_text(&cli.install_binary),
        include_nodejs: cli.nodejs,
    }
}

/// The warnings resolving comes with, after those of the command line.
pub open spec fn configuring_warnings(cli: Cli, m: ManifestView) -> Seq<Seq<char>> {
    match resolved(m, overrides_of(cli)) {
        Ok(found) => spelling_warnings(cli) + warning_texts(found.1),
        Err(e) => spelling_warnings(cli),
    }
}

/// Warnings one after another add up.
proof fn warnings_add_up(verbosity: Verbosity, a: Seq<Seq<char>>, b: Seq<Seq<char>>)
    ensures
        warned(verbosity, a) + warned(verbosity, b) == warned(verbosity, a + b),
    decreases b.len(),
{
    if b.len() == 0 {
        assert(a + b =~= a);
        assert(b =~= Seq::empty());
        no_warnings(verbosity, warned(verbosity, a));
    } else {
        let init = b.drop_last();
        warnings_add_up(verbosity, a, init);
        assert(b =~= init.push(b.last()));
        assert(a + b =~= (a + init).push(b.last()));
        one_more_warning(verbosity, init, b.last());
        one_more_warning(verbosity, a + init, b.last());
        assert(warned(verbosity, a) + warned(verbosity, b) =~= warned(verbosity, a + b));
    }
}

/// Resolves the configuration from the project's settings and the command line, and tells of
/// what is worth knowing about it.
pub fn configure(cli: &Cli, manifest: &Manifest, reporter: &mut Reporter) -> (r:
    core::result::Result<ResolvedConfig, Failure>)
    ensures
        match r {
            Ok(config) => resolved(manifest@, overrides_of(*cli)) is Ok && config@ == resolved(
                manifest@,
                overrides_of(*cli),
            )->Ok_0.0,
            Err(f) => resolved(manifest@, overrides_of(*cli)) is Err && f@ == seq![
                "resolving configuration"@,
            ] + links_of(resolved(manifest@, overrides_of(*cli))->Err_0),
        },
        final(reporter).err@ == old(reporter).err@ + warned(
            old(reporter).verbosity,
            configuring_warnings(*cli, manifest@),
        ),
        final(reporter).out == old(reporter).out,
        final(reporter).verbosity == old(reporter).verbosity,
{
    let ghost before = reporter.err@;
    let ghost verbosity = reporter.verbosity;
    let overrides = overrides_from(cli, reporter);
    match resolve(manifest, &overrides) {
        Err(e) => Err(Failure::of(&e).context("resolving configuration".to_owned())),
        Ok((config, warnings)) => {
            report_warnings(reporter, &warnings);
            proof {
                let first = spelling_warnings(*cli);
                let then_ = warning_texts(views(warnings@));
                warnings_add_up(verbosity, first, then_);
                assert(reporter.err@ =~= before + (warned(verbosity, first) + warned(
                    verbosity,
                    then_,
                )));
            }
            Ok(config)
        },
    }
}

// ---- inputs -----------------------------------------------------------------------------------

/// The components among the first `n` pieces of a path: without the empty ones, and without
/// `.` but for a leading one.
pub open spec fn components_in(pieces: Seq<Seq<char>>, n: int) -> Seq<Seq<char>>
    decreases n,
{
    if n <= 0 {
        Seq::empty()
    } else {
        let before = components_in(pieces, n - 1);
        let piece = pieces[n - 1];
        if piece.len() == 0 || (n > 1 && piece == "."@) {
            before
        } else {
            before.push(piece)
        }
    }
}

/// The components of a path.
pub open spec fn components_of(path: Seq<char>) -> Seq<Seq<char>> {
    components_in(split_at_char(path, '/'), split_at_char(path, '/').len() as int)
}

/// Whether two paths are spelled alike, component by component.
pub open spec fn same_path(a: Seq<char>, b: Seq<char>) -> bool {
    components_of(a) == components_of(b) && crate::strings::begins_with(a, "/"@)
        == crate::strings::begins_with(b, "/"@)
}

/// Whether a path is among some.
pub open spec fn lists_path(paths: Seq<Seq<char>>, path: Seq<char>) -> bool {
    exists|i: int| 0 <= i < paths.len() && #[trigger] same_path(paths[i], path)
}

fn components(path: &str) -> (r: Vec<String>)
    ensures
        views(r@) == components_of(path@),
{
    let pieces = split(path, '/');
    let ghost all = split_at_char(path@, '/');
    let mut r: Vec<String> = Vec::new();
    assert(views(r@) =~= Seq::empty());
    let mut i: usize = 0;
    while i < pieces.len()
        invariant
            i <= pieces@.len(),
            views(pieces@) == all,
            views(r@) == components_in(all, i as int),
        decreases pieces@.len() - i,
    {
        let piece = pieces[i].as_str();
        assert(all[i as int] == piece@);
        if !piece.is_empty() && !(i > 0 && same(piece, ".")) {
            let kept = piece.to_owned();
            proof {
                views_push(r@, kept);
            }
            r.push(kept);
        }
        i = i + 1;
    }
    r
}

fn same_texts(a: &Vec<String>, b: &Vec<String>) -> (r: bool)
    ensures
        r == (views(a@) == views(b@)),
{
    if a.len() != b.len() {
        assert(views(a@).len() != views(b@).len());
        return false;
    }
    let mut i: usize = 0;
    while i < a.len()
        invariant
            i <= a@.len(),
            a@.len() == b@.len(),
            forall|j: int| 0 <= j < i ==> views(a@)[j] == #[trigger] views(b@)[j],
        decreases a@.len() - i,
    {
        assert(views(a@)[i as int] == a@[i as int]@);
        assert(views(b@)[i as int] == b@[i as int]@);
        if !same(a[i].as_str(), b[i].as_str()) {
            return false;
        }
        i = i + 1;
    }
    assert(views(a@) =~= views(b@));
    true
}

fn is_same_path(a: &str, b: &str) -> (r: bool)
    ensures
        r == same_path(a@, b@),
{
    same_texts(&components(a), &components(b)) && starts_with(a, "/") == starts_with(b, "/")
}

fn is_listed(paths: &Vec<String>, path: &str) -> (b: bool)
    ensures
        b == lists_path(views(paths@), path@),
{
    let ghost all = views(paths@);
    let mut i: usize = 0;
    while i < paths.len()
        invariant
            i <= paths@.len(),
            all == views(paths@),
            forall|j: int| 0 <= j < i ==> !#[trigger] same_path(all[j], path@),
        decreases paths@.len() - i,
    {
        assert(all[i as int] == paths@[i as int]@);
        if is_same_path(paths[i].as_str(), path) {
            assert(same_path(all[i as int], path@));
            return true;
        }
        i = i + 1;
    }
    false
}

/// An entry point, if there is one.
pub open spec fn entry(path: Option<Seq<char>>) -> Seq<Seq<char>> {
    match path {
        Some(path) => seq![path],
        None => Seq::empty(),
    }
}

/// What to package where nothing was named, if it exists. The entry points come from the
/// resolver, not a guessed list: a package without the file its unit runs is no use.
pub open spec fn default_inputs(config: ResolvedConfigView) -> Seq<Seq<char>> {
    entry(config.daemon_entrypoint) + entry(config.cli_entrypoint) + seq![
        "package.json"@,
        "lib"@,
        "src"@,
        "bin"@,
        "index.js"@,
    ]
}

/// What to package where nothing was named, if it exists in the project.
pub fn candidates(config: &ResolvedConfig) -> (r: Vec<String>)
    ensures
        views(r@) == default_inputs(config@),
{
    let mut r: Vec<String> = Vec::new();
    assert(views(r@) =~= Seq::empty());
    match &config.daemon_entrypoint {
        Some(path) => {
            r.push(path.as_str().to_owned());
        },
        None => {},
    }
    assert(views(r@) =~= entry(config@.daemon_entrypoint));
    match &config.cli_entrypoint {
        Some(path) => {
            r.push(path.as_str().to_owned());
        },
        None => {},
    }
    assert(views(r@) =~= entry(config@.daemon_entrypoint) + entry(config@.cli_entrypoint));
    r.push("package.json".to_owned());
    r.push("lib".to_owned());
    r.push("src".to_owned());
    r.push("bin".to_owned());
    r.push("index.js".to_owned());
    assert(views(r@) =~= default_inputs(config@));
    r
}

/// Those of the first `n` candidates that exist, without repetition.
pub open spec fn existing_inputs(
    all: Seq<Seq<char>>,
    existing: Seq<Seq<char>>,
    n: int,
) -> Seq<Seq<char>>
    decreases n,
{
    if n <= 0 {
        Seq::empty()
    } else {
        let before = existing_inputs(all, existing, n - 1);
        if existing.contains(all[n - 1]) && !lists_path(before, all[n - 1]) {
            before.push(all[n - 1])
        } else {
            before
        }
    }
}

/// The inputs to package.
pub open spec fn chosen_inputs(
    named: Seq<Seq<char>>,
    config: ResolvedConfigView,
    existing: Seq<Seq<char>>,
) -> core::result::Result<Seq<Seq<char>>, Seq<Seq<char>>> {
    let found = existing_inputs(
        default_inputs(config),
        existing,
        default_inputs(config).len() as int,
    );
    if named.len() > 0 {
        Ok(named)
    } else if found.len() == 0 {
        Err(
            seq![
                "nothing to package: name files after the options, or add a `lib`/`src` directory"@,
            ],
        )
    } else {
        Ok(found)
    }
}

fn holds_text(texts: &Vec<String>, text: &str) -> (b: bool)
    ensures
        b == views(texts@).contains(text@),
{
    let ghost all = views(texts@);
    let mut i: usize = 0;
    while i < texts.len()
        invariant
            i <= texts@.len(),
            all == views(texts@),
            forall|j: int| 0 <= j < i ==> #[trigger] all[j] != text@,
        decreases texts@.len() - i,
    {
        assert(all[i as int] == texts@[i as int]@);
        if same(texts[i].as_str(), text) {
            assert(all[i as int] == text@);
            return true;
        }
        i = i + 1;
    }
    false
}

fn copy_texts(texts: &Vec<String>) -> (r: Vec<String>)
    ensures
        views(r@) == views(texts@),
{
    let ghost all = views(texts@);
    let mut r: Vec<String> = Vec::new();
    assert(views(r@) =~= all.take(0));
    let mut i: usize = 0;
    while i < texts.len()
        invariant
            i <= texts@.len(),
            all == views(texts@),
            views(r@) == all.take(i as int),
        decreases texts@.len() - i,
    {
        let text = texts[i].clone();
        proof {
            views_push(r@, text);
            assert(all.take(i + 1) =~= all.take(i as int).push(text@));
        }
        r.push(text);
        i = i + 1;
    }
    assert(all.take(i as int) =~= all);
    r
}

/// The inputs to package: those named, or else those of the [`candidates`] that are among
/// `existing`, which the caller has looked for in the project.
pub fn inputs_for(cli: &Cli, config: &ResolvedConfig, existing: &Vec<String>) -> (r:
    core::result::Result<Vec<String>, Failure>)
    ensures
        match r {
            Ok(inputs) => chosen_inputs(views(cli.inputs@), config@, views(existing@)) == Ok::<
                Seq<Seq<char>>,
                Seq<Seq<char>>,
            >(views(inputs@)),
            Err(f) => chosen_inputs(views(cli.inputs@), config@, views(existing@)) == Err::<
                Seq<Seq<char>>,
                Seq<Seq<char>>,
            >(f@),
        },
{
    assert(views(cli.inputs@).len() == cli.inputs@.len());
    if cli.inputs.len() > 0 {
        return Ok(copy_texts(&cli.inputs));
    }
    let all = candidates(config);
    let ghost names = views(all@);
    let mut inputs: Vec<String> = Vec::new();
    assert(views(inputs@) =~= Seq::empty());
    let mut i: usize = 0;
    while i < all.len()
        invariant
            i <= all@.len(),
            names == views(all@),
            views(inputs@) == existing_inputs(names, views(existing@), i as int),
        decreases all@.len() - i,
    {
        assert(names[i as int] == all@[i as int]@);
        if holds_text(existing, all[i].as_str()) && !is_listed(&inputs, all[i].as_str()) {
            let input = all[i].clone();
            proof {
                views_push(inputs@, input);
            }
            inputs.push(input);
        }
        i = i + 1;
    }
    assert(views(inputs@).len() == inputs@.len());
    if inputs.len() == 0 {
        Err(
            Failure::new(
                "nothing to package: name files after the options, or add a `lib`/`src` directory".to_owned(),
            ),
        )
    } else {
        Ok(inputs)
    }
}

// ---- planning ---------------------------------------------------------------------------------

/// The name of a timestamp source.
pub open spec fn source_name(source: TimestampSource) -> Seq<char> {
    match source {
        TimestampSource::SourceDateEpoch => "SourceDateEpoch"@,
        TimestampSource::GitCommit => "GitCommit"@,
        TimestampSource::NewestSourceMtime => "NewestSourceMtime"@,
    }
}

/// What a note adds to the diagnostics.
pub open spec fn noting(verbosity: Verbosity, message: Seq<char>) -> Seq<char> {
    if verbosity == Verbosity::Verbose {
        "note: "@ + message + "\n"@
    } else {
        Seq::empty()
    }
}

/// `links` tell of an error of planning, met while attempting something.
pub open spec fn relays(links: Seq<Seq<char>>, attempt: Seq<char>, e: ErrorView) -> bool {
    links == seq![attempt] + links_of(e)
}

/// `links` tell why a project could not be planned.
pub open spec fn unplanned(
    config: ResolvedConfigView,
    survey: SurveyView,
    source_date_epoch: Option<Seq<char>>,
    commit: Option<u64>,
    links: Seq<Seq<char>>,
    attempt: Seq<char>,
) -> bool {
    exists|e: ErrorView| #[trigger]
        relays(links, attempt, e) && planning(config, survey, source_date_epoch, commit, Err(e))
}

/// Plans the package and tells of what is worth knowing about it.
pub fn plan(
    config: &ResolvedConfig,
    survey: &Survey,
    source_date_epoch: Option<&str>,
    commit: Option<u64>,
    reporter: &mut Reporter,
) -> (r: core::result::Result<BuildPlan, Failure>)
    ensures
        match r {
            Ok(p) => exists|warnings: Seq<WarningView>, source: TimestampSource| #[trigger]
                planning(
                    config@,
                    survey@,
                    opt(source_date_epoch),
                    commit,
                    Ok((p@, warnings, source)),
                ) && final(reporter).err@ == old(reporter).err@ + warned(
                    old(reporter).verbosity,
                    warning_texts(warnings),
                ) + noting(old(reporter).verbosity, "timestamp source: "@ + source_name(source)),
            Err(f) => unplanned(
                config@,
                survey@,
                opt(source_date_epoch),
                commit,
                f@,
                "planning the package"@,
            ) && final(reporter).err == old(reporter).err,
        },
        final(reporter).out == old(reporter).out,
        final(reporter).verbosity == old(reporter).verbosity,
{
    let ghost before = reporter.err@;
    let ghost verbosity = reporter.verbosity;
    match build::plan(config, survey, source_date_epoch, commit) {
        Err(e) => {
            let f = Failure::of(&e).context("planning the package".to_owned());
            assert(relays(f@, "planning the package"@, e@));
            Err(f)
        },
        Ok((p, warnings, source)) => {
            report_warnings(reporter, &warnings);
            let mut message = "timestamp source: ".to_owned();
            message.append(
                match source {
                    TimestampSource::SourceDateEpoch => "SourceDateEpoch",
                    TimestampSource::GitCommit => "GitCommit",
                    TimestampSource::NewestSourceMtime => "NewestSourceMtime",
                },
            );
            let ghost so_far = reporter.err@;
            reporter.detail(message.as_str());
            assert(reporter.err@ =~= so_far + noting(verbosity, message@));
            assert(planning(
                config@,
                survey@,
                opt(source_date_epoch),
                commit,
                Ok((p@, views(warnings@), source)),
            ));
            Ok(p)
        },
    }
}

// ---- formats ----------------------------------------------------------------------------------

/// The formats asked for, in order and each once.
pub open spec fn formats_of(asked: Seq<Format>) -> Seq<Format> {
    seq![Format::Deb, Format::Rpm, Format::Arch].filter(|f: Format| asked.contains(f))
}

fn asks_for(asked: &Vec<Format>, format: Format) -> (b: bool)
    ensures
        b == asked@.contains(format),
{
    let mut i: usize = 0;
    while i < asked.len()
        invariant
            i <= asked@.len(),
            forall|j: int| 0 <= j < i ==> asked@[j] != format,
        decreases asked@.len() - i,
    {
        if asked[i] == format {
            assert(asked@[i as int] == format);
            return true;
        }
        i = i + 1;
    }
    false
}

pub fn selected_formats(cli: &Cli) -> (r: Vec<Format>)
    ensures
        r@ == formats_of(cli.format@),
{
    let mut r: Vec<Format> = Vec::new();
    let ghost wanted = |f: Format| cli.format@.contains(f);
    let ghost all = seq![Format::Deb, Format::Rpm, Format::Arch];
    proof {
        reveal(Seq::filter);
        assert(all.drop_last() =~= seq![Format::Deb, Format::Rpm]);
        assert(all.drop_last().drop_last() =~= seq![Format::Deb]);
        assert(all.drop_last().drop_last().drop_last() =~= Seq::empty());
        reveal_with_fuel(Seq::filter, 4);
    }
    if asks_for(&cli.format, Format::Deb) {
        r.push(Format::Deb);
    }
    assert(r@ =~= seq![Format::Deb].filter(wanted));
    if asks_for(&cli.format, Format::Rpm) {
        r.push(Format::Rpm);
    }
    assert(r@ =~= seq![Format::Deb, Format::Rpm].filter(wanted));
    if asks_for(&cli.format, Format::Arch) {
        r.push(Format::Arch);
    }
    assert(r@ =~= all.filter(wanted));
    r
}

/// What a format cannot honour, as a warning.
pub open spec fn unhonoured_warning(format: Format, init: InitSystem) -> Seq<Seq<char>> {
    match format.unhonoured(init) {
        Some(reason) => seq![format.spelling() + ": "@ + reason],
        None => Seq::empty(),
    }
}

/// What the first `n` formats cannot honour.
pub open spec fn unhonoured_warnings(formats: Seq<Format>, init: InitSystem, n: int) -> Seq<
    Seq<char>,
>
    decreases n,
{
    if n <= 0 {
        Seq::empty()
    } else {
        unhonoured_warnings(formats, init, n - 1) + unhonoured_warning(formats[n - 1], init)
    }
}

/// Tells of what the formats cannot honour.
pub fn warn_unsupported(formats: &Vec<Format>, config: &ResolvedConfig, reporter: &mut Reporter)
    ensures
        final(reporter).err@ == old(reporter).err@ + warned(
            old(reporter).verbosity,
            unhonoured_warnings(formats@, config@.init, formats@.len() as int),
        ),
        final(reporter).out == old(reporter).out,
        final(reporter).verbosity == old(reporter).verbosity,
{
    let ghost before = reporter.err@;
    let ghost verbosity = reporter.verbosity;
    proof {
        no_warnings(verbosity, before);
    }
    let mut i: usize = 0;
    while i < formats.len()
        invariant
            i <= formats@.len(),
            verbosity == old(reporter).verbosity,
            reporter.err@ == before + warned(
                verbosity,
                unhonoured_warnings(formats@, config@.init, i as int),
            ),
            reporter.out == old(reporter).out,
            reporter.verbosity == verbosity,
        decreases formats@.len() - i,
    {
        let format = formats[i];
        let ghost so_far = unhonoured_warnings(formats@, config@.init, i as int);
        match format.unsupported(config.init) {
            Some(reason) => {
                let mut message = format.name().to_owned();
                message.append(": ");
                message.append(reason.as_str());
                proof {
                    assert(so_far + unhonoured_warning(format, config@.init) =~= so_far.push(
                        message@,
                    ));
                    one_more_warning(verbosity, so_far, message@);
                    let told = warned(verbosity, so_far);
                    assert(before + (told + "warning: "@ + message@ + "\n"@) =~= (before + told)
                        + "warning: "@ + message@ + "\n"@);
                }
                reporter.warn(message.as_str());
            },
            None => {
                assert(so_far + unhonoured_warning(format, config@.init) =~= so_far);
            },
        }
        i = i + 1;
    }
}

// ---- replaced templates -----------------------------------------------------------------------

/// A template and the file that replaces it, if one is configured.
pub open spec fn configured(name: Seq<char>, path: Option<Seq<char>>) -> Seq<
    (Seq<char>, Seq<char>),
> {
    match path {
        Some(path) => seq![(name, path)],
        None => Seq::empty(),
    }
}

/// The templates to replace, each with the file that replaces it. The command line comes first:
/// of two replacements of one template the first counts.
pub open spec fn replacements_of(cli: Cli, config: ResolvedConfigView) -> Seq<
    (Seq<char>, Seq<char>),
> {
    cli.overridden() + configured("executable"@, config.templates.executable) + configured(
        "systemd.service"@,
        config.templates.systemd_service,
    ) + configured("sysv-init"@, config.templates.sysv_init) + configured(
        "upstart.conf"@,
        config.templates.upstart_conf,
    ) + configured("default"@, config.templates.default_variables)
}

/// Replacements as plain values.
pub open spec fn replacement_views(found: Seq<(&'static str, String)>) -> Seq<
    (Seq<char>, Seq<char>),
> {
    found.map_values(|o: (&'static str, String)| (o.0@, o.1@))
}

fn configure_replacement(
    found: &mut Vec<(&'static str, String)>,
    name: &'static str,
    path: &Option<String>,
)
    ensures
        replacement_views(final(found)@) == replacement_views(old(found)@) + configured(
            name@,
            opt(*path),
        ),
{
    let ghost before = found@;
    match path {
        Some(path) => {
            found.push((name, path.clone()));
        },
        None => {},
    }
    assert(replacement_views(found@) =~= replacement_views(before) + configured(
        name@,
        opt(*path),
    ));
}

/// The templates to replace, by built-in name, each with the file to read.
pub fn template_replacements(cli: &Cli, config: &ResolvedConfig) -> (r: Vec<
    (&'static str, String),
>)
    ensures
        replacement_views(r@) == replacements_of(*cli, config@),
{
    let mut found: Vec<(&'static str, String)> = Vec::new();
    let passed = cli.template_overrides();
    let ghost all = override_views(passed@);
    assert(replacement_views(found@) =~= all.take(0));
    let mut i: usize = 0;
    while i < passed.len()
        invariant
            i <= passed@.len(),
            all == override_views(passed@),
            replacement_views(found@) == all.take(i as int),
        decreases passed@.len() - i,
    {
        let (name, path) = passed[i];
        let owned = path.to_owned();
        proof {
            assert(all[i as int] == (name@, path@));
            assert(replacement_views(found@.push((name, owned))) =~= replacement_views(found@).push(
                (name@, owned@),
            ));
            assert(all.take(i + 1) =~= all.take(i as int).push(all[i as int]));
        }
        found.push((name, owned));
        i = i + 1;
    }
    assert(all.take(i as int) =~= all);
    configure_replacement(&mut found, "executable", &config.templates.executable);
    configure_replacement(&mut found, "systemd.service", &config.templates.systemd_service);
    configure_replacement(&mut found, "sysv-init", &config.templates.sysv_init);
    configure_replacement(&mut found, "upstart.conf", &config.templates.upstart_conf);
    configure_replacement(&mut found, "default", &config.templates.default_variables);
    found
}

// ---- generated files --------------------------------------------------------------------------

/// A template the user replaces, and what reading the replacement gave.
#[derive(Debug)]
pub struct TemplateOverride {
    pub name: String,
    pub path: String,
    pub read: core::result::Result<String, String>,
}

pub struct TemplateOverrideView {
    pub name: Seq<char>,
    pub path: Seq<char>,
    pub read: core::result::Result<Seq<char>, Seq<char>>,
}

impl View for TemplateOverride {
    type V = TemplateOverrideView;

    open spec fn view(&self) -> TemplateOverrideView {
        TemplateOverrideView {
            name: self.name@,
            path: self.path@,
            read: match self.read {
                Ok(text) => Ok(text@),
                Err(reason) => Err(reason@),
            },
        }
    }
}

/// The source of a template: that of the first override of it from the `i`th on, or the
/// built-in. A replacement that could not be read is an error.
pub open spec fn source_from(
    name: Seq<char>,
    overrides: Seq<TemplateOverrideView>,
    i: int,
) -> core::result::Result<Seq<char>, ErrorView>
    decreases overrides.len() - i,
{
    if i >= overrides.len() {
        looked_up("template"@, builtin_table(), name)
    } else if overrides[i].name == name {
        match overrides[i].read {
            Ok(text) => Ok(text),
            Err(source) => Err(ErrorView::Io { path: overrides[i].path, source }),
        }
    } else {
        source_from(name, overrides, i + 1)
    }
}

fn source_of(name: &str, overrides: &Vec<TemplateOverride>) -> (r: crate::error::Result<String>)
    ensures
        outcome(r) == source_from(name@, views(overrides@), 0),
{
    let ghost all = views(overrides@);
    let mut i: usize = 0;
    while i < overrides.len()
        invariant
            i <= overrides@.len(),
            all == views(overrides@),
            source_from(name@, all, 0) == source_from(name@, all, i as int),
        decreases overrides@.len() - i,
    {
        let found = &overrides[i];
        assert(all[i as int] == found@);
        if same(found.name.as_str(), name) {
            return template::load(
                name,
                Some(
                    match &found.read {
                        Ok(text) => Ok(text.clone()),
                        Err(reason) => Err(Error::io(found.path.clone(), reason.clone())),
                    },
                ),
            );
        }
        i = i + 1;
    }
    template::load(name, None)
}

/// The text of a generated file, or why there is none.
pub open spec fn file_text(
    name: Seq<char>,
    overrides: Seq<TemplateOverrideView>,
    values: Map<Seq<char>, Seq<char>>,
) -> core::result::Result<Seq<char>, Seq<Seq<char>>> {
    match source_from(name, overrides, 0) {
        Err(e) => Err(seq!["loading template `"@ + name + "`"@] + links_of(e)),
        Ok(source) => match rendered(name, source, values) {
            Err(e) => Err(seq!["rendering template `"@ + name + "`"@] + links_of(e)),
            Ok(text) => Ok(text),
        },
    }
}

fn about_template(attempt: &str, name: &str) -> (s: String)
    ensures
        s@ == attempt@ + name@ + "`"@,
{
    let mut s = attempt.to_owned();
    s.append(name);
    s.append("`");
    s
}

fn text_for(name: &str, overrides: &Vec<TemplateOverride>, variables: &Variables) -> (r:
    core::result::Result<String, Failure>)
    ensures
        match r {
            Ok(text) => file_text(name@, views(overrides@), variables@) == Ok::<
                Seq<char>,
                Seq<Seq<char>>,
            >(text@),
            Err(f) => file_text(name@, views(overrides@), variables@) == Err::<
                Seq<char>,
                Seq<Seq<char>>,
            >(f@),
        },
{
    match source_of(name, overrides) {
        Err(e) => Err(Failure::of(&e).context(about_template("loading template `", name))),
        Ok(source) => match template::render(name, source.as_str(), variables) {
            Err(e) => Err(Failure::of(&e).context(about_template("rendering template `", name))),
            Ok(text) => Ok(text),
        },
    }
}

/// The first `n` generated files with their texts, or why one has none.
pub open spec fn texts_of(
    files: Seq<ServiceFileView>,
    overrides: Seq<TemplateOverrideView>,
    values: Map<Seq<char>, Seq<char>>,
    n: int,
) -> core::result::Result<Seq<(ServiceFileView, Seq<char>)>, Seq<Seq<char>>>
    decreases n,
{
    if n <= 0 {
        Ok(Seq::empty())
    } else {
        match texts_of(files, overrides, values, n - 1) {
            Err(links) => Err(links),
            Ok(before) => match file_text(files[n - 1].template, overrides, values) {
                Err(links) => Err(links),
                Ok(text) => Ok(before.push((files[n - 1], text))),
            },
        }
    }
}

/// A failure among the first files stays the failure.
proof fn the_first_failure_stands(
    files: Seq<ServiceFileView>,
    overrides: Seq<TemplateOverrideView>,
    values: Map<Seq<char>, Seq<char>>,
    i: int,
    n: int,
)
    requires
        0 <= i <= n,
        texts_of(files, overrides, values, i) is Err,
    ensures
        texts_of(files, overrides, values, n) == texts_of(files, overrides, values, i),
    decreases n - i,
{
    if i < n {
        the_first_failure_stands(files, overrides, values, i, n - 1);
    }
}

/// `links` tell why generated files could not be added to a plan.
pub open spec fn not_added(
    p: BuildPlanView,
    added: Seq<(ServiceFileView, Seq<char>)>,
    links: Seq<Seq<char>>,
    attempt: Seq<char>,
) -> bool {
    exists|e: ErrorView| #[trigger]
        relays(links, attempt, e) && plans(
            p.identity,
            p.files + generated_entries(added),
            p.timestamp,
            p.metadata,
            Err(e),
        )
}

/// What adding the generated files to a plan comes to.
pub open spec fn generating(
    p: BuildPlanView,
    config: ResolvedConfigView,
    values: Map<Seq<char>, Seq<char>>,
    overrides: Seq<TemplateOverrideView>,
    r: core::result::Result<BuildPlanView, Seq<Seq<char>>>,
) -> bool {
    match placed(wanted_files(config)) {
        Err(e) => r is Err && relays(r->Err_0, "placing the generated files"@, e),
        Ok(files) => match texts_of(files, overrides, values, files.len() as int) {
            Err(links) => r == Err::<BuildPlanView, Seq<Seq<char>>>(links),
            Ok(added) => match r {
                Ok(plan) => plans(
                    p.identity,
                    p.files + generated_entries(added),
                    p.timestamp,
                    p.metadata,
                    Ok(plan),
                ),
                Err(links) => not_added(
                    p,
                    added,
                    links,
                    "adding the generated files to the plan"@,
                ),
            },
        },
    }
}

/// What generating came to, as plain values.
pub open spec fn arrived(r: core::result::Result<BuildPlan, Failure>) -> core::result::Result<
    BuildPlanView,
    Seq<Seq<char>>,
> {
    match r {
        Ok(plan) => Ok(plan@),
        Err(f) => Err(f@),
    }
}

/// The texts of the generated files, in order.
fn render_each(
    files: Vec<ServiceFile>,
    overrides: &Vec<TemplateOverride>,
    variables: &Variables,
) -> (r: core::result::Result<Vec<(ServiceFile, String)>, Failure>)
    ensures
        match r {
            Ok(texts) => texts_of(
                views(files@),
                views(overrides@),
                variables@,
                files@.len() as int,
            ) == Ok::<Seq<(ServiceFileView, Seq<char>)>, Seq<Seq<char>>>(generated_views(texts@)),
            Err(f) => texts_of(
                views(files@),
                views(overrides@),
                variables@,
                files@.len() as int,
            ) == Err::<Seq<(ServiceFileView, Seq<char>)>, Seq<Seq<char>>>(f@),
        },
{
    let ghost all = views(files@);
    let mut texts: Vec<(ServiceFile, String)> = Vec::new();
    assert(generated_views(texts@) =~= Seq::empty());
    for file in it: files
        invariant
            it.seq() == files@,
            all == views(files@),
            texts_of(all, views(overrides@), variables@, it.index() as int) == Ok::<
                Seq<(ServiceFileView, Seq<char>)>,
                Seq<Seq<char>>,
            >(generated_views(texts@)),
    {
        let ghost at = it.index() as int;
        assert(all[at] == file@);
        match text_for(file.template, overrides, variables) {
            Err(f) => {
                proof {
                    the_first_failure_stands(
                        all,
                        views(overrides@),
                        variables@,
                        at + 1,
                        all.len() as int,
                    );
                }
                return Err(f);
            },
            Ok(text) => {
                assert(generated_views(texts@.push((file, text))) =~= generated_views(texts@).push(
                    (file@, text@),
                ));
                texts.push((file, text));
            },
        }
    }
    Ok(texts)
}

/// Renders the generated service files into a plan. A `/usr/bin` link at the wrapper is planned
/// with the payload, so without this it would dangle.
pub fn generate(
    plan: &BuildPlan,
    config: &ResolvedConfig,
    variables: &Variables,
    overrides: &Vec<TemplateOverride>,
) -> (r: core::result::Result<BuildPlan, Failure>)
    ensures
        generating(plan@, config@, variables@, views(overrides@), arrived(r)),
{
    let files = match service_files(config) {
        Err(e) => {
            let f = Failure::of(&e).context("placing the generated files".to_owned());
            return Err(f);
        },
        Ok(files) => files,
    };
    assert(views(files@).len() == files@.len());
    let texts = match render_each(files, overrides, variables) {
        Err(f) => {
            return Err(f);
        },
        Ok(texts) => texts,
    };
    let ghost added = generated_views(texts@);
    match with_generated(plan, texts) {
        Err(e) => {
            let f = Failure::of(&e).context("adding the generated files to the plan".to_owned());
            assert(relays(f@, "adding the generated files to the plan"@, e@));
            assert(not_added(plan@, added, f@, "adding the generated files to the plan"@));
            Err(f)
        },
        Ok(plan) => Ok(plan),
    }
}

// ---- dry run ----------------------------------------------------------------------------------

/// The format a dry run spells the generated files for.
pub open spec fn described_format(formats: Seq<Format>) -> Format {
    if formats.len() > 0 {
        formats[0]
    } else {
        Format::Deb
    }
}

/// The plan a dry run describes. Generated files are added here too, or it would describe a
/// package without the unit, the wrapper and the defaults file.
pub fn described_plan(
    formats: &Vec<Format>,
    plan: &BuildPlan,
    config: &ResolvedConfig,
    generator_version: &str,
    overrides: &Vec<TemplateOverride>,
) -> (r: core::result::Result<BuildPlan, Failure>)
    ensures
        derives(
            described_format(formats@),
            plan@,
            config@,
            generator_version@,
            views(overrides@),
            arrived(r),
        ),
{
    let format = if formats.len() > 0 {
        formats[0]
    } else {
        Format::Deb
    };
    match format.variables(config, generator_version) {
        Err(f) => Err(f),
        Ok(variables) => generate(plan, config, &variables, overrides),
    }
}

/// What deriving a format's own plan comes to.
pub open spec fn derives(
    format: Format,
    p: BuildPlanView,
    config: ResolvedConfigView,
    generator_version: Seq<char>,
    overrides: Seq<TemplateOverrideView>,
    r: core::result::Result<BuildPlanView, Seq<Seq<char>>>,
) -> bool {
    match format.variables_in(config, generator_version) {
        Err(links) => r == Err::<BuildPlanView, Seq<Seq<char>>>(links),
        Ok(values) => generating(p, config, values, overrides, r),
    }
}

// ---- building ---------------------------------------------------------------------------------

/// What building one format's package may come to, from the shared plan.
pub open spec fn attempts(
    format: Format,
    p: BuildPlanView,
    config: ResolvedConfigView,
    generator_version: Seq<char>,
    overrides: Seq<TemplateOverrideView>,
    triggers: Option<core::result::Result<Seq<u8>, Seq<char>>>,
    sources: Sources,
    r: core::result::Result<PackageView, Seq<Seq<char>>>,
) -> bool {
    match format.variables_in(config, generator_version) {
        Err(links) => r == Err::<PackageView, Seq<Seq<char>>>(links),
        Ok(values) => {
            ||| r is Err && generating(p, config, values, overrides, Err(r->Err_0))
            ||| exists|derived: BuildPlanView| #[trigger]
                generating(p, config, values, overrides, Ok(derived)) && format.builds(
                    derived,
                    config,
                    values,
                    triggers,
                    sources,
                    r,
                )
        },
    }
}

/// Builds one format's package. Rendered per format, because the vocabulary carries per-format
/// spellings; the shared plan is never modified.
pub fn attempt(
    format: Format,
    plan: &BuildPlan,
    config: &ResolvedConfig,
    generator_version: &str,
    overrides: &Vec<TemplateOverride>,
    triggers: Option<core::result::Result<Vec<u8>, String>>,
    sources: &Sources,
) -> (r: core::result::Result<Package, Failure>)
    ensures
        attempts(
            format,
            plan@,
            config@,
            generator_version@,
            views(overrides@),
            read_triggers(triggers),
            *sources,
            concluded(r),
        ),
{
    let variables = match format.variables(config, generator_version) {
        Err(f) => {
            return Err(f);
        },
        Ok(variables) => variables,
    };
    let derived = match generate(plan, config, &variables, overrides) {
        Err(f) => {
            return Err(f);
        },
        Ok(derived) => derived,
    };
    assert(generating(plan@, config@, variables@, views(overrides@), Ok(derived@)));
    format.build(&derived, config, &variables, triggers, sources)
}

/// What one format's build produced: the path written, or why none was.
#[derive(Debug)]
pub struct Built {
    pub format: Format,
    pub outcome: core::result::Result<String, Failure>,
}

/// What telling of a build adds to the results.
pub open spec fn told_result(
    verbosity: Verbosity,
    outcome: core::result::Result<String, Failure>,
) -> Seq<char> {
    match outcome {
        Ok(path) => if verbosity == Verbosity::Quiet {
            Seq::empty()
        } else {
            path@ + "\n"@
        },
        Err(f) => Seq::empty(),
    }
}

/// What telling of a build adds to the diagnostics.
pub open spec fn told_failure(
    format: Format,
    outcome: core::result::Result<String, Failure>,
) -> Seq<char> {
    match outcome {
        Ok(path) => Seq::empty(),
        Err(f) => unlines(
            crate::report::failure_lines("error: "@ + format.spelling() + ": "@, f@),
        ),
    }
}

/// Tells of what one format's build came to, and keeps it. One format's failure does not stop
/// the others: "two succeeded, one failed and why" beats a stop at the first problem.
pub fn record(
    built: &mut Vec<Built>,
    format: Format,
    outcome: core::result::Result<String, Failure>,
    reporter: &mut Reporter,
)
    ensures
        final(built)@ == old(built)@.push(Built { format, outcome }),
        final(reporter).out@ == old(reporter).out@ + told_result(old(reporter).verbosity, outcome),
        final(reporter).err@ == old(reporter).err@ + told_failure(format, outcome),
        final(reporter).verbosity == old(reporter).verbosity,
{
    let ghost out = reporter.out@;
    let ghost err = reporter.err@;
    let ghost verbosity = reporter.verbosity;
    match &outcome {
        Ok(path) => {
            reporter.produced(format, path.as_str());
        },
        Err(f) => {
            reporter.failed(format, f);
        },
    }
    assert(reporter.out@ =~= out + told_result(verbosity, outcome));
    assert(reporter.err@ =~= err + told_failure(format, outcome));
    built.push(Built { format, outcome });
}

/// How many of the first `n` builds failed.
pub open spec fn failures_among(built: Seq<Built>, n: int) -> nat
    decreases n,
{
    if n <= 0 {
        0
    } else if built[n - 1].outcome is Err {
        failures_among(built, n - 1) + 1
    } else {
        failures_among(built, n - 1)
    }
}

/// How many builds failed.
pub open spec fn failures(built: Seq<Built>) -> nat {
    failures_among(built, built.len() as int)
}

/// Writes the final summary and returns the process exit code.
pub fn summarise(built: &Vec<Built>, reporter: &mut Reporter) -> (code: i32)
    ensures
        failures(built@) == 0 ==> code == 0 && *final(reporter) == *old(reporter),
        failures(built@) > 0 ==> code == 1 && final(reporter).err@ == old(reporter).err@ + (decimal(
            failures(built@),
        ) + " of "@ + decimal(built@.len()) + " formats failed"@) + "\n"@,
        final(reporter).out == old(reporter).out,
        final(reporter).verbosity == old(reporter).verbosity,
{
    let mut failed: usize = 0;
    let mut i: usize = 0;
    while i < built.len()
        invariant
            i <= built@.len(),
            failed <= i,
            failed == failures_among(built@, i as int),
        decreases built@.len() - i,
    {
        if built[i].outcome.is_err() {
            failed = failed + 1;
        }
        i = i + 1;
    }
    if failed == 0 {
        return 0;
    }
    let mut line = decimal_text(failed as u64);
    line.append(" of ");
    line.append(decimal_text(built.len() as u64).as_str());
    line.append(" formats failed");
    reporter.error_line(line.as_str());
    1
}

// ---- laws -------------------------------------------------------------------------------------

/// The formats to build come in order, each once, and are those that were asked for.
pub proof fn formats_are_in_order_and_once(asked: Seq<Format>, f: Format)
    ensures
        formats_of(asked).contains(f) <==> asked.contains(f),
        formats_of(asked).no_duplicates(),
        forall|i: int, j: int|
            0 <= i < j < formats_of(asked).len() ==> rank(formats_of(asked)[i]) < rank(
                formats_of(asked)[j],
            ),
{
    let wanted = |f: Format| asked.contains(f);
    let all = seq![Format::Deb, Format::Rpm, Format::Arch];
    reveal(Seq::filter);
    assert(all.drop_last() =~= seq![Format::Deb, Format::Rpm]);
    assert(all.drop_last().drop_last() =~= seq![Format::Deb]);
    assert(all.drop_last().drop_last().drop_last() =~= Seq::empty());
    reveal_with_fuel(Seq::filter, 4);
    let first = seq![Format::Deb].filter(wanted);
    let second = seq![Format::Deb, Format::Rpm].filter(wanted);
    let third = all.filter(wanted);
    assert(third == formats_of(asked));
    assert(second == if asked.contains(Format::Rpm) {
        first.push(Format::Rpm)
    } else {
        first
    });
    assert(third == if asked.contains(Format::Arch) {
        second.push(Format::Arch)
    } else {
        second
    });
    assert(first =~= if asked.contains(Format::Deb) {
        seq![Format::Deb]
    } else {
        Seq::empty()
    });
    if asked.contains(f) {
        let at: int = match f {
            Format::Deb => 0,
            Format::Rpm => first.len() as int,
            Format::Arch => second.len() as int,
        };
        assert(third[at] == f);
    }
}

/// Where a format stands among all.
pub open spec fn rank(f: Format) -> int {
    match f {
        Format::Deb => 0,
        Format::Rpm => 1,
        Format::Arch => 2,
    }
}

/// A candidate that exists is packaged where nothing was named: an entry point in the project
/// is never left out.
pub proof fn what_exists_is_packaged(
    all: Seq<Seq<char>>,
    existing: Seq<Seq<char>>,
    i: int,
    n: int,
)
    requires
        0 <= i < n <= all.len(),
        existing.contains(all[i]),
    ensures
        lists_path(existing_inputs(all, existing, n), all[i]),
    decreases n,
{
    let before = existing_inputs(all, existing, n - 1);
    let after = existing_inputs(all, existing, n);
    if i == n - 1 {
        if !lists_path(before, all[i]) {
            assert(same_path(after[before.len() as int], all[i]));
        }
    } else {
        what_exists_is_packaged(all, existing, i, n - 1);
        let k = choose|k: int| 0 <= k < before.len() && #[trigger] same_path(before[k], all[i]);
        assert(same_path(after[k], all[i]));
    }
}

/// The exit status is zero exactly when every format was built.
pub proof fn success_means_every_format(built: Seq<Built>, n: int)
    requires
        0 <= n <= built.len(),
    ensures
        failures_among(built, n) == 0 <==> forall|i: int|
            0 <= i < n ==> (#[trigger] built[i]).outcome is Ok,
    decreases n,
{
    if n > 0 {
        success_means_every_format(built, n - 1);
    }
}

/// A dry run describes what a build writes: the plan it shows for a format is the plan that
/// format's package is built from.
pub proof fn a_dry_run_describes_what_is_built(
    format: Format,
    p: BuildPlanView,
    config: ResolvedConfigView,
    generator_version: Seq<char>,
    overrides: Seq<TemplateOverrideView>,
    shown: BuildPlanView,
    built: BuildPlanView,
)
    requires
        derives(format, p, config, generator_version, overrides, Ok(shown)),
        format.variables_in(config, generator_version) is Ok,
        generating(
            p,
            config,
            format.variables_in(config, generator_version)->Ok_0,
            overrides,
            Ok(built),
        ),
    ensures
        shown == built,
{
    let values = format.variables_in(config, generator_version)->Ok_0;
    let files = placed(wanted_files(config))->Ok_0;
    let added = texts_of(files, overrides, values, files.len() as int)->Ok_0;
    crate::plan::a_plan_is_unique(p.files + generated_entries(added), shown.files, built.files);
}

/// The file that replaces a template, from the `i`th replacement on.
pub open spec fn first_named(found: Seq<(Seq<char>, Seq<char>)>, name: Seq<char>, i: int) -> Option<
    Seq<char>,
>
    decreases found.len() - i,
{
    if i >= found.len() {
        None
    } else if found[i].0 == name {
        Some(found[i].1)
    } else {
        first_named(found, name, i + 1)
    }
}

/// A template replaced on the command line is replaced by that file, whatever the settings say.
pub proof fn a_flag_wins_over_a_configured_template(
    cli: Cli,
    config: ResolvedConfigView,
    name: Seq<char>,
    i: int,
)
    requires
        0 <= i <= cli.overridden().len(),
        first_named(cli.overridden(), name, i) is Some,
    ensures
        first_named(replacements_of(cli, config), name, i) == first_named(
            cli.overridden(),
            name,
            i,
        ),
    decreases cli.overridden().len() - i,
{
    let passed = cli.overridden();
    let all = replacements_of(cli, config);
    if i < passed.len() {
        assert(all[i] == passed[i]);
        if passed[i].0 != name {
            a_flag_wins_over_a_configured_template(cli, config, name, i + 1);
        }
    }
}

/// Each flag overrides the field it is named after, and no other.
pub proof fn each_flag_overrides_its_field(cli: Cli)
    ensures
        ({
            let o = overrides_of(cli);
            &&& o.package_name == opt(cli.package_name)
            &&& o.version == opt(cli.version)
            &&& o.epoch == cli.epoch
            &&& o.description == opt(cli.description)
            &&& o.maintainer == opt(cli.maintainer)
            &&& o.dependencies == opt(cli.deps)
            &&& o.install_dir == opt(cli.install_dir)
            &&& o.user == opt(cli.user)
            &&& o.group == opt(cli.group)
            &&& o.executable_name == opt(cli.executable_name)
            &&& o.output_deb_name == opt(cli.output_name)
            &&& o.extra_files == opt(cli.extra_files)
            &&& o.triggers_file == opt(cli.triggers_file)
            &&& o.daemon_entrypoint == opt(cli.daemon_entrypoint)
            &&& o.cli_entrypoint == opt(cli.cli_entrypoint)
            &&& o.install_command == opt(cli.install_command)
            &&& o.install_binary == opt(cli.install_binary)
            &&& o.include_nodejs == cli.nodejs
            &&& cli.init is None <==> o.init is None
            &&& cli.init matches Some(choice) ==> o.init == Some(choice.meaning())
            &&& cli.install_strategy is None <==> o.install_strategy is None
            &&& cli.install_strategy matches Some(choice) ==> o.install_strategy == Some(
                choice.meaning(),
            )
        }),
{
}

/// The architecture may be given under its old flag, which is then warned of; given under both,
/// the current one counts and there is nothing to warn of.
pub proof fn the_old_architecture_flag_still_counts(cli: Cli)
    ensures
        cli.architecture matches Some(a) ==> overrides_of(cli).architecture == Some(a@)
            && spelling_warnings(cli).len() == 0,
        cli.architecture is None ==> (cli.arch_deprecated matches Some(a) ==> overrides_of(
            cli,
        ).architecture == Some(a@) && spelling_warnings(cli).len() == 1),
        cli.architecture is None && cli.arch_deprecated is None ==> overrides_of(cli).architecture
            is None && spelling_warnings(cli).len() == 0,
{
}

proof fn components_before_a_piece(pieces: Seq<Seq<char>>, more: Seq<Seq<char>>, n: int)
    requires
        0 <= n <= pieces.len(),
    ensures
        components_in(pieces + more, n) == components_in(pieces, n),
    decreases n,
{
    if n > 0 {
        components_before_a_piece(pieces, more, n - 1);
        assert((pieces + more)[n - 1] == pieces[n - 1]);
    }
}

/// Paths are told apart by their components: a separator at the end, a doubled one or a `.` in the
/// middle makes no other path, and one more name makes a path of one more component.
pub proof fn paths_are_their_components(path: Seq<char>, name: Seq<char>)
    requires
        !name.contains('/'),
    ensures
        name.len() == 0 || name == "."@ ==> components_of(path + "/"@ + name) == components_of(
            path,
        ),
        name.len() > 0 && name != "."@ ==> components_of(path + "/"@ + name) == components_of(
            path,
        ).push(name),
{
    reveal_strlit("/");
    assert(path + "/"@ + name =~= path.push('/') + name);
    split_append(path, name, '/');
    let pieces = split_at_char(path, '/');
    split_joins_back(path, '/');
    assert(pieces.push(name) =~= pieces + seq![name]);
    components_before_a_piece(pieces, seq![name], pieces.len() as int);
}

/// What is named is packaged, as it is named. Where nothing is, each usual place that exists is
/// packaged and nothing else is, and where none exists that is an error.
pub proof fn the_usual_places_are_packaged(
    named: Seq<Seq<char>>,
    config: ResolvedConfigView,
    existing: Seq<Seq<char>>,
    place: Seq<char>,
)
    ensures
        named.len() > 0 ==> chosen_inputs(named, config, existing) == Ok::<
            Seq<Seq<char>>,
            Seq<Seq<char>>,
        >(named),
        named.len() == 0 && existing.contains(place) && (config.daemon_entrypoint == Some(place)
            || config.cli_entrypoint == Some(place) || place == "package.json"@ || place == "lib"@
            || place == "src"@ || place == "bin"@ || place == "index.js"@) ==> (chosen_inputs(
            named,
            config,
            existing,
        ) matches Ok(inputs) && lists_path(inputs, place)),
        named.len() == 0 ==> (chosen_inputs(named, config, existing) matches Ok(inputs)
            ==> forall|i: int|
            0 <= i < inputs.len() ==> existing.contains(#[trigger] inputs[i]) && default_inputs(
                config,
            ).contains(inputs[i])),
{
    let all = default_inputs(config);
    let n = all.len() as int;
    selections_hold::<Seq<char>>();
    found_inputs_exist(all, existing, n);
    if existing.contains(place) && (config.daemon_entrypoint == Some(place)
        || config.cli_entrypoint == Some(place) || place == "package.json"@ || place == "lib"@
        || place == "src"@ || place == "bin"@ || place == "index.js"@) {
        assert(all.contains(place));
        let i = all.index_of(place);
        what_exists_is_packaged(all, existing, i, n);
    }
}

proof fn found_inputs_exist(all: Seq<Seq<char>>, existing: Seq<Seq<char>>, n: int)
    requires
        0 <= n <= all.len(),
    ensures
        forall|i: int|
            0 <= i < existing_inputs(all, existing, n).len() ==> existing.contains(
                #[trigger] existing_inputs(all, existing, n)[i],
            ) && all.contains(existing_inputs(all, existing, n)[i]),
    decreases n,
{
    if n > 0 {
        found_inputs_exist(all, existing, n - 1);
        let before = existing_inputs(all, existing, n - 1);
        let found = existing_inputs(all, existing, n);
        assert forall|i: int| 0 <= i < found.len() implies existing.contains(#[trigger] found[i])
            && all.contains(found[i]) by {
            if i < before.len() {
                assert(found[i] == before[i]);
            } else {
                assert(all[n - 1] == found[i]);
            }
        }
    }
}

/// A format that cannot honour the init system is warned of, under its name and with the reason.
pub proof fn what_is_not_honoured_is_warned_of(
    formats: Seq<Format>,
    init: InitSystem,
    n: int,
    i: int,
)
    requires
        0 <= i < n <= formats.len(),
    ensures
        formats[i].unhonoured(init) matches Some(reason) ==> unhonoured_warnings(
            formats,
            init,
            n,
        ).contains(formats[i].spelling() + ": "@ + reason),
        (forall|k: int| 0 <= k < n ==> (#[trigger] formats[k]).unhonoured(init) is None)
            ==> unhonoured_warnings(formats, init, n).len() == 0,
    decreases n,
{
    selections_hold::<Seq<char>>();
    if i < n - 1 {
        what_is_not_honoured_is_warned_of(formats, init, n - 1, i);
    } else if n > 1 {
        what_is_not_honoured_is_warned_of(formats, init, n - 1, 0);
    } else {
        assert(unhonoured_warnings(formats, init, 0).len() == 0);
    }
    assert(formats[n - 1].unhonoured(init) is None ==> unhonoured_warnings(formats, init, n)
        =~= unhonoured_warnings(formats, init, n - 1));
}

/// Looking for a name goes on in the second list where the first does not have it.
proof fn named_in_either(
    a: Seq<(Seq<char>, Seq<char>)>,
    b: Seq<(Seq<char>, Seq<char>)>,
    name: Seq<char>,
    i: int,
)
    requires
        0 <= i <= a.len(),
    ensures
        first_named(a + b, name, i) == (match first_named(a, name, i) {
            Some(path) => Some(path),
            None => first_named(b, name, 0),
        }),
    decreases a.len() - i,
{
    if i < a.len() {
        assert((a + b)[i] == a[i]);
        named_in_either(a, b, name, i + 1);
    } else {
        named_behind(a, b, name, 0);
    }
}

proof fn named_behind(
    a: Seq<(Seq<char>, Seq<char>)>,
    b: Seq<(Seq<char>, Seq<char>)>,
    name: Seq<char>,
    i: int,
)
    requires
        0 <= i <= b.len(),
    ensures
        first_named(a + b, name, a.len() + i) == first_named(b, name, i),
    decreases b.len() - i,
{
    if i < b.len() {
        assert((a + b)[a.len() + i] == b[i]);
        named_behind(a, b, name, i + 1);
    }
}

/// What a list of at most one replacement holds under a name.
proof fn named_once(name: Seq<char>, wanted: Seq<char>, flag: Option<String>, path: Option<Seq<char>>)
    ensures
        first_named(crate::cli::replacing(name, flag), wanted, 0) == (if name == wanted {
            opt(flag)
        } else {
            None
        }),
        first_named(configured(name, path), wanted, 0) == (if name == wanted {
            path
        } else {
            None
        }),
{
    reveal_with_fuel(first_named, 2);
}

/// What replaces a template of the given name: the file its flag names, or else the one its
/// setting names.
proof fn replaced_by(cli: Cli, config: ResolvedConfigView, wanted: Seq<char>)
    ensures
        first_named(replacements_of(cli, config), wanted, 0) == (match first_named(
            cli.overridden(),
            wanted,
            0,
        ) {
            Some(path) => Some(path),
            None => if wanted == "executable"@ && config.templates.executable is Some {
                config.templates.executable
            } else if wanted == "systemd.service"@ && config.templates.systemd_service is Some {
                config.templates.systemd_service
            } else if wanted == "sysv-init"@ && config.templates.sysv_init is Some {
                config.templates.sysv_init
            } else if wanted == "upstart.conf"@ && config.templates.upstart_conf is Some {
                config.templates.upstart_conf
            } else if wanted == "default"@ {
                config.templates.default_variables
            } else {
                None
            },
        }),
{
    let t = config.templates;
    let a = configured("executable"@, t.executable);
    let b = configured("systemd.service"@, t.systemd_service);
    let c = configured("sysv-init"@, t.sysv_init);
    let d = configured("upstart.conf"@, t.upstart_conf);
    let e = configured("default"@, t.default_variables);
    let first = cli.overridden();
    named_in_either(first + a + b + c + d, e, wanted, 0);
    named_in_either(first + a + b + c, d, wanted, 0);
    named_in_either(first + a + b, c, wanted, 0);
    named_in_either(first + a, b, wanted, 0);
    named_in_either(first, a, wanted, 0);
    named_once("executable"@, wanted, None, t.executable);
    named_once("systemd.service"@, wanted, None, t.systemd_service);
    named_once("sysv-init"@, wanted, None, t.sysv_init);
    named_once("upstart.conf"@, wanted, None, t.upstart_conf);
    named_once("default"@, wanted, None, t.default_variables);
}

/// What a flag replaces a template of the given name with.
proof fn overridden_by(cli: Cli, wanted: Seq<char>)
    ensures
        first_named(cli.overridden(), wanted, 0) == (if wanted == "executable"@
            && cli.template_executable is Some {
            opt(cli.template_executable)
        } else if wanted == "systemd.service"@ && cli.template_systemd_service is Some {
            opt(cli.template_systemd_service)
        } else if wanted == "sysv-init"@ && cli.template_sysv_init is Some {
            opt(cli.template_sysv_init)
        } else if wanted == "upstart.conf"@ && cli.template_upstart_conf is Some {
            opt(cli.template_upstart_conf)
        } else if wanted == "default"@ {
            opt(cli.template_default)
        } else {
            None
        }),
{
    let a = crate::cli::replacing("executable"@, cli.template_executable);
    let b = crate::cli::replacing("systemd.service"@, cli.template_systemd_service);
    let c = crate::cli::replacing("sysv-init"@, cli.template_sysv_init);
    let d = crate::cli::replacing("upstart.conf"@, cli.template_upstart_conf);
    let e = crate::cli::replacing("default"@, cli.template_default);
    named_in_either(a + b + c + d, e, wanted, 0);
    named_in_either(a + b + c, d, wanted, 0);
    named_in_either(a + b, c, wanted, 0);
    named_in_either(a, b, wanted, 0);
    named_once("executable"@, wanted, cli.template_executable, None);
    named_once("systemd.service"@, wanted, cli.template_systemd_service, None);
    named_once("sysv-init"@, wanted, cli.template_sysv_init, None);
    named_once("upstart.conf"@, wanted, cli.template_upstart_conf, None);
    named_once("default"@, wanted, cli.template_default, None);
}

/// Each template is replaced by the file its own flag names, or else by the one its own setting
/// names, or else by nothing.
pub proof fn each_template_has_its_own_replacement(cli: Cli, config: ResolvedConfigView)
    ensures
        ({
            let found = replacements_of(cli, config);
            let t = config.templates;
            &&& first_named(found, "executable"@, 0) == pick(
                opt(cli.template_executable),
                t.executable,
                None,
            )
            &&& first_named(found, "systemd.service"@, 0) == pick(
                opt(cli.template_systemd_service),
                t.systemd_service,
                None,
            )
            &&& first_named(found, "sysv-init"@, 0) == pick(
                opt(cli.template_sysv_init),
                t.sysv_init,
                None,
            )
            &&& first_named(found, "upstart.conf"@, 0) == pick(
                opt(cli.template_upstart_conf),
                t.upstart_conf,
                None,
            )
            &&& first_named(found, "default"@, 0) == pick(
                opt(cli.template_default),
                t.default_variables,
                None,
            )
        }),
{
    reveal_strlit("executable");
    reveal_strlit("systemd.service");
    reveal_strlit("sysv-init");
    reveal_strlit("upstart.conf");
    reveal_strlit("default");
    assert("executable"@.len() == 10);
    assert("systemd.service"@.len() == 15);
    assert("sysv-init"@.len() == 9);
    assert("upstart.conf"@.len() == 12);
    assert("default"@.len() == 7);
    replaced_by(cli, config, "executable"@);
    replaced_by(cli, config, "systemd.service"@);
    replaced_by(cli, config, "sysv-init"@);
    replaced_by(cli, config, "upstart.conf"@);
    replaced_by(cli, config, "default"@);
    overridden_by(cli, "executable"@);
    overridden_by(cli, "systemd.service"@);
    overridden_by(cli, "sysv-init"@);
    overridden_by(cli, "upstart.conf"@);
    overridden_by(cli, "default"@);
}

/// A template's source is the first file given for it, or the error of reading that file; it is
/// the built-in only where no file was given.
pub proof fn a_replacement_is_what_was_read(
    name: Seq<char>,
    overrides: Seq<TemplateOverrideView>,
    i: int,
    k: int,
)
    requires
        0 <= i <= k <= overrides.len(),
        forall|j: int| i <= j < k ==> (#[trigger] overrides[j]).name != name,
        k < overrides.len() ==> overrides[k].name == name,
    ensures
        k < overrides.len() ==> (match overrides[k].read {
            Ok(text) => source_from(name, overrides, i) == Ok::<Seq<char>, ErrorView>(text),
            Err(reason) => source_from(name, overrides, i) == Err::<Seq<char>, ErrorView>(
                ErrorView::Io { path: overrides[k].path, source: reason },
            ),
        }),
        k == overrides.len() ==> source_from(name, overrides, i) == looked_up(
            "template"@,
            builtin_table(),
            name,
        ),
    decreases k - i,
{
    if i < k {
        a_replacement_is_what_was_read(name, overrides, i + 1, k);
    }
}

/// Each generated file is its own template, rendered; none is left out.
pub proof fn each_generated_file_is_its_template_rendered(
    files: Seq<ServiceFileView>,
    overrides: Seq<TemplateOverrideView>,
    values: Map<Seq<char>, Seq<char>>,
    n: int,
    i: int,
)
    requires
        0 <= i < n <= files.len(),
        texts_of(files, overrides, values, n) is Ok,
    ensures
        ({
            let made = texts_of(files, overrides, values, n)->Ok_0;
            &&& made.len() == n
            &&& made[i].0 == files[i]
            &&& source_from(files[i].template, overrides, 0) matches Ok(source) && rendered(
                files[i].template,
                source,
                values,
            ) == Ok::<Seq<char>, ErrorView>(made[i].1)
        }),
    decreases n,
{
    if n > 1 {
        if i < n - 1 {
            each_generated_file_is_its_template_rendered(files, overrides, values, n - 1, i);
        } else {
            each_generated_file_is_its_template_rendered(files, overrides, values, n - 1, 0);
        }
    } else {
        reveal_with_fuel(texts_of, 2);
    }
}

/// Failures are counted one by one: there are as many as there are formats that were not built.
pub proof fn failures_are_counted_one_by_one(built: Seq<Built>, n: int)
    requires
        0 <= n <= built.len(),
    ensures
        failures_among(built, n) <= n,
        failures_among(built, n) == n <==> forall|i: int|
            0 <= i < n ==> (#[trigger] built[i]).outcome is Err,
    decreases n,
{
    if n > 0 {
        failures_are_counted_one_by_one(built, n - 1);
    }
}

/// Quiet runs warn of nothing; any other run warns of each thing on a line of its own.
pub proof fn warnings_are_told_unless_quiet(verbosity: Verbosity, messages: Seq<Seq<char>>, i: int)
    requires
        0 <= i < messages.len(),
        forall|k: int| 0 <= k < messages.len() ==> clean_line(#[trigger] messages[k]),
    ensures
        verbosity == Verbosity::Quiet ==> warned(verbosity, messages).len() == 0,
        verbosity != Verbosity::Quiet ==> lines_of(warned(verbosity, messages)).len()
            == messages.len() && lines_of(warned(verbosity, messages))[i] == "warning: "@
            + messages[i],
        noting(verbosity, messages[i]) == (if verbosity == Verbosity::Verbose {
            "note: "@ + messages[i] + "\n"@
        } else {
            Seq::empty()
        }),
{
    let told = messages.map_values(|m: Seq<char>| "warning: "@ + m);
    reveal_strlit("warning: ");
    assert forall|k: int| 0 <= k < told.len() implies clean_line(#[trigger] told[k]) by {
        assert(clean_line(messages[k]));
        let line = told[k];
        assert(line == "warning: "@ + messages[k]);
        assert forall|j: int| 0 <= j < line.len() implies #[trigger] line[j] != '\n' by {
            if j >= "warning: "@.len() {
                assert(messages[k].contains(messages[k][j - "warning: "@.len()]));
            }
        }
    }
    lines_of_unlines(told);
}

/// A plan that was completed holds each file its configuration wants, at its place and with its
/// mode, as its template renders.
pub proof fn every_wanted_file_is_generated(
    p: BuildPlanView,
    config: ResolvedConfigView,
    values: Map<Seq<char>, Seq<char>>,
    overrides: Seq<TemplateOverrideView>,
    plan: BuildPlanView,
    i: int,
)
    requires
        generating(p, config, values, overrides, Ok(plan)),
        0 <= i < wanted_files(config).len(),
    ensures
        exists|f: PlannedFileView| #[trigger]
            plan.files.contains(f) && destination_of(wanted_files(config)[i].destination) == Ok::<
                Seq<char>,
                ErrorView,
            >(f.destination) && f.mode == wanted_files(config)[i].mode && (source_from(
                wanted_files(config)[i].template,
                overrides,
                0,
            ) matches Ok(source) && (rendered(
                wanted_files(config)[i].template,
                source,
                values,
            ) matches Ok(text) && f.content == FileContentView::Inline(encode_utf8(text)))),
{
    let wanted = wanted_files(config);
    let files = placed(wanted)->Ok_0;
    placing_keeps_the_files(wanted, i);
    let n = files.len() as int;
    each_generated_file_is_its_template_rendered(files, overrides, values, n, i);
    let added = texts_of(files, overrides, values, n)->Ok_0;
    everything_generated_is_planned(p, added, plan, i);
    let f = generated_entry(added[i].0, added[i].1);
    generated_files_hold_what_was_rendered(added[i].0, added[i].1);
    assert(plan.files.contains(f));
}

/// What is built is the plan with the generated files in it: a package comes of a plan that holds
/// all that was planned before and each file the configuration wants.
pub proof fn packages_hold_what_is_planned_and_generated(
    format: Format,
    p: BuildPlanView,
    config: ResolvedConfigView,
    generator_version: Seq<char>,
    overrides: Seq<TemplateOverrideView>,
    triggers: Option<core::result::Result<Seq<u8>, Seq<char>>>,
    sources: Sources,
    package: PackageView,
    i: int,
    j: int,
)
    requires
        attempts(
            format,
            p,
            config,
            generator_version,
            overrides,
            triggers,
            sources,
            Ok(package),
        ),
    ensures
        exists|derived: BuildPlanView, values: Map<Seq<char>, Seq<char>>|
            {
                &&& #[trigger] format.builds(
                    derived,
                    config,
                    values,
                    triggers,
                    sources,
                    Ok(package),
                )
                &&& format.variables_in(config, generator_version) == Ok::<
                    Map<Seq<char>, Seq<char>>,
                    Seq<Seq<char>>,
                >(values)
                &&& derived.identity == p.identity && derived.timestamp == p.timestamp
                &&& 0 <= i < p.files.len() ==> derived.files.contains(p.files[i])
                &&& 0 <= j < wanted_files(config).len() ==> exists|f: PlannedFileView| #[trigger]
                    derived.files.contains(f) && destination_of(wanted_files(config)[j].destination)
                        == Ok::<Seq<char>, ErrorView>(f.destination)
            },
{
    let values = format.variables_in(config, generator_version)->Ok_0;
    let derived = choose|derived: BuildPlanView| #[trigger]
        generating(p, config, values, overrides, Ok(derived)) && format.builds(
            derived,
            config,
            values,
            triggers,
            sources,
            Ok(package),
        );
    assert(format.builds(derived, config, values, triggers, sources, Ok(package)));
    let files = placed(wanted_files(config))->Ok_0;
    let added = texts_of(files, overrides, values, files.len() as int)->Ok_0;
    if 0 <= i < p.files.len() {
        generating_keeps_what_was_planned(p, added, derived, i);
    }
    if 0 <= j < wanted_files(config).len() {
        every_wanted_file_is_generated(p, config, values, overrides, derived, j);
    }
}

/// A package that was written is told by its path, unless quiet; a failure is told with its
/// format and its reason even then. Where nothing but the first format can be described, it is.
pub proof fn what_was_built_is_told(format: Format, path: String, f: Failure, formats: Seq<Format>)
    ensures
        told_result(Verbosity::Normal, Ok(path)) == path@ + "\n"@,
        told_result(Verbosity::Quiet, Ok(path)) == Seq::<char>::empty(),
        told_failure(format, Ok(path)) == Seq::<char>::empty(),
        f@.len() > 0 ==> text_holds(told_failure(format, Err(f)), f@[0]) && text_holds(
            told_failure(format, Err(f)),
            format.spelling(),
        ),
        formats.len() > 0 ==> described_format(formats) == formats[0],
{
    if f@.len() > 0 {
        let label = "error: "@ + format.spelling() + ": "@;
        let lines = failure_lines(label, f@);
        failures_are_told_link_by_link(label, f@, 0);
        texts_hold_their_pieces();
        assert(text_holds(label, format.spelling()));
        assert(text_holds(lines[0], f@[0]) && text_holds(lines[0], format.spelling()));
        a_text_holds_its_lines(lines, 0);
        text_holds_through(unlines(lines), lines[0], f@[0]);
        text_holds_through(unlines(lines), lines[0], format.spelling());
    }
}

/// A text holds each of the lines it is made of.
proof fn a_text_holds_its_lines(lines: Seq<Seq<char>>, i: int)
    requires
        0 <= i < lines.len(),
    ensures
        text_holds(unlines(lines), lines[i]),
    decreases lines.len(),
{
    texts_hold_their_pieces();
    if i < lines.len() - 1 {
        a_text_holds_its_lines(lines.drop_last(), i);
    }
}

/// What a piece of a text holds, the text holds.
proof fn text_holds_through(text: Seq<char>, piece: Seq<char>, inner: Seq<char>)
    requires
        text_holds(text, piece),
        text_holds(piece, inner),
    ensures
        text_holds(text, inner),
{
    let i = choose|i: int| #[trigger] stands_at(text, i, piece);
    let j = choose|j: int| #[trigger] stands_at(piece, j, inner);
    let at = i + j;
    assert(text.subrange(at, at + inner.len()) =~= piece.subrange(j, j + inner.len()));
    assert(stands_at(text, at, inner));
}

} // verus!
