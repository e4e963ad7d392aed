//! The target formats, and how a plan becomes a package in each.
//!
//! The only module that knows all three formats: planning has no notion of a target format, and
//! each backend sees only itself.

use vstd::prelude::*;
use vstd::string::StrSliceExecFns;
use vstd::utf8::encode_utf8;

use crate::arch;
use crate::architecture::architecture_named;
use crate::arch::install::{self, unserved, unsupported_init};
use crate::catalogue::selections_hold;
use crate::deb;
use crate::deb::scripts::{self, Script};
use crate::deb::{Compression, MaintainerScript, MaintainerScriptView};
use crate::error::{opt, ErrorView};
use crate::npm::{InitSystem, InstallStrategy};
use crate::packing::Sources;
use crate::plan::{copy_files, BuildPlan, BuildPlanView, IdentityView};
use crate::report::{links_of, Failure};
use crate::resolve::{ResolvedConfig, ResolvedConfigView};
use crate::rpm;
use crate::rpm::scriptlets::{self, Scriptlet};
use crate::strings::{
    bare, begins_with, blank, is_word, join, joined, lines, lines_of, same, split, split_at_char,
    split_concat, split_whole, starts_with, trim, trimmed, trimming_takes_the_blanks, views,
    views_push, words, words_append, words_of, words_of_word,
};
use crate::template::{config_variables, Variables};

verus! {

/// A package format that can be produced.
#[derive(Debug, Clone, Copy, PartialEq, Eq, PartialOrd, Ord, Structural)]
pub enum Format {
    Deb,
    Rpm,
    Arch,
}

impl View for Format {
    type V = Format;

    open spec fn view(&self) -> Format {
        *self
    }
}

impl Format {
    pub open spec fn spelling(self) -> Seq<char> {
        match self {
            Format::Deb => "deb"@,
            Format::Rpm => "rpm"@,
            Format::Arch => "arch"@,
        }
    }

    /// The version as a format writes it.
    pub open spec fn version_in(self, config: ResolvedConfigView) -> Seq<char> {
        match self {
            Format::Deb => config.version.deb,
            Format::Rpm => config.version.rpm_version,
            Format::Arch => config.version.rpm_version,
        }
    }

    /// The architecture as a format writes it.
    pub open spec fn architecture_in(
        self,
        config: ResolvedConfigView,
    ) -> core::result::Result<Seq<char>, Seq<Seq<char>>> {
        match architecture_named(config.architecture) {
            Err(e) => Err(seq!["architecture is not one this tool recognises"@] + links_of(e)),
            Ok(a) => Ok(
                match self {
                    Format::Deb => a.deb_spelling(),
                    Format::Rpm => a.rpm_spelling(),
                    Format::Arch => a.arch_linux_spelling(),
                },
            ),
        }
    }

    /// The template vocabulary of a format.
    pub open spec fn variables_in(
        self,
        config: ResolvedConfigView,
        generator_version: Seq<char>,
    ) -> core::result::Result<Map<Seq<char>, Seq<char>>, Seq<Seq<char>>> {
        match self.architecture_in(config) {
            Err(f) => Err(f),
            Ok(spelling) => Ok(
                config_variables(config, generator_version, self.version_in(config), spelling),
            ),
        }
    }

    /// What a format cannot honour.
    pub open spec fn unhonoured(self, init: InitSystem) -> Option<Seq<char>> {
        match self {
            Format::Arch => match unserved(init) {
                Some(name) => Some(
                    "Arch Linux has been systemd-only for over a decade, so `init: "@ + name
                        + "` cannot be honoured; the package will carry no service lifecycle"@,
                ),
                None => None,
            },
            Format::Rpm => if init is Upstart {
                Some(
                    "Upstart shipped on RHEL 6, which is long past end of life; `init: upstart` cannot be honoured for RPM"@,
                )
            } else {
                None
            },
            Format::Deb => None,
        }
    }

    /// Every format.
    pub fn all() -> (r: [Self; 3])
        ensures
            r@ == seq![Format::Deb, Format::Rpm, Format::Arch],
    {
        let r = [Format::Deb, Format::Rpm, Format::Arch];
        assert(r@ =~= seq![Format::Deb, Format::Rpm, Format::Arch]);
        r
    }

    /// The name accepted on the command line.
    pub fn name(self) -> (s: &'static str)
        ensures
            s@ == self.spelling(),
    {
        match self {
            Format::Deb => "deb",
            Format::Rpm => "rpm",
            Format::Arch => "arch",
        }
    }

    /// The version spelling this format writes into its own metadata. Templates are rendered
    /// per format because of this: one spelling for all is how a package contradicts its own
    /// header.
    pub fn version_of(self, config: &ResolvedConfig) -> (s: String)
        ensures
            s@ == self.version_in(config@),
    {
        match self {
            Format::Deb => config.version.deb().to_owned(),
            // RPM and Arch carry the epoch outside the version string.
            Format::Rpm => config.version.rpm_version().to_owned(),
            Format::Arch => config.version.rpm_version().to_owned(),
        }
    }

    /// The architecture spelling this format writes into its own metadata.
    pub fn architecture_of(self, config: &ResolvedConfig) -> (r: core::result::Result<
        &'static str,
        Failure,
    >)
        ensures
            match r {
                Ok(s) => self.architecture_in(config@) == Ok::<Seq<char>, Seq<Seq<char>>>(s@),
                Err(f) => self.architecture_in(config@) == Err::<Seq<char>, Seq<Seq<char>>>(f@),
            },
    {
        match config.architecture_parsed() {
            Err(e) => Err(
                Failure::of(&e).context("architecture is not one this tool recognises".to_owned()),
            ),
            Ok(parsed) => Ok(
                match self {
                    Format::Deb => parsed.deb(),
                    Format::Rpm => parsed.rpm(),
                    Format::Arch => parsed.arch_linux(),
                },
            ),
        }
    }

    /// The template vocabulary for this format.
    pub fn variables(self, config: &ResolvedConfig, generator_version: &str) -> (r:
        core::result::Result<Variables, Failure>)
        ensures
            match r {
                Ok(v) => self.variables_in(config@, generator_version@) == Ok::<
                    Map<Seq<char>, Seq<char>>,
                    Seq<Seq<char>>,
                >(v@),
                Err(f) => self.variables_in(config@, generator_version@) == Err::<
                    Map<Seq<char>, Seq<char>>,
                    Seq<Seq<char>>,
                >(f@),
            },
    {
        match self.architecture_of(config) {
            Err(f) => Err(f),
            Ok(architecture) => Ok(
                Variables::for_config(
                    config,
                    generator_version,
                    self.version_of(config).as_str(),
                    architecture,
                ),
            ),
        }
    }

    /// What this format cannot honour about the configuration, so that the user hears it rather
    /// than getting a package that installs cleanly and never starts its service.
    pub fn unsupported(self, init: InitSystem) -> (r: Option<String>)
        ensures
            opt(r) == self.unhonoured(init),
    {
        match self {
            Format::Arch => match unsupported_init(init) {
                Some(name) => {
                    let mut s =
                        "Arch Linux has been systemd-only for over a decade, so `init: ".to_owned();
                    s.append(name);
                    s.append(
                        "` cannot be honoured; the package will carry no service lifecycle",
                    );
                    Some(s)
                },
                None => None,
            },
            Format::Rpm => if init == InitSystem::Upstart {
                Some(
                    "Upstart shipped on RHEL 6, which is long past end of life; `init: upstart` cannot be honoured for RPM".to_owned(),
                )
            } else {
                None
            },
            Format::Deb => None,
        }
    }
}

/// The names of some formats.
pub open spec fn format_names(formats: Seq<Format>) -> Seq<Seq<char>> {
    formats.map_values(|f: Format| f.spelling())
}

pub fn names_of_formats(formats: &Vec<Format>) -> (r: Vec<String>)
    ensures
        views(r@) == format_names(formats@),
{
    let mut r: Vec<String> = Vec::new();
    let ghost all = format_names(formats@);
    let mut i: usize = 0;
    assert(views(r@) =~= all.take(0));
    while i < formats.len()
        invariant
            i <= formats@.len(),
            all == format_names(formats@),
            views(r@) == all.take(i as int),
        decreases formats@.len() - i,
    {
        let name = formats[i].name().to_owned();
        proof {
            views_push(r@, name);
            assert(all.take(i + 1) =~= all.take(i as int).push(name@));
        }
        r.push(name);
        i = i + 1;
    }
    assert(all.take(i as int) =~= all);
    r
}

// ---- dependencies -----------------------------------------------------------------------------

/// The entries among the first `n` pieces, trimmed, without the empty ones.
pub open spec fn entries_in(pieces: Seq<Seq<char>>, n: int) -> Seq<Seq<char>>
    decreases n,
{
    if n <= 0 {
        Seq::empty()
    } else if trimmed(pieces[n - 1]).len() == 0 {
        entries_in(pieces, n - 1)
    } else {
        entries_in(pieces, n - 1).push(trimmed(pieces[n - 1]))
    }
}

/// The entries of a dependency list.
pub open spec fn dependency_entries(list: Option<Seq<char>>) -> Seq<Seq<char>> {
    match list {
        None => Seq::empty(),
        Some(text) => entries_in(split_at_char(text, ','), split_at_char(text, ',').len() as int),
    }
}

/// Whether an entry is about a package, which may be required with a version: the first word of
/// each, the name, is the same.
pub open spec fn is_about(entry: Seq<char>, package: Seq<char>) -> bool {
    words_of(entry).len() > 0 && words_of(package).len() > 0 && words_of(entry)[0] == words_of(
        package,
    )[0]
}

/// Whether some entry is about a package.
pub open spec fn mentions(entries: Seq<Seq<char>>, package: Seq<char>) -> bool {
    exists|i: int| 0 <= i < entries.len() && #[trigger] is_about(entries[i], package)
}

/// The entries with the first `n` required packages that none of them was about.
pub open spec fn with_required(
    entries: Seq<Seq<char>>,
    required: Seq<Seq<char>>,
    n: int,
) -> Seq<Seq<char>>
    decreases n,
{
    if n <= 0 {
        entries
    } else {
        let before = with_required(entries, required, n - 1);
        if mentions(before, required[n - 1]) {
            before
        } else {
            before.push(required[n - 1])
        }
    }
}

/// The dependencies that also name what is required.
pub open spec fn merged_dependencies(
    list: Option<Seq<char>>,
    required: Seq<Seq<char>>,
) -> Option<Seq<char>> {
    if required.len() == 0 {
        list
    } else {
        Some(
            joined(
                with_required(dependency_entries(list), required, required.len() as int),
                ", "@,
            ),
        )
    }
}

/// A plan with other dependencies.
pub open spec fn depending_on(p: BuildPlanView, dependencies: Option<Seq<char>>) -> BuildPlanView {
    BuildPlanView { identity: IdentityView { dependencies, ..p.identity }, ..p }
}

fn trimmed_entries(list: &Option<String>) -> (r: Vec<String>)
    ensures
        views(r@) == dependency_entries(opt(*list)),
{
    let mut r: Vec<String> = Vec::new();
    assert(views(r@) =~= Seq::empty());
    let text = match list {
        None => {
            return r;
        },
        Some(text) => text,
    };
    let pieces = split(text.as_str(), ',');
    let ghost all = split_at_char(text@, ',');
    let mut i: usize = 0;
    while i < pieces.len()
        invariant
            i <= pieces@.len(),
            views(pieces@) == all,
            views(r@) == entries_in(all, i as int),
        decreases pieces@.len() - i,
    {
        assert(all[i as int] == pieces@[i as int]@);
        let entry = trim(pieces[i].as_str());
        if !entry.as_str().is_empty() {
            proof {
                views_push(r@, entry);
            }
            r.push(entry);
        }
        i = i + 1;
    }
    r
}

fn is_mentioned(entries: &Vec<String>, package: &str) -> (b: bool)
    ensures
        b == mentions(views(entries@), package@),
{
    let ghost all = views(entries@);
    let wanted = words(package);
    assert(views(wanted@).len() == wanted@.len());
    if wanted.len() == 0 {
        return false;
    }
    assert(views(wanted@)[0] == wanted@[0]@);
    let mut i: usize = 0;
    while i < entries.len()
        invariant
            i <= entries@.len(),
            all == views(entries@),
            wanted@.len() > 0,
            views(wanted@) == words_of(package@),
            views(wanted@)[0] == wanted@[0]@,
            views(wanted@).len() == wanted@.len(),
            forall|j: int| 0 <= j < i ==> !#[trigger] is_about(all[j], package@),
        decreases entries@.len() - i,
    {
        let parts = words(entries[i].as_str());
        assert(all[i as int] == entries@[i as int]@);
        assert(views(parts@).len() == parts@.len());
        if parts.len() > 0 {
            assert(views(parts@)[0] == parts@[0]@);
            if same(parts[0].as_str(), wanted[0].as_str()) {
                assert(is_about(all[i as int], package@));
                return true;
            }
        }
        i = i + 1;
    }
    false
}

/// A copy of the plan whose dependencies also name what its maintainer scripts need. The shared
/// plan is left alone: the other formats' scripts need different things.
pub fn with_dependencies(plan: &BuildPlan, required: &Vec<&'static str>) -> (p: BuildPlan)
    ensures
        p@ == depending_on(
            plan@,
            merged_dependencies(plan@.identity.dependencies, views(required@)),
        ),
{
    let mut identity = plan.identity.clone();
    if required.len() > 0 {
        let mut merged = trimmed_entries(&plan.identity.dependencies);
        let ghost entries = views(merged@);
        let ghost all = views(required@);
        let mut i: usize = 0;
        while i < required.len()
            invariant
                i <= required@.len(),
                all == views(required@),
                views(merged@) == with_required(entries, all, i as int),
            decreases required@.len() - i,
        {
            assert(all[i as int] == required@[i as int]@);
            // Compared on the name alone, so that a version constraint the user wrote is left
            // as it is.
            if !is_mentioned(&merged, required[i]) {
                let name = required[i].to_owned();
                proof {
                    views_push(merged@, name);
                }
                merged.push(name);
            }
            i = i + 1;
        }
        identity.dependencies = Some(join(&merged, ", "));
    }
    BuildPlan {
        identity,
        files: copy_files(&plan.files),
        timestamp: plan.timestamp,
        metadata: plan.metadata.clone(),
    }
}

// ---- scripts ----------------------------------------------------------------------------------

/// Whether a line does anything.
pub open spec fn does_something(line: Seq<char>) -> bool {
    let t = trimmed(line);
    t.len() > 0 && !begins_with(t, "#"@) && !begins_with(t, "set -e"@) && t != "exit 0"@
}

/// Whether a composed script does anything.
pub open spec fn acts(text: Seq<char>) -> bool {
    exists|i: int| 0 <= i < lines_of(text).len() && #[trigger] does_something(lines_of(text)[i])
}

/// Whether a composed script does anything beyond shebang, generator comment and `exit 0`.
/// Shipping one that does not is a root-run no-op in the archive, and a lintian complaint.
pub fn has_logic(text: &str) -> (b: bool)
    ensures
        b == acts(text@),
{
    let all = lines(text);
    let ghost every = lines_of(text@);
    let mut i: usize = 0;
    while i < all.len()
        invariant
            i <= all@.len(),
            views(all@) == every,
            every == lines_of(text@),
            forall|j: int| 0 <= j < i ==> !#[trigger] does_something(every[j]),
        decreases all@.len() - i,
    {
        assert(every[i as int] == all@[i as int]@);
        let line = trim(all[i].as_str());
        let line = line.as_str();
        if !line.is_empty() && !starts_with(line, "#") && !starts_with(line, "set -e") && !same(
            line,
            "exit 0",
        ) {
            assert(does_something(every[i as int]));
            return true;
        }
        i = i + 1;
    }
    false
}

/// The scripts to ship among the first `n` that were composed, or why one could not be. Of each
/// there is its name, what composing it is called, and what that came to.
pub open spec fn shipped_scripts(
    outcomes: Seq<(Seq<char>, Seq<char>, core::result::Result<Seq<char>, ErrorView>)>,
    n: int,
) -> core::result::Result<Seq<(Seq<char>, Seq<u8>)>, Seq<Seq<char>>>
    decreases n,
{
    if n <= 0 {
        Ok(Seq::empty())
    } else {
        match shipped_scripts(outcomes, n - 1) {
            Err(links) => Err(links),
            Ok(before) => {
                let (name, attempt, composed) = outcomes[n - 1];
                match composed {
                    Err(e) => Err(seq![attempt] + links_of(e)),
                    Ok(text) => if acts(text) {
                        Ok(before.push((name, encode_utf8(text))))
                    } else {
                        Ok(before)
                    },
                }
            },
        }
    }
}

/// A failure among the first scripts stays the failure.
proof fn the_first_failure_stands(
    outcomes: Seq<(Seq<char>, Seq<char>, core::result::Result<Seq<char>, ErrorView>)>,
    i: int,
    n: int,
)
    requires
        0 <= i <= n,
        shipped_scripts(outcomes, i) is Err,
    ensures
        shipped_scripts(outcomes, n) == shipped_scripts(outcomes, i),
    decreases n - i,
{
    if i < n {
        the_first_failure_stands(outcomes, i, n - 1);
    }
}

/// What composing each maintainer script comes to.
pub open spec fn deb_outcomes(
    init: InitSystem,
    strategy: InstallStrategy,
    values: Map<Seq<char>, Seq<char>>,
) -> Seq<(Seq<char>, Seq<char>, core::result::Result<Seq<char>, ErrorView>)> {
    seq![Script::Preinst, Script::Postinst, Script::Prerm, Script::Postrm].map_values(
        |s: Script|
            (
                s.spelling(),
                "composing `"@ + s.spelling() + "`"@,
                scripts::composed(s, init, strategy, values),
            ),
    )
}

/// What composing each scriptlet comes to.
pub open spec fn rpm_outcomes(
    init: InitSystem,
    strategy: InstallStrategy,
    values: Map<Seq<char>, Seq<char>>,
) -> Seq<(Seq<char>, Seq<char>, core::result::Result<Seq<char>, ErrorView>)> {
    seq![Scriptlet::Pre, Scriptlet::Post, Scriptlet::Preun, Scriptlet::Postun].map_values(
        |s: Scriptlet|
            (
                s.spelling(),
                "composing `%"@ + s.spelling() + "`"@,
                scriptlets::composed(s, init, strategy, values),
            ),
    )
}

/// The scripts as pairs.
pub open spec fn script_pairs(scripts: Seq<MaintainerScriptView>) -> Seq<(Seq<char>, Seq<u8>)> {
    scripts.map_values(|s: MaintainerScriptView| (s.name, s.bytes))
}

/// The scripts a `.deb` carries.
pub open spec fn deb_scripts(
    init: InitSystem,
    strategy: InstallStrategy,
    values: Map<Seq<char>, Seq<char>>,
) -> core::result::Result<Seq<(Seq<char>, Seq<u8>)>, Seq<Seq<char>>> {
    shipped_scripts(deb_outcomes(init, strategy, values), 4)
}

/// The scriptlets an RPM carries.
pub open spec fn rpm_scripts(
    init: InitSystem,
    strategy: InstallStrategy,
    values: Map<Seq<char>, Seq<char>>,
) -> core::result::Result<Seq<(Seq<char>, Seq<u8>)>, Seq<Seq<char>>> {
    shipped_scripts(rpm_outcomes(init, strategy, values), 4)
}

fn composing(mark: &str, name: &str) -> (s: String)
    ensures
        s@ == mark@ + name@ + "`"@,
{
    let mut s = mark.to_owned();
    s.append(name);
    s.append("`");
    s
}

fn maintainer_scripts(
    init: InitSystem,
    strategy: InstallStrategy,
    variables: &Variables,
) -> (r: core::result::Result<Vec<MaintainerScript>, Failure>)
    ensures
        match r {
            Ok(kept) => deb_scripts(init, strategy, variables@) == Ok::<
                Seq<(Seq<char>, Seq<u8>)>,
                Seq<Seq<char>>,
            >(script_pairs(views(kept@))),
            Err(f) => deb_scripts(init, strategy, variables@) == Err::<
                Seq<(Seq<char>, Seq<u8>)>,
                Seq<Seq<char>>,
            >(f@),
        },
{
    let all = Script::all();
    let ghost outcomes = deb_outcomes(init, strategy, variables@);
    let mut kept: Vec<MaintainerScript> = Vec::new();
    assert(script_pairs(views(kept@)) =~= Seq::empty());
    let mut i: usize = 0;
    while i < 4
        invariant
            i <= 4,
            all@ == seq![Script::Preinst, Script::Postinst, Script::Prerm, Script::Postrm],
            outcomes == deb_outcomes(init, strategy, variables@),
            shipped_scripts(outcomes, i as int) == Ok::<
                Seq<(Seq<char>, Seq<u8>)>,
                Seq<Seq<char>>,
            >(script_pairs(views(kept@))),
        decreases 4 - i,
    {
        let script = all[i];
        assert(all@[i as int] == script);
        match scripts::compose(script, init, strategy, variables) {
            Err(e) => {
                let f = Failure::of(&e).context(composing("composing `", script.name()));
                proof {
                    the_first_failure_stands(outcomes, i + 1, 4);
                }
                return Err(f);
            },
            Ok(text) => {
                if has_logic(text.as_str()) {
                    let added = MaintainerScript {
                        name: script.name().to_owned(),
                        bytes: text.as_str().as_bytes_vec(),
                    };
                    proof {
                        views_push(kept@, added);
                        assert(script_pairs(views(kept@).push(added@)) =~= script_pairs(
                            views(kept@),
                        ).push((added@.name, added@.bytes)));
                    }
                    kept.push(added);
                }
            },
        }
        i = i + 1;
    }
    Ok(kept)
}

/// The scriptlets as plain values.
pub open spec fn pair_views(scripts: Seq<(String, Vec<u8>)>) -> Seq<(Seq<char>, Seq<u8>)> {
    scripts.map_values(|s: (String, Vec<u8>)| (s.0@, s.1@))
}

fn rpm_scriptlets(init: InitSystem, strategy: InstallStrategy, variables: &Variables) -> (r:
    core::result::Result<Vec<(String, Vec<u8>)>, Failure>)
    ensures
        match r {
            Ok(kept) => rpm_scripts(init, strategy, variables@) == Ok::<
                Seq<(Seq<char>, Seq<u8>)>,
                Seq<Seq<char>>,
            >(pair_views(kept@)),
            Err(f) => rpm_scripts(init, strategy, variables@) == Err::<
                Seq<(Seq<char>, Seq<u8>)>,
                Seq<Seq<char>>,
            >(f@),
        },
{
    let all = Scriptlet::all();
    let ghost outcomes = rpm_outcomes(init, strategy, variables@);
    let mut kept: Vec<(String, Vec<u8>)> = Vec::new();
    assert(pair_views(kept@) =~= Seq::empty());
    let mut i: usize = 0;
    while i < 4
        invariant
            i <= 4,
            all@ == seq![Scriptlet::Pre, Scriptlet::Post, Scriptlet::Preun, Scriptlet::Postun],
            outcomes == rpm_outcomes(init, strategy, variables@),
            shipped_scripts(outcomes, i as int) == Ok::<
                Seq<(Seq<char>, Seq<u8>)>,
                Seq<Seq<char>>,
            >(pair_views(kept@)),
        decreases 4 - i,
    {
        let slot = all[i];
        assert(all@[i as int] == slot);
        match scriptlets::compose(slot, init, strategy, variables) {
            Err(e) => {
                let f = Failure::of(&e).context(composing("composing `%", slot.name()));
                proof {
                    the_first_failure_stands(outcomes, i + 1, 4);
                }
                return Err(f);
            },
            Ok(text) => {
                if has_logic(text.as_str()) {
                    let added = (slot.name().to_owned(), text.as_str().as_bytes_vec());
                    assert(pair_views(kept@.push(added)) =~= pair_views(kept@).push(
                        (added.0@, added.1@),
                    ));
                    kept.push(added);
                }
            },
        }
        i = i + 1;
    }
    Ok(kept)
}

// ---- building ---------------------------------------------------------------------------------

/// A finished package and the name it is written under.
#[derive(Debug)]
pub struct Package {
    pub file_name: String,
    pub bytes: Vec<u8>,
}

pub struct PackageView {
    pub file_name: Seq<char>,
    pub bytes: Seq<u8>,
}

impl View for Package {
    type V = PackageView;

    open spec fn view(&self) -> PackageView {
        PackageView { file_name: self.file_name@, bytes: self.bytes@ }
    }
}

/// What a build came to, as plain values.
pub open spec fn concluded(r: core::result::Result<Package, Failure>) -> core::result::Result<
    PackageView,
    Seq<Seq<char>>,
> {
    match r {
        Ok(p) => Ok(p@),
        Err(f) => Err(f@),
    }
}

/// What reading the triggers file gave, as plain values.
pub open spec fn read_triggers(
    triggers: Option<core::result::Result<Vec<u8>, String>>,
) -> Option<core::result::Result<Seq<u8>, Seq<char>>> {
    match triggers {
        None => None,
        Some(Ok(bytes)) => Some(Ok(bytes@)),
        Some(Err(reason)) => Some(Err(reason@)),
    }
}

/// The triggers to pass on: those of the file the configuration names.
pub open spec fn triggers_of(
    file: Option<Seq<char>>,
    read: Option<core::result::Result<Seq<u8>, Seq<char>>>,
) -> core::result::Result<Option<Seq<u8>>, Seq<Seq<char>>> {
    match file {
        None => Ok(None),
        Some(path) => match read {
            Some(Ok(bytes)) => Ok(Some(bytes)),
            Some(Err(reason)) => Err(seq!["reading triggers file "@ + path, reason]),
            None => Err(seq!["reading triggers file "@ + path]),
        },
    }
}

fn triggers_for(
    file: &Option<String>,
    read: Option<core::result::Result<Vec<u8>, String>>,
) -> (r: core::result::Result<Option<Vec<u8>>, Failure>)
    ensures
        match r {
            Ok(None) => triggers_of(opt(*file), read_triggers(read)) == Ok::<
                Option<Seq<u8>>,
                Seq<Seq<char>>,
            >(None),
            Ok(Some(bytes)) => triggers_of(opt(*file), read_triggers(read)) == Ok::<
                Option<Seq<u8>>,
                Seq<Seq<char>>,
            >(Some(bytes@)),
            Err(f) => triggers_of(opt(*file), read_triggers(read)) == Err::<
                Option<Seq<u8>>,
                Seq<Seq<char>>,
            >(f@),
        },
{
    match file {
        None => Ok(None),
        Some(path) => {
            let mut attempt = "reading triggers file ".to_owned();
            attempt.append(path.as_str());
            match read {
                Some(Ok(bytes)) => Ok(Some(bytes)),
                Some(Err(reason)) => Err(Failure::with_cause(attempt, Some(reason.as_str()))),
                None => Err(Failure::new(attempt)),
            }
        },
    }
}

/// How a `.deb` is written.
pub open spec fn deb_options(
    config: ResolvedConfigView,
    values: Map<Seq<char>, Seq<char>>,
    read: Option<core::result::Result<Seq<u8>, Seq<char>>>,
) -> core::result::Result<deb::OptionsView, Seq<Seq<char>>> {
    match deb_scripts(config.init, config.install_strategy, values) {
        Err(links) => Err(links),
        Ok(kept) => match triggers_of(config.triggers_file, read) {
            Err(links) => Err(links),
            Ok(triggers) => Ok(
                deb::OptionsView {
                    compression: Compression::Xz,
                    section: None,
                    maintainer_scripts: kept.map_values(
                        |s: (Seq<char>, Seq<u8>)| MaintainerScriptView { name: s.0, bytes: s.1 },
                    ),
                    triggers,
                },
            ),
        },
    }
}

/// The plan a `.deb` is written from: what its scripts call, it depends on.
pub open spec fn deb_plan(p: BuildPlanView, config: ResolvedConfigView) -> BuildPlanView {
    depending_on(
        p,
        merged_dependencies(
            p.identity.dependencies,
            scripts::required(config.init, config.install_strategy),
        ),
    )
}

/// How an RPM is written. A preset policy is shipped exactly when `%post` presets the unit.
pub open spec fn rpm_options(
    p: BuildPlanView,
    config: ResolvedConfigView,
    values: Map<Seq<char>, Seq<char>>,
) -> core::result::Result<rpm::OptionsView, Seq<Seq<char>>> {
    match rpm_scripts(config.init, config.install_strategy, values) {
        Err(links) => Err(links),
        Ok(kept) => Ok(
            rpm::OptionsView {
                maintainer_scripts: kept,
                preset_service: if scriptlets::presets(config.init) {
                    Some(p.identity.package_name)
                } else {
                    None
                },
            },
        ),
    }
}

/// The plan an RPM is written from: what its scriptlets call, it requires.
pub open spec fn rpm_plan(p: BuildPlanView, config: ResolvedConfigView) -> BuildPlanView {
    depending_on(
        p,
        merged_dependencies(
            p.identity.dependencies,
            scriptlets::required(config.init, config.install_strategy),
        ),
    )
}

/// How an Arch package is written. A preset policy is shipped exactly when `post_install`
/// presets the unit.
pub open spec fn arch_options(
    p: BuildPlanView,
    config: ResolvedConfigView,
    values: Map<Seq<char>, Seq<char>>,
) -> core::result::Result<arch::OptionsView, Seq<Seq<char>>> {
    match install::composed(config.init, config.install_strategy, values) {
        Err(e) => Err(seq!["composing `.INSTALL`"@] + links_of(e)),
        Ok(text) => Ok(
            arch::OptionsView {
                install_scriptlet: match text {
                    Some(text) => Some(encode_utf8(text)),
                    None => None,
                },
                preset_service: if install::presets(config.init) {
                    Some(p.identity.package_name)
                } else {
                    None
                },
            },
        ),
    }
}

/// `links` tell of an archive backend's error, met while attempting something. Of an archive
/// error the last link is whatever the archive library said, if it said something.
pub open spec fn tells_of(
    links: Seq<Seq<char>>,
    attempt: Seq<char>,
    e: crate::packing::ErrorView,
) -> bool {
    match e {
        crate::packing::ErrorView::Core(core) => links == seq![attempt] + links_of(core),
        crate::packing::ErrorView::Io { path, source } => links == seq![
            attempt,
            e.text(),
            source,
        ],
        crate::packing::ErrorView::SourceChanged { path, planned, actual } => links == seq![
            attempt,
            e.text(),
        ],
        crate::packing::ErrorView::Archive { reason, told } => links.len() == (if told {
            3nat
        } else {
            2
        }) && links.take(2) == seq![attempt, e.text()],
    }
}

/// `links` tell of an error of writing an RPM, met while attempting something. Where the `rpm`
/// crate refused, the last link is whatever it said.
pub open spec fn rpm_tells_of(
    links: Seq<Seq<char>>,
    attempt: Seq<char>,
    e: rpm::error::ErrorView,
) -> bool {
    match e {
        rpm::error::ErrorView::Core(core) => links == seq![attempt] + links_of(core),
        rpm::error::ErrorView::Io { path, source } => links == seq![attempt, e.text(), source],
        rpm::error::ErrorView::Unrepresentable { destination, reason } => links == seq![
            attempt,
            e.text(),
        ],
        rpm::error::ErrorView::Rpm { context } => links.len() == 3 && links.take(2) == seq![
            attempt,
            e.text(),
        ],
    }
}

/// `links` tell why a package was refused.
pub open spec fn deb_refused(
    p: BuildPlanView,
    options: deb::OptionsView,
    sources: Sources,
    links: Seq<Seq<char>>,
    attempt: Seq<char>,
) -> bool {
    exists|e: crate::packing::ErrorView| #[trigger]
        tells_of(links, attempt, e) && deb::packages(p, options, sources@, Err(e))
}

/// The base name of the file a package is written to; the version and the architecture follow.
pub open spec fn base_name(p: BuildPlanView, config: ResolvedConfigView) -> Seq<char> {
    match config.output_deb_name {
        Some(name) => name,
        None => p.identity.package_name,
    }
}

fn base_for(plan: &BuildPlan, config: &ResolvedConfig) -> (s: String)
    ensures
        s@ == base_name(plan@, config@),
{
    match &config.output_deb_name {
        Some(name) => name.clone(),
        None => plan.identity.package_name.clone(),
    }
}

/// What writing a `.deb` may come to.
pub open spec fn writes_deb(
    p: BuildPlanView,
    options: deb::OptionsView,
    sources: Sources,
    base: Seq<char>,
    r: core::result::Result<PackageView, Seq<Seq<char>>>,
) -> bool {
    match r {
        Ok(package) => package.file_name == deb::named_file(base, p) && deb::packages(
            p,
            options,
            sources@,
            Ok(package.bytes),
        ),
        Err(links) => deb_refused(p, options, sources, links, "writing the .deb"@),
    }
}

/// `links` tell why a package was refused.
pub open spec fn rpm_refused(
    p: BuildPlanView,
    options: rpm::OptionsView,
    sources: Sources,
    links: Seq<Seq<char>>,
    attempt: Seq<char>,
) -> bool {
    exists|e: rpm::error::ErrorView| #[trigger]
        rpm_tells_of(links, attempt, e) && rpm::packages(p, options, sources.dated(), Err(e))
}

/// What writing an RPM may come to.
pub open spec fn writes_rpm(
    p: BuildPlanView,
    options: rpm::OptionsView,
    sources: Sources,
    base: Seq<char>,
    r: core::result::Result<PackageView, Seq<Seq<char>>>,
) -> bool {
    match r {
        Ok(package) => package.file_name == rpm::named_file(base, p) && rpm::packages(
            p,
            options,
            sources.dated(),
            Ok(package.bytes),
        ),
        Err(links) => rpm_refused(p, options, sources, links, "writing the .rpm"@),
    }
}

/// `links` tell why a package was refused.
pub open spec fn arch_refused(
    p: BuildPlanView,
    options: arch::OptionsView,
    sources: Sources,
    links: Seq<Seq<char>>,
    attempt: Seq<char>,
) -> bool {
    exists|e: crate::packing::ErrorView| #[trigger]
        tells_of(links, attempt, e) && arch::packages(p, options, sources@, Err(e))
}

/// What writing an Arch package may come to.
pub open spec fn writes_arch(
    p: BuildPlanView,
    options: arch::OptionsView,
    sources: Sources,
    base: Seq<char>,
    r: core::result::Result<PackageView, Seq<Seq<char>>>,
) -> bool {
    match r {
        Ok(package) => package.file_name == arch::named_file(base, p) && arch::packages(
            p,
            options,
            sources@,
            Ok(package.bytes),
        ),
        Err(links) => arch_refused(p, options, sources, links, "writing the .pkg.tar.zst"@),
    }
}

impl Format {
    /// What writing a package of this format is called.
    pub open spec fn attempt(self) -> Seq<char> {
        match self {
            Format::Deb => "writing the .deb"@,
            Format::Rpm => "writing the .rpm"@,
            Format::Arch => "writing the .pkg.tar.zst"@,
        }
    }

    /// The failure of a finished package that could not be put where it belongs.
    pub fn unwritten(self, path: String, reason: &str) -> (f: Failure)
        ensures
            f@ == seq![self.attempt()] + seq!["i/o error at `"@ + path@ + "`"@, reason@],
    {
        let e = crate::packing::Error::io(path, reason.to_owned());
        let attempt = match self {
            Format::Deb => "writing the .deb",
            Format::Rpm => "writing the .rpm",
            Format::Arch => "writing the .pkg.tar.zst",
        };
        Failure::with_cause(e.text(), Some(reason)).context(attempt.to_owned())
    }

    /// What building this format's package may come to.
    pub open spec fn builds(
        self,
        p: BuildPlanView,
        config: ResolvedConfigView,
        values: Map<Seq<char>, Seq<char>>,
        triggers: Option<core::result::Result<Seq<u8>, Seq<char>>>,
        sources: Sources,
        r: core::result::Result<PackageView, Seq<Seq<char>>>,
    ) -> bool {
        match self {
            Format::Deb => match deb_options(config, values, triggers) {
                Err(links) => r == Err::<PackageView, Seq<Seq<char>>>(links),
                Ok(options) => writes_deb(deb_plan(p, config), options, sources, base_name(p, config), r),
            },
            Format::Rpm => match rpm_options(p, config, values) {
                Err(links) => r == Err::<PackageView, Seq<Seq<char>>>(links),
                Ok(options) => writes_rpm(rpm_plan(p, config), options, sources, base_name(p, config), r),
            },
            Format::Arch => match arch_options(p, config, values) {
                Err(links) => r == Err::<PackageView, Seq<Seq<char>>>(links),
                Ok(options) => writes_arch(p, options, sources, base_name(p, config), r),
            },
        }
    }

    /// Builds this format's package in memory. `triggers` is what reading the configured
    /// triggers file gave, and `sources` holds what was read of the files the plan copies.
    pub fn build(
        self,
        plan: &BuildPlan,
        config: &ResolvedConfig,
        variables: &Variables,
        triggers: Option<core::result::Result<Vec<u8>, String>>,
        sources: &Sources,
    ) -> (r: core::result::Result<Package, Failure>)
        ensures
            self.builds(
                plan@,
                config@,
                variables@,
                read_triggers(triggers),
                *sources,
                concluded(r),
            ),
    {
        match self {
            Format::Deb => build_deb(plan, config, variables, triggers, sources),
            Format::Rpm => build_rpm(plan, config, variables, sources),
            Format::Arch => build_arch(plan, config, variables, sources),
        }
    }
}

/// The failure an archive backend's error is.
fn archive_failure(e: &crate::packing::Error, attempt: &str) -> (f: Failure)
    ensures
        tells_of(f@, attempt@, e@),
{
    let f = Failure::with_cause(e.text(), e.cause()).context(attempt.to_owned());
    proof {
        match e@ {
            crate::packing::ErrorView::Core(core) => {
                assert(f@ =~= seq![attempt@] + links_of(core));
            },
            crate::packing::ErrorView::Io { path, source } => {
                assert(f@ =~= seq![attempt@, e@.text(), source]);
            },
            crate::packing::ErrorView::SourceChanged { path, planned, actual } => {
                assert(f@ =~= seq![attempt@, e@.text()]);
            },
            crate::packing::ErrorView::Archive { reason, told } => {
                assert(f@.take(2) =~= seq![attempt@, e@.text()]);
            },
        }
    }
    f
}

/// The failure an error of writing an RPM is.
fn rpm_failure(e: &rpm::error::Error, attempt: &str) -> (f: Failure)
    ensures
        rpm_tells_of(f@, attempt@, e@),
{
    let f = Failure::with_cause(e.text(), e.cause()).context(attempt.to_owned());
    proof {
        match e@ {
            rpm::error::ErrorView::Core(core) => {
                assert(f@ =~= seq![attempt@] + links_of(core));
            },
            rpm::error::ErrorView::Io { path, source } => {
                assert(f@ =~= seq![attempt@, e@.text(), source]);
            },
            rpm::error::ErrorView::Unrepresentable { destination, reason } => {
                assert(f@ =~= seq![attempt@, e@.text()]);
            },
            rpm::error::ErrorView::Rpm { context } => {
                assert(f@.take(2) =~= seq![attempt@, e@.text()]);
            },
        }
    }
    f
}

fn write_deb(
    plan: &BuildPlan,
    options: &deb::Options,
    sources: &Sources,
    base: &str,
) -> (r: core::result::Result<Package, Failure>)
    ensures
        writes_deb(plan@, options@, *sources, base@, concluded(r)),
{
    match deb::build_bytes(plan, options, sources) {
        Err(e) => {
            let f = archive_failure(&e, "writing the .deb");
            assert(tells_of(f@, "writing the .deb"@, e@));
            Err(f)
        },
        Ok(bytes) => {
            Ok(Package { file_name: deb::file_name_from(base, plan), bytes })
        },
    }
}

fn write_rpm(
    plan: &BuildPlan,
    options: &rpm::Options,
    sources: &Sources,
    base: &str,
) -> (r: core::result::Result<Package, Failure>)
    ensures
        writes_rpm(plan@, options@, *sources, base@, concluded(r)),
{
    match rpm::build_bytes(plan, options, sources) {
        Err(e) => {
            let f = rpm_failure(&e, "writing the .rpm");
            assert(rpm_tells_of(f@, "writing the .rpm"@, e@));
            Err(f)
        },
        Ok(bytes) => {
            Ok(Package { file_name: rpm::file_name_from(base, plan), bytes })
        },
    }
}

fn write_arch(
    plan: &BuildPlan,
    options: &arch::Options,
    sources: &Sources,
    base: &str,
) -> (r: core::result::Result<Package, Failure>)
    ensures
        writes_arch(plan@, options@, *sources, base@, concluded(r)),
{
    match arch::build_bytes(plan, options, sources) {
        Err(e) => {
            let f = archive_failure(&e, "writing the .pkg.tar.zst");
            assert(tells_of(f@, "writing the .pkg.tar.zst"@, e@));
            Err(f)
        },
        Ok(bytes) => {
            Ok(Package { file_name: arch::file_name_from(base, plan), bytes })
        },
    }
}

fn build_deb(
    plan: &BuildPlan,
    config: &ResolvedConfig,
    variables: &Variables,
    triggers: Option<core::result::Result<Vec<u8>, String>>,
    sources: &Sources,
) -> (r: core::result::Result<Package, Failure>)
    ensures
        Format::Deb.builds(
            plan@,
            config@,
            variables@,
            read_triggers(triggers),
            *sources,
            concluded(r),
        ),
{
    let base = base_for(plan, config);
    let kept = match maintainer_scripts(config.init, config.install_strategy, variables) {
        Err(f) => {
            return Err(f);
        },
        Ok(kept) => kept,
    };
    // What the scripts call becomes a dependency: a `-slim` image has no `adduser`, and
    // `postinst` exits 127.
    let required = scripts::required_packages(config.init, config.install_strategy);
    let plan = with_dependencies(plan, &required);
    let ghost read = read_triggers(triggers);
    let triggers = match triggers_for(&config.triggers_file, triggers) {
        Err(f) => {
            return Err(f);
        },
        Ok(triggers) => triggers,
    };
    assert(script_pairs(views(kept@)).map_values(
        |s: (Seq<char>, Seq<u8>)| MaintainerScriptView { name: s.0, bytes: s.1 },
    ) =~= views(kept@));
    let options = deb::Options {
        compression: Compression::default(),
        section: None,
        maintainer_scripts: kept,
        triggers,
    };
    assert(deb_options(config@, variables@, read) == Ok::<deb::OptionsView, Seq<Seq<char>>>(
        options@,
    ));
    write_deb(&plan, &options, sources, base.as_str())
}

fn build_rpm(
    plan: &BuildPlan,
    config: &ResolvedConfig,
    variables: &Variables,
    sources: &Sources,
) -> (r: core::result::Result<Package, Failure>)
    ensures
        forall|triggers: Option<core::result::Result<Seq<u8>, Seq<char>>>| #[trigger]
            Format::Rpm.builds(plan@, config@, variables@, triggers, *sources, concluded(r)),
{
    let base = base_for(plan, config);
    let kept = match rpm_scriptlets(config.init, config.install_strategy, variables) {
        Err(f) => {
            return Err(f);
        },
        Ok(kept) => kept,
    };
    let ghost original = plan@;
    let required = scriptlets::required_packages(config.init, config.install_strategy);
    let plan = with_dependencies(plan, &required);
    let options = rpm::Options {
        maintainer_scripts: kept,
        preset_service: if scriptlets::uses_preset(config.init) {
            Some(plan.identity.package_name.clone())
        } else {
            None
        },
    };
    assert(rpm_options(original, config@, variables@) == Ok::<rpm::OptionsView, Seq<Seq<char>>>(
        options@,
    ));
    write_rpm(&plan, &options, sources, base.as_str())
}

fn build_arch(
    plan: &BuildPlan,
    config: &ResolvedConfig,
    variables: &Variables,
    sources: &Sources,
) -> (r: core::result::Result<Package, Failure>)
    ensures
        forall|triggers: Option<core::result::Result<Seq<u8>, Seq<char>>>| #[trigger]
            Format::Arch.builds(plan@, config@, variables@, triggers, *sources, concluded(r)),
{
    let base = base_for(plan, config);
    let install_scriptlet = match install::compose(
        config.init,
        config.install_strategy,
        variables,
    ) {
        Err(e) => {
            return Err(Failure::of(&e).context("composing `.INSTALL`".to_owned()));
        },
        Ok(None) => None,
        Ok(Some(text)) => Some(text.as_str().as_bytes_vec()),
    };
    let options = arch::Options {
        install_scriptlet,
        preset_service: if install::uses_preset(config.init) {
            Some(plan.identity.package_name.clone())
        } else {
            None
        },
    };
    assert(arch_options(plan@, config@, variables@) == Ok::<arch::OptionsView, Seq<Seq<char>>>(
        options@,
    ));
    write_arch(plan, &options, sources, base.as_str())
}

// ---- laws -------------------------------------------------------------------------------------

/// What the scripts call ends up among the dependencies: after merging, some entry is about each
/// required package that has a name.
pub proof fn what_is_required_is_depended_on(
    entries: Seq<Seq<char>>,
    required: Seq<Seq<char>>,
    i: int,
)
    requires
        0 <= i < required.len(),
        words_of(required[i]).len() > 0,
    ensures
        mentions(with_required(entries, required, required.len() as int), required[i]),
{
    mentioned_by(entries, required, i, required.len() as int);
}

proof fn mentioned_by(entries: Seq<Seq<char>>, required: Seq<Seq<char>>, i: int, n: int)
    requires
        0 <= i < n <= required.len(),
        words_of(required[i]).len() > 0,
    ensures
        mentions(with_required(entries, required, n), required[i]),
    decreases n,
{
    let before = with_required(entries, required, n - 1);
    let after = with_required(entries, required, n);
    if i == n - 1 {
        if !mentions(before, required[i]) {
            assert(is_about(after[before.len() as int], required[i]));
        }
    } else {
        mentioned_by(entries, required, i, n - 1);
        let k = choose|k: int|
            0 <= k < before.len() && #[trigger] is_about(before[k], required[i]);
        assert(is_about(after[k], required[i]));
    }
}

/// A package the user depends on already, at whatever version, is left as it is: where every
/// required package has such an entry, nothing is added.
pub proof fn what_is_mentioned_is_not_added(
    entries: Seq<Seq<char>>,
    required: Seq<Seq<char>>,
    n: int,
)
    requires
        0 <= n <= required.len(),
        forall|k: int| 0 <= k < n ==> mentions(entries, #[trigger] required[k]),
    ensures
        with_required(entries, required, n) == entries,
    decreases n,
{
    if n > 0 {
        what_is_mentioned_is_not_added(entries, required, n - 1);
        assert(mentions(entries, required[n - 1]));
    }
}

/// Merging leaves what the user wrote as it is: the entries stay, in order, at the front.
pub proof fn merging_keeps_the_entries(
    entries: Seq<Seq<char>>,
    required: Seq<Seq<char>>,
    n: int,
)
    requires
        0 <= n <= required.len(),
    ensures
        entries.is_prefix_of(with_required(entries, required, n)),
    decreases n,
{
    if n > 0 {
        merging_keeps_the_entries(entries, required, n - 1);
    }
}

/// Merging adds nothing but what is required: every entry was written by the user or is a
/// required package.
pub proof fn nothing_else_is_depended_on(
    entries: Seq<Seq<char>>,
    required: Seq<Seq<char>>,
    n: int,
    entry: Seq<char>,
)
    requires
        0 <= n <= required.len(),
        with_required(entries, required, n).contains(entry),
    ensures
        entries.contains(entry) || required.contains(entry),
    decreases n,
{
    if n > 0 {
        let before = with_required(entries, required, n - 1);
        let after = with_required(entries, required, n);
        let k = after.index_of(entry);
        assert(after[k] == entry);
        if k < before.len() {
            assert(before[k] == entry);
            nothing_else_is_depended_on(entries, required, n - 1, entry);
        } else {
            assert(required[n - 1] == entry);
        }
    }
}

/// Each format writes a version and an architecture in its own spelling.
pub proof fn each_format_spells_its_own_way(config: ResolvedConfigView)
    ensures
        Format::Deb.version_in(config) == config.version.deb,
        Format::Rpm.version_in(config) == config.version.rpm_version,
        Format::Arch.version_in(config) == config.version.rpm_version,
        architecture_named(config.architecture) matches Ok(a) ==> {
            &&& Format::Deb.architecture_in(config) == Ok::<Seq<char>, Seq<Seq<char>>>(
                a.deb_spelling(),
            )
            &&& Format::Rpm.architecture_in(config) == Ok::<Seq<char>, Seq<Seq<char>>>(
                a.rpm_spelling(),
            )
            &&& Format::Arch.architecture_in(config) == Ok::<Seq<char>, Seq<Seq<char>>>(
                a.arch_linux_spelling(),
            )
        },
        architecture_named(config.architecture) is Err ==> Format::Deb.architecture_in(config)
            is Err && Format::Rpm.architecture_in(config) is Err && Format::Arch.architecture_in(
            config,
        ) is Err,
        Format::Deb.spelling() == "deb"@,
        Format::Rpm.spelling() == "rpm"@,
        Format::Arch.spelling() == "arch"@,
{
}

/// A Debian package honours every init system, an RPM package all but Upstart, and an Arch
/// package systemd alone; where nothing was named each of them serves what it can.
pub proof fn each_format_says_what_it_cannot_honour(init: InitSystem)
    ensures
        Format::Deb.unhonoured(init) is None,
        Format::Rpm.unhonoured(init) is Some <==> init is Upstart,
        Format::Arch.unhonoured(init) is Some <==> init is Sysv || init is Upstart,
{
}

proof fn entries_of_the_first(x: Seq<Seq<char>>, y: Seq<Seq<char>>, n: int)
    requires
        0 <= n <= x.len(),
    ensures
        entries_in(x + y, n) == entries_in(x, n),
    decreases n,
{
    if n > 0 {
        entries_of_the_first(x, y, n - 1);
        assert((x + y)[n - 1] == x[n - 1]);
    }
}

proof fn entries_of_both(x: Seq<Seq<char>>, y: Seq<Seq<char>>, n: int)
    requires
        0 <= n <= y.len(),
    ensures
        entries_in(x + y, x.len() + n) == entries_in(x, x.len() as int) + entries_in(y, n),
    decreases n,
{
    if n == 0 {
        entries_of_the_first(x, y, x.len() as int);
        assert(entries_in(x, x.len() as int) + entries_in(y, 0) =~= entries_in(
            x,
            x.len() as int,
        ));
    } else {
        entries_of_both(x, y, n - 1);
        assert((x + y)[x.len() + n - 1] == y[n - 1]);
        let before = entries_in(x, x.len() as int);
        let more = trimmed(y[n - 1]);
        assert(before + entries_in(y, n - 1).push(more) =~= (before + entries_in(y, n - 1)).push(
            more,
        ));
    }
}

/// A dependency list is read entry by entry, each trimmed, blank ones passed over.
pub proof fn dependency_lists_are_read_entry_by_entry(a: Seq<char>, b: Seq<char>)
    ensures
        dependency_entries(Some(a + ","@ + b)) == dependency_entries(Some(a)) + dependency_entries(
            Some(b),
        ),
        !a.contains(',') ==> dependency_entries(Some(a)) == (if trimmed(a).len() == 0 {
            Seq::<Seq<char>>::empty()
        } else {
            seq![trimmed(a)]
        }),
        dependency_entries(None).len() == 0,
{
    reveal_strlit(",");
    assert(a + ","@ + b =~= a.push(',') + b);
    split_concat(a, b, ',');
    let x = split_at_char(a, ',');
    let y = split_at_char(b, ',');
    entries_of_both(x, y, y.len() as int);
    if !a.contains(',') {
        split_whole(a, ',');
        reveal_with_fuel(entries_in, 2);
        assert(entries_in(seq![a], 1) =~= dependency_entries(Some(a)));
    }
}

/// Entries that are listed are read back as they were, so a merged list says what was merged.
pub proof fn listed_dependencies_read_back(entries: Seq<Seq<char>>)
    requires
        entries.len() > 0,
        forall|i: int|
            0 <= i < entries.len() ==> (#[trigger] entries[i]).len() > 0 && bare(entries[i])
                && !entries[i].contains(','),
    ensures
        dependency_entries(Some(joined(entries, ", "@))) == entries,
    decreases entries.len(),
{
    let none = Seq::<char>::empty();
    let last = entries.last();
    assert(last == entries[entries.len() - 1]);
    assert(none + last + none =~= last);
    trimming_takes_the_blanks(none, last, none);
    if entries.len() == 1 {
        dependency_lists_are_read_entry_by_entry(last, none);
        assert(entries =~= seq![last]);
    } else {
        let init = entries.drop_last();
        assert forall|i: int| 0 <= i < init.len() implies (#[trigger] init[i]).len() > 0 && bare(
            init[i],
        ) && !init[i].contains(',') by {
            assert(init[i] == entries[i]);
        }
        listed_dependencies_read_back(init);
        reveal_strlit(", ");
        reveal_strlit(",");
        let entry = seq![' '] + last;
        assert(joined(init, ", "@) + ", "@ + last =~= joined(init, ", "@) + ","@ + entry);
        dependency_lists_are_read_entry_by_entry(joined(init, ", "@), entry);
        assert(blank(seq![' ']));
        trimming_takes_the_blanks(seq![' '], last, none);
        assert(seq![' '] + last + none =~= entry);
        assert forall|i: int| 0 <= i < entry.len() implies entry[i] != ',' by {
            if i > 0 {
                assert(last.contains(last[i - 1]));
            }
        }
        dependency_lists_are_read_entry_by_entry(entry, none);
        assert(init + seq![last] =~= entries);
    }
}

/// Where the scripts need nothing the list stays as it was given; where they need something, it
/// holds what was given, in front and in order, and what is needed.
pub proof fn what_was_given_stays_in_front(list: Option<Seq<char>>, required: Seq<Seq<char>>)
    ensures
        required.len() == 0 ==> merged_dependencies(list, required) == list,
        required.len() > 0 ==> (merged_dependencies(list, required) matches Some(text) && exists|
            all: Seq<Seq<char>>,
        |
            #![trigger joined(all, ", "@)]
            text == joined(all, ", "@) && dependency_entries(list).is_prefix_of(all)),
{
    if required.len() > 0 {
        let n = required.len() as int;
        merging_keeps_the_entries(dependency_entries(list), required, n);
        let all = with_required(dependency_entries(list), required, n);
        assert(merged_dependencies(list, required) == Some(joined(all, ", "@)));
    }
}

/// An entry is about a package where its first word is the package's: a version relation after it
/// plays no part.
pub proof fn an_entry_is_about_its_first_word(a: Seq<char>, b: Seq<char>, more: Seq<char>)
    requires
        is_word(a),
        is_word(b),
        is_word(more),
    ensures
        is_about(a, b) <==> a == b,
        is_about(a + seq![' '] + more, b) <==> a == b,
        is_about(b, a + seq![' '] + more) <==> a == b,
{
    words_of_word(a);
    words_of_word(b);
    words_append(a, more);
}

/// A line of a script does something unless it is blank, a comment, `set -e` or a bare `exit 0`,
/// whatever blanks stand around it.
pub proof fn scaffolding_does_nothing(lead: Seq<char>, line: Seq<char>, tail: Seq<char>)
    requires
        blank(lead),
        bare(line),
        blank(tail),
    ensures
        does_something(lead + line + tail) <==> line.len() > 0 && !begins_with(line, "#"@)
            && !begins_with(line, "set -e"@) && line != "exit 0"@,
{
    trimming_takes_the_blanks(lead, line, tail);
}

/// A script is shipped under its own name exactly where it does something.
pub proof fn scripts_that_act_are_shipped(
    outcomes: Seq<(Seq<char>, Seq<char>, core::result::Result<Seq<char>, ErrorView>)>,
    n: int,
    i: int,
)
    requires
        0 <= i < n <= outcomes.len(),
        shipped_scripts(outcomes, n) is Ok,
    ensures
        outcomes[i].2 matches Ok(text) && (acts(text) ==> shipped_scripts(
            outcomes,
            n,
        )->Ok_0.contains((outcomes[i].0, encode_utf8(text)))),
        (forall|k: int|
            0 <= k < n ==> ((#[trigger] outcomes[k]).2 matches Ok(text) ==> !acts(text)))
            ==> shipped_scripts(outcomes, n)->Ok_0.len() == 0,
    decreases n,
{
    selections_hold::<(Seq<char>, Seq<u8>)>();
    reveal_with_fuel(shipped_scripts, 2);
    if n > 1 {
        if i < n - 1 {
            scripts_that_act_are_shipped(outcomes, n - 1, i);
        } else {
            scripts_that_act_are_shipped(outcomes, n - 1, 0);
        }
    }
}

/// Every maintainer script of a package goes by its own name and is what its part composes.
pub proof fn every_script_is_composed(
    init: InitSystem,
    strategy: InstallStrategy,
    values: Map<Seq<char>, Seq<char>>,
)
    ensures
        ({
            let d = deb_outcomes(init, strategy, values);
            let r = rpm_outcomes(init, strategy, values);
            &&& d.len() == 4
            &&& d[0].0 == "preinst"@ && d[0].2 == scripts::composed(
                Script::Preinst,
                init,
                strategy,
                values,
            )
            &&& d[1].0 == "postinst"@ && d[1].2 == scripts::composed(
                Script::Postinst,
                init,
                strategy,
                values,
            )
            &&& d[2].0 == "prerm"@ && d[2].2 == scripts::composed(
                Script::Prerm,
                init,
                strategy,
                values,
            )
            &&& d[3].0 == "postrm"@ && d[3].2 == scripts::composed(
                Script::Postrm,
                init,
                strategy,
                values,
            )
            &&& r.len() == 4
            &&& r[0].0 == "pre"@ && r[0].2 == scriptlets::composed(
                Scriptlet::Pre,
                init,
                strategy,
                values,
            )
            &&& r[1].0 == "post"@ && r[1].2 == scriptlets::composed(
                Scriptlet::Post,
                init,
                strategy,
                values,
            )
            &&& r[2].0 == "preun"@ && r[2].2 == scriptlets::composed(
                Scriptlet::Preun,
                init,
                strategy,
                values,
            )
            &&& r[3].0 == "postun"@ && r[3].2 == scriptlets::composed(
                Scriptlet::Postun,
                init,
                strategy,
                values,
            )
        }),
{
}

/// A Debian package carries the triggers file its configuration names, as it was read, and none
/// where none is named; it is compressed with xz. RPM and Arch packages carry a preset policy for
/// their own unit exactly where they serve systemd.
pub proof fn packages_carry_what_is_configured(
    p: BuildPlanView,
    config: ResolvedConfigView,
    values: Map<Seq<char>, Seq<char>>,
    read: Option<core::result::Result<Seq<u8>, Seq<char>>>,
)
    ensures
        deb_options(config, values, read) matches Ok(options) ==> {
            &&& options.compression == Compression::Xz
            &&& options.section is None
            &&& config.triggers_file is None ==> options.triggers is None
            &&& config.triggers_file is Some ==> (read matches Some(Ok(bytes)) && options.triggers
                == Some(bytes))
        },
        rpm_options(p, config, values) matches Ok(options) ==> options.preset_service == (
        if config.init is Auto || config.init is Systemd {
            Some(p.identity.package_name)
        } else {
            None
        }),
        arch_options(p, config, values) matches Ok(options) ==> options.preset_service == (
        if config.init is Auto || config.init is Systemd {
            Some(p.identity.package_name)
        } else {
            None
        }),
        config.output_deb_name matches Some(name) ==> base_name(p, config) == name,
        config.output_deb_name is None ==> base_name(p, config) == p.identity.package_name,
{
}

/// What the scripts of a package call is depended on: with a service, what creates its account;
/// with systemd, what serves it. What was given stays in front, and nothing else of the plan
/// changes.
pub proof fn packages_depend_on_what_their_scripts_call(p: BuildPlanView, config: ResolvedConfigView)
    ensures
        ({
            let given = dependency_entries(p.identity.dependencies);
            let systemd = config.init is Auto || config.init is Systemd;
            &&& deb_plan(p, config).files == p.files && deb_plan(p, config).timestamp == p.timestamp
            &&& rpm_plan(p, config).files == p.files && rpm_plan(p, config).timestamp == p.timestamp
            &&& deb_plan(p, config).identity == (IdentityView {
                dependencies: deb_plan(p, config).identity.dependencies,
                ..p.identity
            })
            &&& rpm_plan(p, config).identity == (IdentityView {
                dependencies: rpm_plan(p, config).identity.dependencies,
                ..p.identity
            })
            &&& config.init is NoInit ==> deb_plan(p, config).identity.dependencies
                == p.identity.dependencies && rpm_plan(p, config).identity.dependencies
                == p.identity.dependencies
            &&& !(config.init is NoInit) ==> exists|all: Seq<Seq<char>>|
                deb_plan(p, config).identity.dependencies == Some(#[trigger] joined(all, ", "@))
                    && given.is_prefix_of(all) && mentions(all, "adduser"@) && (systemd ==> mentions(
                    all,
                    "init-system-helpers (>= 1.54)"@,
                ))
            &&& !(config.init is NoInit) ==> exists|all: Seq<Seq<char>>|
                rpm_plan(p, config).identity.dependencies == Some(#[trigger] joined(all, ", "@))
                    && given.is_prefix_of(all) && mentions(all, "shadow-utils"@) && (systemd
                    ==> mentions(all, "systemd"@))
        }),
{
    let given = dependency_entries(p.identity.dependencies);
    let systemd = config.init is Auto || config.init is Systemd;
    scripts::nothing_more_is_required(config.init, config.install_strategy);
    scriptlets::nothing_more_is_required(config.init, config.install_strategy);
    if !(config.init is NoInit) {
        let deb = scripts::required(config.init, config.install_strategy);
        let rpm = scriptlets::required(config.init, config.install_strategy);
        let with_deb = with_required(given, deb, deb.len() as int);
        let with_rpm = with_required(given, rpm, rpm.len() as int);
        merging_keeps_the_entries(given, deb, deb.len() as int);
        merging_keeps_the_entries(given, rpm, rpm.len() as int);
        names_have_words();
        what_is_required_is_depended_on(given, deb, 0);
        what_is_required_is_depended_on(given, rpm, 0);
        if systemd {
            what_is_required_is_depended_on(given, deb, 1);
            what_is_required_is_depended_on(given, rpm, 1);
        }
        assert(deb_plan(p, config).identity.dependencies == Some(joined(with_deb, ", "@)));
        assert(rpm_plan(p, config).identity.dependencies == Some(joined(with_rpm, ", "@)));
    }
}

proof fn names_have_words()
    ensures
        words_of("adduser"@).len() > 0,
        words_of("init-system-helpers (>= 1.54)"@).len() > 0,
        words_of("shadow-utils"@).len() > 0,
        words_of("systemd"@).len() > 0,
{
    reveal_strlit("adduser");
    reveal_strlit("shadow-utils");
    reveal_strlit("systemd");
    reveal_strlit("init-system-helpers (>= 1.54)");
    reveal_strlit("init-system-helpers (>=");
    reveal_strlit("1.54)");
    words_of_word("adduser"@);
    words_of_word("shadow-utils"@);
    words_of_word("systemd"@);
    words_append("init-system-helpers (>="@, "1.54)"@);
    assert("init-system-helpers (>= 1.54)"@ =~= "init-system-helpers (>="@ + seq![' ']
        + "1.54)"@);
}

/// A package that was built is written from the plan it was built for, whatever the format: with
/// every entry and the date, with the dependencies its scripts call, and under the name it was
/// given.
pub proof fn a_build_packages_its_plan(
    p: BuildPlanView,
    config: ResolvedConfigView,
    values: Map<Seq<char>, Seq<char>>,
    triggers: Option<core::result::Result<Seq<u8>, Seq<char>>>,
    sources: Sources,
    package: PackageView,
)
    ensures
        Format::Deb.builds(p, config, values, triggers, sources, Ok(package)) ==> exists|
            q: BuildPlanView,
            options: deb::OptionsView,
        | #[trigger]
            deb::packages(q, options, sources@, Ok(package.bytes)) && q.files == p.files
                && q.timestamp == p.timestamp && q == deb_plan(p, config) && package.file_name
                == deb::named_file(base_name(p, config), q) && deb_options(config, values, triggers)
                == Ok::<deb::OptionsView, Seq<Seq<char>>>(options),
        Format::Rpm.builds(p, config, values, triggers, sources, Ok(package)) ==> exists|
            q: BuildPlanView,
            options: rpm::OptionsView,
        | #[trigger]
            rpm::packages(q, options, sources.dated(), Ok(package.bytes)) && q.files == p.files
                && q.timestamp == p.timestamp && q == rpm_plan(p, config) && package.file_name
                == rpm::named_file(base_name(p, config), q) && rpm_options(p, config, values)
                == Ok::<rpm::OptionsView, Seq<Seq<char>>>(options),
        Format::Arch.builds(p, config, values, triggers, sources, Ok(package)) ==> exists|
            options: arch::OptionsView,
        | #[trigger]
            arch::packages(p, options, sources@, Ok(package.bytes)) && package.file_name
                == arch::named_file(base_name(p, config), p) && arch_options(p, config, values)
                == Ok::<arch::OptionsView, Seq<Seq<char>>>(options),
{
    if Format::Deb.builds(p, config, values, triggers, sources, Ok(package)) {
        let options = deb_options(config, values, triggers)->Ok_0;
        assert(deb::packages(deb_plan(p, config), options, sources@, Ok(package.bytes)));
    }
    if Format::Rpm.builds(p, config, values, triggers, sources, Ok(package)) {
        let options = rpm_options(p, config, values)->Ok_0;
        assert(rpm::packages(rpm_plan(p, config), options, sources.dated(), Ok(package.bytes)));
    }
    if Format::Arch.builds(p, config, values, triggers, sources, Ok(package)) {
        let options = arch_options(p, config, values)->Ok_0;
        assert(arch::packages(p, options, sources@, Ok(package.bytes)));
    }
}

} // verus!
