//! What the user sees, and where it goes.
//!
//! Diagnostics go to one stream and results to another, so that machine-readable output stays
//! parseable when there are warnings. Both are gathered as text, for the caller to print.

use vstd::prelude::*;

use crate::digits::{octal, octal_text};
use crate::error::Error;
use crate::format::{format_names, names_of_formats, Format};
use crate::plan::{BuildPlan, BuildPlanView, EntryKind, EntryKindView, PlannedFileView};
use crate::resolve::{ResolvedConfig, ResolvedConfigView};
use crate::strings::{join, joined, unlines, views, views_push};

verus! {

/// Why something could not be done: what was being attempted, then what went wrong, outermost
/// first.
#[derive(Debug)]
pub struct Failure {
    links: Vec<String>,
}

impl View for Failure {
    type V = Seq<Seq<char>>;

    closed spec fn view(&self) -> Seq<Seq<char>> {
        views(self.links@)
    }
}

/// The links an error of planning gives: its sentence, then what lies behind it.
pub open spec fn links_of(e: crate::error::ErrorView) -> Seq<Seq<char>> {
    match e.behind() {
        Some(cause) => seq![e.text(), cause],
        None => seq![e.text()],
    }
}

impl Failure {
    #[verifier::type_invariant]
    spec fn says_something(self) -> bool {
        self.links@.len() > 0
    }

    pub fn new(message: String) -> (f: Self)
        ensures
            f@ == seq![message@],
    {
        let mut links: Vec<String> = Vec::new();
        links.push(message);
        let f = Failure { links };
        assert(f@ =~= seq![message@]);
        f
    }

    /// A failure with the reason behind it, where one was given.
    pub fn with_cause(message: String, cause: Option<&str>) -> (f: Self)
        ensures
            f@ == (match cause {
                Some(text) => seq![message@, text@],
                None => seq![message@],
            }),
    {
        let mut links: Vec<String> = Vec::new();
        links.push(message);
        match cause {
            Some(text) => {
                links.push(text.to_owned());
            },
            None => {},
        }
        let f = Failure { links };
        assert(f@ =~= (match cause {
            Some(text) => seq![message@, text@],
            None => seq![message@],
        }));
        f
    }

    /// The failure an error of planning is.
    pub fn of(error: &Error) -> (f: Self)
        ensures
            f@ == links_of(error@),
    {
        Failure::with_cause(error.text(), error.cause())
    }

    /// The failure of what was being attempted when this one came.
    pub fn context(self, message: String) -> (f: Self)
        ensures
            f@ == seq![message@] + self@,
    {
        let mut links = self.links;
        links.insert(0, message);
        let f = Failure { links };
        assert(f@ =~= seq![message@] + self@);
        f
    }

    /// What was being attempted.
    pub fn text(&self) -> (s: &str)
        ensures
            self@.len() > 0,
            s@ == self@[0],
    {
        proof {
            use_type_invariant(self);
        }
        assert(self@.len() == self.links@.len());
        self.links[0].as_str()
    }

    /// How many links the chain has.
    pub fn len(&self) -> (n: usize)
        ensures
            n == self@.len(),
            n > 0,
    {
        proof {
            use_type_invariant(self);
        }
        assert(self@.len() == self.links@.len());
        self.links.len()
    }

    /// One link of the chain.
    pub fn link(&self, i: usize) -> (s: &str)
        requires
            i < self@.len(),
        ensures
            s@ == self@[i as int],
    {
        assert(self@.len() == self.links@.len());
        self.links[i].as_str()
    }
}

#[derive(Debug, Clone, Copy, PartialEq, Eq, Structural)]
pub enum Verbosity {
    Quiet,
    Normal,
    Verbose,
}

/// The two streams, as text that has not been printed yet.
#[derive(Debug)]
pub struct Reporter {
    pub verbosity: Verbosity,
    pub out: String,
    pub err: String,
}

/// The lines a failure is told in: the attempt, then every cause.
pub open spec fn failure_lines(label: Seq<char>, links: Seq<Seq<char>>) -> Seq<Seq<char>> {
    Seq::new(
        links.len(),
        |i: int|
            if i == 0 {
                label + links[0]
            } else {
                "  caused by: "@ + links[i]
            },
    )
}

/// What a dry run says of an entry.
#[derive(Debug)]
pub struct DescribedFile {
    pub destination: String,
    pub kind: &'static str,
    /// In octal.
    pub mode: String,
}

pub struct DescribedFileView {
    pub destination: Seq<char>,
    pub kind: Seq<char>,
    pub mode: Seq<char>,
}

impl View for DescribedFile {
    type V = DescribedFileView;

    open spec fn view(&self) -> DescribedFileView {
        DescribedFileView {
            destination: self.destination@,
            kind: self.kind@,
            mode: self.mode@,
        }
    }
}

pub open spec fn file_described(f: PlannedFileView) -> DescribedFileView {
    DescribedFileView {
        destination: f.destination,
        kind: match f.kind {
            EntryKindView::Regular => "file"@,
            EntryKindView::Directory => "directory"@,
            EntryKindView::Symlink { target } => "symlink"@,
        },
        mode: octal(f.mode as nat),
    }
}

/// What a build would do, without doing it.
#[derive(Debug)]
pub struct DryRun {
    pub package: String,
    /// The name of each format and the version as it spells it.
    pub versions: Vec<(&'static str, String)>,
    pub installed_size_kib: u128,
    pub timestamp: u64,
    pub files: Vec<DescribedFile>,
}

/// Describes what a build would do, as values.
pub fn describe(plan: &BuildPlan, config: &ResolvedConfig, formats: &Vec<Format>) -> (d: DryRun)
    ensures
        d.package@ == plan@.identity.package_name,
        d.versions@.len() == formats@.len(),
        forall|i: int|
            0 <= i < formats@.len() ==> (#[trigger] d.versions@[i]).0@ == formats@[i].spelling()
                && d.versions@[i].1@ == formats@[i].version_in(config@),
        d.installed_size_kib == crate::plan::size_kib(plan@.files),
        d.timestamp == plan@.timestamp,
        views(d.files@) == plan@.files.map_values(|f: PlannedFileView| file_described(f)),
{
    let mut versions: Vec<(&'static str, String)> = Vec::new();
    let mut i: usize = 0;
    while i < formats.len()
        invariant
            i <= formats@.len(),
            versions@.len() == i,
            forall|j: int|
                0 <= j < i ==> (#[trigger] versions@[j]).0@ == formats@[j].spelling()
                    && versions@[j].1@ == formats@[j].version_in(config@),
        decreases formats@.len() - i,
    {
        let format = formats[i];
        versions.push((format.name(), format.version_of(config)));
        i = i + 1;
    }
    let ghost all = plan@.files.map_values(|f: PlannedFileView| file_described(f));
    let mut files: Vec<DescribedFile> = Vec::new();
    let mut i: usize = 0;
    assert(views(files@) =~= all.take(0));
    while i < plan.files.len()
        invariant
            i <= plan.files@.len(),
            all == plan@.files.map_values(|f: PlannedFileView| file_described(f)),
            views(files@) == all.take(i as int),
        decreases plan.files@.len() - i,
    {
        let file = &plan.files[i];
        assert(plan@.files[i as int] == file@);
        let kind = match &file.kind {
            EntryKind::Regular => "file",
            EntryKind::Directory => "directory",
            EntryKind::Symlink { target } => "symlink",
        };
        let described = DescribedFile {
            destination: file.destination.as_str().to_owned(),
            kind,
            mode: octal_text(file.mode),
        };
        proof {
            assert(described@ == all[i as int]);
            views_push(files@, described);
            assert(all.take(i + 1) =~= all.take(i as int).push(described@));
        }
        files.push(described);
        i = i + 1;
    }
    assert(all.take(i as int) =~= all);
    DryRun {
        package: plan.identity.package_name.clone(),
        versions,
        installed_size_kib: plan.installed_size_kib(),
        timestamp: plan.timestamp.as_secs(),
        files,
    }
}

/// The lines a dry run prints.
pub open spec fn dry_run_lines(
    p: BuildPlanView,
    config: ResolvedConfigView,
    formats: Seq<Format>,
) -> Seq<Seq<char>> {
    seq![
        p.identity.package_name + " "@ + config.version.deb + " would be built for: "@ + joined(
            format_names(formats),
            ", "@,
        ),
    ] + p.files.map_values(|f: PlannedFileView| "  "@ + f.destination)
}

impl Reporter {
    pub fn new(verbosity: Verbosity) -> (r: Self)
        ensures
            r.verbosity == verbosity,
            r.out@ == Seq::<char>::empty(),
            r.err@ == Seq::<char>::empty(),
    {
        let r = Reporter { verbosity, out: String::new(), err: String::new() };
        assert(r.out@ =~= Seq::empty());
        assert(r.err@ =~= Seq::empty());
        r
    }

    /// The diagnostics gathered so far, to be added to.
    pub fn error_stream(&mut self) -> (s: &mut String)
        ensures
            *s == old(self).err,
            *final(self) == (Reporter { err: *final(s), ..*old(self) }),
    {
        &mut self.err
    }

    /// Adds a line of diagnostics.
    pub fn error_line(&mut self, line: &str)
        ensures
            final(self).err@ == old(self).err@ + line@ + "\n"@,
            final(self).out == old(self).out,
            final(self).verbosity == old(self).verbosity,
    {
        self.err.append(line);
        self.err.append("\n");
    }

    pub fn warn(&mut self, message: &str)
        ensures
            final(self).err@ == (if old(self).verbosity == Verbosity::Quiet {
                old(self).err@
            } else {
                old(self).err@ + "warning: "@ + message@ + "\n"@
            }),
            final(self).out == old(self).out,
            final(self).verbosity == old(self).verbosity,
    {
        if self.verbosity != Verbosity::Quiet {
            self.err.append("warning: ");
            self.err.append(message);
            self.err.append("\n");
        }
    }

    pub fn detail(&mut self, message: &str)
        ensures
            final(self).err@ == (if old(self).verbosity == Verbosity::Verbose {
                old(self).err@ + "note: "@ + message@ + "\n"@
            } else {
                old(self).err@
            }),
            final(self).out == old(self).out,
            final(self).verbosity == old(self).verbosity,
    {
        if self.verbosity == Verbosity::Verbose {
            self.err.append("note: ");
            self.err.append(message);
            self.err.append("\n");
        }
    }

    /// The path of a package, as the result of a build.
    pub fn produced(&mut self, _format: Format, path: &str)
        ensures
            final(self).out@ == (if old(self).verbosity == Verbosity::Quiet {
                old(self).out@
            } else {
                old(self).out@ + path@ + "\n"@
            }),
            final(self).err == old(self).err,
            final(self).verbosity == old(self).verbosity,
    {
        if self.verbosity != Verbosity::Quiet {
            self.out.append(path);
            self.out.append("\n");
        }
    }

    /// Always shown, with the whole chain of causes: the outermost message says what was being
    /// attempted, the innermost what went wrong, and either alone is rarely enough.
    pub fn failed(&mut self, format: Format, error: &Failure)
        ensures
            final(self).err@ == old(self).err@ + unlines(
                failure_lines("error: "@ + format.spelling() + ": "@, error@),
            ),
            final(self).out == old(self).out,
            final(self).verbosity == old(self).verbosity,
    {
        let mut label = "error: ".to_owned();
        label.append(format.name());
        label.append(": ");
        self.tell(label.as_str(), error);
    }

    /// A failure that is no one format's.
    pub fn stopped(&mut self, error: &Failure)
        ensures
            final(self).err@ == old(self).err@ + unlines(failure_lines("error: "@, error@)),
            final(self).out == old(self).out,
            final(self).verbosity == old(self).verbosity,
    {
        self.tell("error: ", error);
    }

    fn tell(&mut self, label: &str, error: &Failure)
        ensures
            final(self).err@ == old(self).err@ + unlines(failure_lines(label@, error@)),
            final(self).out == old(self).out,
            final(self).verbosity == old(self).verbosity,
    {
        let ghost before = self.err@;
        let ghost all = failure_lines(label@, error@);
        let count: usize = error.len();
        let mut i: usize = 0;
        assert(all.take(0) =~= Seq::empty());
        assert(before + unlines(all.take(0)) =~= before);
        while i < count
            invariant
                i <= count,
                count == error@.len(),
                all == failure_lines(label@, error@),
                self.err@ == before + unlines(all.take(i as int)),
                self.out == old(self).out,
                self.verbosity == old(self).verbosity,
            decreases count - i,
        {
            let ghost now = self.err@;
            if i == 0 {
                self.err.append(label);
            } else {
                self.err.append("  caused by: ");
            }
            self.err.append(error.link(i));
            self.err.append("\n");
            proof {
                let next = all.take(i + 1);
                assert(next.drop_last() =~= all.take(i as int));
                assert(next.last() == all[i as int]);
                assert(self.err@ =~= now + all[i as int] + "\n"@);
                assert(before + unlines(next) =~= before + unlines(all.take(i as int))
                    + all[i as int] + "\n"@);
            }
            i = i + 1;
        }
        assert(all.take(i as int) =~= all);
    }

    /// Describes what a build would do, without doing it.
    pub fn dry_run(&mut self, plan: &BuildPlan, config: &ResolvedConfig, formats: &Vec<Format>)
        ensures
            final(self).out@ == old(self).out@ + unlines(
                dry_run_lines(plan@, config@, formats@),
            ),
            final(self).err == old(self).err,
            final(self).verbosity == old(self).verbosity,
    {
        let ghost before = self.out@;
        let ghost all = dry_run_lines(plan@, config@, formats@);
        let names = names_of_formats(formats);
        let list = join(&names, ", ");
        self.out.append(plan.identity.package_name.as_str());
        self.out.append(" ");
        self.out.append(config.version.deb());
        self.out.append(" would be built for: ");
        self.out.append(list.as_str());
        self.out.append("\n");
        proof {
            assert(all.take(1).drop_last() =~= Seq::empty());
            assert(all.take(1).last() == all[0]);
            assert(unlines(all.take(1).drop_last()) =~= Seq::empty());
            assert(unlines(all.take(1)) =~= all[0] + "\n"@);
            assert(self.out@ =~= before + (all[0] + "\n"@));
        }
        let mut i: usize = 0;
        while i < plan.files.len()
            invariant
                i <= plan.files@.len(),
                all == dry_run_lines(plan@, config@, formats@),
                self.out@ == before + unlines(all.take(i + 1)),
                self.err == old(self).err,
                self.verbosity == old(self).verbosity,
            decreases plan.files@.len() - i,
        {
            let ghost now = self.out@;
            let file = &plan.files[i];
            self.out.append("  ");
            self.out.append(file.destination.as_str());
            self.out.append("\n");
            proof {
                assert(plan@.files[i as int] == file@);
                assert(all[i + 1] == "  "@ + file@.destination);
                let next = all.take(i + 2);
                assert(next.drop_last() =~= all.take(i + 1));
                assert(next.last() == all[i + 1]);
                assert(self.out@ =~= now + all[i + 1] + "\n"@);
                assert(before + unlines(next) =~= before + unlines(all.take(i + 1)) + all[i + 1]
                    + "\n"@);
            }
            i = i + 1;
        }
        assert(all.take(i + 1) =~= all);
    }
}

// ---- laws -----------------------------------------------------------------------------

/// A failure is told link by link: what was attempted behind the label, then each cause on a line
/// of its own, none left out.
pub proof fn failures_are_told_link_by_link(label: Seq<char>, links: Seq<Seq<char>>, i: int)
    requires
        0 <= i < links.len(),
    ensures
        failure_lines(label, links).len() == links.len(),
        failure_lines(label, links)[i] == (if i == 0 {
            label + links[i]
        } else {
            "  caused by: "@ + links[i]
        }),
{
}

/// An error is told with what is behind it, where something is.
pub proof fn errors_are_told_with_their_cause(e: crate::error::ErrorView)
    ensures
        links_of(e).len() == (if e is Io || e is ManifestParse {
            2nat
        } else {
            1
        }),
        links_of(e)[0] == e.text(),
        e matches crate::error::ErrorView::Io { path, source } ==> links_of(e)[1] == source,
        e matches crate::error::ErrorView::ManifestParse { path, source } ==> links_of(e)[1]
            == source,
{
}

/// A dry run lists the package with its version and formats, then every planned entry, in order.
pub proof fn a_dry_run_lists_every_entry(
    p: BuildPlanView,
    config: ResolvedConfigView,
    formats: Seq<Format>,
    i: int,
)
    requires
        0 <= i < p.files.len(),
    ensures
        dry_run_lines(p, config, formats).len() == p.files.len() + 1,
        dry_run_lines(p, config, formats)[i + 1] == "  "@ + p.files[i].destination,
        dry_run_lines(p, config, formats)[0] == p.identity.package_name + " "@ + config.version.deb
            + " would be built for: "@ + joined(format_names(formats), ", "@),
{
}

/// An entry is described by its destination, its kind and its mode in octal.
pub proof fn an_entry_is_described_by_its_kind(f: PlannedFileView)
    ensures
        file_described(f).destination == f.destination,
        file_described(f).mode == octal(f.mode as nat),
        f.kind is Regular ==> file_described(f).kind == "file"@,
        f.kind is Directory ==> file_described(f).kind == "directory"@,
        f.kind is Symlink ==> file_described(f).kind == "symlink"@,
{
}

} // verus!
