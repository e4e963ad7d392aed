//! The Debian backend: an `ar` container holding `debian-binary`, `control.tar.*` and
//! `data.tar.*`, assembled in memory from a plan. Ownership is stated in the plan, which is all
//! `fakeroot` ever provided.

pub mod archive;
pub mod compression;
pub mod control;
pub mod docs;
pub mod error;
pub mod read;
pub mod roundtrip;
pub mod scripts;
pub mod snippets;

use vstd::prelude::*;
use vstd::string::StrSliceExecFns;
use vstd::utf8::encode_utf8;

use crate::container::{ar_image, ar_members, ar_reads_back, ArMember, ArMemberView, ArWriter};
use crate::deb::archive::{
    control_added, control_archive, data_members, write_data_archive, ControlMember,
    ControlMemberView,
};
use crate::deb::control::control_lines;
use crate::deb::compression::compression_failure;
use crate::deb::docs::doc_entries;
use crate::codec::md5_of;
use crate::deb::archive::md5_digest;
use crate::digits::hex_bytes;
use crate::error::opt;
use crate::payload::{digests_are_of_the_bytes, packaged_bytes, relative};
use crate::plan::{
    completed, completed_is, completes, config_entries, configuration_files_are_the_marked_ones, copy_bytes,
    copy_files, plannable, unplannable, BuildPlan, BuildPlanView, PlannedFileView,
};
use crate::packing::{settled, Sources};
use crate::strings::{end_lines, lists, sorted_members, unlines, views, views_push};
use crate::tarball::{reads_back, tar_image};
use crate::textmap::TextMap;

pub use crate::deb::compression::Compression;
pub use crate::deb::error::{Error, ErrorView, Result};

verus! {

/// The container format version.
pub const DEBIAN_BINARY: &'static str = "2.0\n";

/// `dpkg-deb` writes the file-type bits on `ar` members.
pub const AR_MEMBER_MODE: u32 = 0o100_644;

/// A maintainer script: its name and its bytes.
#[derive(Debug)]
pub struct MaintainerScript {
    pub name: String,
    pub bytes: Vec<u8>,
}

pub struct MaintainerScriptView {
    pub name: Seq<char>,
    pub bytes: Seq<u8>,
}

impl View for MaintainerScript {
    type V = MaintainerScriptView;

    open spec fn view(&self) -> MaintainerScriptView {
        MaintainerScriptView { name: self.name@, bytes: self.bytes@ }
    }
}

/// How to write a package.
#[derive(Debug)]
pub struct Options {
    pub compression: Compression,
    /// Defaults to `misc`.
    pub section: Option<String>,
    /// Placed in `control.tar`. An input rather than part of the plan, so that the plan need
    /// not know `control.tar`'s layout.
    pub maintainer_scripts: Vec<MaintainerScript>,
    /// Contents of a `triggers` control file, passed through verbatim: the directives are
    /// dpkg's grammar.
    pub triggers: Option<Vec<u8>>,
}

pub struct OptionsView {
    pub compression: Compression,
    pub section: Option<Seq<char>>,
    pub maintainer_scripts: Seq<MaintainerScriptView>,
    pub triggers: Option<Seq<u8>>,
}

impl View for Options {
    type V = OptionsView;

    open spec fn view(&self) -> OptionsView {
        OptionsView {
            compression: self.compression,
            section: opt(self.section),
            maintainer_scripts: views(self.maintainer_scripts@),
            triggers: match self.triggers {
                Some(bytes) => Some(bytes@),
                None => None,
            },
        }
    }
}

impl Default for Options {
    fn default() -> (o: Self)
        ensures
            o@ == (OptionsView {
                compression: Compression::Xz,
                section: None,
                maintainer_scripts: Seq::empty(),
                triggers: None,
            }),
    {
        let o = Options {
            compression: Compression::default(),
            section: None,
            maintainer_scripts: Vec::new(),
            triggers: None,
        };
        assert(views(o.maintainer_scripts@) =~= Seq::empty());
        o
    }
}

/// The name of the file a plan's package is written to, given its base.
pub open spec fn named_file(base: Seq<char>, p: BuildPlanView) -> Seq<char> {
    base + "_"@ + p.identity.version_deb + "_"@ + p.identity.architecture.deb_spelling() + ".deb"@
}

/// The conventional name of the file a plan's package is written to.
pub open spec fn package_file(p: BuildPlanView) -> Seq<char> {
    named_file(p.identity.package_name, p)
}

/// The file name for a package, with a base of the caller's choice.
pub fn file_name_from(base: &str, plan: &BuildPlan) -> (s: String)
    ensures
        s@ == named_file(base@, plan@),
{
    let mut s = base.to_owned();
    s.append("_");
    s.append(plan.identity.version_deb.as_str());
    s.append("_");
    s.append(plan.identity.architecture.deb());
    s.append(".deb");
    s
}

/// The conventional file name for a package.
pub fn file_name(plan: &BuildPlan) -> (s: String)
    ensures
        s@ == package_file(plan@),
{
    file_name_from(plan.identity.package_name.as_str(), plan)
}

// ---- the control members ----------------------------------------------------------------

/// One line per regular file: its digest, two spaces, its path without the leading slash.
pub open spec fn md5_lines(digests: Map<Seq<char>, Seq<char>>) -> Seq<Seq<char>> {
    sorted_members(digests.dom()).map_values(|path: Seq<char>| digests[path] + "  "@ + path)
}

/// One `<digest>  <path>` line per regular file, path without its leading slash.
pub fn render_md5sums(digests: &TextMap) -> (s: String)
    ensures
        s@ == unlines(md5_lines(digests@)),
{
    let count: usize = digests.len();
    let ghost all = md5_lines(digests@);
    let mut out: Vec<String> = Vec::new();
    let mut i: usize = 0;
    assert(views(out@) =~= all.take(0));
    while i < count
        invariant
            i <= count,
            count == sorted_members(digests@.dom()).len(),
            all == md5_lines(digests@),
            views(out@) == all.take(i as int),
        decreases count - i,
    {
        let (path, digest) = digests.at(i);
        let mut line = digest.to_owned();
        line.append("  ");
        line.append(path);
        proof {
            assert(line@ == all[i as int]);
            views_push(out@, line);
            assert(all.take(i + 1) =~= all.take(i as int).push(line@));
        }
        out.push(line);
        i = i + 1;
    }
    assert(all.take(i as int) =~= all);
    end_lines(&out)
}

/// The destinations of the configuration files, one a line, left out where there are none.
pub open spec fn conffiles_text(p: BuildPlanView) -> Option<Seq<char>> {
    let config = config_entries(p.files);
    if config.len() == 0 {
        None
    } else {
        Some(unlines(config.map_values(|f: PlannedFileView| f.destination)))
    }
}

pub fn render_conffiles(plan: &BuildPlan) -> (r: Option<String>)
    ensures
        opt(r) == conffiles_text(plan@),
{
    let config = plan.config_files();
    let ghost entries = config_entries(plan@.files);
    assert(views(config@).len() == config@.len());
    if config.len() == 0 {
        return None;
    }
    let ghost all = entries.map_values(|f: PlannedFileView| f.destination);
    let mut out: Vec<String> = Vec::new();
    let mut i: usize = 0;
    assert(views(out@) =~= all.take(0));
    while i < config.len()
        invariant
            i <= config@.len(),
            views(config@) == entries,
            all == entries.map_values(|f: PlannedFileView| f.destination),
            views(out@) == all.take(i as int),
        decreases config@.len() - i,
    {
        let line = config[i].destination.as_str().to_owned();
        proof {
            assert(entries[i as int] == config@[i as int]@);
            assert(line@ == all[i as int]);
            views_push(out@, line);
            assert(all.take(i + 1) =~= all.take(i as int).push(line@));
        }
        out.push(line);
        i = i + 1;
    }
    assert(all.take(i as int) =~= all);
    Some(end_lines(&out))
}

pub open spec fn text_member(name: Seq<char>, text: Seq<char>) -> ControlMemberView {
    ControlMemberView { name, bytes: encode_utf8(text), mode: 0o644 }
}

/// The members of `control.tar`, in order.
pub open spec fn control_members(
    p: BuildPlanView,
    options: OptionsView,
    digests: Map<Seq<char>, Seq<char>>,
) -> Seq<ControlMemberView> {
    seq![
        text_member("control"@, unlines(control_lines(p, options.section))),
        text_member("md5sums"@, unlines(md5_lines(digests))),
    ] + (match conffiles_text(p) {
        Some(text) => seq![text_member("conffiles"@, text)],
        None => Seq::empty(),
    }) + options.maintainer_scripts.map_values(
        |s: MaintainerScriptView| ControlMemberView { name: s.name, bytes: s.bytes, mode: 0o755 },
    ) + (match options.triggers {
        Some(bytes) => seq![ControlMemberView { name: "triggers"@, bytes, mode: 0o644 }],
        None => Seq::empty(),
    })
}

fn new_text(name: &str, text: &str) -> (m: ControlMember)
    ensures
        m@ == text_member(name@, text@),
{
    ControlMember { name: name.to_owned(), bytes: text.as_bytes_vec(), mode: 0o644 }
}

/// Gathers the members of `control.tar`, in order.
pub fn gather_control(plan: &BuildPlan, options: &Options, digests: &TextMap) -> (r: Vec<
    ControlMember,
>)
    ensures
        views(r@) == control_members(plan@, options@, digests@),
{
    let section = match &options.section {
        Some(name) => Some(name.as_str()),
        None => None,
    };
    let control_text = control::render(plan, section);
    let md5sums = render_md5sums(digests);
    let mut r: Vec<ControlMember> = Vec::new();
    r.push(new_text("control", control_text.as_str()));
    r.push(new_text("md5sums", md5sums.as_str()));
    match render_conffiles(plan) {
        Some(text) => {
            r.push(new_text("conffiles", text.as_str()));
        },
        None => {},
    }
    let ghost head = views(r@);
    assert(head =~= seq![
        text_member("control"@, unlines(control_lines(plan@, options@.section))),
        text_member("md5sums"@, unlines(md5_lines(digests@))),
    ] + (match conffiles_text(plan@) {
        Some(text) => seq![text_member("conffiles"@, text)],
        None => Seq::empty(),
    }));
    let ghost scripts = options@.maintainer_scripts.map_values(
        |s: MaintainerScriptView| ControlMemberView { name: s.name, bytes: s.bytes, mode: 0o755 },
    );
    let mut i: usize = 0;
    assert(views(r@) =~= head + scripts.take(0));
    while i < options.maintainer_scripts.len()
        invariant
            i <= options.maintainer_scripts@.len(),
            scripts == options@.maintainer_scripts.map_values(
                |s: MaintainerScriptView|
                    ControlMemberView { name: s.name, bytes: s.bytes, mode: 0o755 },
            ),
            views(r@) == head + scripts.take(i as int),
        decreases options.maintainer_scripts@.len() - i,
    {
        let script = &options.maintainer_scripts[i];
        let member = ControlMember {
            name: script.name.clone(),
            bytes: copy_bytes(&script.bytes),
            mode: 0o755,
        };
        proof {
            assert(options@.maintainer_scripts[i as int] == script@);
            assert(member@ == scripts[i as int]);
            views_push(r@, member);
            assert(head + scripts.take(i + 1) =~= (head + scripts.take(i as int)).push(member@));
        }
        r.push(member);
        i = i + 1;
    }
    assert(scripts.take(i as int) =~= scripts);
    match &options.triggers {
        Some(bytes) => {
            r.push(
                ControlMember {
                    name: "triggers".to_owned(),
                    bytes: copy_bytes(bytes),
                    mode: 0o644,
                },
            );
        },
        None => {},
    }
    assert(views(r@) =~= control_members(plan@, options@, digests@));
    r
}

// ---- the container ------------------------------------------------------------------------

/// A container member with the metadata `dpkg-deb` writes.
pub open spec fn container_member(name: Seq<char>, bytes: Seq<u8>, mtime: u64) -> ArMemberView {
    ArMemberView { name, mode: AR_MEMBER_MODE, mtime, uid: 0, gid: 0, bytes }
}

/// The three members of a package, in order.
pub open spec fn container_members(
    compression: Compression,
    control: Seq<u8>,
    data: Seq<u8>,
    mtime: u64,
) -> Seq<ArMemberView> {
    seq![
        container_member("debian-binary"@, encode_utf8(DEBIAN_BINARY@), mtime),
        container_member(compression.named_member("control"@), control, mtime),
        container_member(compression.named_member("data"@), data, mtime),
    ]
}

/// Appends one `ar` member with the metadata `dpkg-deb` writes.
fn append_member(builder: &mut ArWriter, name: String, bytes: Vec<u8>, mtime: u64) -> (r: Result<()>)
    ensures
        r is Ok,
        ar_members(*final(builder)) == ar_members(*old(builder)).push(
            container_member(name@, bytes@, mtime),
        ),
{
    let member = ArMember { name, mode: AR_MEMBER_MODE, mtime, uid: 0, gid: 0, bytes };
    match builder.append(&member) {
        Ok(_) => Ok(()),
        Err(e) => {
            let mut m = "could not add ar member `".to_owned();
            m.append(member.name.as_str());
            m.append("`");
            Err(Error::archive(m, &e))
        },
    }
}

/// Assembles a package from its two compressed tarballs.
pub fn assemble(
    compression: Compression,
    control: Vec<u8>,
    data: Vec<u8>,
    mtime: u64,
) -> (r: Result<Vec<u8>>)
    ensures
        r is Ok,
        r->Ok_0@ == ar_image(container_members(compression, control@, data@, mtime)),
        ar_reads_back(container_members(compression, control@, data@, mtime), r->Ok_0@),
{
    let mut container = ArWriter::new();
    let version = DEBIAN_BINARY.as_bytes_vec();
    let ghost expected = container_members(compression, control@, data@, mtime);
    match append_member(&mut container, "debian-binary".to_owned(), version, mtime) {
        Err(e) => {
            return Err(e);
        },
        Ok(_) => {},
    }
    match append_member(&mut container, compression.member_name("control"), control, mtime) {
        Err(e) => {
            return Err(e);
        },
        Ok(_) => {},
    }
    match append_member(&mut container, compression.member_name("data"), data, mtime) {
        Err(e) => {
            return Err(e);
        },
        Ok(_) => {},
    }
    assert(ar_members(container) =~= expected);
    match container.finish() {
        Err(e) => Err(Error::archive("could not finish the ar container".to_owned(), &e)),
        Ok(image) => Ok(image),
    }
}

/// A plan with the list of entries it is completed to.
pub open spec fn with_files(p: BuildPlanView, files: Seq<PlannedFileView>) -> BuildPlanView {
    BuildPlanView { files: completed(files), ..p }
}

/// The container members of a documented plan.
pub open spec fn package_members(
    p: BuildPlanView,
    options: OptionsView,
    sources: Map<Seq<char>, core::result::Result<Seq<u8>, Seq<char>>>,
) -> core::result::Result<Seq<ArMemberView>, ErrorView> {
    match data_members(p, sources) {
        Err(e) => Err(e),
        Ok(data) => match control_added(control_members(p, options, data.1), p.timestamp) {
            Err(e) => Err(e),
            Ok(control) => match (
                options.compression.compressing(tar_image(data.0)),
                options.compression.compressing(tar_image(control)),
            ) {
                (Ok(payload), Ok(metadata)) => Ok(
                    container_members(options.compression, metadata, payload, p.timestamp),
                ),
                _ => Err(compression_failure()),
            },
        },
    }
}

/// `image` is the container of a documented plan, and every layer of it reads back: the
/// container, the two compressed members and the two tarballs in them.
pub open spec fn stored(
    p: BuildPlanView,
    options: OptionsView,
    sources: Map<Seq<char>, core::result::Result<Seq<u8>, Seq<char>>>,
    image: Seq<u8>,
) -> bool {
    let c = options.compression;
    let data = data_members(p, sources);
    let control = control_added(control_members(p, options, data->Ok_0.1), p.timestamp);
    &&& data is Ok
    &&& control is Ok
    &&& package_members(p, options, sources) is Ok
    &&& image == ar_image(package_members(p, options, sources)->Ok_0)
    &&& ar_reads_back(package_members(p, options, sources)->Ok_0, image)
    &&& reads_back(control->Ok_0, tar_image(control->Ok_0))
    &&& reads_back(data->Ok_0.0, tar_image(data->Ok_0.0))
    &&& c.decompressed(c.compressed(tar_image(control->Ok_0))) == Some(tar_image(control->Ok_0))
    &&& c.decompressed(c.compressed(tar_image(data->Ok_0.0))) == Some(tar_image(data->Ok_0.0))
}

/// What writing a package comes to: the container of its members, or the first thing that
/// stands in its way.
pub open spec fn packages(
    p: BuildPlanView,
    options: OptionsView,
    sources: Map<Seq<char>, core::result::Result<Seq<u8>, Seq<char>>>,
    r: core::result::Result<Seq<u8>, ErrorView>,
) -> bool {
    match doc_entries(p) {
        Err(e) => r == Err::<Seq<u8>, ErrorView>(e),
        Ok(docs) => if !plannable(p.files + docs) {
            r is Err && r->Err_0 is Core && unplannable(p.files + docs, r->Err_0->Core_0)
        } else {
            match package_members(with_files(p, p.files + docs), options, sources) {
                Err(e) => r == Err::<Seq<u8>, ErrorView>(e),
                Ok(members) => r == Ok::<Seq<u8>, ErrorView>(ar_image(members)),
            }
        },
    }
}

/// A plan with the documentation policy requires.
pub fn with_documentation(plan: &BuildPlan) -> (r: Result<BuildPlan>)
    ensures
        match r {
            Ok(p) => {
                &&& doc_entries(plan@) is Ok
                &&& plannable(plan@.files + doc_entries(plan@)->Ok_0)
                &&& p@ == with_files(plan@, plan@.files + doc_entries(plan@)->Ok_0)
            },
            Err(e) => {
                ||| doc_entries(plan@) == Err::<Seq<PlannedFileView>, ErrorView>(e@)
                ||| doc_entries(plan@) is Ok && !plannable(
                    plan@.files + doc_entries(plan@)->Ok_0,
                ) && e@ is Core && unplannable(
                    plan@.files + doc_entries(plan@)->Ok_0,
                    e@->Core_0,
                )
            },
        },
{
    let docs = match docs::entries(plan) {
        Err(e) => {
            return Err(e);
        },
        Ok(files) => files,
    };
    let ghost added = views(docs@);
    let mut files = copy_files(&plan.files);
    assert(views(files@) =~= plan@.files + added.take(0));
    for file in it: docs
        invariant
            it.seq() == docs@,
            added == views(docs@),
            views(files@) == plan@.files + added.take(it.index() as int),
    {
        let ghost at = it.index() as int;
        proof {
            views_push(files@, file);
            assert(file@ == added[at]);
            assert(plan@.files + added.take(at + 1) =~= (plan@.files + added.take(at)).push(
                added[at],
            ));
        }
        files.push(file);
    }
    assert(added.take(added.len() as int) =~= added);
    let ghost all = views(files@);
    match BuildPlan::new(plan.identity.clone(), files, plan.timestamp, plan.metadata.clone()) {
        Err(e) => Err(Error::Core(e)),
        Ok(p) => {
            proof {
                completed_is(all, p@.files);
            }
            Ok(p)
        },
    }
}

/// Builds the package in memory. `sources` holds what was read of the files the plan copies.
///
/// `md5sums`, which lives in the control member and precedes the data member in the container,
/// needs every digest, so the payload is written first.
pub fn build_bytes(plan: &BuildPlan, options: &Options, sources: &Sources) -> (r: Result<Vec<u8>>)
    ensures
        packages(plan@, options@, sources@, settled(r)),
        r is Ok ==> doc_entries(plan@) is Ok && stored(
            with_files(plan@, plan@.files + doc_entries(plan@)->Ok_0),
            options@,
            sources@,
            r->Ok_0@,
        ),
{
    let plan = match with_documentation(plan) {
        Err(e) => {
            return Err(e);
        },
        Ok(p) => p,
    };
    let compression = options.compression;
    let mtime = plan.timestamp.as_secs();
    let (data_tar, digests) = match write_data_archive(&plan, sources) {
        Err(e) => {
            return Err(e);
        },
        Ok(found) => found,
    };
    let members = gather_control(&plan, options, &digests);
    let control_tar = match control_archive(&members, mtime) {
        Err(e) => {
            return Err(e);
        },
        Ok(image) => image,
    };
    let data_member = match compression.compress(&data_tar) {
        Err(e) => {
            return Err(e);
        },
        Ok(bytes) => bytes,
    };
    let control_member = match compression.compress(&control_tar) {
        Err(e) => {
            return Err(e);
        },
        Ok(bytes) => bytes,
    };
    assemble(compression, control_member, data_member, mtime)
}

/// Two builds of one plan from the same bytes are identical.
pub proof fn builds_are_reproducible(
    p: BuildPlanView,
    options: OptionsView,
    sources: Map<Seq<char>, core::result::Result<Seq<u8>, Seq<char>>>,
    first: Seq<u8>,
    second: Seq<u8>,
)
    requires
        packages(p, options, sources, Ok(first)),
        packages(p, options, sources, Ok(second)),
    ensures
        first == second,
{
}

/// A Debian package is named after its base name, its version and its architecture.
pub proof fn a_package_is_named_after_its_version(base: Seq<char>, p: BuildPlanView)
    ensures
        named_file(base, p) == base + "_"@ + p.identity.version_deb + "_"@
            + p.identity.architecture.deb_spelling() + ".deb"@,
        package_file(p) == named_file(p.identity.package_name, p),
{
}

/// The sums are listed path by path, in order, each with its own digest, and none is left out.
pub proof fn every_digest_is_listed(digests: Map<Seq<char>, Seq<char>>, path: Seq<char>)
    requires
        digests.dom().finite(),
        lists(sorted_members(digests.dom()), digests.dom()),
    ensures
        digests.dom().contains(path) ==> md5_lines(digests).contains(
            digests[path] + "  "@ + path,
        ),
        md5_lines(digests).len() == sorted_members(digests.dom()).len(),
{
    let paths = sorted_members(digests.dom());
    if digests.dom().contains(path) {
        assert(paths.contains(path));
        let i = paths.index_of(path);
        assert(md5_lines(digests)[i] == digests[path] + "  "@ + path);
    }
}

/// Each configuration file is listed as one, by its destination, and there is no list where there
/// is none.
pub proof fn every_configuration_file_is_listed(p: BuildPlanView, f: PlannedFileView)
    ensures
        p.files.contains(f) && f.is_config ==> conffiles_text(p) is Some && exists|
            lines: Seq<Seq<char>>,
        |
            conffiles_text(p) == Some(#[trigger] unlines(lines)) && lines.contains(f.destination),
        (forall|i: int| 0 <= i < p.files.len() ==> !(#[trigger] p.files[i]).is_config)
            ==> conffiles_text(p) is None,
{
    let config = config_entries(p.files);
    configuration_files_are_the_marked_ones(p.files, Seq::empty(), f);
    if p.files.contains(f) && f.is_config {
        let i = config.index_of(f);
        let lines = config.map_values(|g: PlannedFileView| g.destination);
        assert(lines[i] == f.destination);
        assert(conffiles_text(p) == Some(unlines(lines)));
    }
    if forall|i: int| 0 <= i < p.files.len() ==> !(#[trigger] p.files[i]).is_config {
        if config.len() > 0 {
            let g = config[0];
            configuration_files_are_the_marked_ones(p.files, Seq::empty(), g);
            assert(config.contains(g));
            let k = p.files.index_of(g);
            assert(p.files[k] == g);
        }
    }
}

/// The container opens with the version of its format, then holds the metadata, then the payload.
pub proof fn a_container_holds_its_members_in_order(
    compression: Compression,
    control: Seq<u8>,
    data: Seq<u8>,
    mtime: u64,
)
    ensures
        ({
            let members = container_members(compression, control, data, mtime);
            &&& members.len() == 3
            &&& members[0].name == "debian-binary"@ && members[0].bytes == encode_utf8("2.0\n"@)
            &&& members[1].name == compression.named_member("control"@) && members[1].bytes
                == control
            &&& members[2].name == compression.named_member("data"@) && members[2].bytes == data
            &&& forall|i: int|
                0 <= i < 3 ==> (#[trigger] members[i]).mtime == mtime && members[i].uid == 0
                    && members[i].gid == 0 && members[i].mode == 0o100_644
        }),
{
}

/// Every maintainer script is executable metadata under its own name, and the triggers file is
/// there exactly where one is given.
pub proof fn every_script_is_metadata(
    p: BuildPlanView,
    options: OptionsView,
    digests: Map<Seq<char>, Seq<char>>,
    k: int,
)
    ensures
        ({
            let members = control_members(p, options, digests);
            &&& members[0].name == "control"@ && members[0].mode == 0o644
            &&& members[1].name == "md5sums"@ && members[1].mode == 0o644
            &&& 0 <= k < options.maintainer_scripts.len() ==> members.contains(
                ControlMemberView {
                    name: options.maintainer_scripts[k].name,
                    bytes: options.maintainer_scripts[k].bytes,
                    mode: 0o755,
                },
            )
            &&& options.triggers matches Some(bytes) ==> members.last() == (ControlMemberView {
                name: "triggers"@,
                bytes,
                mode: 0o644,
            })
        }),
{
    let members = control_members(p, options, digests);
    let before = 2 + (if conffiles_text(p) is Some {
        1int
    } else {
        0
    });
    if 0 <= k < options.maintainer_scripts.len() {
        assert(members[before + k] == (ControlMemberView {
            name: options.maintainer_scripts[k].name,
            bytes: options.maintainer_scripts[k].bytes,
            mode: 0o755,
        }));
    }
}

/// A package holds its documentation beside all that was planned: its bytes are those of a plan
/// with every entry of both.
pub proof fn a_package_holds_its_documentation(
    p: BuildPlanView,
    options: OptionsView,
    sources: Map<Seq<char>, core::result::Result<Seq<u8>, Seq<char>>>,
    image: Seq<u8>,
    out: Seq<PlannedFileView>,
    i: int,
)
    requires
        packages(p, options, sources, Ok(image)),
        completes(p.files + doc_entries(p)->Ok_0, out),
    ensures
        doc_entries(p) is Ok,
        package_members(BuildPlanView { files: out, ..p }, options, sources) matches Ok(members)
            && image == ar_image(members),
        out.contains(doc_entries(p)->Ok_0[0]),
        out.contains(doc_entries(p)->Ok_0[1]),
        0 <= i < p.files.len() ==> out.contains(p.files[i]),
{
    let docs = doc_entries(p)->Ok_0;
    let all = p.files + docs;
    completed_is(all, out);
    assert(docs.len() == 2);
    assert(all[p.files.len() as int] == docs[0]);
    assert(all[p.files.len() as int + 1] == docs[1]);
    assert(all.contains(docs[0]) && all.contains(docs[1]));
    if 0 <= i < p.files.len() {
        assert(all[i] == p.files[i]);
        assert(all.contains(p.files[i]));
    }
}

/// The digest of a packaged file is the MD5 sum of its bytes.
pub proof fn digests_are_md5_sums(
    p: BuildPlanView,
    sources: Map<Seq<char>, core::result::Result<Seq<u8>, Seq<char>>>,
    k: int,
)
    requires
        data_members(p, sources) is Ok,
        0 <= k < p.files.len(),
        p.files[k].kind is Regular,
        forall|j: int|
            k < j < p.files.len() ==> (#[trigger] p.files[j]).destination.skip(1)
                != p.files[k].destination.skip(1),
    ensures
        data_members(p, sources)->Ok_0.1[p.files[k].destination.skip(1)] == hex_bytes(
            md5_of(packaged_bytes(p.files[k], sources)),
        ),
{
    let n = p.files.len() as int;
    let path = relative(p.files[k].destination);
    assert forall|j: int| k < j < n implies relative((#[trigger] p.files[j]).destination)
        != path by {
        assert(p.files[j].destination.skip(1) != path);
    }
    digests_are_of_the_bytes(p.files, sources, p.timestamp, md5_digest(), k, n);
}

} // verus!
