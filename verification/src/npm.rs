//! The npm side of the input: the shape of a Node.js project's `package.json` and the settings
//! the tool reads.
//!
//! Everything ecosystem-specific about the input lives here. The rest of the crate works from
//! the format-agnostic plan these produce.

use vstd::prelude::*;

use crate::distance::{edits, nearest, nearest_is_nearest, nearest_name};
use crate::error::opt;
use crate::plan::copy_text;
use crate::strings::{
    bare, chars_of, contains_char, is_word, same, string_of, strip_end, stripped_end, trim,
    trimmed, trimming_takes_the_blanks, views, views_push, words, words_append, words_of,
    words_of_word,
};
use crate::strmap::StrMap;

verus! {

/// The `author` field: either `"Name <email>"` or `{name, email}`.
#[derive(Debug)]
pub enum Author {
    Text(String),
    Structured { name: String, email: Option<String> },
}

pub enum AuthorView {
    Text(Seq<char>),
    Structured { name: Seq<char>, email: Option<Seq<char>> },
}

impl View for Author {
    type V = AuthorView;

    open spec fn view(&self) -> AuthorView {
        match *self {
            Author::Text(s) => AuthorView::Text(s@),
            Author::Structured { name, email } => AuthorView::Structured {
                name: name@,
                email: opt(email),
            },
        }
    }
}

impl AuthorView {
    /// The author as a maintainer field: `Name <email>`, or what there is of it.
    pub open spec fn maintainer(self) -> Seq<char> {
        match self {
            AuthorView::Text(s) => s,
            AuthorView::Structured { name, email } => match email {
                Some(email) => name + " <"@ + email + ">"@,
                None => name,
            },
        }
    }
}

impl Author {
    /// Renders the author as a Debian/RPM maintainer field.
    pub fn to_maintainer(&self) -> (s: String)
        ensures
            s@ == self@.maintainer(),
    {
        match self {
            Author::Text(s) => s.clone(),
            Author::Structured { name, email } => match email {
                Some(email) => {
                    let mut s = name.clone();
                    s.append(" <");
                    s.append(email.as_str());
                    s.append(">");
                    s
                },
                None => name.clone(),
            },
        }
    }
}

/// The `workspaces` field: a list of patterns, or the Yarn-style `{ packages: [...] }`.
#[derive(Debug)]
pub enum Workspaces {
    Patterns(Vec<String>),
    Object { packages: Vec<String> },
}

pub enum WorkspacesView {
    Patterns(Seq<Seq<char>>),
    Object { packages: Seq<Seq<char>> },
}

impl View for Workspaces {
    type V = WorkspacesView;

    open spec fn view(&self) -> WorkspacesView {
        match *self {
            Workspaces::Patterns(p) => WorkspacesView::Patterns(views(p@)),
            Workspaces::Object { packages } => WorkspacesView::Object {
                packages: views(packages@),
            },
        }
    }
}

/// The characters that start a glob.
pub open spec fn glob_character(c: char) -> bool {
    c == '*' || c == '?' || c == '[' || c == '{'
}

/// `s` up to its first glob character.
pub open spec fn before_glob(s: Seq<char>) -> Seq<char>
    decreases s.len(),
{
    if s.len() == 0 || glob_character(s[0]) {
        Seq::empty()
    } else {
        seq![s[0]] + before_glob(s.drop_first())
    }
}

/// The directory a pattern starts from.
pub open spec fn pattern_prefix(pattern: Seq<char>) -> Seq<char> {
    trimmed(stripped_end(before_glob(pattern), '/'))
}

/// The directories the patterns start from, the project root left out.
pub open spec fn prefixes(patterns: Seq<Seq<char>>) -> Seq<Seq<char>>
    decreases patterns.len(),
{
    if patterns.len() == 0 {
        Seq::empty()
    } else {
        let init = prefixes(patterns.drop_last());
        let p = pattern_prefix(patterns.last());
        if p.len() == 0 || p == "."@ {
            init
        } else {
            init.push(p)
        }
    }
}

impl WorkspacesView {
    pub open spec fn patterns(self) -> Seq<Seq<char>> {
        match self {
            WorkspacesView::Patterns(p) => p,
            WorkspacesView::Object { packages } => packages,
        }
    }
}

fn cut_at_glob(pattern: &str) -> (r: String)
    ensures
        r@ == before_glob(pattern@),
{
    let v = chars_of(pattern);
    let mut i: usize = 0;
    assert(v@.skip(0) =~= pattern@);
    assert(v@.take(0) + before_glob(pattern@) =~= before_glob(pattern@));
    while i < v.len() && !(v[i] == '*' || v[i] == '?' || v[i] == '[' || v[i] == '{')
        invariant
            i <= v@.len(),
            before_glob(pattern@) == v@.take(i as int) + before_glob(v@.skip(i as int)),
        decreases v@.len() - i,
    {
        proof {
            assert(v@.skip(i as int).drop_first() =~= v@.skip(i + 1));
            assert(v@.take(i as int) + (seq![v@[i as int]] + before_glob(v@.skip(i + 1)))
                =~= v@.take(i + 1) + before_glob(v@.skip(i + 1)));
        }
        i = i + 1;
    }
    assert(before_glob(v@.skip(i as int)) =~= Seq::empty());
    assert(v@.take(i as int) + Seq::<char>::empty() =~= v@.subrange(0, i as int));
    string_of(&v, 0, i)
}

impl Workspaces {
    pub fn patterns(&self) -> (p: &Vec<String>)
        ensures
            views(p@) == self@.patterns(),
    {
        match self {
            Workspaces::Patterns(p) => p,
            Workspaces::Object { packages } => packages,
        }
    }

    /// Directory prefixes with any glob suffix removed: `packages/*` yields `packages`. A
    /// pattern for the project root itself (`*`) is dropped: admitting the root is the
    /// reach-through this exists to prevent.
    pub fn directory_prefixes(&self) -> (r: Vec<String>)
        ensures
            views(r@) == prefixes(self@.patterns()),
    {
        let patterns = self.patterns();
        let ghost all = views(patterns@);
        let mut out: Vec<String> = Vec::new();
        let mut i: usize = 0;
        assert(views(out@) =~= prefixes(all.take(0)));
        while i < patterns.len()
            invariant
                i <= patterns@.len(),
                all == views(patterns@),
                views(out@) == prefixes(all.take(i as int)),
            decreases patterns@.len() - i,
        {
            proof {
                assert(all.take(i + 1).drop_last() =~= all.take(i as int));
                assert(all.take(i + 1).last() == patterns@[i as int]@);
            }
            let cut = cut_at_glob(patterns[i].as_str());
            let bare = strip_end(cut.as_str(), '/');
            let prefix = trim(bare.as_str());
            if !prefix.as_str().is_empty() && !same(prefix.as_str(), ".") {
                proof {
                    views_push(out@, prefix);
                }
                out.push(prefix);
            }
            i = i + 1;
        }
        assert(all.take(i as int) =~= all);
        out
    }
}

/// Which init system the generated package integrates with.
#[derive(Debug, Clone, Copy, PartialEq, Eq, Structural)]
pub enum InitSystem {
    /// Detect at install time. The historical default.
    Auto,
    Upstart,
    Systemd,
    Sysv,
    /// No service integration at all; spelled `none`.
    NoInit,
}

impl Default for InitSystem {
    fn default() -> (i: Self)
        ensures
            i == InitSystem::Auto,
    {
        InitSystem::Auto
    }
}

impl InitSystem {
    pub open spec fn spelling(self) -> Seq<char> {
        match self {
            InitSystem::Auto => "auto"@,
            InitSystem::Upstart => "upstart"@,
            InitSystem::Systemd => "systemd"@,
            InitSystem::Sysv => "sysv"@,
            InitSystem::NoInit => "none"@,
        }
    }

    /// As manifests and templates spell it.
    pub fn name(self) -> (s: &'static str)
        ensures
            s@ == self.spelling(),
    {
        match self {
            InitSystem::Auto => "auto",
            InitSystem::Upstart => "upstart",
            InitSystem::Systemd => "systemd",
            InitSystem::Sysv => "sysv",
            InitSystem::NoInit => "none",
        }
    }
}

impl InitSystem {
    /// Whether a package built for this choice serves `wanted`. `auto` fans out to every init
    /// system a backend composes by default.
    pub open spec fn serves(self, wanted: InitSystem) -> bool {
        self is Auto || self == wanted
    }

    /// Whether a package built for this choice serves `wanted`.
    pub fn uses(self, wanted: InitSystem) -> (b: bool)
        ensures
            b == self.serves(wanted),
    {
        self == InitSystem::Auto || self == wanted
    }
}

/// How runtime dependencies reach the installed package.
#[derive(Debug, Clone, Copy, PartialEq, Eq, Structural)]
pub enum InstallStrategy {
    /// Vendor `node_modules` when present, otherwise install at unpack time.
    Auto,
    /// Vendor `node_modules` at build time.
    Copy,
    /// Install from the registry at package install time.
    NpmInstall,
}

impl Default for InstallStrategy {
    fn default() -> (s: Self)
        ensures
            s == InstallStrategy::Auto,
    {
        InstallStrategy::Auto
    }
}

impl InstallStrategy {
    pub open spec fn spelling(self) -> Seq<char> {
        match self {
            InstallStrategy::Auto => "auto"@,
            InstallStrategy::Copy => "copy"@,
            InstallStrategy::NpmInstall => "npm-install"@,
        }
    }

    /// As manifests and templates spell it.
    pub fn name(self) -> (s: &'static str)
        ensures
            s@ == self.spelling(),
    {
        match self {
            InstallStrategy::Auto => "auto",
            InstallStrategy::Copy => "copy",
            InstallStrategy::NpmInstall => "npm-install",
        }
    }
}

/// Entry points into the packaged application.
#[derive(Debug)]
pub struct Entrypoints {
    /// Run by the service unit.
    pub daemon: Option<String>,
    /// Run by the `/usr/bin` wrapper. Defaults to the daemon entrypoint.
    pub cli: Option<String>,
}

pub struct EntrypointsView {
    pub daemon: Option<Seq<char>>,
    pub cli: Option<Seq<char>>,
}

impl View for Entrypoints {
    type V = EntrypointsView;

    open spec fn view(&self) -> EntrypointsView {
        EntrypointsView { daemon: opt(self.daemon), cli: opt(self.cli) }
    }
}

/// User-supplied template overrides, each a path to a replacement template.
#[derive(Debug)]
pub struct Templates {
    pub control: Option<String>,
    pub executable: Option<String>,
    pub preinst: Option<String>,
    pub postinst: Option<String>,
    pub postrm: Option<String>,
    pub prerm: Option<String>,
    pub systemd_service: Option<String>,
    pub upstart_conf: Option<String>,
    pub sysv_init: Option<String>,
    pub default_variables: Option<String>,
}

pub struct TemplatesView {
    pub control: Option<Seq<char>>,
    pub executable: Option<Seq<char>>,
    pub preinst: Option<Seq<char>>,
    pub postinst: Option<Seq<char>>,
    pub postrm: Option<Seq<char>>,
    pub prerm: Option<Seq<char>>,
    pub systemd_service: Option<Seq<char>>,
    pub upstart_conf: Option<Seq<char>>,
    pub sysv_init: Option<Seq<char>>,
    pub default_variables: Option<Seq<char>>,
}

impl View for Templates {
    type V = TemplatesView;

    open spec fn view(&self) -> TemplatesView {
        TemplatesView {
            control: opt(self.control),
            executable: opt(self.executable),
            preinst: opt(self.preinst),
            postinst: opt(self.postinst),
            postrm: opt(self.postrm),
            prerm: opt(self.prerm),
            systemd_service: opt(self.systemd_service),
            upstart_conf: opt(self.upstart_conf),
            sysv_init: opt(self.sysv_init),
            default_variables: opt(self.default_variables),
        }
    }
}

impl TemplatesView {
    /// No override at all.
    pub open spec fn none() -> Self {
        TemplatesView {
            control: None,
            executable: None,
            preinst: None,
            postinst: None,
            postrm: None,
            prerm: None,
            systemd_service: None,
            upstart_conf: None,
            sysv_init: None,
            default_variables: None,
        }
    }
}

impl Default for Templates {
    fn default() -> (t: Self)
        ensures
            t@ == TemplatesView::none(),
    {
        Templates {
            control: None,
            executable: None,
            preinst: None,
            postinst: None,
            postrm: None,
            prerm: None,
            systemd_service: None,
            upstart_conf: None,
            sysv_init: None,
            default_variables: None,
        }
    }
}

impl Clone for Templates {
    fn clone(&self) -> (r: Self)
        ensures
            r@ == self@,
    {
        Templates {
            control: copy_text(&self.control),
            executable: copy_text(&self.executable),
            preinst: copy_text(&self.preinst),
            postinst: copy_text(&self.postinst),
            postrm: copy_text(&self.postrm),
            prerm: copy_text(&self.prerm),
            systemd_service: copy_text(&self.systemd_service),
            upstart_conf: copy_text(&self.upstart_conf),
            sysv_init: copy_text(&self.sysv_init),
            default_variables: copy_text(&self.default_variables),
        }
    }
}

/// Every key the settings object accepts.
pub open spec fn setting_names() -> Seq<Seq<char>> {
    seq![
        "package_name"@,
        "version"@,
        "epoch"@,
        "description"@,
        "maintainer"@,
        "homepage"@,
        "license"@,
        "architecture"@,
        "dependencies"@,
        "install_dir"@,
        "user"@,
        "group"@,
        "executable_name"@,
        "output_deb_name"@,
        "extra_files"@,
        "triggers_file"@,
        "init"@,
        "install_strategy"@,
        "install_command"@,
        "install_binary"@,
        "entrypoints"@,
        "templates"@,
    ]
}

/// Every key the settings object accepts; what `--list-json-overrides` prints.
pub fn setting_keys() -> (keys: Vec<&'static str>)
    ensures
        views(keys@) == setting_names(),
{
    let keys: Vec<&'static str> = vec![
        "package_name",
        "version",
        "epoch",
        "description",
        "maintainer",
        "homepage",
        "license",
        "architecture",
        "dependencies",
        "install_dir",
        "user",
        "group",
        "executable_name",
        "output_deb_name",
        "extra_files",
        "triggers_file",
        "init",
        "install_strategy",
        "install_command",
        "install_binary",
        "entrypoints",
        "templates",
    ];
    assert(views(keys@) =~= setting_names());
    keys
}

/// The settings object. Every field is optional: this is one layer in a precedence chain.
#[derive(Debug)]
pub struct Settings {
    pub package_name: Option<String>,
    pub version: Option<String>,
    /// For when a version scheme change breaks ordering.
    pub epoch: Option<u32>,
    pub description: Option<String>,
    pub maintainer: Option<String>,
    pub homepage: Option<String>,
    pub license: Option<String>,
    pub architecture: Option<String>,
    pub dependencies: Option<String>,
    pub install_dir: Option<String>,
    pub user: Option<String>,
    pub group: Option<String>,
    pub executable_name: Option<String>,
    pub output_deb_name: Option<String>,
    /// Directory of files copied verbatim to the filesystem root.
    pub extra_files: Option<String>,
    /// A dpkg `triggers` control file, relative to the project root, shipped verbatim. Debian
    /// only; the other formats ignore it.
    pub triggers_file: Option<String>,
    pub init: Option<InitSystem>,
    pub install_strategy: Option<InstallStrategy>,
    /// Overrides the install-at-unpack command; otherwise the detected manager decides.
    pub install_command: Option<String>,
    /// Overrides the binary the install command is guarded on; otherwise derived.
    pub install_binary: Option<String>,
    pub entrypoints: Option<Entrypoints>,
    pub templates: Option<Templates>,
    /// Keys that are not settings, kept so a typo (`instal_dir`) is reported instead of
    /// silently ignored.
    pub unknown: StrMap<()>,
}

pub struct SettingsView {
    pub package_name: Option<Seq<char>>,
    pub version: Option<Seq<char>>,
    pub epoch: Option<u32>,
    pub description: Option<Seq<char>>,
    pub maintainer: Option<Seq<char>>,
    pub homepage: Option<Seq<char>>,
    pub license: Option<Seq<char>>,
    pub architecture: Option<Seq<char>>,
    pub dependencies: Option<Seq<char>>,
    pub install_dir: Option<Seq<char>>,
    pub user: Option<Seq<char>>,
    pub group: Option<Seq<char>>,
    pub executable_name: Option<Seq<char>>,
    pub output_deb_name: Option<Seq<char>>,
    pub extra_files: Option<Seq<char>>,
    pub triggers_file: Option<Seq<char>>,
    pub init: Option<InitSystem>,
    pub install_strategy: Option<InstallStrategy>,
    pub install_command: Option<Seq<char>>,
    pub install_binary: Option<Seq<char>>,
    pub entrypoints: Option<EntrypointsView>,
    pub templates: Option<TemplatesView>,
    pub unknown: Seq<Seq<char>>,
}

impl View for Settings {
    type V = SettingsView;

    open spec fn view(&self) -> SettingsView {
        SettingsView {
            package_name: opt(self.package_name),
            version: opt(self.version),
            epoch: self.epoch,
            description: opt(self.description),
            maintainer: opt(self.maintainer),
            homepage: opt(self.homepage),
            license: opt(self.license),
            architecture: opt(self.architecture),
            dependencies: opt(self.dependencies),
            install_dir: opt(self.install_dir),
            user: opt(self.user),
            group: opt(self.group),
            executable_name: opt(self.executable_name),
            output_deb_name: opt(self.output_deb_name),
            extra_files: opt(self.extra_files),
            triggers_file: opt(self.triggers_file),
            init: self.init,
            install_strategy: self.install_strategy,
            install_command: opt(self.install_command),
            install_binary: opt(self.install_binary),
            entrypoints: opt(self.entrypoints),
            templates: opt(self.templates),
            unknown: self.unknown.keys(),
        }
    }
}

impl SettingsView {
    /// Nothing set at all.
    pub open spec fn none() -> Self {
        SettingsView {
            package_name: None,
            version: None,
            epoch: None,
            description: None,
            maintainer: None,
            homepage: None,
            license: None,
            architecture: None,
            dependencies: None,
            install_dir: None,
            user: None,
            group: None,
            executable_name: None,
            output_deb_name: None,
            extra_files: None,
            triggers_file: None,
            init: None,
            install_strategy: None,
            install_command: None,
            install_binary: None,
            entrypoints: None,
            templates: None,
            unknown: Seq::empty(),
        }
    }
}

impl Default for Settings {
    fn default() -> (s: Self)
        ensures
            s@ == SettingsView::none(),
    {
        Settings {
            package_name: None,
            version: None,
            epoch: None,
            description: None,
            maintainer: None,
            homepage: None,
            license: None,
            architecture: None,
            dependencies: None,
            install_dir: None,
            user: None,
            group: None,
            executable_name: None,
            output_deb_name: None,
            extra_files: None,
            triggers_file: None,
            init: None,
            install_strategy: None,
            install_command: None,
            install_binary: None,
            entrypoints: None,
            templates: None,
            unknown: StrMap::new(),
        }
    }
}

/// How far a suggestion may be from a key, by the key's length.
pub open spec fn suggestion_limit(key: Seq<char>) -> nat {
    if key.len() <= 4 {
        1
    } else if key.len() <= 8 {
        2
    } else {
        3
    }
}

/// The published setting closest to `key`, if one is close enough.
pub open spec fn suggested_setting(key: Seq<char>) -> Option<Seq<char>> {
    match nearest(setting_names(), key, suggestion_limit(key), setting_names().len() as int) {
        Some(k) => Some(setting_names()[k]),
        None => None,
    }
}

/// The published setting closest to `key`. Bounded so an unrelated key suggests nothing: a
/// wrong suggestion sends the reader looking in the wrong place.
fn nearest_setting(key: &str) -> (r: Option<&'static str>)
    ensures
        opt(r) == suggested_setting(key@),
{
    let length = chars_of(key).len();
    let limit: u128 = if length <= 4 {
        1
    } else if length <= 8 {
        2
    } else {
        3
    };
    let keys = setting_keys();
    match nearest_name(&keys, key, limit) {
        Some(k) => {
            assert(views(keys@)[k as int] == keys@[k as int]@);
            Some(keys[k])
        },
        None => None,
    }
}

impl Settings {
    /// Unknown keys, sorted, each with the nearest real key when one is close enough.
    pub fn unknown_keys(&self) -> (r: Vec<(String, Option<&'static str>)>)
        ensures
            r@.len() == self@.unknown.len(),
            forall|i: int|
                0 <= i < r@.len() ==> (#[trigger] r@[i]).0@ == self@.unknown[i] && opt(r@[i].1)
                    == suggested_setting(self@.unknown[i]),
    {
        let mut out: Vec<(String, Option<&'static str>)> = Vec::new();
        let count = self.unknown.len();
        let mut i: usize = 0;
        while i < count
            invariant
                i <= count,
                count == self.unknown.keys().len(),
                out@.len() == i,
                forall|j: int|
                    0 <= j < i ==> (#[trigger] out@[j]).0@ == self.unknown.keys()[j] && opt(
                        out@[j].1,
                    ) == suggested_setting(self.unknown.keys()[j]),
            decreases count - i,
        {
            let key = self.unknown.key_at(i);
            out.push((key.to_owned(), nearest_setting(key)));
            i = i + 1;
        }
        out
    }
}

/// A project manifest.
#[derive(Debug)]
pub struct Manifest {
    pub name: Option<String>,
    pub version: Option<String>,
    pub description: Option<String>,
    pub author: Option<Author>,
    /// The authority on which directories may be linked into `node_modules`; inferring
    /// "anything inside the project" would let an untrusted dependency reach arbitrary files.
    pub workspaces: Option<Workspaces>,
    pub homepage: Option<String>,
    pub license: Option<String>,
    pub nativepkg: Option<Settings>,
}

pub struct ManifestView {
    pub name: Option<Seq<char>>,
    pub version: Option<Seq<char>>,
    pub description: Option<Seq<char>>,
    pub author: Option<AuthorView>,
    pub workspaces: Option<WorkspacesView>,
    pub homepage: Option<Seq<char>>,
    pub license: Option<Seq<char>>,
    pub nativepkg: Option<SettingsView>,
}

impl View for Manifest {
    type V = ManifestView;

    open spec fn view(&self) -> ManifestView {
        ManifestView {
            name: opt(self.name),
            version: opt(self.version),
            description: opt(self.description),
            author: opt(self.author),
            workspaces: opt(self.workspaces),
            homepage: opt(self.homepage),
            license: opt(self.license),
            nativepkg: opt(self.nativepkg),
        }
    }
}

impl Default for Manifest {
    fn default() -> (m: Self)
        ensures
            m@ == (ManifestView {
                name: None,
                version: None,
                description: None,
                author: None,
                workspaces: None,
                homepage: None,
                license: None,
                nativepkg: None,
            }),
    {
        Manifest {
            name: None,
            version: None,
            description: None,
            author: None,
            workspaces: None,
            homepage: None,
            license: None,
            nativepkg: None,
        }
    }
}

/// The first word from `i` on that assigns nothing.
pub open spec fn first_plain_word(all: Seq<Seq<char>>, i: int) -> Option<Seq<char>>
    decreases all.len() - i,
{
    if i < 0 || i >= all.len() {
        None
    } else if !all[i].contains('=') {
        Some(all[i])
    } else {
        first_plain_word(all, i + 1)
    }
}

/// The executable a command runs: its first word that is no `KEY=value` assignment.
pub open spec fn binary_of(command: Seq<char>) -> Option<Seq<char>> {
    first_plain_word(words_of(command), 0)
}

/// The executable a command runs, skipping leading `KEY=value` environment assignments, so
/// `YARN_ENABLE_SCRIPTS=false yarn ...` yields `yarn`. `None` for an empty command.
pub fn command_binary(command: &str) -> (r: Option<String>)
    ensures
        opt(r) == binary_of(command@),
{
    let all = words(command);
    let mut i: usize = 0;
    while i < all.len()
        invariant
            i <= all@.len(),
            views(all@) == words_of(command@),
            first_plain_word(words_of(command@), 0) == first_plain_word(
                words_of(command@),
                i as int,
            ),
        decreases all@.len() - i,
    {
        assert(words_of(command@)[i as int] == all@[i as int]@);
        if !contains_char(all[i].as_str(), '=') {
            return Some(all[i].clone());
        }
        i = i + 1;
    }
    None
}

// ---- laws -----------------------------------------------------------------------------

/// An author who gives an address is named with it, in angle brackets; one who gives none, or is
/// written as one text, is named as written.
pub proof fn authors_are_named_with_their_address(name: Seq<char>, email: Seq<char>)
    ensures
        (AuthorView::Structured { name, email: Some(email) }).maintainer() == name + " <"@ + email
            + ">"@,
        (AuthorView::Structured { name, email: None }).maintainer() == name,
        AuthorView::Text(name).maintainer() == name,
{
}

/// Whether a text holds no character that starts a glob.
pub open spec fn no_glob(s: Seq<char>) -> bool {
    forall|i: int|
        0 <= i < s.len() ==> #[trigger] s[i] != '*' && s[i] != '?' && s[i] != '[' && s[i] != '{'
}

proof fn cut_before_the_glob(head: Seq<char>, tail: Seq<char>)
    requires
        no_glob(head),
        tail.len() > 0 ==> tail[0] == '*' || tail[0] == '?' || tail[0] == '[' || tail[0] == '{',
    ensures
        before_glob(head + tail) == head,
    decreases head.len(),
{
    if head.len() == 0 {
        assert(head + tail =~= tail);
        assert(before_glob(tail) =~= head);
    } else {
        let rest = head.drop_first();
        assert forall|i: int| 0 <= i < rest.len() implies #[trigger] rest[i] != '*' && rest[i]
            != '?' && rest[i] != '[' && rest[i] != '{' by {
            assert(rest[i] == head[i + 1]);
        }
        cut_before_the_glob(rest, tail);
        assert((head + tail).drop_first() =~= rest + tail);
        assert((head + tail)[0] == head[0]);
        assert(seq![head[0]] + rest =~= head);
    }
}

/// A pattern grants the directory its glob stands in: `packages/*` grants `packages`. A pattern
/// without a glob grants the directory it names.
pub proof fn a_pattern_grants_its_directory(dir: Seq<char>, glob: Seq<char>)
    requires
        dir.len() > 0,
        no_glob(dir),
        bare(dir),
        dir.last() != '/',
        glob.len() > 0,
        glob[0] == '*' || glob[0] == '?' || glob[0] == '[' || glob[0] == '{',
    ensures
        pattern_prefix(dir + "/"@ + glob) == dir,
        pattern_prefix(dir) == dir,
{
    reveal_strlit("/");
    let head = dir + "/"@;
    let none = Seq::<char>::empty();
    cut_before_the_glob(head, glob);
    cut_before_the_glob(dir, none);
    assert(dir + none =~= dir);
    assert(head.drop_last() =~= dir);
    assert(stripped_end(head, '/') == stripped_end(dir, '/'));
    assert(none + dir + none =~= dir);
    trimming_takes_the_blanks(none, dir, none);
}

/// Patterns are read one by one, in order, and none of them grants the project root: one whose
/// glob stands at the root grants nothing.
pub proof fn patterns_are_read_one_by_one(a: Seq<Seq<char>>, p: Seq<char>)
    ensures
        prefixes(Seq::empty()).len() == 0,
        pattern_prefix(p).len() > 0 && pattern_prefix(p) != "."@ ==> prefixes(a.push(p))
            == prefixes(a).push(pattern_prefix(p)),
        pattern_prefix(p).len() == 0 || pattern_prefix(p) == "."@ ==> prefixes(a.push(p))
            == prefixes(a),
        p.len() > 0 && (p[0] == '*' || p[0] == '?' || p[0] == '[' || p[0] == '{')
            ==> pattern_prefix(p).len() == 0,
{
    assert(a.push(p).drop_last() =~= a);
    if p.len() > 0 && (p[0] == '*' || p[0] == '?' || p[0] == '[' || p[0] == '{') {
        assert(before_glob(p) =~= Seq::<char>::empty());
        let none = Seq::<char>::empty();
        assert(none + none + none =~= none);
        trimming_takes_the_blanks(none, none, none);
    }
}

/// Each choice has the spelling that manifests use for it, and no other choice has it.
pub proof fn choices_are_spelled_apart(init: InitSystem, strategy: InstallStrategy)
    ensures
        init is Auto <==> init.spelling() == "auto"@,
        init is Upstart <==> init.spelling() == "upstart"@,
        init is Systemd <==> init.spelling() == "systemd"@,
        init is Sysv <==> init.spelling() == "sysv"@,
        init is NoInit <==> init.spelling() == "none"@,
        strategy is Auto <==> strategy.spelling() == "auto"@,
        strategy is Copy <==> strategy.spelling() == "copy"@,
        strategy is NpmInstall <==> strategy.spelling() == "npm-install"@,
{
    reveal_strlit("auto");
    reveal_strlit("upstart");
    reveal_strlit("systemd");
    reveal_strlit("sysv");
    reveal_strlit("none");
    reveal_strlit("copy");
    reveal_strlit("npm-install");
    assert("auto"@.len() == 4 && "auto"@[0] == 'a');
    assert("sysv"@.len() == 4 && "sysv"@[0] == 's');
    assert("none"@.len() == 4 && "none"@[0] == 'n');
    assert("copy"@.len() == 4 && "copy"@[0] == 'c');
    assert("upstart"@.len() == 7 && "upstart"@[0] == 'u');
    assert("systemd"@.len() == 7 && "systemd"@[0] == 's');
    assert("npm-install"@.len() == 11);
}

/// `auto` serves every init system, and every other choice its own and nothing else; a package
/// without a service serves none.
pub proof fn a_choice_serves_itself(init: InitSystem)
    ensures
        init.serves(InitSystem::Systemd) <==> init is Auto || init is Systemd,
        init.serves(InitSystem::Sysv) <==> init is Auto || init is Sysv,
        init.serves(InitSystem::Upstart) <==> init is Auto || init is Upstart,
{
}

proof fn first_word_decides(all: Seq<Seq<char>>, more: Seq<char>, i: int)
    requires
        0 <= i <= all.len(),
    ensures
        first_plain_word(all.push(more), i) == (match first_plain_word(all, i) {
            Some(w) => Some(w),
            None => if more.contains('=') {
                None
            } else {
                Some(more)
            },
        }),
    decreases all.len() - i,
{
    if i < all.len() {
        first_word_decides(all, more, i + 1);
        assert(all.push(more)[i] == all[i]);
    } else {
        assert(all.push(more)[i] == more);
        assert(first_plain_word(all.push(more), i + 1) is None);
    }
}

/// The binary of a command is its first word, assignments passed over: a further word changes
/// nothing once there is one, and is the one where there was none and it assigns nothing.
pub proof fn the_first_word_that_assigns_nothing_is_run(command: Seq<char>, word: Seq<char>)
    requires
        is_word(word),
    ensures
        binary_of(Seq::empty()) is None,
        binary_of(word) == (if word.contains('=') {
            None::<Seq<char>>
        } else {
            Some(word)
        }),
        binary_of(command + seq![' '] + word) == (match binary_of(command) {
            Some(w) => Some(w),
            None => if word.contains('=') {
                None
            } else {
                Some(word)
            },
        }),
{
    words_append(command, word);
    first_word_decides(words_of(command), word, 0);
    words_of_word(word);
    reveal_with_fuel(first_plain_word, 2);
}

/// A suggestion for a misspelt setting is a setting, within one slip of a short key, two of a
/// longer one and three of a long one, and there is none where no setting is that close.
pub proof fn suggestions_are_close_settings(key: Seq<char>)
    ensures
        ({
            let limit: nat = if key.len() <= 4 {
                1
            } else if key.len() <= 8 {
                2
            } else {
                3
            };
            match suggested_setting(key) {
                Some(s) => setting_names().contains(s) && edits(key, s) <= limit && forall|j: int|
                    0 <= j < setting_names().len() ==> edits(key, s) <= edits(
                        key,
                        #[trigger] setting_names()[j],
                    ),
                None => forall|j: int|
                    0 <= j < setting_names().len() ==> edits(key, #[trigger] setting_names()[j])
                        > limit,
            }
        }),
{
    nearest_is_nearest(
        setting_names(),
        key,
        suggestion_limit(key),
        setting_names().len() as int,
    );
}

} // verus!
