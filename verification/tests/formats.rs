use std::cell::RefCell;
use std::collections::BTreeMap;
use std::io::Read as _;

use nativepkg::build;
use nativepkg::format::{Format, Package};
use nativepkg::npm::{
    setting_keys, Author, Entrypoints, InitSystem, InstallStrategy, Manifest, Settings, Workspaces,
};
use nativepkg::packing::{SourceFile, Sources};
use nativepkg::plan::{BuildPlan, EntryKind};
use nativepkg::resolve::{resolve, Overrides, ResolvedConfig};
use nativepkg::strmap::StrMap;
use nativepkg::survey::{FileFacts, Input, LinkTarget, Node, NodeKind, Place, Survey};
use nativepkg::template;

const MANIFEST: &str = r#"{
  "name": "probe-app",
  "version": "1.2.3",
  "description": "a probe",
  "author": "A <a@example.com>",
  "nativepkg": { "entrypoints": { "daemon": "app.js" } }
}"#;

fn text(v: &serde_json::Value, key: &str) -> Option<String> {
    v.get(key).and_then(|x| x.as_str()).map(str::to_owned)
}

fn texts(v: &serde_json::Value) -> Vec<String> {
    let items = v.as_array().expect("an array");
    items.iter().map(|x| x.as_str().expect("text").to_owned()).collect()
}

fn author(v: &serde_json::Value) -> Author {
    match v.as_str() {
        Some(s) => Author::Text(s.to_owned()),
        None => Author::Structured {
            name: text(v, "name").expect("an author's name"),
            email: text(v, "email"),
        },
    }
}

fn workspaces(v: &serde_json::Value) -> Workspaces {
    match v.get("packages") {
        Some(packages) => Workspaces::Object { packages: texts(packages) },
        None => Workspaces::Patterns(texts(v)),
    }
}

fn init(name: &str) -> InitSystem {
    match name {
        "auto" => InitSystem::Auto,
        "systemd" => InitSystem::Systemd,
        "upstart" => InitSystem::Upstart,
        "sysv" => InitSystem::Sysv,
        "none" => InitSystem::NoInit,
        other => panic!("no init system is called {other}"),
    }
}

fn strategy(name: &str) -> InstallStrategy {
    match name {
        "auto" => InstallStrategy::Auto,
        "copy" => InstallStrategy::Copy,
        "npm-install" => InstallStrategy::NpmInstall,
        other => panic!("no install strategy is called {other}"),
    }
}

fn settings(v: &serde_json::Value) -> Settings {
    let mut unknown = StrMap::new();
    for key in v.as_object().expect("an object").keys() {
        if !setting_keys().contains(&key.as_str()) {
            unknown.insert(key.clone(), ());
        }
    }
    Settings {
        package_name: text(v, "package_name"),
        version: text(v, "version"),
        epoch: v.get("epoch").and_then(|x| x.as_u64()).map(|n| n as u32),
        description: text(v, "description"),
        maintainer: text(v, "maintainer"),
        homepage: text(v, "homepage"),
        license: text(v, "license"),
        architecture: text(v, "architecture"),
        dependencies: text(v, "dependencies"),
        install_dir: text(v, "install_dir"),
        user: text(v, "user"),
        group: text(v, "group"),
        executable_name: text(v, "executable_name"),
        output_deb_name: text(v, "output_deb_name"),
        extra_files: text(v, "extra_files"),
        triggers_file: text(v, "triggers_file"),
        init: text(v, "init").map(|s| init(&s)),
        install_strategy: text(v, "install_strategy").map(|s| strategy(&s)),
        install_command: text(v, "install_command"),
        install_binary: text(v, "install_binary"),
        entrypoints: v.get("entrypoints").filter(|e| e.is_object()).map(|e| Entrypoints {
            daemon: text(e, "daemon"),
            cli: text(e, "cli"),
        }),
        templates: None,
        unknown,
    }
}

fn parse(json: &str) -> Manifest {
    let v: serde_json::Value = serde_json::from_str(json).expect("test fixture should deserialise");
    Manifest {
        name: text(&v, "name"),
        version: text(&v, "version"),
        description: text(&v, "description"),
        author: v.get("author").map(author),
        workspaces: v.get("workspaces").map(workspaces),
        homepage: text(&v, "homepage"),
        license: text(&v, "license"),
        nativepkg: v.get("nativepkg").map(settings),
    }
}

#[derive(Clone)]
enum Thing {
    Dir,
    File { bytes: Vec<u8>, mode: u32 },
    Link(String),
}

struct Fixture {
    root: String,
    held: RefCell<BTreeMap<String, Thing>>,
}

impl Fixture {
    fn new(name: &str) -> Self {
        let root = format!("/tmp/nativepkg-cli-{name}");
        let me = Self { root, held: RefCell::new(BTreeMap::new()) };
        me.put(&me.path("package.json"), MANIFEST);
        me.put(&me.path("app.js"), "#!/usr/bin/env node\nconsole.log('hi');\n");
        me.chmod(&me.path("app.js"), 0o755);
        me.put(&me.path("lib/one.js"), "module.exports = 1;\n");
        me
    }

    fn path(&self, relative: &str) -> String {
        format!("{}/{relative}", self.root)
    }

    fn hold(&self, path: &str, thing: Thing) {
        let mut held = self.held.borrow_mut();
        for (at, _) in path.match_indices('/').skip(1) {
            held.entry(path[..at].to_owned()).or_insert(Thing::Dir);
        }
        held.insert(path.to_owned(), thing);
    }

    fn put(&self, path: &str, contents: &str) {
        self.hold(path, Thing::File { bytes: contents.as_bytes().to_vec(), mode: 0o644 });
    }

    fn chmod(&self, path: &str, to: u32) {
        match self.held.borrow_mut().get_mut(path) {
            Some(Thing::File { mode, .. }) => *mode = to,
            _ => panic!("no file at {path}"),
        }
    }

    fn thing(&self, path: &str) -> Option<Thing> {
        self.held.borrow().get(path).cloned()
    }

    fn canonical(&self, path: &str) -> Option<String> {
        let mut todo: Vec<String> = path.split('/').rev().map(str::to_owned).collect();
        let mut at = String::new();
        let mut hops = 0;
        while let Some(name) = todo.pop() {
            if name.is_empty() || name == "." {
                continue;
            }
            if name == ".." {
                let cut = at.rfind('/').unwrap_or(0);
                at.truncate(cut);
                continue;
            }
            let next = format!("{at}/{name}");
            match self.thing(&next)? {
                Thing::Link(target) => {
                    hops += 1;
                    if hops > 40 {
                        return None;
                    }
                    if target.starts_with('/') {
                        at.clear();
                    }
                    todo.extend(target.split('/').rev().map(str::to_owned));
                }
                _ => at = next,
            }
        }
        Some(if at.is_empty() { "/".to_owned() } else { at })
    }

    fn facts(&self, path: &str) -> Option<FileFacts> {
        match self.thing(path)? {
            Thing::File { bytes, mode } => {
                Some(FileFacts { mode, head: bytes.iter().copied().take(4).collect() })
            }
            Thing::Dir => Some(FileFacts { mode: 0o755, head: Vec::new() }),
            Thing::Link(_) => None,
        }
    }

    fn walk(&self, dir: &str, nodes: &mut Vec<Node>) {
        let prefix = format!("{dir}/");
        let children: Vec<String> = self
            .held
            .borrow()
            .keys()
            .filter(|k| k.starts_with(&prefix) && !k[prefix.len()..].contains('/'))
            .cloned()
            .collect();
        for path in children {
            match self.thing(&path) {
                Some(Thing::Dir) => {
                    nodes.push(Node { path: path.clone(), kind: NodeKind::Directory });
                    self.walk(&path, nodes);
                }
                Some(Thing::File { bytes, .. }) => {
                    let facts = self.facts(&path).expect("a file");
                    let len = bytes.len() as u64;
                    nodes.push(Node { path, kind: NodeKind::File { len, modified: 1_650_000_000, facts } });
                }
                Some(Thing::Link(_)) => {
                    let target = match self.canonical(&path) {
                        None => LinkTarget::Dangling,
                        Some(found) => {
                            let facts = self.facts(&found);
                            LinkTarget::Resolved { path: found, facts }
                        }
                    };
                    nodes.push(Node { path, kind: NodeKind::Symlink(target) });
                }
                None => unreachable!("{path} was listed"),
            }
        }
    }

    fn place(&self, root: &str, relative: &str) -> Place {
        match self.canonical(&format!("{root}/{relative}")) {
            None => Place::Missing,
            Some(path) => Place::At { path },
        }
    }

    fn is_dir(&self, place: &Place) -> bool {
        matches!(place, Place::At { path } if matches!(self.thing(path), Some(Thing::Dir)))
    }

    fn survey_at(&self, root: &str, config: &ResolvedConfig, inputs: &[&str]) -> Survey {
        let root = self.canonical(root).expect("the project is there");
        let mut nodes = Vec::new();
        self.walk(&root, &mut nodes);
        let manifest = self.place(&root, "package.json");
        let dependencies = self.place(&root, "node_modules");
        let extra = config.extra_files.as_deref().map(|name| self.place(&root, name));
        Survey {
            nodes,
            inputs: inputs
                .iter()
                .map(|label| Input {
                    label: (*label).to_owned(),
                    place: self.place(&root, label),
                })
                .collect(),
            manifest: (!self.is_dir(&manifest) && !matches!(manifest, Place::Missing))
                .then_some(manifest),
            dependencies: self.is_dir(&dependencies).then_some(dependencies),
            extra: extra.filter(|place| self.is_dir(place)),
            workspaces: config
                .workspace_roots
                .iter()
                .filter_map(|relative| self.canonical(&format!("{root}/{relative}")))
                .collect(),
            root,
        }
    }

    fn survey(&self, config: &ResolvedConfig, inputs: &[&str]) -> Survey {
        self.survey_at(&self.root, config, inputs)
    }

    fn plan(&self) -> (BuildPlan, ResolvedConfig) {
        let (config, _) = resolve(&parse(MANIFEST), &Overrides::default()).expect("resolves");
        let survey = self.survey(&config, &["package.json", "app.js", "lib"]);
        let (plan, _, _) = build::plan(&config, &survey, None, None).expect("plans");
        (plan, config)
    }

    fn sources(&self) -> Sources {
        let mut sources = Sources::new();
        for (path, thing) in self.held.borrow().iter() {
            if let Thing::File { bytes, .. } = thing {
                let read = SourceFile { bytes: bytes.clone(), modified: 1_650_000_000 };
                sources = sources.with(path.clone(), Ok(read));
            }
        }
        sources
    }
}

fn build_all(fixture: &Fixture) -> Vec<(Format, Package)> {
    let (plan, config) = fixture.plan();
    let mut produced = Vec::new();

    for format in Format::all() {
        let variables = format.variables(&config, "0.1.0").expect("vocabulary");
        let package = format
            .build(&plan, &config, &variables, None, &fixture.sources())
            .unwrap_or_else(|e| panic!("{} should build: {e:?}", format.name()));
        produced.push((format, package));
    }
    produced
}

#[test]
fn one_plan_produces_every_format_without_being_touched() {
    let fixture = Fixture::new("one-plan");
    let (plan, config) = fixture.plan();

    let before = format!("{plan:?}");
    for format in Format::all() {
        let variables = format.variables(&config, "0.1.0").expect("vocabulary");
        let package = format
            .build(&plan, &config, &variables, None, &fixture.sources())
            .unwrap_or_else(|e| panic!("{} should build: {e:?}", format.name()));
        assert!(!package.bytes.is_empty(), "{format:?} wrote nothing");
    }

    assert_eq!(
        before,
        format!("{plan:?}"),
        "a backend mutated the plan the others still have to read"
    );
}

#[test]
fn each_format_renders_its_own_architecture_spelling() {
    let fixture = Fixture::new("arch-spelling");
    let (_, mut config) = fixture.plan();
    config.architecture = "amd64".to_owned();

    assert_eq!(Format::Deb.architecture_of(&config).expect("deb"), "amd64");
    assert_eq!(Format::Rpm.architecture_of(&config).expect("rpm"), "x86_64");
    assert_eq!(
        Format::Arch.architecture_of(&config).expect("arch"),
        "x86_64"
    );

    for (format, expected) in [
        (Format::Deb, "amd64"),
        (Format::Rpm, "x86_64"),
        (Format::Arch, "x86_64"),
    ] {
        let variables = format.variables(&config, "0.1.0").expect("vocabulary");
        let rendered = variables
            .resolve("package_architecture")
            .expect("the variable exists");
        assert_eq!(rendered, expected, "{format:?}");
    }
}

#[test]
fn each_format_renders_its_own_version_spelling() {
    let fixture = Fixture::new("version-spelling");
    let _ = fixture;
    let manifest = parse(MANIFEST);
    let overrides = Overrides {
        epoch: Some(1),
        ..Overrides::default()
    };
    let (config, _) = resolve(&manifest, &overrides).expect("resolves");

    assert_eq!(Format::Deb.version_of(&config), "1:1.2.3");
    assert_eq!(Format::Rpm.version_of(&config), "1.2.3");
    assert_eq!(Format::Arch.version_of(&config), "1.2.3");
}

#[test]
fn no_format_ships_another_formats_tooling() {
    let fixture = Fixture::new("no-cross-tooling");
    let produced = build_all(&fixture);

    for (format, package) in produced {
        let scripts = scripts_in(format, &package.bytes);
        assert!(
            !scripts.is_empty(),
            "{format:?}: no maintainer script was found to inspect, so this test would pass \
             vacuously"
        );

        let forbidden: &[&str] = match format {
            Format::Deb => &["systemctl preset", "useradd", "chkconfig"],
            Format::Rpm | Format::Arch => &[
                "deb-systemd-helper",
                "deb-systemd-invoke",
                "adduser",
                "addgroup",
                "update-rc.d",
                "invoke-rc.d",
            ],
        };

        let body = code(&scripts);
        for program in forbidden {
            assert!(
                !body.contains(program),
                "the {format:?} package contains `{program}`, which belongs to another \
                 format:\n{scripts}"
            );
        }
    }
}

fn code(script: &str) -> String {
    script
        .lines()
        .map(|line| match line.find('#') {
            Some(at) => &line[..at],
            None => line,
        })
        .collect::<Vec<_>>()
        .join("\n")
}

fn scripts_in(format: Format, bytes: &[u8]) -> String {
    match format {
        Format::Deb => {
            let package = nativepkg::deb::read::parse(bytes).expect("a readable .deb");
            (0..package.script_bodies.len())
                .map(|i| package.script_bodies.at(i).1.to_owned())
                .collect::<Vec<_>>()
                .join("\n")
        }
        Format::Rpm => String::from_utf8_lossy(bytes).into_owned(),
        Format::Arch => {
            let tar = zstd::decode_all(bytes).expect("a readable zstd stream");
            let mut archive = tar::Archive::new(&tar[..]);
            let mut found = String::new();
            for entry in archive.entries().expect("entries") {
                let mut entry = entry.expect("an entry");
                let name = entry.path().expect("a path").to_string_lossy().into_owned();
                if name.ends_with(".INSTALL") {
                    entry.read_to_string(&mut found).expect("readable");
                }
            }
            found
        }
    }
}

#[test]
fn a_package_carries_only_the_init_system_it_was_built_for() {
    let fixture = Fixture::new("one-init");
    let (plan, mut config) = fixture.plan();
    config.init = InitSystem::Systemd;
    config.install_strategy = InstallStrategy::Copy;

    let variables = Format::Deb.variables(&config, "0.1.0").expect("vocabulary");
    let package = Format::Deb
        .build(&plan, &config, &variables, None, &fixture.sources())
        .expect("builds");

    let text = scripts_in(Format::Deb, &package.bytes);
    assert!(
        !text.contains("update-rc.d") && !text.contains("initctl"),
        "a systemd package carries logic for another init system"
    );
}

#[test]
fn a_format_reports_what_it_cannot_honour() {
    assert!(Format::Arch.unsupported(InitSystem::Sysv).is_some());
    assert!(Format::Arch.unsupported(InitSystem::Upstart).is_some());
    assert!(Format::Arch.unsupported(InitSystem::Systemd).is_none());

    assert!(Format::Rpm.unsupported(InitSystem::Upstart).is_some());
    assert!(Format::Rpm.unsupported(InitSystem::Sysv).is_none());

    for init in [InitSystem::Systemd, InitSystem::Sysv, InitSystem::Upstart] {
        assert!(Format::Deb.unsupported(init).is_none(), "{init:?}");
    }
}

#[test]
fn each_format_writes_its_own_file_name() {
    let fixture = Fixture::new("file-names");
    let produced = build_all(&fixture);

    let names: Vec<String> = produced
        .iter()
        .map(|(_, package)| package.file_name.clone())
        .collect();

    assert!(names.iter().any(|n| n.ends_with(".deb")), "{names:?}");
    assert!(names.iter().any(|n| n.ends_with(".rpm")), "{names:?}");
    assert!(
        names.iter().any(|n| n.ends_with(".pkg.tar.zst")),
        "{names:?}"
    );
}

#[test]
fn the_executable_symlink_points_at_something_in_the_package() {
    let fixture = Fixture::new("no-dangling-link");
    let (plan, config) = fixture.plan();

    for format in Format::all() {
        let variables = format.variables(&config, "0.1.0").expect("vocabulary");
        let generated: Vec<_> = build::service_files(&config)
            .expect("placement")
            .into_iter()
            .map(|service| {
                let source = template::builtin(service.template)
                    .expect("a built-in template");
                let text = template::render(service.template, source, &variables)
                    .expect("renders");
                (service, text)
            })
            .collect();
        let derived = build::with_generated(&plan, generated).expect("plan");

        let destinations: Vec<String> = derived
            .files
            .iter()
            .map(|f| f.destination.as_str().to_owned())
            .collect();

        let link = derived
            .files
            .iter()
            .find(|f| f.destination.as_str() == "/usr/bin/probe-app")
            .expect("the wrapper symlink is planned");

        let EntryKind::Symlink { target } = &link.kind else {
            panic!("{format:?}: the /usr/bin entry should be a symlink");
        };

        let resolved = format!("/usr/{}", target.trim_start_matches("../"));
        assert!(
            destinations.contains(&resolved),
            "{format:?}: `/usr/bin/probe-app` points at `{target}` (`{resolved}`), which the \
             package does not contain:\n{destinations:#?}"
        );
    }
}

#[test]
fn a_systemd_package_declares_its_log_directory_to_tmpfiles() {
    let fixture = Fixture::new("tmpfiles");
    let (_, config) = fixture.plan();

    let placed = build::service_files(&config).expect("placement");
    let fragment = placed
        .iter()
        .find(|s| s.template == "tmpfiles.conf")
        .expect("a tmpfiles.d fragment is placed for a systemd package");
    assert_eq!(
        fragment.destination.as_str(),
        "/usr/lib/tmpfiles.d/probe-app.conf"
    );

    let variables = Format::Deb.variables(&config, "0.1.0").expect("vocabulary");
    let source = template::builtin("tmpfiles.conf").expect("built in");
    let text =
        template::render("tmpfiles.conf", source, &variables).expect("renders");
    let declaration = text
        .lines()
        .find(|l| l.starts_with("d "))
        .expect("a directory declaration");
    assert_eq!(
        declaration,
        "d /var/log/probe-app 0755 probe-app probe-app -"
    );
}

#[test]
fn a_systemd_package_contains_its_unit() {
    let fixture = Fixture::new("unit-present");
    let (_, config) = fixture.plan();

    let placed = build::service_files(&config).expect("placement");
    let destinations: Vec<&str> = placed.iter().map(|s| s.destination.as_str()).collect();

    assert!(
        destinations.contains(&"/usr/lib/systemd/system/probe-app.service"),
        "{destinations:?}"
    );
    assert!(
        !destinations.iter().any(|d| d.starts_with("/lib/systemd")),
        "{destinations:?}"
    );
}

#[test]
fn auto_does_not_include_upstart_but_an_explicit_request_does() {
    let fixture = Fixture::new("auto-no-upstart");
    let (_, mut config) = fixture.plan();

    config.init = InitSystem::Auto;
    let auto: Vec<&str> = build::service_files(&config)
        .expect("placement")
        .iter()
        .map(|s| s.template)
        .collect::<Vec<_>>()
        .into_iter()
        .collect();
    assert!(auto.contains(&"systemd.service"), "{auto:?}");
    assert!(
        auto.contains(&"sysv-init"),
        "auto keeps a System V fallback: {auto:?}"
    );
    assert!(
        !auto.contains(&"upstart.conf"),
        "auto must not ship Upstart: {auto:?}"
    );

    config.init = InitSystem::Upstart;
    let explicit: Vec<&str> = build::service_files(&config)
        .expect("placement")
        .iter()
        .map(|s| s.template)
        .collect();
    assert!(
        explicit.contains(&"upstart.conf"),
        "a manifest that names Upstart still gets it: {explicit:?}"
    );
}


#[test]
fn the_output_name_replaces_the_package_name_in_the_file_name() {
    let fixture = Fixture::new("output-name");
    let (plan, mut config) = fixture.plan();
    config.output_deb_name = Some("custom".to_owned());
    let expected = [
        "custom_1.2.3_all.deb",
        "custom-1.2.3-1.noarch.rpm",
        "custom-1.2.3-1-any.pkg.tar.zst",
    ];
    for (format, name) in Format::all().into_iter().zip(expected) {
        let variables = format.variables(&config, "0.1.0").expect("vocabulary");
        let package = format
            .build(&plan, &config, &variables, None, &fixture.sources())
            .expect("builds");
        assert_eq!(package.file_name, name);
    }
}

#[test]
fn what_the_scripts_call_is_added_to_the_dependencies() {
    let fixture = Fixture::new("required");
    let (plan, config) = fixture.plan();
    let variables = Format::Deb.variables(&config, "0.1.0").expect("vocabulary");
    let package = Format::Deb
        .build(&plan, &config, &variables, None, &fixture.sources())
        .expect("builds");
    let read = nativepkg::deb::read::parse(&package.bytes).expect("readable");
    let depends = read.control.get("Depends").expect("a dependency list");
    assert!(depends.split(", ").any(|d| d == "adduser"), "{depends}");
    assert_eq!(plan.identity.dependencies, None, "the shared plan is left alone");
}

#[test]
fn a_triggers_file_that_could_not_be_read_stops_the_build() {
    let fixture = Fixture::new("triggers");
    let (plan, mut config) = fixture.plan();
    config.triggers_file = Some("debian/triggers".to_owned());
    let variables = Format::Deb.variables(&config, "0.1.0").expect("vocabulary");

    let failure = Format::Deb
        .build(&plan, &config, &variables, Some(Err("denied".to_owned())), &fixture.sources())
        .expect_err("an unread triggers file must stop the build");
    assert_eq!(failure.text(), "reading triggers file debian/triggers");
    assert_eq!(failure.link(1), "denied");

    let read = Some(Ok(b"activate-noawait ldconfig\n".to_vec()));
    let package = Format::Deb
        .build(&plan, &config, &variables, read, &fixture.sources())
        .expect("builds");
    let control = nativepkg::deb::read::parse(&package.bytes).expect("readable");
    assert_eq!(
        control.script_bodies.get("triggers"),
        Some("activate-noawait ldconfig\n")
    );
}

#[test]
fn a_source_that_went_away_is_told_with_its_attempt() {
    let fixture = Fixture::new("gone");
    let (plan, config) = fixture.plan();
    for (format, attempt) in [
        (Format::Deb, "writing the .deb"),
        (Format::Rpm, "writing the .rpm"),
        (Format::Arch, "writing the .pkg.tar.zst"),
    ] {
        let variables = format.variables(&config, "0.1.0").expect("vocabulary");
        let failure = format
            .build(&plan, &config, &variables, None, &Sources::new())
            .expect_err("nothing was read");
        assert_eq!(failure.text(), attempt);
        assert!(failure.len() >= 2);
    }
}

#[test]
fn an_unknown_architecture_is_refused_with_what_was_attempted() {
    let fixture = Fixture::new("bad-arch");
    let (_, mut config) = fixture.plan();
    config.architecture = "mips-of-old".to_owned();
    let failure = Format::Rpm.architecture_of(&config).expect_err("not an architecture");
    assert_eq!(failure.text(), "architecture is not one this tool recognises");
}

#[test]
fn a_user_constraint_survives_merging() {
    let fixture = Fixture::new("constraint");
    let (mut plan, _) = fixture.plan();
    plan.identity.dependencies = Some("adduser (>= 3), nodejs ,, ".to_owned());
    let merged = nativepkg::format::with_dependencies(&plan, &vec!["adduser", "init-system-helpers"]);
    assert_eq!(
        merged.identity.dependencies.as_deref(),
        Some("adduser (>= 3), nodejs, init-system-helpers")
    );
    let same = nativepkg::format::with_dependencies(&plan, &vec![]);
    assert_eq!(same, plan);
}

#[test]
fn a_script_of_comments_has_no_logic() {
    assert!(!nativepkg::format::has_logic("#!/bin/sh\n# made\nset -e\n\nexit 0\n"));
    assert!(nativepkg::format::has_logic("#!/bin/sh\nset -e\nadduser x\nexit 0\n"));
}

#[test]
fn a_versioned_requirement_is_compared_on_its_name() {
    let fixture = Fixture::new("versioned");
    let (mut plan, _) = fixture.plan();
    let required = vec!["init-system-helpers (>= 1.54)"];
    plan.identity.dependencies = Some("init-system-helpers (>= 1.60)".to_owned());
    let kept = nativepkg::format::with_dependencies(&plan, &required);
    assert_eq!(
        kept.identity.dependencies.as_deref(),
        Some("init-system-helpers (>= 1.60)")
    );
    plan.identity.dependencies = Some("nodejs".to_owned());
    let added = nativepkg::format::with_dependencies(&plan, &required);
    assert_eq!(
        added.identity.dependencies.as_deref(),
        Some("nodejs, init-system-helpers (>= 1.54)")
    );
}
