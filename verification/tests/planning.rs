use std::cell::RefCell;
use std::collections::BTreeMap;

use nativepkg::build::{plan, plan_at};
use nativepkg::npm::{
    setting_keys, Author, Entrypoints, InitSystem, InstallStrategy, Manifest, Settings, Workspaces,
};
use nativepkg::plan::{BuildPlan, EntryKind, FileContent};
use nativepkg::resolve::{resolve, Overrides, ResolvedConfig, Warning};
use nativepkg::strmap::StrMap;
use nativepkg::survey::{FileFacts, Input, LinkTarget, Node, NodeKind, Place, Survey};
use nativepkg::timestamp::Timestamp;

fn text(v: &serde_json::Value, key: &str) -> Option<String> {
    v.get(key).and_then(|x| x.as_str()).map(str::to_owned)
}

fn texts(v: &serde_json::Value) -> Vec<String> {
    let items = v.as_array().expect("an array");
    items.iter().map(|x| x.as_str().expect("text").to_owned()).collect()
}

fn author(v: &serde_json::Value) -> Author {
    match v.as_str() {
        Some(s) => Author::Text(s.to_owned()),
        None => Author::Structured {
            name: text(v, "name").expect("an author's name"),
            email: text(v, "email"),
        },
    }
}

fn workspaces(v: &serde_json::Value) -> Workspaces {
    match v.get("packages") {
        Some(packages) => Workspaces::Object { packages: texts(packages) },
        None => Workspaces::Patterns(texts(v)),
    }
}

fn init(name: &str) -> InitSystem {
    match name {
        "auto" => InitSystem::Auto,
        "systemd" => InitSystem::Systemd,
        "upstart" => InitSystem::Upstart,
        "sysv" => InitSystem::Sysv,
        "none" => InitSystem::NoInit,
        other => panic!("no init system is called {other}"),
    }
}

fn strategy(name: &str) -> InstallStrategy {
    match name {
        "auto" => InstallStrategy::Auto,
        "copy" => InstallStrategy::Copy,
        "npm-install" => InstallStrategy::NpmInstall,
        other => panic!("no install strategy is called {other}"),
    }
}

fn settings(v: &serde_json::Value) -> Settings {
    let mut unknown = StrMap::new();
    for key in v.as_object().expect("an object").keys() {
        if !setting_keys().contains(&key.as_str()) {
            unknown.insert(key.clone(), ());
        }
    }
    Settings {
        package_name: text(v, "package_name"),
        version: text(v, "version"),
        epoch: v.get("epoch").and_then(|x| x.as_u64()).map(|n| n as u32),
        description: text(v, "description"),
        maintainer: text(v, "maintainer"),
        homepage: text(v, "homepage"),
        license: text(v, "license"),
        architecture: text(v, "architecture"),
        dependencies: text(v, "dependencies"),
        install_dir: text(v, "install_dir"),
        user: text(v, "user"),
        group: text(v, "group"),
        executable_name: text(v, "executable_name"),
        output_deb_name: text(v, "output_deb_name"),
        extra_files: text(v, "extra_files"),
        triggers_file: text(v, "triggers_file"),
        init: text(v, "init").map(|s| init(&s)),
        install_strategy: text(v, "install_strategy").map(|s| strategy(&s)),
        install_command: text(v, "install_command"),
        install_binary: text(v, "install_binary"),
        entrypoints: v.get("entrypoints").filter(|e| e.is_object()).map(|e| Entrypoints {
            daemon: text(e, "daemon"),
            cli: text(e, "cli"),
        }),
        templates: None,
        unknown,
    }
}

fn parse(json: &str) -> Manifest {
    let v: serde_json::Value = serde_json::from_str(json).expect("test fixture should deserialise");
    Manifest {
        name: text(&v, "name"),
        version: text(&v, "version"),
        description: text(&v, "description"),
        author: v.get("author").map(author),
        workspaces: v.get("workspaces").map(workspaces),
        homepage: text(&v, "homepage"),
        license: text(&v, "license"),
        nativepkg: v.get("nativepkg").map(settings),
    }
}

#[derive(Clone)]
enum Thing {
    Dir,
    File { bytes: Vec<u8>, mode: u32 },
    Link(String),
}

struct Fixture {
    root: String,
    held: RefCell<BTreeMap<String, Thing>>,
}

impl Fixture {
    fn new(name: &str) -> Self {
        Self::with_workspaces(name, "")
    }

    fn with_workspaces(name: &str, workspaces: &str) -> Self {
        let root = format!("/tmp/nativepkg-plan-{name}");
        let me = Self { root, held: RefCell::new(BTreeMap::new()) };
        me.put("/etc/passwd", "root:x:0:0\n");
        me.put("/etc/hostname", "probe\n");
        me.write(
            "package.json",
            &format!(
                r#"{{
                "name": "probe-app",
                "version": "1.2.3",
                "description": "a probe\n\nwith a body",
                "author": "A <a@example.com>",
                "homepage": "https://example.com",
                "license": "MIT"{workspaces},
                "nativepkg": {{ "init": "none", "entrypoints": {{ "cli": "app.js" }} }}
            }}"#
            ),
        );
        me
    }

    fn write(&self, relative: &str, contents: &str) -> String {
        let path = self.path(relative);
        let contents = if relative == "app.js" && !contents.starts_with("#!") {
            format!("#!/usr/bin/env node\n{contents}")
        } else {
            contents.to_owned()
        };
        self.put(&path, &contents);
        if relative == "app.js" {
            self.chmod(&path, 0o755);
        }
        path
    }

    fn path(&self, relative: &str) -> String {
        format!("{}/{relative}", self.root)
    }

    fn hold(&self, path: &str, thing: Thing) {
        let mut held = self.held.borrow_mut();
        for (at, _) in path.match_indices('/').skip(1) {
            held.entry(path[..at].to_owned()).or_insert(Thing::Dir);
        }
        held.insert(path.to_owned(), thing);
    }

    fn put(&self, path: &str, contents: &str) {
        self.hold(path, Thing::File { bytes: contents.as_bytes().to_vec(), mode: 0o644 });
    }

    fn mkdir(&self, relative: &str) {
        self.hold(&self.path(relative), Thing::Dir);
    }

    fn link(&self, target: &str, relative: &str) {
        self.hold(&self.path(relative), Thing::Link(target.to_owned()));
    }

    fn chmod(&self, path: &str, to: u32) {
        match self.held.borrow_mut().get_mut(path) {
            Some(Thing::File { mode, .. }) => *mode = to,
            _ => panic!("no file at {path}"),
        }
    }

    fn thing(&self, path: &str) -> Option<Thing> {
        self.held.borrow().get(path).cloned()
    }

    fn canonical(&self, path: &str) -> Option<String> {
        let mut todo: Vec<String> = path.split('/').rev().map(str::to_owned).collect();
        let mut at = String::new();
        let mut hops = 0;
        while let Some(name) = todo.pop() {
            if name.is_empty() || name == "." {
                continue;
            }
            if name == ".." {
                let cut = at.rfind('/').unwrap_or(0);
                at.truncate(cut);
                continue;
            }
            let next = format!("{at}/{name}");
            match self.thing(&next)? {
                Thing::Link(target) => {
                    hops += 1;
                    if hops > 40 {
                        return None;
                    }
                    if target.starts_with('/') {
                        at.clear();
                    }
                    todo.extend(target.split('/').rev().map(str::to_owned));
                }
                _ => at = next,
            }
        }
        Some(if at.is_empty() { "/".to_owned() } else { at })
    }

    fn facts(&self, path: &str) -> Option<FileFacts> {
        match self.thing(path)? {
            Thing::File { bytes, mode } => {
                Some(FileFacts { mode, head: bytes.iter().copied().take(4).collect() })
            }
            Thing::Dir => Some(FileFacts { mode: 0o755, head: Vec::new() }),
            Thing::Link(_) => None,
        }
    }

    fn walk(&self, dir: &str, nodes: &mut Vec<Node>) {
        let prefix = format!("{dir}/");
        let children: Vec<String> = self
            .held
            .borrow()
            .keys()
            .filter(|k| k.starts_with(&prefix) && !k[prefix.len()..].contains('/'))
            .cloned()
            .collect();
        for path in children {
            match self.thing(&path) {
                Some(Thing::Dir) => {
                    nodes.push(Node { path: path.clone(), kind: NodeKind::Directory });
                    self.walk(&path, nodes);
                }
                Some(Thing::File { bytes, .. }) => {
                    let facts = self.facts(&path).expect("a file");
                    let len = bytes.len() as u64;
                    nodes.push(Node { path, kind: NodeKind::File { len, modified: 1_650_000_000, facts } });
                }
                Some(Thing::Link(_)) => {
                    let target = match self.canonical(&path) {
                        None => LinkTarget::Dangling,
                        Some(found) => {
                            let facts = self.facts(&found);
                            LinkTarget::Resolved { path: found, facts }
                        }
                    };
                    nodes.push(Node { path, kind: NodeKind::Symlink(target) });
                }
                None => unreachable!("{path} was listed"),
            }
        }
    }

    fn place(&self, root: &str, relative: &str) -> Place {
        match self.canonical(&format!("{root}/{relative}")) {
            None => Place::Missing,
            Some(path) => Place::At { path },
        }
    }

    fn is_dir(&self, place: &Place) -> bool {
        matches!(place, Place::At { path } if matches!(self.thing(path), Some(Thing::Dir)))
    }

    fn survey_at(&self, root: &str, config: &ResolvedConfig, inputs: &[&str]) -> Survey {
        let root = self.canonical(root).expect("the project is there");
        let mut nodes = Vec::new();
        self.walk(&root, &mut nodes);
        let manifest = self.place(&root, "package.json");
        let dependencies = self.place(&root, "node_modules");
        let extra = config.extra_files.as_deref().map(|name| self.place(&root, name));
        Survey {
            nodes,
            inputs: inputs
                .iter()
                .map(|label| Input {
                    label: (*label).to_owned(),
                    place: self.place(&root, label),
                })
                .collect(),
            manifest: (!self.is_dir(&manifest) && !matches!(manifest, Place::Missing))
                .then_some(manifest),
            dependencies: self.is_dir(&dependencies).then_some(dependencies),
            extra: extra.filter(|place| self.is_dir(place)),
            workspaces: config
                .workspace_roots
                .iter()
                .filter_map(|relative| self.canonical(&format!("{root}/{relative}")))
                .collect(),
            root,
        }
    }

    fn survey(&self, config: &ResolvedConfig, inputs: &[&str]) -> Survey {
        self.survey_at(&self.root, config, inputs)
    }

    fn manifest(&self) -> Manifest {
        match self.thing(&self.path("package.json")) {
            Some(Thing::File { bytes, .. }) => {
                parse(&String::from_utf8(bytes).expect("fixture manifest is text"))
            }
            _ => panic!("no manifest"),
        }
    }

    fn config(&self) -> ResolvedConfig {
        self.config_with(&Overrides::default())
    }

    fn config_with(&self, overrides: &Overrides) -> ResolvedConfig {
        resolve(&self.manifest(), overrides).expect("fixture manifest resolves").0
    }
}

fn planned(
    fx: &Fixture,
    config: &ResolvedConfig,
    inputs: &[&str],
) -> nativepkg::error::Result<(BuildPlan, Vec<Warning>)> {
    plan_at(config, &fx.survey(config, inputs), ts())
}

fn full_plan(fx: &Fixture, inputs: &[&str]) -> nativepkg::error::Result<BuildPlan> {
    let config = fx.config();
    plan(&config, &fx.survey(&config, inputs), None, None).map(|(plan, _, _)| plan)
}

fn ts() -> Timestamp {
    Timestamp::from_secs(1_700_000_000)
}

#[test]
fn application_files_are_planned_under_the_install_root() {
    let fx = Fixture::new("basic");
    fx.write("app.js", "console.log(1)\n");
    fx.write("lib/a.js", "module.exports = 1\n");

    let (plan, _) =
        planned(&fx, &fx.config(), &["app.js", "lib"]).expect("should plan");

    let destinations: Vec<&str> = plan.files.iter().map(|f| f.destination.as_str()).collect();
    assert!(
        destinations.contains(&"/usr/lib/probe-app/app/app.js"),
        "{destinations:?}"
    );
    assert!(
        destinations.contains(&"/usr/lib/probe-app/app/lib/a.js"),
        "{destinations:?}"
    );
    assert!(
        destinations.contains(&"/usr/lib/probe-app/app/package.json"),
        "{destinations:?}"
    );
}

#[test]
fn content_references_sources_rather_than_copying_bytes() {
    let fx = Fixture::new("lazy");
    fx.write("app.js", "console.log(1)\n");
    let (plan, _) =
        planned(&fx, &fx.config(), &["app.js"]).expect("should plan");

    let entry = plan
        .files
        .iter()
        .find(|f| f.destination.as_str().ends_with("/app.js"))
        .expect("app.js should be planned");
    match &entry.content {
        FileContent::FromPath { path, len } => {
            assert!(path.ends_with("app.js"));
            assert_eq!(*len, "#!/usr/bin/env node\nconsole.log(1)\n".len() as u64);
        }
        other => panic!("expected a streamed source, got {other:?}"),
    }
}

#[test]
fn absolute_inputs_are_refused() {
    let fx = Fixture::new("absolute");
    fx.write("app.js", "x\n");
    let err = planned(&fx, &fx.config(), &["/etc/passwd"])
        .expect_err("absolute inputs must be refused");
    assert!(err.text().contains("absolute"), "{err:?}");
}

#[test]
fn inputs_that_do_not_exist_are_refused() {
    let fx = Fixture::new("missing");
    let err = planned(&fx, &fx.config(), &["nope.js"])
        .expect_err("missing inputs must be refused");
    assert!(err.text().contains("nope.js"), "{err:?}");
}

#[test]
fn symlinks_pointing_outside_the_project_are_refused() {
    let fx = Fixture::new("escaping-symlink");
    fx.write("app.js", "x\n");
    fx.link("/etc/hostname", "escape.js");

    let err = planned(&fx, &fx.config(), &["escape.js"])
        .expect_err("a symlink leaving the project must be refused");
    assert!(err.text().contains("outside the project"), "{err:?}");
}

#[test]
fn symlinks_are_planned_as_symlinks_not_as_regular_files() {
    let fx = Fixture::new("internal-symlink");
    fx.write("lib/real.js", &"x".repeat(5000));
    fx.link(&fx.path("lib/real.js"), "lib/alias.js");

    let (plan, _) = planned(&fx, &fx.config(), &["lib"]).expect("should plan");

    let alias = plan
        .files
        .iter()
        .find(|f| f.destination.as_str().ends_with("/lib/alias.js"))
        .expect("the symlink should be planned");

    match &alias.kind {
        EntryKind::Symlink { target } => assert_eq!(target, "real.js"),
        other => panic!("a symlink must not be planned as {other:?}"),
    }
    assert_eq!(
        alias.content,
        FileContent::Absent,
        "a symlink carries no content"
    );
    assert_eq!(alias.mode, 0o777);

    let sizes: Vec<u64> = plan
        .files
        .iter()
        .filter(|f| f.destination.as_str().ends_with("/lib/real.js"))
        .map(|f| f.content.len())
        .collect();
    assert_eq!(sizes, vec![5000]);
}

#[test]
fn relative_symlinks_are_preserved_relative() {
    let fx = Fixture::new("relative-symlink");
    fx.write("lib/deep/real.js", "x\n");
    fx.link("deep/real.js", "lib/alias.js");

    let (plan, _) = planned(&fx, &fx.config(), &["lib"]).expect("should plan");
    let alias = plan
        .files
        .iter()
        .find(|f| f.destination.as_str().ends_with("/lib/alias.js"))
        .expect("the symlink should be planned");
    match &alias.kind {
        EntryKind::Symlink { target } => assert_eq!(target, "deep/real.js"),
        other => panic!("expected a symlink, got {other:?}"),
    }
}

#[test]
fn relative_symlinks_that_escape_the_package_are_refused() {
    for depth in 1..=4 {
        let fx = Fixture::new(&format!("relative-escape-depth-{depth}"));
        fx.write("app.js", "x\n");
        let dirs: Vec<String> = (0..depth).map(|n| format!("d{n}")).collect();
        let link_dir = dirs.join("/");
        fx.write(&format!("{link_dir}/real.js"), "x\n");

        let ascent = "../".repeat(depth + 1);
        let target = format!("{ascent}nativepkg-relative-escape-target/secret.txt");
        fx.put("/tmp/nativepkg-relative-escape-target/secret.txt", "SECRET\n");
        let link = format!("{link_dir}/escape.js");
        fx.link(&target, &link);
        assert!(
            fx.canonical(&fx.path(&link)).is_some(),
            "fixture error: `{target}` at depth {depth} did not produce a live link"
        );

        let err = planned(&fx, &fx.config(), &["app.js", &dirs[0]]).expect_err(
            &format!("a link escaping the package at depth {depth} must be refused"),
        );
        assert!(
            err.text().contains("escapes the package"),
            "depth {depth} was rejected for the wrong reason: {err:?}"
        );
    }
}

#[test]
fn dependency_symlinks_to_live_files_outside_the_project_fail_the_build() {
    let secret = "/tmp/nativepkg-dep-escape-target/secret.txt";

    let relative_to_outside = format!("{}nativepkg-dep-escape-target/secret.txt", "../".repeat(4));

    for (label, target) in [
        ("absolute, system file", "/etc/passwd".to_owned()),
        ("absolute, outside file", secret.to_owned()),
        ("relative, outside file", relative_to_outside),
    ] {
        let fx = Fixture::new(&format!(
            "dep-live-escape-{}",
            label.replace([' ', ','], "-")
        ));
        fx.write("app.js", "x\n");
        fx.write("node_modules/evil-pkg/index.js", "1\n");
        fx.mkdir("node_modules/evil-pkg/.bin");
        fx.put(secret, "SECRET\n");
        let link = "node_modules/evil-pkg/.bin/tool".to_owned();
        fx.link(&target, &link);

        assert!(
            fx.canonical(&fx.path(&link)).is_some(),
            "fixture error: `{target}` ({label}) did not produce a live link"
        );

        let overrides = Overrides {
            install_strategy: Some(InstallStrategy::Copy),
            ..Overrides::default()
        };
        let err = planned(&fx, &fx.config_with(&overrides), &["app.js"])
        .expect_err(&format!(
            "a dependency symlink to `{target}` ({label}) must fail the build"
        ));
        assert!(
            err.text().contains("escapes the package"),
            "`{target}` ({label}) was rejected for the wrong reason: {err:?}"
        );
    }
}

#[test]
fn dangling_symlinks_in_the_application_tree_say_so() {
    let fx = Fixture::new("dangling-symlink");
    fx.write("lib/real.js", "x\n");
    fx.link(&fx.path("lib/gone.js"), "lib/dangling.js");

    let err = planned(&fx, &fx.config(), &["lib"])
        .expect_err("a dangling link must be refused");
    assert!(err.text().contains("dangling"), "{err:?}");
}

#[test]
fn two_different_sources_claiming_one_destination_is_an_error() {
    let fx = Fixture::new("collision");
    fx.write("app.js", "REAL CONTENT\n");
    let extra = fx.write(
        "extra/usr/lib/probe-app/app/app.js",
        "#!/usr/bin/env node\nDIFFERENT\n",
    );
        {
            fx.chmod(&extra, 0o755);
    }

    let overrides = Overrides {
        extra_files: Some("extra".into()),
        ..Overrides::default()
    };
    let err = planned(&fx, &fx.config_with(&overrides), &["app.js"])
    .expect_err("colliding destinations must not be resolved by walk order");

    let message = err.text();
    assert!(message.contains("both install to"), "{message}");
    assert!(
        message.contains("app.js"),
        "the error should name the sources: {message}"
    );
}

#[test]
fn the_same_source_collected_twice_is_not_an_error() {
    let fx = Fixture::new("same-source-twice");
    fx.write("app.js", "x\n");

    let (plan, _) = planned(&fx, &fx.config(), &["app.js", "package.json"])
    .expect("collecting one file twice from one source must be a no-op");

    let count = plan
        .files
        .iter()
        .filter(|f| f.destination.as_str().ends_with("/app/package.json"))
        .count();
    assert_eq!(count, 1);
}

#[test]
fn symlinks_under_extra_files_are_planned_as_symlinks() {
    let fx = Fixture::new("extra-symlink");
    fx.write("app.js", "x\n");
    fx.write("extra/usr/lib/probe-app/real.so", "binary\n");
    fx.link("real.so", "extra/usr/lib/probe-app/link.so");

    let overrides = Overrides {
        extra_files: Some("extra".into()),
        ..Overrides::default()
    };
    let (plan, _) = planned(&fx, &fx.config_with(&overrides), &["app.js"])
    .expect("should plan");

    let link = plan
        .files
        .iter()
        .find(|f| f.destination.as_str() == "/usr/lib/probe-app/link.so")
        .expect("the extra-files symlink should be planned, not silently dropped");
    assert!(
        matches!(link.kind, EntryKind::Symlink { .. }),
        "{:?}",
        link.kind
    );
}

#[test]
fn dangling_dependency_links_are_tolerated() {
    let fx = Fixture::new("dangling-dep");
    fx.write("app.js", "x\n");
    fx.write("node_modules/pkg/index.js", "1\n");
    fx.mkdir("node_modules/.bin");
    fx.link("../pkg/missing.js", "node_modules/.bin/gone");

    let overrides = Overrides {
        install_strategy: Some(InstallStrategy::Copy),
        ..Overrides::default()
    };
    let (plan, _) = planned(&fx, &fx.config_with(&overrides), &["app.js"])
    .expect("a dangling link inside node_modules must be tolerated");
    assert!(plan.files.iter().any(|f| {
        f.destination
            .as_str()
            .ends_with("/node_modules/pkg/index.js")
    }));
}

#[test]
fn dependencies_are_vendored_under_the_copy_strategy() {
    let fx = Fixture::new("vendor-copy");
    fx.write("app.js", "x\n");
    fx.write("node_modules/left-pad/index.js", "module.exports = 1\n");

    let overrides = Overrides {
        install_strategy: Some(InstallStrategy::Copy),
        ..Overrides::default()
    };
    let (plan, warnings) = planned(&fx, &fx.config_with(&overrides), &["app.js"])
    .expect("should plan");

    assert!(
        plan.files.iter().any(|f| f
            .destination
            .as_str()
            .ends_with("/app/node_modules/left-pad/index.js")),
        "vendored dependency should be planned"
    );
    assert!(warnings.contains(&Warning::DependenciesMayIncludeDevelopmentPackages));
}

#[test]
fn dependencies_are_excluded_under_the_install_time_strategy() {
    let fx = Fixture::new("vendor-npm");
    fx.write("app.js", "x\n");
    fx.write("node_modules/left-pad/index.js", "module.exports = 1\n");

    let overrides = Overrides {
        install_strategy: Some(InstallStrategy::NpmInstall),
        ..Overrides::default()
    };
    let (plan, warnings) = planned(&fx, &fx.config_with(&overrides), &["app.js"])
    .expect("should plan");

    assert!(
        !plan
            .files
            .iter()
            .any(|f| f.destination.as_str().contains("node_modules")),
        "no dependency should be packaged under the install-time strategy"
    );
    assert!(
        warnings
            .iter()
            .any(|w| matches!(w, Warning::DependenciesExcluded { .. }))
    );
}

#[test]
fn naming_the_dependency_directory_does_not_smuggle_it_in() {
    let fx = Fixture::new("smuggle");
    fx.write("app.js", "x\n");
    fx.write("node_modules/left-pad/index.js", "module.exports = 1\n");

    let overrides = Overrides {
        install_strategy: Some(InstallStrategy::NpmInstall),
        ..Overrides::default()
    };
    let (plan, warnings) = planned(&fx, &fx.config_with(&overrides), &["app.js", "node_modules"])
    .expect("should plan");

    assert!(
        !plan
            .files
            .iter()
            .any(|f| f.destination.as_str().contains("node_modules"))
    );
    assert!(
        warnings
            .iter()
            .any(|w| matches!(w, Warning::DependenciesExcluded { .. })),
        "the user should be told the strategy governs inclusion"
    );
}

#[test]
fn each_dependency_file_appears_exactly_once() {
    let fx = Fixture::new("nested-deps");
    fx.write("app.js", "x\n");
    fx.write("node_modules/a/index.js", "1\n");
    fx.write("node_modules/a/node_modules/b/index.js", "2\n");

    let overrides = Overrides {
        install_strategy: Some(InstallStrategy::Copy),
        ..Overrides::default()
    };
    let (plan, _) = planned(&fx, &fx.config_with(&overrides), &["app.js"])
    .expect("should plan");

    let mut destinations: Vec<&str> = plan.files.iter().map(|f| f.destination.as_str()).collect();
    let total = destinations.len();
    destinations.sort_unstable();
    destinations.dedup();
    assert_eq!(
        destinations.len(),
        total,
        "a file was planned more than once"
    );
}

#[test]
fn plans_are_deterministic() {
    let fx = Fixture::new("deterministic");
    fx.write("app.js", "x\n");
    fx.write("lib/b.js", "2\n");
    fx.write("lib/a.js", "1\n");

    let cfg = fx.config();
    let (first, _) =
        planned(&fx, &cfg, &["app.js", "lib"]).expect("should plan");
    let (second, _) =
        planned(&fx, &cfg, &["app.js", "lib"]).expect("should plan");

    assert_eq!(first, second);
    assert_eq!(
        format!("{first:?}"),
        format!("{second:?}"),
        "serialised plans must be identical"
    );
}

#[test]
fn planning_entries_are_sorted_by_destination() {
    let fx = Fixture::new("sorted");
    fx.write("app.js", "x\n");
    fx.write("lib/z.js", "1\n");
    fx.write("lib/a.js", "1\n");

    let (plan, _) =
        planned(&fx, &fx.config(), &["app.js", "lib"]).expect("should plan");

    let destinations: Vec<&str> = plan.files.iter().map(|f| f.destination.as_str()).collect();
    let mut sorted = destinations.clone();
    sorted.sort_unstable();
    assert_eq!(destinations, sorted);
}

#[test]
fn every_entry_carries_the_plan_timestamp_and_root_ownership() {
    let fx = Fixture::new("stamps");
    fx.write("app.js", "x\n");
    let (plan, _) =
        planned(&fx, &fx.config(), &["app.js"]).expect("should plan");

    assert_eq!(plan.timestamp, ts());
    assert_eq!(BuildPlan::UID, 0);
    assert_eq!(BuildPlan::GID, 0);
}

#[test]
fn executable_bit_maps_to_mode() {
    let fx = Fixture::new("modes");
    let script = fx.write("run.sh", "#!/bin/sh\n");
    fx.chmod(&script, 0o755);
    fx.write("plain.txt", "x\n");

    let (plan, _) = planned(&fx, &fx.config(), &["run.sh", "plain.txt"])
    .expect("should plan");

    let mode_of = |suffix: &str| {
        plan.files
            .iter()
            .find(|f| f.destination.as_str().ends_with(suffix))
            .unwrap_or_else(|| panic!("{suffix} should be planned"))
            .mode
    };
    assert_eq!(mode_of("run.sh"), 0o755);
    assert_eq!(mode_of("plain.txt"), 0o644);
}

#[test]
fn the_executable_symlink_is_relative_within_usr() {
    let fx = Fixture::new("symlink-target");
    fx.write("app.js", "x\n");
    let (plan, _) =
        planned(&fx, &fx.config(), &["app.js"]).expect("should plan");

    let link = plan
        .files
        .iter()
        .find(|f| f.destination.as_str() == "/usr/bin/probe-app")
        .expect("the /usr/bin entry point should be planned");
    match &link.kind {
        EntryKind::Symlink { target } => {
            assert_eq!(target, "../lib/probe-app/bin/probe-app");
            assert!(
                !target.starts_with('/'),
                "a link within /usr must be relative per Debian policy"
            );
        }
        other => panic!("expected a symlink, got {other:?}"),
    }
}

#[test]
fn extra_files_land_at_the_filesystem_root_and_etc_becomes_config() {
    let fx = Fixture::new("extra");
    fx.write("app.js", "x\n");
    fx.write("extra/etc/probe-app/config.json", "{}\n");
    fx.write("extra/var/lib/probe-app/seed.txt", "seed\n");

    let overrides = Overrides {
        extra_files: Some("extra".into()),
        ..Overrides::default()
    };
    let (plan, _) = planned(&fx, &fx.config_with(&overrides), &["app.js"])
    .expect("should plan");

    let config_paths: Vec<&str> = plan
        .config_files()
        .iter()
        .map(|f| f.destination.as_str())
        .collect();
    assert_eq!(config_paths, ["/etc/probe-app/config.json"]);
    assert!(
        plan.files
            .iter()
            .any(|f| f.destination.as_str() == "/var/lib/probe-app/seed.txt")
    );
}

#[test]
fn a_symlinked_intermediate_component_cannot_smuggle_files_in() {
    let fx = Fixture::new("intermediate-symlink");
    fx.write("app.js", "x\n");

    let outside = "/tmp/nativepkg-intermediate-outside";
    fx.put("/tmp/nativepkg-intermediate-outside/subdir/secret.txt", "SECRET\n");
    fx.link(outside, "vendor");

    let result = planned(&fx, &fx.config(), &["app.js", "vendor/subdir"]);
    let err = result.err().unwrap_or_else(|| {
        panic!("a symlinked intermediate component let content outside the project be packaged")
    });
    let message = err.text();
    assert!(message.contains("escapes the package"), "{message}");
    assert!(
        message.contains("vendor/subdir"),
        "the error should name what the user typed: {message}"
    );
}

#[test]
fn a_symlinked_project_root_does_not_cause_false_refusals() {
    let fx = Fixture::new("symlinked-root-real");
    fx.write("app.js", "x\n");
    fx.write("lib/real.js", "x\n");
    fx.link("real.js", "lib/alias.js");

    let via_link = "/tmp/nativepkg-symlinked-root-view";
    fx.hold(via_link, Thing::Link(fx.root.clone()));

    let cfg = fx.config();
    let survey = fx.survey_at(via_link, &cfg, &["app.js", "lib"]);
    let result = plan_at(&cfg, &survey, ts());

    let (plan, _) = result.expect("a project reached through a symlink must still plan");
    assert!(
        plan.files
            .iter()
            .any(|f| f.destination.as_str().ends_with("/lib/alias.js")),
        "the in-project link should be planned, not refused"
    );
}

#[test]
fn declared_workspace_packages_are_materialised() {
    let fx = Fixture::with_workspaces("workspaces", r#","workspaces":["packages/*"]"#);
    fx.write("app.js", "x\n");
    fx.write("packages/shared/package.json", r#"{"name":"shared"}"#);
    fx.write("packages/shared/lib/index.js", "module.exports = 1\n");
    fx.write(".env", "SECRET_TOKEN=hunter2\n");
    fx.mkdir("node_modules");
    fx.write("node_modules/left-pad.js", "1\n");
    fx.link(&fx.path("packages/shared"), "node_modules/shared");

    let overrides = Overrides {
        install_strategy: Some(InstallStrategy::Copy),
        ..Overrides::default()
    };
    let (plan, _) = planned(&fx, &fx.config_with(&overrides), &["app.js"])
    .expect("should plan");

    let destinations: Vec<&str> = plan.files.iter().map(|f| f.destination.as_str()).collect();
    assert!(
        destinations
            .iter()
            .any(|d| d.ends_with("/node_modules/shared/lib/index.js")),
        "the declared workspace package's files must be packaged: {destinations:?}"
    );
    assert!(
        !destinations.iter().any(|d| d.contains(".env")),
        "declaring workspaces must not admit anything else: {destinations:?}"
    );
}

#[test]
fn a_dependency_cannot_reach_arbitrary_project_files() {
    let cases: [(&str, &str, &str); 4] = [
        ("dep-reach-file", "", "../../.env"),
        ("dep-reach-root", "", "../.."),
        (
            "dep-reach-declared",
            r#","workspaces":["packages/*"]"#,
            "../../.env",
        ),
        ("dep-reach-outside", "", "/etc/passwd"),
    ];

    for (name, workspaces, target) in cases {
        let fx = Fixture::with_workspaces(name, workspaces);
        fx.write("app.js", "x\n");
        fx.write(".env", "SECRET_TOKEN=hunter2\n");
        fx.write("packages/shared/package.json", r#"{"name":"shared"}"#);
        fx.mkdir("node_modules/evil-pkg");
        fx.link(target, "node_modules/evil-pkg/config.js");

        let overrides = Overrides {
            install_strategy: Some(InstallStrategy::Copy),
            ..Overrides::default()
        };
        let err = planned(&fx, &fx.config_with(&overrides), &["app.js"])
        .err()
        .unwrap_or_else(|| panic!("a dependency link to `{target}` must fail the build"));

        let message = err.text();
        assert!(
            message.contains("workspace") || message.contains("escapes the package"),
            "`{target}` was rejected without an actionable reason: {message}"
        );
    }
}

#[test]
fn a_workspaces_pattern_naming_the_project_root_grants_nothing() {
    let fx = Fixture::with_workspaces("workspaces-root-pattern", r#","workspaces":["*"]"#);
    fx.write("app.js", "x\n");
    fx.write(".env", "SECRET\n");
    fx.mkdir("node_modules");
    fx.link(&fx.root, "node_modules/evil");

    let overrides = Overrides {
        install_strategy: Some(InstallStrategy::Copy),
        ..Overrides::default()
    };
    let err = planned(&fx, &fx.config_with(&overrides), &["app.js"])
    .expect_err("a root-resolving workspaces pattern must not grant reach-through");
    assert!(err.text().contains("workspace"), "{err:?}");
}

#[test]
fn symlink_cycles_between_declared_workspaces_terminate() {
    let fx = Fixture::with_workspaces("cycle", r#","workspaces":["packages/*"]"#);
    fx.write("app.js", "x\n");
    fx.write("packages/a/package.json", r#"{"name":"a"}"#);
    fx.write("packages/b/package.json", r#"{"name":"b"}"#);
    fx.mkdir("packages/a/node_modules");
    fx.mkdir("packages/b/node_modules");
    fx.mkdir("node_modules");
    fx.link(&fx.path("packages/b"), "packages/a/node_modules/b");
    fx.link(&fx.path("packages/a"), "packages/b/node_modules/a");
    fx.link(&fx.path("packages/a"), "node_modules/a");

    let overrides = Overrides {
        install_strategy: Some(InstallStrategy::Copy),
        ..Overrides::default()
    };
    let err = planned(&fx, &fx.config_with(&overrides), &["app.js"])
    .expect_err("a materialisation cycle must be reported, not recursed into");
    assert!(
        err.text().contains("cycle"),
        "the cycle guard should name the problem: {err:?}"
    );
}

#[test]
fn compiled_addons_in_an_architecture_independent_package_are_warned_about() {
    let fx = Fixture::new("native-addons");
    fx.write("app.js", "x\n");
    fx.mkdir("node_modules/bcrypt/build/Release");
    fx.write("node_modules/bcrypt/index.js", "1\n");
    fx.write(
        "node_modules/bcrypt/build/Release/bcrypt.node",
        "\x7fELF fake\n",
    );

    let overrides = Overrides {
        install_strategy: Some(InstallStrategy::Copy),
        ..Overrides::default()
    };
    let (_, warnings) = planned(&fx, &fx.config_with(&overrides), &["app.js"])
    .expect("should plan");

    let warning = warnings
        .iter()
        .find(|w| {
            matches!(
                w,
                Warning::CompiledAddonsInArchitectureIndependentPackage { .. }
            )
        })
        .expect("a compiled addon in an `all` package must be reported");
    assert!(
        warning.text().contains("bcrypt.node"),
        "the warning should name the addon: {warning:?}"
    );
}

#[test]
fn compiled_addons_with_an_explicit_architecture_are_not_warned_about() {
    let fx = Fixture::new("native-addons-arch");
    fx.write("app.js", "x\n");
    fx.mkdir("node_modules/bcrypt/build/Release");
    fx.write(
        "node_modules/bcrypt/build/Release/bcrypt.node",
        "\x7fELF fake\n",
    );

    let overrides = Overrides {
        install_strategy: Some(InstallStrategy::Copy),
        architecture: Some("amd64".into()),
        ..Overrides::default()
    };
    let (_, warnings) = planned(&fx, &fx.config_with(&overrides), &["app.js"])
    .expect("should plan");

    assert!(
        !warnings.iter().any(|w| matches!(
            w,
            Warning::CompiledAddonsInArchitectureIndependentPackage { .. }
        )),
        "an explicit architecture makes the package honest: {warnings:?}"
    );
}

#[test]
fn the_install_time_strategy_warns_about_what_it_costs() {
    let fx = Fixture::new("install-time-warning");
    fx.write("app.js", "x\n");

    let overrides = Overrides {
        install_strategy: Some(InstallStrategy::NpmInstall),
        ..Overrides::default()
    };
    let (_, warnings) = planned(&fx, &fx.config_with(&overrides), &["app.js"])
    .expect("should plan");

    let warning = warnings
        .iter()
        .find(|w| matches!(w, Warning::DependenciesInstalledAtInstallTime))
        .expect("the install-time strategy must be announced");
    let text = warning.text();
    assert!(text.contains("network"), "{text}");
    assert!(text.contains("root"), "{text}");
}

#[test]
fn the_default_strategy_does_not_warn_about_install_time_installation() {
    let fx = Fixture::new("default-strategy-quiet");
    fx.write("app.js", "x\n");
    let (_, warnings) =
        planned(&fx, &fx.config(), &["app.js"]).expect("should plan");
    assert!(
        !warnings
            .iter()
            .any(|w| matches!(w, Warning::DependenciesInstalledAtInstallTime))
    );
}

#[test]
fn description_is_split_into_synopsis_and_body() {
    let fx = Fixture::new("description");
    fx.write("app.js", "x\n");
    let (plan, _) =
        planned(&fx, &fx.config(), &["app.js"]).expect("should plan");

    assert_eq!(plan.identity.description.synopsis, "a probe");
    assert_eq!(plan.identity.description.body, "with a body");
}

#[test]
fn identity_carries_every_format_s_version_spelling() {
    let fx = Fixture::new("identity");
    fx.write("app.js", "x\n");
    let (plan, _) =
        planned(&fx, &fx.config(), &["app.js"]).expect("should plan");

    assert_eq!(plan.identity.version_deb, "1.2.3");
    assert_eq!(plan.identity.version_rpm, "1.2.3");
    assert_eq!(plan.identity.release_rpm, "1");
    assert_eq!(
        plan.identity.homepage.as_deref(),
        Some("https://example.com")
    );
    assert_eq!(plan.identity.license.as_deref(), Some("MIT"));
    assert!(plan.identity.architecture.is_any());
}

#[test]
fn installed_size_is_reported() {
    let fx = Fixture::new("size");
    fx.write("app.js", &"x".repeat(4096));
    let (plan, _) =
        planned(&fx, &fx.config(), &["app.js"]).expect("should plan");
    assert!(
        plan.installed_size_kib() >= 4,
        "{}",
        plan.installed_size_kib()
    );
}

#[test]
fn long_paths_survive_planning() {
    let fx = Fixture::new("long-paths");
    fx.write("app.js", "x\n");
    let deep = format!("lib/{}/index.js", vec!["nested"; 20].join("/"));
    fx.write(&deep, "x\n");

    let (plan, _) =
        planned(&fx, &fx.config(), &["app.js", "lib"]).expect("should plan");

    let longest = plan
        .files
        .iter()
        .map(|f| f.destination.as_str().len())
        .max()
        .unwrap_or(0);
    assert!(
        longest > 100,
        "fixture should exercise long paths, got {longest}"
    );
}

#[test]
fn only_files_that_can_run_keep_the_executable_bit() {
    let fx = Fixture::new("shebang-gate");
    let mut paths = vec![fx.write("app.js", "#!/usr/bin/env node\nconsole.log(1);\n")];
    paths.push(fx.write("lib/module.js", "module.exports = 1;\n"));
    paths.push(fx.write("lib/data.json", "{}\n"));
    paths.push(fx.path("package.json"));
    for path in &paths {
        fx.chmod(&path, 0o775);
    }

    let (plan, _) = planned(&fx, &fx.config(), &["app.js", "lib", "package.json"])
    .expect("should plan");
    let mode_of = |suffix: &str| {
        plan.files
            .iter()
            .find(|f| f.destination.as_str().ends_with(suffix))
            .map_or_else(|| panic!("{suffix} should be planned"), |f| f.mode)
    };

    assert_eq!(
        mode_of("/app.js"),
        0o755,
        "a shebang script stays executable"
    );
    assert_eq!(
        mode_of("/module.js"),
        0o644,
        "a module without a shebang is data"
    );
    assert_eq!(mode_of("/data.json"), 0o644);
    assert_eq!(mode_of("/package.json"), 0o644);
}

#[test]
fn a_daemon_entrypoint_without_a_shebang_is_refused() {
    let fx = Fixture::new("entrypoint-no-shebang");
    fx.write(
        "package.json",
        r#"{"name":"probe-app","version":"1.2.3","description":"d","author":"A <a@example.com>",
            "nativepkg":{"init":"systemd","entrypoints":{"daemon":"app.js"}}}"#,
    );
    let app = fx.path("app.js");
    fx.put(&app, "module.exports = 1;\n");
    fx.chmod(&app, 0o755);

    let err = planned(&fx, &fx.config(), &["app.js"])
        .expect_err("an entry point the kernel cannot exec must be refused");
    let msg = err.text();
    assert!(msg.contains("app.js"), "{msg}");
    assert!(
        msg.contains("#!/usr/bin/env node"),
        "the message says how to fix it: {msg}"
    );
}

#[test]
fn a_symlinked_entrypoint_is_checked_through_its_target() {
    let fx = Fixture::new("entrypoint-symlink");
    fx.write(
        "package.json",
        r#"{"name":"probe-app","version":"1.2.3","description":"d","author":"A <a@example.com>",
            "nativepkg":{"init":"systemd","entrypoints":{"daemon":"lib/app.js"}}}"#,
    );
    let real = fx.write("lib/real.js", "module.exports = 1;\n");
    fx.chmod(&real, 0o755);
    fx.link("real.js", "lib/app.js");

    let err = planned(&fx, &fx.config(), &["lib"])
        .expect_err("the target cannot be executed, so the link cannot either");
    assert!(
        err.text().contains("real.js"),
        "names the target: {err:?}"
    );
}

#[test]
fn a_symlink_passed_as_an_input_cannot_silently_rename_the_entrypoint() {
    let fx = Fixture::new("entrypoint-input-symlink");
    let real = fx.write("real.js", "#!/usr/bin/env node\nconsole.log(1);\n");
    fx.chmod(&real, 0o755);
    fx.link("real.js", "app.js");

    let err = full_plan(&fx, &["app.js", "real.js"])
        .expect_err("the entry point named by the wrapper is not in the package");
    let msg = err.text();
    assert!(
        msg.contains("app.js") && msg.contains("not in the package"),
        "{msg}"
    );
}

#[test]
fn a_cli_entrypoint_without_a_shebang_is_refused_even_with_no_service() {
    let fx = Fixture::new("cli-entrypoint-no-shebang");
    let cli = fx.path("app.js");
    fx.put(&cli, "module.exports = 1;\n");
    fx.chmod(&cli, 0o755);

    let err = planned(&fx, &fx.config(), &["app.js"])
        .expect_err("the wrapper executes this file directly");
    let msg = err.text();
    assert!(msg.contains("app.js") && msg.contains("wrapper"), "{msg}");
}

#[test]
fn a_broken_cli_entrypoint_is_refused_when_the_daemon_one_is_fine() {
    let fx = Fixture::new("cli-broken-daemon-fine");
    fx.write(
        "package.json",
        r#"{"name":"probe-app","version":"1.2.3","description":"d","author":"A <a@example.com>",
            "nativepkg":{"init":"systemd","entrypoints":{"daemon":"app.js","cli":"cli.js"}}}"#,
    );
    let app = fx.write("app.js", "#!/usr/bin/env node\nconsole.log(1);\n");
    let cli = fx.write("cli.js", "console.log(2);\n");
    for p in [&app, &cli] {
        fx.chmod(&p, 0o755);
    }

    let err = planned(&fx, &fx.config(), &["app.js", "cli.js"])
        .expect_err("the cli entry point cannot be executed");
    assert!(err.text().contains("cli.js"), "{err:?}");
}

#[test]
fn an_entrypoint_spelled_with_a_leading_dot_slash_is_accepted() {

    let fx = Fixture::new("dot-slash-entrypoint");
    fx.write(
        "package.json",
        r#"{"name":"probe-app","version":"1.2.3","description":"d","author":"A <a@example.com>",
            "nativepkg":{"init":"none","entrypoints":{"cli":"./app.js"}}}"#,
    );
    fx.write("app.js", "console.log(1);\n");

    let built = full_plan(&fx, &["app.js"])
        .expect("`./app.js` and `app.js` are the same file");
    assert!(
        built
            .files
            .iter()
            .any(|f| f.destination.as_str() == "/usr/lib/probe-app/app/app.js"),
        "the entry point is planned under its normalised destination"
    );
}

#[test]
fn a_file_in_the_place_of_the_executable_link_is_an_error() {
    let fx = Fixture::new("link-collision");
    fx.write("app.js", "x\n");
    fx.write("extra/usr/bin/probe-app", "mine\n");
    let overrides = Overrides {
        extra_files: Some("extra".into()),
        ..Overrides::default()
    };
    let err = planned(&fx, &fx.config_with(&overrides), &["app.js"])
        .expect_err("two entries at one destination");
    let message = err.text();
    assert!(message.contains("both install to `/usr/bin/probe-app`"), "{message}");
    assert!(message.contains("<generated>"), "{message}");
}
