use std::cell::RefCell;
use std::collections::BTreeMap;

use nativepkg::cli::{Cli, InitChoice, StrategyChoice};
use nativepkg::deb::read;
use nativepkg::format::Format;
use nativepkg::npm::{
    setting_keys, Entrypoints, InitSystem, InstallStrategy, Manifest, Settings, Templates,
};
use nativepkg::packing::{SourceFile, Sources};
use nativepkg::plan::BuildPlan;
use nativepkg::report::{describe, Failure, Reporter, Verbosity};
use nativepkg::resolve::ResolvedConfig;
use nativepkg::run::{
    self, attempt, candidates, configure, described_plan, inputs_for, template_replacements,
    warn_unsupported, TemplateOverride,
};
use nativepkg::strmap::StrMap;
use nativepkg::survey::{FileFacts, Input, LinkTarget, Node, NodeKind, Place, Survey};

const PLAIN: &str =
    r#"{"package_name":"probe","version":"1.0.0","description":"p","maintainer":"A <a@x.y>"}"#;

fn text(v: &serde_json::Value, key: &str) -> Option<String> {
    v.get(key).and_then(|x| x.as_str()).map(str::to_owned)
}

fn init(name: &str) -> InitSystem {
    match name {
        "auto" => InitSystem::Auto,
        "systemd" => InitSystem::Systemd,
        "upstart" => InitSystem::Upstart,
        "sysv" => InitSystem::Sysv,
        "none" => InitSystem::NoInit,
        other => panic!("no init system is called {other}"),
    }
}

fn strategy(name: &str) -> InstallStrategy {
    match name {
        "auto" => InstallStrategy::Auto,
        "copy" => InstallStrategy::Copy,
        "npm-install" => InstallStrategy::NpmInstall,
        other => panic!("no install strategy is called {other}"),
    }
}

fn settings(v: &serde_json::Value) -> Settings {
    let mut unknown = StrMap::new();
    for key in v.as_object().expect("an object").keys() {
        if !setting_keys().contains(&key.as_str()) {
            unknown.insert(key.clone(), ());
        }
    }
    Settings {
        package_name: text(v, "package_name"),
        version: text(v, "version"),
        epoch: v.get("epoch").and_then(|x| x.as_u64()).map(|n| n as u32),
        description: text(v, "description"),
        maintainer: text(v, "maintainer"),
        homepage: text(v, "homepage"),
        license: text(v, "license"),
        architecture: text(v, "architecture"),
        dependencies: text(v, "dependencies"),
        install_dir: text(v, "install_dir"),
        user: text(v, "user"),
        group: text(v, "group"),
        executable_name: text(v, "executable_name"),
        output_deb_name: text(v, "output_deb_name"),
        extra_files: text(v, "extra_files"),
        triggers_file: text(v, "triggers_file"),
        init: text(v, "init").map(|s| init(&s)),
        install_strategy: text(v, "install_strategy").map(|s| strategy(&s)),
        install_command: text(v, "install_command"),
        install_binary: text(v, "install_binary"),
        entrypoints: v.get("entrypoints").filter(|e| e.is_object()).map(|e| Entrypoints {
            daemon: text(e, "daemon"),
            cli: text(e, "cli"),
        }),
        templates: v.get("templates").filter(|t| t.is_object()).map(|t| Templates {
            executable: text(t, "executable"),
            systemd_service: text(t, "systemd_service"),
            ..Templates::default()
        }),
        unknown,
    }
}


#[derive(Clone)]
enum Thing {
    Dir,
    File { bytes: Vec<u8>, mode: u32 },
    Link(String),
}

struct Fixture {
    root: String,
    held: RefCell<BTreeMap<String, Thing>>,
}

impl Fixture {
    fn new(name: &str, settings: &str) -> Self {
        let root = format!("/tmp/nativepkg-run-{name}");
        let me = Self { root, held: RefCell::new(BTreeMap::new()) };
        me.put(&me.path(".nativepkg"), settings);
        me.script("index.js", "#!/usr/bin/env node\nconsole.log(1)\n");
        me
    }

    fn script(&self, relative: &str, contents: &str) {
        let path = self.path(relative);
        self.put(&path, contents);
        self.chmod(&path, 0o755);
    }

    fn read(&self, path: &str) -> Result<Vec<u8>, String> {
        match self.thing(path) {
            Some(Thing::File { bytes, .. }) => Ok(bytes),
            _ => Err("No such file or directory".to_owned()),
        }
    }

    fn path(&self, relative: &str) -> String {
        format!("{}/{relative}", self.root)
    }

    fn hold(&self, path: &str, thing: Thing) {
        let mut held = self.held.borrow_mut();
        for (at, _) in path.match_indices('/').skip(1) {
            held.entry(path[..at].to_owned()).or_insert(Thing::Dir);
        }
        held.insert(path.to_owned(), thing);
    }

    fn put(&self, path: &str, contents: &str) {
        self.hold(path, Thing::File { bytes: contents.as_bytes().to_vec(), mode: 0o644 });
    }

    fn chmod(&self, path: &str, to: u32) {
        match self.held.borrow_mut().get_mut(path) {
            Some(Thing::File { mode, .. }) => *mode = to,
            _ => panic!("no file at {path}"),
        }
    }

    fn thing(&self, path: &str) -> Option<Thing> {
        self.held.borrow().get(path).cloned()
    }

    fn canonical(&self, path: &str) -> Option<String> {
        let mut todo: Vec<String> = path.split('/').rev().map(str::to_owned).collect();
        let mut at = String::new();
        let mut hops = 0;
        while let Some(name) = todo.pop() {
            if name.is_empty() || name == "." {
                continue;
            }
            if name == ".." {
                let cut = at.rfind('/').unwrap_or(0);
                at.truncate(cut);
                continue;
            }
            let next = format!("{at}/{name}");
            match self.thing(&next)? {
                Thing::Link(target) => {
                    hops += 1;
                    if hops > 40 {
                        return None;
                    }
                    if target.starts_with('/') {
                        at.clear();
                    }
                    todo.extend(target.split('/').rev().map(str::to_owned));
                }
                _ => at = next,
            }
        }
        Some(if at.is_empty() { "/".to_owned() } else { at })
    }

    fn facts(&self, path: &str) -> Option<FileFacts> {
        match self.thing(path)? {
            Thing::File { bytes, mode } => {
                Some(FileFacts { mode, head: bytes.iter().copied().take(4).collect() })
            }
            Thing::Dir => Some(FileFacts { mode: 0o755, head: Vec::new() }),
            Thing::Link(_) => None,
        }
    }

    fn walk(&self, dir: &str, nodes: &mut Vec<Node>) {
        let prefix = format!("{dir}/");
        let children: Vec<String> = self
            .held
            .borrow()
            .keys()
            .filter(|k| k.starts_with(&prefix) && !k[prefix.len()..].contains('/'))
            .cloned()
            .collect();
        for path in children {
            match self.thing(&path) {
                Some(Thing::Dir) => {
                    nodes.push(Node { path: path.clone(), kind: NodeKind::Directory });
                    self.walk(&path, nodes);
                }
                Some(Thing::File { bytes, .. }) => {
                    let facts = self.facts(&path).expect("a file");
                    let len = bytes.len() as u64;
                    nodes.push(Node { path, kind: NodeKind::File { len, modified: 1_650_000_000, facts } });
                }
                Some(Thing::Link(_)) => {
                    let target = match self.canonical(&path) {
                        None => LinkTarget::Dangling,
                        Some(found) => {
                            let facts = self.facts(&found);
                            LinkTarget::Resolved { path: found, facts }
                        }
                    };
                    nodes.push(Node { path, kind: NodeKind::Symlink(target) });
                }
                None => unreachable!("{path} was listed"),
            }
        }
    }

    fn place(&self, root: &str, relative: &str) -> Place {
        match self.canonical(&format!("{root}/{relative}")) {
            None => Place::Missing,
            Some(path) => Place::At { path },
        }
    }

    fn is_dir(&self, place: &Place) -> bool {
        matches!(place, Place::At { path } if matches!(self.thing(path), Some(Thing::Dir)))
    }

    fn survey_at(&self, root: &str, config: &ResolvedConfig, inputs: &[&str]) -> Survey {
        let root = self.canonical(root).expect("the project is there");
        let mut nodes = Vec::new();
        self.walk(&root, &mut nodes);
        let manifest = self.place(&root, "package.json");
        let dependencies = self.place(&root, "node_modules");
        let extra = config.extra_files.as_deref().map(|name| self.place(&root, name));
        Survey {
            nodes,
            inputs: inputs
                .iter()
                .map(|label| Input {
                    label: (*label).to_owned(),
                    place: self.place(&root, label),
                })
                .collect(),
            manifest: (!self.is_dir(&manifest) && !matches!(manifest, Place::Missing))
                .then_some(manifest),
            dependencies: self.is_dir(&dependencies).then_some(dependencies),
            extra: extra.filter(|place| self.is_dir(place)),
            workspaces: config
                .workspace_roots
                .iter()
                .filter_map(|relative| self.canonical(&format!("{root}/{relative}")))
                .collect(),
            root,
        }
    }

    fn survey(&self, config: &ResolvedConfig, inputs: &[&str]) -> Survey {
        self.survey_at(&self.root, config, inputs)
    }

    fn manifest(&self) -> Manifest {
        let bytes = self.read(&self.path(".nativepkg")).expect("the settings");
        let json = String::from_utf8(bytes).expect("the settings are text");
        let value: serde_json::Value = serde_json::from_str(&json).expect("the settings parse");
        Manifest { nativepkg: Some(settings(&value)), ..Manifest::default() }
    }

    fn sources(&self) -> Sources {
        let mut sources = Sources::new();
        for (path, thing) in self.held.borrow().iter() {
            if let Thing::File { bytes, .. } = thing {
                let read = SourceFile { bytes: bytes.clone(), modified: 1_650_000_000 };
                sources = sources.with(path.clone(), Ok(read));
            }
        }
        sources
    }

    fn overrides(&self, cli: &Cli, config: &ResolvedConfig) -> Vec<TemplateOverride> {
        template_replacements(cli, config)
            .into_iter()
            .map(|(name, path)| {
                let read = self
                    .read(&self.path(&path))
                    .map(|bytes| String::from_utf8(bytes).expect("the template is text"));
                TemplateOverride { name: name.to_owned(), path, read }
            })
            .collect()
    }

    fn planned(
        &self,
        cli: &Cli,
        reporter: &mut Reporter,
    ) -> Result<(ResolvedConfig, BuildPlan), Failure> {
        let config = configure(cli, &self.manifest(), reporter)?;
        let existing: Vec<String> = candidates(&config)
            .into_iter()
            .filter(|path| self.canonical(&self.path(path)).is_some())
            .collect();
        let inputs = inputs_for(cli, &config, &existing)?;
        let named: Vec<&str> = inputs.iter().map(String::as_str).collect();
        let survey = self.survey(&config, &named);
        let plan = run::plan(&config, &survey, Some("1700000000"), None, reporter)?;
        Ok((config, plan))
    }

    fn build(&self, cli: &Cli) -> Result<read::Package, Failure> {
        let mut reporter = Reporter::new(Verbosity::Quiet);
        let (config, plan) = self.planned(cli, &mut reporter)?;
        let triggers = config.triggers_file.as_ref().map(|path| self.read(&self.path(path)));
        let overrides = self.overrides(cli, &config);
        let package = attempt(
            Format::Deb,
            &plan,
            &config,
            "0.1.0",
            &overrides,
            triggers,
            &self.sources(),
        )?;
        Ok(read::parse(&package.bytes).expect("a readable .deb"))
    }
}

fn some(value: &str) -> Option<String> {
    Some(value.to_owned())
}

fn told(failure: &Failure) -> String {
    (0..failure.len()).map(|i| failure.link(i)).collect::<Vec<_>>().join("\n")
}

fn service() -> Cli {
    Cli {
        quiet: true,
        daemon_entrypoint: some("index.js"),
        inputs: vec!["index.js".to_owned()],
        ..Cli::default()
    }
}

fn key_ending(package: &read::Package, end: &str) -> Option<String> {
    (0..package.data.len())
        .map(|i| package.data.key_at(i).to_owned())
        .find(|k| k.ends_with(end))
}

#[test]
fn a_quote_in_install_dir_is_refused_before_it_reaches_a_root_script() {
    let project = Fixture::new("install-dir", PLAIN);
    let cli = Cli {
        install_dir: some("/usr/lib/x'; touch /tmp/PWNED; y='"),
        ..service()
    };
    let stderr = told(&project.build(&cli).expect_err("must not build"));
    assert!(
        stderr.contains("install_dir") && stderr.contains('\''),
        "{stderr}"
    );
}

#[test]
fn a_path_in_executable_name_cannot_leave_usr_bin() {
    let project = Fixture::new("exec-name", PLAIN);
    let cli = Cli { executable_name: some("../../etc/cron.d/evil"), ..service() };
    let stderr = told(&project.build(&cli).expect_err("must not build"));
    assert!(stderr.contains("executable_name"), "{stderr}");
}

#[test]
fn a_line_break_in_author_cannot_add_control_fields() {
    let project = Fixture::new(
        "author",
        r#"{"package_name":"probe","version":"1.0.0","description":"p","maintainer":"A <a@x.y>\nPre-Depends: evil"}"#,
    );
    let stderr = told(&project.build(&service()).expect_err("must not build"));
    assert!(
        stderr.contains("maintainer") && stderr.contains("line break"),
        "{stderr}"
    );
}

#[test]
fn a_line_break_in_homepage_cannot_add_control_fields() {
    let project = Fixture::new(
        "homepage",
        r#"{"package_name":"probe","version":"1.0.0","description":"p","maintainer":"A <a@x.y>","homepage":"http://x\nEssential: yes"}"#,
    );
    let stderr = told(&project.build(&service()).expect_err("must not build"));
    assert!(stderr.contains("homepage"), "{stderr}");
}

#[test]
fn a_second_description_line_is_a_body_not_a_unit_directive() {
    let project = Fixture::new(
        "description-unit",
        r#"{"package_name":"probe","version":"1.0.0","description":"p\nExecStartPre=/bin/touch /tmp/PWNED","maintainer":"A <a@x.y>"}"#,
    );
    let cli = Cli { init: Some(InitChoice::Systemd), ..service() };
    let package = project.build(&cli).expect("a multi-line description is legitimate");
    let unit = key_ending(&package, "probe.service").expect("the unit is shipped");
    let text = package.data_text(&unit);
    assert!(text.contains("Description=p\n"), "{text}");
    assert!(
        !text.contains("ExecStartPre"),
        "the body leaked into the unit:\n{text}"
    );
}

#[test]
fn shell_metacharacters_in_a_description_are_quoted_in_the_init_script() {
    let project = Fixture::new(
        "description-sysv",
        r#"{"package_name":"probe","version":"1.0.0","description":"p\" ; touch /tmp/PWNED ; echo \"$x`y`","maintainer":"A <a@x.y>"}"#,
    );
    let cli = Cli { init: Some(InitChoice::Sysv), ..service() };
    let package = project.build(&cli).expect("builds");
    let script = key_ending(&package, "init.d/probe").expect("the init script is shipped");
    let text = package.data_text(&script);
    let line = text
        .lines()
        .find(|l| l.starts_with("DESCRIPTION="))
        .expect("the DESCRIPTION line");
    assert_eq!(
        line,
        r#"DESCRIPTION="p\" ; touch /tmp/PWNED ; echo \"\$x\`y\`""#
    );
}

#[test]
fn an_entrypoint_with_a_shell_metacharacter_is_refused() {
    let project = Fixture::new("entrypoint", PLAIN);
    let cli = Cli { cli_entrypoint: some("index.js; touch /tmp/PWNED"), ..service() };
    let stderr = told(&project.build(&cli).expect_err("must not build"));
    assert!(stderr.contains("entrypoint"), "{stderr}");
}

fn install_time(name: &str, command: Option<String>, lock: bool) -> read::Package {
    let project = Fixture::new(
        name,
        r#"{"package_name":"svc","version":"1.0.0","description":"d","maintainer":"A <a@x.y>"}"#,
    );
    if lock {
        project.put(&project.path("pnpm-lock.yaml"), "lock\n");
    }
    let cli = Cli {
        install_dir: some("/opt/test"),
        executable_name: some("svc"),
        init: Some(InitChoice::NoInit),
        install_strategy: Some(StrategyChoice::NpmInstall),
        install_command: command,
        ..service()
    };
    project.build(&cli).expect("builds")
}

#[test]
fn npm_install_uses_plain_npm_by_default() {
    let package = install_time("default", None, false);
    let post = package.script_bodies.get("postinst").expect("a postinst is generated");
    assert!(post.contains("command -v npm"), "{post}");
    assert!(
        post.contains("npm install --omit=dev --ignore-scripts --no-audit --no-fund"),
        "{post}"
    );
}

#[test]
fn a_custom_install_command_is_used_verbatim_and_guards_its_own_binary() {
    let package = install_time("custom", some("pnpm install --prod --frozen-lockfile"), false);
    let post = package.script_bodies.get("postinst").expect("a postinst is generated");
    assert!(
        post.contains("pnpm install --prod --frozen-lockfile"),
        "{post}"
    );
    assert!(post.contains("command -v pnpm"), "{post}");
    assert!(
        !post.contains("command -v npm"),
        "npm should not be the guard: {post}"
    );
}

#[test]
fn a_lock_file_is_not_shipped_unless_it_is_named_as_an_input() {
    let package = install_time("no-auto-lock", None, true);
    assert!(
        key_ending(&package, "pnpm-lock.yaml").is_none(),
        "a lock file must not be shipped automatically: {:?}",
        package.data_order
    );
}

#[test]
fn a_dot_nativepkg_file_is_enough_without_a_package_json() {
    let project = Fixture::new(
        "dotfile",
        r#"{"package_name":"shelltool","version":"2.0.0","description":"a shell service","maintainer":"Dev <dev@example.com>","init":"none","entrypoints":{"cli":"run.sh"}}"#,
    );
    project.script("run.sh", "#!/bin/sh\necho hi\n");
    let cli = Cli { inputs: vec!["run.sh".to_owned()], ..Cli::default() };
    let package = project.build(&cli).expect("builds");
    assert_eq!(package.control.get("Package"), Some("shelltool"));
    assert_eq!(package.control.get("Version"), Some("2.0.0"));
    assert_eq!(package.control.get("Maintainer"), Some("Dev <dev@example.com>"));
}

#[test]
fn metadata_can_come_entirely_from_flags_with_no_manifest_at_all() {
    let project = Fixture::new("flags", "{}");
    project.script("tool.sh", "#!/bin/sh\necho hi\n");
    let cli = Cli {
        package_name: some("flagtool"),
        version: some("3.1.0"),
        description: some("all from flags"),
        maintainer: some("F <f@example.com>"),
        init: Some(InitChoice::NoInit),
        cli_entrypoint: some("tool.sh"),
        inputs: vec!["tool.sh".to_owned()],
        ..Cli::default()
    };
    let package = project.build(&cli).expect("builds");
    assert_eq!(package.control.get("Package"), Some("flagtool"));
    assert_eq!(package.control.get("Version"), Some("3.1.0"));
}

#[test]
fn a_triggers_file_reaches_the_control_archive_verbatim() {
    let project = Fixture::new("triggers", PLAIN);
    project.put(&project.path("my.triggers"), "interest-noawait /usr/lib/probe-app\n");
    let cli = Cli { triggers_file: some("my.triggers"), ..service() };
    let package = project.build(&cli).expect("builds");
    assert_eq!(
        package.script_bodies.get("triggers"),
        Some("interest-noawait /usr/lib/probe-app\n")
    );
}

#[test]
fn service_details_are_taken_entirely_from_the_command_line() {
    let project = Fixture::new(
        "hello-svc",
        r#"{"package_name":"hello-svc","version":"1.0.0","maintainer":"A <a@x.y>"}"#,
    );
    project.put(&project.path("package.json"), "{}\n");
    let cli = Cli {
        install_dir: some("/opt/test"),
        executable_name: some("hello"),
        init: Some(InitChoice::Systemd),
        user: some("hello"),
        group: some("hello"),
        description: some("Writes a greeting to its log every second."),
        inputs: vec!["index.js".to_owned(), "package.json".to_owned()],
        ..service()
    };
    let package = project.build(&cli).expect("builds");
    for path in [
        "opt/test/hello-svc/app/index.js",
        "opt/test/hello-svc/bin/hello",
        "usr/bin/hello",
        "usr/lib/systemd/system/hello-svc.service",
    ] {
        assert!(
            package.data.contains_key(path),
            "`{path}` missing:\n{:#?}",
            package.data_order
        );
    }
    let unit = package.data_text("usr/lib/systemd/system/hello-svc.service");
    assert!(
        unit.contains("ExecStart=/opt/test/hello-svc/app/index.js"),
        "{unit}"
    );
    assert!(unit.contains("User=hello"), "{unit}");
}

#[test]
fn a_bare_invocation_packages_the_entrypoints() {
    let project = Fixture::new("bare", PLAIN);
    project.script("app.js", "#!/usr/bin/env node\n");
    project.put(&project.path("lib/one.js"), "1\n");
    let cli = Cli { daemon_entrypoint: some("app.js"), ..Cli::default() };
    let mut reporter = Reporter::new(Verbosity::Quiet);
    let (_, plan) = project.planned(&cli, &mut reporter).expect("plans");
    let destinations: Vec<&str> = plan.files.iter().map(|f| f.destination.as_str()).collect();
    assert!(
        destinations.contains(&"/usr/lib/probe/app/app.js"),
        "the daemon entry point must be packaged without being named:\n{destinations:#?}"
    );
    assert!(destinations.contains(&"/usr/lib/probe/app/index.js"));
    assert!(destinations.contains(&"/usr/lib/probe/app/lib/one.js"));
}

#[test]
fn default_inputs_are_those_that_exist_and_each_once() {
    let project = Fixture::new("inputs", PLAIN);
    let cli = Cli {
        daemon_entrypoint: some("index.js"),
        cli_entrypoint: some("bin/tool"),
        ..Cli::default()
    };
    let mut reporter = Reporter::new(Verbosity::Quiet);
    let config = configure(&cli, &project.manifest(), &mut reporter).expect("resolves");
    assert_eq!(
        candidates(&config),
        vec!["index.js", "bin/tool", "package.json", "lib", "src", "bin", "index.js"]
    );
    let existing = vec!["index.js".to_owned(), "lib".to_owned()];
    assert_eq!(
        inputs_for(&cli, &config, &existing).expect("something to package"),
        vec!["index.js", "lib"]
    );
    let failure = inputs_for(&cli, &config, &Vec::new()).expect_err("nothing to package");
    assert!(failure.text().starts_with("nothing to package: "), "{failure:?}");

    let named = Cli { inputs: vec!["a".to_owned(), "a".to_owned()], ..Cli::default() };
    assert_eq!(inputs_for(&named, &config, &existing).expect("named"), vec!["a", "a"]);
}

#[test]
fn the_dry_run_reports_a_version_per_format() {
    let project = Fixture::new(
        "versions",
        r#"{"package_name":"probe-app","version":"1.2.3","description":"p","maintainer":"A <a@x.y>"}"#,
    );
    let cli = Cli {
        epoch: Some(1),
        format: vec![Format::Deb, Format::Rpm],
        ..service()
    };
    let mut reporter = Reporter::new(Verbosity::Quiet);
    let (config, plan) = project.planned(&cli, &mut reporter).expect("plans");
    let described =
        described_plan(&cli.format, &plan, &config, "0.1.0", &Vec::new()).expect("describes");
    let run = describe(&described, &config, &cli.format);
    assert_eq!(run.package, "probe-app");
    assert_eq!(
        run.versions,
        vec![("deb", "1:1.2.3".to_owned()), ("rpm", "1.2.3".to_owned())]
    );
    let destinations: Vec<&str> = run.files.iter().map(|f| f.destination.as_str()).collect();
    for expected in [
        "/usr/bin/probe-app",
        "/usr/lib/probe-app/bin/probe-app",
        "/usr/lib/systemd/system/probe-app.service",
        "/etc/default/probe-app",
    ] {
        assert!(
            destinations.contains(&expected),
            "`{expected}` is missing from the dry run:\n{destinations:#?}"
        );
    }

    reporter.dry_run(&described, &config, &cli.format);
    assert!(
        reporter.out.starts_with("probe-app 1:1.2.3 would be built for: deb, rpm\n"),
        "{}",
        reporter.out
    );
}

#[test]
fn warnings_come_in_order_and_before_any_package() {
    let project = Fixture::new(
        "warnings",
        r#"{"package_name":"probe","version":"1.0.0","description":"p","maintainer":"A <a@x.y>","instal_dir":"/opt"}"#,
    );
    let cli = Cli { arch_deprecated: some("amd64"), verbose: true, ..service() };
    let mut reporter = Reporter::new(Verbosity::Verbose);
    let (config, _) = project.planned(&cli, &mut reporter).expect("plans");
    warn_unsupported(&vec![Format::Deb, Format::Arch], &config, &mut reporter);
    let lines: Vec<&str> = reporter.err.lines().collect();
    assert_eq!(lines[0], "warning: `--arch` is deprecated; use `--architecture`");
    assert!(lines.iter().any(|l| l.contains("did you mean `install_dir`?")), "{lines:?}");
    assert_eq!(lines[lines.len() - 1], "note: timestamp source: SourceDateEpoch");

    let mut reporter = Reporter::new(Verbosity::Normal);
    let sysv = Cli { init: Some(InitChoice::Sysv), ..service() };
    let config = configure(&sysv, &Fixture::new("s", PLAIN).manifest(), &mut reporter)
        .expect("resolves");
    warn_unsupported(&vec![Format::Rpm, Format::Arch], &config, &mut reporter);
    assert_eq!(
        reporter.err,
        "warning: arch: Arch Linux has been systemd-only for over a decade, so `init: sysv` cannot be honoured; the package will carry no service lifecycle\n"
    );
}

#[test]
fn a_configuration_that_does_not_resolve_says_what_was_attempted() {
    let project = Fixture::new("unresolved", "{}");
    let failure = project.build(&service()).expect_err("nothing was named");
    assert_eq!(failure.text(), "resolving configuration");
    assert!(failure.len() >= 2);
}

#[test]
fn an_input_that_is_missing_says_what_was_attempted() {
    let project = Fixture::new("missing-input", PLAIN);
    let cli = Cli { inputs: vec!["nope.js".to_owned()], ..service() };
    let failure = project.build(&cli).expect_err("the input is missing");
    assert_eq!(failure.text(), "planning the package");
    assert_eq!(failure.link(1), "manifest error: input `nope.js` does not exist");
}

#[test]
fn a_template_can_be_replaced_from_the_settings_and_a_flag_wins() {
    let project = Fixture::new(
        "templates",
        r#"{"package_name":"probe","version":"1.0.0","description":"p","maintainer":"A <a@x.y>",
            "init":"systemd","templates":{"systemd_service":"mine.service"}}"#,
    );
    project.put(&project.path("mine.service"), "[Unit]\nDescription=mine {{package_name}}\n");
    project.put(&project.path("flag.service"), "[Unit]\nDescription=flag\n");
    let unit = "usr/lib/systemd/system/probe.service";

    let package = project.build(&service()).expect("builds");
    assert_eq!(package.data_text(unit), "[Unit]\nDescription=mine probe\n");

    let cli = Cli { template_systemd_service: some("flag.service"), ..service() };
    let package = project.build(&cli).expect("builds");
    assert_eq!(package.data_text(unit), "[Unit]\nDescription=flag\n");

    let cli = Cli { template_systemd_service: some("gone.service"), ..service() };
    let failure = project.build(&cli).expect_err("the replacement is missing");
    assert_eq!(failure.text(), "loading template `systemd.service`");
    assert_eq!(failure.link(2), "No such file or directory");
}

#[test]
fn an_unknown_placeholder_is_told_with_its_template() {
    let project = Fixture::new("placeholder", PLAIN);
    project.put(&project.path("bad"), "{{no_such_variable}}\n");
    let cli = Cli { template_executable: some("bad"), ..service() };
    let failure = project.build(&cli).expect_err("not a variable");
    assert_eq!(failure.text(), "rendering template `executable`");
}
