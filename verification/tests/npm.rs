use nativepkg::npm::{
    command_binary, setting_keys, Author, Entrypoints, InitSystem, InstallStrategy, Manifest, Settings, Workspaces,
};
use nativepkg::strmap::StrMap;

fn text(v: &serde_json::Value, key: &str) -> Option<String> {
    v.get(key).and_then(|x| x.as_str()).map(str::to_owned)
}

fn texts(v: &serde_json::Value) -> Vec<String> {
    let items = v.as_array().expect("an array");
    items.iter().map(|x| x.as_str().expect("text").to_owned()).collect()
}

fn author(v: &serde_json::Value) -> Author {
    match v.as_str() {
        Some(s) => Author::Text(s.to_owned()),
        None => Author::Structured {
            name: text(v, "name").expect("an author's name"),
            email: text(v, "email"),
        },
    }
}

fn workspaces(v: &serde_json::Value) -> Workspaces {
    match v.get("packages") {
        Some(packages) => Workspaces::Object { packages: texts(packages) },
        None => Workspaces::Patterns(texts(v)),
    }
}

fn init(name: &str) -> InitSystem {
    match name {
        "auto" => InitSystem::Auto,
        "systemd" => InitSystem::Systemd,
        "upstart" => InitSystem::Upstart,
        "sysv" => InitSystem::Sysv,
        "none" => InitSystem::NoInit,
        other => panic!("no init system is called {other}"),
    }
}

fn strategy(name: &str) -> InstallStrategy {
    match name {
        "auto" => InstallStrategy::Auto,
        "copy" => InstallStrategy::Copy,
        "npm-install" => InstallStrategy::NpmInstall,
        other => panic!("no install strategy is called {other}"),
    }
}

fn settings(v: &serde_json::Value) -> Settings {
    let mut unknown = StrMap::new();
    for key in v.as_object().expect("an object").keys() {
        if !setting_keys().contains(&key.as_str()) {
            unknown.insert(key.clone(), ());
        }
    }
    Settings {
        package_name: text(v, "package_name"),
        version: text(v, "version"),
        epoch: v.get("epoch").and_then(|x| x.as_u64()).map(|n| n as u32),
        description: text(v, "description"),
        maintainer: text(v, "maintainer"),
        homepage: text(v, "homepage"),
        license: text(v, "license"),
        architecture: text(v, "architecture"),
        dependencies: text(v, "dependencies"),
        install_dir: text(v, "install_dir"),
        user: text(v, "user"),
        group: text(v, "group"),
        executable_name: text(v, "executable_name"),
        output_deb_name: text(v, "output_deb_name"),
        extra_files: text(v, "extra_files"),
        triggers_file: text(v, "triggers_file"),
        init: text(v, "init").map(|s| init(&s)),
        install_strategy: text(v, "install_strategy").map(|s| strategy(&s)),
        install_command: text(v, "install_command"),
        install_binary: text(v, "install_binary"),
        entrypoints: v.get("entrypoints").filter(|e| e.is_object()).map(|e| Entrypoints {
            daemon: text(e, "daemon"),
            cli: text(e, "cli"),
        }),
        templates: None,
        unknown,
    }
}

fn parse(json: &str) -> Manifest {
    let v: serde_json::Value = serde_json::from_str(json).expect("test fixture should deserialise");
    Manifest {
        name: text(&v, "name"),
        version: text(&v, "version"),
        description: text(&v, "description"),
        author: v.get("author").map(author),
        workspaces: v.get("workspaces").map(workspaces),
        homepage: text(&v, "homepage"),
        license: text(&v, "license"),
        nativepkg: v.get("nativepkg").map(settings),
    }
}

#[test]
fn the_guard_binary_skips_environment_assignments() {
    assert_eq!(command_binary("pnpm install --prod").as_deref(), Some("pnpm"));
    assert_eq!(
        command_binary("YARN_ENABLE_SCRIPTS=false yarn workspaces focus").as_deref(),
        Some("yarn")
    );
    assert_eq!(command_binary("  npm ci  ").as_deref(), Some("npm"));
    assert_eq!(command_binary("FOO=1 BAR=2").as_deref(), None);
    assert_eq!(command_binary("").as_deref(), None);
}

#[test]
fn string_author_becomes_the_maintainer_verbatim() {
    let m = parse(r#"{"author":"Ivan Smirnov <i@example.com>"}"#);
    assert_eq!(
        m.author.unwrap().to_maintainer(),
        "Ivan Smirnov <i@example.com>"
    );
}

#[test]
fn object_author_is_rendered_with_angle_brackets() {
    let m = parse(
        r#"{"author":{"name":"Ivan Smirnov","email":"i@example.com","url":"https://x"}}"#,
    );
    assert_eq!(
        m.author.unwrap().to_maintainer(),
        "Ivan Smirnov <i@example.com>"
    );
}

#[test]
fn object_author_without_email_renders_the_name_only() {
    let m = parse(r#"{"author":{"name":"Ivan Smirnov"}}"#);
    assert_eq!(m.author.unwrap().to_maintainer(), "Ivan Smirnov");
}

fn settings_of(json: &str) -> Settings {
    settings(&serde_json::from_str(json).expect("parses"))
}

#[test]
fn an_unknown_setting_key_is_captured_rather_than_ignored() {
    let settings = settings_of(r#"{"not_a_setting": 1}"#);
    assert_eq!(
        settings.unknown_keys(),
        vec![("not_a_setting".to_owned(), None)],
        "unknown keys must be visible, not silently dropped"
    );
}

#[test]
fn a_near_miss_suggests_the_setting_it_resembles() {
    let settings =
        settings_of(r#"{"instal_dir": "/opt", "packge_name": "x", "totally-unrelated": 1}"#);
    let found = settings.unknown_keys();

    assert!(
        found.contains(&("instal_dir".to_owned(), Some("install_dir"))),
        "{found:?}"
    );
    assert!(
        found.contains(&("packge_name".to_owned(), Some("package_name"))),
        "{found:?}"
    );

    assert!(
        found.contains(&("totally-unrelated".to_owned(), None)),
        "{found:?}"
    );
}

#[test]
fn a_real_setting_is_not_reported() {
    for key in setting_keys() {
        let settings = settings_of(&format!("{{\"{key}\": null}}"));
        assert!(
            settings.unknown_keys().is_empty(),
            "`{key}` is a real setting but was reported as unknown"
        );
    }
}
