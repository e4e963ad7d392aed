use nativepkg::error::Error;
use nativepkg::name::InstallDir;
use nativepkg::npm::{
    setting_keys, Author, Entrypoints, InitSystem, InstallStrategy, Manifest, Settings, Workspaces,
};
use nativepkg::resolve::{resolve, Overrides, ResolvedConfig, Warning};
use nativepkg::strmap::StrMap;

fn text(v: &serde_json::Value, key: &str) -> Option<String> {
    v.get(key).and_then(|x| x.as_str()).map(str::to_owned)
}

fn texts(v: &serde_json::Value) -> Vec<String> {
    let items = v.as_array().expect("an array");
    items.iter().map(|x| x.as_str().expect("text").to_owned()).collect()
}

fn author(v: &serde_json::Value) -> Author {
    match v.as_str() {
        Some(s) => Author::Text(s.to_owned()),
        None => Author::Structured {
            name: text(v, "name").expect("an author's name"),
            email: text(v, "email"),
        },
    }
}

fn workspaces(v: &serde_json::Value) -> Workspaces {
    match v.get("packages") {
        Some(packages) => Workspaces::Object { packages: texts(packages) },
        None => Workspaces::Patterns(texts(v)),
    }
}

fn init(name: &str) -> InitSystem {
    match name {
        "auto" => InitSystem::Auto,
        "systemd" => InitSystem::Systemd,
        "upstart" => InitSystem::Upstart,
        "sysv" => InitSystem::Sysv,
        "none" => InitSystem::NoInit,
        other => panic!("no init system is called {other}"),
    }
}

fn strategy(name: &str) -> InstallStrategy {
    match name {
        "auto" => InstallStrategy::Auto,
        "copy" => InstallStrategy::Copy,
        "npm-install" => InstallStrategy::NpmInstall,
        other => panic!("no install strategy is called {other}"),
    }
}

fn settings(v: &serde_json::Value) -> Settings {
    let mut unknown = StrMap::new();
    for key in v.as_object().expect("an object").keys() {
        if !setting_keys().contains(&key.as_str()) {
            unknown.insert(key.clone(), ());
        }
    }
    Settings {
        package_name: text(v, "package_name"),
        version: text(v, "version"),
        epoch: v.get("epoch").and_then(|x| x.as_u64()).map(|n| n as u32),
        description: text(v, "description"),
        maintainer: text(v, "maintainer"),
        homepage: text(v, "homepage"),
        license: text(v, "license"),
        architecture: text(v, "architecture"),
        dependencies: text(v, "dependencies"),
        install_dir: text(v, "install_dir"),
        user: text(v, "user"),
        group: text(v, "group"),
        executable_name: text(v, "executable_name"),
        output_deb_name: text(v, "output_deb_name"),
        extra_files: text(v, "extra_files"),
        triggers_file: text(v, "triggers_file"),
        init: text(v, "init").map(|s| init(&s)),
        install_strategy: text(v, "install_strategy").map(|s| strategy(&s)),
        install_command: text(v, "install_command"),
        install_binary: text(v, "install_binary"),
        entrypoints: v.get("entrypoints").filter(|e| e.is_object()).map(|e| Entrypoints {
            daemon: text(e, "daemon"),
            cli: text(e, "cli"),
        }),
        templates: None,
        unknown,
    }
}

fn manifest(json: &str) -> Manifest {
    let v: serde_json::Value = serde_json::from_str(json).expect("test fixture should deserialise");
    Manifest {
        name: text(&v, "name"),
        version: text(&v, "version"),
        description: text(&v, "description"),
        author: v.get("author").map(author),
        workspaces: v.get("workspaces").map(workspaces),
        homepage: text(&v, "homepage"),
        license: text(&v, "license"),
        nativepkg: v.get("nativepkg").map(settings),
    }
}

#[test]
fn entrypoints_can_come_from_the_command_line_alone() {
    let overrides = Overrides {
        daemon_entrypoint: Some("index.js".into()),
        ..Overrides::default()
    };
    let (cfg, _) = resolve_ok(
        r#"{"name":"app","version":"1.0.0","description":"d","author":"A <a@example.com>"}"#,
        &overrides,
    );
    assert_eq!(cfg.daemon_entrypoint.as_ref().map(|e| e.as_str()), Some("index.js"));
    assert_eq!(
        cfg.cli_entrypoint.as_ref().map(|e| e.as_str()),
        Some("index.js"),
        "cli falls back to daemon, from the override too"
    );
}

#[test]
fn a_command_line_entrypoint_outranks_the_manifest() {
    let overrides = Overrides {
        daemon_entrypoint: Some("from-cli.js".into()),
        cli_entrypoint: Some("cli-from-cli.js".into()),
        ..Overrides::default()
    };
    let (cfg, _) = resolve_ok(
        r#"{"name":"app","version":"1.0.0","description":"d","author":"A <a@example.com>",
            "nativepkg":{"entrypoints":{"daemon":"from-manifest.js","cli":"cli-from-manifest.js"}}}"#,
        &overrides,
    );
    assert_eq!(cfg.daemon_entrypoint.as_ref().map(|e| e.as_str()), Some("from-cli.js"));
    assert_eq!(cfg.cli_entrypoint.as_ref().map(|e| e.as_str()), Some("cli-from-cli.js"));
}

fn resolve_ok(json: &str, overrides: &Overrides) -> (ResolvedConfig, Vec<Warning>) {
    resolve(&manifest(json), overrides).expect("fixture should resolve")
}

const COMPLETE: &str = r#"{
    "name": "simple",
    "version": "1.2.3",
    "description": "a description",
    "author": "Someone <s@example.com>",
    "nativepkg": { "init": "none" }
}"#;

#[test]
fn command_line_wins_over_settings_objects() {
    let json = r#"{
        "name": "manifest-name", "version": "1.0.0", "description": "d",
        "author": "a", "nativepkg": { "package_name": "obj-name", "init": "none" }
    }"#;
    let overrides = Overrides {
        package_name: Some("cli-name".into()),
        ..Overrides::default()
    };
    let (cfg, _) = resolve_ok(json, &overrides);
    assert_eq!(cfg.package_name.as_str(), "cli-name");
}

#[test]
fn a_custom_install_command_overrides_the_default_and_derives_its_binary() {
    let json = r#"{
        "name": "app", "version": "1.0.0", "description": "d", "author": "a",
        "nativepkg": { "init": "none" }
    }"#;
    let overrides = Overrides {
        install_command: Some("YARN_ENABLE_SCRIPTS=false yarn install --immutable".to_owned()),
        ..Overrides::default()
    };
    let (cfg, _) = resolve_ok(json, &overrides);
    assert_eq!(
        cfg.install_command,
        "YARN_ENABLE_SCRIPTS=false yarn install --immutable"
    );
    assert_eq!(
        cfg.install_binary, "yarn",
        "the guard binary is derived from the command"
    );
}

#[test]
fn a_newline_in_a_custom_install_command_is_refused() {
    let json = r#"{
        "name": "app", "version": "1.0.0", "description": "d", "author": "a",
        "nativepkg": { "init": "none" }
    }"#;
    let overrides = Overrides {
        install_command: Some("npm ci\nrm -rf /".to_owned()),
        ..Overrides::default()
    };
    assert!(resolve(&manifest(json), &overrides).is_err());
}

#[test]
fn top_level_fields_are_the_fallback() {
    let (cfg, _) = resolve_ok(COMPLETE, &Overrides::default());
    assert_eq!(cfg.description, "a description");
    assert_eq!(cfg.maintainer, "Someone <s@example.com>");
    assert_eq!(cfg.version.deb(), "1.2.3");
}

#[test]
fn a_missing_required_value_points_at_the_command_line_and_dot_nativepkg() {
    let json = r#"{ "version": "1.0.0", "description": "d", "author": "a" }"#;
    let err = resolve(&manifest(json), &Overrides::default())
        .unwrap_err()
        .text();
    assert!(err.contains("package name"), "{err:?}");
    assert!(err.contains(".nativepkg"), "{err:?}");
}

#[test]
fn missing_maintainer_is_an_error() {
    let json = r#"{ "name": "app", "version": "1.0.0", "description": "d" }"#;
    assert!(resolve(&manifest(json), &Overrides::default()).is_err());
}

#[test]
fn scoped_manifest_name_is_normalised_with_a_warning() {
    let json = r#"{
        "name": "@acme/probe-app", "version": "1.0.0", "description": "d",
        "author": "a", "nativepkg": { "init": "none" }
    }"#;
    let (cfg, warnings) = resolve_ok(json, &Overrides::default());
    assert_eq!(cfg.package_name.as_str(), "acme-probe-app");
    assert!(warnings.contains(&Warning::PackageNameNormalised {
        original: "@acme/probe-app".into(),
        normalised: "acme-probe-app".into(),
    }));
}

#[test]
fn valid_manifest_name_produces_no_warning() {
    let (_, warnings) = resolve_ok(COMPLETE, &Overrides::default());
    assert!(
        !warnings
            .iter()
            .any(|w| matches!(w, Warning::PackageNameNormalised { .. }))
    );
}

#[test]
fn explicit_name_is_validated_not_normalised() {
    let overrides = Overrides {
        package_name: Some("MyApp".into()),
        ..Overrides::default()
    };
    let err = resolve(&manifest(COMPLETE), &overrides).unwrap_err();
    assert!(
        matches!(err, Error::InvalidPackageName { .. }),
        "an explicit invalid name must fail loudly rather than be rewritten"
    );
}

#[test]
fn prerelease_version_is_mapped_and_not_warned_about() {
    let overrides = Overrides {
        version: Some("2.0.0-beta.1".into()),
        ..Overrides::default()
    };
    let (cfg, warnings) = resolve_ok(COMPLETE, &overrides);
    assert_eq!(cfg.version.deb(), "2.0.0~beta.1");
    assert!(
        !warnings
            .iter()
            .any(|w| matches!(w, Warning::VersionNotMapped { .. }))
    );
}

#[test]
fn non_semver_version_passes_through_with_a_warning() {
    let overrides = Overrides {
        version: Some("1.2.3~rc1".into()),
        ..Overrides::default()
    };
    let (cfg, warnings) = resolve_ok(COMPLETE, &overrides);
    assert_eq!(cfg.version.deb(), "1.2.3~rc1");
    assert!(warnings.contains(&Warning::VersionNotMapped {
        version: "1.2.3~rc1".into()
    }));
}

#[test]
fn epoch_is_applied_from_the_settings_object() {
    let json = r#"{
        "name": "app", "version": "1.0.0", "description": "d", "author": "a",
        "nativepkg": { "init": "none", "epoch": 2 }
    }"#;
    let (cfg, _) = resolve_ok(json, &Overrides::default());
    assert_eq!(cfg.version.deb(), "2:1.0.0");
    assert_eq!(cfg.version.epoch(), Some(2));
}

#[test]
fn user_and_group_default_to_the_package_name() {
    let (cfg, _) = resolve_ok(COMPLETE, &Overrides::default());
    assert_eq!(cfg.user.as_str(), "simple");
    assert_eq!(cfg.group.as_str(), "simple");
}

#[test]
fn group_defaults_to_the_resolved_user() {
    let overrides = Overrides {
        user: Some("svc".into()),
        ..Overrides::default()
    };
    let (cfg, _) = resolve_ok(COMPLETE, &overrides);
    assert_eq!(cfg.group.as_str(), "svc");
}

#[test]
fn over_long_unix_names_are_rejected() {
    let overrides = Overrides {
        user: Some("u".repeat(33)),
        ..Overrides::default()
    };
    assert!(resolve(&manifest(COMPLETE), &overrides).is_err());
}

#[test]
fn defaults_match_the_bash_implementation() {
    let (cfg, _) = resolve_ok(COMPLETE, &Overrides::default());
    assert_eq!(cfg.architecture, "all");
    assert_eq!(cfg.executable_name.as_str(), "simple");
    assert_eq!(cfg.install_strategy, InstallStrategy::Auto);
}

#[test]
fn the_install_root_deliberately_diverges_from_bash() {
    let (cfg, _) = resolve_ok(COMPLETE, &Overrides::default());
    assert_eq!(
        cfg.install_dir,
        InstallDir::parse("/usr/lib").expect("valid"),
        "the FHS reserves /usr/share for architecture-independent data"
    );
}

#[test]
fn init_defaults_to_auto_when_no_layer_sets_it() {
    let json = r#"{
        "name": "app", "version": "1.0.0", "description": "d", "author": "a",
        "nativepkg": { "entrypoints": { "daemon": "app.js" } }
    }"#;
    let (cfg, _) = resolve_ok(json, &Overrides::default());
    assert_eq!(cfg.init, InitSystem::Auto);
}

#[test]
fn cli_entrypoint_falls_back_to_the_daemon_entrypoint() {
    let json = r#"{
        "name": "app", "version": "1.0.0", "description": "d", "author": "a",
        "nativepkg": { "init": "systemd", "entrypoints": { "daemon": "app.js" } }
    }"#;
    let (cfg, _) = resolve_ok(json, &Overrides::default());
    assert_eq!(cfg.cli_entrypoint.as_ref().map(|e| e.as_str()), Some("app.js"));
}

#[test]
fn daemon_entrypoint_is_required_unless_init_is_none() {
    let json = r#"{
        "name": "app", "version": "1.0.0", "description": "d", "author": "a",
        "nativepkg": { "init": "systemd" }
    }"#;
    let err = resolve(&manifest(json), &Overrides::default())
        .unwrap_err()
        .text();
    assert!(err.contains("daemon entrypoint"), "{err:?}");
}

#[test]
fn no_dependency_is_added_by_default() {
    let (cfg, _) = resolve_ok(COMPLETE, &Overrides::default());
    assert!(cfg.dependencies.is_none());
}

#[test]
fn user_dependencies_stand_alone_without_nodejs() {
    let overrides = Overrides {
        dependencies: Some("redis-server".into()),
        ..Overrides::default()
    };
    let (cfg, _) = resolve_ok(COMPLETE, &overrides);
    assert_eq!(cfg.dependencies.as_deref(), Some("redis-server"));
}

#[test]
fn nodejs_is_added_only_when_requested() {
    let overrides = Overrides {
        include_nodejs: true,
        dependencies: Some("redis-server".into()),
        ..Overrides::default()
    };
    let (cfg, _) = resolve_ok(COMPLETE, &overrides);
    assert_eq!(cfg.dependencies.as_deref(), Some("nodejs, redis-server"));

    let overrides = Overrides {
        include_nodejs: true,
        ..Overrides::default()
    };
    let (cfg, _) = resolve_ok(COMPLETE, &overrides);
    assert_eq!(cfg.dependencies.as_deref(), Some("nodejs"));
}

#[test]
fn account_names_are_derived_from_package_names_that_shadow_utils_reject() {
    let json = r#"{
        "name": "0ad", "version": "1.0.0", "description": "d", "author": "a",
        "nativepkg": { "init": "none" }
    }"#;
    let (cfg, warnings) = resolve_ok(json, &Overrides::default());
    assert_eq!(cfg.package_name.as_str(), "0ad");
    assert_eq!(cfg.user.as_str(), "_0ad");
    assert_eq!(cfg.group.as_str(), "_0ad");
    assert!(warnings.contains(&Warning::UnixNameDerived {
        kind: "user",
        source: "0ad".into(),
        derived: "_0ad".into(),
    }));
}

#[test]
fn explicit_account_names_with_metacharacters_are_refused() {
    let overrides = Overrides {
        user: Some("bad user; rm -rf /".into()),
        ..Overrides::default()
    };
    let err = resolve(&manifest(COMPLETE), &overrides)
        .expect_err("a shell-metacharacter user name must not resolve");
    assert!(matches!(err, Error::InvalidUnixName { .. }), "{err:?}");
}

#[test]
fn embedded_hyphen_in_a_prerelease_warns() {
    let overrides = Overrides {
        version: Some("2.0.0-experimental-build".into()),
        ..Overrides::default()
    };
    let (cfg, warnings) = resolve_ok(COMPLETE, &overrides);
    assert_eq!(cfg.version.deb(), "2.0.0~experimental.build");
    assert!(warnings.contains(&Warning::VersionHyphensRewritten {
        original: "2.0.0-experimental-build".into(),
    }));

    let text = warnings
        .iter()
        .find(|w| matches!(w, Warning::VersionHyphensRewritten { .. }))
        .expect("the warning")
        .text();
    assert!(
        !text.contains("2.0.0~experimental.build"),
        "the warning quotes one format's spelling: {text}"
    );
}

#[test]
fn object_author_resolves_to_a_formatted_maintainer() {
    let json = r#"{
        "name": "app", "version": "1.0.0", "description": "d",
        "author": { "name": "Ivan", "email": "i@example.com" },
        "nativepkg": { "init": "none" }
    }"#;
    let (cfg, _) = resolve_ok(json, &Overrides::default());
    assert_eq!(cfg.maintainer, "Ivan <i@example.com>");
}
