use nativepkg::npm::{Author, Entrypoints, InitSystem, Manifest, Settings};
use nativepkg::resolve::{resolve, Overrides};
use nativepkg::template::{self, Variables};

const SUPERSEDED: &[&str] = &["control", "preinst", "postinst", "prerm", "postrm"];

fn simple_fixture_variables() -> Variables {
    let manifest = Manifest {
        name: Some("simple".to_owned()),
        version: Some("1.2.3".to_owned()),
        description: Some("a simple service".to_owned()),
        author: Some(Author::Text("A <a@example.com>".to_owned())),
        nativepkg: Some(Settings {
            init: Some(InitSystem::Systemd),
            entrypoints: Some(Entrypoints {
                daemon: Some("app.js".to_owned()),
                cli: None,
            }),
            ..Settings::default()
        }),
        ..Manifest::default()
    };
    let (config, _) = resolve(&manifest, &Overrides::default()).expect("fixture should resolve");
    Variables::for_config(
        &config,
        "0.1.0",
        config.version.deb(),
        config
            .architecture_parsed()
            .expect("fixture architecture")
            .deb(),
    )
}

fn code(text: &str) -> String {
    text.lines()
        .filter(|l| !l.trim_start().starts_with('#'))
        .collect::<Vec<_>>()
        .join("\n")
}

#[test]
fn the_unit_references_no_documentation_the_tool_does_not_ship() {
    let variables = simple_fixture_variables();
    let source = template::builtin("systemd.service").expect("built-in");
    let rendered = template::render("systemd.service", source, &variables).expect("renders");
    assert!(
        !code(&rendered).contains("Documentation="),
        "nothing in this tool generates a man page:\n{rendered}"
    );
}

#[test]
fn the_rewritten_unit_carries_its_corrections() {
    let variables = simple_fixture_variables();
    let source = template::builtin("systemd.service").expect("built-in");
    let rendered = template::render("systemd.service", source, &variables).expect("renders");
    let unit = code(&rendered);

    for required in [
        "After=network-online.target",
        "Wants=network-online.target",
        "Group=",
        "NoNewPrivileges=yes",
        "ProtectSystem=strict",
        "PrivateTmp=yes",
        "ReadWritePaths=",
        "RestartSec=",
    ] {
        assert!(
            unit.contains(required),
            "unit is missing `{required}`:\n{unit}"
        );
    }
    assert!(
        !unit.contains("PermissionsStartOnly"),
        "the directive was removed from systemd years ago"
    );
    assert!(
        !unit.contains("Requires=network.target"),
        "a bare requirement expresses no ordering"
    );
}

#[test]
fn the_rewritten_upstart_job_drops_privileges_without_sudo() {
    let variables = simple_fixture_variables();
    let source = template::builtin("upstart.conf").expect("built-in");
    let rendered = template::render("upstart.conf", source, &variables).expect("renders");
    let job = code(&rendered);
    assert!(job.contains("setuid "), "{job}");
    assert!(job.contains("setgid "), "{job}");
    assert!(!job.contains("sudo"), "{job}");
}

#[test]
fn superseded_templates_are_no_longer_builtins() {
    for name in SUPERSEDED {
        assert!(
            template::builtin(name).is_err(),
            "`{name}` is generated elsewhere and must not also be a template"
        );
        assert!(!template::builtin_names().contains(name));
    }
}
