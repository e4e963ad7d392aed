use nativepkg::arch::install;
use nativepkg::npm::{InitSystem, InstallStrategy};
use nativepkg::template::Variables;

fn vars() -> Variables {
    Variables::new()
        .with("package_name", "probe-app")
        .with("install_dir", "/usr/lib")
        .with("user", "probe-app")
        .with("group", "probe-app")
        .with("generator_version", "0.1.0")
        .with("install_binary", "npm")
        .with(
            "install_command",
            "npm install --omit=dev --ignore-scripts --no-audit --no-fund",
        )
}

fn composed(init: InitSystem, strategy: InstallStrategy) -> Option<String> {
    install::compose(init, strategy, &vars()).expect("composition succeeds")
}

fn code(script: &str) -> String {
    script
        .lines()
        .map(|line| match line.find('#') {
            Some(at) => &line[..at],
            None => line,
        })
        .collect::<Vec<_>>()
        .join("\n")
}

#[test]
fn pacman_finds_the_functions_it_calls() {
    let text = composed(InitSystem::Systemd, InstallStrategy::Copy).expect("a service package");
    for function in ["post_install", "post_upgrade", "pre_remove", "post_remove"] {
        assert!(
            text.contains(&format!("{function}() {{")),
            "`{function}` is missing:\n{text}"
        );
    }
}

#[test]
fn no_other_distributions_tooling_appears() {
    const FOREIGN: &[&str] = &[
        "deb-systemd-helper",
        "deb-systemd-invoke",
        "adduser",
        "deluser",
        "update-rc.d",
        "invoke-rc.d",
        "chkconfig",
        "dpkg",
    ];
    for init in [InitSystem::Auto, InitSystem::Systemd] {
        for strategy in [InstallStrategy::Copy, InstallStrategy::NpmInstall] {
            let text = composed(init, strategy).expect("a service package");
            let body = code(&text);
            for program in FOREIGN {
                assert!(
                    !body.contains(program),
                    "{init:?}/{strategy:?} calls `{program}`:\n{text}"
                );
            }
        }
    }
}

#[test]
fn nothing_dispatches_on_a_positional_argument() {
    let text = composed(InitSystem::Systemd, InstallStrategy::Copy).expect("a service package");
    let body = code(&text);
    assert!(!body.contains("$1"), "{text}");
    assert!(!body.contains("$2"), "{text}");
}

#[test]
fn an_upgrade_does_not_re_enable_a_disabled_unit() {
    let text = composed(InitSystem::Systemd, InstallStrategy::Copy).expect("a service package");
    let upgrade = text
        .split("post_upgrade() {")
        .nth(1)
        .and_then(|rest| rest.split("\n}").next())
        .expect("post_upgrade body");
    assert!(
        !upgrade.contains("preset") && !upgrade.contains("enable"),
        "post_upgrade must not enable:\n{upgrade}"
    );
    assert!(upgrade.contains("try-restart"), "{upgrade}");

    let install = text
        .split("post_install() {")
        .nth(1)
        .and_then(|rest| rest.split("\n}").next())
        .expect("post_install body");
    assert!(
        install.contains("preset"),
        "a first install is where enabling belongs:\n{install}"
    );
}

#[test]
fn removal_happens_in_the_order_the_filesystem_requires() {
    let text = composed(InitSystem::Systemd, InstallStrategy::Copy).expect("a service package");
    let pre = text.find("pre_remove() {").expect("pre_remove");
    let post = text.find("post_remove() {").expect("post_remove");
    assert!(pre < post, "{text}");
    assert!(text[pre..post].contains("stop"), "{text}");
    assert!(text[post..].contains("userdel"), "{text}");
}

#[test]
fn a_package_with_no_hooks_has_no_install_file() {
    assert!(composed(InitSystem::NoInit, InstallStrategy::Copy).is_none());
    assert!(composed(InitSystem::NoInit, InstallStrategy::NpmInstall).is_some());
}

#[test]
fn an_init_system_arch_does_not_have_is_reported() {
    assert_eq!(install::unsupported_init(InitSystem::Sysv), Some("sysv"));
    assert_eq!(
        install::unsupported_init(InitSystem::Upstart),
        Some("upstart")
    );
    assert_eq!(install::unsupported_init(InitSystem::Systemd), None);
    assert_eq!(install::unsupported_init(InitSystem::Auto), None);
    assert_eq!(install::unsupported_init(InitSystem::NoInit), None);

    let text = composed(InitSystem::Sysv, InstallStrategy::Copy);
    assert!(text.is_none(), "{text:?}");
}

#[test]
fn a_fresh_install_starts_the_service() {
    let text = composed(InitSystem::Systemd, InstallStrategy::Copy).expect("a service package");
    let install = text
        .split("post_install() {")
        .nth(1)
        .and_then(|rest| rest.split("\n}").next())
        .expect("post_install body");
    let body = code(install);

    assert!(
        body.contains("systemctl start"),
        "post_install must start the unit:\n{install}"
    );
    assert!(
        !body.contains("try-restart"),
        "`try-restart` does nothing when the unit is not running, which is every first \
         install:\n{install}"
    );

    let upgrade = text
        .split("post_upgrade() {")
        .nth(1)
        .and_then(|rest| rest.split("\n}").next())
        .expect("post_upgrade body");
    let upgrade_body = code(upgrade);
    assert!(upgrade_body.contains("try-restart"), "{upgrade}");
    assert!(
        !upgrade_body.contains("systemctl start"),
        "an upgrade must not start a service the administrator stopped:\n{upgrade}"
    );
}

#[test]
fn arch_install_install_time_npm_runs_in_the_app_directory_without_running_scripts_as_root() {
    let text = install::compose(InitSystem::NoInit, InstallStrategy::NpmInstall, &vars())
        .expect("composes")
        .expect("npm-install produces a file");
    let code: String = text
        .lines()
        .map(str::trim)
        .filter(|l| !l.starts_with('#'))
        .collect::<Vec<_>>()
        .join("\n");
    assert!(code.contains("npm install"), "{text}");
    assert!(
        !code.contains("--unsafe-perm"),
        "never as an unsafe root:\n{text}"
    );
    assert!(
        code.contains("--ignore-scripts"),
        "third-party hooks must not run as root:\n{text}"
    );
    assert!(
        code.contains("/probe-app/app' && npm install"),
        "npm must run where package.json is, in `app/`:\n{text}"
    );
}

#[test]
fn functions_are_defined_in_order_and_only_for_a_service() {
    let defined = |text: &str| -> Vec<String> {
        text.lines()
            .filter_map(|line| line.strip_suffix("() {"))
            .map(str::to_owned)
            .collect()
    };
    let text = composed(InitSystem::Auto, InstallStrategy::Copy).expect("a service package");
    assert_eq!(
        defined(&text),
        ["post_install", "post_upgrade", "pre_remove", "post_remove"]
    );
    let text = composed(InitSystem::Sysv, InstallStrategy::NpmInstall).expect("an install step");
    assert_eq!(defined(&text), ["post_install"]);
    assert_eq!(composed(InitSystem::Sysv, InstallStrategy::Copy), None);
    assert_eq!(composed(InitSystem::NoInit, InstallStrategy::Copy), None);
}
