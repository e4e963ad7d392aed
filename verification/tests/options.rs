use nativepkg::cli::{refuse_removed, Cli, InitChoice, StrategyChoice};
use nativepkg::format::Format;
use nativepkg::introspect;
use nativepkg::npm::{InitSystem, InstallStrategy};
use nativepkg::report::{Reporter, Verbosity};
use nativepkg::run::{overrides_from, selected_formats};

fn given() -> Cli {
    Cli {
        package_name: Some("app".to_owned()),
        ..Cli::default()
    }
}

#[test]
fn options_that_cannot_be_honoured_are_refused_with_a_reason() {
    let x = || Some("x".to_owned());
    for (cli, expected) in [
        (Cli { no_delete_temp: true, ..Cli::default() }, "--no-delete-temp"),
        (Cli { no_md5sums: true, ..Cli::default() }, "--no-md5sums"),
        (Cli { no_rebuild: true, ..Cli::default() }, "--no-rebuild"),
        (Cli { template_control: x(), ..Cli::default() }, "--template-control"),
        (Cli { template_preinst: x(), ..Cli::default() }, "--template-preinst"),
        (Cli { template_postinst: x(), ..Cli::default() }, "--template-postinst"),
        (Cli { template_prerm: x(), ..Cli::default() }, "--template-prerm"),
        (Cli { template_postrm: x(), ..Cli::default() }, "--template-postrm"),
    ] {
        let removed = cli.removed_options();
        assert_eq!(removed.len(), 1, "{cli:?}");
        assert_eq!(removed[0].option, expected);
        assert!(
            !removed[0].reason.is_empty(),
            "a refusal without a reason is not actionable"
        );
    }
}

#[test]
fn a_normal_invocation_refuses_nothing() {
    let cli = given();
    assert!(cli.removed_options().is_empty());
}

#[test]
fn introspection_answers_match_the_data_it_describes() {
    let variables = introspect::template_variables();
    assert!(variables.contains(&"package_name"), "{variables:?}");
    assert!(variables.contains(&"package_architecture"), "{variables:?}");

    let overrides = introspect::json_overrides();
    assert!(overrides.contains(&"install_dir"), "{overrides:?}");
    assert!(overrides.contains(&"entrypoints"), "{overrides:?}");

    let templates = introspect::templates();
    assert!(templates.contains(&"systemd.service"), "{templates:?}");
    for gone in ["control", "preinst", "postinst", "prerm", "postrm"] {
        assert!(!templates.contains(&gone), "{gone} should not be listed");
    }
}

#[test]
fn a_template_can_be_printed_and_an_unknown_one_names_the_alternatives() {
    let text = introspect::cat_template("systemd.service").expect("exists");
    assert!(text.contains("[Unit]"), "{text}");

    let error = introspect::cat_template("nope").expect_err("should fail");
    let message = error.text();
    assert!(message.contains("systemd.service"), "{message}");
}

#[test]
fn introspection_is_recognised_as_such() {
    assert!(Cli { list_templates: true, ..Cli::default() }.is_introspection());
    assert!(Cli { list_template_variables: true, ..Cli::default() }.is_introspection());
    assert!(Cli { list_json_overrides: true, ..Cli::default() }.is_introspection());
    assert!(Cli { cat_template: Some("default".to_owned()), ..Cli::default() }.is_introspection());
    assert!(!given().is_introspection());
}

#[test]
fn every_refusal_is_told_before_the_run_stops() {
    let mut reporter = Reporter::new(Verbosity::Quiet);
    let cli = Cli { no_rebuild: true, no_md5sums: true, ..Cli::default() };
    assert!(refuse_removed(&cli, &mut reporter));
    let lines: Vec<&str> = reporter.err.lines().collect();
    assert_eq!(lines.len(), 2);
    assert!(lines[0].starts_with("error: --no-md5sums can no longer be honoured: "));
    assert!(lines[1].starts_with("error: --no-rebuild can no longer be honoured: "));
    assert!(!refuse_removed(&given(), &mut reporter));
}

#[test]
fn quiet_wins_over_verbose() {
    assert_eq!(Cli { quiet: true, verbose: true, ..Cli::default() }.verbosity(), Verbosity::Quiet);
    assert_eq!(Cli { verbose: true, ..Cli::default() }.verbosity(), Verbosity::Verbose);
    assert_eq!(Cli::default().verbosity(), Verbosity::Normal);
}

#[test]
fn a_bare_command_line_builds_a_deb_here() {
    let cli = Cli::default();
    assert_eq!(cli.format, vec![Format::Deb]);
    assert_eq!(cli.output_dir, ".");
    assert!(cli.inputs.is_empty());
}

#[test]
fn formats_are_built_in_order_and_once() {
    let cli = Cli {
        format: vec![Format::Arch, Format::Deb, Format::Arch],
        ..Cli::default()
    };
    assert_eq!(selected_formats(&cli), vec![Format::Deb, Format::Arch]);
}

#[test]
fn template_overrides_are_named_as_the_built_ins_are() {
    let cli = Cli {
        template_default: Some("d".to_owned()),
        template_executable: Some("e".to_owned()),
        ..Cli::default()
    };
    assert_eq!(cli.template_overrides(), vec![("executable", "e"), ("default", "d")]);
}

#[test]
fn choices_become_settings() {
    for (choice, init) in [
        (InitChoice::Auto, InitSystem::Auto),
        (InitChoice::Systemd, InitSystem::Systemd),
        (InitChoice::Upstart, InitSystem::Upstart),
        (InitChoice::Sysv, InitSystem::Sysv),
        (InitChoice::NoInit, InitSystem::NoInit),
    ] {
        assert_eq!(InitSystem::from(choice), init);
    }
    for (choice, strategy) in [
        (StrategyChoice::Auto, InstallStrategy::Auto),
        (StrategyChoice::Copy, InstallStrategy::Copy),
        (StrategyChoice::NpmInstall, InstallStrategy::NpmInstall),
    ] {
        assert_eq!(InstallStrategy::from(choice), strategy);
    }
}

#[test]
fn the_deprecated_architecture_spelling_warns_and_yields() {
    let mut reporter = Reporter::new(Verbosity::Normal);
    let old = Cli { arch_deprecated: Some("arm64".to_owned()), ..Cli::default() };
    assert_eq!(overrides_from(&old, &mut reporter).architecture.as_deref(), Some("arm64"));
    assert_eq!(reporter.err, "warning: `--arch` is deprecated; use `--architecture`\n");

    let mut reporter = Reporter::new(Verbosity::Normal);
    let both = Cli {
        architecture: Some("amd64".to_owned()),
        arch_deprecated: Some("arm64".to_owned()),
        ..Cli::default()
    };
    assert_eq!(overrides_from(&both, &mut reporter).architecture.as_deref(), Some("amd64"));
    assert_eq!(reporter.err, "");
}

#[test]
fn answers_are_printed_in_order() {
    let mut reporter = Reporter::new(Verbosity::Normal);
    let cli = Cli {
        list_templates: true,
        show_readme: true,
        cat_template: Some("tmpfiles.conf".to_owned()),
        ..Cli::default()
    };
    let code = introspect::answer(&cli, "the readme\n", "the changelog\n", &mut reporter);
    assert_eq!(code, 0);
    assert!(reporter.out.starts_with("default\nexecutable\nsystemd.service\n"), "{}", reporter.out);
    assert!(reporter.out.contains("the readme\n"));
    assert!(!reporter.out.contains("the changelog"));
    assert!(reporter.out.ends_with(introspect::cat_template("tmpfiles.conf").expect("built in")));

    let unknown = Cli { cat_template: Some("nope".to_owned()), ..Cli::default() };
    let mut reporter = Reporter::new(Verbosity::Normal);
    assert_eq!(introspect::answer(&unknown, "", "", &mut reporter), 1);
    assert!(reporter.err.starts_with("error: no template named `nope`; available: default, "));
    assert_eq!(reporter.out, "");
}
