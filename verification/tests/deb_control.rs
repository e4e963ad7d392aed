use nativepkg::architecture::Architecture;
use nativepkg::deb::control::render;
use nativepkg::destination::Destination;
use nativepkg::plan::{BuildPlan, Description, Identity, PlanMetadata, PlannedFile};
use nativepkg::timestamp::Timestamp;

const TIMESTAMP: u64 = 1_700_000_000;

fn dest(path: &str) -> Destination {
    Destination::new(path).expect("fixture path should normalise")
}

fn sample_plan() -> BuildPlan {
    plan_with("a probe", "with a body")
}

fn plan_with(synopsis: &str, body: &str) -> BuildPlan {
    let raw = if body.is_empty() {
        synopsis.to_owned()
    } else {
        format!("{synopsis}\n{body}")
    };
    let identity = Identity {
        package_name: "probe-app".into(),
        version_deb: "1.2.3".into(),
        version_rpm: "1.2.3".into(),
        release_rpm: "1".into(),
        epoch: None,
        description: Description::split(&raw).expect("fixture description should split"),
        maintainer: "A <a@example.com>".into(),
        architecture: Architecture::Any,
        dependencies: Some("nodejs".into()),
        homepage: Some("https://example.com".into()),
        license: Some("MIT".into()),
    };

    let target = dest("/usr/share/probe-app/bin/probe-app");
    let files = vec![
        PlannedFile::inline(
            dest("/usr/share/probe-app/app/app.js"),
            b"console.log(1)\n".to_vec(),
            PlannedFile::MODE_REGULAR,
        ),
        PlannedFile::inline(
            target.clone(),
            b"#!/bin/sh\nexec node app.js\n".to_vec(),
            PlannedFile::MODE_EXECUTABLE,
        ),
        PlannedFile::inline(
            dest("/etc/probe-app/config.json"),
            b"{}\n".to_vec(),
            PlannedFile::MODE_REGULAR,
        )
        .as_config(),
        PlannedFile::symlink(dest("/usr/bin/probe-app"), &target),
    ];

    BuildPlan::new(
        identity,
        files,
        Timestamp::from_secs(TIMESTAMP),
        PlanMetadata {
            generator: "nativepkg".into(),
            generator_version: "0.1.0".into(),
        },
    )
    .expect("fixture plan should assemble")
}

#[test]
fn required_fields_are_present() {
    let control = render(&sample_plan(), None);
    for field in [
        "Package:",
        "Version:",
        "Architecture:",
        "Maintainer:",
        "Description:",
        "Priority:",
        "Section:",
        "Installed-Size:",
    ] {
        assert!(control.contains(field), "missing `{field}` in:\n{control}");
    }
}

#[test]
fn the_default_section_is_a_recognised_one() {
    let control = render(&sample_plan(), None);
    assert!(control.contains("Section: misc"), "{control}");
    assert!(
        !control.contains("Section: base"),
        "`base` is not in the current section list"
    );
}

#[test]
fn a_configured_section_wins() {
    let control = render(&sample_plan(), Some("javascript"));
    assert!(control.contains("Section: javascript"), "{control}");
}

#[test]
fn installed_size_is_greater_than_zero_for_a_non_empty_package() {
    let control = render(&sample_plan(), None);
    let line = control
        .lines()
        .find(|l| l.starts_with("Installed-Size:"))
        .expect("field present");
    let value: u64 = line
        .trim_start_matches("Installed-Size:")
        .trim()
        .parse()
        .expect("a number");
    assert!(value > 0, "a package must report its size: {line}");
}

#[test]
fn homepage_is_emitted_only_when_known() {
    assert!(render(&sample_plan(), None).contains("Homepage: https://example.com"));

    let mut plan = sample_plan();
    plan.identity.homepage = None;
    assert!(!render(&plan, None).contains("Homepage:"));
}

#[test]
fn a_single_line_description_still_gets_an_extended_paragraph() {
    let plan = plan_with("a tool", "");
    let control = render(&plan, None);
    assert!(control.contains("Description: a tool"));

    let body: Vec<&str> = control
        .lines()
        .filter(|line| line.starts_with(' '))
        .collect();
    assert!(!body.is_empty(), "no extended description:\n{control}");
    assert!(
        body.iter().any(|line| line.contains("probe-app")),
        "the paragraph should name the package it describes:\n{control}"
    );
    assert!(
        body.iter().any(|line| line.contains("description")),
        "and should say how to replace it:\n{control}"
    );
}

#[test]
fn a_supplied_extended_description_is_left_alone() {
    let plan = plan_with("a tool", "It does a specific thing.\n\nAnd another.");
    let control = render(&plan, None);
    assert!(control.contains(" It does a specific thing."), "{control}");
    assert!(
        control.contains(" ."),
        "a blank body line becomes ` .`:\n{control}"
    );
    assert!(
        !control.contains("Add a longer `description`"),
        "the generated paragraph must not appear when one was supplied:\n{control}"
    );
}

#[test]
fn a_body_is_folded_with_a_leading_space() {
    let plan = plan_with("a tool", "does things\nand more things");
    let control = render(&plan, None);
    assert!(control.contains("\n does things\n"), "{control}");
    assert!(control.contains("\n and more things\n"), "{control}");
}

#[test]
fn a_blank_body_line_becomes_a_space_and_a_full_stop() {
    let plan = plan_with("a tool", "first paragraph\n\nsecond paragraph");
    let control = render(&plan, None);
    assert!(
        control.contains("\n .\n"),
        "a blank line must not end the paragraph:\n{control}"
    );
}

#[test]
fn every_body_line_is_indented() {
    let plan = plan_with("a tool", "one\n\ntwo\nthree");
    let control = render(&plan, None);
    let body: Vec<&str> = control
        .lines()
        .skip_while(|l| !l.starts_with("Description:"))
        .skip(1)
        .collect();
    assert!(!body.is_empty());
    for line in body {
        assert!(
            line.starts_with(' '),
            "body line `{line}` is not indented:\n{control}"
        );
    }
}

#[test]
fn trailing_whitespace_in_a_body_line_is_trimmed() {
    let plan = plan_with("a tool", "padded   ");
    assert!(render(&plan, None).contains("\n padded\n"));
}

#[test]
fn an_empty_dependency_field_is_omitted() {
    let mut plan = sample_plan();
    plan.identity.dependencies = Some("   ".to_owned());
    assert!(!render(&plan, None).contains("Depends:"));

    plan.identity.dependencies = None;
    assert!(!render(&plan, None).contains("Depends:"));
}

#[test]
fn the_file_ends_with_a_newline() {
    assert!(render(&sample_plan(), None).ends_with('\n'));
}
