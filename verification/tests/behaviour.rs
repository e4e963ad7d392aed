use nativepkg::format::Format;
use nativepkg::report::{Failure, Reporter, Verbosity};
use nativepkg::run::{record, summarise, Built};

fn failure(message: &str) -> Failure {
    Failure::new(message.to_owned())
}

#[test]
fn diagnostics_go_to_standard_error_and_results_to_standard_output() {
    let mut reporter = Reporter::new(Verbosity::Normal);

    reporter.warn("something to note");
    reporter.produced(Format::Deb, "/tmp/out/app.deb");

    assert_eq!(reporter.out.trim(), "/tmp/out/app.deb");
    assert!(reporter.err.contains("something to note"), "{}", reporter.err);
    assert!(
        !reporter.out.contains("something to note"),
        "a warning reached standard output: {}",
        reporter.out
    );
}

#[test]
fn quiet_suppresses_warnings_but_never_errors() {
    let mut reporter = Reporter::new(Verbosity::Quiet);

    reporter.warn("suppressed");
    reporter.detail("also suppressed");
    reporter.failed(Format::Rpm, &failure("the payload could not be written"));

    let text = &reporter.err;
    assert!(!text.contains("suppressed"), "{text}");
    assert!(text.contains("the payload could not be written"), "{text}");
}

#[test]
fn verbose_adds_detail_that_normal_leaves_out() {
    let mut normal = Reporter::new(Verbosity::Normal);
    normal.detail("how the timestamp was chosen");
    assert_eq!(normal.err, "");

    let mut verbose = Reporter::new(Verbosity::Verbose);
    verbose.detail("how the timestamp was chosen");
    assert!(
        verbose.err.contains("how the timestamp was chosen"),
        "{}",
        verbose.err
    );
}

#[test]
fn a_failure_renders_its_whole_cause_chain() {
    let mut reporter = Reporter::new(Verbosity::Normal);

    let error = failure("permission denied")
        .context("opening /var/lib/app/state".to_owned())
        .context("writing the .rpm".to_owned());
    reporter.failed(Format::Rpm, &error);

    let text = &reporter.err;
    assert!(text.contains("writing the .rpm"), "{text}");
    assert!(text.contains("opening /var/lib/app/state"), "{text}");
    assert!(text.contains("permission denied"), "{text}");
    assert!(
        text.matches("caused by").count() >= 2,
        "each link in the chain should be shown: {text}"
    );
}

#[test]
fn quiet_prints_no_paths() {
    let mut reporter = Reporter::new(Verbosity::Quiet);
    reporter.produced(Format::Deb, "/tmp/app.deb");
    assert_eq!(reporter.out, "");
}

#[test]
fn a_partial_failure_reports_every_outcome_and_exits_non_zero() {
    let mut reporter = Reporter::new(Verbosity::Normal);

    let built = vec![
        Built {
            format: Format::Deb,
            outcome: Ok("/tmp/out/app.deb".to_owned()),
        },
        Built {
            format: Format::Rpm,
            outcome: Err(failure("the payload could not be assembled")),
        },
        Built {
            format: Format::Arch,
            outcome: Ok("/tmp/out/app.pkg.tar.zst".to_owned()),
        },
    ];

    for entry in &built {
        match &entry.outcome {
            Ok(path) => reporter.produced(entry.format, path),
            Err(error) => reporter.failed(entry.format, error),
        }
    }
    let code = summarise(&built, &mut reporter);

    assert_eq!(code, 1, "one failure must not be reported as success");

    let printed = &reporter.out;
    assert!(printed.contains("app.deb"), "{printed}");
    assert!(printed.contains("app.pkg.tar.zst"), "{printed}");

    let diagnostics = &reporter.err;
    assert!(
        diagnostics.contains("the payload could not be assembled"),
        "{diagnostics}"
    );
    assert!(
        diagnostics.contains("1 of 3"),
        "the summary should say how much failed: {diagnostics}"
    );
}

#[test]
fn a_run_where_everything_worked_exits_zero() {
    let mut reporter = Reporter::new(Verbosity::Normal);
    let built = vec![Built {
        format: Format::Deb,
        outcome: Ok("/tmp/out/app.deb".to_owned()),
    }];

    assert_eq!(summarise(&built, &mut reporter), 0);
}

#[test]
fn recording_tells_and_keeps_each_outcome() {
    let mut reporter = Reporter::new(Verbosity::Normal);
    let mut built = Vec::new();
    record(&mut built, Format::Deb, Ok("out/app.deb".to_owned()), &mut reporter);
    record(&mut built, Format::Rpm, Err(failure("no")), &mut reporter);
    assert_eq!(built.len(), 2);
    assert_eq!(reporter.out, "out/app.deb\n");
    assert_eq!(reporter.err, "error: rpm: no\n");
    assert_eq!(summarise(&built, &mut reporter), 1);
    assert_eq!(reporter.err, "error: rpm: no\n1 of 2 formats failed\n");
}

#[test]
fn a_failure_of_no_one_format_is_told_without_one() {
    let mut reporter = Reporter::new(Verbosity::Quiet);
    let error = failure("`x` is empty").context("resolving configuration".to_owned());
    reporter.stopped(&error);
    assert_eq!(
        reporter.err,
        "error: resolving configuration\n  caused by: `x` is empty\n"
    );
}
