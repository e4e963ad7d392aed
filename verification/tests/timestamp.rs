use nativepkg::timestamp::{commit_time, resolve_from, secs_since_epoch, Timestamp, TimestampSource};

#[test]
fn source_date_epoch_wins() {
    let (ts, source) =
        resolve_from(Some("1234567890"), Some(1_700_000_000), &Vec::new()).expect("should resolve");
    assert_eq!(ts.as_secs(), 1_234_567_890);
    assert_eq!(source, TimestampSource::SourceDateEpoch);
}

#[test]
fn source_date_epoch_is_trimmed() {
    let (ts, _) = resolve_from(Some("  42\n"), Some(1_700_000_000), &Vec::new()).expect("should resolve");
    assert_eq!(ts.as_secs(), 42);
}

#[test]
fn malformed_source_date_epoch_is_an_error() {
    let err = resolve_from(Some("not-a-number"), Some(1_700_000_000), &Vec::new())
        .expect_err("must not fall back silently");
    assert!(err.text().contains("SOURCE_DATE_EPOCH"), "{err:?}");
}

#[test]
fn negative_source_date_epoch_is_an_error() {
    assert!(resolve_from(Some("-1"), Some(1_700_000_000), &Vec::new()).is_err());
}

#[test]
fn empty_source_date_epoch_is_an_error() {
    assert!(resolve_from(Some(""), Some(1_700_000_000), &Vec::new()).is_err());
}

#[test]
fn source_is_describable() {
    assert!(TimestampSource::GitCommit.describe().contains("git"));
    assert!(
        Timestamp::from_secs(7)
            .describe(TimestampSource::SourceDateEpoch)
            .contains('7')
    );
}

#[test]
fn falls_back_to_the_commit_timestamp_in_a_checkout() {
    let (ts, source) =
        resolve_from(None, Some(1_700_000_000), &Vec::new()).expect("this repo is a git checkout");
    assert_eq!(source, TimestampSource::GitCommit);
    assert!(ts.as_secs() > 0);
}

#[test]
fn resolution_is_stable_across_calls() {
    let a = resolve_from(None, Some(1_700_000_000), &Vec::new()).expect("should resolve");
    let b = resolve_from(None, Some(1_700_000_000), &Vec::new()).expect("should resolve");
    assert_eq!(a.0, b.0, "the timestamp must not be the wall clock");
}

#[test]
fn newest_mtime_is_used_outside_a_checkout() {
    let (ts, source) = resolve_from(None, None, &vec![7, 1_600_000_000, 9]).expect("should resolve");
    assert_eq!(source, TimestampSource::NewestSourceMtime);
    assert_eq!(ts.as_secs(), 1_600_000_000);
}

#[test]
fn no_sources_and_no_checkout_is_an_error_rather_than_an_invented_value() {
    assert!(resolve_from(None, None, &Vec::new()).is_err());
}

#[test]
fn what_git_prints_is_trimmed_and_must_be_a_number() {
    assert_eq!(commit_time("1700000000\n"), Some(1_700_000_000));
    assert_eq!(commit_time("fatal: not a git repository"), None);
    assert_eq!(secs_since_epoch(-5), 0);
    assert_eq!(secs_since_epoch(5), 5);
}
