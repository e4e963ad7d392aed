//! The single timestamp every archive entry carries, so identical inputs produce identical
//! archives.
//!
//! What the environment, git and the filesystem say is read by the caller; this module decides
//! which of them counts.

use vstd::prelude::*;

use crate::chars::digit;
use crate::digits::{decimal, decimal_reads_back, decimal_text, parse_unsigned, unsigned_of};
use crate::error::{Error, ErrorView, Result};
use crate::strings::{blank, trim, trimmed, trimming_takes_the_blanks};

verus! {

/// A build timestamp, as seconds since the Unix epoch.
#[derive(Debug, Clone, Copy, PartialEq, Eq, Structural)]
pub struct Timestamp {
    secs: u64,
}

impl View for Timestamp {
    type V = u64;

    closed spec fn view(&self) -> u64 {
        self.secs
    }
}

impl Timestamp {
    pub fn as_secs(self) -> (n: u64)
        ensures
            n == self@,
    {
        self.secs
    }

    pub fn from_secs(secs: u64) -> (t: Self)
        ensures
            t@ == secs,
    {
        Timestamp { secs }
    }

    pub fn describe(self, source: TimestampSource) -> (s: String)
        ensures
            s@ == decimal(self@ as nat) + " ("@ + source.description() + ")"@,
    {
        let mut s = decimal_text(self.secs);
        s.append(" (");
        s.append(source.describe());
        s.append(")");
        s
    }
}

/// Which rung of the fallback chain supplied the timestamp.
#[derive(Debug, Clone, Copy, PartialEq, Eq, Structural)]
pub enum TimestampSource {
    SourceDateEpoch,
    GitCommit,
    NewestSourceMtime,
}

impl TimestampSource {
    pub open spec fn description(self) -> Seq<char> {
        match self {
            TimestampSource::SourceDateEpoch => "from SOURCE_DATE_EPOCH"@,
            TimestampSource::GitCommit => "from the current git commit"@,
            TimestampSource::NewestSourceMtime => "newest source mtime"@,
        }
    }

    pub fn describe(self) -> (s: &'static str)
        ensures
            s@ == self.description(),
    {
        match self {
            TimestampSource::SourceDateEpoch => "from SOURCE_DATE_EPOCH",
            TimestampSource::GitCommit => "from the current git commit",
            TimestampSource::NewestSourceMtime => "newest source mtime",
        }
    }
}

/// The greatest of the modification times, zero when there are none.
pub open spec fn newest_of(mtimes: Seq<u64>) -> u64
    decreases mtimes.len(),
{
    if mtimes.len() == 0 {
        0
    } else if newest_of(mtimes.drop_last()) < mtimes.last() {
        mtimes.last()
    } else {
        newest_of(mtimes.drop_last())
    }
}

/// No modification time is newer than the newest, and the newest is one of them.
pub proof fn newest_is_greatest(mtimes: Seq<u64>)
    ensures
        forall|i: int| 0 <= i < mtimes.len() ==> #[trigger] mtimes[i] <= newest_of(mtimes),
        mtimes.len() > 0 ==> mtimes.contains(newest_of(mtimes)),
    decreases mtimes.len(),
{
    if mtimes.len() > 0 {
        let init = mtimes.drop_last();
        newest_is_greatest(init);
        assert forall|i: int| 0 <= i < mtimes.len() implies #[trigger] mtimes[i] <= newest_of(
            mtimes,
        ) by {
            if i < init.len() {
                assert(init[i] == mtimes[i]);
            }
        }
        if newest_of(mtimes) == mtimes.last() {
            assert(mtimes[mtimes.len() - 1] == newest_of(mtimes));
        } else {
            if init.len() > 0 {
                let k = init.index_of(newest_of(init));
                assert(mtimes[k] == newest_of(mtimes));
            }
        }
    }
}

pub open spec fn malformed_epoch(raw: Seq<char>) -> ErrorView {
    ErrorView::Manifest {
        message: "SOURCE_DATE_EPOCH is set to `"@ + trimmed(raw)
            + "`, which is not a non-negative integer; unset it or correct it, because a malformed value would silently cost you reproducible builds"@,
    }
}

pub open spec fn no_timestamp() -> ErrorView {
    ErrorView::Manifest {
        message:
            "cannot determine a build timestamp: no sources were given, SOURCE_DATE_EPOCH is unset, and this is not a git checkout"@,
    }
}

/// The chain: `SOURCE_DATE_EPOCH` when set, else the commit time, else the newest source. A
/// malformed `SOURCE_DATE_EPOCH` is an error, never passed over.
pub open spec fn timestamp_of(
    source_date_epoch: Option<Seq<char>>,
    commit: Option<u64>,
    mtimes: Seq<u64>,
) -> core::result::Result<(u64, TimestampSource), ErrorView> {
    match source_date_epoch {
        Some(raw) => match unsigned_of(trimmed(raw)) {
            Some(n) => Ok((n as u64, TimestampSource::SourceDateEpoch)),
            None => Err(malformed_epoch(raw)),
        },
        None => match commit {
            Some(secs) => Ok((secs, TimestampSource::GitCommit)),
            None => if mtimes.len() == 0 {
                Err(no_timestamp())
            } else {
                Ok((newest_of(mtimes), TimestampSource::NewestSourceMtime))
            },
        },
    }
}

/// Resolves the build timestamp from what was read: `SOURCE_DATE_EPOCH`, else the git commit
/// time (identical on every machine building that commit), else the newest source mtime (stable
/// for a rebuild of an unchanged tree, not across fresh checkouts). Never the wall clock.
pub fn resolve_from(
    source_date_epoch: Option<&str>,
    commit: Option<u64>,
    mtimes: &Vec<u64>,
) -> (r: Result<(Timestamp, TimestampSource)>)
    ensures
        match timestamp_of(crate::error::opt(source_date_epoch), commit, mtimes@) {
            Ok(found) => r is Ok && r->Ok_0.0@ == found.0 && r->Ok_0.1 == found.1,
            Err(e) => r is Err && r->Err_0@ == e,
        },
{
    match source_date_epoch {
        Some(raw) => {
            let text = trim(raw);
            match parse_unsigned(text.as_str()) {
                Some(secs) => {
                    return Ok((Timestamp { secs }, TimestampSource::SourceDateEpoch));
                },
                None => {
                    let mut m = "SOURCE_DATE_EPOCH is set to `".to_owned();
                    m.append(text.as_str());
                    m.append(
                        "`, which is not a non-negative integer; unset it or correct it, because a malformed value would silently cost you reproducible builds",
                    );
                    return Err(Error::manifest(m));
                },
            }
        },
        None => {},
    }
    match commit {
        Some(secs) => {
            return Ok((Timestamp { secs }, TimestampSource::GitCommit));
        },
        None => {},
    }
    match newest_mtime(mtimes) {
        Ok(secs) => Ok((Timestamp { secs }, TimestampSource::NewestSourceMtime)),
        Err(e) => Err(e),
    }
}

/// The newest modification time, as seconds since the epoch.
pub fn newest_mtime(mtimes: &Vec<u64>) -> (r: Result<u64>)
    ensures
        match r {
            Ok(n) => mtimes@.len() > 0 && n == newest_of(mtimes@),
            Err(e) => mtimes@.len() == 0 && e@ == no_timestamp(),
        },
{
    if mtimes.len() == 0 {
        return Err(
            Error::manifest(
                "cannot determine a build timestamp: no sources were given, SOURCE_DATE_EPOCH is unset, and this is not a git checkout".to_owned(),
            ),
        );
    }
    let mut newest: u64 = 0;
    let mut i: usize = 0;
    while i < mtimes.len()
        invariant
            i <= mtimes@.len(),
            newest == newest_of(mtimes@.take(i as int)),
        decreases mtimes@.len() - i,
    {
        assert(mtimes@.take(i + 1).drop_last() =~= mtimes@.take(i as int));
        if newest < mtimes[i] {
            newest = mtimes[i];
        }
        i = i + 1;
    }
    assert(mtimes@.take(i as int) =~= mtimes@);
    Ok(newest)
}

/// The commit time in what `git log -1 --format=%ct` printed.
pub fn commit_time(printed: &str) -> (r: Option<u64>)
    ensures
        match r {
            Some(n) => unsigned_of(trimmed(printed@)) == Some(n as nat),
            None => unsigned_of(trimmed(printed@)) is None,
        },
{
    let text = trim(printed);
    parse_unsigned(text.as_str())
}

/// Epoch seconds from a signed distance to the epoch, clamping anything before it to zero.
pub fn secs_since_epoch(distance: i64) -> (secs: u64)
    ensures
        secs == (if distance < 0 { 0 } else { distance as int }),
{
    if distance < 0 {
        0
    } else {
        distance as u64
    }
}

/// The date of a build comes from the first source that has one. A number in the environment
/// decides alone, blanks around it apart, and anything else there is refused; after it the
/// commit decides; after that the newest of the files. With none of them there is no date.
pub proof fn the_first_source_that_has_a_date_decides(
    lead: Seq<char>,
    n: u64,
    tail: Seq<char>,
    commit: Option<u64>,
    mtimes: Seq<u64>,
)
    requires
        blank(lead),
        blank(tail),
    ensures
        timestamp_of(Some(lead + decimal(n as nat) + tail), commit, mtimes) == Ok::<
            (u64, TimestampSource),
            ErrorView,
        >((n, TimestampSource::SourceDateEpoch)),
        timestamp_of(None, Some(n), mtimes) == Ok::<(u64, TimestampSource), ErrorView>(
            (n, TimestampSource::GitCommit),
        ),
        mtimes.len() == 0 ==> timestamp_of(None, None, mtimes) is Err,
        mtimes.len() > 0 ==> (timestamp_of(None, None, mtimes) matches Ok(found) && found.1
            == TimestampSource::NewestSourceMtime && mtimes.contains(found.0) && forall|i: int|
            0 <= i < mtimes.len() ==> #[trigger] mtimes[i] <= found.0),
{
    let d = decimal(n as nat);
    decimal_reads_back(n as nat);
    assert(digit(d[0]) && digit(d[d.len() - 1]));
    trimming_takes_the_blanks(lead, d, tail);
    newest_is_greatest(mtimes);
}

/// What is set in the environment and is no number is refused, whatever the other sources say.
pub proof fn a_malformed_date_is_refused(raw: Seq<char>, commit: Option<u64>, mtimes: Seq<u64>)
    requires
        unsigned_of(trimmed(raw)) is None,
    ensures
        timestamp_of(Some(raw), commit, mtimes) is Err,
{
}

} // verus!
