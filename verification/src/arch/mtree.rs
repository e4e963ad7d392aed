//! The `.MTREE` member: Arch's file manifest, an mtree listing with SHA-256 digests.
//!
//! A projection of the build plan, not a walk of a staged directory as `makepkg` does it: type,
//! mode, size and time come from plan entries and the digest from the payload.

use vstd::prelude::*;

use crate::digits::{decimal, decimal_text, digits_are_alphanumeric, octal, octal_text};
use crate::error::opt;
use crate::payload::{relative, MEMBER_PREFIX};
use crate::plan::{BuildPlan, EntryKind, EntryKindView, PlannedFile, PlannedFileView};
use crate::chars::{alphanumeric, whitespace};
use crate::strings::{
    begins_with, clean_line, end_lines, is_word, lines_of_unlines, split_first_keyed,
    trimmed_end, trimmed_start, words_append, words_of_word, lines, lines_of, same, split_first, split_once, starts_with,
    strip_prefix, trim, trimmed, unlines, views, views_push, words, words_of,
};
use crate::strmap::StrMap;
use crate::textmap::TextMap;

verus! {

pub const DEFAULT_MODE: u32 = 0o644;

/// One manifest line. `path` carries mtree's `./` prefix; `digest` is hex SHA-256.
#[derive(Debug, PartialEq, Eq)]
pub struct Record {
    pub path: String,
    /// `file`, `dir` or `link`.
    pub kind: &'static str,
    pub mode: u32,
    pub size: u64,
    pub digest: Option<String>,
    pub link: Option<String>,
}

pub struct RecordView {
    pub path: Seq<char>,
    pub kind: Seq<char>,
    pub mode: u32,
    pub size: u64,
    pub digest: Option<Seq<char>>,
    pub link: Option<Seq<char>>,
}

impl View for Record {
    type V = RecordView;

    open spec fn view(&self) -> RecordView {
        RecordView {
            path: self.path@,
            kind: self.kind@,
            mode: self.mode,
            size: self.size,
            digest: opt(self.digest),
            link: opt(self.link),
        }
    }
}

/// The record of a planned entry.
pub open spec fn record_of(file: PlannedFileView, digest: Option<Seq<char>>) -> RecordView {
    let path = MEMBER_PREFIX@ + relative(file.destination);
    match file.kind {
        EntryKindView::Regular => RecordView {
            path,
            kind: "file"@,
            mode: file.mode,
            size: file.content.length() as u64,
            digest,
            link: None,
        },
        EntryKindView::Directory => RecordView {
            path,
            kind: "dir"@,
            mode: file.mode,
            size: 0,
            digest: None,
            link: None,
        },
        EntryKindView::Symlink { target } => RecordView {
            path,
            kind: "link"@,
            mode: file.mode,
            size: 0,
            digest: None,
            link: Some(target),
        },
    }
}

/// The record for one planned entry; `digest` is what its bytes gave.
pub fn record_for(file: &PlannedFile, digest: Option<String>) -> (r: Record)
    ensures
        r@ == record_of(file@, opt(digest)),
{
    let mut path = MEMBER_PREFIX.to_owned();
    path.append(file.destination.relative_str());
    match &file.kind {
        EntryKind::Regular => Record {
            path,
            kind: "file",
            mode: file.mode,
            size: file.content.len(),
            digest,
            link: None,
        },
        EntryKind::Directory => Record {
            path,
            kind: "dir",
            mode: file.mode,
            size: 0,
            digest: None,
            link: None,
        },
        EntryKind::Symlink { target } => Record {
            path,
            kind: "link",
            mode: file.mode,
            size: 0,
            digest: None,
            link: Some(target.clone()),
        },
    }
}

// ---- rendering ------------------------------------------------------------------------------

/// An attribute where there is a value.
pub open spec fn attribute(name: Seq<char>, value: Option<Seq<char>>) -> Seq<char> {
    match value {
        Some(v) => name + v,
        None => Seq::empty(),
    }
}

/// The line of a record, while `mode` is the default.
pub open spec fn record_line(r: RecordView, time: u64, mode: u32) -> Seq<char> {
    let start = r.path + " time="@ + decimal(time as nat) + ".0"@;
    if r.kind == "dir"@ {
        start + " type=dir mode="@ + octal(r.mode as nat)
    } else if r.kind == "link"@ {
        start + " type=link mode="@ + octal(r.mode as nat) + attribute(" link="@, r.link)
    } else {
        start + (if r.mode != mode {
            " mode="@ + octal(r.mode as nat)
        } else {
            Seq::empty()
        }) + " size="@ + decimal(r.size as nat) + attribute(" sha256digest="@, r.digest)
    }
}

/// Whether a record changes the default mode.
pub open spec fn resets(r: RecordView, mode: u32) -> bool {
    r.kind == "file"@ && r.mode != mode
}

/// The default mode after the first `n` records.
pub open spec fn mode_after(records: Seq<RecordView>, n: int) -> u32
    decreases n,
{
    if n <= 0 {
        DEFAULT_MODE
    } else if resets(records[n - 1], mode_after(records, n - 1)) {
        records[n - 1].mode
    } else {
        mode_after(records, n - 1)
    }
}

/// What one record adds: a new default where its mode is another, then its line.
pub open spec fn record_lines(r: RecordView, time: u64, mode: u32) -> Seq<Seq<char>> {
    if resets(r, mode) {
        seq!["/set mode="@ + octal(r.mode as nat), record_line(r, time, r.mode)]
    } else {
        seq![record_line(r, time, mode)]
    }
}

pub open spec fn opening_lines() -> Seq<Seq<char>> {
    seq!["#mtree"@, "/set type=file uid=0 gid=0 mode="@ + octal(DEFAULT_MODE as nat)]
}

/// The lines of the first `n` records, with those before them.
pub open spec fn manifest_lines(records: Seq<RecordView>, time: u64, n: int) -> Seq<Seq<char>>
    decreases n,
{
    if n <= 0 {
        opening_lines()
    } else {
        manifest_lines(records, time, n - 1) + record_lines(
            records[n - 1],
            time,
            mode_after(records, n - 1),
        )
    }
}

fn line_of(record: &Record, time: u64, mode: u32) -> (s: String)
    ensures
        s@ == record_line(record@, time, mode),
{
    let mut s = record.path.clone();
    s.append(" time=");
    s.append(decimal_text(time).as_str());
    s.append(".0");
    let ghost start = s@;
    if same(record.kind, "dir") {
        s.append(" type=dir mode=");
        s.append(octal_text(record.mode).as_str());
    } else if same(record.kind, "link") {
        s.append(" type=link mode=");
        s.append(octal_text(record.mode).as_str());
        match &record.link {
            Some(link) => {
                let ghost before = s@;
                s.append(" link=");
                s.append(link.as_str());
                assert(s@ =~= before + (" link="@ + link@));
            },
            None => {
                assert(s@ =~= s@ + Seq::empty());
            },
        }
    } else {
        if record.mode != mode {
            s.append(" mode=");
            s.append(octal_text(record.mode).as_str());
            assert(s@ =~= start + (" mode="@ + octal(record.mode as nat)));
        } else {
            assert(s@ =~= start + Seq::empty());
        }
        s.append(" size=");
        s.append(decimal_text(record.size).as_str());
        match &record.digest {
            Some(digest) => {
                let ghost before = s@;
                s.append(" sha256digest=");
                s.append(digest.as_str());
                assert(s@ =~= before + (" sha256digest="@ + digest@));
            },
            None => {
                assert(s@ =~= s@ + Seq::empty());
            },
        }
    }
    s
}

/// Renders the manifest; it never lists `.MTREE` itself, matching `makepkg`.
pub fn render(records: &[Record], plan: &BuildPlan) -> (s: String)
    ensures
        s@ == unlines(manifest_lines(views(records@), plan@.timestamp, records@.len() as int)),
{
    let time = plan.timestamp.as_secs();
    let ghost all = views(records@);
    let mut out: Vec<String> = Vec::new();
    let first = "#mtree".to_owned();
    let mut second = "/set type=file uid=0 gid=0 mode=".to_owned();
    second.append(octal_text(DEFAULT_MODE).as_str());
    out.push(first);
    out.push(second);
    assert(views(out@) =~= opening_lines());
    let mut current_mode = DEFAULT_MODE;
    let mut i: usize = 0;
    while i < records.len()
        invariant
            i <= records@.len(),
            all == views(records@),
            time == plan@.timestamp,
            current_mode == mode_after(all, i as int),
            views(out@) == manifest_lines(all, time, i as int),
        decreases records@.len() - i,
    {
        let record = &records[i];
        assert(all[i as int] == record@);
        let ghost before = views(out@);
        if same(record.kind, "file") && record.mode != current_mode {
            let mut line = "/set mode=".to_owned();
            line.append(octal_text(record.mode).as_str());
            proof {
                views_push(out@, line);
            }
            out.push(line);
            current_mode = record.mode;
        }
        let line = line_of(record, time, current_mode);
        proof {
            views_push(out@, line);
        }
        out.push(line);
        assert(views(out@) =~= before + record_lines(record@, time, mode_after(all, i as int)));
        i = i + 1;
    }
    end_lines(&out)
}

// ---- parsing --------------------------------------------------------------------------------

/// The attributes some words give, over those there were.
pub open spec fn with_attributes(
    before: Map<Seq<char>, Seq<char>>,
    words: Seq<Seq<char>>,
) -> Map<Seq<char>, Seq<char>>
    decreases words.len(),
{
    if words.len() == 0 {
        before
    } else {
        let so_far = with_attributes(before, words.drop_last());
        match split_first(words.last(), "="@) {
            Some(pair) => so_far.insert(pair.0, pair.1),
            None => so_far,
        }
    }
}

/// What has been read: the defaults, and the attributes of each path.
#[verifier::ext_equal]
pub struct ReadView {
    pub defaults: Map<Seq<char>, Seq<char>>,
    pub entries: Map<Seq<char>, Map<Seq<char>, Seq<char>>>,
}

/// What one line does: comments and blank lines are passed over, `/set` changes the defaults,
/// and anything else names a path and its attributes.
pub open spec fn line_read(before: ReadView, line: Seq<char>) -> ReadView {
    if begins_with(line, "#"@) || trimmed(line).len() == 0 {
        before
    } else if begins_with(line, "/set "@) {
        ReadView {
            defaults: with_attributes(
                before.defaults,
                words_of(line.skip("/set "@.len() as int)),
            ),
            entries: before.entries,
        }
    } else {
        let all = words_of(line);
        if all.len() == 0 {
            before
        } else {
            ReadView {
                defaults: before.defaults,
                entries: before.entries.insert(
                    all[0],
                    with_attributes(before.defaults, all.skip(1)),
                ),
            }
        }
    }
}

pub open spec fn lines_read(lines: Seq<Seq<char>>) -> ReadView
    decreases lines.len(),
{
    if lines.len() == 0 {
        ReadView { defaults: Map::empty(), entries: Map::empty() }
    } else {
        line_read(lines_read(lines.drop_last()), lines.last())
    }
}

/// The attributes of each path of a manifest.
pub open spec fn manifest_read(text: Seq<char>) -> Map<Seq<char>, Map<Seq<char>, Seq<char>>> {
    lines_read(lines_of(text)).entries
}

/// The plain values of a map of maps.
pub open spec fn maps_of(m: Map<Seq<char>, TextMap>) -> Map<Seq<char>, Map<Seq<char>, Seq<char>>> {
    m.map_values(|v: TextMap| v@)
}

/// Adds the attributes some words give.
fn add_attributes(attributes: &mut TextMap, words: &Vec<String>, from: usize)
    requires
        from <= words@.len(),
    ensures
        final(attributes)@ == with_attributes(old(attributes)@, views(words@).skip(from as int)),
{
    let ghost before = attributes@;
    let ghost all = views(words@).skip(from as int);
    let mut i: usize = from;
    assert(all.take(0) =~= Seq::empty());
    while i < words.len()
        invariant
            from <= i <= words@.len(),
            all == views(words@).skip(from as int),
            attributes@ == with_attributes(before, all.take(i - from)),
        decreases words@.len() - i,
    {
        assert(all.take(i - from + 1).drop_last() =~= all.take(i - from));
        assert(all.take(i - from + 1).last() == words@[i as int]@);
        match split_once(words[i].as_str(), "=") {
            Some((key, value)) => {
                attributes.insert(key, value);
            },
            None => {},
        }
        i = i + 1;
    }
    assert(all.take(i - from) =~= all);
}

/// Parses a rendered manifest into the attributes of each path, applying `/set` defaults, so
/// that the manifest is checked without trusting the writer's notion of what it wrote.
pub fn parse(text: &str) -> (entries: StrMap<TextMap>)
    ensures
        maps_of(entries@) == manifest_read(text@),
{
    let all = lines(text);
    let ghost every = lines_of(text@);
    let mut defaults = TextMap::new();
    let mut entries: StrMap<TextMap> = StrMap::new();
    let mut i: usize = 0;
    assert(every.take(0) =~= Seq::empty());
    assert(maps_of(entries@) =~= Map::empty());
    while i < all.len()
        invariant
            i <= all@.len(),
            views(all@) == every,
            lines_read(every.take(i as int)).defaults == defaults@,
            lines_read(every.take(i as int)).entries == maps_of(entries@),
        decreases all@.len() - i,
    {
        let line = all[i].as_str();
        proof {
            assert(every[i as int] == line@);
            assert(every.take(i + 1).drop_last() =~= every.take(i as int));
            assert(every.take(i + 1).last() == line@);
        }
        if !starts_with(line, "#") && !trim(line).as_str().is_empty() {
            match strip_prefix(line, "/set ") {
                Some(rest) => {
                    let pairs = words(rest.as_str());
                    assert(views(pairs@).skip(0) =~= views(pairs@));
                    add_attributes(&mut defaults, &pairs, 0);
                },
                None => {
                    let parts = words(line);
                    assert(views(parts@).len() == parts@.len());
                    if parts.len() > 0 {
                        let mut attributes = defaults.clone();
                        add_attributes(&mut attributes, &parts, 1);
                        let path = parts[0].clone();
                        let ghost before = entries@;
                        assert(views(parts@)[0] == path@);
                        entries.insert(path, attributes);
                        assert(maps_of(entries@) =~= maps_of(before).insert(path@, attributes@));
                    }
                },
            }
        }
        i = i + 1;
    }
    assert(every.take(i as int) =~= every);
    entries
}


// ---- reading back ---------------------------------------------------------------------------

/// A record whose line reads back: its path, digest and link target hold no whitespace, and
/// its path cannot be taken for a comment or a directive.
pub open spec fn readable_record(r: RecordView) -> bool {
    &&& is_word(r.path)
    &&& r.path[0] != '#'
    &&& r.path[0] != '/'
    &&& r.kind == "file"@ || r.kind == "dir"@ || r.kind == "link"@
    &&& r.digest matches Some(d) ==> no_whitespace(d)
    &&& r.link matches Some(l) ==> no_whitespace(l)
}

pub open spec fn no_whitespace(s: Seq<char>) -> bool {
    forall|i: int| 0 <= i < s.len() ==> !whitespace(#[trigger] s[i])
}

/// The defaults in force while a mode is the default one.
pub open spec fn defaults_with(mode: u32) -> Map<Seq<char>, Seq<char>> {
    Map::<Seq<char>, Seq<char>>::empty().insert("type"@, "file"@).insert("uid"@, "0"@).insert(
        "gid"@,
        "0"@,
    ).insert("mode"@, octal(mode as nat))
}

/// The attributes a record reads back with.
pub open spec fn attributes_back(r: RecordView, time: u64) -> Map<Seq<char>, Seq<char>> {
    let timed = defaults_with(r.mode).insert("time"@, decimal(time as nat) + ".0"@);
    if r.kind == "dir"@ {
        timed.insert("type"@, "dir"@)
    } else if r.kind == "link"@ {
        let linked = timed.insert("type"@, "link"@);
        match r.link {
            Some(target) => linked.insert("link"@, target),
            None => linked,
        }
    } else {
        let sized = timed.insert("size"@, decimal(r.size as nat));
        match r.digest {
            Some(digest) => sized.insert("sha256digest"@, digest),
            None => sized,
        }
    }
}

/// The attributes of the first `n` records by path, the last one of a path.
pub open spec fn entries_back(records: Seq<RecordView>, time: u64, n: int) -> Map<
    Seq<char>,
    Map<Seq<char>, Seq<char>>,
>
    decreases n,
{
    if n <= 0 {
        Map::empty()
    } else {
        entries_back(records, time, n - 1).insert(
            records[n - 1].path,
            attributes_back(records[n - 1], time),
        )
    }
}

/// `key=value`.
spec fn pair(key: Seq<char>, value: Seq<char>) -> Seq<char> {
    key + "="@ + value
}

spec fn plain_key(key: Seq<char>) -> bool {
    is_word(key) && !key.contains('=')
}

/// A line of words, one more of them an attribute.
proof fn attribute_reads(
    line: Seq<char>,
    words: Seq<Seq<char>>,
    before: Map<Seq<char>, Seq<char>>,
    key: Seq<char>,
    value: Seq<char>,
)
    requires
        words_of(line) == words,
        words.len() > 0,
        plain_key(key),
        no_whitespace(value),
    ensures
        words_of(line + seq![' '] + pair(key, value)) == words.push(pair(key, value)),
        is_word(pair(key, value)),
        with_attributes(before, words.push(pair(key, value)).skip(1)) == with_attributes(
            before,
            words.skip(1),
        ).insert(key, value),
        with_attributes(before, words.push(pair(key, value))) == with_attributes(
            before,
            words,
        ).insert(key, value),
{
    reveal_strlit("=");
    let word = pair(key, value);
    assert forall|i: int| 0 <= i < word.len() implies !whitespace(#[trigger] word[i]) by {
        if i < key.len() {
            assert(word[i] == key[i]);
        } else if i > key.len() {
            assert(word[i] == value[i - key.len() - 1]);
        }
    }
    words_append(line, word);
    split_first_keyed(key, "="@, value);
    let longer = words.push(word);
    assert(longer.skip(1).drop_last() =~= words.skip(1));
    assert(longer.skip(1).last() == word);
    assert(longer.drop_last() =~= words);
}

proof fn numbers_are_words(n: nat)
    ensures
        no_whitespace(decimal(n)),
        no_whitespace(octal(n)),
        no_whitespace(decimal(n) + ".0"@),
{
    digits_are_alphanumeric(n, 10);
    digits_are_alphanumeric(n, 8);
    reveal_strlit(".0");
    let d = decimal(n);
    let o = octal(n);
    assert forall|i: int| 0 <= i < d.len() implies !whitespace(#[trigger] d[i]) by {
        assert(alphanumeric(d[i]));
    }
    assert forall|i: int| 0 <= i < o.len() implies !whitespace(#[trigger] o[i]) by {
        assert(alphanumeric(o[i]));
    }
    let t = d + ".0"@;
    assert forall|i: int| 0 <= i < t.len() implies !whitespace(#[trigger] t[i]) by {
        if i < d.len() {
            assert(t[i] == d[i]);
        }
    }
}

proof fn keys_are_plain()
    ensures
        plain_key("time"@),
        plain_key("type"@),
        plain_key("mode"@),
        plain_key("link"@),
        plain_key("size"@),
        plain_key("sha256digest"@),
        plain_key("uid"@),
        plain_key("gid"@),
        no_whitespace("dir"@),
        no_whitespace("link"@),
        no_whitespace("file"@),
        no_whitespace("0"@),
{
    reveal_strlit("time");
    reveal_strlit("type");
    reveal_strlit("mode");
    reveal_strlit("link");
    reveal_strlit("size");
    reveal_strlit("sha256digest");
    reveal_strlit("uid");
    reveal_strlit("gid");
    reveal_strlit("dir");
    reveal_strlit("file");
    reveal_strlit("0");
}

/// Texts without line breaks inside a line of words.
proof fn words_are_clean(line: Seq<char>)
    requires
        forall|i: int| 0 <= i < line.len() ==> !whitespace(#[trigger] line[i]) || line[i] == ' ',
    ensures
        clean_line(line),
{
    if line.contains('\n') {
        let i = line.index_of('\n');
        assert(whitespace(line[i]));
    }
    if line.len() > 0 && line.last() == '\r' {
        assert(whitespace(line[line.len() - 1]));
    }
}

spec fn spaced_only(line: Seq<char>) -> bool {
    forall|i: int| 0 <= i < line.len() ==> !whitespace(#[trigger] line[i]) || line[i] == ' '
}

proof fn spaced_append(line: Seq<char>, word: Seq<char>)
    requires
        spaced_only(line),
        is_word(word),
    ensures
        spaced_only(line + seq![' '] + word),
        line.len() > 0 ==> (line + seq![' '] + word)[0] == line[0],
{
    let all = line + seq![' '] + word;
    assert forall|i: int| 0 <= i < all.len() implies !whitespace(#[trigger] all[i]) || all[i]
        == ' ' by {
        if i < line.len() {
            assert(all[i] == line[i]);
        } else if i > line.len() {
            assert(all[i] == word[i - line.len() - 1]);
        }
    }
}

/// A line of words that is neither comment nor directive names a path.
proof fn path_line_read(before: ReadView, line: Seq<char>, words: Seq<Seq<char>>)
    requires
        words_of(line) == words,
        words.len() > 0,
        line.len() > 0,
        !whitespace(line[0]),
        line[0] != '#',
        line[0] != '/',
    ensures
        line_read(before, line) == (ReadView {
            defaults: before.defaults,
            entries: before.entries.insert(
                words[0],
                with_attributes(before.defaults, words.skip(1)),
            ),
        }),
{
    reveal_strlit("#");
    reveal_strlit("/set ");
    assert(!begins_with(line, "#"@)) by {
        if begins_with(line, "#"@) {
            assert(line.take(1)[0] == '#');
        }
    }
    assert(!begins_with(line, "/set "@)) by {
        if begins_with(line, "/set "@) {
            assert(line.take(5)[0] == '/');
        }
    }
    nonblank(line);
}

/// A text that starts with something visible is not blank.
proof fn nonblank(line: Seq<char>)
    requires
        line.len() > 0,
        !whitespace(line[0]),
    ensures
        trimmed(line).len() > 0,
{
    assert(trimmed_start(line) == line);
    nonblank_end(line);
}

proof fn nonblank_end(line: Seq<char>)
    requires
        line.len() > 0,
        !whitespace(line[0]),
    ensures
        trimmed_end(line).len() > 0,
    decreases line.len(),
{
    if whitespace(line.last()) {
        assert(line.len() > 1);
        assert(line.drop_last()[0] == line[0]);
        nonblank_end(line.drop_last());
    }
}


proof fn keys_differ()
    ensures
        "time"@ != "type"@,
        "time"@ != "mode"@,
        "time"@ != "uid"@,
        "time"@ != "gid"@,
        "type"@ != "mode"@,
        "type"@ != "uid"@,
        "type"@ != "gid"@,
        "mode"@ != "uid"@,
        "mode"@ != "gid"@,
        "uid"@ != "gid"@,
{
    reveal_strlit("time");
    reveal_strlit("type");
    reveal_strlit("mode");
    reveal_strlit("uid");
    reveal_strlit("gid");
    assert("time"@[1] == 'i' && "type"@[1] == 'y');
    assert("time"@[0] == 't' && "type"@[0] == 't' && "mode"@[0] == 'm');
    assert("uid"@[0] == 'u' && "gid"@[0] == 'g');
}

/// A directive sets the defaults its words give.
proof fn set_line_read(before: ReadView, rest: Seq<char>)
    requires
        rest.len() > 0,
        spaced_only(rest),
    ensures
        line_read(before, "/set "@ + rest) == (ReadView {
            defaults: with_attributes(before.defaults, words_of(rest)),
            entries: before.entries,
        }),
        clean_line("/set "@ + rest),
{
    reveal_strlit("#");
    reveal_strlit("/set ");
    let line = "/set "@ + rest;
    assert(line[0] == '/');
    assert(!begins_with(line, "#"@)) by {
        if begins_with(line, "#"@) {
            assert(line.take(1)[0] == '#');
        }
    }
    nonblank(line);
    assert(line.take(5) =~= "/set "@);
    assert(line.skip(5) =~= rest);
    assert forall|i: int| 0 <= i < line.len() implies !whitespace(#[trigger] line[i]) || line[i]
        == ' ' by {
        if i >= 5 {
            assert(line[i] == rest[i - 5]);
        }
    }
    words_are_clean(line);
}

proof fn word_is_spaced(w: Seq<char>)
    requires
        is_word(w),
    ensures
        spaced_only(w),
{
}

/// A changed default is read as one.
proof fn mode_line_read(before: ReadView, mode: u32, old_mode: u32)
    requires
        before.defaults == defaults_with(old_mode),
    ensures
        line_read(before, "/set mode="@ + octal(mode as nat)) == (ReadView {
            defaults: defaults_with(mode),
            entries: before.entries,
        }),
        clean_line("/set mode="@ + octal(mode as nat)),
{
    keys_are_plain();
    keys_differ();
    numbers_are_words(mode as nat);
    let word = pair("mode"@, octal(mode as nat));
    assert(is_word(word)) by {
        words_of_word("mode"@);
        attribute_reads("mode"@, seq!["mode"@], Map::empty(), "mode"@, octal(mode as nat));
    }
    words_of_word(word);
    word_is_spaced(word);
    set_line_read(before, word);
    assert("/set mode="@ + octal(mode as nat) =~= "/set "@ + word) by {
        reveal_strlit("/set mode=");
        reveal_strlit("/set ");
        reveal_strlit("mode");
        reveal_strlit("=");
    }
    assert(split_first(word, "="@) == Some(("mode"@, octal(mode as nat)))) by {
        reveal_strlit("=");
        split_first_keyed("mode"@, "="@, octal(mode as nat));
    }
    let words = seq![word];
    assert(words.drop_last() =~= Seq::empty());
    assert(with_attributes(before.defaults, words.drop_last()) == before.defaults);
    assert(with_attributes(before.defaults, words) == before.defaults.insert(
        "mode"@,
        octal(mode as nat),
    ));
    assert(before.defaults.insert("mode"@, octal(mode as nat)) =~= defaults_with(mode));
}

/// The opening lines set the first defaults.
proof fn opening_lines_read()
    ensures
        lines_read(opening_lines()) == (ReadView {
            defaults: defaults_with(DEFAULT_MODE),
            entries: Map::empty(),
        }),
        forall|i: int| 0 <= i < 2 ==> clean_line(#[trigger] opening_lines()[i]),
{
    keys_are_plain();
    keys_differ();
    let mode = octal(DEFAULT_MODE as nat);
    numbers_are_words(DEFAULT_MODE as nat);
    let all = opening_lines();
    let none = ReadView { defaults: Map::empty(), entries: Map::empty() };
    assert(clean_line("#mtree"@) && begins_with("#mtree"@, "#"@)) by {
        reveal_strlit("#mtree");
        reveal_strlit("#");
        assert("#mtree"@.take(1) =~= "#"@);
    }
    assert(all.drop_last() =~= seq!["#mtree"@]);
    assert(all.drop_last().drop_last() =~= Seq::empty());
    assert(lines_read(all.drop_last().drop_last()) == none);
    assert(lines_read(all.drop_last()) == none);
    let w1 = pair("type"@, "file"@);
    let w2 = pair("uid"@, "0"@);
    let w3 = pair("gid"@, "0"@);
    let w4 = pair("mode"@, mode);
    let empty = Map::<Seq<char>, Seq<char>>::empty();
    words_of_word("type"@);
    attribute_reads("type"@, seq!["type"@], empty, "type"@, "file"@);
    words_of_word(w1);
    word_is_spaced(w1);
    let l1 = w1;
    let s1 = seq![w1];
    assert(with_attributes(empty, s1) == empty.insert("type"@, "file"@)) by {
        assert(s1.drop_last() =~= Seq::empty());
        assert(with_attributes(empty, s1.drop_last()) == empty);
        reveal_strlit("=");
        split_first_keyed("type"@, "="@, "file"@);
    }
    attribute_reads(l1, s1, empty, "uid"@, "0"@);
    spaced_append(l1, w2);
    let l2 = l1 + seq![' '] + w2;
    let s2 = s1.push(w2);
    attribute_reads(l2, s2, empty, "gid"@, "0"@);
    spaced_append(l2, w3);
    let l3 = l2 + seq![' '] + w3;
    let s3 = s2.push(w3);
    attribute_reads(l3, s3, empty, "mode"@, mode);
    spaced_append(l3, w4);
    let l4 = l3 + seq![' '] + w4;
    set_line_read(none, l4);
    assert("/set type=file uid=0 gid=0 mode="@ + mode =~= "/set "@ + l4) by {
        reveal_strlit("/set type=file uid=0 gid=0 mode=");
        reveal_strlit("/set ");
        reveal_strlit("type");
        reveal_strlit("file");
        reveal_strlit("uid");
        reveal_strlit("gid");
        reveal_strlit("mode");
        reveal_strlit("0");
        reveal_strlit("=");
    }
    assert(all.last() == "/set "@ + l4);
    assert(with_attributes(empty, words_of(l4)) == defaults_with(DEFAULT_MODE));
}

spec fn start_of(r: RecordView, time: u64) -> Seq<char> {
    r.path + " time="@ + decimal(time as nat) + ".0"@
}

/// The words every line starts with: the path and the time.
proof fn start_reads(d: Map<Seq<char>, Seq<char>>, r: RecordView, time: u64)
    requires
        readable_record(r),
    ensures
        ({
            let stamp = decimal(time as nat) + ".0"@;
            let words = seq![r.path, pair("time"@, stamp)];
            &&& words_of(start_of(r, time)) == words
            &&& with_attributes(d, words.skip(1)) == d.insert("time"@, stamp)
        }),
        spaced_only(start_of(r, time)),
        start_of(r, time).len() > 0,
        start_of(r, time)[0] == r.path[0],
        !whitespace(r.path[0]),
{
    keys_are_plain();
    numbers_are_words(time as nat);
    let stamp = decimal(time as nat) + ".0"@;
    let w1 = pair("time"@, stamp);
    let s0 = seq![r.path];
    words_of_word(r.path);
    word_is_spaced(r.path);
    assert(with_attributes(d, s0.skip(1)) == d) by {
        assert(s0.skip(1) =~= Seq::empty());
    }
    attribute_reads(r.path, s0, d, "time"@, stamp);
    spaced_append(r.path, w1);
    let l1 = r.path + seq![' '] + w1;
    assert(start_of(r, time) =~= l1) by {
        reveal_strlit(" time=");
        reveal_strlit("time");
        reveal_strlit("=");
    }
    assert(s0.push(w1) =~= seq![r.path, w1]);
}

/// One more attribute on a line.
proof fn attribute_added(
    line: Seq<char>,
    words: Seq<Seq<char>>,
    d: Map<Seq<char>, Seq<char>>,
    spelled: Seq<char>,
    key: Seq<char>,
    value: Seq<char>,
)
    requires
        words_of(line) == words,
        words.len() > 0,
        spaced_only(line),
        line.len() > 0,
        plain_key(key),
        no_whitespace(value),
        spelled == seq![' '] + key + "="@,
    ensures
        words_of(line + spelled + value) == words.push(pair(key, value)),
        with_attributes(d, words.push(pair(key, value)).skip(1)) == with_attributes(
            d,
            words.skip(1),
        ).insert(key, value),
        spaced_only(line + spelled + value),
        (line + spelled + value)[0] == line[0],
{
    attribute_reads(line, words, d, key, value);
    spaced_append(line, pair(key, value));
    assert(line + spelled + value =~= line + seq![' '] + pair(key, value));
}

proof fn spellings_of_keys()
    ensures
        " size="@ == seq![' '] + "size"@ + "="@,
        " sha256digest="@ == seq![' '] + "sha256digest"@ + "="@,
        " link="@ == seq![' '] + "link"@ + "="@,
        " type=dir mode="@ == seq![' '] + "type"@ + "="@ + "dir"@ + (seq![' '] + "mode"@ + "="@),
        " type=link mode="@ == seq![' '] + "type"@ + "="@ + "link"@ + (seq![' '] + "mode"@ + "="@),
{
    reveal_strlit("=");
    reveal_strlit("size");
    reveal_strlit(" size=");
    reveal_strlit("sha256digest");
    reveal_strlit(" sha256digest=");
    reveal_strlit("link");
    reveal_strlit(" link=");
    reveal_strlit("type");
    reveal_strlit("dir");
    reveal_strlit("mode");
    reveal_strlit(" type=dir mode=");
    reveal_strlit(" type=link mode=");
    assert(" size="@ =~= seq![' '] + "size"@ + "="@);
    assert(" sha256digest="@ =~= seq![' '] + "sha256digest"@ + "="@);
    assert(" link="@ =~= seq![' '] + "link"@ + "="@);
    assert(" type=dir mode="@ =~= seq![' '] + "type"@ + "="@ + "dir"@ + (seq![' '] + "mode"@
        + "="@));
    assert(" type=link mode="@ =~= seq![' '] + "type"@ + "="@ + "link"@ + (seq![' '] + "mode"@
        + "="@));
}

proof fn file_line_reads(before: ReadView, r: RecordView, time: u64)
    requires
        readable_record(r),
        r.kind == "file"@,
        before.defaults == defaults_with(r.mode),
    ensures
        line_read(before, record_line(r, time, r.mode)) == (ReadView {
            defaults: before.defaults,
            entries: before.entries.insert(r.path, attributes_back(r, time)),
        }),
        clean_line(record_line(r, time, r.mode)),
{
    keys_are_plain();
    file_kind();
    spellings_of_keys();
    numbers_are_words(r.size as nat);
    let d = before.defaults;
    let l1 = start_of(r, time);
    let s1 = words_of(l1);
    start_reads(d, r, time);
    let size = decimal(r.size as nat);
    attribute_added(l1, s1, d, " size="@, "size"@, size);
    let l2 = l1 + " size="@ + size;
    let s2 = s1.push(pair("size"@, size));
    let line = record_line(r, time, r.mode);
    assert(l1 + Seq::<char>::empty() =~= l1);
    match r.digest {
        Some(digest) => {
            attribute_added(l2, s2, d, " sha256digest="@, "sha256digest"@, digest);
            let l3 = l2 + " sha256digest="@ + digest;
            assert(line =~= l3);
            words_are_clean(l3);
            path_line_read(before, l3, s2.push(pair("sha256digest"@, digest)));
        },
        None => {
            assert(line =~= l2);
            words_are_clean(l2);
            path_line_read(before, l2, s2);
        },
    }
}

proof fn other_line_reads(before: ReadView, r: RecordView, time: u64, mode: u32)
    requires
        readable_record(r),
        r.kind != "file"@,
        before.defaults == defaults_with(mode),
    ensures
        line_read(before, record_line(r, time, mode)) == (ReadView {
            defaults: before.defaults,
            entries: before.entries.insert(r.path, attributes_back(r, time)),
        }),
        clean_line(record_line(r, time, mode)),
{
    keys_are_plain();
    keys_differ();
    spellings_of_keys();
    numbers_are_words(r.mode as nat);
    let d = before.defaults;
    let stamp = decimal(time as nat) + ".0"@;
    let bits = octal(r.mode as nat);
    let kind = r.kind;
    let l1 = start_of(r, time);
    let s1 = words_of(l1);
    start_reads(d, r, time);
    let typed = seq![' '] + "type"@ + "="@;
    let moded = seq![' '] + "mode"@ + "="@;
    attribute_added(l1, s1, d, typed, "type"@, kind);
    let l2 = l1 + typed + kind;
    let s2 = s1.push(pair("type"@, kind));
    attribute_added(l2, s2, d, moded, "mode"@, bits);
    let l3 = l2 + moded + bits;
    let s3 = s2.push(pair("mode"@, bits));
    let line = record_line(r, time, mode);
    assert(with_attributes(d, s3.skip(1)) =~= defaults_with(r.mode).insert("time"@, stamp).insert(
        "type"@,
        kind,
    ));
    if kind == "dir"@ {
        assert(line =~= l3);
        words_are_clean(l3);
        path_line_read(before, l3, s3);
    } else {
        assert(l1 + " type=link mode="@ + bits =~= l3);
        match r.link {
            Some(target) => {
                attribute_added(l3, s3, d, " link="@, "link"@, target);
                let l4 = l3 + " link="@ + target;
                assert(line =~= l4);
                words_are_clean(l4);
                path_line_read(before, l4, s3.push(pair("link"@, target)));
            },
            None => {
                assert(line =~= l3);
                words_are_clean(l3);
                path_line_read(before, l3, s3);
            },
        }
    }
}

/// A record's line reads as its attributes.
proof fn record_line_reads(before: ReadView, r: RecordView, time: u64, mode: u32)
    requires
        readable_record(r),
        r.kind == "file"@ ==> r.mode == mode,
        before.defaults == defaults_with(mode),
    ensures
        line_read(before, record_line(r, time, mode)) == (ReadView {
            defaults: before.defaults,
            entries: before.entries.insert(r.path, attributes_back(r, time)),
        }),
        clean_line(record_line(r, time, mode)),
{
    if r.kind == "file"@ {
        file_line_reads(before, r, time);
    } else {
        other_line_reads(before, r, time, mode);
    }
}

proof fn file_kind()
    ensures
        "file"@ != "dir"@,
        "file"@ != "link"@,
{
    reveal_strlit("file");
    reveal_strlit("dir");
    reveal_strlit("link");
    assert("file"@[0] == 'f' && "link"@[0] == 'l');
}

/// The lines of the first records read as their entries.
proof fn lines_read_back(records: Seq<RecordView>, time: u64, n: int)
    requires
        0 <= n <= records.len(),
        forall|k: int| 0 <= k < records.len() ==> readable_record(#[trigger] records[k]),
    ensures
        lines_read(manifest_lines(records, time, n)) == (ReadView {
            defaults: defaults_with(mode_after(records, n)),
            entries: entries_back(records, time, n),
        }),
        forall|i: int|
            0 <= i < manifest_lines(records, time, n).len() ==> clean_line(
                #[trigger] manifest_lines(records, time, n)[i],
            ),
    decreases n,
{
    if n <= 0 {
        opening_lines_read();
    } else {
        lines_read_back(records, time, n - 1);
        let r = records[n - 1];
        assert(readable_record(r));
        let before = manifest_lines(records, time, n - 1);
        let now = manifest_lines(records, time, n);
        let old_mode = mode_after(records, n - 1);
        let mode = mode_after(records, n);
        if resets(r, old_mode) {
            let set = "/set mode="@ + octal(r.mode as nat);
            mode_line_read(lines_read(before), r.mode, old_mode);
            let middle = before.push(set);
            assert(middle.drop_last() =~= before);
            assert(now =~= middle.push(record_line(r, time, mode)));
            assert(now.drop_last() =~= middle);
            record_line_reads(lines_read(middle), r, time, mode);
        } else {
            assert(now =~= before.push(record_line(r, time, mode)));
            assert(now.drop_last() =~= before);
            record_line_reads(lines_read(before), r, time, mode);
        }
        assert forall|i: int| 0 <= i < now.len() implies clean_line(#[trigger] now[i]) by {
            if i < before.len() {
                assert(now[i] == before[i]);
            }
        }
    }
}

/// A manifest gives back the attributes of every record by its path: the type, the mode
/// whatever the default was, the owner, the time, and the size and digest of a file or the
/// target of a link. Paths and targets with whitespace in them are left out: the format as
/// written here does not escape it.
pub proof fn a_manifest_reads_back(records: Seq<RecordView>, time: u64)
    requires
        forall|k: int| 0 <= k < records.len() ==> readable_record(#[trigger] records[k]),
    ensures
        manifest_read(unlines(manifest_lines(records, time, records.len() as int)))
            == entries_back(records, time, records.len() as int),
{
    let n = records.len() as int;
    lines_read_back(records, time, n);
    lines_of_unlines(manifest_lines(records, time, n));
}

/// Among records of different paths each keeps its own attributes.
pub proof fn each_record_is_listed(records: Seq<RecordView>, time: u64, k: int, n: int)
    requires
        0 <= k < n <= records.len(),
        forall|j: int| k < j < n ==> (#[trigger] records[j]).path != records[k].path,
    ensures
        entries_back(records, time, n).dom().contains(records[k].path),
        entries_back(records, time, n)[records[k].path] == attributes_back(records[k], time),
    decreases n,
{
    if k < n - 1 {
        each_record_is_listed(records, time, k, n - 1);
        assert(records[n - 1].path != records[k].path);
    }
}

} // verus!
