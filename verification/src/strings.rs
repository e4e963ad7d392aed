//! Strings as sequences of characters: splitting, joining, trimming, searching and ordering.
//!
//! Every operation has a spec function over `Seq<char>` that says what it is, and an executable
//! function proved to compute it.

use vstd::prelude::*;

use crate::chars::{is_whitespace, lowered, to_lower, whitespace};

verus! {

/// `String::push` appends one character.
pub assume_specification[ String::push ](s: &mut String, c: char)
    ensures
        final(s)@ == old(s)@.push(c),
;

/// The views of a sequence of values.
pub open spec fn views<T: View>(s: Seq<T>) -> Seq<T::V> {
    Seq::new(s.len(), |i: int| s[i]@)
}

pub proof fn views_push<T: View>(s: Seq<T>, x: T)
    ensures
        views(s.push(x)) == views(s).push(x@),
{
    assert(views(s.push(x)) =~= views(s).push(x@));
}

/// The characters of a string.
pub fn chars_of(s: &str) -> (v: Vec<char>)
    ensures
        v@ == s@,
{
    let mut v: Vec<char> = Vec::new();
    for c in it: s.chars()
        invariant
            v@ == s@.take(it.index() as int),
            it.seq() == s@,
    {
        v.push(c);
    }
    v
}

/// The string holding `v[from..to]`.
pub fn string_of(v: &Vec<char>, from: usize, to: usize) -> (s: String)
    requires
        from <= to <= v@.len(),
    ensures
        s@ == v@.subrange(from as int, to as int),
{
    let mut s = String::new();
    let mut i: usize = from;
    while i < to
        invariant
            from <= i <= to <= v@.len(),
            s@ == v@.subrange(from as int, i as int),
        decreases to - i,
    {
        s.push(v[i]);
        i = i + 1;
    }
    s
}

/// Whether two strings hold the same characters.
pub fn same(a: &str, b: &str) -> (r: bool)
    ensures
        r == (a@ == b@),
{
    let x = chars_of(a);
    let y = chars_of(b);
    if x.len() != y.len() {
        return false;
    }
    let mut i: usize = 0;
    while i < x.len()
        invariant
            x@ == a@,
            y@ == b@,
            x@.len() == y@.len(),
            i <= x@.len(),
            forall|j: int| 0 <= j < i ==> x@[j] == y@[j],
        decreases x@.len() - i,
    {
        if x[i] != y[i] {
            return false;
        }
        i = i + 1;
    }
    assert(a@ =~= b@);
    true
}

// ---- splitting and joining ------------------------------------------------------------

/// `s` cut at every `sep`: always at least one piece, and no piece holds `sep`.
pub open spec fn split_at_char(s: Seq<char>, sep: char) -> Seq<Seq<char>>
    decreases s.len(),
{
    if s.len() == 0 {
        seq![Seq::empty()]
    } else {
        let head = split_at_char(s.drop_last(), sep);
        if s.last() == sep {
            head.push(Seq::empty())
        } else {
            head.drop_last().push(head.last().push(s.last()))
        }
    }
}

/// The pieces with `sep` between them.
pub open spec fn joined(parts: Seq<Seq<char>>, sep: Seq<char>) -> Seq<char>
    decreases parts.len(),
{
    if parts.len() == 0 {
        Seq::empty()
    } else if parts.len() == 1 {
        parts[0]
    } else {
        joined(parts.drop_last(), sep) + sep + parts.last()
    }
}

/// One step of the scan: how the pieces change when a character is appended.
pub proof fn split_step(s: Seq<char>, c: char, sep: char)
    ensures
        split_at_char(s, sep).len() >= 1,
        split_at_char(s.push(c), sep) == (if c == sep {
            split_at_char(s, sep).push(Seq::empty())
        } else {
            split_at_char(s, sep).drop_last().push(split_at_char(s, sep).last().push(c))
        }),
    decreases s.len(),
{
    assert(s.push(c).drop_last() =~= s);
    if s.len() > 0 {
        split_step(s.drop_last(), s.last(), sep);
        assert(s.drop_last().push(s.last()) =~= s);
    }
}

/// Splitting loses nothing: the pieces, joined by the separator, are the text, and none of
/// them holds the separator.
pub proof fn split_joins_back(s: Seq<char>, sep: char)
    ensures
        split_at_char(s, sep).len() >= 1,
        joined(split_at_char(s, sep), seq![sep]) == s,
        forall|i: int|
            0 <= i < split_at_char(s, sep).len() ==> !(#[trigger] split_at_char(
                s,
                sep,
            )[i]).contains(sep),
    decreases s.len(),
{
    if s.len() == 0 {
        assert(joined(split_at_char(s, sep), seq![sep]) =~= s);
    } else {
        let head = split_at_char(s.drop_last(), sep);
        split_joins_back(s.drop_last(), sep);
        split_step(s.drop_last(), s.last(), sep);
        assert(s.drop_last().push(s.last()) =~= s);
        let whole = split_at_char(s, sep);
        if s.last() == sep {
            assert(whole.drop_last() =~= head);
            assert(joined(whole, seq![sep]) =~= s);
        } else {
            assert(whole.drop_last() =~= head.drop_last());
            assert(joined(whole, seq![sep]) =~= s);
            assert forall|i: int| 0 <= i < whole.len() implies !(#[trigger] whole[i]).contains(
                sep,
            ) by {
                if i < whole.len() - 1 {
                    assert(whole[i] == head[i]);
                } else {
                    assert(!head[head.len() - 1].contains(sep));
                    let last = head.last();
                    assert forall|k: int| 0 <= k < last.push(s.last()).len() implies last.push(
                        s.last(),
                    )[k] != sep by {
                        if k < last.len() {
                            assert(last.contains(last[k]));
                        }
                    }
                }
            }
        }
    }
}

/// Text without the separator is one piece.
pub proof fn split_whole(s: Seq<char>, sep: char)
    requires
        !s.contains(sep),
    ensures
        split_at_char(s, sep) == seq![s],
    decreases s.len(),
{
    if s.len() > 0 {
        assert(s.contains(s.last()));
        assert forall|k: int| 0 <= k < s.drop_last().len() implies s.drop_last()[k] != sep by {
            assert(s.contains(s[k]));
        }
        split_whole(s.drop_last(), sep);
        assert(s.drop_last().push(s.last()) =~= s);
        assert(split_at_char(s, sep) =~= seq![s]);
    } else {
        assert(s =~= Seq::empty());
    }
}

/// Appending `sep + tail`, with no separator in `tail`, adds exactly one piece.
pub proof fn split_append(s: Seq<char>, tail: Seq<char>, sep: char)
    requires
        !tail.contains(sep),
    ensures
        split_at_char(s.push(sep) + tail, sep) == split_at_char(s, sep).push(tail),
    decreases tail.len(),
{
    if tail.len() == 0 {
        assert(s.push(sep) + tail =~= s.push(sep));
        split_step(s, sep, sep);
        assert(tail =~= Seq::empty());
    } else {
        let t = tail.drop_last();
        assert forall|k: int| 0 <= k < t.len() implies t[k] != sep by {
            assert(tail.contains(tail[k]));
        }
        split_append(s, t, sep);
        assert(tail.contains(tail.last()));
        split_step(s.push(sep) + t, tail.last(), sep);
        assert((s.push(sep) + t).push(tail.last()) =~= s.push(sep) + tail);
        assert(t.push(tail.last()) =~= tail);
        assert(split_at_char(s, sep).push(t).drop_last() =~= split_at_char(s, sep));
    }
}

/// The pieces of two texts with the separator between them are the pieces of the one, then those
/// of the other.
pub proof fn split_concat(s: Seq<char>, tail: Seq<char>, sep: char)
    ensures
        split_at_char(s.push(sep) + tail, sep) == split_at_char(s, sep) + split_at_char(tail, sep),
    decreases tail.len(),
{
    split_step(s, sep, sep);
    if tail.len() == 0 {
        assert(s.push(sep) + tail =~= s.push(sep));
        assert(split_at_char(s, sep).push(Seq::empty()) =~= split_at_char(s, sep) + split_at_char(
            tail,
            sep,
        ));
    } else {
        let t = tail.drop_last();
        let c = tail.last();
        split_concat(s, t, sep);
        assert(s.push(sep) + tail =~= (s.push(sep) + t).push(c));
        assert(tail =~= t.push(c));
        split_step(s.push(sep) + t, c, sep);
        split_step(t, c, sep);
        let a = split_at_char(s, sep);
        let b = split_at_char(t, sep);
        assert((a + b).push(Seq::empty()) =~= a + b.push(Seq::empty()));
        assert((a + b).last() == b.last());
        assert((a + b).drop_last().push(b.last().push(c)) =~= a + b.drop_last().push(
            b.last().push(c),
        ));
    }
}

/// Joining pieces that hold no separator and splitting again gives them back.
pub proof fn join_splits_back(parts: Seq<Seq<char>>, sep: char)
    requires
        parts.len() >= 1,
        forall|i: int| 0 <= i < parts.len() ==> !(#[trigger] parts[i]).contains(sep),
    ensures
        split_at_char(joined(parts, seq![sep]), sep) == parts,
    decreases parts.len(),
{
    if parts.len() == 1 {
        split_whole(parts[0], sep);
        assert(parts =~= seq![parts[0]]);
    } else {
        let init = parts.drop_last();
        assert forall|i: int| 0 <= i < init.len() implies !(#[trigger] init[i]).contains(sep) by {
            assert(init[i] == parts[i]);
        }
        join_splits_back(init, sep);
        let head = joined(init, seq![sep]);
        split_append(head, parts.last(), sep);
        assert(head.push(sep) + parts.last() =~= head + seq![sep] + parts.last());
        assert(init.push(parts.last()) =~= parts);
    }
}

/// Cuts `s` at every `sep`.
pub fn split(s: &str, sep: char) -> (parts: Vec<String>)
    ensures
        views(parts@) == split_at_char(s@, sep),
{
    let v = chars_of(s);
    let mut parts: Vec<String> = Vec::new();
    let mut current = String::new();
    let mut i: usize = 0;
    assert(split_at_char(v@.take(0), sep) =~= seq![Seq::empty()]);
    assert(views(parts@).push(current@) =~= split_at_char(v@.take(0), sep));
    while i < v.len()
        invariant
            v@ == s@,
            i <= v@.len(),
            views(parts@).push(current@) == split_at_char(v@.take(i as int), sep),
        decreases v@.len() - i,
    {
        let c = v[i];
        proof {
            split_step(v@.take(i as int), c, sep);
            assert(v@.take(i as int).push(c) =~= v@.take(i + 1));
            let before = split_at_char(v@.take(i as int), sep);
            assert(before.drop_last() =~= views(parts@));
            assert(before.last() == current@);
        }
        if c == sep {
            proof {
                views_push(parts@, current);
            }
            parts.push(current);
            current = String::new();
        } else {
            current.push(c);
        }
        i = i + 1;
    }
    proof {
        views_push(parts@, current);
        assert(v@.take(i as int) =~= s@);
    }
    parts.push(current);
    parts
}

/// The pieces with `sep` between them.
pub fn join(parts: &Vec<String>, sep: &str) -> (s: String)
    ensures
        s@ == joined(views(parts@), sep@),
{
    let mut s = String::new();
    let mut i: usize = 0;
    while i < parts.len()
        invariant
            i <= parts@.len(),
            s@ == joined(views(parts@).take(i as int), sep@),
        decreases parts@.len() - i,
    {
        proof {
            let next = views(parts@).take(i + 1);
            assert(next.drop_last() =~= views(parts@).take(i as int));
            assert(next.last() == parts@[i as int]@);
            if i == 0 {
                assert(s@ + parts@[0]@ =~= parts@[0]@);
            }
        }
        if i > 0 {
            s.append(sep);
        }
        s.append(parts[i].as_str());
        i = i + 1;
    }
    assert(views(parts@).take(i as int) =~= views(parts@));
    s
}

// ---- trimming -------------------------------------------------------------------------

pub open spec fn trimmed_start(s: Seq<char>) -> Seq<char>
    decreases s.len(),
{
    if s.len() > 0 && whitespace(s[0]) {
        trimmed_start(s.drop_first())
    } else {
        s
    }
}

pub open spec fn trimmed_end(s: Seq<char>) -> Seq<char>
    decreases s.len(),
{
    if s.len() > 0 && whitespace(s.last()) {
        trimmed_end(s.drop_last())
    } else {
        s
    }
}

/// `s` without leading and trailing whitespace.
pub open spec fn trimmed(s: Seq<char>) -> Seq<char> {
    trimmed_end(trimmed_start(s))
}

/// `s` without leading occurrences of `c`.
pub open spec fn stripped_start(s: Seq<char>, c: char) -> Seq<char>
    decreases s.len(),
{
    if s.len() > 0 && s[0] == c {
        stripped_start(s.drop_first(), c)
    } else {
        s
    }
}

/// `s` without trailing occurrences of `c`.
pub open spec fn stripped_end(s: Seq<char>, c: char) -> Seq<char>
    decreases s.len(),
{
    if s.len() > 0 && s.last() == c {
        stripped_end(s.drop_last(), c)
    } else {
        s
    }
}

/// `s` without leading and trailing occurrences of `c`.
pub open spec fn stripped(s: Seq<char>, c: char) -> Seq<char> {
    stripped_end(stripped_start(s, c), c)
}

pub fn trim_start(s: &str) -> (r: String)
    ensures
        r@ == trimmed_start(s@),
{
    let v = chars_of(s);
    let mut i: usize = 0;
    assert(v@.skip(0) =~= s@);
    while i < v.len() && is_whitespace(v[i])
        invariant
            v@ == s@,
            i <= v@.len(),
            trimmed_start(v@.skip(i as int)) == trimmed_start(s@),
        decreases v@.len() - i,
    {
        assert(v@.skip(i as int).drop_first() =~= v@.skip(i + 1));
        i = i + 1;
    }
    assert(v@.skip(i as int) =~= v@.subrange(i as int, v@.len() as int));
    string_of(&v, i, v.len())
}

pub fn trim_end(s: &str) -> (r: String)
    ensures
        r@ == trimmed_end(s@),
{
    let v = chars_of(s);
    let mut i: usize = v.len();
    assert(v@.take(i as int) =~= s@);
    while i > 0 && is_whitespace(v[i - 1])
        invariant
            v@ == s@,
            i <= v@.len(),
            trimmed_end(v@.take(i as int)) == trimmed_end(s@),
        decreases i,
    {
        assert(v@.take(i as int).drop_last() =~= v@.take(i - 1));
        i = i - 1;
    }
    assert(v@.take(i as int) =~= v@.subrange(0, i as int));
    string_of(&v, 0, i)
}

pub fn trim(s: &str) -> (r: String)
    ensures
        r@ == trimmed(s@),
{
    let head = trim_start(s);
    trim_end(head.as_str())
}

pub fn strip_start(s: &str, c: char) -> (r: String)
    ensures
        r@ == stripped_start(s@, c),
{
    let v = chars_of(s);
    let mut i: usize = 0;
    assert(v@.skip(0) =~= s@);
    while i < v.len() && v[i] == c
        invariant
            v@ == s@,
            i <= v@.len(),
            stripped_start(v@.skip(i as int), c) == stripped_start(s@, c),
        decreases v@.len() - i,
    {
        assert(v@.skip(i as int).drop_first() =~= v@.skip(i + 1));
        i = i + 1;
    }
    assert(v@.skip(i as int) =~= v@.subrange(i as int, v@.len() as int));
    string_of(&v, i, v.len())
}

pub fn strip_end(s: &str, c: char) -> (r: String)
    ensures
        r@ == stripped_end(s@, c),
{
    let v = chars_of(s);
    let mut i: usize = v.len();
    assert(v@.take(i as int) =~= s@);
    while i > 0 && v[i - 1] == c
        invariant
            v@ == s@,
            i <= v@.len(),
            stripped_end(v@.take(i as int), c) == stripped_end(s@, c),
        decreases i,
    {
        assert(v@.take(i as int).drop_last() =~= v@.take(i - 1));
        i = i - 1;
    }
    assert(v@.take(i as int) =~= v@.subrange(0, i as int));
    string_of(&v, 0, i)
}

pub fn strip(s: &str, c: char) -> (r: String)
    ensures
        r@ == stripped(s@, c),
{
    let head = strip_start(s, c);
    strip_end(head.as_str(), c)
}

/// Stripping keeps a stretch of the text, and what is kept neither begins nor ends with `c`.
pub proof fn stripped_is_inner(s: Seq<char>, c: char) -> (bounds: (int, int))
    ensures
        0 <= bounds.0 <= bounds.1 <= s.len(),
        stripped(s, c) == s.subrange(bounds.0, bounds.1),
        stripped(s, c).len() > 0 ==> stripped(s, c)[0] != c && stripped(s, c).last() != c,
{
    let a = stripped_start_is_suffix(s, c);
    let mid = stripped_start(s, c);
    let b = stripped_end_is_prefix(mid, c);
    assert(stripped(s, c) =~= s.subrange(a, a + b));
    (a, a + b)
}

pub proof fn stripped_start_is_suffix(s: Seq<char>, c: char) -> (k: int)
    ensures
        0 <= k <= s.len(),
        stripped_start(s, c) == s.skip(k),
        stripped_start(s, c).len() > 0 ==> stripped_start(s, c)[0] != c,
    decreases s.len(),
{
    if s.len() > 0 && s[0] == c {
        let k = stripped_start_is_suffix(s.drop_first(), c);
        assert(s.drop_first().skip(k) =~= s.skip(k + 1));
        k + 1
    } else {
        assert(s.skip(0) =~= s);
        0
    }
}

pub proof fn stripped_end_is_prefix(s: Seq<char>, c: char) -> (k: int)
    ensures
        0 <= k <= s.len(),
        stripped_end(s, c) == s.take(k),
        stripped_end(s, c).len() > 0 ==> stripped_end(s, c).last() != c,
    decreases s.len(),
{
    if s.len() > 0 && s.last() == c {
        let k = stripped_end_is_prefix(s.drop_last(), c);
        assert(s.drop_last().take(k) =~= s.take(k));
        k
    } else {
        assert(s.take(s.len() as int) =~= s);
        s.len() as int
    }
}

/// Text that neither begins nor ends with `c` is left alone.
pub proof fn stripped_unchanged(s: Seq<char>, c: char)
    requires
        s.len() > 0 ==> s[0] != c && s.last() != c,
    ensures
        stripped(s, c) == s,
{
}

/// A text of nothing but whitespace.
pub open spec fn blank(s: Seq<char>) -> bool {
    forall|i: int| 0 <= i < s.len() ==> whitespace(#[trigger] s[i])
}

/// A text with no whitespace at either end.
pub open spec fn bare(s: Seq<char>) -> bool {
    s.len() > 0 ==> !whitespace(s[0]) && !whitespace(s.last())
}

proof fn leading_blanks_go(lead: Seq<char>, rest: Seq<char>)
    requires
        blank(lead),
    ensures
        trimmed_start(lead + rest) == trimmed_start(rest),
    decreases lead.len(),
{
    if lead.len() == 0 {
        assert(lead + rest =~= rest);
    } else {
        assert((lead + rest)[0] == lead[0]);
        assert((lead + rest).drop_first() =~= lead.drop_first() + rest);
        leading_blanks_go(lead.drop_first(), rest);
    }
}

proof fn trailing_blanks_go(rest: Seq<char>, tail: Seq<char>)
    requires
        blank(tail),
    ensures
        trimmed_end(rest + tail) == trimmed_end(rest),
    decreases tail.len(),
{
    if tail.len() == 0 {
        assert(rest + tail =~= rest);
    } else {
        assert((rest + tail).last() == tail.last());
        assert((rest + tail).drop_last() =~= rest + tail.drop_last());
        trailing_blanks_go(rest, tail.drop_last());
    }
}

/// Trimming takes the whitespace at the ends, all of it and nothing else.
pub proof fn trimming_takes_the_blanks(lead: Seq<char>, body: Seq<char>, tail: Seq<char>)
    requires
        blank(lead),
        bare(body),
        blank(tail),
    ensures
        trimmed(lead + body + tail) == body,
{
    assert(lead + body + tail =~= lead + (body + tail));
    leading_blanks_go(lead, body + tail);
    if body.len() == 0 {
        assert(body + tail =~= tail);
        assert(tail + Seq::<char>::empty() =~= tail);
        leading_blanks_go(tail, Seq::empty());
        assert(body =~= Seq::empty());
    } else {
        assert((body + tail)[0] == body[0]);
        trailing_blanks_go(body, tail);
    }
}

// ---- lines and words ------------------------------------------------------------------

/// `s` without one trailing carriage return.
pub open spec fn without_cr(s: Seq<char>) -> Seq<char> {
    if s.len() > 0 && s.last() == '\r' {
        s.drop_last()
    } else {
        s
    }
}

/// The lines of `s`: ended by `\n` or `\r\n`, a final unended line included.
pub open spec fn lines_of(s: Seq<char>) -> Seq<Seq<char>> {
    let parts = split_at_char(s, '\n');
    let ended = Seq::new((parts.len() - 1) as nat, |i: int| without_cr(parts[i]));
    if parts.last().len() == 0 {
        ended
    } else {
        ended.push(parts.last())
    }
}

pub fn lines(s: &str) -> (r: Vec<String>)
    ensures
        views(r@) == lines_of(s@),
{
    let mut parts = split(s, '\n');
    proof {
        split_joins_back(s@, '\n');
    }
    let ghost pieces = split_at_char(s@, '\n');
    let last = parts.pop();
    let mut out: Vec<String> = Vec::new();
    let mut i: usize = 0;
    while i < parts.len()
        invariant
            i <= parts@.len(),
            parts@.len() + 1 == pieces.len(),
            forall|j: int| 0 <= j < parts@.len() ==> (#[trigger] parts@[j])@ == pieces[j],
            views(out@) == Seq::new(i as nat, |j: int| without_cr(pieces[j])),
        decreases parts@.len() - i,
    {
        let piece = chars_of(parts[i].as_str());
        assert(parts@[i as int]@ == pieces[i as int]);
        let mut end: usize = piece.len();
        if piece.len() > 0 && piece[piece.len() - 1] == '\r' {
            end = piece.len() - 1;
        }
        let line = string_of(&piece, 0, end);
        proof {
            assert(line@ =~= without_cr(pieces[i as int]));
            views_push(out@, line);
            assert(Seq::new((i + 1) as nat, |j: int| without_cr(pieces[j])) =~= Seq::new(
                i as nat,
                |j: int| without_cr(pieces[j]),
            ).push(line@));
        }
        out.push(line);
        i = i + 1;
    }
    match last {
        Some(text) => {
            assert(text@ == pieces.last());
            if !text.as_str().is_empty() {
                proof {
                    views_push(out@, text);
                }
                out.push(text);
            }
        },
        None => {},
    }
    assert(views(out@) =~= lines_of(s@));
    out
}

/// The lines, each ended by `\n`.
pub open spec fn unlines(lines: Seq<Seq<char>>) -> Seq<char>
    decreases lines.len(),
{
    if lines.len() == 0 {
        Seq::empty()
    } else {
        unlines(lines.drop_last()) + lines.last() + "\n"@
    }
}

/// A line that is read back as it was written.
pub open spec fn clean_line(line: Seq<char>) -> bool {
    !line.contains('\n') && !(line.len() > 0 && line.last() == '\r')
}

/// Appending text without the separator extends the last piece.
pub proof fn split_extend(s: Seq<char>, tail: Seq<char>, sep: char)
    requires
        !tail.contains(sep),
    ensures
        split_at_char(s, sep).len() >= 1,
        split_at_char(s + tail, sep) == split_at_char(s, sep).drop_last().push(
            split_at_char(s, sep).last() + tail,
        ),
    decreases tail.len(),
{
    split_step(s, sep, sep);
    if tail.len() == 0 {
        assert(s + tail =~= s);
        assert(split_at_char(s, sep).last() + tail =~= split_at_char(s, sep).last());
        assert(split_at_char(s, sep).drop_last().push(split_at_char(s, sep).last())
            =~= split_at_char(s, sep));
    } else {
        let t = tail.drop_last();
        assert forall|k: int| 0 <= k < t.len() implies t[k] != sep by {
            assert(tail.contains(tail[k]));
        }
        split_extend(s, t, sep);
        assert(tail.contains(tail.last()));
        split_step(s + t, tail.last(), sep);
        assert((s + t).push(tail.last()) =~= s + tail);
        let last = split_at_char(s, sep).last();
        assert((last + t).push(tail.last()) =~= last + tail);
        let head = split_at_char(s, sep).drop_last();
        assert(head.push(last + t).drop_last() =~= head);
    }
}

/// The pieces before a separator do not depend on what follows it.
pub proof fn split_prefix(s: Seq<char>, tail: Seq<char>, sep: char)
    ensures
        split_at_char(s, sep).len() >= 1,
        split_at_char(s, sep).len() < split_at_char(s.push(sep) + tail, sep).len(),
        forall|i: int|
            0 <= i < split_at_char(s, sep).len() ==> #[trigger] split_at_char(
                s.push(sep) + tail,
                sep,
            )[i] == split_at_char(s, sep)[i],
    decreases tail.len(),
{
    split_step(s, sep, sep);
    if tail.len() == 0 {
        assert(s.push(sep) + tail =~= s.push(sep));
    } else {
        let t = tail.drop_last();
        split_prefix(s, t, sep);
        split_step(s.push(sep) + t, tail.last(), sep);
        assert((s.push(sep) + t).push(tail.last()) =~= s.push(sep) + tail);
    }
}

/// Clean lines are read back as they were written.
pub proof fn lines_of_unlines(lines: Seq<Seq<char>>)
    requires
        forall|i: int| 0 <= i < lines.len() ==> clean_line(#[trigger] lines[i]),
    ensures
        split_at_char(unlines(lines), '\n') == lines.push(Seq::empty()),
        lines_of(unlines(lines)) == lines,
    decreases lines.len(),
{
    reveal_strlit("\n");
    let text = unlines(lines);
    if lines.len() == 0 {
        assert(split_at_char(text, '\n') =~= lines.push(Seq::empty()));
    } else {
        let init = lines.drop_last();
        let last = lines.last();
        assert forall|i: int| 0 <= i < init.len() implies clean_line(#[trigger] init[i]) by {
            assert(init[i] == lines[i]);
        }
        lines_of_unlines(init);
        let head = unlines(init);
        assert(clean_line(lines[lines.len() - 1]));
        split_extend(head, last, '\n');
        assert(init.push(Seq::empty()).drop_last() =~= init);
        assert(Seq::<char>::empty() + last =~= last);
        split_step(head + last, '\n', '\n');
        assert((head + last).push('\n') =~= text);
        assert(init.push(last) =~= lines);
    }
    let parts = split_at_char(text, '\n');
    assert(parts.last().len() == 0);
    assert forall|i: int| 0 <= i < lines.len() implies without_cr(parts[i]) == lines[i] by {
        assert(clean_line(lines[i]));
    }
    assert(lines_of(text) =~= lines);
}

/// The lines, each ended by `\n`.
pub fn end_lines(lines: &Vec<String>) -> (s: String)
    ensures
        s@ == unlines(views(lines@)),
{
    let ghost all = views(lines@);
    let mut s = String::new();
    let mut i: usize = 0;
    assert(all.take(0) =~= Seq::empty());
    assert(s@ =~= Seq::empty());
    while i < lines.len()
        invariant
            i <= lines@.len(),
            all == views(lines@),
            s@ == unlines(all.take(i as int)),
        decreases lines@.len() - i,
    {
        assert(all.take(i + 1).drop_last() =~= all.take(i as int));
        assert(all.take(i + 1).last() == lines@[i as int]@);
        s.append(lines[i].as_str());
        s.append("\n");
        i = i + 1;
    }
    assert(all.take(i as int) =~= all);
    s
}

/// The maximal runs of non-whitespace, in order.
pub open spec fn words_of(s: Seq<char>) -> Seq<Seq<char>>
    decreases s.len(),
{
    if s.len() == 0 {
        Seq::empty()
    } else if whitespace(s.last()) {
        words_of(s.drop_last())
    } else {
        let before = s.drop_last();
        if before.len() > 0 && !whitespace(before.last()) {
            let w = words_of(before);
            w.drop_last().push(w.last().push(s.last()))
        } else {
            words_of(before).push(seq![s.last()])
        }
    }
}

pub proof fn words_nonempty(s: Seq<char>)
    ensures
        s.len() > 0 && !whitespace(s.last()) ==> words_of(s).len() > 0,
        forall|i: int| 0 <= i < words_of(s).len() ==> (#[trigger] words_of(s)[i]).len() > 0,
    decreases s.len(),
{
    if s.len() > 0 {
        words_nonempty(s.drop_last());
    }
}

/// A text without whitespace.
pub open spec fn is_word(w: Seq<char>) -> bool {
    w.len() > 0 && forall|i: int| 0 <= i < w.len() ==> !whitespace(#[trigger] w[i])
}

/// A word after a space is one more word.
pub proof fn words_append(s: Seq<char>, w: Seq<char>)
    requires
        is_word(w),
    ensures
        words_of(s + seq![' '] + w) == words_of(s).push(w),
    decreases w.len(),
{
    let spaced = s + seq![' '];
    let all = spaced + w;
    assert(spaced.drop_last() =~= s);
    assert(spaced.last() == ' ');
    let init = w.drop_last();
    assert(all.drop_last() =~= spaced + init);
    assert(all.last() == w.last());
    assert(!whitespace(w[w.len() - 1]));
    if w.len() == 1 {
        assert(spaced + init =~= spaced);
        assert(words_of(spaced) == words_of(s));
        assert(seq![w.last()] =~= w);
    } else {
        assert forall|i: int| 0 <= i < init.len() implies !whitespace(#[trigger] init[i]) by {
            assert(init[i] == w[i]);
        }
        words_append(s, init);
        assert((spaced + init).last() == init.last());
        assert(!whitespace(init[init.len() - 1]));
        assert(init.push(w.last()) =~= w);
        assert(words_of(s).push(init).drop_last() =~= words_of(s));
    }
}

/// A word is all its words.
pub proof fn words_of_word(w: Seq<char>)
    requires
        is_word(w),
    ensures
        words_of(w) == seq![w],
    decreases w.len(),
{
    let init = w.drop_last();
    assert(!whitespace(w[w.len() - 1]));
    if w.len() == 1 {
        assert(init =~= Seq::empty());
        assert(words_of(init) =~= Seq::empty());
        assert(seq![w.last()] =~= w);
        assert(words_of(w) =~= seq![w]);
    } else {
        assert forall|i: int| 0 <= i < init.len() implies !whitespace(#[trigger] init[i]) by {
            assert(init[i] == w[i]);
        }
        words_of_word(init);
        assert(!whitespace(init[init.len() - 1]));
        assert(init.push(w.last()) =~= w);
        assert(words_of(w) =~= seq![w]);
    }
}

pub fn words(s: &str) -> (r: Vec<String>)
    ensures
        views(r@) == words_of(s@),
{
    let v = chars_of(s);
    let mut out: Vec<String> = Vec::new();
    let mut current = String::new();
    let mut i: usize = 0;
    assert(views(out@) =~= words_of(v@.take(0)));
    while i < v.len()
        invariant
            v@ == s@,
            i <= v@.len(),
            current@.len() > 0 <==> i > 0 && !whitespace(v@[i - 1]),
            words_of(v@.take(i as int)) == (if current@.len() > 0 {
                views(out@).push(current@)
            } else {
                views(out@)
            }),
        decreases v@.len() - i,
    {
        let c = v[i];
        proof {
            let next = v@.take(i + 1);
            assert(next.drop_last() =~= v@.take(i as int));
            assert(next.last() == c);
            if i > 0 {
                assert(v@.take(i as int).last() == v@[i - 1]);
            }
        }
        if is_whitespace(c) {
            if !current.as_str().is_empty() {
                proof {
                    views_push(out@, current);
                }
                out.push(current);
                current = String::new();
            }
        } else {
            proof {
                if current@.len() > 0 {
                    assert(views(out@).push(current@).drop_last() =~= views(out@));
                } else {
                    assert(current@.push(c) =~= seq![c]);
                }
            }
            current.push(c);
        }
        i = i + 1;
    }
    assert(v@.take(i as int) =~= s@);
    if !current.as_str().is_empty() {
        proof {
            views_push(out@, current);
        }
        out.push(current);
    }
    out
}

// ---- prefixes, searching --------------------------------------------------------------

pub open spec fn begins_with(s: Seq<char>, prefix: Seq<char>) -> bool {
    prefix.len() <= s.len() && s.take(prefix.len() as int) == prefix
}

pub fn starts_with(s: &str, prefix: &str) -> (b: bool)
    ensures
        b == begins_with(s@, prefix@),
{
    let v = chars_of(s);
    let p = chars_of(prefix);
    matches_at(&v, 0, &p)
}

/// Whether `pat` stands in `s` at index `i`.
pub open spec fn stands_at(s: Seq<char>, i: int, pat: Seq<char>) -> bool {
    0 <= i && i + pat.len() <= s.len() && s.subrange(i, i + pat.len()) == pat
}

/// Whether `pat` stands in `v` at index `at`.
pub fn matches_at(v: &Vec<char>, at: usize, pat: &Vec<char>) -> (b: bool)
    ensures
        b == stands_at(v@, at as int, pat@),
        at == 0 ==> b == begins_with(v@, pat@),
{
    let n: usize = v.len();
    if at > n || pat.len() > n - at {
        return false;
    }
    let mut j: usize = 0;
    while j < pat.len()
        invariant
            n == v@.len(),
            at <= v@.len(),
            pat@.len() <= v@.len() - at,
            j <= pat@.len(),
            forall|k: int| 0 <= k < j ==> v@[at + k] == pat@[k],
        decreases pat@.len() - j,
    {
        if v[at + j] != pat[j] {
            assert(v@.subrange(at as int, at + pat@.len())[j as int] == v@[at + j]);
            assert(at == 0 ==> v@.take(pat@.len() as int)[j as int] == v@[at + j]);
            return false;
        }
        j = j + 1;
    }
    assert(v@.subrange(at as int, at + pat@.len()) =~= pat@);
    assert(at == 0 ==> v@.take(pat@.len() as int) =~= pat@);
    true
}

/// The first index at or after `from` where `pat` stands.
pub open spec fn first_at(s: Seq<char>, from: int, pat: Seq<char>) -> Option<int>
    decreases s.len() + 1 - from,
{
    if from < 0 || from > s.len() {
        None
    } else if stands_at(s, from, pat) {
        Some(from)
    } else {
        first_at(s, from + 1, pat)
    }
}

/// Whether `piece` stands somewhere in `text`.
pub open spec fn text_holds(text: Seq<char>, piece: Seq<char>) -> bool {
    exists|i: int| #[trigger] stands_at(text, i, piece)
}

/// A text holds each piece it is put together from.
pub proof fn text_holds_inside(before: Seq<char>, piece: Seq<char>, after: Seq<char>)
    ensures
        text_holds(before + piece + after, piece),
{
    let text = before + piece + after;
    let at = before.len() as int;
    assert(text.subrange(at, at + piece.len()) =~= piece);
    assert(stands_at(text, at, piece));
}

/// Text in front takes nothing from what a text holds.
pub proof fn text_holds_behind(before: Seq<char>, text: Seq<char>, piece: Seq<char>)
    requires
        text_holds(text, piece),
    ensures
        text_holds(before + text, piece),
{
    let i = choose|i: int| #[trigger] stands_at(text, i, piece);
    let at = before.len() + i;
    assert((before + text).subrange(at, at + piece.len()) =~= text.subrange(i, i + piece.len()));
    assert(stands_at(before + text, at, piece));
}

/// Text behind takes nothing from what a text holds.
pub proof fn text_holds_before(text: Seq<char>, after: Seq<char>, piece: Seq<char>)
    requires
        text_holds(text, piece),
    ensures
        text_holds(text + after, piece),
{
    let i = choose|i: int| #[trigger] stands_at(text, i, piece);
    assert((text + after).subrange(i, i + piece.len()) =~= text.subrange(i, i + piece.len()));
    assert(stands_at(text + after, i, piece));
}

/// A text put together from pieces holds what any of them holds, and every text holds itself.
pub proof fn texts_hold_their_pieces()
    ensures
        forall|a: Seq<char>, b: Seq<char>, x: Seq<char>|
            text_holds(a, x) || text_holds(b, x) ==> #[trigger] text_holds(a + b, x),
        forall|x: Seq<char>| #[trigger] text_holds(x, x),
{
    assert forall|a: Seq<char>, b: Seq<char>, x: Seq<char>|
        text_holds(a, x) || text_holds(b, x) implies #[trigger] text_holds(a + b, x) by {
        if text_holds(a, x) {
            text_holds_before(a, b, x);
        } else {
            text_holds_behind(a, b, x);
        }
    }
    assert forall|x: Seq<char>| #[trigger] text_holds(x, x) by {
        let none = Seq::<char>::empty();
        text_holds_inside(none, x, none);
        assert(none + x + none =~= x);
    }
}

pub proof fn first_at_bounds(s: Seq<char>, from: int, pat: Seq<char>)
    ensures
        first_at(s, from, pat) matches Some(i) ==> from <= i && stands_at(s, i, pat),
        first_at(s, from, pat) matches Some(i) ==> forall|k: int|
            from <= k < i ==> !stands_at(s, k, pat),
        first_at(s, from, pat) is None && from >= 0 ==> forall|k: int|
            from <= k ==> !stands_at(s, k, pat),
    decreases s.len() + 1 - from,
{
    if 0 <= from <= s.len() && !stands_at(s, from, pat) {
        first_at_bounds(s, from + 1, pat);
    }
}

pub fn find_at(v: &Vec<char>, from: usize, pat: &Vec<char>) -> (r: Option<usize>)
    requires
        from <= v@.len(),
    ensures
        match r {
            Some(i) => first_at(v@, from as int, pat@) == Some(i as int) && i + pat@.len()
                <= v@.len(),
            None => first_at(v@, from as int, pat@) is None,
        },
{
    let mut i: usize = from;
    loop
        invariant
            from <= i <= v@.len(),
            first_at(v@, from as int, pat@) == first_at(v@, i as int, pat@),
        decreases v@.len() - i,
    {
        if matches_at(v, i, pat) {
            return Some(i);
        }
        if i == v.len() {
            assert(first_at(v@, i + 1, pat@) is None);
            return None;
        }
        i = i + 1;
    }
}

/// `s` cut at the first `pat`, which is dropped.
pub open spec fn split_first(s: Seq<char>, pat: Seq<char>) -> Option<(Seq<char>, Seq<char>)> {
    match first_at(s, 0, pat) {
        Some(i) => Some((s.take(i), s.skip(i + pat.len()))),
        None => None,
    }
}

/// A key without the first character of the separator is split off again.
pub proof fn split_first_keyed(key: Seq<char>, sep: Seq<char>, value: Seq<char>)
    requires
        sep.len() > 0,
        !key.contains(sep[0]),
    ensures
        split_first(key + sep + value, sep) == Some((key, value)),
{
    let s = key + sep + value;
    first_at_bounds(s, 0, sep);
    assert(stands_at(s, key.len() as int, sep)) by {
        assert(s.subrange(key.len() as int, key.len() as int + sep.len()) =~= sep);
    }
    let i = first_at(s, 0, sep)->0;
    assert(first_at(s, 0, sep) is Some);
    if i < key.len() {
        assert(s.subrange(i, i + sep.len())[0] == sep[0]);
        assert(key[i] == sep[0]);
    }
    assert(i == key.len());
    assert(s.take(i) =~= key);
    assert(s.skip(i + sep.len()) =~= value);
}

pub fn split_once(s: &str, pat: &str) -> (r: Option<(String, String)>)
    ensures
        match r {
            Some((head, tail)) => split_first(s@, pat@) == Some((head@, tail@)),
            None => split_first(s@, pat@) is None,
        },
{
    let v = chars_of(s);
    let p = chars_of(pat);
    match find_at(&v, 0, &p) {
        Some(i) => {
            let n: usize = v.len();
            let head = string_of(&v, 0, i);
            let tail = string_of(&v, i + p.len(), n);
            assert(head@ =~= s@.take(i as int));
            assert(tail@ =~= s@.skip(i + pat@.len()));
            Some((head, tail))
        },
        None => None,
    }
}

/// `s` without `prefix`, when it begins with it.
pub fn strip_prefix(s: &str, prefix: &str) -> (r: Option<String>)
    ensures
        match r {
            Some(rest) => begins_with(s@, prefix@) && rest@ == s@.skip(prefix@.len() as int),
            None => !begins_with(s@, prefix@),
        },
{
    let v = chars_of(s);
    let p = chars_of(prefix);
    if matches_at(&v, 0, &p) {
        let rest = string_of(&v, p.len(), v.len());
        assert(rest@ =~= s@.skip(prefix@.len() as int));
        Some(rest)
    } else {
        None
    }
}

pub fn contains_char(s: &str, c: char) -> (b: bool)
    ensures
        b == s@.contains(c),
{
    let v = chars_of(s);
    let mut i: usize = 0;
    while i < v.len()
        invariant
            v@ == s@,
            i <= v@.len(),
            forall|j: int| 0 <= j < i ==> v@[j] != c,
        decreases v@.len() - i,
    {
        if v[i] == c {
            return true;
        }
        i = i + 1;
    }
    false
}

/// ASCII lowercasing, character by character.
pub open spec fn lowercase(s: Seq<char>) -> Seq<char> {
    Seq::new(s.len(), |i: int| lowered(s[i]))
}

pub fn to_lowercase(s: &str) -> (r: String)
    ensures
        r@ == lowercase(s@),
{
    let v = chars_of(s);
    let mut out = String::new();
    let mut i: usize = 0;
    while i < v.len()
        invariant
            v@ == s@,
            i <= v@.len(),
            out@ == lowercase(v@.take(i as int)),
        decreases v@.len() - i,
    {
        out.push(to_lower(v[i]));
        i = i + 1;
        assert(out@ =~= lowercase(v@.take(i as int)));
    }
    assert(v@.take(i as int) =~= s@);
    out
}

// ---- order ----------------------------------------------------------------------------

/// Lexicographic order by code point: the order of the UTF-8 bytes.
pub open spec fn less(a: Seq<char>, b: Seq<char>) -> bool
    decreases a.len(),
{
    if b.len() == 0 {
        false
    } else if a.len() == 0 {
        true
    } else if a[0] != b[0] {
        (a[0] as int) < (b[0] as int)
    } else {
        less(a.drop_first(), b.drop_first())
    }
}

/// `less` is irreflexive.
pub proof fn less_irreflexive(a: Seq<char>)
    ensures
        !less(a, a),
    decreases a.len(),
{
    if a.len() > 0 {
        less_irreflexive(a.drop_first());
    }
}

/// `less` is transitive.
pub proof fn less_transitive(a: Seq<char>, b: Seq<char>, c: Seq<char>)
    requires
        less(a, b),
        less(b, c),
    ensures
        less(a, c),
    decreases a.len(),
{
    if a.len() > 0 {
        if a[0] == b[0] && b[0] == c[0] {
            less_transitive(a.drop_first(), b.drop_first(), c.drop_first());
        }
    }
}

/// Two different texts are ordered one way or the other.
pub proof fn less_total(a: Seq<char>, b: Seq<char>)
    ensures
        a == b || less(a, b) || less(b, a),
        !(less(a, b) && less(b, a)),
    decreases a.len(),
{
    if a.len() > 0 && b.len() > 0 && a[0] == b[0] {
        less_total(a.drop_first(), b.drop_first());
        if a.drop_first() == b.drop_first() {
            assert forall|i: int| 0 <= i < a.len() implies a[i] == b[i] by {
                if i > 0 {
                    assert(a[i] == a.drop_first()[i - 1]);
                    assert(b[i] == b.drop_first()[i - 1]);
                }
            }
            assert(a.len() == a.drop_first().len() + 1);
            assert(b.len() == b.drop_first().len() + 1);
            assert(a =~= b);
        }
    } else if a.len() == 0 && b.len() == 0 {
        assert(a =~= b);
    } else if a.len() > 0 && b.len() > 0 {
        assert(a[0] as int != b[0] as int);
    }
}

/// A proper prefix comes first.
pub proof fn less_prefix(a: Seq<char>, tail: Seq<char>)
    requires
        tail.len() > 0,
    ensures
        less(a, a + tail),
    decreases a.len(),
{
    if a.len() > 0 {
        assert((a + tail).drop_first() =~= a.drop_first() + tail);
        less_prefix(a.drop_first(), tail);
    }
}

/// Whether `a` comes before `b`.
pub fn precedes(a: &str, b: &str) -> (r: bool)
    ensures
        r == less(a@, b@),
{
    let x = chars_of(a);
    let y = chars_of(b);
    let mut i: usize = 0;
    assert(x@.skip(0) =~= a@);
    assert(y@.skip(0) =~= b@);
    loop
        invariant
            i <= x@.len(),
            i <= y@.len(),
            less(a@, b@) == less(x@.skip(i as int), y@.skip(i as int)),
        decreases x@.len() - i,
    {
        if i == y.len() {
            return false;
        }
        if i == x.len() {
            return true;
        }
        let c = x[i];
        let d = y[i];
        if c != d {
            return c < d;
        }
        assert(x@.skip(i as int).drop_first() =~= x@.skip(i + 1));
        assert(y@.skip(i as int).drop_first() =~= y@.skip(i + 1));
        i = i + 1;
    }
}

/// Strictly ascending, so nothing occurs twice.
pub open spec fn ascending(s: Seq<Seq<char>>) -> bool {
    forall|i: int, j: int| 0 <= i < j < s.len() ==> less(#[trigger] s[i], #[trigger] s[j])
}

/// `list` holds the members of `set`, ascending.
pub open spec fn lists(list: Seq<Seq<char>>, set: Set<Seq<char>>) -> bool {
    &&& ascending(list)
    &&& forall|k: Seq<char>| #[trigger] list.contains(k) <==> set.contains(k)
}

/// The members of a set, ascending.
pub open spec fn sorted_members(set: Set<Seq<char>>) -> Seq<Seq<char>> {
    choose|list: Seq<Seq<char>>| lists(list, set)
}

/// Only one ascending sequence holds given members.
pub proof fn ascending_is_unique(a: Seq<Seq<char>>, b: Seq<Seq<char>>)
    requires
        ascending(a),
        ascending(b),
        forall|k: Seq<char>| #[trigger] a.contains(k) <==> b.contains(k),
    ensures
        a == b,
    decreases a.len(),
{
    if a.len() == 0 {
        if b.len() > 0 {
            assert(b.contains(b[0]));
            assert(a.contains(b[0]));
        }
        assert(a =~= b);
    } else {
        let x = a.last();
        assert(a.contains(x));
        assert(b.contains(x));
        let y = b.last();
        assert(b.contains(y));
        assert(a.contains(y));
        let j = b.index_of(x);
        let i = a.index_of(y);
        less_total(x, y);
        if j < b.len() - 1 {
            assert(less(b[j], b[b.len() - 1]));
        }
        if i < a.len() - 1 {
            assert(less(a[i], a[a.len() - 1]));
        }
        assert(x == y);
        let c = a.drop_last();
        let d = b.drop_last();
        assert forall|k: Seq<char>| #[trigger] c.contains(k) <==> d.contains(k) by {
            if c.contains(k) {
                let m = c.index_of(k);
                assert(a[m] == k);
                assert(less(a[m], a[a.len() - 1]));
                less_irreflexive(k);
                assert(a.contains(k));
                assert(b.contains(k));
                let n = b.index_of(k);
                assert(d[n] == k);
            }
            if d.contains(k) {
                let m = d.index_of(k);
                assert(b[m] == k);
                assert(less(b[m], b[b.len() - 1]));
                less_irreflexive(k);
                assert(b.contains(k));
                assert(a.contains(k));
                let n = a.index_of(k);
                assert(c[n] == k);
            }
        }
        ascending_is_unique(c, d);
        assert(a =~= c.push(x));
        assert(b =~= d.push(y));
    }
}

/// A sequence that lists a set is the set's sorted members.
pub proof fn listed(list: Seq<Seq<char>>, set: Set<Seq<char>>)
    requires
        lists(list, set),
    ensures
        sorted_members(set) == list,
{
    let other = sorted_members(set);
    assert(lists(other, set));
    ascending_is_unique(other, list);
}

// ---- bytes ----------------------------------------------------------------------------

/// How many bytes UTF-8 takes for a character.
pub open spec fn width(c: char) -> nat {
    let n = c as int;
    if n < 0x80 {
        1
    } else if n < 0x800 {
        2
    } else if n < 0x10000 {
        3
    } else {
        4
    }
}

/// The length of a text in UTF-8 bytes.
pub open spec fn byte_len(s: Seq<char>) -> nat
    decreases s.len(),
{
    if s.len() == 0 {
        0
    } else {
        byte_len(s.drop_last()) + width(s.last())
    }
}

fn width_of(c: char) -> (w: u128)
    ensures
        w == width(c),
{
    let n: u32 = c as u32;
    if n < 0x80 {
        1
    } else if n < 0x800 {
        2
    } else if n < 0x10000 {
        3
    } else {
        4
    }
}

pub fn bytes_in(s: &str) -> (n: u128)
    ensures
        n == byte_len(s@),
{
    let v = chars_of(s);
    let len: usize = v.len();
    let mut n: u128 = 0;
    let mut i: usize = 0;
    while i < len
        invariant
            len == v@.len(),
            i <= len,
            n == byte_len(v@.take(i as int)),
            n <= 4 * (i as u128),
        decreases len - i,
    {
        assert(v@.take(i + 1).drop_last() =~= v@.take(i as int));
        n = n + width_of(v[i]);
        i = i + 1;
    }
    assert(v@.take(i as int) =~= s@);
    n
}

/// ASCII text takes one byte a character.
pub proof fn ascii_byte_len(s: Seq<char>)
    requires
        forall|i: int| 0 <= i < s.len() ==> (#[trigger] s[i] as int) < 0x80,
    ensures
        byte_len(s) == s.len(),
    decreases s.len(),
{
    if s.len() > 0 {
        assert forall|i: int| 0 <= i < s.drop_last().len() implies (
        #[trigger] s.drop_last()[i] as int) < 0x80 by {
            assert(s.drop_last()[i] == s[i]);
        }
        ascii_byte_len(s.drop_last());
    }
}

/// Texts are ordered by the first character in which they differ, and a beginning comes before
/// what goes on.
pub proof fn the_first_difference_decides(
    shared: Seq<char>,
    c: char,
    x: Seq<char>,
    d: char,
    y: Seq<char>,
)
    ensures
        c != d ==> (less(shared.push(c) + x, shared.push(d) + y) <==> c < d),
        less(shared, shared.push(c) + x),
        !less(shared.push(c) + x, shared),
    decreases shared.len(),
{
    let a = shared.push(c) + x;
    let b = shared.push(d) + y;
    if shared.len() > 0 {
        let rest = shared.drop_first();
        the_first_difference_decides(rest, c, x, d, y);
        assert(a[0] == shared[0] && b[0] == shared[0]);
        assert(a.drop_first() =~= rest.push(c) + x);
        assert(b.drop_first() =~= rest.push(d) + y);
    } else {
        assert(a[0] == c && b[0] == d);
    }
}

} // verus!
