//! Dependency lists in Debian's spelling, reduced to bare package names.

use vstd::prelude::*;

use crate::chars::whitespace;
use crate::strings::{
    bare, blank, joined, split, split_at_char, split_concat, split_joins_back, split_prefix,
    split_whole, trim, trimmed, trimming_takes_the_blanks, views, views_push,
};

verus! {

/// The text before the first `sep`, or all of it.
pub open spec fn before_char(s: Seq<char>, sep: char) -> Seq<char> {
    split_at_char(s, sep)[0]
}

fn text_before(s: &str, sep: char) -> (r: String)
    ensures
        r@ == before_char(s@, sep),
{
    let parts = split(s, sep);
    proof {
        split_joins_back(s@, sep);
    }
    assert(views(parts@)[0] == parts@[0]@);
    parts[0].clone()
}

/// The package one entry names: without its version relation, and the first of alternatives.
pub open spec fn dependency_name(entry: Seq<char>) -> Seq<char> {
    trimmed(before_char(before_char(entry, '('), '|'))
}

/// The packages the first `n` entries name.
pub open spec fn names_in(entries: Seq<Seq<char>>, n: int) -> Seq<Seq<char>>
    decreases n,
{
    if n <= 0 {
        Seq::empty()
    } else if dependency_name(entries[n - 1]).len() == 0 {
        names_in(entries, n - 1)
    } else {
        names_in(entries, n - 1).push(dependency_name(entries[n - 1]))
    }
}

/// The packages a dependency list names.
pub open spec fn named_dependencies(expression: Option<Seq<char>>) -> Seq<Seq<char>> {
    match expression {
        None => Seq::empty(),
        Some(text) => names_in(split_at_char(text, ','), split_at_char(text, ',').len() as int),
    }
}

/// Splits a Debian-spelling dependency list into bare package names.
///
/// Lossy both ways, and not symmetrically: taking the first of `a | b` narrows the requirement
/// and fails safe; dropping `nodejs (>= 18)` to `nodejs` widens it and fails open. Translating
/// version relations is the first thing to revisit once versioned dependencies are used.
pub fn dependency_names(expression: Option<&str>) -> (r: Vec<String>)
    ensures
        views(r@) == named_dependencies(crate::error::opt(expression)),
{
    let mut r: Vec<String> = Vec::new();
    assert(views(r@) =~= Seq::empty());
    let text = match expression {
        None => {
            return r;
        },
        Some(text) => text,
    };
    let entries = split(text, ',');
    let ghost all = split_at_char(text@, ',');
    let mut i: usize = 0;
    while i < entries.len()
        invariant
            i <= entries@.len(),
            views(entries@) == all,
            views(r@) == names_in(all, i as int),
        decreases entries@.len() - i,
    {
        assert(all[i as int] == entries@[i as int]@);
        let unversioned = text_before(entries[i].as_str(), '(');
        let first = text_before(unversioned.as_str(), '|');
        let name = trim(first.as_str());
        if !name.as_str().is_empty() {
            proof {
                views_push(r@, name);
            }
            r.push(name);
        }
        i = i + 1;
    }
    r
}

// ---- laws -----------------------------------------------------------------------------

/// Where a character of a text stands first.
proof fn first_place(s: Seq<char>, c: char) -> (k: int)
    requires
        s.contains(c),
    ensures
        0 <= k < s.len(),
        s[k] == c,
        !s.take(k).contains(c),
    decreases s.len(),
{
    if s.drop_last().contains(c) {
        let k = first_place(s.drop_last(), c);
        assert(s.drop_last().take(k) =~= s.take(k));
        k
    } else {
        let at = s.index_of(c);
        if at < s.len() - 1 {
            assert(s.drop_last()[at] == c);
        }
        assert(s.take(s.len() - 1) =~= s.drop_last());
        s.len() - 1
    }
}

/// Text without the separator is kept up to the first separator after it.
proof fn cut_at_the_first(name: Seq<char>, tail: Seq<char>, sep: char)
    requires
        !name.contains(sep),
    ensures
        tail.len() > 0 && tail[0] == sep ==> before_char(name + tail, sep) == name,
        !tail.contains(sep) ==> before_char(name + tail, sep) == name + tail,
{
    split_whole(name, sep);
    if tail.len() > 0 && tail[0] == sep {
        split_prefix(name, tail.drop_first(), sep);
        assert(name.push(sep) + tail.drop_first() =~= name + tail);
    }
    if !tail.contains(sep) {
        assert forall|i: int| 0 <= i < (name + tail).len() implies (name + tail)[i] != sep by {
            if i < name.len() {
                assert(name.contains(name[i]));
            } else {
                assert(tail.contains(tail[i - name.len()]));
            }
        }
        split_whole(name + tail, sep);
    }
}

/// An entry names its package whatever stands around the name: blanks before it, and after it
/// blanks, a version relation or further alternatives. A name alone names itself.
pub proof fn an_entry_names_its_package(
    lead: Seq<char>,
    name: Seq<char>,
    gap: Seq<char>,
    tail: Seq<char>,
)
    requires
        blank(lead),
        bare(name),
        !name.contains('('),
        !name.contains('|'),
        blank(gap),
        tail.len() > 0 ==> tail[0] == '(' || tail[0] == '|',
    ensures
        dependency_name(lead + name + gap + tail) == name,
        dependency_name(name) == name,
{
    let head = lead + name + gap;
    assert forall|i: int| 0 <= i < head.len() implies head[i] != '(' && head[i] != '|' by {
        if i < lead.len() {
            assert(whitespace(lead[i]));
        } else if i < lead.len() + name.len() {
            assert(name.contains(name[i - lead.len()]));
        } else {
            assert(whitespace(gap[i - lead.len() - name.len()]));
        }
    }
    trimming_takes_the_blanks(lead, name, gap);
    split_whole(head, '(');
    split_whole(head, '|');
    if tail.len() == 0 {
        assert(head + tail =~= head);
    } else if tail[0] == '(' {
        cut_at_the_first(head, tail, '(');
    } else if tail.contains('(') {
        let k = first_place(tail, '(');
        let kept = tail.take(k);
        assert forall|i: int| 0 <= i < (head + kept).len() implies (head + kept)[i] != '(' by {
            if i >= head.len() {
                assert(kept.contains(kept[i - head.len()]));
            }
        }
        assert((head + kept) + tail.skip(k) =~= head + tail);
        cut_at_the_first(head + kept, tail.skip(k), '(');
        cut_at_the_first(head, kept, '|');
    } else {
        cut_at_the_first(head, tail, '(');
        cut_at_the_first(head, tail, '|');
    }
    let none = Seq::<char>::empty();
    assert(none + name + none =~= name);
    trimming_takes_the_blanks(none, name, none);
    split_whole(name, '(');
    split_whole(name, '|');
}

/// The names of the first entries do not depend on the entries that follow.
proof fn names_of_the_first(x: Seq<Seq<char>>, y: Seq<Seq<char>>, n: int)
    requires
        0 <= n <= x.len(),
    ensures
        names_in(x + y, n) == names_in(x, n),
    decreases n,
{
    if n > 0 {
        names_of_the_first(x, y, n - 1);
        assert((x + y)[n - 1] == x[n - 1]);
    }
}

proof fn names_of_both(x: Seq<Seq<char>>, y: Seq<Seq<char>>, n: int)
    requires
        0 <= n <= y.len(),
    ensures
        names_in(x + y, x.len() + n) == names_in(x, x.len() as int) + names_in(y, n),
    decreases n,
{
    if n == 0 {
        names_of_the_first(x, y, x.len() as int);
        assert(names_in(x, x.len() as int) + names_in(y, 0) =~= names_in(x, x.len() as int));
    } else {
        names_of_both(x, y, n - 1);
        assert((x + y)[x.len() + n - 1] == y[n - 1]);
        let before = names_in(x, x.len() as int);
        let more = dependency_name(y[n - 1]);
        assert(before + names_in(y, n - 1).push(more) =~= (before + names_in(y, n - 1)).push(more));
    }
}

/// A list is read entry by entry: two lists with a comma between them name what the one names,
/// then what the other names. No list names nothing.
pub proof fn lists_are_read_entry_by_entry(a: Seq<char>, b: Seq<char>)
    ensures
        named_dependencies(Some(a + ","@ + b)) == named_dependencies(Some(a)) + named_dependencies(
            Some(b),
        ),
        named_dependencies(None).len() == 0,
{
    reveal_strlit(",");
    assert(a + ","@ + b =~= a.push(',') + b);
    split_concat(a, b, ',');
    let x = split_at_char(a, ',');
    let y = split_at_char(b, ',');
    names_of_both(x, y, y.len() as int);
}

/// A list of one entry names that entry's package, where it has a name at all.
pub proof fn one_entry_is_one_name(entry: Seq<char>)
    requires
        !entry.contains(','),
    ensures
        named_dependencies(Some(entry)) == (if dependency_name(entry).len() == 0 {
            Seq::<Seq<char>>::empty()
        } else {
            seq![dependency_name(entry)]
        }),
{
    split_whole(entry, ',');
    reveal_with_fuel(names_in, 2);
    assert(names_in(seq![entry], 1) =~= named_dependencies(Some(entry)));
}

/// Plain package names, listed with commas, are read back: all of them, in order, as they are.
pub proof fn a_list_of_plain_names_reads_back(names: Seq<Seq<char>>)
    requires
        names.len() > 0,
        forall|i: int|
            0 <= i < names.len() ==> (#[trigger] names[i]).len() > 0 && bare(names[i])
                && !names[i].contains('(') && !names[i].contains('|') && !names[i].contains(','),
    ensures
        named_dependencies(Some(joined(names, ", "@))) == names,
    decreases names.len(),
{
    let none = Seq::<char>::empty();
    let last = names.last();
    assert(last == names[names.len() - 1]);
    if names.len() == 1 {
        an_entry_names_its_package(none, last, none, none);
        one_entry_is_one_name(last);
        assert(names =~= seq![last]);
    } else {
        let init = names.drop_last();
        assert forall|i: int| 0 <= i < init.len() implies (#[trigger] init[i]).len() > 0 && bare(
            init[i],
        ) && !init[i].contains('(') && !init[i].contains('|') && !init[i].contains(',') by {
            assert(init[i] == names[i]);
        }
        a_list_of_plain_names_reads_back(init);
        reveal_strlit(", ");
        reveal_strlit(",");
        let entry = seq![' '] + last;
        assert(joined(init, ", "@) + ", "@ + last =~= joined(init, ", "@) + ","@ + entry);
        lists_are_read_entry_by_entry(joined(init, ", "@), entry);
        assert(blank(seq![' ']));
        an_entry_names_its_package(seq![' '], last, none, none);
        assert(seq![' '] + last + none + none =~= entry);
        assert forall|i: int| 0 <= i < entry.len() implies entry[i] != ',' by {
            if i > 0 {
                assert(last.contains(last[i - 1]));
            }
        }
        one_entry_is_one_name(entry);
        assert(init + seq![last] =~= names);
    }
}

} // verus!
