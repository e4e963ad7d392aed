//! Texts found by name, and scripts composed from them.

use vstd::prelude::*;

use crate::error::{outcome, Error, ErrorView, Result};
use crate::strings::{join, joined, lists, same, sorted_members, views, views_push};
use crate::template::{owned, render, rendered, sorted_names, Variables};

verus! {

/// The names and texts of a table.
pub open spec fn table_of(entries: Seq<(&'static str, &'static str)>) -> Seq<(Seq<char>, Seq<char>)> {
    entries.map_values(|e: (&'static str, &'static str)| (e.0@, e.1@))
}

/// The names of a table, in its order.
pub open spec fn names_of(table: Seq<(Seq<char>, Seq<char>)>) -> Seq<Seq<char>> {
    table.map_values(|e: (Seq<char>, Seq<char>)| e.0)
}

/// The text of the first entry called `name`.
pub open spec fn text_of(table: Seq<(Seq<char>, Seq<char>)>, name: Seq<char>) -> Option<Seq<char>>
    decreases table.len(),
{
    if table.len() == 0 {
        None
    } else if table[0].0 == name {
        Some(table[0].1)
    } else {
        text_of(table.drop_first(), name)
    }
}

/// The text called `name`, or an error that lists the names there are.
pub open spec fn looked_up(
    what: Seq<char>,
    table: Seq<(Seq<char>, Seq<char>)>,
    name: Seq<char>,
) -> core::result::Result<Seq<char>, ErrorView> {
    match text_of(table, name) {
        Some(text) => Ok(text),
        None => Err(
            ErrorView::Template {
                template: name,
                reason: "unknown "@ + what + "; valid names: "@ + joined(
                    sorted_members(names_of(table).to_set()),
                    ", "@,
                ),
            },
        ),
    }
}

/// The names of a table, sorted.
pub fn names(entries: &Vec<(&'static str, &'static str)>) -> (r: Vec<&'static str>)
    ensures
        views(r@) == sorted_members(names_of(table_of(entries@)).to_set()),
        lists(views(r@), names_of(table_of(entries@)).to_set()),
{
    let mut all: Vec<&'static str> = Vec::new();
    let mut i: usize = 0;
    let ghost expected = names_of(table_of(entries@));
    assert(views(all@) =~= expected.take(0));
    while i < entries.len()
        invariant
            i <= entries@.len(),
            expected == names_of(table_of(entries@)),
            views(all@) == expected.take(i as int),
        decreases entries@.len() - i,
    {
        let name = entries[i].0;
        proof {
            views_push(all@, name);
            assert(expected.take(i + 1) =~= expected.take(i as int).push(name@));
        }
        all.push(name);
        i = i + 1;
    }
    assert(expected.take(i as int) =~= expected);
    sorted_names(&all)
}

/// The text called `name`. `what` says in the error what the table holds.
pub fn look_up(
    what: &str,
    entries: &Vec<(&'static str, &'static str)>,
    name: &str,
) -> (r: Result<&'static str>)
    ensures
        outcome(r) == looked_up(what@, table_of(entries@), name@),
{
    let ghost table = table_of(entries@);
    let mut i: usize = 0;
    assert(table.skip(0) =~= table);
    while i < entries.len()
        invariant
            i <= entries@.len(),
            table == table_of(entries@),
            text_of(table, name@) == text_of(table.skip(i as int), name@),
        decreases entries@.len() - i,
    {
        assert(table.skip(i as int).drop_first() =~= table.skip(i + 1));
        assert(table.skip(i as int)[0] == (entries@[i as int].0@, entries@[i as int].1@));
        if same(entries[i].0, name) {
            return Ok(entries[i].1);
        }
        i = i + 1;
    }
    let known = owned(&names(entries));
    let mut reason = "unknown ".to_owned();
    reason.append(what);
    reason.append("; valid names: ");
    reason.append(join(&known, ", ").as_str());
    Err(Error::Template { template: name.to_owned(), reason })
}

/// The chosen snippets, each rendered and led by `lead`, one after another; the first snippet
/// that is unknown or does not render gives the error.
pub open spec fn rendered_all(
    chosen: Seq<Seq<char>>,
    table: Seq<(Seq<char>, Seq<char>)>,
    values: Map<Seq<char>, Seq<char>>,
    lead: Seq<char>,
) -> core::result::Result<Seq<char>, ErrorView>
    decreases chosen.len(),
{
    if chosen.len() == 0 {
        Ok(Seq::empty())
    } else {
        match rendered_all(chosen.drop_last(), table, values, lead) {
            Err(e) => Err(e),
            Ok(before) => match looked_up("snippet"@, table, chosen.last()) {
                Err(e) => Err(e),
                Ok(source) => match rendered(chosen.last(), source, values) {
                    Err(e) => Err(e),
                    Ok(text) => Ok(before + lead + text),
                },
            },
        }
    }
}

/// A failure among the first snippets is a failure of them all.
proof fn early_failure(
    chosen: Seq<Seq<char>>,
    n: int,
    table: Seq<(Seq<char>, Seq<char>)>,
    values: Map<Seq<char>, Seq<char>>,
    lead: Seq<char>,
)
    requires
        0 <= n <= chosen.len(),
        rendered_all(chosen.take(n), table, values, lead) is Err,
    ensures
        rendered_all(chosen, table, values, lead) == rendered_all(
            chosen.take(n),
            table,
            values,
            lead,
        ),
    decreases chosen.len() - n,
{
    if n < chosen.len() {
        assert(chosen.take(n + 1).drop_last() =~= chosen.take(n));
        early_failure(chosen, n + 1, table, values, lead);
    } else {
        assert(chosen.take(n) =~= chosen);
    }
}

/// Renders the chosen snippets one after another, each led by `lead`.
pub fn render_all(
    chosen: &Vec<&'static str>,
    entries: &Vec<(&'static str, &'static str)>,
    variables: &Variables,
    lead: &str,
) -> (r: Result<String>)
    ensures
        outcome(r) == rendered_all(views(chosen@), table_of(entries@), variables@, lead@),
{
    let ghost all = views(chosen@);
    let ghost table = table_of(entries@);
    let mut out = String::new();
    let mut i: usize = 0;
    assert(all.take(0) =~= Seq::empty());
    assert(out@ =~= Seq::empty());
    while i < chosen.len()
        invariant
            i <= chosen@.len(),
            all == views(chosen@),
            table == table_of(entries@),
            rendered_all(all.take(i as int), table, variables@, lead@) == Ok::<
                Seq<char>,
                ErrorView,
            >(out@),
        decreases chosen@.len() - i,
    {
        let name = chosen[i];
        assert(all.take(i + 1).drop_last() =~= all.take(i as int));
        assert(all.take(i + 1).last() == name@);
        match look_up("snippet", entries, name) {
            Err(e) => {
                proof {
                    early_failure(all, i + 1, table, variables@, lead@);
                }
                return Err(e);
            },
            Ok(source) => match render(name, source, variables) {
                Err(e) => {
                    proof {
                        early_failure(all, i + 1, table, variables@, lead@);
                    }
                    return Err(e);
                },
                Ok(text) => {
                    out.append(lead);
                    out.append(text.as_str());
                },
            },
        }
        i = i + 1;
    }
    assert(all.take(i as int) =~= all);
    Ok(out)
}

/// `items` where `condition` holds, and nothing where it does not.
pub open spec fn only_if(condition: bool, items: Seq<Seq<char>>) -> Seq<Seq<char>> {
    if condition {
        items
    } else {
        Seq::empty()
    }
}

/// What a selection put together from pieces holds.
pub proof fn selections_hold<T>()
    ensures
        forall|a: Seq<T>, b: Seq<T>, x: T| #[trigger]
            (a + b).contains(x) <==> a.contains(x) || b.contains(x),
        forall|s: Seq<T>, y: T, x: T| #[trigger]
            s.push(y).contains(x) <==> s.contains(x) || x == y,
        forall|x: T| !(#[trigger] Seq::<T>::empty().contains(x)),
{
    assert forall|a: Seq<T>, b: Seq<T>, x: T| #[trigger]
        (a + b).contains(x) <==> a.contains(x) || b.contains(x) by {
        if a.contains(x) {
            let i = a.index_of(x);
            assert((a + b)[i] == x);
        }
        if b.contains(x) {
            let i = b.index_of(x);
            assert((a + b)[a.len() + i] == x);
        }
        if (a + b).contains(x) {
            let i = (a + b).index_of(x);
            if i < a.len() {
                assert(a[i] == x);
            } else {
                assert(b[i - a.len()] == x);
            }
        }
    }
    assert forall|s: Seq<T>, y: T, x: T| #[trigger]
        s.push(y).contains(x) <==> s.contains(x) || x == y by {
        if s.contains(x) {
            let i = s.index_of(x);
            assert(s.push(y)[i] == x);
        }
        assert(s.push(y)[s.len() as int] == y);
        if s.push(y).contains(x) && x != y {
            let i = s.push(y).index_of(x);
            assert(s[i] == x);
        }
    }
}

/// The generator a script names in its header.
pub open spec fn generator_of(values: Map<Seq<char>, Seq<char>>) -> Seq<char> {
    if values.dom().contains("generator_version"@) {
        values["generator_version"@]
    } else {
        "unknown"@
    }
}

/// The generator a script names in its header.
pub fn generator(variables: &Variables) -> (r: &str)
    ensures
        r@ == generator_of(variables@),
{
    match variables.resolve("generator_version") {
        Some(text) => text,
        None => "unknown",
    }
}

/// Whether one of `names` is `name`.
pub fn holds(names: &Vec<&'static str>, name: &str) -> (b: bool)
    ensures
        b == views(names@).contains(name@),
{
    let ghost all = views(names@);
    let mut i: usize = 0;
    while i < names.len()
        invariant
            i <= names@.len(),
            all == views(names@),
            forall|j: int| 0 <= j < i ==> #[trigger] all[j] != name@,
        decreases names@.len() - i,
    {
        assert(all[i as int] == names@[i as int]@);
        if same(names[i], name) {
            return true;
        }
        i = i + 1;
    }
    false
}

/// A name is looked up as the first entry of that name; one that no entry has is refused.
pub proof fn names_are_looked_up_whole(
    what: Seq<char>,
    table: Seq<(Seq<char>, Seq<char>)>,
    name: Seq<char>,
    k: int,
)
    requires
        0 <= k <= table.len(),
        forall|j: int| 0 <= j < k ==> (#[trigger] table[j]).0 != name,
        k < table.len() ==> table[k].0 == name,
    ensures
        k < table.len() ==> looked_up(what, table, name) == Ok::<Seq<char>, ErrorView>(table[k].1),
        k == table.len() ==> looked_up(what, table, name) is Err,
    decreases k,
{
    if k > 0 {
        let rest = table.drop_first();
        assert(table[0].0 != name);
        assert forall|j: int| 0 <= j < k - 1 implies (#[trigger] rest[j]).0 != name by {
            assert(rest[j] == table[j + 1]);
        }
        names_are_looked_up_whole(what, rest, name, k - 1);
    }
}

/// A script is its snippets, one after another, each rendered and led in; one more snippet adds
/// its own text at the end.
pub proof fn scripts_are_their_snippets_in_order(
    chosen: Seq<Seq<char>>,
    name: Seq<char>,
    table: Seq<(Seq<char>, Seq<char>)>,
    values: Map<Seq<char>, Seq<char>>,
    lead: Seq<char>,
)
    ensures
        rendered_all(Seq::empty(), table, values, lead) == Ok::<Seq<char>, ErrorView>(Seq::empty()),
        rendered_all(chosen.push(name), table, values, lead) matches Ok(text) ==> (rendered_all(
            chosen,
            table,
            values,
            lead,
        ) matches Ok(before) && (looked_up("snippet"@, table, name) matches Ok(source) && (rendered(
            name,
            source,
            values,
        ) matches Ok(piece) && text == before + lead + piece))),
{
    assert(chosen.push(name).drop_last() =~= chosen);
}

} // verus!
