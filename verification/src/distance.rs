//! Levenshtein distance, for suggesting the name an author probably meant.

use vstd::prelude::*;

use crate::strings::{chars_of, views};

verus! {

pub open spec fn least(a: nat, b: nat) -> nat {
    if a <= b {
        a
    } else {
        b
    }
}

/// The fewest insertions, deletions and substitutions that turn `a` into `b`.
pub open spec fn edits(a: Seq<char>, b: Seq<char>) -> nat
    decreases a.len() + b.len(),
{
    if a.len() == 0 {
        b.len()
    } else if b.len() == 0 {
        a.len()
    } else {
        let substituted = edits(a.drop_last(), b.drop_last()) + (if a.last() == b.last() {
            0nat
        } else {
            1nat
        });
        let deleted = edits(a.drop_last(), b) + 1;
        let inserted = edits(a, b.drop_last()) + 1;
        least(least(substituted, deleted), inserted)
    }
}

/// The distance is the same in both directions.
pub proof fn edits_symmetric(a: Seq<char>, b: Seq<char>)
    ensures
        edits(a, b) == edits(b, a),
    decreases a.len() + b.len(),
{
    if a.len() > 0 && b.len() > 0 {
        edits_symmetric(a.drop_last(), b.drop_last());
        edits_symmetric(a.drop_last(), b);
        edits_symmetric(a, b.drop_last());
    }
}

/// Only equal texts are at distance zero.
pub proof fn edits_zero(a: Seq<char>, b: Seq<char>)
    ensures
        edits(a, b) == 0 <==> a == b,
    decreases a.len() + b.len(),
{
    if a.len() == 0 || b.len() == 0 {
        if a.len() == b.len() {
            assert(a =~= b);
        }
    } else {
        edits_zero(a.drop_last(), b.drop_last());
        if a == b {
            assert(edits(a.drop_last(), b.drop_last()) == 0);
        } else if edits(a, b) == 0 {
            assert(a.drop_last() == b.drop_last() && a.last() == b.last());
            assert(a =~= a.drop_last().push(a.last()));
            assert(b =~= b.drop_last().push(b.last()));
        }
    }
}

proof fn edits_bounded(a: Seq<char>, b: Seq<char>)
    ensures
        edits(a, b) <= a.len() + b.len(),
    decreases a.len() + b.len(),
{
    if a.len() > 0 && b.len() > 0 {
        edits_bounded(a.drop_last(), b);
    }
}

/// One row of the table: the distances from `a` to every prefix of `b`.
spec fn row(a: Seq<char>, b: Seq<char>, cells: Seq<u128>) -> bool {
    forall|j: int| 0 <= j < cells.len() ==> #[trigger] cells[j] == edits(a, b.take(j))
}

/// The Levenshtein distance between two texts.
pub fn edit_distance(a: &str, b: &str) -> (d: u128)
    ensures
        d == edits(a@, b@),
{
    let x = chars_of(a);
    let y = chars_of(b);
    let width: usize = y.len();
    let height: usize = x.len();
    let mut previous: Vec<u128> = Vec::new();
    let mut j: usize = 0;
    previous.push(0);
    assert(x@.take(0) =~= Seq::empty());
    assert(row(x@.take(0), y@, previous@));
    while j < width
        invariant
            width == y@.len(),
            j <= width,
            previous@.len() == j + 1,
            row(x@.take(0), y@, previous@),
        decreases width - j,
    {
        j = j + 1;
        previous.push(j as u128);
    }
    let mut i: usize = 0;
    while i < height
        invariant
            width == y@.len(),
            height == x@.len(),
            i <= height,
            previous@.len() == width + 1,
            row(x@.take(i as int), y@, previous@),
        decreases height - i,
    {
        let c = x[i];
        let mut current: Vec<u128> = Vec::new();
        current.push(i as u128 + 1);
        let ghost upper = x@.take(i as int);
        let ghost lower = x@.take(i + 1);
        proof {
            assert(lower.drop_last() =~= upper);
            assert(lower.last() == c);
            assert(y@.take(0).len() == 0);
        }
        let mut k: usize = 0;
        while k < width
            invariant
                width == y@.len(),
                i < height,
                height == x@.len(),
                k <= width,
                previous@.len() == width + 1,
                current@.len() == k + 1,
                upper == x@.take(i as int),
                lower.drop_last() == upper,
                lower.len() == i + 1,
                upper.len() == i,
                lower.last() == c,
                row(upper, y@, previous@),
                row(lower, y@, current@),
            decreases width - k,
        {
            proof {
                assert(y@.take(k + 1).drop_last() =~= y@.take(k as int));
                assert(y@.take(k + 1).last() == y@[k as int]);
                edits_bounded(upper, y@.take(k as int));
                edits_bounded(upper, y@.take(k + 1));
                edits_bounded(lower, y@.take(k as int));
                assert(previous@[k as int] == edits(upper, y@.take(k as int)));
                assert(previous@[k + 1] == edits(upper, y@.take(k + 1)));
                assert(current@[k as int] == edits(lower, y@.take(k as int)));
            }
            let mut best: u128 = previous[k];
            if c != y[k] {
                best = best + 1;
            }
            let deleted: u128 = previous[k + 1] + 1;
            if deleted < best {
                best = deleted;
            }
            let inserted: u128 = current[k] + 1;
            if inserted < best {
                best = inserted;
            }
            assert(best == edits(lower, y@.take(k + 1)));
            current.push(best);
            k = k + 1;
        }
        previous = current;
        i = i + 1;
    }
    assert(x@.take(height as int) =~= a@);
    assert(y@.take(width as int) =~= b@);
    assert(previous@[width as int] == edits(x@.take(height as int), y@.take(width as int)));
    previous[width]
}

/// The first of the closest among `names[..n]`, when one is within `limit`.
pub open spec fn nearest(names: Seq<Seq<char>>, word: Seq<char>, limit: nat, n: int) -> Option<int>
    decreases n,
{
    if n <= 0 {
        None
    } else {
        let d = edits(word, names[n - 1]);
        match nearest(names, word, limit, n - 1) {
            Some(k) => if d <= limit && d < edits(word, names[k]) {
                Some(n - 1)
            } else {
                Some(k)
            },
            None => if d <= limit {
                Some(n - 1)
            } else {
                None
            },
        }
    }
}

/// A suggestion is within the limit, none is closer, and there is one whenever any name is
/// within the limit.
pub proof fn nearest_is_nearest(names: Seq<Seq<char>>, word: Seq<char>, limit: nat, n: int)
    requires
        0 <= n <= names.len(),
    ensures
        match nearest(names, word, limit, n) {
            Some(k) => {
                &&& 0 <= k < n
                &&& edits(word, names[k]) <= limit
                &&& forall|j: int|
                    0 <= j < n ==> edits(word, names[k]) <= edits(word, #[trigger] names[j])
            },
            None => forall|j: int| 0 <= j < n ==> edits(word, #[trigger] names[j]) > limit,
        },
    decreases n,
{
    if n > 0 {
        nearest_is_nearest(names, word, limit, n - 1);
    }
}

/// The position of the closest name within `limit`, the first of several.
pub fn nearest_name(names: &Vec<&str>, word: &str, limit: u128) -> (r: Option<usize>)
    ensures
        match r {
            Some(k) => k < names@.len() && nearest(
                views(names@),
                word@,
                limit as nat,
                names@.len() as int,
            ) == Some(k as int),
            None => nearest(views(names@), word@, limit as nat, names@.len() as int) is None,
        },
{
    let mut best: Option<usize> = None;
    let mut best_distance: u128 = 0;
    let mut i: usize = 0;
    let ghost all = views(names@);
    while i < names.len()
        invariant
            i <= names@.len(),
            all == views(names@),
            match best {
                Some(k) => k < i && nearest(all, word@, limit as nat, i as int) == Some(k as int)
                    && best_distance == edits(word@, all[k as int]),
                None => nearest(all, word@, limit as nat, i as int) is None,
            },
        decreases names@.len() - i,
    {
        let d = edit_distance(word, names[i]);
        assert(all[i as int] == names@[i as int]@);
        let closer = match best {
            Some(_) => d < best_distance,
            None => true,
        };
        if d <= limit && closer {
            best = Some(i);
            best_distance = d;
        }
        i = i + 1;
    }
    best
}

/// What one slip costs: a character more or less, or another in its place, is one edit more at
/// the most; a character both have is none.
pub proof fn one_slip_is_one_edit(a: Seq<char>, b: Seq<char>, c: char, d: char)
    ensures
        edits(a.push(c), b) <= edits(a, b) + 1,
        edits(a, b.push(c)) <= edits(a, b) + 1,
        edits(a.push(c), b.push(d)) <= edits(a, b) + 1,
        edits(a.push(c), b.push(c)) <= edits(a, b),
        edits(a, a.push(c)) == 1,
{
    assert(a.push(c).drop_last() =~= a);
    assert(b.push(c).drop_last() =~= b);
    assert(b.push(d).drop_last() =~= b);
    edits_zero(a, a);
    edits_zero(a, a.push(c));
    assert(a.push(c).len() != a.len());
}

/// Texts are at least as many edits apart as their lengths differ.
pub proof fn lengths_are_made_up_edit_by_edit(a: Seq<char>, b: Seq<char>)
    ensures
        edits(a, b) >= a.len() - b.len(),
        edits(a, b) >= b.len() - a.len(),
        edits(a, b) <= a.len() + b.len(),
    decreases a.len() + b.len(),
{
    if a.len() > 0 && b.len() > 0 {
        lengths_are_made_up_edit_by_edit(a.drop_last(), b.drop_last());
        lengths_are_made_up_edit_by_edit(a.drop_last(), b);
        lengths_are_made_up_edit_by_edit(a, b.drop_last());
    }
}

} // verus!
