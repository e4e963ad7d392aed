//! A map from text to text, kept sorted by key.

use vstd::prelude::*;

use crate::strings::{lists, sorted_members};
use crate::strmap::StrMap;

verus! {

/// Keys, ascending, and the text of each.
#[derive(Debug)]
pub struct TextMap {
    held: StrMap<String>,
}

impl View for TextMap {
    type V = Map<Seq<char>, Seq<char>>;

    closed spec fn view(&self) -> Map<Seq<char>, Seq<char>> {
        Map::new(|k: Seq<char>| self.held@.dom().contains(k), |k: Seq<char>| self.held@[k]@)
    }
}

impl TextMap {
    pub fn new() -> (m: Self)
        ensures
            m@ == Map::<Seq<char>, Seq<char>>::empty(),
    {
        let m = TextMap { held: StrMap::new() };
        assert(m@ =~= Map::empty());
        m
    }

    /// Stores `text` under `key`, replacing what was there.
    pub fn insert(&mut self, key: String, text: String)
        ensures
            final(self)@ == old(self)@.insert(key@, text@),
    {
        self.held.insert(key, text);
        assert(self@ =~= old(self)@.insert(key@, text@));
    }

    pub fn get(&self, key: &str) -> (r: Option<&str>)
        ensures
            match r {
                Some(text) => self@.dom().contains(key@) && text@ == self@[key@],
                None => !self@.dom().contains(key@),
            },
    {
        match self.held.get(key) {
            Some(text) => Some(text.as_str()),
            None => None,
        }
    }

    pub fn contains_key(&self, key: &str) -> (b: bool)
        ensures
            b == self@.dom().contains(key@),
    {
        self.held.contains_key(key)
    }

    pub fn len(&self) -> (n: usize)
        ensures
            n == sorted_members(self@.dom()).len(),
            lists(sorted_members(self@.dom()), self@.dom()),
    {
        let n: usize = self.held.len();
        proof {
            assert(self@.dom() =~= self.held@.dom());
            assert forall|k: Seq<char>| #[trigger]
                self.held.keys().contains(k) <==> self@.dom().contains(k) by {
                assert(self.held@.dom().contains(k) <==> self.held.keys().contains(k));
            }
        }
        n
    }

    pub fn is_empty(&self) -> (b: bool)
        ensures
            b == (sorted_members(self@.dom()).len() == 0),
    {
        self.len() == 0
    }

    /// The key at a position, and its text.
    pub fn at(&self, i: usize) -> (r: (&str, &str))
        requires
            i < sorted_members(self@.dom()).len(),
        ensures
            r.0@ == sorted_members(self@.dom())[i as int],
            self@.dom().contains(r.0@),
            r.1@ == self@[r.0@],
    {
        let n: usize = self.held.len();
        assert(self@.dom() =~= self.held@.dom());
        assert(n == self.held.keys().len());
        let key = self.held.key_at(i);
        assert(self.held@.dom().contains(self.held.keys()[i as int]));
        (key, self.held.value_at(i).as_str())
    }
}

impl Clone for TextMap {
    fn clone(&self) -> (r: Self)
        ensures
            r@ == self@,
    {
        let count: usize = self.len();
        let ghost all = sorted_members(self@.dom());
        let mut r = TextMap::new();
        let mut i: usize = 0;
        while i < count
            invariant
                i <= count,
                all == sorted_members(self@.dom()),
                count == all.len(),
                forall|k: Seq<char>| #[trigger]
                    r@.dom().contains(k) <==> all.take(i as int).contains(k),
                forall|k: Seq<char>| #[trigger] r@.dom().contains(k) ==> r@[k] == self@[k],
            decreases count - i,
        {
            let (key, text) = self.at(i);
            let ghost before = r@;
            r.insert(key.to_owned(), text.to_owned());
            proof {
                let so_far = all.take(i as int);
                let now = all.take(i + 1);
                assert(now =~= so_far.push(key@));
                assert forall|k: Seq<char>| #[trigger] r@.dom().contains(k) <==> now.contains(
                    k,
                ) by {
                    if k == key@ {
                        assert(now[i as int] == k);
                    }
                    if so_far.contains(k) {
                        assert(now[so_far.index_of(k)] == k);
                    }
                    if now.contains(k) && k != key@ {
                        assert(so_far[now.index_of(k)] == k);
                    }
                }
            }
            i = i + 1;
        }
        proof {
            assert(all.take(i as int) =~= all);
            assert forall|k: Seq<char>| r@.dom().contains(k) == self@.dom().contains(k) by {
                assert(all.contains(k) <==> self@.dom().contains(k));
            }
            assert(r@ =~= self@);
        }
        r
    }
}

} // verus!
