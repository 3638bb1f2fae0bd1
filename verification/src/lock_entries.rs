//! The grammars of a lock file: a map from grammar name to lock entry,
//! kept as a list of pairs with distinct names.

use vstd::prelude::*;

use crate::grammar_source::{strings_view, GrammarLockEntry, LockEntryView};

verus! {

/// The names of a list of pairs.
pub open spec fn pair_names(e: Seq<(String, GrammarLockEntry)>) -> Seq<Seq<char>> {
    e.map_values(|p: (String, GrammarLockEntry)| p.0@)
}

/// The map a list of pairs describes; a later pair wins over an earlier
/// one with the same name.
pub open spec fn map_of(e: Seq<(String, GrammarLockEntry)>) -> Map<Seq<char>, LockEntryView>
    decreases e.len(),
{
    if e.len() == 0 {
        Map::empty()
    } else {
        map_of(e.drop_last()).insert(e.last().0@, e.last().1@)
    }
}

/// The names map to exactly the listed names.
pub proof fn lemma_map_of_dom(e: Seq<(String, GrammarLockEntry)>)
    ensures
        forall|k: Seq<char>| #[trigger] map_of(e).dom().contains(k) <==> pair_names(e).contains(k),
    decreases e.len(),
{
    if e.len() > 0 {
        let p = e.drop_last();
        lemma_map_of_dom(p);
        assert forall|k: Seq<char>| #[trigger] map_of(e).dom().contains(k) <==> pair_names(
            e,
        ).contains(k) by {
            if pair_names(e).contains(k) {
                let i = choose|i: int| 0 <= i < pair_names(e).len() && pair_names(e)[i] == k;
                assert(pair_names(e)[i] == e[i].0@);
                if i < e.len() - 1 {
                    assert(pair_names(p)[i] == p[i].0@);
                    assert(pair_names(p).contains(k));
                    assert(map_of(p).dom().contains(k));
                }
                assert(map_of(e).dom().contains(k));
            }
            if map_of(e).dom().contains(k) {
                if k == e.last().0@ {
                    assert(pair_names(e)[e.len() - 1] == k);
                } else {
                    assert(map_of(p).dom().contains(k));
                    assert(pair_names(p).contains(k));
                    let i = choose|i: int| 0 <= i < pair_names(p).len() && pair_names(p)[i] == k;
                    assert(pair_names(p)[i] == p[i].0@);
                    assert(pair_names(e)[i] == e[i].0@);
                    assert(pair_names(e)[i] == k);
                }
                assert(pair_names(e).contains(k));
            }
        }
    }
}

/// With distinct names, each name maps to the entry paired with it.
pub proof fn lemma_map_of_value(e: Seq<(String, GrammarLockEntry)>, i: int)
    requires
        pair_names(e).no_duplicates(),
        0 <= i < e.len(),
    ensures
        map_of(e).dom().contains(e[i].0@),
        map_of(e)[e[i].0@] == e[i].1@,
    decreases e.len(),
{
    let p = e.drop_last();
    if i < e.len() - 1 {
        assert(pair_names(p).no_duplicates()) by {
            assert forall|a: int, b: int|
                0 <= a < pair_names(p).len() && 0 <= b < pair_names(p).len() && a != b implies pair_names(
                p,
            )[a] != pair_names(p)[b] by {
                assert(pair_names(p)[a] == pair_names(e)[a]);
                assert(pair_names(p)[b] == pair_names(e)[b]);
            }
        }
        lemma_map_of_value(p, i);
        assert(pair_names(e)[i] != pair_names(e)[e.len() - 1]);
    }
}

proof fn lemma_map_of_update(e: Seq<(String, GrammarLockEntry)>, i: int, q: (String, GrammarLockEntry))
    requires
        pair_names(e).no_duplicates(),
        0 <= i < e.len(),
        e[i].0@ == q.0@,
    ensures
        map_of(e.update(i, q)) == map_of(e).insert(q.0@, q.1@),
        pair_names(e.update(i, q)) == pair_names(e),
    decreases e.len(),
{
    let u = e.update(i, q);
    assert(pair_names(u) =~= pair_names(e));
    let p = e.drop_last();
    if i == e.len() - 1 {
        assert(u.drop_last() =~= p);
        assert(map_of(u) =~= map_of(e).insert(q.0@, q.1@));
    } else {
        assert(pair_names(p).no_duplicates()) by {
            assert forall|a: int, b: int|
                0 <= a < pair_names(p).len() && 0 <= b < pair_names(p).len() && a != b implies pair_names(
                p,
            )[a] != pair_names(p)[b] by {
                assert(pair_names(p)[a] == pair_names(e)[a]);
                assert(pair_names(p)[b] == pair_names(e)[b]);
            }
        }
        lemma_map_of_update(p, i, q);
        assert(u.drop_last() =~= p.update(i, q));
        assert(pair_names(e)[i] != pair_names(e)[e.len() - 1]);
        assert(map_of(u) =~= map_of(e).insert(q.0@, q.1@));
    }
}

proof fn lemma_push_new_name(e: Seq<(String, GrammarLockEntry)>, q: (String, GrammarLockEntry))
    requires
        pair_names(e).no_duplicates(),
        !pair_names(e).contains(q.0@),
    ensures
        pair_names(e.push(q)).no_duplicates(),
        pair_names(e.push(q)) == pair_names(e).push(q.0@),
{
    assert(pair_names(e.push(q)) =~= pair_names(e).push(q.0@));
    let n = pair_names(e.push(q));
    assert forall|a: int, b: int| 0 <= a < n.len() && 0 <= b < n.len() && a != b implies n[a]
        != n[b] by {
        if a < e.len() && b < e.len() {
            assert(n[a] == pair_names(e)[a] && n[b] == pair_names(e)[b]);
        } else if a < e.len() {
            assert(n[a] == pair_names(e)[a]);
        } else if b < e.len() {
            assert(n[b] == pair_names(e)[b]);
        }
    }
}

/// Grammar name to lock entry, each name at most once.
#[derive(Debug)]
pub struct LockEntries {
    entries: Vec<(String, GrammarLockEntry)>,
}

impl LockEntries {
    #[verifier::type_invariant]
    spec fn distinct_names(self) -> bool {
        pair_names(self.entries@).no_duplicates()
    }

    /// The names, in the order they were first inserted.
    pub closed spec fn names(self) -> Seq<Seq<char>> {
        pair_names(self.entries@)
    }

    /// The names are exactly the keys of the map.
    pub proof fn lemma_names(self)
        ensures
            forall|k: Seq<char>| #[trigger] self@.dom().contains(k) <==> self.names().contains(k),
    {
        lemma_map_of_dom(self.entries@);
    }

    /// An empty map.
    pub fn new() -> (r: LockEntries)
        ensures
            r@ == Map::<Seq<char>, LockEntryView>::empty(),
            r.names() == Seq::<Seq<char>>::empty(),
    {
        let r = LockEntries { entries: Vec::new() };
        assert(pair_names(r.entries@) =~= Seq::<Seq<char>>::empty());
        r
    }

    fn position(&self, name: &str) -> (r: Option<usize>)
        ensures
            match r {
                Some(i) => i < self.entries@.len() && self.entries@[i as int].0@ == name@,
                None => !self.names().contains(name@),
            },
    {
        let mut i: usize = 0;
        while i < self.entries.len()
            invariant
                i <= self.entries.len(),
                forall|k: int| 0 <= k < i ==> #[trigger] self.entries@[k].0@ != name@,
            decreases self.entries.len() - i,
        {
            if crate::text::str_eq(self.entries[i].0.as_str(), name) {
                return Some(i);
            }
            i = i + 1;
        }
        proof {
            if self.names().contains(name@) {
                let k = choose|k: int| 0 <= k < self.names().len() && self.names()[k] == name@;
                assert(self.entries@[k].0@ == name@);
            }
        }
        None
    }

    /// The entry for `name`, if there is one.
    pub fn get(&self, name: &str) -> (r: Option<&GrammarLockEntry>)
        ensures
            match r {
                Some(e) => self@.dom().contains(name@) && e@ == self@[name@],
                None => !self@.dom().contains(name@),
            },
    {
        proof {
            use_type_invariant(self);
            lemma_map_of_dom(self.entries@);
        }
        match self.position(name) {
            Some(i) => {
                proof {
                    lemma_map_of_value(self.entries@, i as int);
                }
                Some(&self.entries[i].1)
            },
            None => None,
        }
    }

    /// Records `entry` under `name`, replacing an entry of that name.
    pub fn insert(&mut self, name: String, entry: GrammarLockEntry)
        ensures
            final(self)@ == old(self)@.insert(name@, entry@),
            old(self).names().contains(name@) ==> final(self).names() == old(self).names(),
            !old(self).names().contains(name@) ==> final(self).names() == old(self).names().push(
                name@,
            ),
    {
        proof {
            use_type_invariant(&*self);
        }
        let pos = self.position(name.as_str());
        let mut entries: Vec<(String, GrammarLockEntry)> = Vec::new();
        std::mem::swap(&mut entries, &mut self.entries);
        let ghost old_entries = entries@;
        let ghost q = (name, entry);
        assert(old_entries == old(self).entries@);
        match pos {
            Some(i) => {
                proof {
                    lemma_map_of_update(old_entries, i as int, q);
                    assert(pair_names(old_entries)[i as int] == name@);
                }
                entries.set(i, (name, entry));
                assert(entries@ == old_entries.update(i as int, q));
            },
            None => {
                proof {
                    lemma_push_new_name(old_entries, q);
                }
                entries.push((name, entry));
                assert(entries@ == old_entries.push(q));
                assert(entries@.drop_last() =~= old_entries);
            },
        }
        self.entries = entries;
    }

    /// Adds every entry of `other`, replacing entries of the same name.
    pub fn extend(&mut self, other: LockEntries)
        ensures
            final(self)@ == old(self)@.union_prefer_right(other@),
    {
        let LockEntries { entries: mut rest } = other;
        let ghost all = rest@;
        let ghost start = self@;
        let ghost mut done: int = 0;
        proof {
            assert(all.skip(0) =~= all);
            assert(map_of(all.take(0)) =~= Map::<Seq<char>, LockEntryView>::empty());
            assert(start.union_prefer_right(Map::empty()) =~= start);
        }
        while rest.len() > 0
            invariant
                0 <= done <= all.len(),
                rest@ == all.skip(done),
                self@ == start.union_prefer_right(map_of(all.take(done))),
            decreases rest.len(),
        {
            let (name, entry) = rest.remove(0);
            proof {
                assert(all[done] == (name, entry));
                assert(all.take(done + 1).drop_last() =~= all.take(done));
                assert(all.skip(done).remove(0) =~= all.skip(done + 1));
            }
            self.insert(name, entry);
            proof {
                assert(self@ =~= start.union_prefer_right(map_of(all.take(done + 1))));
                done = done + 1;
            }
        }
        proof {
            assert(all.take(done) =~= all);
        }
    }

    /// The pairs, each name once.
    pub fn into_pairs(self) -> (r: Vec<(String, GrammarLockEntry)>)
        ensures
            map_of(r@) == self@,
            pair_names(r@) == self.names(),
            pair_names(r@).no_duplicates(),
    {
        proof {
            use_type_invariant(&self);
        }
        self.entries
    }

    /// The names, in the order they were first inserted.
    pub fn name_list(&self) -> (r: Vec<String>)
        ensures
            strings_view(r@) == self.names(),
            self.names().no_duplicates(),
    {
        proof {
            use_type_invariant(self);
        }
        let mut r: Vec<String> = Vec::new();
        let mut i: usize = 0;
        while i < self.entries.len()
            invariant
                i <= self.entries.len(),
                strings_view(r@) == pair_names(self.entries@).take(i as int),
            decreases self.entries.len() - i,
        {
            let name = self.entries[i].0.clone();
            assert(name@ == self.entries@[i as int].0@);
            let ghost before = r@;
            r.push(name);
            assert(strings_view(r@) =~= strings_view(before).push(name@));
            assert(pair_names(self.entries@).take(i + 1) =~= pair_names(self.entries@).take(
                i as int,
            ).push(self.entries@[i as int].0@));
            i = i + 1;
        }
        assert(pair_names(self.entries@).take(self.entries.len() as int) =~= pair_names(
            self.entries@,
        ));
        r
    }
}

impl View for LockEntries {
    type V = Map<Seq<char>, LockEntryView>;

    closed spec fn view(&self) -> Map<Seq<char>, LockEntryView> {
        map_of(self.entries@)
    }
}

} // verus!
