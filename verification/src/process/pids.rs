//! The table from process names to their pids and states.
use vstd::prelude::*;

use super::{ProcessStatus, StatusView};
use crate::strings::str_eq;

verus! {

/// A pid with the state of its process; `-1` stands for no pid.
#[derive(Debug)]
pub struct CPid {
    pub pid: i32,
    pub status: ProcessStatus,
}

/// The abstract value of a `CPid`.
pub struct CPidView {
    pub pid: i32,
    pub status: StatusView,
}

impl View for CPid {
    type V = CPidView;

    open spec fn view(&self) -> CPidView {
        CPidView { pid: self.pid, status: self.status@ }
    }
}

impl CPid {
    /// A copy of this entry.
    pub fn duplicate(&self) -> (r: CPid)
        ensures
            r@ == self@,
    {
        CPid { pid: self.pid, status: self.status.duplicate() }
    }
}

/// Whether `k` is the key of some entry.
pub open spec fn has_key(s: Seq<(String, CPid)>, k: Seq<char>) -> bool {
    exists|i: int| 0 <= i < s.len() && (#[trigger] s[i]).0@ == k
}

/// The position of an entry whose key is `k`.
pub open spec fn key_index(s: Seq<(String, CPid)>, k: Seq<char>) -> int {
    choose|i: int| 0 <= i < s.len() && (#[trigger] s[i]).0@ == k
}

/// No two entries share a key.
pub open spec fn keys_distinct(s: Seq<(String, CPid)>) -> bool {
    forall|i: int, j: int|
        0 <= i < s.len() && 0 <= j < s.len() && i != j ==> (#[trigger] s[i]).0@ != (#[trigger] s[j]).0@
}

/// The map that a list of entries stands for.
pub open spec fn entries_map(s: Seq<(String, CPid)>) -> Map<Seq<char>, CPidView> {
    Map::new(|k: Seq<char>| has_key(s, k), |k: Seq<char>| s[key_index(s, k)].1@)
}

proof fn lemma_key_index_unique(s: Seq<(String, CPid)>, j: int)
    requires
        keys_distinct(s),
        0 <= j < s.len(),
    ensures
        has_key(s, s[j].0@),
        key_index(s, s[j].0@) == j,
{
    assert(has_key(s, s[j].0@));
    let i = key_index(s, s[j].0@);
    assert(s[i].0@ == s[j].0@);
}

proof fn lemma_empty_map(s: Seq<(String, CPid)>)
    requires
        s.len() == 0,
    ensures
        keys_distinct(s),
        entries_map(s) == Map::<Seq<char>, CPidView>::empty(),
{
    assert(entries_map(s) =~= Map::<Seq<char>, CPidView>::empty());
}

proof fn lemma_update_entry(old: Seq<(String, CPid)>, j: int, e: (String, CPid))
    requires
        keys_distinct(old),
        0 <= j < old.len(),
        e.0@ == old[j].0@,
    ensures
        keys_distinct(old.update(j, e)),
        entries_map(old.update(j, e)) == entries_map(old).insert(e.0@, e.1@),
{
    let s = old.update(j, e);
    assert forall|i: int| 0 <= i < s.len() implies (#[trigger] s[i]).0@ == old[i].0@ by {}
    let m = entries_map(s);
    let m0 = entries_map(old).insert(e.0@, e.1@);
    assert forall|k: Seq<char>| #[trigger] m.dom().contains(k) == m0.dom().contains(k) by {
        if has_key(s, k) {
            let i = key_index(s, k);
            assert(old[i].0@ == k);
        }
        if has_key(old, k) {
            let i = key_index(old, k);
            assert(s[i].0@ == k);
        }
        if k == e.0@ {
            assert(s[j].0@ == k);
        }
    }
    assert forall|k: Seq<char>| m.dom().contains(k) implies #[trigger] m[k] == m0[k] by {
        let i = key_index(s, k);
        lemma_key_index_unique(s, i);
        if k == e.0@ {
            lemma_key_index_unique(s, j);
        } else {
            lemma_key_index_unique(old, i);
        }
    }
    assert(m =~= m0);
}

proof fn lemma_push_entry(old: Seq<(String, CPid)>, e: (String, CPid))
    requires
        keys_distinct(old),
        !has_key(old, e.0@),
    ensures
        keys_distinct(old.push(e)),
        entries_map(old.push(e)) == entries_map(old).insert(e.0@, e.1@),
{
    let s = old.push(e);
    let n = old.len() as int;
    assert forall|i: int| 0 <= i < n implies (#[trigger] s[i]) == old[i] by {}
    assert forall|i: int, i2: int|
        0 <= i < s.len() && 0 <= i2 < s.len() && i != i2 implies (#[trigger] s[i]).0@
        != (#[trigger] s[i2]).0@ by {
        if i == n {
            assert(old[i2].0@ != e.0@);
        } else if i2 == n {
            assert(old[i].0@ != e.0@);
        }
    }
    let m = entries_map(s);
    let m0 = entries_map(old).insert(e.0@, e.1@);
    assert forall|k: Seq<char>| #[trigger] m.dom().contains(k) == m0.dom().contains(k) by {
        if has_key(s, k) {
            let i = key_index(s, k);
            if i < n {
                assert(old[i].0@ == k);
            }
        }
        if has_key(old, k) {
            let i = key_index(old, k);
            assert(s[i].0@ == k);
        }
        if k == e.0@ {
            assert(s[n].0@ == k);
        }
    }
    assert forall|k: Seq<char>| m.dom().contains(k) implies #[trigger] m[k] == m0[k] by {
        let i = key_index(s, k);
        lemma_key_index_unique(s, i);
        if k == e.0@ {
            lemma_key_index_unique(s, n);
        } else {
            lemma_key_index_unique(old, i);
        }
    }
    assert(m =~= m0);
}

proof fn lemma_remove_entry(old: Seq<(String, CPid)>, j: int)
    requires
        keys_distinct(old),
        0 <= j < old.len(),
    ensures
        keys_distinct(old.remove(j)),
        entries_map(old.remove(j)) == entries_map(old).remove(old[j].0@),
{
    let s = old.remove(j);
    let k0 = old[j].0@;
    assert forall|i: int| 0 <= i < s.len() implies (#[trigger] s[i]) == old[if i < j {
        i
    } else {
        i + 1
    }] by {}
    assert forall|i: int, i2: int|
        0 <= i < s.len() && 0 <= i2 < s.len() && i != i2 implies (#[trigger] s[i]).0@
        != (#[trigger] s[i2]).0@ by {
        let a = if i < j { i } else { i + 1 };
        let b = if i2 < j { i2 } else { i2 + 1 };
        assert(s[i] == old[a]);
        assert(s[i2] == old[b]);
    }
    let m = entries_map(s);
    let m0 = entries_map(old).remove(k0);
    assert forall|k: Seq<char>| #[trigger] m.dom().contains(k) == m0.dom().contains(k) by {
        if has_key(s, k) {
            let i = key_index(s, k);
            let a = if i < j { i } else { i + 1 };
            assert(s[i] == old[a]);
            assert(old[a].0@ == k);
        }
        if has_key(old, k) && k != k0 {
            let a = key_index(old, k);
            assert(a != j);
            let i = if a < j { a } else { a - 1 };
            assert(s[i] == old[a]);
        }
    }
    assert forall|k: Seq<char>| m.dom().contains(k) implies #[trigger] m[k] == m0[k] by {
        let i = key_index(s, k);
        lemma_key_index_unique(s, i);
        let a = if i < j { i } else { i + 1 };
        assert(s[i] == old[a]);
        lemma_key_index_unique(old, a);
    }
    assert(m =~= m0);
}

/// Names mapped to pid entries; no name occurs twice.
pub struct PidMapping {
    entries: Vec<(String, CPid)>,
}

impl View for PidMapping {
    type V = Map<Seq<char>, CPidView>;

    closed spec fn view(&self) -> Map<Seq<char>, CPidView> {
        entries_map(self.entries@)
    }
}

impl PidMapping {
    /// The table's own invariant.
    pub closed spec fn wf(&self) -> bool {
        keys_distinct(self.entries@)
    }

    pub fn new() -> (r: PidMapping)
        ensures
            r.wf(),
            r@ == Map::<Seq<char>, CPidView>::empty(),
    {
        let r = PidMapping { entries: Vec::new() };
        proof {
            lemma_empty_map(r.entries@);
        }
        r
    }

    fn position(&self, name: &str) -> (r: Option<usize>)
        requires
            self.wf(),
        ensures
            match r {
                Some(j) => j < self.entries@.len() && self.entries@[j as int].0@ == name@,
                None => !has_key(self.entries@, name@),
            },
    {
        let mut j: usize = 0;
        while j < self.entries.len()
            invariant
                0 <= j <= self.entries@.len(),
                forall|i: int| 0 <= i < j ==> (#[trigger] self.entries@[i]).0@ != name@,
            decreases self.entries@.len() - j,
        {
            if str_eq(self.entries[j].0.as_str(), name) {
                return Some(j);
            }
            j = j + 1;
        }
        None
    }

    /// The entry of `name`, if there is one.
    pub fn get(&self, name: &str) -> (r: Option<CPid>)
        requires
            self.wf(),
        ensures
            match r {
                Some(c) => self@.contains_key(name@) && self@[name@] == c@,
                None => !self@.contains_key(name@),
            },
    {
        match self.position(name) {
            Some(j) => {
                proof {
                    lemma_key_index_unique(self.entries@, j as int);
                }
                Some(self.entries[j].1.duplicate())
            },
            None => None,
        }
    }

    /// Sets the entry of `name`; returns whether it had one before.
    pub fn insert(&mut self, name: &str, value: CPid) -> (had: bool)
        requires
            old(self).wf(),
        ensures
            final(self).wf(),
            final(self)@ == old(self)@.insert(name@, value@),
            had == old(self)@.contains_key(name@),
    {
        let ghost old_s = self.entries@;
        let e = (name.to_owned(), value);
        match self.position(name) {
            Some(j) => {
                proof {
                    lemma_update_entry(old_s, j as int, e);
                    lemma_key_index_unique(old_s, j as int);
                }
                self.entries.set(j, e);
                true
            },
            None => {
                proof {
                    lemma_push_entry(old_s, e);
                }
                self.entries.push(e);
                false
            },
        }
    }

    /// Drops the entry of `name`; returns whether it had one.
    pub fn remove(&mut self, name: &str) -> (had: bool)
        requires
            old(self).wf(),
        ensures
            final(self).wf(),
            final(self)@ == old(self)@.remove(name@),
            had == old(self)@.contains_key(name@),
    {
        let ghost old_s = self.entries@;
        match self.position(name) {
            Some(j) => {
                proof {
                    lemma_remove_entry(old_s, j as int);
                    lemma_key_index_unique(old_s, j as int);
                }
                self.entries.remove(j);
                true
            },
            None => {
                assert(self@ =~= old(self)@.remove(name@));
                false
            },
        }
    }
}

} // verus!
