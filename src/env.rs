use vstd::prelude::*;
use crate::value::{Datum, Value, unbound};

verus! {

/// The value bound to `k` by the latest entry of `s` that names it.
pub open spec fn find(s: Seq<(String, Value)>, k: Seq<char>) -> Option<Value>
    decreases s.len(),
{
    if s.len() == 0 {
        None
    } else if s.last().0@ == k {
        Some(s.last().1)
    } else {
        find(s.drop_last(), k)
    }
}

/// Replacing the last entry that names `k` rebinds `k` and leaves every other name as it was.
proof fn lemma_find_update(s: Seq<(String, Value)>, i: int, k: Seq<char>, e: (String, Value), q: Seq<char>)
    requires
        0 <= i < s.len(),
        s[i].0@ == k,
        e.0@ == k,
        forall|j: int| i < j < s.len() ==> s[j].0@ != k,
    ensures
        find(s.update(i, e), q) == if q == k { Some(e.1) } else { find(s, q) },
    decreases s.len(),
{
    let t = s.update(i, e);
    if i == s.len() - 1 {
        assert(t.drop_last() =~= s.drop_last());
    } else {
        assert(t.drop_last() =~= s.drop_last().update(i, e));
        lemma_find_update(s.drop_last(), i, k, e, q);
    }
}

/// A name that no entry names is unbound.
proof fn lemma_find_absent(s: Seq<(String, Value)>, k: Seq<char>)
    requires
        forall|j: int| 0 <= j < s.len() ==> s[j].0@ != k,
    ensures
        find(s, k) is None,
    decreases s.len(),
{
    if s.len() > 0 {
        lemma_find_absent(s.drop_last(), k);
    }
}

/// The single, global mapping from names to values.
pub struct Env {
    pub entries: Vec<(String, Value)>,
}

impl View for Env {
    type V = Map<Seq<char>, Datum>;

    open spec fn view(&self) -> Map<Seq<char>, Datum> {
        Map::new(|k: Seq<char>| find(self.entries@, k) is Some, |k: Seq<char>| find(self.entries@, k).unwrap()@)
    }
}

impl Env {
    pub fn new() -> (r: Env)
        ensures
            r@ == Map::<Seq<char>, Datum>::empty(),
    {
        let r = Env { entries: Vec::new() };
        assert(r@ =~= Map::<Seq<char>, Datum>::empty());
        r
    }

    /// Index of the last entry that names `name`.
    fn last_index(&self, name: &String) -> (r: Option<usize>)
        ensures
            r matches Some(i) ==> i < self.entries@.len() && self.entries@[i as int].0@ == name@
                && forall|j: int| i < j < self.entries@.len() ==> self.entries@[j].0@ != name@,
            r is None ==> forall|j: int| 0 <= j < self.entries@.len() ==> self.entries@[j].0@ != name@,
    {
        let mut i = self.entries.len();
        while i > 0
            invariant
                i <= self.entries.len(),
                forall|j: int| i <= j < self.entries@.len() ==> self.entries@[j].0@ != name@,
            decreases i,
        {
            if self.entries[i - 1].0 == *name {
                return Some(i - 1);
            }
            i = i - 1;
        }
        None
    }

    /// Binds `name` to `v`, replacing what it was bound to.
    pub fn bind(&mut self, name: String, v: Value)
        ensures
            final(self)@ == old(self)@.insert(name@, v@),
    {
        let ghost k = name@;
        let ghost s = self.entries@;
        match self.last_index(&name) {
            Some(i) => {
                let ghost e = (name, v);
                self.entries.set(i, (name, v));
                proof {
                    assert forall|q: Seq<char>| find(self.entries@, q) == (if q == k { Some(e.1) } else { find(s, q) }) by {
                        lemma_find_update(s, i as int, k, e, q);
                    }
                    assert(self@ =~= old(self)@.insert(k, v@));
                }
            },
            None => {
                proof {
                    lemma_find_absent(s, k);
                }
                self.entries.push((name, v));
                proof {
                    assert(self.entries@.drop_last() =~= s);
                    assert(self@ =~= old(self)@.insert(k, v@));
                }
            },
        }
    }

    /// The value bound to `name`, or the number zero when none is.
    pub fn lookup(&self, name: &String) -> (r: Value)
        ensures
            r@ == if self@.contains_key(name@) { self@[name@] } else { unbound() },
    {
        match self.last_index(name) {
            Some(i) => {
                proof {
                    lemma_find_last(self.entries@, i as int, name@);
                }
                self.entries[i].1.duplicate()
            },
            None => {
                proof {
                    lemma_find_absent(self.entries@, name@);
                }
                Value::Number(0)
            },
        }
    }
}

/// The last entry that names `k` is the one found.
proof fn lemma_find_last(s: Seq<(String, Value)>, i: int, k: Seq<char>)
    requires
        0 <= i < s.len(),
        s[i].0@ == k,
        forall|j: int| i < j < s.len() ==> s[j].0@ != k,
    ensures
        find(s, k) == Some(s[i].1),
    decreases s.len(),
{
    if i < s.len() - 1 {
        lemma_find_last(s.drop_last(), i, k);
    }
}

} // verus!
