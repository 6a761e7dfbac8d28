//! The scope: the single flat, mutable name-to-value namespace shared by the
//! top-level driver and every nested call frame. Its model is a
//! `Map<Seq<char>, AbsValue>`.

use vstd::prelude::*;

verus! {

use crate::value::{Value, AbsValue, value_view};

/// The name-to-value mapping. A binding hides every earlier binding of the
/// same name; there is no shadowing or restoration on return.
pub struct Scope {
    entries: Vec<(String, Value)>,
}

/// The model of a list of bindings: later entries override earlier ones.
pub open spec fn scope_map(s: Seq<(String, Value)>) -> Map<Seq<char>, AbsValue>
    decreases s.len(),
{
    if s.len() == 0 {
        Map::empty()
    } else {
        scope_map(s.drop_last()).insert(s.last().0@, value_view(s.last().1))
    }
}

impl View for Scope {
    type V = Map<Seq<char>, AbsValue>;

    closed spec fn view(&self) -> Map<Seq<char>, AbsValue> {
        scope_map(self.entries@)
    }
}

/// Skipping an entry whose name is not the key leaves lookup unchanged.
proof fn lemma_scope_step(s: Seq<(String, Value)>, i: int, k: Seq<char>)
    requires
        0 <= i < s.len(),
        s[i].0@ != k,
    ensures
        scope_map(s.take(i + 1)).contains_key(k) == scope_map(s.take(i)).contains_key(k),
        scope_map(s.take(i + 1)).contains_key(k) ==> scope_map(s.take(i + 1))[k] == scope_map(
            s.take(i),
        )[k],
{
    assert(s.take(i + 1).drop_last() =~= s.take(i));
    assert(s.take(i + 1).last() == s[i]);
}

/// The entry whose name is the key decides the lookup.
proof fn lemma_scope_hit(s: Seq<(String, Value)>, i: int)
    requires
        0 <= i < s.len(),
    ensures
        scope_map(s.take(i + 1)).contains_key(s[i].0@),
        scope_map(s.take(i + 1))[s[i].0@] == value_view(s[i].1),
{
    assert(s.take(i + 1).drop_last() =~= s.take(i));
    assert(s.take(i + 1).last() == s[i]);
}

impl Scope {
    /// An empty scope, with no binding at all.
    pub fn new() -> (s: Scope)
        ensures
            s@ == Map::<Seq<char>, AbsValue>::empty(),
    {
        Scope { entries: Vec::new() }
    }

    /// Binds `value` under `name`, overwriting any previous binding.
    pub fn insert(&mut self, name: String, value: Value)
        ensures
            final(self)@ == old(self)@.insert(name@, value_view(value)),
    {
        let ghost oldseq = self.entries@;
        self.entries.push((name, value));
        proof {
            assert(self.entries@.drop_last() =~= oldseq);
        }
    }

    /// Looks a name up: the currently bound value, if there is one.
    pub fn get(&self, name: &String) -> (r: Option<&Value>)
        ensures
            match r {
                Some(v) => self@.contains_key(name@) && value_view(*v) == self@[name@],
                None => !self@.contains_key(name@),
            },
    {
        let mut i: usize = self.entries.len();
        proof {
            assert(self.entries@.take(i as int) =~= self.entries@);
        }
        while i > 0
            invariant
                i <= self.entries@.len(),
                self@.contains_key(name@) == scope_map(self.entries@.take(i as int)).contains_key(
                    name@,
                ),
                self@.contains_key(name@) ==> self@[name@] == scope_map(
                    self.entries@.take(i as int),
                )[name@],
            decreases i,
        {
            let j = i - 1;
            if self.entries[j].0 == *name {
                proof {
                    lemma_scope_hit(self.entries@, j as int);
                }
                return Some(&self.entries[j].1);
            }
            proof {
                lemma_scope_step(self.entries@, j as int, name@);
            }
            i = j;
        }
        proof {
            assert(self.entries@.take(0) =~= Seq::<(String, Value)>::empty());
        }
        None
    }
}

} // verus!
