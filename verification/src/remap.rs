//! The remap reservation table: which physical key is currently sending which
//! remapped key. A physical key holds at most one remap and a remapped key is
//! sent for at most one physical key, so every release can be matched to the
//! press that caused it.

use std::collections::HashMap;
use std::collections::HashSet;
use vstd::prelude::*;
use vstd::std_specs::iter::IteratorSpec;

verus! {

broadcast use vstd::std_specs::hash::group_hash_axioms;

/// No two physical keys send the same remapped key.
pub open spec fn targets_distinct(m: Map<u32, u32>) -> bool {
    forall|a: u32, b: u32| m.contains_key(a) && m.contains_key(b) && a != b ==> m[a] != m[b]
}

/// Some physical key is already sending `target`.
pub open spec fn target_in_use(m: Map<u32, u32>, target: u32) -> bool {
    exists|s: u32| m.contains_key(s) && m[s] == target
}

/// A press of `source` may start sending `target`: neither is in use.
pub open spec fn may_reserve(m: Map<u32, u32>, source: u32, target: u32) -> bool {
    !m.contains_key(source) && !target_in_use(m, target)
}

/// The table after the release of `target` for `source` was sent: the entry
/// goes only if it is still that pair.
pub open spec fn after_release(m: Map<u32, u32>, source: u32, target: u32) -> Map<u32, u32> {
    if m.contains_key(source) && m[source] == target {
        m.remove(source)
    } else {
        m
    }
}

/// The table after a cleanup: only the entries whose remapped key is still
/// held stay.
pub open spec fn after_cleanup(m: Map<u32, u32>, held: Set<u32>) -> Map<u32, u32> {
    m.restrict(m.dom().filter(|s: u32| held.contains(m[s])))
}

/// The active remaps, from physical key to the key sent in its place.
pub struct RemapTable {
    active: HashMap<u32, u32>,
}

impl View for RemapTable {
    type V = Map<u32, u32>;

    closed spec fn view(&self) -> Map<u32, u32> {
        self.active@
    }
}

impl RemapTable {
    /// The table's invariant: remapped keys are distinct.
    pub open spec fn wf(&self) -> bool {
        targets_distinct(self@)
    }

    /// An empty table.
    pub fn new() -> (r: Self)
        ensures
            r.wf(),
            r@ == Map::<u32, u32>::empty(),
    {
        RemapTable { active: HashMap::new() }
    }

    /// No remap is active.
    pub fn is_empty(&self) -> (r: bool)
        ensures
            r == (self@.dom().len() == 0),
    {
        proof {
            vstd::std_specs::hash::axiom_hashmap_view_finite_dom(self.active);
        }
        self.active.len() == 0
    }

    /// The key that `source` is sending in its place, if any.
    pub fn target_of(&self, source: u32) -> (r: Option<u32>)
        ensures
            r == (if self@.contains_key(source) {
                Some(self@[source])
            } else {
                None
            }),
    {
        match self.active.get(&source) {
            Some(target) => Some(*target),
            None => None,
        }
    }

    /// The active remaps, each once, as pairs of physical and remapped key.
    pub fn entries(&self) -> (r: Vec<(u32, u32)>)
        ensures
            forall|i: int| 0 <= i < r@.len() ==> self@.contains_key(#[trigger] r@[i].0) && self@[r@[i].0] == r@[i].1,
            forall|s: u32| self@.contains_key(s) ==> exists|i: int| 0 <= i < r@.len() && #[trigger] r@[i].0 == s,
            forall|i: int, j: int| 0 <= i < r@.len() && 0 <= j < r@.len() && i != j ==> r@[i].0 != r@[j].0,
    {
        let ghost keys = IteratorSpec::remaining(&vstd::std_specs::hash::spec_keys_iter(&self.active)).unref();
        proof {
            vstd::std_specs::hash::axiom_spec_keys_iter(&self.active);
        }
        let mut sources: Vec<u32> = Vec::new();
        for source in it: self.active.keys()
            invariant
                it.seq().map_values(|x: &u32| *x) == keys,
                sources@ == keys.take(it.index() as int),
        {
            sources.push(*source);
            assert(sources@ =~= keys.take(it.index() as int + 1));
        }
        assert(sources@ =~= keys);
        proof {
            let rem = IteratorSpec::remaining(&vstd::std_specs::hash::spec_keys_iter(&self.active));
            assert forall|i: int, j: int|
                0 <= i < keys.len() && 0 <= j < keys.len() && i != j implies keys[i] != keys[j] by {
                assert(rem[i] != rem[j]);
            };
        }
        let mut out: Vec<(u32, u32)> = Vec::new();
        let mut k: usize = 0;
        while k < sources.len()
            invariant
                k <= sources@.len(),
                sources@.to_set() == self@.dom(),
                forall|i: int, j: int|
                    0 <= i < sources@.len() && 0 <= j < sources@.len() && i != j ==> sources@[i] != sources@[j],
                out@.len() == k,
                forall|i: int| 0 <= i < k ==> (#[trigger] out@[i]).0 == sources@[i] && self@.contains_key(out@[i].0)
                    && self@[out@[i].0] == out@[i].1,
            decreases sources@.len() - k,
        {
            let source = sources[k];
            proof {
                assert(sources@.to_set().contains(source));
            }
            let target = match self.active.get(&source) {
                Some(t) => *t,
                None => {
                    return out;
                },
            };
            out.push((source, target));
            k = k + 1;
        }
        proof {
            assert forall|s: u32| self@.contains_key(s) implies exists|i: int|
                0 <= i < out@.len() && #[trigger] out@[i].0 == s by {
                assert(sources@.to_set().contains(s));
                let i = choose|i: int| 0 <= i < sources@.len() && sources@[i] == s;
                assert(out@[i].0 == s);
            };
        }
        out
    }

    /// Reserves `target` for a press of `source`. Refused while `source`
    /// already sends a key or `target` is sent for another key.
    pub fn reserve(&mut self, source: u32, target: u32) -> (r: bool)
        requires
            old(self).wf(),
        ensures
            final(self).wf(),
            r == may_reserve(old(self)@, source, target),
            final(self)@ == (if r {
                old(self)@.insert(source, target)
            } else {
                old(self)@
            }),
    {
        if self.active.contains_key(&source) {
            return false;
        }
        let entries = self.entries();
        let mut i: usize = 0;
        while i < entries.len()
            invariant
                i <= entries@.len(),
                forall|j: int| 0 <= j < i ==> (#[trigger] entries@[j]).1 != target,
                forall|j: int| 0 <= j < entries@.len() ==> self@.contains_key(#[trigger] entries@[j].0)
                    && self@[entries@[j].0] == entries@[j].1,
                self@ == old(self)@,
                targets_distinct(self@),
            decreases entries@.len() - i,
        {
            if entries[i].1 == target {
                assert(self@.contains_key(entries@[i as int].0));
                return false;
            }
            i = i + 1;
        }
        proof {
            assert forall|s: u32| self@.contains_key(s) implies self@[s] != target by {
                let j = choose|j: int| 0 <= j < entries@.len() && #[trigger] entries@[j].0 == s;
                assert(entries@[j].1 != target);
            };
        }
        self.active.insert(source, target);
        true
    }

    /// Drops the reservation of `source`, as when its press could not be
    /// queued.
    pub fn cancel(&mut self, source: u32)
        requires
            old(self).wf(),
        ensures
            final(self).wf(),
            final(self)@ == old(self)@.remove(source),
    {
        self.active.remove(&source);
    }

    /// Records that the release of `target` for `source` was sent.
    pub fn finish_release(&mut self, source: u32, target: u32)
        requires
            old(self).wf(),
        ensures
            final(self).wf(),
            final(self)@ == after_release(old(self)@, source, target),
    {
        if self.target_of(source) == Some(target) {
            self.active.remove(&source);
        }
    }

    /// After a cleanup, forgets every remap whose remapped key is no longer
    /// held; returns whether every remap was released.
    pub fn settle_after_cleanup(&mut self, held: &HashSet<u32>) -> (r: bool)
        requires
            old(self).wf(),
        ensures
            final(self).wf(),
            final(self)@ == after_cleanup(old(self)@, held@),
            r == (forall|s: u32| old(self)@.contains_key(s) ==> !held@.contains(#[trigger] old(self)@[s])),
    {
        let entries = self.entries();
        let ghost start = self@;
        let mut known = true;
        let mut i: usize = 0;
        while i < entries.len()
            invariant
                i <= entries@.len(),
                forall|j: int| 0 <= j < entries@.len() ==> start.contains_key(#[trigger] entries@[j].0)
                    && start[entries@[j].0] == entries@[j].1,
                forall|s: u32| start.contains_key(s) ==> exists|j: int| 0 <= j < entries@.len() && #[trigger] entries@[j].0 == s,
                forall|a: int, b: int| 0 <= a < entries@.len() && 0 <= b < entries@.len() && a != b ==> entries@[a].0 != entries@[b].0,
                self@.dom().subset_of(start.dom()),
                forall|s: u32| #[trigger] self@.contains_key(s) ==> self@[s] == start[s],
                forall|j: int| i <= j < entries@.len() ==> self@.contains_key(#[trigger] entries@[j].0),
                forall|j: int| 0 <= j < i ==> (self@.contains_key(#[trigger] entries@[j].0) <==> held@.contains(entries@[j].1)),
                known == (forall|j: int| 0 <= j < i ==> !held@.contains(#[trigger] entries@[j].1)),
                targets_distinct(start),
            decreases entries@.len() - i,
        {
            let (source, target) = entries[i];
            if held.contains(&target) {
                known = false;
            } else {
                self.active.remove(&source);
                proof {
                    assert forall|j: int| i + 1 <= j < entries@.len() implies self@.contains_key(
                        #[trigger] entries@[j].0,
                    ) by {
                        assert(entries@[j].0 != entries@[i as int].0);
                    };
                    assert forall|j: int| 0 <= j < i implies (self@.contains_key(#[trigger] entries@[j].0)
                        <==> held@.contains(entries@[j].1)) by {
                        assert(entries@[j].0 != entries@[i as int].0);
                    };
                }
            }
            i = i + 1;
        }
        proof {
            let expected = after_cleanup(start, held@);
            assert forall|s: u32| #[trigger] self@.contains_key(s) <==> expected.contains_key(s) by {
                if start.contains_key(s) {
                    let j = choose|j: int| 0 <= j < entries@.len() && #[trigger] entries@[j].0 == s;
                    assert(self@.contains_key(entries@[j].0) <==> held@.contains(entries@[j].1));
                }
            };
            assert(self@ =~= expected);
            if known {
                assert forall|s: u32| start.contains_key(s) implies !held@.contains(#[trigger] start[s]) by {
                    let j = choose|j: int| 0 <= j < entries@.len() && #[trigger] entries@[j].0 == s;
                    assert(!held@.contains(entries@[j].1));
                };
            } else {
                let j = choose|j: int| 0 <= j < entries@.len() && held@.contains(#[trigger] entries@[j].1);
                assert(start.contains_key(entries@[j].0));
                assert(held@.contains(start[entries@[j].0]));
            }
        }
        known
    }
}

/// The release of a remap undoes its reservation: reserving `target` for
/// `source` and then recording that release leaves the table as it was.
pub proof fn lemma_release_undoes_reservation(m: Map<u32, u32>, source: u32, target: u32)
    requires
        may_reserve(m, source, target),
    ensures
        after_release(m.insert(source, target), source, target) == m,
{
    assert(m.insert(source, target).remove(source) =~= m);
}

/// A reservation is refused while the same remapped key is already being
/// sent for another physical key, so no remapped key is pressed twice.
pub proof fn lemma_reserved_target_is_exclusive(m: Map<u32, u32>, source: u32, other: u32, target: u32)
    requires
        m.contains_key(other),
        m[other] == target,
    ensures
        !may_reserve(m, source, target),
{
}

} // verus!
