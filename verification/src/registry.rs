//! The transform-plan registry: one memoized plan per transform length.

use vstd::prelude::*;

verus! {

/// Memoized transform plans, keyed by transform length.
///
/// A plan is created once, on first demand for its length, and kept for the
/// registry's lifetime: the set of memoized lengths only ever grows.  The
/// interpolator holds one registry; the primary window length is planned at
/// construction and the anti-aliasing path adds one length per distinct
/// oversampling ratio it meets.
pub struct PlanRegistry<TPlan> {
    entries: Vec<(usize, TPlan)>,
}

/// The first plan at or after position `i` of `entries` that is keyed by
/// `length`.
spec fn plan_from<TPlan>(entries: Seq<(usize, TPlan)>, length: usize, i: int) -> Option<TPlan>
    decreases entries.len() - i,
    when 0 <= i <= entries.len()
{
    if i >= entries.len() {
        None
    } else if entries[i].0 == length {
        Some(entries[i].1)
    } else {
        plan_from(entries, length, i + 1)
    }
}

/// Appending an entry leaves every existing plan in place; a fresh length
/// finds the appended plan and nothing else.
proof fn lemma_plan_from_push<TPlan>(
    entries: Seq<(usize, TPlan)>,
    entry: (usize, TPlan),
    length: usize,
    i: int,
)
    requires
        0 <= i <= entries.len(),
    ensures
        plan_from(entries.push(entry), length, i) == match plan_from(entries, length, i) {
            Some(plan) => Some(plan),
            None => if entry.0 == length {
                Some(entry.1)
            } else {
                None
            },
        },
    decreases entries.len() - i,
{
    if i < entries.len() {
        assert(entries.push(entry)[i] == entries[i]);
        lemma_plan_from_push(entries, entry, length, i + 1);
    } else {
        assert(entries.push(entry)[i] == entry);
        assert(plan_from(entries, length, i) == None::<TPlan>);
        assert(plan_from(entries.push(entry), length, i + 1) == None::<TPlan>);
    }
}

impl<TPlan> PlanRegistry<TPlan> {
    /// The plan memoized for `length`, if one exists.
    pub closed spec fn spec_find(&self, length: usize) -> Option<TPlan> {
        plan_from(self.entries@, length, 0)
    }

    /// Whether a plan for `length` has been memoized.
    pub open spec fn has_plan(&self, length: usize) -> bool {
        self.spec_find(length) is Some
    }

    /// The plan memoized for `length` (meaningful when `has_plan(length)`).
    pub open spec fn plan_at(&self, length: usize) -> TPlan {
        self.spec_find(length)->Some_0
    }

    /// An empty registry.
    pub fn new() -> (registry: Self)
        ensures
            forall|length: usize| !registry.has_plan(length),
    {
        PlanRegistry { entries: Vec::new() }
    }

    /// The memoized plan for `length`, or `None` if that length has not been
    /// planned yet.
    pub fn get(&self, length: usize) -> (plan: Option<&TPlan>)
        ensures
            match plan {
                Some(p) => self.has_plan(length) && *p == self.plan_at(length),
                None => !self.has_plan(length),
            },
    {
        let mut i: usize = 0;
        while i < self.entries.len()
            invariant
                0 <= i <= self.entries@.len(),
                plan_from(self.entries@, length, 0) == plan_from(self.entries@, length, i as int),
            decreases self.entries@.len() - i,
        {
            if self.entries[i].0 == length {
                return Some(&self.entries[i].1);
            }
            i = i + 1;
        }
        None
    }

    /// The memoized plan for a length that is known to have been planned.
    pub fn get_expect(&self, length: usize) -> (plan: &TPlan)
        requires
            self.has_plan(length),
        ensures
            *plan == self.plan_at(length),
    {
        match self.get(length) {
            Some(plan) => plan,
            None => vstd::pervasive::unreached(),
        }
    }

    /// Memoize `plan` for `length`.  Every previously memoized length keeps
    /// its plan; the registry never shrinks.
    pub fn insert(&mut self, length: usize, plan: TPlan)
        requires
            !old(self).has_plan(length),
        ensures
            final(self).has_plan(length),
            final(self).plan_at(length) == plan,
            forall|other: usize|
                other != length ==> {
                    &&& #[trigger] final(self).has_plan(other) == old(self).has_plan(other)
                    &&& old(self).has_plan(other) ==> final(self).plan_at(other) == old(
                        self,
                    ).plan_at(other)
                },
    {
        let ghost previous = self.entries@;
        self.entries.push((length, plan));
        proof {
            lemma_plan_from_push(previous, (length, plan), length, 0);
            assert forall|other: usize| other != length implies {
                &&& self.has_plan(other) == old(self).has_plan(other)
                &&& old(self).has_plan(other) ==> self.plan_at(other) == old(self).plan_at(other)
            } by {
                lemma_plan_from_push(previous, (length, plan), other, 0);
            }
        }
    }
}

} // verus!
