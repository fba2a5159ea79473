//! Keep-alive count for the hosting module.
//!
//! One static baseline holder exists for the module's whole lifetime; every
//! live engine instance or factory holds one more reference. The module may
//! be unloaded only when the count is back at the baseline.

use vstd::prelude::*;

verus! {

/// Shared reference count deciding whether the hosting module may unload.
pub struct ModuleRefCount {
    count: u64,
}

impl ModuleRefCount {
    /// Number of live references, the static baseline holder included.
    pub closed spec fn count(&self) -> u64 {
        self.count
    }

    /// A fresh counter holding only the baseline reference.
    pub fn new() -> (r: ModuleRefCount)
        ensures
            r.count() == 1,
    {
        ModuleRefCount { count: 1 }
    }

    /// Records one more live instance.
    pub fn acquire(&mut self)
        requires
            old(self).count() < u64::MAX,
        ensures
            final(self).count() == old(self).count() + 1,
    {
        self.count = self.count + 1;
    }

    /// Records that one live instance was destroyed.
    pub fn release(&mut self)
        requires
            old(self).count() > 1,
        ensures
            final(self).count() == old(self).count() - 1,
    {
        self.count = self.count - 1;
    }

    /// Number of live references, for callers outside the proofs.
    pub fn count_value(&self) -> (r: u64)
        ensures
            r == self.count(),
    {
        self.count
    }

    /// Whether unloading is safe: only the baseline holder remains.
    pub fn module_can_unload(&self) -> (r: bool)
        ensures
            r == (self.count() == 1),
    {
        self.count == 1
    }
}

/// Number of acquisitions in an event list (`true` = acquire, `false` =
/// release).
pub open spec fn acquires(events: Seq<bool>) -> int
    decreases events.len(),
{
    if events.len() == 0 {
        0
    } else {
        (if events[0] {
            1int
        } else {
            0int
        }) + acquires(events.drop_first())
    }
}

/// Number of releases in an event list.
pub open spec fn releases(events: Seq<bool>) -> int
    decreases events.len(),
{
    if events.len() == 0 {
        0
    } else {
        (if events[0] {
            0int
        } else {
            1int
        }) + releases(events.drop_first())
    }
}

/// The count after applying an event list to a starting count.
pub open spec fn apply_events(count: int, events: Seq<bool>) -> int
    decreases events.len(),
{
    if events.len() == 0 {
        count
    } else {
        apply_events(
            if events[0] {
                count + 1
            } else {
                count - 1
            },
            events.drop_first(),
        )
    }
}

/// Any mix of instance constructions and destructions moves the count by
/// exactly their difference.
pub proof fn lemma_apply_events_balance(count: int, events: Seq<bool>)
    ensures
        apply_events(count, events) == count + acquires(events) - releases(events),
    decreases events.len(),
{
    if events.len() > 0 {
        if events[0] {
            lemma_apply_events_balance(count + 1, events.drop_first());
        } else {
            lemma_apply_events_balance(count - 1, events.drop_first());
        }
    }
}

/// Keep-alive law: starting from the baseline, after as many destructions as
/// constructions the module may unload; while any instance is still alive it
/// may not.
pub proof fn lemma_keep_alive(events: Seq<bool>)
    ensures
        acquires(events) == releases(events) ==> apply_events(1, events) == 1,
        acquires(events) > releases(events) ==> apply_events(1, events) > 1,
{
    lemma_apply_events_balance(1, events);
}

} // verus!
