//! The cap on concurrent terminals: a slot is reserved in the same step
//! that admits a connection, and given back when the terminal closes, so
//! simultaneous upgrades cannot all slip under the cap.
use vstd::prelude::*;

verus! {

/// One attempt to take a slot when `active` of `capacity` are taken:
/// whether it is granted, and how many are taken afterwards.
pub open spec fn reserve_step(active: nat, capacity: nat) -> (bool, nat) {
    if active < capacity {
        (true, active + 1)
    } else {
        (false, active)
    }
}

/// `k` attempts in a row, with no slot given back in between: how many
/// are granted, and how many slots are taken afterwards.
pub open spec fn reserve_many(active: nat, capacity: nat, k: nat) -> (nat, nat)
    decreases k,
{
    if k == 0 {
        (0, active)
    } else {
        let (granted, now_active) = reserve_many(active, capacity, (k - 1) as nat);
        let (ok, after) = reserve_step(now_active, capacity);
        (if ok {
            granted + 1
        } else {
            granted
        }, after)
    }
}

/// Taken slots after a run of operations: `true` takes a slot (when one is
/// free), `false` gives one back.
pub open spec fn slots_after(active: nat, capacity: nat, ops: Seq<bool>) -> nat
    decreases ops.len(),
{
    if ops.len() == 0 {
        active
    } else {
        let before = slots_after(active, capacity, ops.drop_last());
        if ops.last() {
            reserve_step(before, capacity).1
        } else if before > 0 {
            (before - 1) as nat
        } else {
            0
        }
    }
}

/// Of `k` simultaneous attempts, exactly as many are granted as there were
/// free slots (or `k`, when that is fewer): at most one when a single slot
/// is left, none when the cap is reached.
pub proof fn law_simultaneous_attempts_share_the_free_slots(active: nat, capacity: nat, k: nat)
    requires
        active <= capacity,
    ensures
        reserve_many(active, capacity, k).0 == (if k <= capacity - active {
            k
        } else {
            (capacity - active) as nat
        }),
        reserve_many(active, capacity, k).1 == active + reserve_many(active, capacity, k).0,
        reserve_many(active, capacity, k).1 <= capacity,
    decreases k,
{
    if k > 0 {
        law_simultaneous_attempts_share_the_free_slots(active, capacity, (k - 1) as nat);
    }
}

/// Whatever mix of takes and give-backs happens, no more slots are taken
/// than there are.
pub proof fn law_slots_never_exceed_the_cap(active: nat, capacity: nat, ops: Seq<bool>)
    requires
        active <= capacity,
    ensures
        slots_after(active, capacity, ops) <= capacity,
    decreases ops.len(),
{
    if ops.len() > 0 {
        law_slots_never_exceed_the_cap(active, capacity, ops.drop_last());
    }
}

/// The terminals open, out of how many may be.
pub struct SessionSlots {
    active: usize,
    capacity: usize,
}

impl SessionSlots {
    #[verifier::type_invariant]
    spec fn within_capacity(self) -> bool {
        self.active <= self.capacity
    }

    pub closed spec fn active_count(&self) -> usize {
        self.active
    }

    pub closed spec fn capacity_count(&self) -> usize {
        self.capacity
    }

    /// No terminal open yet, and at most `capacity` at a time.
    pub fn new(capacity: usize) -> (s: Self)
        ensures
            s.active_count() == 0,
            s.capacity_count() == capacity,
    {
        SessionSlots { active: 0, capacity }
    }

    /// How many terminals are open.
    pub fn active(&self) -> (n: usize)
        ensures
            n == self.active_count(),
            n <= self.capacity_count(),
    {
        proof {
            use_type_invariant(self);
        }
        self.active
    }

    /// How many terminals may be open at once.
    pub fn capacity(&self) -> (n: usize)
        ensures
            n == self.capacity_count(),
    {
        self.capacity
    }

    /// Takes a slot when one is free.
    pub fn try_reserve(&mut self) -> (granted: bool)
        ensures
            (granted, final(self).active_count() as nat) == reserve_step(
                old(self).active_count() as nat,
                old(self).capacity_count() as nat,
            ),
            final(self).capacity_count() == old(self).capacity_count(),
    {
        proof {
            use_type_invariant(&*self);
        }
        if self.active < self.capacity {
            let n = self.active + 1;
            *self = SessionSlots { active: n, capacity: self.capacity };
            true
        } else {
            false
        }
    }

    /// Gives a slot back when a terminal closes.
    pub fn release(&mut self)
        ensures
            final(self).active_count() == (if old(self).active_count() > 0 {
                (old(self).active_count() - 1) as usize
            } else {
                0
            }),
            final(self).capacity_count() == old(self).capacity_count(),
    {
        proof {
            use_type_invariant(&*self);
        }
        if self.active > 0 {
            let n = self.active - 1;
            *self = SessionSlots { active: n, capacity: self.capacity };
        }
    }
}

} // verus!
