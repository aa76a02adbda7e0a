//! Growth policy of the particle instance buffer.

use vstd::prelude::*;

verus! {

/// Capacity, in instances, of a freshly created particle instance buffer.
pub const INITIAL_INSTANCE_CAPACITY: u32 = 1024;

/// The smallest power of two that is at least `x`, searching upward from `p`
/// (a power of two).
pub open spec fn power_of_two_from(x: nat, p: nat) -> nat
    decreases (if p >= x { 0 } else { x - p }),
{
    if p >= x || p == 0 {
        p
    } else {
        power_of_two_from(x, 2 * p)
    }
}

/// The smallest power of two that is at least `x` (`u32::next_power_of_two`).
pub open spec fn next_power_of_two(x: nat) -> nat {
    power_of_two_from(x, 1)
}

/// The capacity a buffer must grow to for `needed` instances, if it must grow:
/// `None` when `needed` fits in `current`, else the next power of two at
/// least `needed` and at least the initial capacity.
pub open spec fn grown_capacity(current: u32, needed: u32) -> Option<nat> {
    if needed <= current {
        None
    } else {
        Some(next_power_of_two(if needed > INITIAL_INSTANCE_CAPACITY { needed as nat } else { INITIAL_INSTANCE_CAPACITY as nat }))
    }
}

proof fn lemma_power_of_two_from_bounds(x: nat, p: nat)
    requires
        p >= 1,
    ensures
        power_of_two_from(x, p) >= x,
        power_of_two_from(x, p) >= p,
        p <= x ==> power_of_two_from(x, p) < 2 * x,
    decreases (if p >= x { 0 } else { x - p }),
{
    if p < x {
        lemma_power_of_two_from_bounds(x, 2 * p);
    }
}

/// Make room for `needed` instances: when they do not fit in `capacity`, grow
/// it per [`grown_capacity`] and return `true` (the buffer must be
/// recreated); otherwise leave it and return `false`.
pub fn ensure_capacity(capacity: &mut u32, needed: u32) -> (grew: bool)
    requires
        needed <= 0x8000_0000,
    ensures
        grew == (needed > *old(capacity)),
        grew ==> grown_capacity(*old(capacity), needed) == Some(*final(capacity) as nat),
        !grew ==> *final(capacity) == *old(capacity),
{
    if needed <= *capacity {
        return false;
    }
    let target = if needed > INITIAL_INSTANCE_CAPACITY {
        needed
    } else {
        INITIAL_INSTANCE_CAPACITY
    };
    let mut p: u64 = 1;
    proof {
        lemma_power_of_two_from_bounds(target as nat, 1);
    }
    while p < target as u64
        invariant
            1 <= p,
            1 <= target <= 0x8000_0000,
            power_of_two_from(target as nat, p as nat) == next_power_of_two(target as nat),
            next_power_of_two(target as nat) < 2 * target,
        decreases 2 * target - p,
    {
        p = p * 2;
    }
    *capacity = p as u32;
    true
}

/// Growing never shrinks, always makes room for what was asked, and never
/// more than doubles what was needed beyond the initial capacity.
pub proof fn law_capacity_growth(current: u32, needed: u32)
    ensures
        grown_capacity(current, needed) matches Some(c) ==> c >= needed && c
            >= INITIAL_INSTANCE_CAPACITY && c > current && (c < 2 * needed || c
            < 2 * INITIAL_INSTANCE_CAPACITY),
{
    if needed > current {
        let target: nat = if needed > INITIAL_INSTANCE_CAPACITY {
            needed as nat
        } else {
            INITIAL_INSTANCE_CAPACITY as nat
        };
        lemma_power_of_two_from_bounds(target, 1);
    }
}

} // verus!
