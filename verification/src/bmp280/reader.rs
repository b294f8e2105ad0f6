//! The reading loop: how many readings are taken before stopping.

use vstd::prelude::*;

verus! {

/// `count + 1`, saturating at `u32::MAX`.
pub open spec fn saturating_next(count: u32) -> u32 {
    if count < u32::MAX {
        (count + 1) as u32
    } else {
        u32::MAX
    }
}

/// The loop stops once a limit is set and the count of readings reached it.
pub open spec fn limit_reached(count: u32, max_reads: Option<u32>) -> bool {
    match max_reads {
        Some(limit) => count >= limit,
        None => false,
    }
}

/// Whether another reading is taken when `count` readings were taken so far:
/// checked before every reading, the first included, so that a limit of zero
/// takes none.
pub fn reading_due(count: u32, max_reads: Option<u32>) -> (due: bool)
    ensures
        due == !limit_reached(count, max_reads),
{
    match max_reads {
        Some(limit) => count < limit,
        None => true,
    }
}

/// Bookkeeping after a reading: the saturated count of readings so far, and
/// whether the loop stops.
pub fn after_reading(count: u32, max_reads: Option<u32>) -> (r: (u32, bool))
    ensures
        r.0 == saturating_next(count),
        r.1 == limit_reached(r.0, max_reads),
{
    let next = count.saturating_add(1);
    let stop = match max_reads {
        Some(limit) => next >= limit,
        None => false,
    };
    (next, stop)
}

/// The count after `k` readings, starting from zero.
pub open spec fn count_after(k: nat) -> u32
    decreases k,
{
    if k == 0 {
        0
    } else {
        saturating_next(count_after((k - 1) as nat))
    }
}

/// After `k` readings the limit is reached exactly when `k >= limit`: checked
/// before the first reading and after each one, the loop takes exactly `limit`
/// readings (none for a limit of zero); without a limit it never stops.
pub proof fn lemma_reading_limit(max_reads: Option<u32>, k: nat)
    requires
        k <= u32::MAX,
    ensures
        count_after(k) == k,
        limit_reached(count_after(k), max_reads) <==> (max_reads matches Some(limit) && k
            >= limit),
    decreases k,
{
    reveal_with_fuel(count_after, 2);
    if k > 0 {
        lemma_reading_limit(max_reads, (k - 1) as nat);
    }
}

} // verus!
