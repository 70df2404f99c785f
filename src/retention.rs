//! Bounding a sensor's readings to the most recent ones.
//!
//! Readings arrive ordered most recent first. Everything past the retention
//! limit is surplus; the surplus is deleted in consecutive batches whose size
//! the store bounds.

use vstd::prelude::*;

verus! {

/// The readings past the first `limit` of `s`: all of `s[limit..]` when `s`
/// is longer than `limit`, nothing otherwise.
pub open spec fn surplus<A>(s: Seq<A>, limit: nat) -> Seq<A> {
    if s.len() > limit {
        s.subrange(limit as int, s.len() as int)
    } else {
        Seq::empty()
    }
}

/// The readings that stay once the surplus is gone: the first `limit`, or
/// all of them when there are no more.
pub open spec fn retained<A>(s: Seq<A>, limit: nat) -> Seq<A> {
    if s.len() > limit {
        s.subrange(0, limit as int)
    } else {
        s
    }
}

/// Takes the surplus out of `readings` (ordered most recent first), leaving
/// the `limit` most recent ones behind, and returns the surplus in the
/// order it had.
pub fn trim<A>(readings: &mut Vec<A>, limit: usize) -> (removed: Vec<A>)
    ensures
        removed@ == surplus(old(readings)@, limit as nat),
        final(readings)@ == retained(old(readings)@, limit as nat),
{
    if readings.len() > limit {
        readings.split_off(limit)
    } else {
        Vec::new()
    }
}

/// Trimming is idempotent: once the surplus is gone, a fresh fetch of what
/// is left has no surplus under the same limit.
pub proof fn law_trim_idempotent<A>(s: Seq<A>, limit: nat)
    ensures
        surplus(retained(s, limit), limit) == Seq::<A>::empty(),
        retained(retained(s, limit), limit) == retained(s, limit),
{
}

/// The retained readings followed by the surplus are the readings, in order;
/// at most `limit` are retained, and exactly `limit` when there were more.
pub proof fn law_trim_splits<A>(s: Seq<A>, limit: nat)
    ensures
        retained(s, limit) + surplus(s, limit) == s,
        retained(s, limit).len() == if s.len() > limit {
            limit
        } else {
            s.len()
        },
{
    assert(retained(s, limit) + surplus(s, limit) =~= s);
}

} // verus!
