//! Turning surplus records into bounded delete batches.
//!
//! A record is deleted by its identity key (sensor id, timestamp). A record
//! that lacks either half of the key is left out of every batch instead of
//! failing the run. Key values are generic: the store's attribute values in
//! production, plain strings or numbers elsewhere.

use vstd::prelude::*;

verus! {

/// The identity key of a stored reading as it was fetched; either half may be
/// missing on a malformed or partially written record.
pub struct RecordKey<V> {
    pub sensor_id: Option<V>,
    pub timestamp: Option<V>,
}

/// A complete identity key, as a batch delete request takes it.
pub struct DeleteKey<V> {
    pub sensor_id: V,
    pub timestamp: V,
}

/// The delete key of a record, if both halves are present.
pub open spec fn key_of<V>(r: RecordKey<V>) -> Option<DeleteKey<V>> {
    match r.sensor_id {
        Some(s) => match r.timestamp {
            Some(t) => Some(DeleteKey { sensor_id: s, timestamp: t }),
            None => None,
        },
        None => None,
    }
}

pub open spec fn is_well_formed<V>(r: RecordKey<V>) -> bool {
    key_of(r) is Some
}

/// The delete keys of the well-formed records of `s`, in order.
pub open spec fn delete_keys<V>(s: Seq<RecordKey<V>>) -> Seq<DeleteKey<V>>
    decreases s.len(),
{
    if s.len() == 0 {
        Seq::empty()
    } else {
        let rest = delete_keys(s.drop_last());
        match key_of(s.last()) {
            Some(k) => rest.push(k),
            None => rest,
        }
    }
}

/// The batches for `s` under a bound on the batch size: `s` is cut into
/// consecutive chunks of `bound` records (the last may be shorter), each chunk
/// gives the delete keys of its well-formed records, and a chunk that gives
/// none makes no batch.
pub open spec fn batch_plan<V>(s: Seq<RecordKey<V>>, bound: nat) -> Seq<Seq<DeleteKey<V>>>
    decreases s.len(),
{
    if s.len() == 0 || bound == 0 {
        Seq::empty()
    } else {
        let n = if s.len() < bound { s.len() } else { bound };
        let keys = delete_keys(s.take(n as int));
        let rest = batch_plan(s.skip(n as int), bound);
        if keys.len() > 0 {
            seq![keys] + rest
        } else {
            rest
        }
    }
}

/// What a list of batches holds, batch by batch.
pub open spec fn batch_views<V>(b: Seq<Vec<DeleteKey<V>>>) -> Seq<Seq<DeleteKey<V>>> {
    b.map_values(|v: Vec<DeleteKey<V>>| v@)
}

/// The delete keys of the well-formed records, in order; malformed records
/// are skipped.
pub fn delete_keys_of<V>(records: Vec<RecordKey<V>>) -> (keys: Vec<DeleteKey<V>>)
    ensures
        keys@ == delete_keys(records@),
{
    let ghost all = records@;
    let ghost mut done: int = 0;
    let mut rest = records;
    let mut keys: Vec<DeleteKey<V>> = Vec::new();
    while rest.len() > 0
        invariant
            0 <= done <= all.len(),
            rest@ == all.skip(done),
            keys@ == delete_keys(all.take(done)),
        decreases rest.len(),
    {
        let r = rest.remove(0);
        proof {
            assert(all.take(done + 1).drop_last() =~= all.take(done));
            assert(all.take(done + 1).last() == r);
        }
        let RecordKey { sensor_id, timestamp } = r;
        match sensor_id {
            Some(s) => match timestamp {
                Some(t) => keys.push(DeleteKey { sensor_id: s, timestamp: t }),
                None => {},
            },
            None => {},
        }
        proof {
            done = done + 1;
            assert(rest@ =~= all.skip(done));
        }
    }
    proof {
        assert(all.take(done) =~= all);
    }
    keys
}

/// Cuts `surplus` into consecutive chunks of at most `bound` records and
/// returns one batch of delete keys per chunk that has any.
pub fn plan_batches<V>(surplus: Vec<RecordKey<V>>, bound: usize) -> (batches: Vec<Vec<DeleteKey<V>>>)
    requires
        bound > 0,
    ensures
        batch_views(batches@) == batch_plan(surplus@, bound as nat),
{
    let ghost all = surplus@;
    let mut rest = surplus;
    let mut batches: Vec<Vec<DeleteKey<V>>> = Vec::new();
    while rest.len() > 0
        invariant
            bound > 0,
            batch_views(batches@) + batch_plan(rest@, bound as nat) == batch_plan(all, bound as nat),
        decreases rest.len(),
    {
        let ghost before = rest@;
        let n: usize = if rest.len() < bound {
            rest.len()
        } else {
            bound
        };
        let mut chunk = rest;
        rest = chunk.split_off(n);
        assert(chunk@ =~= before.take(n as int));
        assert(rest@ =~= before.skip(n as int));
        let ghost prev = batches@;
        let keys = delete_keys_of(chunk);
        if keys.len() > 0 {
            batches.push(keys);
            assert(batch_views(batches@) =~= batch_views(prev).push(keys@));
            assert(batch_views(prev) + batch_plan(before, bound as nat) =~= batch_views(batches@)
                + batch_plan(rest@, bound as nat));
        }
    }
    assert(batch_views(batches@) + batch_plan(rest@, bound as nat) =~= batch_views(batches@));
    batches
}

proof fn lemma_delete_keys_concat<V>(a: Seq<RecordKey<V>>, b: Seq<RecordKey<V>>)
    ensures
        delete_keys(a + b) == delete_keys(a) + delete_keys(b),
    decreases b.len(),
{
    if b.len() == 0 {
        assert(a + b =~= a);
        assert(delete_keys(a) + delete_keys(b) =~= delete_keys(a));
    } else {
        lemma_delete_keys_concat(a, b.drop_last());
        assert((a + b).drop_last() =~= a + b.drop_last());
        assert((a + b).last() == b.last());
        match key_of(b.last()) {
            Some(k) => {
                assert(delete_keys(a) + delete_keys(b.drop_last()).push(k) =~= (delete_keys(a)
                    + delete_keys(b.drop_last())).push(k));
            },
            None => {},
        }
    }
}

proof fn lemma_delete_keys_len<V>(s: Seq<RecordKey<V>>)
    ensures
        delete_keys(s).len() <= s.len(),
        (forall|i: int| 0 <= i < s.len() ==> #[trigger] is_well_formed(s[i])) ==> (delete_keys(
            s,
        ).len() == s.len() && forall|i: int|
            0 <= i < s.len() ==> key_of(#[trigger] s[i]) == Some(delete_keys(s)[i])),
    decreases s.len(),
{
    if s.len() > 0 {
        lemma_delete_keys_len(s.drop_last());
        if forall|i: int| 0 <= i < s.len() ==> #[trigger] is_well_formed(s[i]) {
            assert forall|i: int| 0 <= i < s.drop_last().len() implies #[trigger] is_well_formed(
                s.drop_last()[i],
            ) by {
                assert(s.drop_last()[i] == s[i]);
            }
            assert(is_well_formed(s[s.len() - 1]));
            assert forall|i: int| 0 <= i < s.len() implies key_of(#[trigger] s[i]) == Some(
                delete_keys(s)[i],
            ) by {
                if i < s.len() - 1 {
                    assert(s.drop_last()[i] == s[i]);
                }
            }
        }
    }
}

/// Every batch of the plan is non-empty and holds at most `bound` keys.
pub proof fn law_batches_bounded<V>(s: Seq<RecordKey<V>>, bound: nat)
    requires
        bound > 0,
    ensures
        forall|j: int|
            0 <= j < batch_plan(s, bound).len() ==> 0 < #[trigger] batch_plan(s, bound)[j].len()
                <= bound,
    decreases s.len(),
{
    if s.len() > 0 {
        let n = if s.len() < bound { s.len() } else { bound };
        lemma_delete_keys_len(s.take(n as int));
        law_batches_bounded(s.skip(n as int), bound);
        let keys = delete_keys(s.take(n as int));
        let rest = batch_plan(s.skip(n as int), bound);
        if keys.len() > 0 {
            assert forall|j: int| 0 <= j < batch_plan(s, bound).len() implies 0
                < #[trigger] batch_plan(s, bound)[j].len() <= bound by {
                if j > 0 {
                    assert(batch_plan(s, bound)[j] == rest[j - 1]);
                }
            }
        }
    }
}

/// Taken together, the batches hold exactly the delete keys of the
/// well-formed records of `s`, each once and in order: no record outside `s`
/// is deleted, and none of its well-formed records is missed.
pub proof fn law_batches_cover<V>(s: Seq<RecordKey<V>>, bound: nat)
    requires
        bound > 0,
    ensures
        batch_plan(s, bound).flatten() == delete_keys(s),
    decreases s.len(),
{
    if s.len() == 0 {
        assert(batch_plan(s, bound).flatten() =~= delete_keys(s));
    } else {
        let n = if s.len() < bound { s.len() } else { bound };
        let keys = delete_keys(s.take(n as int));
        let rest = batch_plan(s.skip(n as int), bound);
        law_batches_cover(s.skip(n as int), bound);
        lemma_delete_keys_concat(s.take(n as int), s.skip(n as int));
        assert(s.take(n as int) + s.skip(n as int) =~= s);
        if keys.len() > 0 {
            let p = seq![keys] + rest;
            assert(p.first() == keys);
            assert(p.drop_first() =~= rest);
        } else {
            assert(keys + rest.flatten() =~= rest.flatten());
        }
    }
}

/// A record that lacks either half of its key is in no batch: the plan
/// deletes the same keys, in the same order, as the plan for the records
/// without it.
pub proof fn law_malformed_excluded<V>(s: Seq<RecordKey<V>>, i: int, bound: nat)
    requires
        bound > 0,
        0 <= i < s.len(),
        !is_well_formed(s[i]),
    ensures
        batch_plan(s, bound).flatten() == batch_plan(s.remove(i), bound).flatten(),
{
    law_batches_cover(s, bound);
    law_batches_cover(s.remove(i), bound);
    let a = s.take(i);
    let m = seq![s[i]];
    let b = s.skip(i + 1);
    assert(s =~= (a + m) + b);
    assert(s.remove(i) =~= a + b);
    lemma_delete_keys_concat(a + m, b);
    lemma_delete_keys_concat(a, m);
    lemma_delete_keys_concat(a, b);
    assert(m.drop_last() =~= Seq::<RecordKey<V>>::empty());
    assert(delete_keys(m.drop_last()) =~= Seq::<DeleteKey<V>>::empty());
    assert(m.last() == s[i]);
    assert(key_of(m.last()) is None);
    assert(delete_keys(m) =~= Seq::<DeleteKey<V>>::empty());
    assert(delete_keys(a) + delete_keys(m) =~= delete_keys(a));
}

/// When every record of `s` is well formed, the plan makes one batch per
/// chunk, `ceil(|s| / bound)` in all, and the batches taken together hold the
/// keys of the records of `s` one for one, in order.
pub proof fn law_batch_count<V>(s: Seq<RecordKey<V>>, bound: nat)
    requires
        bound > 0,
        forall|i: int| 0 <= i < s.len() ==> #[trigger] is_well_formed(s[i]),
    ensures
        batch_plan(s, bound).len() == (s.len() + bound - 1) / (bound as int),
        batch_plan(s, bound).flatten().len() == s.len(),
        forall|i: int|
            0 <= i < s.len() ==> key_of(#[trigger] s[i]) == Some(
                batch_plan(s, bound).flatten()[i],
            ),
    decreases s.len(),
{
    law_batches_cover(s, bound);
    lemma_delete_keys_len(s);
    if s.len() > 0 {
        let n = if s.len() < bound { s.len() } else { bound };
        let t = s.take(n as int);
        let r = s.skip(n as int);
        assert forall|i: int| 0 <= i < t.len() implies #[trigger] is_well_formed(t[i]) by {
            assert(t[i] == s[i]);
        }
        assert forall|i: int| 0 <= i < r.len() implies #[trigger] is_well_formed(r[i]) by {
            assert(r[i] == s[i + n]);
        }
        lemma_delete_keys_len(t);
        law_batch_count(r, bound);
        let len = s.len() as int;
        let b = bound as int;
        if len < b {
            assert(r.len() == 0);
            assert((len + b - 1) / b == 1) by (nonlinear_arith)
                requires
                    1 <= len < b,
            ;
        } else {
            assert((len + b - 1) / b == 1 + (len - b + b - 1) / b) by (nonlinear_arith)
                requires
                    b > 0,
                    len >= b,
            ;
        }
    } else {
        assert((bound as int - 1) / (bound as int) == 0) by (nonlinear_arith)
            requires
                bound > 0,
        ;
    }
}

} // verus!
