use vstd::prelude::*;

use crate::binder::{dispatch_result, Registration};
use crate::id::{ObjID, TypeID};
use crate::pool::{contains_key, index_of, lemma_first_index_unique, lemma_index_of, StatePool};
use crate::state::{StateLifecycle, StateRecord};

verus! {

/// Owners bound under the same kind and target share one record after a
/// dispatch over a pool that holds that key: the same position of the
/// same pool.
pub proof fn law_shared_record<P>(
    before: Seq<Option<Registration<P>>>,
    after: Seq<Option<Registration<P>>>,
    pool: StatePool<P>,
    k1: int,
    k2: int,
)
    requires
        dispatch_result(before, after, pool),
        0 <= k1 < before.len(),
        0 <= k2 < before.len(),
        before[k1] matches Some(a) && before[k2] matches Some(b) && a.type_id == b.type_id
            && a.refer.spec_target() == b.refer.spec_target() && contains_key(
            pool.spec_records(),
            a.type_id,
            a.refer.spec_target(),
        ),
    ensures
        after[k1] matches Some(x) && after[k2] matches Some(y) && x.refer.spec_state() is Some
            && x.refer.spec_state() == y.refer.spec_state() && x.refer.spec_index() == y.refer.spec_index(),
{
    assert(crate::binder::dispatched(before[k1], after[k1], pool));
    assert(crate::binder::dispatched(before[k2], after[k2], pool));
    let a = before[k1].unwrap();
    lemma_index_of(pool.spec_records(), a.type_id, a.refer.spec_target());
}

/// After a dispatch, an owner whose target the pool does not hold under
/// its kind has no record.
pub proof fn law_absent_target_unresolved<P>(
    before: Seq<Option<Registration<P>>>,
    after: Seq<Option<Registration<P>>>,
    pool: StatePool<P>,
    k: int,
)
    requires
        dispatch_result(before, after, pool),
        0 <= k < before.len(),
        before[k] matches Some(a) && !contains_key(pool.spec_records(), a.type_id, a.refer.spec_target()),
    ensures
        after[k] matches Some(x) && x.refer.spec_state() is None && !x.refer.spec_is_unbound(),
{
    assert(crate::binder::dispatched(before[k], after[k], pool));
    let a = before[k].unwrap();
    lemma_index_of(pool.spec_records(), a.type_id, a.refer.spec_target());
}

/// A record inserted into a pool and dispatched reads back, through an
/// owner bound to its kind and object, with exactly the lifecycle and the
/// data it was inserted with.
pub proof fn law_round_trip<P>(
    filled: StatePool<P>,
    pool: StatePool<P>,
    type_id: TypeID,
    obj_id: ObjID,
    lifecycle: StateLifecycle,
    data: P,
    before: Seq<Option<Registration<P>>>,
    after: Seq<Option<Registration<P>>>,
    k: int,
)
    requires
        !contains_key(filled.spec_records(), type_id, obj_id),
        pool.spec_records() == filled.spec_records().push(StateRecord { obj_id, type_id, lifecycle, data }),
        dispatch_result(before, after, pool),
        0 <= k < before.len(),
        before[k] matches Some(a) && a.type_id == type_id && a.refer.spec_target() == obj_id,
    ensures
        after[k] matches Some(x) && x.refer.spec_state() == Some(
            StateRecord { obj_id, type_id, lifecycle, data },
        ),
{
    assert(crate::binder::dispatched(before[k], after[k], pool));
    let recs = pool.spec_records();
    let n = filled.spec_records().len() as int;
    assert forall|j: int| 0 <= j < n implies !crate::pool::has_key_at(#[trigger] recs[j], type_id, obj_id) by {
        assert(recs[j] == filled.spec_records()[j]);
    }
    lemma_first_index_unique(recs, type_id, obj_id, n);
    assert(index_of(recs, type_id, obj_id) == Some(n));
}

/// A second dispatch over a pool that no longer holds an owner's key
/// takes away the record the first dispatch gave it.
pub proof fn law_redispatch_drops_stale<P>(
    first: Seq<Option<Registration<P>>>,
    second: Seq<Option<Registration<P>>>,
    third: Seq<Option<Registration<P>>>,
    pool1: StatePool<P>,
    pool2: StatePool<P>,
    k: int,
)
    requires
        dispatch_result(first, second, pool1),
        dispatch_result(second, third, pool2),
        0 <= k < first.len(),
        first[k] matches Some(a) && contains_key(pool1.spec_records(), a.type_id, a.refer.spec_target())
            && !contains_key(pool2.spec_records(), a.type_id, a.refer.spec_target()),
    ensures
        second[k] matches Some(x) && x.refer.spec_state() is Some,
        third[k] matches Some(y) && y.refer.spec_state() is None,
{
    assert(crate::binder::dispatched(first[k], second[k], pool1));
    assert(crate::binder::dispatched(second[k], third[k], pool2));
    let a = first[k].unwrap();
    lemma_index_of(pool1.spec_records(), a.type_id, a.refer.spec_target());
    lemma_index_of(pool2.spec_records(), a.type_id, a.refer.spec_target());
}

} // verus!
