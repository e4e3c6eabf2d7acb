use vstd::prelude::*;

use crate::id::{ObjID, TypeID};
use crate::state::{StateData, StateError, StateLifecycle, StateRecord};

verus! {

/// Whether `r` is stored under the key (`type_id`, `obj_id`).
pub open spec fn has_key_at<P>(r: StateRecord<P>, type_id: TypeID, obj_id: ObjID) -> bool {
    r.type_id == type_id && r.obj_id == obj_id
}

/// Whether `i` is the first position of `recs` that holds the key.
pub open spec fn is_first_index<P>(
    recs: Seq<StateRecord<P>>,
    type_id: TypeID,
    obj_id: ObjID,
    i: int,
) -> bool {
    &&& 0 <= i < recs.len()
    &&& has_key_at(recs[i], type_id, obj_id)
    &&& forall|j: int| 0 <= j < i ==> !has_key_at(#[trigger] recs[j], type_id, obj_id)
}

pub open spec fn contains_key<P>(recs: Seq<StateRecord<P>>, type_id: TypeID, obj_id: ObjID) -> bool {
    exists|i: int| 0 <= i < recs.len() && has_key_at(#[trigger] recs[i], type_id, obj_id)
}

/// Where the record for the key stands in `recs`, if anywhere.
pub open spec fn index_of<P>(recs: Seq<StateRecord<P>>, type_id: TypeID, obj_id: ObjID) -> Option<int> {
    if exists|i: int| is_first_index(recs, type_id, obj_id, i) {
        Some(choose|i: int| is_first_index(recs, type_id, obj_id, i))
    } else {
        None
    }
}

/// No two records share a key.
pub open spec fn keys_unique<P>(recs: Seq<StateRecord<P>>) -> bool {
    forall|i: int, j: int|
        0 <= i < recs.len() && 0 <= j < recs.len() && #[trigger] recs[i].key() == #[trigger] recs[j].key()
            ==> i == j
}

/// The first match is the only first match.
pub proof fn lemma_first_index_unique<P>(
    recs: Seq<StateRecord<P>>,
    type_id: TypeID,
    obj_id: ObjID,
    i: int,
)
    requires
        is_first_index(recs, type_id, obj_id, i),
    ensures
        index_of(recs, type_id, obj_id) == Some(i),
{
    let k = choose|k: int| is_first_index(recs, type_id, obj_id, k);
    if k < i {
        assert(!has_key_at(recs[k], type_id, obj_id));
    } else if i < k {
        assert(!has_key_at(recs[i], type_id, obj_id));
    }
}

/// A key present at `w` has a first position.
proof fn lemma_first_index_exists<P>(recs: Seq<StateRecord<P>>, type_id: TypeID, obj_id: ObjID, w: int)
    requires
        0 <= w < recs.len(),
        has_key_at(recs[w], type_id, obj_id),
    ensures
        exists|k: int| is_first_index(recs, type_id, obj_id, k),
    decreases w,
{
    if exists|j: int| 0 <= j < w && has_key_at(#[trigger] recs[j], type_id, obj_id) {
        let j = choose|j: int| 0 <= j < w && has_key_at(#[trigger] recs[j], type_id, obj_id);
        lemma_first_index_exists(recs, type_id, obj_id, j);
    } else {
        assert(is_first_index(recs, type_id, obj_id, w));
    }
}

/// The index found is a match, and there is one exactly when the key is present.
pub proof fn lemma_index_of<P>(recs: Seq<StateRecord<P>>, type_id: TypeID, obj_id: ObjID)
    ensures
        index_of(recs, type_id, obj_id) is Some <==> contains_key(recs, type_id, obj_id),
        index_of(recs, type_id, obj_id) matches Some(i) ==> is_first_index(recs, type_id, obj_id, i),
{
    if contains_key(recs, type_id, obj_id) {
        let w = choose|i: int| 0 <= i < recs.len() && has_key_at(#[trigger] recs[i], type_id, obj_id);
        lemma_first_index_exists(recs, type_id, obj_id, w);
    }
    if let Some(i) = index_of(recs, type_id, obj_id) {
        assert(has_key_at(recs[i], type_id, obj_id));
    }
}

/// The records of one tick, at most one per (TypeID, ObjID), within a
/// fixed capacity. A second insertion under a present key is rejected
/// with `DuplicateKey`; nothing is ever overwritten. All records of a pool
/// share the payload type `P`: several record kinds share one pool through
/// a `P` that has a variant for each kind, told apart by their `TypeID`.
#[derive(Debug)]
pub struct StatePool<P> {
    records: Vec<StateRecord<P>>,
    capacity: usize,
}

impl<P> StatePool<P> {
    pub closed spec fn spec_records(&self) -> Seq<StateRecord<P>> {
        self.records@
    }

    pub closed spec fn spec_capacity(&self) -> nat {
        self.capacity as nat
    }

    pub open spec fn wf(&self) -> bool {
        &&& self.spec_records().len() <= self.spec_capacity()
        &&& keys_unique(self.spec_records())
        &&& forall|i: int|
            0 <= i < self.spec_records().len() ==> (#[trigger] self.spec_records()[i]).obj_id.spec_is_valid()
    }

    /// The record stored under the key, if any.
    pub open spec fn spec_get(&self, type_id: TypeID, obj_id: ObjID) -> Option<StateRecord<P>> {
        match index_of(self.spec_records(), type_id, obj_id) {
            Some(i) => Some(self.spec_records()[i]),
            None => None,
        }
    }

    /// An empty pool that holds at most `capacity` records.
    pub fn new(capacity: usize) -> (r: StatePool<P>)
        ensures
            r.wf(),
            r.spec_records() == Seq::<StateRecord<P>>::empty(),
            r.spec_capacity() == capacity,
    {
        StatePool { records: Vec::new(), capacity }
    }

    pub fn len(&self) -> (r: usize)
        ensures
            r == self.spec_records().len(),
    {
        self.records.len()
    }

    pub fn capacity(&self) -> (r: usize)
        ensures
            r == self.spec_capacity(),
    {
        self.capacity
    }

    /// The position of the record stored under the key, if any.
    pub fn find(&self, type_id: TypeID, obj_id: ObjID) -> (r: Option<usize>)
        ensures
            r matches Some(i) ==> index_of(self.spec_records(), type_id, obj_id) == Some(i as int),
            r is None ==> index_of(self.spec_records(), type_id, obj_id) is None,
    {
        let mut i: usize = 0;
        while i < self.records.len()
            invariant
                i <= self.records@.len(),
                forall|j: int| 0 <= j < i ==> !has_key_at(#[trigger] self.records@[j], type_id, obj_id),
            decreases self.records@.len() - i,
        {
            let r = &self.records[i];
            if r.type_id == type_id && r.obj_id == obj_id {
                proof {
                    lemma_first_index_unique(self.records@, type_id, obj_id, i as int);
                }
                return Some(i);
            }
            i = i + 1;
        }
        proof {
            lemma_index_of(self.records@, type_id, obj_id);
        }
        None
    }

    /// The record stored under the key, if any.
    pub fn get(&self, type_id: TypeID, obj_id: ObjID) -> (r: Option<&StateRecord<P>>)
        ensures
            r matches Some(x) ==> self.spec_get(type_id, obj_id) == Some(*x),
            r is None ==> self.spec_get(type_id, obj_id) is None,
    {
        match self.find(type_id, obj_id) {
            Some(i) => Some(&self.records[i]),
            None => None,
        }
    }

    /// The record at position `i`.
    pub fn record(&self, i: usize) -> (r: &StateRecord<P>)
        requires
            i < self.spec_records().len(),
        ensures
            *r == self.spec_records()[i as int],
    {
        &self.records[i]
    }

    /// Inserts a record of kind `type_id` for `obj_id` carrying `lifecycle`
    /// and `data`. Rejects a key already present with `DuplicateKey`, and
    /// otherwise a full pool with `CapacityExceeded`; a rejected insertion
    /// leaves the pool unchanged.
    pub fn make(
        &mut self,
        type_id: TypeID,
        obj_id: ObjID,
        lifecycle: StateLifecycle,
        data: P,
    ) -> (r: Result<(), StateError>)
        requires
            old(self).wf(),
            obj_id.spec_is_valid(),
        ensures
            final(self).wf(),
            final(self).spec_capacity() == old(self).spec_capacity(),
            contains_key(old(self).spec_records(), type_id, obj_id) ==> r == Err::<(), StateError>(
                StateError::DuplicateKey,
            ),
            !contains_key(old(self).spec_records(), type_id, obj_id) && old(self).spec_records().len()
                == old(self).spec_capacity() ==> r == Err::<(), StateError>(
                StateError::CapacityExceeded,
            ),
            r is Err ==> final(self).spec_records() == old(self).spec_records(),
            r is Ok <==> !contains_key(old(self).spec_records(), type_id, obj_id)
                && old(self).spec_records().len() < old(self).spec_capacity(),
            r is Ok ==> final(self).spec_records() == old(self).spec_records().push(
                StateRecord { obj_id, type_id, lifecycle, data },
            ),
    {
        proof {
            lemma_index_of(self.records@, type_id, obj_id);
        }
        if self.find(type_id, obj_id).is_some() {
            return Err(StateError::DuplicateKey);
        }
        if self.records.len() >= self.capacity {
            return Err(StateError::CapacityExceeded);
        }
        let rec = StateRecord::with_header(type_id, obj_id, lifecycle, data);
        self.records.push(rec);
        proof {
            let recs = self.records@;
            let n = recs.len() - 1;
            assert forall|i: int, j: int|
                0 <= i < recs.len() && 0 <= j < recs.len() && #[trigger] recs[i].key()
                    == #[trigger] recs[j].key() implies i == j by {
                if i == n && j < n {
                    assert(has_key_at(old(self).records@[j], type_id, obj_id));
                } else if j == n && i < n {
                    assert(has_key_at(old(self).records@[i], type_id, obj_id));
                } else if i < n && j < n {
                    assert(old(self).records@[i] == recs[i]);
                    assert(old(self).records@[j] == recs[j]);
                }
            }
            assert forall|i: int| 0 <= i < recs.len() implies (#[trigger] recs[i]).obj_id.spec_is_valid() by {
                if i < n {
                    assert(old(self).records@[i] == recs[i]);
                }
            }
        }
        Ok(())
    }
}

} // verus!
