use vstd::prelude::*;

use std::rc::Rc;

use crate::id::{ObjID, TypeID};
use crate::handle::StateRef;
use crate::pool::{index_of, StatePool};
use crate::state::{StateError, StateRecord};

verus! {

/// A bound owner, as the binder keeps it: its kind, and its handle, whose
/// target is the object the owner observes.
#[derive(Debug)]
pub struct Registration<P> {
    pub type_id: TypeID,
    pub refer: StateRef<P>,
}

/// What is left to the caller of a bound owner: the identity under which
/// it stands in one binder. It cannot be copied, and destroying the owner
/// consumes it.
#[derive(Debug)]
pub struct OwnerKey {
    context: u64,
    index: usize,
}

impl OwnerKey {
    /// The execution context of the binder that issued the key.
    pub closed spec fn spec_context(&self) -> u64 {
        self.context
    }

    /// The slot of that binder that holds the owner.
    pub closed spec fn spec_index(&self) -> nat {
        self.index as nat
    }

    pub fn context(&self) -> (r: u64)
        ensures
            r == self.spec_context(),
    {
        self.context
    }

    pub fn index(&self) -> (r: usize)
        ensures
            r == self.spec_index(),
    {
        self.index
    }
}

/// The type-erased address of a bound owner, as plain integers: the
/// execution context of the binder that holds it and its slot there. Two
/// live owners never share an address within one binder.
pub fn const_ptr(key: &OwnerKey) -> (r: (u64, usize))
    ensures
        r.0 == key.spec_context(),
        r.1 == key.spec_index(),
{
    (key.context(), key.index())
}

/// How many slots hold an entry.
pub open spec fn count_bound<P>(slots: Seq<Option<Registration<P>>>) -> nat
    decreases slots.len(),
{
    if slots.len() == 0 {
        0
    } else {
        count_bound(slots.drop_last()) + if slots.last() is Some {
            1nat
        } else {
            0nat
        }
    }
}

/// Replacing one slot changes the count by what left and what came.
pub proof fn lemma_count_update<P>(slots: Seq<Option<Registration<P>>>, k: int, v: Option<Registration<P>>)
    requires
        0 <= k < slots.len(),
    ensures
        count_bound(slots.update(k, v)) + (if slots[k] is Some { 1int } else { 0int })
            == count_bound(slots) + (if v is Some { 1int } else { 0int }),
    decreases slots.len(),
{
    let s2 = slots.update(k, v);
    if k == slots.len() - 1 {
        assert(s2.drop_last() =~= slots.drop_last());
    } else {
        assert(s2.drop_last() =~= slots.drop_last().update(k, v));
        lemma_count_update(slots.drop_last(), k, v);
    }
}

/// The count is at most the number of slots, and zero exactly when every
/// slot is empty.
pub proof fn lemma_count_zero<P>(slots: Seq<Option<Registration<P>>>)
    ensures
        count_bound(slots) <= slots.len(),
        count_bound(slots) == 0 <==> forall|k: int| 0 <= k < slots.len() ==> (#[trigger] slots[k]) is None,
    decreases slots.len(),
{
    if slots.len() > 0 {
        lemma_count_zero(slots.drop_last());
        if count_bound(slots) == 0 {
            assert forall|k: int| 0 <= k < slots.len() implies (#[trigger] slots[k]) is None by {
                if k < slots.len() - 1 {
                    assert(slots.drop_last()[k] == slots[k]);
                }
            }
        }
        if forall|k: int| 0 <= k < slots.len() ==> (#[trigger] slots[k]) is None {
            assert forall|k: int| 0 <= k < slots.drop_last().len() implies (#[trigger] slots.drop_last()[k]) is None by {
                assert(slots.drop_last()[k] == slots[k]);
            }
            assert(slots[slots.len() - 1] is None);
        }
    }
}

/// Every entry has a handle toward a valid target, and a record it shares
/// is stored under the entry's kind and target.
pub open spec fn entries_ok<P>(slots: Seq<Option<Registration<P>>>) -> bool {
    forall|k: int|
        0 <= k < slots.len() ==> match #[trigger] slots[k] {
            Some(reg) => {
                &&& reg.refer.wf()
                &&& reg.refer.spec_target().spec_is_valid()
                &&& reg.refer.spec_state() matches Some(x) ==> x.type_id == reg.type_id && x.obj_id
                    == reg.refer.spec_target()
            },
            None => true,
        }
}

/// The free list names distinct empty slots.
pub open spec fn free_ok<P>(slots: Seq<Option<Registration<P>>>, free: Seq<usize>) -> bool {
    &&& forall|f: int| 0 <= f < free.len() ==> #[trigger] free[f] < slots.len() && slots[free[f] as int] is None
    &&& forall|a: int, b: int| 0 <= a < free.len() && 0 <= b < free.len() && a != b ==> #[trigger] free[a] != #[trigger] free[b]
}

/// The bound owners of one execution context, and the pass that resolves
/// all of them against a new pool.
///
/// The binder owns what a bound owner is: its kind and its handle. Binding
/// moves an `Owner` in and hands back its `OwnerKey`; destroying it
/// (`unregister`) takes its entry out, so no entry outlives its owner and
/// the registry never refers to anything outside itself. Resolved handles
/// share their pool through `Rc`, which also keeps a binder on the thread
/// that made it. Empty slots are kept on a free list for reuse.
#[derive(Debug)]
pub struct StateBinder<P> {
    context: u64,
    slots: Vec<Option<Registration<P>>>,
    free: Vec<usize>,
    count: usize,
}

impl<P> StateBinder<P> {
    pub closed spec fn spec_context(&self) -> u64 {
        self.context
    }

    pub closed spec fn spec_slots(&self) -> Seq<Option<Registration<P>>> {
        self.slots@
    }

    /// How many owners are bound.
    pub open spec fn spec_count(&self) -> nat {
        count_bound(self.spec_slots())
    }

    /// The entry at `k`, if `k` is a slot that holds one.
    pub open spec fn entry(&self, k: int) -> Option<Registration<P>> {
        if 0 <= k < self.spec_slots().len() {
            self.spec_slots()[k]
        } else {
            None
        }
    }

    /// The entry of the owner that `key` names, if this binder issued the
    /// key and the owner is alive.
    pub open spec fn entry_of(&self, key: &OwnerKey) -> Option<Registration<P>> {
        if key.spec_context() == self.spec_context() {
            self.entry(key.spec_index() as int)
        } else {
            None
        }
    }

    pub closed spec fn wf(&self) -> bool {
        &&& self.count == count_bound(self.slots@)
        &&& entries_ok(self.slots@)
        &&& free_ok(self.slots@, self.free@)
    }

    /// An empty registry for the execution context `context`.
    pub fn new(context: u64) -> (r: StateBinder<P>)
        ensures
            r.wf(),
            r.spec_context() == context,
            r.spec_slots() == Seq::<Option<Registration<P>>>::empty(),
    {
        StateBinder { context, slots: Vec::new(), free: Vec::new(), count: 0 }
    }

    pub fn context(&self) -> (r: u64)
        ensures
            r == self.spec_context(),
    {
        self.context
    }

    /// How many owners are bound.
    pub fn refers_count(&self) -> (r: usize)
        requires
            self.wf(),
        ensures
            r == self.spec_count(),
    {
        self.count
    }

    /// Binds an owner of kind `type_id` toward `target`, with an unbound
    /// handle that has no record, in a free slot; fails with
    /// `InvalidTarget`, registering nothing, when `target` is the invalid id.
    pub fn register(&mut self, type_id: TypeID, target: ObjID) -> (r: Result<OwnerKey, StateError>)
        requires
            old(self).wf(),
        ensures
            final(self).wf(),
            final(self).spec_context() == old(self).spec_context(),
            r is Err <==> !target.spec_is_valid(),
            r is Err ==> r == Err::<OwnerKey, StateError>(StateError::InvalidTarget) && final(self).spec_slots()
                == old(self).spec_slots(),
            r matches Ok(key) ==> registered(*old(self), *final(self), key, type_id, target),
    {
        if !target.is_valid() {
            return Err(StateError::InvalidTarget);
        }
        let reg = Registration { type_id, refer: StateRef::new(target) };
        let ghost prev = self.slots@;
        let ghost prev_free = self.free@;
        let i: usize;
        match self.free.pop() {
            Some(f) => {
                i = f;
                proof {
                    assert(prev_free[prev_free.len() - 1] == f);
                    lemma_count_update(self.slots@, i as int, Some(reg));
                }
                self.slots.set(i, Some(reg));
            },
            None => {
                i = self.slots.len();
                self.slots.push(Some(reg));
                proof {
                    assert(self.slots@.drop_last() =~= prev);
                    assert(count_bound(self.slots@) == count_bound(prev) + 1);
                }
            },
        }
        proof {
            assert(count_bound(self.slots@) == count_bound(prev) + 1);
            lemma_count_zero(self.slots@);
            assert forall|k: int| 0 <= k < self.slots@.len() && k != i implies #[trigger] self.slots@[k] == prev[k] by {}
            assert forall|f: int| 0 <= f < self.free@.len() implies #[trigger] self.free@[f] < self.slots@.len()
                && self.slots@[self.free@[f] as int] is None by {
                assert(self.free@[f] == prev_free[f]);
                assert(prev_free[f] != prev_free[prev_free.len() - 1]);
            }
            assert(free_ok(self.slots@, self.free@));
        }
        let len = self.slots.len();
        proof {
            assert(self.count < len);
        }
        self.count = self.count + 1;
        Ok(OwnerKey { context: self.context, index: i })
    }

    /// Destroys the bound owner that `key` names: its entry, all that the
    /// owner is, leaves the registry. A key that this binder did not issue
    /// destroys nothing.
    pub fn unregister(&mut self, key: OwnerKey) -> (r: bool)
        requires
            old(self).wf(),
        ensures
            final(self).wf(),
            final(self).spec_context() == old(self).spec_context(),
            r == old(self).entry_of(&key) is Some,
            r ==> final(self).spec_slots() == old(self).spec_slots().update(key.spec_index() as int, None)
                && final(self).spec_count() + 1 == old(self).spec_count(),
            !r ==> final(self).spec_slots() == old(self).spec_slots(),
    {
        let (context, i) = const_ptr(&key);
        if context == self.context && i < self.slots.len() && self.slots[i].is_some() {
            let ghost prev_free = self.free@;
            proof {
                lemma_count_update(self.slots@, i as int, None);
            }
            self.slots.set(i, None);
            self.free.push(i);
            proof {
                assert forall|f: int| 0 <= f < self.free@.len() implies #[trigger] self.free@[f] < self.slots@.len()
                    && self.slots@[self.free@[f] as int] is None by {
                    if f < prev_free.len() {
                        assert(self.free@[f] == prev_free[f]);
                    }
                }
                assert forall|a: int, b: int| 0 <= a < self.free@.len() && 0 <= b < self.free@.len() && a != b
                    implies #[trigger] self.free@[a] != #[trigger] self.free@[b] by {
                    if a < prev_free.len() {
                        assert(self.free@[a] == prev_free[a]);
                    }
                    if b < prev_free.len() {
                        assert(self.free@[b] == prev_free[b]);
                    }
                }
                assert forall|k: int| 0 <= k < self.slots@.len() implies match #[trigger] self.slots@[k] {
                    Some(reg) => {
                        &&& reg.refer.wf()
                        &&& reg.refer.spec_target().spec_is_valid()
                        &&& reg.refer.spec_state() matches Some(x) ==> x.type_id == reg.type_id && x.obj_id
                            == reg.refer.spec_target()
                    },
                    None => true,
                } by {
                    if k != i {
                        assert(self.slots@[k] == old(self).slots@[k]);
                    }
                }
            }
            self.count = self.count - 1;
            true
        } else {
            false
        }
    }

    /// The handle of the owner that `key` names.
    pub fn refer(&self, key: &OwnerKey) -> (r: Option<&StateRef<P>>)
        requires
            self.wf(),
        ensures
            r matches Some(h) ==> self.entry_of(key) matches Some(reg) && *h == reg.refer && h.wf(),
            r is None <==> self.entry_of(key) is None,
    {
        let (context, i) = const_ptr(key);
        if context == self.context && i < self.slots.len() {
            match &self.slots[i] {
                Some(reg) => Some(&reg.refer),
                None => None,
            }
        } else {
            None
        }
    }

    /// The record shared by the owner that `key` names, which is stored
    /// under the owner's kind and target; `NotFound` when the key names no
    /// live owner here or its handle is unbound or unresolved.
    pub fn state(&self, key: &OwnerKey) -> (r: Result<&StateRecord<P>, StateError>)
        requires
            self.wf(),
        ensures
            r matches Ok(x) ==> self.entry_of(key) matches Some(reg) && reg.refer.spec_state() == Some(*x)
                && x.type_id == reg.type_id && x.obj_id == reg.refer.spec_target(),
            r is Err <==> !(self.entry_of(key) matches Some(reg) && reg.refer.spec_state() is Some),
            r is Err ==> r == Err::<&StateRecord<P>, StateError>(StateError::NotFound),
    {
        match self.refer(key) {
            Some(h) => h.state(),
            None => Err(StateError::NotFound),
        }
    }

    /// Resolves every bound owner's handle against `pool`, which then
    /// backs every handle resolved into it: a handle shares the record
    /// stored under its owner's kind and target, or becomes unresolved.
    /// Which owners are bound does not change.
    pub fn dispatch(&mut self, pool: StatePool<P>)
        requires
            old(self).wf(),
        ensures
            final(self).wf(),
            final(self).spec_context() == old(self).spec_context(),
            final(self).spec_count() == old(self).spec_count(),
            dispatch_result(old(self).spec_slots(), final(self).spec_slots(), pool),
    {
        let shared = Rc::new(pool);
        let n = self.slots.len();
        let mut i: usize = 0;
        while i < n
            invariant
                n == self.slots@.len() == old(self).slots@.len(),
                i <= n,
                *shared == pool,
                self.wf(),
                self.count == old(self).count,
                self.context == old(self).context,
                forall|k: int| 0 <= k < i ==> #[trigger] dispatched(old(self).slots@[k], self.slots@[k], pool),
                forall|k: int| i <= k < n ==> #[trigger] self.slots@[k] == old(self).slots@[k],
            decreases n - i,
        {
            let next = match &self.slots[i] {
                Some(reg) => {
                    proof {
                        crate::pool::lemma_index_of(shared.spec_records(), reg.type_id, reg.refer.spec_target());
                    }
                    Some(Registration { type_id: reg.type_id, refer: reg.refer.resolved(&shared, reg.type_id) })
                },
                None => None,
            };
            let ghost prev = self.slots@;
            proof {
                lemma_count_update(self.slots@, i as int, next);
            }
            self.slots.set(i, next);
            proof {
                assert forall|k: int| 0 <= k < self.slots@.len() implies match #[trigger] self.slots@[k] {
                    Some(reg) => {
                        &&& reg.refer.wf()
                        &&& reg.refer.spec_target().spec_is_valid()
                        &&& reg.refer.spec_state() matches Some(x) ==> x.type_id == reg.type_id && x.obj_id
                            == reg.refer.spec_target()
                    },
                    None => true,
                } by {
                    if k != i {
                        assert(self.slots@[k] == prev[k]);
                    }
                }
                assert forall|f: int| 0 <= f < self.free@.len() implies #[trigger] self.free@[f] < self.slots@.len()
                    && self.slots@[self.free@[f] as int] is None by {
                    assert(prev[self.free@[f] as int] is None);
                }
            }
            i = i + 1;
        }
    }
}

/// What `register` makes of a binder for an owner of kind `type_id`
/// toward `target`: a fresh entry, unbound and with no record, in a slot
/// that was empty or new; every other slot as it was; one more owner.
pub open spec fn registered<P>(
    before: StateBinder<P>,
    after: StateBinder<P>,
    key: OwnerKey,
    type_id: TypeID,
    target: ObjID,
) -> bool {
    let k = key.spec_index() as int;
    &&& key.spec_context() == before.spec_context()
    &&& before.entry(k) is None
    &&& k <= before.spec_slots().len()
    &&& after.spec_slots().len() == if k == before.spec_slots().len() {
        before.spec_slots().len() + 1
    } else {
        before.spec_slots().len() + 0
    }
    &&& after.entry_of(&key) matches Some(reg) && reg.type_id == type_id && reg.refer.spec_target() == target
        && reg.refer.spec_is_unbound() && reg.refer.spec_state() is None
    &&& forall|j: int|
        0 <= j < before.spec_slots().len() && j != k ==> #[trigger] after.spec_slots()[j] == before.spec_slots()[j]
    &&& after.spec_count() == before.spec_count() + 1
}

/// What dispatch over `pool` makes of the slots: each as `dispatched` says.
pub open spec fn dispatch_result<P>(
    before: Seq<Option<Registration<P>>>,
    after: Seq<Option<Registration<P>>>,
    pool: StatePool<P>,
) -> bool {
    &&& after.len() == before.len()
    &&& forall|k: int| 0 <= k < before.len() ==> #[trigger] dispatched(before[k], after[k], pool)
}

/// What dispatch over `pool` makes of one slot: an empty slot stays empty;
/// an entry keeps its kind and target, and its handle shares the record
/// stored under them in `pool`, or is unresolved when there is none.
pub open spec fn dispatched<P>(
    before: Option<Registration<P>>,
    after: Option<Registration<P>>,
    pool: StatePool<P>,
) -> bool {
    match before {
        None => after is None,
        Some(b) => after matches Some(a) && a.type_id == b.type_id && a.refer.spec_target()
            == b.refer.spec_target() && !a.refer.spec_is_unbound() && a.refer.spec_index() == index_of(
            pool.spec_records(),
            b.type_id,
            b.refer.spec_target(),
        ) && a.refer.spec_state() == pool.spec_get(b.type_id, b.refer.spec_target()),
    }
}

} // verus!
