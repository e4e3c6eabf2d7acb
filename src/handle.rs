use vstd::prelude::*;

use std::rc::Rc;

use crate::id::{ObjID, TypeID};
use crate::pool::{index_of, StatePool};
use crate::state::{StateError, StateRecord};

verus! {

/// Where a handle stands: never resolved, last resolved to nothing, or
/// sharing one record of a dispatched pool.
#[derive(Debug)]
enum Binding<P> {
    Unbound,
    Unresolved,
    Resolved(Rc<StatePool<P>>, usize),
}

/// A typed reference toward the record of one target object. Resolving it
/// is the binder's work; a resolved handle shares the pool it points into.
#[derive(Debug)]
pub struct StateRef<P> {
    target: ObjID,
    binding: Binding<P>,
}

impl<P> StateRef<P> {
    pub closed spec fn spec_target(&self) -> ObjID {
        self.target
    }

    /// Whether no dispatch has touched the handle yet.
    pub closed spec fn spec_is_unbound(&self) -> bool {
        self.binding is Unbound
    }

    /// The position, in the pool it was resolved against, of the record
    /// the handle shares.
    pub closed spec fn spec_index(&self) -> Option<int> {
        match self.binding {
            Binding::Resolved(_, i) => Some(i as int),
            _ => None,
        }
    }

    /// The record the handle shares, if it is resolved.
    pub closed spec fn spec_state(&self) -> Option<StateRecord<P>> {
        match self.binding {
            Binding::Resolved(pool, i) => Some(pool.spec_records()[i as int]),
            _ => None,
        }
    }

    pub closed spec fn wf(&self) -> bool {
        match self.binding {
            Binding::Resolved(pool, i) => i < pool.spec_records().len(),
            _ => true,
        }
    }

    /// An unbound handle toward `obj_id`; the invalid id means "never bind".
    pub fn new(obj_id: ObjID) -> (r: StateRef<P>)
        ensures
            r.wf(),
            r.spec_target() == obj_id,
            r.spec_is_unbound(),
            r.spec_state() is None,
            r.spec_index() is None,
    {
        StateRef { target: obj_id, binding: Binding::Unbound }
    }

    pub fn target(&self) -> (r: ObjID)
        ensures
            r == self.spec_target(),
    {
        self.target
    }

    /// The handle toward the same target, resolved against `pool` under
    /// the kind `type_id`: sharing the record stored there, or unresolved.
    pub(crate) fn resolved(&self, pool: &Rc<StatePool<P>>, type_id: TypeID) -> (r: StateRef<P>)
        ensures
            r.wf(),
            r.spec_target() == self.spec_target(),
            !r.spec_is_unbound(),
            r.spec_index() == index_of(pool.spec_records(), type_id, self.spec_target()),
            r.spec_state() == pool.spec_get(type_id, self.spec_target()),
    {
        proof {
            crate::pool::lemma_index_of(pool.spec_records(), type_id, self.target);
        }
        match pool.find(type_id, self.target) {
            Some(i) => StateRef { target: self.target, binding: Binding::Resolved(Rc::clone(pool), i) },
            None => StateRef { target: self.target, binding: Binding::Unresolved },
        }
    }

    /// The shared record, or `NotFound` while the handle is unbound or
    /// unresolved.
    pub fn state(&self) -> (r: Result<&StateRecord<P>, StateError>)
        requires
            self.wf(),
        ensures
            r matches Ok(x) ==> self.spec_state() == Some(*x),
            r is Err <==> self.spec_state() is None,
            r is Err ==> r == Err::<&StateRecord<P>, StateError>(StateError::NotFound),
    {
        match &self.binding {
            Binding::Resolved(pool, i) => Ok(pool.record(*i)),
            _ => Err(StateError::NotFound),
        }
    }
}

} // verus!
