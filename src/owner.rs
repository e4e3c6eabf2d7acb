use vstd::prelude::*;

use crate::binder::{registered, OwnerKey, StateBinder};
use crate::id::{ObjID, TypeID};
use crate::state::StateError;

verus! {

/// An entity that observes the record of one target object. Binding moves
/// it into a binder, which keeps it until it is destroyed there.
pub trait StateOwner: Sized {
    spec fn spec_obj_id(&self) -> ObjID;

    spec fn spec_type_id(&self) -> TypeID;

    fn obj_id(&self) -> (r: ObjID)
        ensures
            r == self.spec_obj_id(),
    ;

    fn type_id(&self) -> (r: TypeID)
        ensures
            r == self.spec_type_id(),
    ;

    /// Moves the owner into `binder` under its kind and target, with a
    /// handle that has no record until a dispatch, and returns its key.
    /// Fails with `InvalidTarget`, registering nothing, when the target is
    /// the invalid id. An owner is bound once: binding consumes it.
    fn bind_state<P>(self, binder: &mut StateBinder<P>) -> (r: Result<OwnerKey, StateError>)
        requires
            old(binder).wf(),
        ensures
            final(binder).wf(),
            final(binder).spec_context() == old(binder).spec_context(),
            r is Err <==> !self.spec_obj_id().spec_is_valid(),
            r is Err ==> r == Err::<OwnerKey, StateError>(StateError::InvalidTarget) && final(binder).spec_slots()
                == old(binder).spec_slots(),
            r matches Ok(key) ==> registered(
                *old(binder),
                *final(binder),
                key,
                self.spec_type_id(),
                self.spec_obj_id(),
            ),
    ;
}

/// An owner of one kind toward one target object, before it is bound.
#[derive(Debug)]
pub struct Owner {
    type_id: TypeID,
    target: ObjID,
}

impl Owner {
    /// An owner of kind `type_id` toward `target`.
    pub fn new(type_id: TypeID, target: ObjID) -> (r: Owner)
        ensures
            r.spec_type_id() == type_id,
            r.spec_obj_id() == target,
    {
        Owner { type_id, target }
    }
}

impl StateOwner for Owner {
    closed spec fn spec_obj_id(&self) -> ObjID {
        self.target
    }

    closed spec fn spec_type_id(&self) -> TypeID {
        self.type_id
    }

    fn obj_id(&self) -> (r: ObjID) {
        self.target
    }

    fn type_id(&self) -> (r: TypeID) {
        self.type_id
    }

    fn bind_state<P>(self, binder: &mut StateBinder<P>) -> (r: Result<OwnerKey, StateError>) {
        binder.register(self.type_id, self.target)
    }
}

} // verus!
