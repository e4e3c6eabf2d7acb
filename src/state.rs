use vstd::prelude::*;

use crate::id::{ObjID, TypeID};

verus! {

/// Provenance of a state record within one tick.
#[derive(Clone, Copy, Debug, Hash, PartialEq, Eq, Structural)]
pub enum StateLifecycle {
    Unknown,
    Created,
    Updated,
    Destroyed,
}

impl Default for StateLifecycle {
    fn default() -> (r: StateLifecycle)
        ensures
            r == StateLifecycle::Unknown,
    {
        StateLifecycle::Unknown
    }
}

/// The errors of this library.
#[derive(Clone, Copy, Debug, PartialEq, Eq, Structural)]
pub enum StateError {
    /// A bind was attempted while the handle's target is the invalid id.
    InvalidTarget,
    /// The handle is unbound, or was last dispatched against a pool that
    /// holds no record for its target.
    NotFound,
    /// A pool insertion beyond the pool's capacity.
    CapacityExceeded,
    /// A second insertion under a (TypeID, ObjID) already present in a pool.
    DuplicateKey,
}

/// A state record: what every record exposes, whatever its payload.
pub trait StateData {
    spec fn spec_obj_id(&self) -> ObjID;

    spec fn spec_type_id(&self) -> TypeID;

    spec fn spec_lifecycle(&self) -> StateLifecycle;

    fn obj_id(&self) -> (r: ObjID)
        ensures
            r == self.spec_obj_id(),
    ;

    fn type_id(&self) -> (r: TypeID)
        ensures
            r == self.spec_type_id(),
    ;

    fn lifecycle(&self) -> (r: StateLifecycle)
        ensures
            r == self.spec_lifecycle(),
    ;
}

/// One tick's state of one object of one kind: the producer's payload
/// tagged with its object, its kind and its lifecycle.
#[derive(Debug)]
pub struct StateRecord<P> {
    pub obj_id: ObjID,
    pub type_id: TypeID,
    pub lifecycle: StateLifecycle,
    pub data: P,
}

impl<P> StateRecord<P> {
    /// A record that belongs to no pool yet: both ids invalid, lifecycle
    /// `Unknown`.
    pub fn new(data: P) -> (r: StateRecord<P>)
        ensures
            !r.spec_obj_id().spec_is_valid(),
            !r.spec_type_id().spec_is_valid(),
            r.spec_lifecycle() == StateLifecycle::Unknown,
            r.data == data,
    {
        StateRecord {
            obj_id: ObjID::invalid(),
            type_id: TypeID::invalid(),
            lifecycle: StateLifecycle::Unknown,
            data,
        }
    }

    /// A record with the given header; only a pool makes these.
    pub(crate) fn with_header(
        type_id: TypeID,
        obj_id: ObjID,
        lifecycle: StateLifecycle,
        data: P,
    ) -> (r: StateRecord<P>)
        ensures
            r.spec_obj_id() == obj_id,
            r.spec_type_id() == type_id,
            r.spec_lifecycle() == lifecycle,
            r.data == data,
    {
        StateRecord { obj_id, type_id, lifecycle, data }
    }

    pub open spec fn key(&self) -> (TypeID, ObjID) {
        (self.spec_type_id(), self.spec_obj_id())
    }
}

impl<P> StateData for StateRecord<P> {
    open spec fn spec_obj_id(&self) -> ObjID {
        self.obj_id
    }

    open spec fn spec_type_id(&self) -> TypeID {
        self.type_id
    }

    open spec fn spec_lifecycle(&self) -> StateLifecycle {
        self.lifecycle
    }

    fn obj_id(&self) -> (r: ObjID) {
        self.obj_id
    }

    fn type_id(&self) -> (r: TypeID) {
        self.type_id
    }

    fn lifecycle(&self) -> (r: StateLifecycle) {
        self.lifecycle
    }
}

} // verus!
