use vstd::prelude::*;

verus! {

/// The underlying value that no valid identifier carries.
pub const INVALID_ID: u64 = 0;

/// Identifies a simulation object across its lifetime.
#[derive(Clone, Copy, Debug, Hash, PartialEq, Eq, Structural)]
pub struct ObjID {
    pub value: u64,
}

impl ObjID {
    pub open spec fn spec_is_valid(self) -> bool {
        self.value != INVALID_ID
    }

    /// The invalid sentinel.
    pub fn invalid() -> (r: ObjID)
        ensures
            !r.spec_is_valid(),
    {
        ObjID { value: INVALID_ID }
    }

    pub fn from(value: u64) -> (r: ObjID)
        ensures
            r.value == value,
    {
        ObjID { value }
    }

    pub fn is_valid(&self) -> (r: bool)
        ensures
            r == self.spec_is_valid(),
    {
        self.value != INVALID_ID
    }
}

impl Default for ObjID {
    fn default() -> (r: ObjID)
        ensures
            !r.spec_is_valid(),
    {
        ObjID::invalid()
    }
}

/// Identifies a kind of state record.
#[derive(Clone, Copy, Debug, Hash, PartialEq, Eq, Structural)]
pub struct TypeID {
    pub value: u64,
}

impl TypeID {
    pub open spec fn spec_is_valid(self) -> bool {
        self.value != INVALID_ID
    }

    /// The invalid sentinel.
    pub fn invalid() -> (r: TypeID)
        ensures
            !r.spec_is_valid(),
    {
        TypeID { value: INVALID_ID }
    }

    pub fn from(value: u64) -> (r: TypeID)
        ensures
            r.value == value,
    {
        TypeID { value }
    }

    pub fn is_valid(&self) -> (r: bool)
        ensures
            r == self.spec_is_valid(),
    {
        self.value != INVALID_ID
    }
}

impl Default for TypeID {
    fn default() -> (r: TypeID)
        ensures
            !r.spec_is_valid(),
    {
        TypeID::invalid()
    }
}

} // verus!
