use vstd::prelude::*;

verus! {

/// A point in simulation space, each coordinate in raw fixed-point units.
#[derive(Clone, Copy, Debug, PartialEq, Eq, Structural)]
pub struct Vector3 {
    pub x: i64,
    pub y: i64,
    pub z: i64,
}

impl Vector3 {
    pub fn new(x: i64, y: i64, z: i64) -> (r: Vector3)
        ensures
            r == (Vector3 { x, y, z }),
    {
        Vector3 { x, y, z }
    }
}

/// A request to the simulation layer.
#[derive(Clone, Copy, Debug, PartialEq, Eq, Structural)]
pub enum Command {
    NewStage(CmdNewStage),
    NewCharacter(CmdNewCharacter),
}

/// Start a new stage.
#[derive(Clone, Copy, Debug, PartialEq, Eq, Structural)]
pub struct CmdNewStage {}

/// Put a new character at `position`.
#[derive(Clone, Copy, Debug, PartialEq, Eq, Structural)]
pub struct CmdNewCharacter {
    pub position: Vector3,
}

} // verus!
