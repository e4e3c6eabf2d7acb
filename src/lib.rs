//! Per-tick state synchronization: a producer fills a pool of state
//! records once per tick, and a binder resolves the handle of every bound
//! owner against that pool in one pass.

pub mod binder;
pub mod command;
pub mod handle;
pub mod id;
pub mod laws;
pub mod owner;
pub mod pool;
pub mod state;

pub use binder::{const_ptr, OwnerKey, Registration, StateBinder};
pub use command::{CmdNewCharacter, CmdNewStage, Command, Vector3};
pub use handle::StateRef;
pub use id::{ObjID, TypeID};
pub use owner::{Owner, StateOwner};
pub use pool::StatePool;
pub use state::{StateData, StateError, StateLifecycle, StateRecord};
