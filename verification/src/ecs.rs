//! The scheduler's view of the scene graph: handles, the mesh component
//! record, and the error taxonomy of scene operations.
//!
//! Only what the frame loop and its jobs touch lives here; the scene storage
//! itself belongs to the entity-component subsystem.

use vstd::prelude::*;

verus! {

use vstd::string::*;

/// Why a scene operation failed.
#[derive(Clone, Debug, PartialEq, Eq)]
pub enum EcsError {
    InvalidOperation(String),
    ObjectIsDestroyed,
    OutOfBounds,
    OutOfMemory,
    TypeDoesNotMatchId,
}

/// Outcome of a scene operation.
pub type EcsResult<T> = Result<T, EcsError>;

impl EcsError {
    /// A human-readable description of the failure.
    pub fn message(&self) -> (message: String)
        ensures
            *self matches EcsError::InvalidOperation(reason) ==> message@ == "invalid operation: "@
                + reason@,
            *self is ObjectIsDestroyed ==> message@ == "object is destroyed"@,
            *self is OutOfBounds ==> message@ == "operation was out of bounds"@,
            *self is OutOfMemory ==> message@ == "out of memory"@,
            *self is TypeDoesNotMatchId ==> message@ == "type does not match the id"@,
    {
        match self {
            EcsError::InvalidOperation(reason) => String::from_str("invalid operation: ").concat(
                reason.as_str(),
            ),
            EcsError::ObjectIsDestroyed => String::from_str("object is destroyed"),
            EcsError::OutOfBounds => String::from_str("operation was out of bounds"),
            EcsError::OutOfMemory => String::from_str("out of memory"),
            EcsError::TypeDoesNotMatchId => String::from_str("type does not match the id"),
        }
    }
}

/// A handle to a game object: slot index plus generation, so a reused slot
/// invalidates stale handles.  The all-zero handle is the null handle.
#[derive(Clone, Copy, PartialEq, Eq, Structural, Debug)]
pub struct GameObjectHandle {
    pub index: u64,
    pub generation: u64,
}

impl GameObjectHandle {
    /// Whether this is the null handle.
    pub open spec fn is_null_spec(self) -> bool {
        self.index == 0 && self.generation == 0
    }

    /// The null handle: points at no game object.
    pub fn null() -> (handle: Self)
        ensures
            handle.is_null_spec(),
    {
        GameObjectHandle { index: 0, generation: 0 }
    }

    /// Whether this is the null handle.
    pub fn is_null(&self) -> (null: bool)
        ensures
            null == self.is_null_spec(),
    {
        self.index == 0 && self.generation == 0
    }
}

/// The mesh component: ties a renderable mesh to the game object that owns
/// it.
#[derive(Clone, Copy, PartialEq, Eq, Structural, Debug)]
pub struct MeshComponent {
    game_object: GameObjectHandle,
}

impl MeshComponent {
    /// The owning game object.
    pub closed spec fn game_object_spec(self) -> GameObjectHandle {
        self.game_object
    }

    /// A component owned by `game_object`.
    pub fn create(game_object: GameObjectHandle) -> (component: Self)
        ensures
            component.game_object_spec() == game_object,
    {
        MeshComponent { game_object }
    }

    /// Releases the component's scene resources; the record itself holds
    /// none, so nothing changes.
    pub fn destroy(&mut self)
        ensures
            *final(self) == *old(self),
    {
    }

    /// The owning game object.
    pub fn game_object(&self) -> (handle: GameObjectHandle)
        ensures
            handle == self.game_object_spec(),
    {
        self.game_object
    }
}

impl Default for MeshComponent {
    /// An unattached component: owned by the null handle.
    fn default() -> (component: Self)
        ensures
            component.game_object_spec().is_null_spec(),
    {
        MeshComponent { game_object: GameObjectHandle::null() }
    }
}

} // verus!
