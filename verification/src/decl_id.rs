//! Identities of declarations and of types.

use vstd::prelude::*;

verus! {

/// The identity of a declaration: the slot of the declaration engine that
/// holds it. Two identities are equal exactly when they name the same slot,
/// whatever the declarations look like.
#[derive(Clone, Copy, Debug, PartialEq, Eq, Hash, Structural)]
pub struct DeclarationId {
    pub index: usize,
}

impl DeclarationId {
    /// The identity of the slot `index`.
    pub fn new(index: usize) -> (id: DeclarationId)
        ensures
            id.index == index,
    {
        DeclarationId { index }
    }

    /// The slot that this identity names.
    pub fn index(&self) -> (index: usize)
        ensures
            index == self.index,
    {
        self.index
    }
}

impl View for DeclarationId {
    type V = DeclarationId;

    open spec fn view(&self) -> DeclarationId {
        *self
    }
}

/// The identity of a type in the type engine.
#[derive(Clone, Copy, Debug, PartialEq, Eq, Hash, Structural)]
pub struct TypeId {
    pub index: usize,
}

impl TypeId {
    /// The identity of the type in slot `index`.
    pub fn new(index: usize) -> (id: TypeId)
        ensures
            id.index == index,
    {
        TypeId { index }
    }

    /// The slot that this identity names.
    pub fn index(&self) -> (index: usize)
        ensures
            index == self.index,
    {
        self.index
    }
}

} // verus!
