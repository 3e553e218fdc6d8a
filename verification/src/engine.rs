//! The declaration engine: the table that owns every declaration and hands
//! out the identities that name them.

use vstd::prelude::*;
use crate::decl_id::DeclarationId;
use crate::ty::Declaration;
use crate::ty::DeclarationView;
use crate::ty::TyFunctionDeclaration;

verus! {

/// The declarations of a program, each in the slot that its identity names.
/// Declarations are added and never moved, changed or removed.
#[derive(Debug, PartialEq, Eq)]
pub struct DeclarationEngine {
    pub slots: Vec<Declaration>,
}

impl View for DeclarationEngine {
    type V = Seq<DeclarationView>;

    open spec fn view(&self) -> Seq<DeclarationView> {
        self.slots@.map_values(|declaration: Declaration| declaration@)
    }
}

impl DeclarationEngine {
    /// The engine without any declaration.
    pub fn new() -> (engine: DeclarationEngine)
        ensures
            engine@ == Seq::<DeclarationView>::empty(),
    {
        let engine = DeclarationEngine { slots: Vec::new() };
        assert(engine@ =~= Seq::empty());
        engine
    }

    /// The number of declarations.
    pub fn len(&self) -> (len: usize)
        ensures
            len == self@.len(),
    {
        self.slots.len()
    }

    /// Whether `id` names a declaration of this engine.
    pub open spec fn holds(&self, id: DeclarationId) -> bool {
        id.index < self@.len()
    }

    /// Stores `declaration` in a new slot and hands back the identity of
    /// that slot. Every other slot stays as it is.
    pub fn insert(&mut self, declaration: Declaration) -> (id: DeclarationId)
        ensures
            id.index == old(self)@.len(),
            final(self)@ == old(self)@.push(declaration@),
    {
        let index = self.slots.len();
        self.slots.push(declaration);
        assert(self@ =~= old(self)@.push(declaration@));
        DeclarationId::new(index)
    }

    /// Stores a function declaration in a new slot and hands back the
    /// identity of that slot.
    pub fn insert_function(&mut self, function_decl: TyFunctionDeclaration) -> (id: DeclarationId)
        ensures
            id.index == old(self)@.len(),
            final(self)@ == old(self)@.push(DeclarationView::Function(function_decl@)),
    {
        self.insert(Declaration::Function(function_decl))
    }

    /// The declaration that `id` names, if it names one of this engine.
    pub fn get(&self, id: &DeclarationId) -> (found: Option<&Declaration>)
        ensures
            found is Some <==> self.holds(*id),
            found matches Some(declaration) ==> declaration@ == self@[id.index as int],
    {
        if id.index < self.slots.len() {
            Some(&self.slots[id.index])
        } else {
            None
        }
    }

    /// The function declaration that `id` names, if it names a function of
    /// this engine.
    pub fn get_function(&self, id: &DeclarationId) -> (found: Option<&TyFunctionDeclaration>)
        ensures
            found is Some <==> self.holds(*id) && self@[id.index as int] is Function,
            found matches Some(function_decl) ==> DeclarationView::Function(function_decl@)
                == self@[id.index as int],
    {
        match self.get(id) {
            Some(Declaration::Function(function_decl)) => Some(function_decl),
            _ => None,
        }
    }
}

impl Clone for DeclarationEngine {
    fn clone(&self) -> (copy: DeclarationEngine)
        ensures
            copy@ == self@,
    {
        let mut slots: Vec<Declaration> = Vec::new();
        let mut i: usize = 0;
        while i < self.slots.len()
            invariant
                i <= self.slots.len(),
                slots@.len() == i,
                forall|j: int| 0 <= j < i ==> (#[trigger] slots@[j])@ == self.slots@[j]@,
            decreases self.slots.len() - i,
        {
            slots.push(self.slots[i].clone());
            i += 1;
        }
        let copy = DeclarationEngine { slots };
        assert(copy@ =~= self@);
        copy
    }
}

/// An identity that an engine hands out names none of its earlier slots, and
/// storing a declaration leaves each earlier slot as it was.
pub proof fn lemma_insert_is_fresh(
    before: Seq<DeclarationView>,
    declaration: DeclarationView,
    id: DeclarationId,
    earlier: DeclarationId,
)
    requires
        id.index == before.len(),
        earlier.index < before.len(),
    ensures
        id != earlier,
        before.push(declaration)[earlier.index as int] == before[earlier.index as int],
        before.push(declaration)[id.index as int] == declaration,
{
}

} // verus!
