//! What a function declares about itself and what a call is written with:
//! purity, mutability, call paths and unchecked expressions.

use vstd::prelude::*;
use vstd::string::*;
use sway_types::Ident;
use sway_types::Span;

verus! {

/// The storage accesses that a function declares.
#[derive(Clone, Copy, Debug, PartialEq, Eq, Hash, Structural)]
pub enum Purity {
    Pure,
    Reads,
    Writes,
    ReadsWrites,
}

/// The text of the storage attribute that declares `purity`.
pub open spec fn attribute_syntax(purity: Purity) -> Seq<char> {
    match purity {
        Purity::Pure => ""@,
        Purity::Reads => "read"@,
        Purity::Writes => "write"@,
        Purity::ReadsWrites => "read, write"@,
    }
}

/// The purity that a caller of purity `from` has to declare to call a
/// function of purity `to`: reading and writing taken together give both,
/// and a caller that declares both keeps both.
pub open spec fn promoted(from: Purity, to: Purity) -> Purity {
    match (from, to) {
        (Purity::Reads, Purity::Writes) => Purity::ReadsWrites,
        (Purity::Writes, Purity::Reads) => Purity::ReadsWrites,
        (Purity::ReadsWrites, _) => Purity::ReadsWrites,
        _ => to,
    }
}

impl Purity {
    /// Whether a function of this purity reads storage.
    pub open spec fn reads(self) -> bool {
        self == Purity::Reads || self == Purity::ReadsWrites
    }

    /// Whether a function of this purity writes storage.
    pub open spec fn writes(self) -> bool {
        self == Purity::Writes || self == Purity::ReadsWrites
    }

    /// A function may call another one when it declares every access that
    /// the other one declares.
    pub open spec fn may_call(self, other: Purity) -> bool {
        (other.reads() ==> self.reads()) && (other.writes() ==> self.writes())
    }

    /// Whether a function of this purity may call one of purity `other`.
    pub fn can_call(&self, other: Purity) -> (allowed: bool)
        ensures
            allowed == self.may_call(other),
    {
        match self {
            Purity::Pure => match other {
                Purity::Pure => true,
                _ => false,
            },
            Purity::Reads => match other {
                Purity::Pure => true,
                Purity::Reads => true,
                _ => false,
            },
            Purity::Writes => match other {
                Purity::Pure => true,
                Purity::Writes => true,
                _ => false,
            },
            Purity::ReadsWrites => true,
        }
    }

    /// How this purity is written inside a storage attribute.
    pub fn to_attribute_syntax(&self) -> (text: String)
        ensures
            text@ == attribute_syntax(*self),
    {
        match self {
            Purity::Pure => String::from_str(""),
            Purity::Reads => String::from_str("read"),
            Purity::Writes => String::from_str("write"),
            Purity::ReadsWrites => String::from_str("read, write"),
        }
    }
}

/// The purity to ask of a caller of purity `from` that calls a function of
/// purity `to`.
pub fn promote_purity(from: Purity, to: Purity) -> (purity: Purity)
    ensures
        purity == promoted(from, to),
{
    match (from, to) {
        (Purity::Reads, Purity::Writes) => Purity::ReadsWrites,
        (Purity::Writes, Purity::Reads) => Purity::ReadsWrites,
        (Purity::ReadsWrites, _) => Purity::ReadsWrites,
        _ => to,
    }
}

/// A caller that may not call a callee may call it once it declares the
/// promoted purity.
pub proof fn lemma_promoted_purity_may_call(from: Purity, to: Purity)
    requires
        !from.may_call(to),
    ensures
        promoted(from, to).may_call(to),
        promoted(from, to).may_call(from),
{
}

/// Whether a binding may be written through.
#[derive(Clone, Copy, Debug, PartialEq, Eq, Hash, Structural)]
pub enum VariableMutability {
    /// Declared `mut`.
    Mutable,
    /// Declared `ref mut`.
    RefMutable,
    /// Declared without either.
    Immutable,
    /// A constant that a module exports.
    ExportedConst,
}

impl VariableMutability {
    /// Whether the binding may be written through.
    pub open spec fn mutable(self) -> bool {
        self == VariableMutability::Mutable || self == VariableMutability::RefMutable
    }

    /// The mutability of a parameter from its two flags: a reference is
    /// `ref mut`, else `mut` counts.
    pub open spec fn from_ref_mut(is_reference: bool, is_mutable: bool) -> VariableMutability {
        if is_reference {
            VariableMutability::RefMutable
        } else if is_mutable {
            VariableMutability::Mutable
        } else {
            VariableMutability::Immutable
        }
    }

    /// The mutability of a parameter from its two flags.
    pub fn new_from_ref_mut(is_reference: bool, is_mutable: bool) -> (mutability:
        VariableMutability)
        ensures
            mutability == VariableMutability::from_ref_mut(is_reference, is_mutable),
    {
        if is_reference {
            VariableMutability::RefMutable
        } else if is_mutable {
            VariableMutability::Mutable
        } else {
            VariableMutability::Immutable
        }
    }

    /// Whether the binding may be written through.
    pub fn is_mutable(&self) -> (mutable: bool)
        ensures
            mutable == self.mutable(),
    {
        match self {
            VariableMutability::Mutable => true,
            VariableMutability::RefMutable => true,
            _ => false,
        }
    }

    /// Whether the binding may not be written through.
    pub fn is_immutable(&self) -> (immutable: bool)
        ensures
            immutable == !self.mutable(),
    {
        !self.is_mutable()
    }
}

/// The path by which a call names its callee.
#[derive(Debug, PartialEq, Eq)]
pub struct CallPath {
    /// The modules that lead to the callee.
    pub prefixes: Vec<Ident>,
    /// The callee's own name.
    pub suffix: Ident,
    /// Whether the path starts at the root of the package.
    pub is_absolute: bool,
    /// The source that the whole path covers.
    pub span: Span,
}

/// A call path as a value: its prefixes as a sequence.
pub struct CallPathView {
    pub prefixes: Seq<Ident>,
    pub suffix: Ident,
    pub is_absolute: bool,
    pub span: Span,
}

impl View for CallPath {
    type V = CallPathView;

    open spec fn view(&self) -> CallPathView {
        CallPathView {
            prefixes: self.prefixes@,
            suffix: self.suffix,
            is_absolute: self.is_absolute,
            span: self.span,
        }
    }
}

impl CallPath {
    /// The source that the path covers.
    pub fn span(&self) -> (span: Span)
        ensures
            span == self.span,
    {
        self.span.clone()
    }
}

impl Clone for CallPath {
    fn clone(&self) -> (copy: CallPath)
        ensures
            copy@ == self@,
    {
        let mut prefixes: Vec<Ident> = Vec::new();
        let mut i: usize = 0;
        while i < self.prefixes.len()
            invariant
                i <= self.prefixes.len(),
                prefixes@ == self.prefixes@.take(i as int),
            decreases self.prefixes.len() - i,
        {
            prefixes.push(self.prefixes[i].clone());
            assert(self.prefixes@.take(i + 1) =~= self.prefixes@.take(i as int).push(
                self.prefixes@[i as int],
            ));
            i += 1;
        }
        assert(self.prefixes@.take(i as int) =~= self.prefixes@);
        CallPath {
            prefixes,
            suffix: self.suffix.clone(),
            is_absolute: self.is_absolute,
            span: self.span.clone(),
        }
    }
}

/// An expression as written, before it is type checked.
#[derive(Debug, PartialEq, Eq)]
pub struct Expression {
    pub kind: ExpressionKind,
    /// The source that the expression covers.
    pub span: Span,
}

/// The forms of an expression as written.
#[derive(Debug, PartialEq, Eq)]
pub enum ExpressionKind {
    Literal(u64),
    Variable(Ident),
    Tuple(Vec<Expression>),
    FunctionApplication { call_path: CallPath, arguments: Vec<Expression> },
}

impl Expression {
    /// The source that the expression covers.
    pub fn span(&self) -> (span: Span)
        ensures
            span == self.span,
    {
        self.span.clone()
    }
}

} // verus!
