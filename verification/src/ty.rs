//! The typed syntax tree: what type checking makes of a program. Each node
//! type has a view, the same tree as a value with sequences for lists, and
//! the contracts speak of the views.

use vstd::prelude::*;
use sway_types::Ident;
use sway_types::Span;
use crate::decl_id::DeclarationId;
use crate::decl_id::TypeId;
use crate::language::CallPath;
use crate::language::CallPathView;
use crate::language::Purity;
use crate::language::VariableMutability;

verus! {

/// A type checked expression.
#[derive(Debug, PartialEq, Eq)]
pub struct TyExpression {
    pub expression: TyExpressionVariant,
    /// The type that the expression evaluates to.
    pub return_type: TypeId,
    /// The source that the expression covers.
    pub span: Span,
}

/// The forms of a type checked expression.
#[derive(Debug, PartialEq, Eq)]
pub enum TyExpressionVariant {
    Literal(u64),
    VariableExpression { name: Ident, mutability: VariableMutability },
    /// A call: each argument goes with the name of its parameter, and the
    /// callee is named by its identity.
    FunctionApplication {
        call_path: CallPath,
        arguments: Vec<(Ident, TyExpression)>,
        function_decl_id: DeclarationId,
    },
    Tuple { fields: Vec<TyExpression> },
    CodeBlock(TyCodeBlock),
    IfExp {
        condition: Box<TyExpression>,
        then: Box<TyExpression>,
        otherwise: Option<Box<TyExpression>>,
    },
}

/// A block of nodes.
#[derive(Debug, PartialEq, Eq)]
pub struct TyCodeBlock {
    pub contents: Vec<TyAstNode>,
}

/// One node of a block.
#[derive(Debug, PartialEq, Eq)]
pub enum TyAstNode {
    VariableDeclaration { name: Ident, body: TyExpression, mutability: VariableMutability },
    /// A function declared inside the block, named by its identity.
    FunctionDeclaration(DeclarationId),
    Expression(TyExpression),
    ImplicitReturnExpression(TyExpression),
    SideEffect,
}

/// A parameter of a function.
#[derive(Debug, PartialEq, Eq)]
pub struct TyFunctionParameter {
    pub name: Ident,
    pub is_reference: bool,
    pub is_mutable: bool,
    pub type_id: TypeId,
}

/// A bound on a type parameter: the trait that the type has to implement,
/// by its name and by the identity of its declaration.
#[derive(Debug, PartialEq, Eq)]
pub struct TraitConstraint {
    pub trait_name: Ident,
    pub trait_decl_id: DeclarationId,
}

/// A generic parameter of a function with its bounds.
#[derive(Debug, PartialEq, Eq)]
pub struct TypeParameter {
    pub type_id: TypeId,
    pub name_ident: Ident,
    pub trait_constraints: Vec<TraitConstraint>,
}

/// A function declaration.
#[derive(Debug, PartialEq, Eq)]
pub struct TyFunctionDeclaration {
    pub name: Ident,
    pub body: TyCodeBlock,
    pub parameters: Vec<TyFunctionParameter>,
    pub span: Span,
    pub return_type: TypeId,
    pub type_parameters: Vec<TypeParameter>,
    pub purity: Purity,
}

/// The signature of a method as a trait declares it.
#[derive(Debug, PartialEq, Eq)]
pub struct TyTraitFn {
    pub name: Ident,
    pub purity: Purity,
    pub parameters: Vec<TyFunctionParameter>,
    pub return_type: TypeId,
}

/// What a slot of the declaration engine holds.
#[derive(Debug, PartialEq, Eq)]
pub enum Declaration {
    Function(TyFunctionDeclaration),
    TraitFn(TyTraitFn),
}

/// A [`TyExpression`] as a value.
pub struct TyExpressionView {
    pub expression: TyExpressionVariantView,
    pub return_type: TypeId,
    pub span: Span,
}

/// A [`TyExpressionVariant`] as a value.
pub enum TyExpressionVariantView {
    Literal(u64),
    VariableExpression { name: Ident, mutability: VariableMutability },
    FunctionApplication {
        call_path: CallPathView,
        arguments: Seq<(Ident, TyExpressionView)>,
        function_decl_id: DeclarationId,
    },
    Tuple { fields: Seq<TyExpressionView> },
    CodeBlock(TyCodeBlockView),
    IfExp {
        condition: Box<TyExpressionView>,
        then: Box<TyExpressionView>,
        otherwise: Option<Box<TyExpressionView>>,
    },
}

/// A [`TyCodeBlock`] as a value.
pub struct TyCodeBlockView {
    pub contents: Seq<TyAstNodeView>,
}

/// A [`TyAstNode`] as a value.
pub enum TyAstNodeView {
    VariableDeclaration { name: Ident, body: TyExpressionView, mutability: VariableMutability },
    FunctionDeclaration(DeclarationId),
    Expression(TyExpressionView),
    ImplicitReturnExpression(TyExpressionView),
    SideEffect,
}

/// A [`TypeParameter`] as a value.
pub struct TypeParameterView {
    pub type_id: TypeId,
    pub name_ident: Ident,
    pub trait_constraints: Seq<TraitConstraint>,
}

/// A [`TyFunctionDeclaration`] as a value.
pub struct TyFunctionDeclarationView {
    pub name: Ident,
    pub body: TyCodeBlockView,
    pub parameters: Seq<TyFunctionParameter>,
    pub span: Span,
    pub return_type: TypeId,
    pub type_parameters: Seq<TypeParameterView>,
    pub purity: Purity,
}

/// A [`TyTraitFn`] as a value.
pub struct TyTraitFnView {
    pub name: Ident,
    pub purity: Purity,
    pub parameters: Seq<TyFunctionParameter>,
    pub return_type: TypeId,
}

/// A [`Declaration`] as a value.
pub enum DeclarationView {
    Function(TyFunctionDeclarationView),
    TraitFn(TyTraitFnView),
}

/// The views of type parameters, in their order.
pub open spec fn type_parameters_view(type_parameters: Seq<TypeParameter>) -> Seq<
    TypeParameterView,
> {
    type_parameters.map_values(|parameter: TypeParameter| parameter@)
}

/// The views of named arguments, in their order.
pub open spec fn arguments_view(arguments: Seq<(Ident, TyExpression)>) -> Seq<
    (Ident, TyExpressionView),
>
    decreases arguments,
{
    Seq::new(
        arguments.len(),
        |i: int|
            if 0 <= i < arguments.len() {
                (arguments[i].0, arguments[i].1.model())
            } else {
                arbitrary()
            },
    )
}

/// The views of expressions, in their order.
pub open spec fn expressions_view(expressions: Seq<TyExpression>) -> Seq<TyExpressionView>
    decreases expressions,
{
    Seq::new(
        expressions.len(),
        |i: int|
            if 0 <= i < expressions.len() {
                expressions[i].model()
            } else {
                arbitrary()
            },
    )
}

/// The views of nodes, in their order.
pub open spec fn nodes_view(nodes: Seq<TyAstNode>) -> Seq<TyAstNodeView>
    decreases nodes,
{
    Seq::new(
        nodes.len(),
        |i: int|
            if 0 <= i < nodes.len() {
                nodes[i].model()
            } else {
                arbitrary()
            },
    )
}

impl TyExpression {
    /// The expression as a value.
    pub open spec fn model(&self) -> TyExpressionView
        decreases self,
    {
        TyExpressionView {
            expression: self.expression.model(),
            return_type: self.return_type,
            span: self.span,
        }
    }
}

impl View for TyExpression {
    type V = TyExpressionView;

    open spec fn view(&self) -> TyExpressionView {
        self.model()
    }
}

impl TyExpressionVariant {
    /// The expression as a value.
    pub open spec fn model(&self) -> TyExpressionVariantView
        decreases self,
    {
        match self {
            TyExpressionVariant::Literal(value) => TyExpressionVariantView::Literal(*value),
            TyExpressionVariant::VariableExpression { name, mutability } => {
                TyExpressionVariantView::VariableExpression { name: *name, mutability: *mutability }
            },
            TyExpressionVariant::FunctionApplication { call_path, arguments, function_decl_id } => {
                TyExpressionVariantView::FunctionApplication {
                    call_path: call_path@,
                    arguments: arguments_view(arguments@),
                    function_decl_id: *function_decl_id,
                }
            },
            TyExpressionVariant::Tuple { fields } => TyExpressionVariantView::Tuple {
                fields: expressions_view(fields@),
            },
            TyExpressionVariant::CodeBlock(block) => TyExpressionVariantView::CodeBlock(
                block.model(),
            ),
            TyExpressionVariant::IfExp { condition, then, otherwise } => {
                TyExpressionVariantView::IfExp {
                    condition: Box::new(condition.model()),
                    then: Box::new(then.model()),
                    otherwise: match otherwise {
                        Some(expression) => Some(Box::new(expression.model())),
                        None => None,
                    },
                }
            },
        }
    }
}

impl View for TyExpressionVariant {
    type V = TyExpressionVariantView;

    open spec fn view(&self) -> TyExpressionVariantView {
        self.model()
    }
}

impl TyCodeBlock {
    /// The block as a value.
    pub open spec fn model(&self) -> TyCodeBlockView
        decreases self,
    {
        TyCodeBlockView { contents: nodes_view(self.contents@) }
    }
}

impl View for TyCodeBlock {
    type V = TyCodeBlockView;

    open spec fn view(&self) -> TyCodeBlockView {
        self.model()
    }
}

impl TyAstNode {
    /// The node as a value.
    pub open spec fn model(&self) -> TyAstNodeView
        decreases self,
    {
        match self {
            TyAstNode::VariableDeclaration { name, body, mutability } => {
                TyAstNodeView::VariableDeclaration {
                    name: *name,
                    body: body.model(),
                    mutability: *mutability,
                }
            },
            TyAstNode::FunctionDeclaration(id) => TyAstNodeView::FunctionDeclaration(*id),
            TyAstNode::Expression(expression) => TyAstNodeView::Expression(expression.model()),
            TyAstNode::ImplicitReturnExpression(expression) => {
                TyAstNodeView::ImplicitReturnExpression(expression.model())
            },
            TyAstNode::SideEffect => TyAstNodeView::SideEffect,
        }
    }
}

impl View for TyAstNode {
    type V = TyAstNodeView;

    open spec fn view(&self) -> TyAstNodeView {
        self.model()
    }
}

impl View for TypeParameter {
    type V = TypeParameterView;

    open spec fn view(&self) -> TypeParameterView {
        TypeParameterView {
            type_id: self.type_id,
            name_ident: self.name_ident,
            trait_constraints: self.trait_constraints@,
        }
    }
}

impl View for TyFunctionDeclaration {
    type V = TyFunctionDeclarationView;

    open spec fn view(&self) -> TyFunctionDeclarationView {
        TyFunctionDeclarationView {
            name: self.name,
            body: self.body@,
            parameters: self.parameters@,
            span: self.span,
            return_type: self.return_type,
            type_parameters: type_parameters_view(self.type_parameters@),
            purity: self.purity,
        }
    }
}

impl View for TyTraitFn {
    type V = TyTraitFnView;

    open spec fn view(&self) -> TyTraitFnView {
        TyTraitFnView {
            name: self.name,
            purity: self.purity,
            parameters: self.parameters@,
            return_type: self.return_type,
        }
    }
}

impl View for Declaration {
    type V = DeclarationView;

    open spec fn view(&self) -> DeclarationView {
        match self {
            Declaration::Function(declaration) => DeclarationView::Function(declaration@),
            Declaration::TraitFn(declaration) => DeclarationView::TraitFn(declaration@),
        }
    }
}

impl TyExpression {
    /// The expression that stands in for one that failed to type check: the
    /// empty tuple, of the type that recovers from errors.
    pub fn error(error_type: TypeId, span: Span) -> (sentinel: TyExpression)
        ensures
            sentinel@ == TyExpressionView::error(error_type, span),
    {
        let sentinel = TyExpression {
            expression: TyExpressionVariant::Tuple { fields: Vec::new() },
            return_type: error_type,
            span,
        };
        assert(expressions_view(Seq::empty()) =~= Seq::empty());
        sentinel
    }

    /// The mutability of what the expression names: that of the variable for
    /// a variable, immutable for anything else.
    pub fn gather_mutability(&self) -> (mutability: VariableMutability)
        ensures
            mutability == self@.mutability(),
    {
        match &self.expression {
            TyExpressionVariant::VariableExpression { mutability, .. } => *mutability,
            _ => VariableMutability::Immutable,
        }
    }
}

impl TyExpressionView {
    /// The stand-in for an expression that failed to type check.
    pub open spec fn error(error_type: TypeId, span: Span) -> TyExpressionView {
        TyExpressionView {
            expression: TyExpressionVariantView::Tuple { fields: Seq::empty() },
            return_type: error_type,
            span,
        }
    }

    /// The mutability of what the expression names.
    pub open spec fn mutability(self) -> VariableMutability {
        match self.expression {
            TyExpressionVariantView::VariableExpression { mutability, .. } => mutability,
            _ => VariableMutability::Immutable,
        }
    }
}

impl TyExpression {
    /// A copy of the expression, down to its leaves.
    pub fn duplicate(&self) -> (copy: TyExpression)
        ensures
            copy@ == self@,
        decreases self,
    {
        TyExpression {
            expression: self.expression.duplicate(),
            return_type: self.return_type,
            span: self.span.clone(),
        }
    }
}

impl TyExpressionVariant {
    /// A copy of the expression, down to its leaves.
    pub fn duplicate(&self) -> (copy: TyExpressionVariant)
        ensures
            copy@ == self@,
        decreases self,
    {
        match self {
            TyExpressionVariant::Literal(value) => TyExpressionVariant::Literal(*value),
            TyExpressionVariant::VariableExpression { name, mutability } => {
                TyExpressionVariant::VariableExpression {
                    name: name.clone(),
                    mutability: *mutability,
                }
            },
            TyExpressionVariant::FunctionApplication { call_path, arguments, function_decl_id } => {
                let mut copies: Vec<(Ident, TyExpression)> = Vec::new();
                let mut i: usize = 0;
                while i < arguments.len()
                    invariant
                        i <= arguments.len(),
                        *self is FunctionApplication,
                        (*self)->arguments == *arguments,
                        copies@.len() == i,
                        forall|j: int|
                            0 <= j < i ==> (#[trigger] copies@[j]).0 == arguments@[j].0
                                && copies@[j].1.model() == arguments@[j].1.model(),
                    decreases arguments.len() - i,
                {
                    let copy = arguments[i].1.duplicate();
                    copies.push((arguments[i].0.clone(), copy));
                    i += 1;
                }
                assert(arguments_view(copies@) =~= arguments_view(arguments@));
                TyExpressionVariant::FunctionApplication {
                    call_path: call_path.clone(),
                    arguments: copies,
                    function_decl_id: *function_decl_id,
                }
            },
            TyExpressionVariant::Tuple { fields } => {
                let mut copies: Vec<TyExpression> = Vec::new();
                let mut i: usize = 0;
                while i < fields.len()
                    invariant
                        i <= fields.len(),
                        *self is Tuple,
                        (*self)->fields == *fields,
                        copies@.len() == i,
                        forall|j: int|
                            0 <= j < i ==> (#[trigger] copies@[j]).model() == fields@[j].model(),
                    decreases fields.len() - i,
                {
                    let copy = fields[i].duplicate();
                    copies.push(copy);
                    i += 1;
                }
                assert(expressions_view(copies@) =~= expressions_view(fields@));
                TyExpressionVariant::Tuple { fields: copies }
            },
            TyExpressionVariant::CodeBlock(block) => TyExpressionVariant::CodeBlock(
                block.duplicate(),
            ),
            TyExpressionVariant::IfExp { condition, then, otherwise } => {
                TyExpressionVariant::IfExp {
                    condition: Box::new(condition.duplicate()),
                    then: Box::new(then.duplicate()),
                    otherwise: match otherwise {
                        Some(expression) => Some(Box::new(expression.duplicate())),
                        None => None,
                    },
                }
            },
        }
    }
}

impl TyCodeBlock {
    /// A copy of the block, down to its leaves.
    pub fn duplicate(&self) -> (copy: TyCodeBlock)
        ensures
            copy@ == self@,
        decreases self,
    {
        let mut copies: Vec<TyAstNode> = Vec::new();
        let mut i: usize = 0;
        while i < self.contents.len()
            invariant
                i <= self.contents.len(),
                copies@.len() == i,
                forall|j: int|
                    0 <= j < i ==> (#[trigger] copies@[j]).model() == self.contents@[j].model(),
            decreases self.contents.len() - i,
        {
            let copy = self.contents[i].duplicate();
            copies.push(copy);
            i += 1;
        }
        assert(nodes_view(copies@) =~= nodes_view(self.contents@));
        TyCodeBlock { contents: copies }
    }
}

impl TyAstNode {
    /// A copy of the node, down to its leaves.
    pub fn duplicate(&self) -> (copy: TyAstNode)
        ensures
            copy@ == self@,
        decreases self,
    {
        match self {
            TyAstNode::VariableDeclaration { name, body, mutability } => {
                TyAstNode::VariableDeclaration {
                    name: name.clone(),
                    body: body.duplicate(),
                    mutability: *mutability,
                }
            },
            TyAstNode::FunctionDeclaration(id) => TyAstNode::FunctionDeclaration(*id),
            TyAstNode::Expression(expression) => TyAstNode::Expression(expression.duplicate()),
            TyAstNode::ImplicitReturnExpression(expression) => {
                TyAstNode::ImplicitReturnExpression(expression.duplicate())
            },
            TyAstNode::SideEffect => TyAstNode::SideEffect,
        }
    }
}

impl Clone for TyExpression {
    fn clone(&self) -> (copy: TyExpression)
        ensures
            copy@ == self@,
    {
        self.duplicate()
    }
}

impl Clone for TyExpressionVariant {
    fn clone(&self) -> (copy: TyExpressionVariant)
        ensures
            copy@ == self@,
    {
        self.duplicate()
    }
}

impl Clone for TyCodeBlock {
    fn clone(&self) -> (copy: TyCodeBlock)
        ensures
            copy@ == self@,
    {
        self.duplicate()
    }
}

impl Clone for TyAstNode {
    fn clone(&self) -> (copy: TyAstNode)
        ensures
            copy@ == self@,
    {
        self.duplicate()
    }
}

impl Clone for TyFunctionParameter {
    fn clone(&self) -> (copy: TyFunctionParameter)
        ensures
            copy == *self,
    {
        TyFunctionParameter {
            name: self.name.clone(),
            is_reference: self.is_reference,
            is_mutable: self.is_mutable,
            type_id: self.type_id,
        }
    }
}

impl Clone for TraitConstraint {
    fn clone(&self) -> (copy: TraitConstraint)
        ensures
            copy == *self,
    {
        TraitConstraint { trait_name: self.trait_name.clone(), trait_decl_id: self.trait_decl_id }
    }
}

impl Clone for TypeParameter {
    fn clone(&self) -> (copy: TypeParameter)
        ensures
            copy@ == self@,
    {
        let mut trait_constraints: Vec<TraitConstraint> = Vec::new();
        let mut i: usize = 0;
        while i < self.trait_constraints.len()
            invariant
                i <= self.trait_constraints.len(),
                trait_constraints@ == self.trait_constraints@.take(i as int),
            decreases self.trait_constraints.len() - i,
        {
            trait_constraints.push(self.trait_constraints[i].clone());
            assert(trait_constraints@ =~= self.trait_constraints@.take(i + 1));
            i += 1;
        }
        assert(self.trait_constraints@.take(i as int) =~= self.trait_constraints@);
        TypeParameter {
            type_id: self.type_id,
            name_ident: self.name_ident.clone(),
            trait_constraints,
        }
    }
}

/// A copy of a list of parameters.
pub fn clone_parameters(parameters: &Vec<TyFunctionParameter>) -> (copies: Vec<
    TyFunctionParameter,
>)
    ensures
        copies@ == parameters@,
{
    let mut copies: Vec<TyFunctionParameter> = Vec::new();
    let mut i: usize = 0;
    while i < parameters.len()
        invariant
            i <= parameters.len(),
            copies@ == parameters@.take(i as int),
        decreases parameters.len() - i,
    {
        copies.push(parameters[i].clone());
        assert(copies@ =~= parameters@.take(i + 1));
        i += 1;
    }
    assert(parameters@.take(i as int) =~= parameters@);
    copies
}

impl Clone for TyFunctionDeclaration {
    fn clone(&self) -> (copy: TyFunctionDeclaration)
        ensures
            copy@ == self@,
    {
        let mut type_parameters: Vec<TypeParameter> = Vec::new();
        let mut i: usize = 0;
        while i < self.type_parameters.len()
            invariant
                i <= self.type_parameters.len(),
                type_parameters@.len() == i,
                forall|j: int|
                    0 <= j < i ==> (#[trigger] type_parameters@[j])@ == self.type_parameters@[j]@,
            decreases self.type_parameters.len() - i,
        {
            type_parameters.push(self.type_parameters[i].clone());
            i += 1;
        }
        assert(type_parameters_view(type_parameters@) =~= type_parameters_view(
            self.type_parameters@,
        ));
        TyFunctionDeclaration {
            name: self.name.clone(),
            body: self.body.duplicate(),
            parameters: clone_parameters(&self.parameters),
            span: self.span.clone(),
            return_type: self.return_type,
            type_parameters,
            purity: self.purity,
        }
    }
}

impl Clone for TyTraitFn {
    fn clone(&self) -> (copy: TyTraitFn)
        ensures
            copy@ == self@,
    {
        TyTraitFn {
            name: self.name.clone(),
            purity: self.purity,
            parameters: clone_parameters(&self.parameters),
            return_type: self.return_type,
        }
    }
}

impl Clone for Declaration {
    fn clone(&self) -> (copy: Declaration)
        ensures
            copy@ == self@,
    {
        match self {
            Declaration::Function(declaration) => Declaration::Function(declaration.clone()),
            Declaration::TraitFn(declaration) => Declaration::TraitFn(declaration.clone()),
        }
    }
}

} // verus!
