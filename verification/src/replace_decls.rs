//! Substitution of declarations: rewriting every identity in a typed tree
//! that a mapping has a destination for.

use vstd::prelude::*;
use sway_types::Ident;
use crate::decl_id::DeclarationId;
use crate::decl_mapping::destination;
use crate::decl_mapping::lemma_no_match;
use crate::decl_mapping::DeclMapping;
use crate::ty::arguments_view;
use crate::ty::expressions_view;
use crate::ty::nodes_view;
use crate::ty::TyAstNode;
use crate::ty::TyAstNodeView;
use crate::ty::TyCodeBlock;
use crate::ty::TyExpression;
use crate::ty::TyExpressionVariant;
use crate::ty::TyFunctionDeclaration;
use crate::ty::TyCodeBlockView;
use crate::ty::TyExpressionVariantView;
use crate::ty::TyExpressionView;
use crate::ty::TyFunctionDeclarationView;
use crate::ty::TraitConstraint;
use crate::ty::TypeParameter;
use crate::ty::TypeParameterView;

verus! {

/// Named arguments with every identity in them replaced along `mapping`.
pub open spec fn substituted_arguments(
    arguments: Seq<(Ident, TyExpressionView)>,
    mapping: Seq<(DeclarationId, DeclarationId)>,
) -> Seq<(Ident, TyExpressionView)>
    decreases arguments,
{
    Seq::new(
        arguments.len(),
        |i: int|
            if 0 <= i < arguments.len() {
                (arguments[i].0, arguments[i].1.substituted(mapping))
            } else {
                arbitrary()
            },
    )
}

/// Expressions with every identity in them replaced along `mapping`.
pub open spec fn substituted_expressions(
    expressions: Seq<TyExpressionView>,
    mapping: Seq<(DeclarationId, DeclarationId)>,
) -> Seq<TyExpressionView>
    decreases expressions,
{
    Seq::new(
        expressions.len(),
        |i: int|
            if 0 <= i < expressions.len() {
                expressions[i].substituted(mapping)
            } else {
                arbitrary()
            },
    )
}

/// Nodes with every identity in them replaced along `mapping`.
pub open spec fn substituted_nodes(
    nodes: Seq<TyAstNodeView>,
    mapping: Seq<(DeclarationId, DeclarationId)>,
) -> Seq<TyAstNodeView>
    decreases nodes,
{
    Seq::new(
        nodes.len(),
        |i: int|
            if 0 <= i < nodes.len() {
                nodes[i].substituted(mapping)
            } else {
                arbitrary()
            },
    )
}

impl TyExpressionView {
    /// The expression with every identity in it replaced along `mapping`.
    pub open spec fn substituted(
        self,
        mapping: Seq<(DeclarationId, DeclarationId)>,
    ) -> TyExpressionView
        decreases self,
    {
        TyExpressionView {
            expression: self.expression.substituted(mapping),
            return_type: self.return_type,
            span: self.span,
        }
    }

    /// Whether the identity `id` stands somewhere in the expression.
    pub open spec fn mentions(self, id: DeclarationId) -> bool
        decreases self,
    {
        self.expression.mentions(id)
    }
}

impl TyExpressionVariantView {
    /// The expression with every identity in it replaced along `mapping`:
    /// the callee of each call, and whatever its parts hold.
    pub open spec fn substituted(
        self,
        mapping: Seq<(DeclarationId, DeclarationId)>,
    ) -> TyExpressionVariantView
        decreases self,
    {
        match self {
            TyExpressionVariantView::Literal(value) => self,
            TyExpressionVariantView::VariableExpression { name, mutability } => self,
            TyExpressionVariantView::FunctionApplication {
                call_path,
                arguments,
                function_decl_id,
            } => TyExpressionVariantView::FunctionApplication {
                call_path,
                arguments: substituted_arguments(arguments, mapping),
                function_decl_id: destination(mapping, function_decl_id),
            },
            TyExpressionVariantView::Tuple { fields } => TyExpressionVariantView::Tuple {
                fields: substituted_expressions(fields, mapping),
            },
            TyExpressionVariantView::CodeBlock(block) => TyExpressionVariantView::CodeBlock(
                block.substituted(mapping),
            ),
            TyExpressionVariantView::IfExp { condition, then, otherwise } => {
                TyExpressionVariantView::IfExp {
                    condition: Box::new(condition.substituted(mapping)),
                    then: Box::new(then.substituted(mapping)),
                    otherwise: match otherwise {
                        Some(expression) => Some(Box::new(expression.substituted(mapping))),
                        None => None,
                    },
                }
            },
        }
    }

    /// Whether the identity `id` stands somewhere in the expression.
    pub open spec fn mentions(self, id: DeclarationId) -> bool
        decreases self,
    {
        match self {
            TyExpressionVariantView::Literal(value) => false,
            TyExpressionVariantView::VariableExpression { name, mutability } => false,
            TyExpressionVariantView::FunctionApplication {
                call_path,
                arguments,
                function_decl_id,
            } => function_decl_id == id || exists|i: int|
                0 <= i < arguments.len() && (#[trigger] arguments[i]).1.mentions(id),
            TyExpressionVariantView::Tuple { fields } => exists|i: int|
                0 <= i < fields.len() && (#[trigger] fields[i]).mentions(id),
            TyExpressionVariantView::CodeBlock(block) => block.mentions(id),
            TyExpressionVariantView::IfExp { condition, then, otherwise } => {
                ||| condition.mentions(id)
                ||| then.mentions(id)
                ||| match otherwise {
                    Some(expression) => expression.mentions(id),
                    None => false,
                }
            },
        }
    }
}

impl TyCodeBlockView {
    /// The block with every identity in it replaced along `mapping`.
    pub open spec fn substituted(
        self,
        mapping: Seq<(DeclarationId, DeclarationId)>,
    ) -> TyCodeBlockView
        decreases self,
    {
        TyCodeBlockView { contents: substituted_nodes(self.contents, mapping) }
    }

    /// Whether the identity `id` stands somewhere in the block.
    pub open spec fn mentions(self, id: DeclarationId) -> bool
        decreases self,
    {
        exists|i: int| 0 <= i < self.contents.len() && (#[trigger] self.contents[i]).mentions(id)
    }
}

impl TyAstNodeView {
    /// The node with every identity in it replaced along `mapping`: that of
    /// a function it declares, and whatever its expressions hold.
    pub open spec fn substituted(
        self,
        mapping: Seq<(DeclarationId, DeclarationId)>,
    ) -> TyAstNodeView
        decreases self,
    {
        match self {
            TyAstNodeView::VariableDeclaration { name, body, mutability } => {
                TyAstNodeView::VariableDeclaration {
                    name,
                    body: body.substituted(mapping),
                    mutability,
                }
            },
            TyAstNodeView::FunctionDeclaration(id) => TyAstNodeView::FunctionDeclaration(
                destination(mapping, id),
            ),
            TyAstNodeView::Expression(expression) => TyAstNodeView::Expression(
                expression.substituted(mapping),
            ),
            TyAstNodeView::ImplicitReturnExpression(expression) => {
                TyAstNodeView::ImplicitReturnExpression(expression.substituted(mapping))
            },
            TyAstNodeView::SideEffect => self,
        }
    }

    /// Whether the identity `id` stands somewhere in the node.
    pub open spec fn mentions(self, id: DeclarationId) -> bool
        decreases self,
    {
        match self {
            TyAstNodeView::VariableDeclaration { name, body, mutability } => body.mentions(id),
            TyAstNodeView::FunctionDeclaration(declared) => declared == id,
            TyAstNodeView::Expression(expression) => expression.mentions(id),
            TyAstNodeView::ImplicitReturnExpression(expression) => expression.mentions(id),
            TyAstNodeView::SideEffect => false,
        }
    }
}

/// Bounds with the declaration of each trait replaced along `mapping`.
pub open spec fn substituted_constraints(
    constraints: Seq<TraitConstraint>,
    mapping: Seq<(DeclarationId, DeclarationId)>,
) -> Seq<TraitConstraint> {
    Seq::new(
        constraints.len(),
        |i: int|
            TraitConstraint {
                trait_name: constraints[i].trait_name,
                trait_decl_id: destination(mapping, constraints[i].trait_decl_id),
            },
    )
}

/// Type parameters with every identity in their bounds replaced along
/// `mapping`.
pub open spec fn substituted_type_parameters(
    type_parameters: Seq<TypeParameterView>,
    mapping: Seq<(DeclarationId, DeclarationId)>,
) -> Seq<TypeParameterView> {
    Seq::new(type_parameters.len(), |i: int| type_parameters[i].substituted(mapping))
}

impl TypeParameterView {
    /// The type parameter with the declaration of each trait in its bounds
    /// replaced along `mapping`.
    pub open spec fn substituted(
        self,
        mapping: Seq<(DeclarationId, DeclarationId)>,
    ) -> TypeParameterView {
        TypeParameterView {
            type_id: self.type_id,
            name_ident: self.name_ident,
            trait_constraints: substituted_constraints(self.trait_constraints, mapping),
        }
    }

    /// Whether the identity `id` stands in a bound of the type parameter.
    pub open spec fn mentions(self, id: DeclarationId) -> bool {
        exists|i: int|
            0 <= i < self.trait_constraints.len() && (
            #[trigger] self.trait_constraints[i]).trait_decl_id == id
    }
}

impl TyFunctionDeclarationView {
    /// The declaration with every identity in its body and in the bounds of
    /// its type parameters replaced along `mapping`.
    pub open spec fn substituted(
        self,
        mapping: Seq<(DeclarationId, DeclarationId)>,
    ) -> TyFunctionDeclarationView {
        TyFunctionDeclarationView {
            name: self.name,
            body: self.body.substituted(mapping),
            parameters: self.parameters,
            span: self.span,
            return_type: self.return_type,
            type_parameters: substituted_type_parameters(self.type_parameters, mapping),
            purity: self.purity,
        }
    }

    /// Whether the identity `id` stands somewhere in the declaration.
    pub open spec fn mentions(self, id: DeclarationId) -> bool {
        self.body.mentions(id) || exists|i: int|
            0 <= i < self.type_parameters.len() && (#[trigger] self.type_parameters[i]).mentions(
                id,
            )
    }
}

impl TyExpressionView {
    /// A mapping that leaves every identity in the expression as it is
    /// leaves the expression as it is.
    pub proof fn lemma_unchanged_when_identities_fixed(
        self,
        mapping: Seq<(DeclarationId, DeclarationId)>,
    )
        requires
            forall|id: DeclarationId| #[trigger]
                self.mentions(id) ==> destination(mapping, id) == id,
        ensures
            self.substituted(mapping) == self,
        decreases self,
    {
        assert forall|id: DeclarationId| #[trigger]
            self.expression.mentions(id) implies destination(mapping, id) == id by {
            assert(self.mentions(id));
        }
        self.expression.lemma_unchanged_when_identities_fixed(mapping);
    }

    /// A mapping that leaves the expression as it is leaves every identity
    /// in the expression as it is.
    pub proof fn lemma_identities_fixed_when_unchanged(
        self,
        mapping: Seq<(DeclarationId, DeclarationId)>,
        id: DeclarationId,
    )
        requires
            self.substituted(mapping) == self,
            self.mentions(id),
        ensures
            destination(mapping, id) == id,
        decreases self,
    {
        self.expression.lemma_identities_fixed_when_unchanged(mapping, id);
    }
}

impl TyExpressionVariantView {
    /// A mapping that leaves every identity in the expression as it is
    /// leaves the expression as it is.
    pub proof fn lemma_unchanged_when_identities_fixed(
        self,
        mapping: Seq<(DeclarationId, DeclarationId)>,
    )
        requires
            forall|id: DeclarationId| #[trigger]
                self.mentions(id) ==> destination(mapping, id) == id,
        ensures
            self.substituted(mapping) == self,
        decreases self,
    {
        match self {
            TyExpressionVariantView::Literal(value) => {},
            TyExpressionVariantView::VariableExpression { name, mutability } => {},
            TyExpressionVariantView::FunctionApplication {
                call_path,
                arguments,
                function_decl_id,
            } => {
                let after = substituted_arguments(arguments, mapping);
                assert(self.mentions(function_decl_id));
                assert forall|i: int| 0 <= i < arguments.len() implies after[i]
                    == arguments[i] by {
                    assert forall|id: DeclarationId| #[trigger]
                        arguments[i].1.mentions(id) implies destination(mapping, id) == id by {
                        assert(self.mentions(id));
                    }
                    arguments[i].1.lemma_unchanged_when_identities_fixed(mapping);
                }
                assert(after =~= arguments);
            },
            TyExpressionVariantView::Tuple { fields } => {
                let after = substituted_expressions(fields, mapping);
                assert forall|i: int| 0 <= i < fields.len() implies after[i] == fields[i] by {
                    assert forall|id: DeclarationId| #[trigger]
                        fields[i].mentions(id) implies destination(mapping, id) == id by {
                        assert(self.mentions(id));
                    }
                    fields[i].lemma_unchanged_when_identities_fixed(mapping);
                }
                assert(after =~= fields);
            },
            TyExpressionVariantView::CodeBlock(block) => {
                assert forall|id: DeclarationId| #[trigger] block.mentions(id) implies destination(
                    mapping,
                    id,
                ) == id by {
                    assert(self.mentions(id));
                }
                block.lemma_unchanged_when_identities_fixed(mapping);
            },
            TyExpressionVariantView::IfExp { condition, then, otherwise } => {
                assert forall|id: DeclarationId| #[trigger]
                    condition.mentions(id) implies destination(mapping, id) == id by {
                    assert(self.mentions(id));
                }
                condition.lemma_unchanged_when_identities_fixed(mapping);
                assert forall|id: DeclarationId| #[trigger] then.mentions(id) implies destination(
                    mapping,
                    id,
                ) == id by {
                    assert(self.mentions(id));
                }
                then.lemma_unchanged_when_identities_fixed(mapping);
                match otherwise {
                    Some(expression) => {
                        assert forall|id: DeclarationId| #[trigger]
                            expression.mentions(id) implies destination(mapping, id) == id by {
                            assert(self.mentions(id));
                        }
                        expression.lemma_unchanged_when_identities_fixed(mapping);
                    },
                    None => {},
                }
            },
        }
    }

    /// A mapping that leaves the expression as it is leaves every identity
    /// in the expression as it is.
    pub proof fn lemma_identities_fixed_when_unchanged(
        self,
        mapping: Seq<(DeclarationId, DeclarationId)>,
        id: DeclarationId,
    )
        requires
            self.substituted(mapping) == self,
            self.mentions(id),
        ensures
            destination(mapping, id) == id,
        decreases self,
    {
        match self {
            TyExpressionVariantView::Literal(value) => {},
            TyExpressionVariantView::VariableExpression { name, mutability } => {},
            TyExpressionVariantView::FunctionApplication {
                call_path,
                arguments,
                function_decl_id,
            } => {
                let after = substituted_arguments(arguments, mapping);
                assert(after == arguments);
                if function_decl_id != id {
                    let i = choose|i: int|
                        0 <= i < arguments.len() && (#[trigger] arguments[i]).1.mentions(id);
                    assert(after[i] == arguments[i]);
                    arguments[i].1.lemma_identities_fixed_when_unchanged(mapping, id);
                }
            },
            TyExpressionVariantView::Tuple { fields } => {
                let after = substituted_expressions(fields, mapping);
                assert(after == fields);
                let i = choose|i: int| 0 <= i < fields.len() && (#[trigger] fields[i]).mentions(id);
                assert(after[i] == fields[i]);
                fields[i].lemma_identities_fixed_when_unchanged(mapping, id);
            },
            TyExpressionVariantView::CodeBlock(block) => {
                block.lemma_identities_fixed_when_unchanged(mapping, id);
            },
            TyExpressionVariantView::IfExp { condition, then, otherwise } => {
                if condition.mentions(id) {
                    condition.lemma_identities_fixed_when_unchanged(mapping, id);
                } else if then.mentions(id) {
                    then.lemma_identities_fixed_when_unchanged(mapping, id);
                } else {
                    match otherwise {
                        Some(expression) => {
                            expression.lemma_identities_fixed_when_unchanged(mapping, id);
                        },
                        None => {},
                    }
                }
            },
        }
    }
}

impl TyCodeBlockView {
    /// A mapping that leaves every identity in the block as it is leaves the
    /// block as it is.
    pub proof fn lemma_unchanged_when_identities_fixed(
        self,
        mapping: Seq<(DeclarationId, DeclarationId)>,
    )
        requires
            forall|id: DeclarationId| #[trigger]
                self.mentions(id) ==> destination(mapping, id) == id,
        ensures
            self.substituted(mapping) == self,
        decreases self,
    {
        let nodes = self.contents;
        let after = substituted_nodes(nodes, mapping);
        assert forall|i: int| 0 <= i < nodes.len() implies after[i] == nodes[i] by {
            assert forall|id: DeclarationId| #[trigger] nodes[i].mentions(id) implies destination(
                mapping,
                id,
            ) == id by {
                assert(self.mentions(id));
            }
            nodes[i].lemma_unchanged_when_identities_fixed(mapping);
        }
        assert(after =~= nodes);
    }

    /// A mapping that leaves the block as it is leaves every identity in the
    /// block as it is.
    pub proof fn lemma_identities_fixed_when_unchanged(
        self,
        mapping: Seq<(DeclarationId, DeclarationId)>,
        id: DeclarationId,
    )
        requires
            self.substituted(mapping) == self,
            self.mentions(id),
        ensures
            destination(mapping, id) == id,
        decreases self,
    {
        let nodes = self.contents;
        let after = substituted_nodes(nodes, mapping);
        assert(after == nodes);
        let i = choose|i: int| 0 <= i < nodes.len() && (#[trigger] nodes[i]).mentions(id);
        assert(after[i] == nodes[i]);
        nodes[i].lemma_identities_fixed_when_unchanged(mapping, id);
    }
}

impl TyAstNodeView {
    /// A mapping that leaves every identity in the node as it is leaves the
    /// node as it is.
    pub proof fn lemma_unchanged_when_identities_fixed(
        self,
        mapping: Seq<(DeclarationId, DeclarationId)>,
    )
        requires
            forall|id: DeclarationId| #[trigger]
                self.mentions(id) ==> destination(mapping, id) == id,
        ensures
            self.substituted(mapping) == self,
        decreases self,
    {
        match self {
            TyAstNodeView::VariableDeclaration { name, body, mutability } => {
                assert forall|id: DeclarationId| #[trigger] body.mentions(id) implies destination(
                    mapping,
                    id,
                ) == id by {
                    assert(self.mentions(id));
                }
                body.lemma_unchanged_when_identities_fixed(mapping);
            },
            TyAstNodeView::FunctionDeclaration(declared) => {
                assert(self.mentions(declared));
            },
            TyAstNodeView::Expression(expression) => {
                assert forall|id: DeclarationId| #[trigger]
                    expression.mentions(id) implies destination(mapping, id) == id by {
                    assert(self.mentions(id));
                }
                expression.lemma_unchanged_when_identities_fixed(mapping);
            },
            TyAstNodeView::ImplicitReturnExpression(expression) => {
                assert forall|id: DeclarationId| #[trigger]
                    expression.mentions(id) implies destination(mapping, id) == id by {
                    assert(self.mentions(id));
                }
                expression.lemma_unchanged_when_identities_fixed(mapping);
            },
            TyAstNodeView::SideEffect => {},
        }
    }

    /// A mapping that leaves the node as it is leaves every identity in the
    /// node as it is.
    pub proof fn lemma_identities_fixed_when_unchanged(
        self,
        mapping: Seq<(DeclarationId, DeclarationId)>,
        id: DeclarationId,
    )
        requires
            self.substituted(mapping) == self,
            self.mentions(id),
        ensures
            destination(mapping, id) == id,
        decreases self,
    {
        match self {
            TyAstNodeView::VariableDeclaration { name, body, mutability } => {
                body.lemma_identities_fixed_when_unchanged(mapping, id);
            },
            TyAstNodeView::FunctionDeclaration(declared) => {},
            TyAstNodeView::Expression(expression) => {
                expression.lemma_identities_fixed_when_unchanged(mapping, id);
            },
            TyAstNodeView::ImplicitReturnExpression(expression) => {
                expression.lemma_identities_fixed_when_unchanged(mapping, id);
            },
            TyAstNodeView::SideEffect => {},
        }
    }
}

impl TyExpressionView {
    /// An identity in the expression has its destination in the substituted
    /// expression.
    pub proof fn lemma_substituted_mentions_destination(
        self,
        mapping: Seq<(DeclarationId, DeclarationId)>,
        id: DeclarationId,
    )
        requires
            self.mentions(id),
        ensures
            self.substituted(mapping).mentions(destination(mapping, id)),
        decreases self,
    {
        self.expression.lemma_substituted_mentions_destination(mapping, id);
    }

    /// An identity in the substituted expression is the destination of one
    /// in the expression, which is handed back.
    pub proof fn lemma_substituted_mentions_only_destinations(
        self,
        mapping: Seq<(DeclarationId, DeclarationId)>,
        to: DeclarationId,
    ) -> (id: DeclarationId)
        requires
            self.substituted(mapping).mentions(to),
        ensures
            self.mentions(id),
            destination(mapping, id) == to,
        decreases self,
    {
        self.expression.lemma_substituted_mentions_only_destinations(mapping, to)
    }
}

impl TyExpressionVariantView {
    /// An identity in the expression has its destination in the substituted
    /// expression.
    pub proof fn lemma_substituted_mentions_destination(
        self,
        mapping: Seq<(DeclarationId, DeclarationId)>,
        id: DeclarationId,
    )
        requires
            self.mentions(id),
        ensures
            self.substituted(mapping).mentions(destination(mapping, id)),
        decreases self,
    {
        let to = destination(mapping, id);
        match self {
            TyExpressionVariantView::Literal(value) => {},
            TyExpressionVariantView::VariableExpression { name, mutability } => {},
            TyExpressionVariantView::FunctionApplication {
                call_path,
                arguments,
                function_decl_id,
            } => {
                if function_decl_id != id {
                    let after = substituted_arguments(arguments, mapping);
                    let i = choose|i: int|
                        0 <= i < arguments.len() && (#[trigger] arguments[i]).1.mentions(id);
                    arguments[i].1.lemma_substituted_mentions_destination(mapping, id);
                    assert(after[i] == (arguments[i].0, arguments[i].1.substituted(mapping)));
                    assert(after[i].1.mentions(to));
                    assert(self.substituted(mapping)->arguments == after);
                }
            },
            TyExpressionVariantView::Tuple { fields } => {
                let after = substituted_expressions(fields, mapping);
                let i = choose|i: int| 0 <= i < fields.len() && (#[trigger] fields[i]).mentions(id);
                fields[i].lemma_substituted_mentions_destination(mapping, id);
                assert(after[i] == fields[i].substituted(mapping));
                assert(after[i].mentions(to));
                assert(self.substituted(mapping)->fields == after);
            },
            TyExpressionVariantView::CodeBlock(block) => {
                block.lemma_substituted_mentions_destination(mapping, id);
            },
            TyExpressionVariantView::IfExp { condition, then, otherwise } => {
                if condition.mentions(id) {
                    condition.lemma_substituted_mentions_destination(mapping, id);
                } else if then.mentions(id) {
                    then.lemma_substituted_mentions_destination(mapping, id);
                } else {
                    match otherwise {
                        Some(expression) => {
                            expression.lemma_substituted_mentions_destination(mapping, id);
                        },
                        None => {},
                    }
                }
            },
        }
    }

    /// An identity in the substituted expression is the destination of one
    /// in the expression, which is handed back.
    pub proof fn lemma_substituted_mentions_only_destinations(
        self,
        mapping: Seq<(DeclarationId, DeclarationId)>,
        to: DeclarationId,
    ) -> (id: DeclarationId)
        requires
            self.substituted(mapping).mentions(to),
        ensures
            self.mentions(id),
            destination(mapping, id) == to,
        decreases self,
    {
        match self {
            TyExpressionVariantView::Literal(value) => to,
            TyExpressionVariantView::VariableExpression { name, mutability } => to,
            TyExpressionVariantView::FunctionApplication {
                call_path,
                arguments,
                function_decl_id,
            } => {
                if destination(mapping, function_decl_id) == to {
                    function_decl_id
                } else {
                    let after = substituted_arguments(arguments, mapping);
                    let i = choose|i: int|
                        0 <= i < after.len() && (#[trigger] after[i]).1.mentions(to);
                    let id = arguments[i].1.lemma_substituted_mentions_only_destinations(
                        mapping,
                        to,
                    );
                    assert(arguments[i].1.mentions(id));
                    id
                }
            },
            TyExpressionVariantView::Tuple { fields } => {
                let after = substituted_expressions(fields, mapping);
                let i = choose|i: int| 0 <= i < after.len() && (#[trigger] after[i]).mentions(to);
                let id = fields[i].lemma_substituted_mentions_only_destinations(mapping, to);
                assert(fields[i].mentions(id));
                id
            },
            TyExpressionVariantView::CodeBlock(block) => {
                block.lemma_substituted_mentions_only_destinations(mapping, to)
            },
            TyExpressionVariantView::IfExp { condition, then, otherwise } => {
                if condition.substituted(mapping).mentions(to) {
                    condition.lemma_substituted_mentions_only_destinations(mapping, to)
                } else if then.substituted(mapping).mentions(to) {
                    then.lemma_substituted_mentions_only_destinations(mapping, to)
                } else {
                    match otherwise {
                        Some(expression) => {
                            expression.lemma_substituted_mentions_only_destinations(mapping, to)
                        },
                        None => to,
                    }
                }
            },
        }
    }
}

impl TyCodeBlockView {
    /// An identity in the block has its destination in the substituted
    /// block.
    pub proof fn lemma_substituted_mentions_destination(
        self,
        mapping: Seq<(DeclarationId, DeclarationId)>,
        id: DeclarationId,
    )
        requires
            self.mentions(id),
        ensures
            self.substituted(mapping).mentions(destination(mapping, id)),
        decreases self,
    {
        let nodes = self.contents;
        let after = substituted_nodes(nodes, mapping);
        let i = choose|i: int| 0 <= i < nodes.len() && (#[trigger] nodes[i]).mentions(id);
        nodes[i].lemma_substituted_mentions_destination(mapping, id);
        assert(after[i] == nodes[i].substituted(mapping));
        assert(self.substituted(mapping).contents[i].mentions(destination(mapping, id)));
    }

    /// An identity in the substituted block is the destination of one in the
    /// block, which is handed back.
    pub proof fn lemma_substituted_mentions_only_destinations(
        self,
        mapping: Seq<(DeclarationId, DeclarationId)>,
        to: DeclarationId,
    ) -> (id: DeclarationId)
        requires
            self.substituted(mapping).mentions(to),
        ensures
            self.mentions(id),
            destination(mapping, id) == to,
        decreases self,
    {
        let nodes = self.contents;
        let after = substituted_nodes(nodes, mapping);
        let i = choose|i: int| 0 <= i < after.len() && (#[trigger] after[i]).mentions(to);
        let id = nodes[i].lemma_substituted_mentions_only_destinations(mapping, to);
        assert(nodes[i].mentions(id));
        id
    }
}

impl TyAstNodeView {
    /// An identity in the node has its destination in the substituted node.
    pub proof fn lemma_substituted_mentions_destination(
        self,
        mapping: Seq<(DeclarationId, DeclarationId)>,
        id: DeclarationId,
    )
        requires
            self.mentions(id),
        ensures
            self.substituted(mapping).mentions(destination(mapping, id)),
        decreases self,
    {
        match self {
            TyAstNodeView::VariableDeclaration { name, body, mutability } => {
                body.lemma_substituted_mentions_destination(mapping, id);
            },
            TyAstNodeView::FunctionDeclaration(declared) => {},
            TyAstNodeView::Expression(expression) => {
                expression.lemma_substituted_mentions_destination(mapping, id);
            },
            TyAstNodeView::ImplicitReturnExpression(expression) => {
                expression.lemma_substituted_mentions_destination(mapping, id);
            },
            TyAstNodeView::SideEffect => {},
        }
    }

    /// An identity in the substituted node is the destination of one in the
    /// node, which is handed back.
    pub proof fn lemma_substituted_mentions_only_destinations(
        self,
        mapping: Seq<(DeclarationId, DeclarationId)>,
        to: DeclarationId,
    ) -> (id: DeclarationId)
        requires
            self.substituted(mapping).mentions(to),
        ensures
            self.mentions(id),
            destination(mapping, id) == to,
        decreases self,
    {
        match self {
            TyAstNodeView::VariableDeclaration { name, body, mutability } => {
                body.lemma_substituted_mentions_only_destinations(mapping, to)
            },
            TyAstNodeView::FunctionDeclaration(declared) => declared,
            TyAstNodeView::Expression(expression) => {
                expression.lemma_substituted_mentions_only_destinations(mapping, to)
            },
            TyAstNodeView::ImplicitReturnExpression(expression) => {
                expression.lemma_substituted_mentions_only_destinations(mapping, to)
            },
            TyAstNodeView::SideEffect => to,
        }
    }
}

impl TypeParameterView {
    /// A mapping that leaves every identity in the bounds as it is leaves
    /// the type parameter as it is.
    pub proof fn lemma_unchanged_when_identities_fixed(
        self,
        mapping: Seq<(DeclarationId, DeclarationId)>,
    )
        requires
            forall|id: DeclarationId| #[trigger]
                self.mentions(id) ==> destination(mapping, id) == id,
        ensures
            self.substituted(mapping) == self,
    {
        let bounds = self.trait_constraints;
        let after = substituted_constraints(bounds, mapping);
        assert forall|i: int| 0 <= i < bounds.len() implies after[i] == bounds[i] by {
            assert(self.mentions(bounds[i].trait_decl_id));
        }
        assert(after =~= bounds);
    }

    /// A mapping that leaves the type parameter as it is leaves every
    /// identity in its bounds as it is.
    pub proof fn lemma_identities_fixed_when_unchanged(
        self,
        mapping: Seq<(DeclarationId, DeclarationId)>,
        id: DeclarationId,
    )
        requires
            self.substituted(mapping) == self,
            self.mentions(id),
        ensures
            destination(mapping, id) == id,
    {
        let bounds = self.trait_constraints;
        let after = substituted_constraints(bounds, mapping);
        assert(after == bounds);
        let i = choose|i: int| 0 <= i < bounds.len() && (#[trigger] bounds[i]).trait_decl_id == id;
        assert(after[i] == bounds[i]);
    }

    /// An identity in the bounds has its destination in the substituted
    /// bounds.
    pub proof fn lemma_substituted_mentions_destination(
        self,
        mapping: Seq<(DeclarationId, DeclarationId)>,
        id: DeclarationId,
    )
        requires
            self.mentions(id),
        ensures
            self.substituted(mapping).mentions(destination(mapping, id)),
    {
        let bounds = self.trait_constraints;
        let after = substituted_constraints(bounds, mapping);
        let i = choose|i: int| 0 <= i < bounds.len() && (#[trigger] bounds[i]).trait_decl_id == id;
        assert(after[i].trait_decl_id == destination(mapping, id));
        assert(self.substituted(mapping).trait_constraints[i].trait_decl_id == destination(
            mapping,
            id,
        ));
    }

    /// An identity in the substituted bounds is the destination of one in
    /// the bounds, which is handed back.
    pub proof fn lemma_substituted_mentions_only_destinations(
        self,
        mapping: Seq<(DeclarationId, DeclarationId)>,
        to: DeclarationId,
    ) -> (id: DeclarationId)
        requires
            self.substituted(mapping).mentions(to),
        ensures
            self.mentions(id),
            destination(mapping, id) == to,
    {
        let bounds = self.trait_constraints;
        let after = substituted_constraints(bounds, mapping);
        let i = choose|i: int| 0 <= i < after.len() && (#[trigger] after[i]).trait_decl_id == to;
        assert(self.mentions(bounds[i].trait_decl_id));
        bounds[i].trait_decl_id
    }
}

impl TyFunctionDeclarationView {
    /// A mapping that leaves every identity in the declaration as it is
    /// leaves the declaration as it is.
    pub proof fn lemma_unchanged_when_identities_fixed(
        self,
        mapping: Seq<(DeclarationId, DeclarationId)>,
    )
        requires
            forall|id: DeclarationId| #[trigger]
                self.mentions(id) ==> destination(mapping, id) == id,
        ensures
            self.substituted(mapping) == self,
    {
        assert forall|id: DeclarationId| #[trigger] self.body.mentions(id) implies destination(
            mapping,
            id,
        ) == id by {
            assert(self.mentions(id));
        }
        self.body.lemma_unchanged_when_identities_fixed(mapping);
        let generics = self.type_parameters;
        let after = substituted_type_parameters(generics, mapping);
        assert forall|i: int| 0 <= i < generics.len() implies after[i] == generics[i] by {
            assert forall|id: DeclarationId| #[trigger]
                generics[i].mentions(id) implies destination(mapping, id) == id by {
                assert(self.mentions(id));
            }
            generics[i].lemma_unchanged_when_identities_fixed(mapping);
        }
        assert(after =~= generics);
    }

    /// A mapping that leaves the declaration as it is leaves every identity
    /// in the declaration as it is.
    pub proof fn lemma_identities_fixed_when_unchanged(
        self,
        mapping: Seq<(DeclarationId, DeclarationId)>,
        id: DeclarationId,
    )
        requires
            self.substituted(mapping) == self,
            self.mentions(id),
        ensures
            destination(mapping, id) == id,
    {
        if self.body.mentions(id) {
            self.body.lemma_identities_fixed_when_unchanged(mapping, id);
        } else {
            let generics = self.type_parameters;
            let after = substituted_type_parameters(generics, mapping);
            assert(after == generics);
            let i = choose|i: int| 0 <= i < generics.len() && (#[trigger] generics[i]).mentions(id);
            assert(after[i] == generics[i]);
            generics[i].lemma_identities_fixed_when_unchanged(mapping, id);
        }
    }

    /// An identity in the declaration has its destination in the
    /// substituted declaration.
    pub proof fn lemma_substituted_mentions_destination(
        self,
        mapping: Seq<(DeclarationId, DeclarationId)>,
        id: DeclarationId,
    )
        requires
            self.mentions(id),
        ensures
            self.substituted(mapping).mentions(destination(mapping, id)),
    {
        if self.body.mentions(id) {
            self.body.lemma_substituted_mentions_destination(mapping, id);
        } else {
            let generics = self.type_parameters;
            let after = substituted_type_parameters(generics, mapping);
            let i = choose|i: int| 0 <= i < generics.len() && (#[trigger] generics[i]).mentions(id);
            generics[i].lemma_substituted_mentions_destination(mapping, id);
            assert(after[i] == generics[i].substituted(mapping));
            assert(self.substituted(mapping).type_parameters[i].mentions(
                destination(mapping, id),
            ));
        }
    }

    /// An identity in the substituted declaration is the destination of one
    /// in the declaration, which is handed back.
    pub proof fn lemma_substituted_mentions_only_destinations(
        self,
        mapping: Seq<(DeclarationId, DeclarationId)>,
        to: DeclarationId,
    ) -> (id: DeclarationId)
        requires
            self.substituted(mapping).mentions(to),
        ensures
            self.mentions(id),
            destination(mapping, id) == to,
    {
        if self.body.substituted(mapping).mentions(to) {
            self.body.lemma_substituted_mentions_only_destinations(mapping, to)
        } else {
            let generics = self.type_parameters;
            let after = substituted_type_parameters(generics, mapping);
            let i = choose|i: int| 0 <= i < after.len() && (#[trigger] after[i]).mentions(to);
            let id = generics[i].lemma_substituted_mentions_only_destinations(mapping, to);
            assert(generics[i].mentions(id));
            id
        }
    }

    /// The empty mapping changes nothing.
    pub proof fn lemma_empty_mapping_changes_nothing(self)
        ensures
            self.substituted(Seq::empty()) == self,
    {
        assert forall|id: DeclarationId| #[trigger] self.mentions(id) implies destination(
            Seq::empty(),
            id,
        ) == id by {
            lemma_no_match(Seq::empty(), id);
        }
        self.lemma_unchanged_when_identities_fixed(Seq::empty());
    }

    /// A mapping leaves the declaration as it is exactly when it leaves
    /// every identity in the declaration as it is.
    pub proof fn lemma_unchanged_iff_identities_fixed(
        self,
        mapping: Seq<(DeclarationId, DeclarationId)>,
    )
        ensures
            self.substituted(mapping) == self <==> forall|id: DeclarationId| #[trigger]
                self.mentions(id) ==> destination(mapping, id) == id,
    {
        if forall|id: DeclarationId| #[trigger]
            self.mentions(id) ==> destination(mapping, id) == id {
            self.lemma_unchanged_when_identities_fixed(mapping);
        }
        if self.substituted(mapping) == self {
            assert forall|id: DeclarationId| #[trigger] self.mentions(id) implies destination(
                mapping,
                id,
            ) == id by {
                self.lemma_identities_fixed_when_unchanged(mapping, id);
            }
        }
    }

    /// The identities of the substituted declaration are the destinations
    /// of the identities of the declaration.
    pub proof fn lemma_substituted_mentions(
        self,
        mapping: Seq<(DeclarationId, DeclarationId)>,
        to: DeclarationId,
    )
        ensures
            self.substituted(mapping).mentions(to) <==> exists|id: DeclarationId| #[trigger]
                self.mentions(id) && destination(mapping, id) == to,
    {
        if self.substituted(mapping).mentions(to) {
            let id = self.lemma_substituted_mentions_only_destinations(mapping, to);
            assert(self.mentions(id) && destination(mapping, id) == to);
        }
        if exists|id: DeclarationId| #[trigger]
            self.mentions(id) && destination(mapping, id) == to {
            let id = choose|id: DeclarationId| #[trigger]
                self.mentions(id) && destination(mapping, id) == to;
            self.lemma_substituted_mentions_destination(mapping, id);
        }
    }

    /// Substituting twice along one mapping gives what substituting once
    /// gives, exactly when no identity of the declaration is sent to one
    /// that the mapping sends further.
    pub proof fn lemma_substituting_twice(self, mapping: Seq<(DeclarationId, DeclarationId)>)
        ensures
            self.substituted(mapping).substituted(mapping) == self.substituted(mapping)
                <==> forall|id: DeclarationId| #[trigger]
                self.mentions(id) ==> destination(mapping, destination(mapping, id))
                    == destination(mapping, id),
    {
        let once = self.substituted(mapping);
        once.lemma_unchanged_iff_identities_fixed(mapping);
        if forall|id: DeclarationId| #[trigger]
            self.mentions(id) ==> destination(mapping, destination(mapping, id)) == destination(
                mapping,
                id,
            ) {
            assert forall|to: DeclarationId| #[trigger] once.mentions(to) implies destination(
                mapping,
                to,
            ) == to by {
                let id = self.lemma_substituted_mentions_only_destinations(mapping, to);
                assert(self.mentions(id));
            }
        }
        if once.substituted(mapping) == once {
            assert forall|id: DeclarationId| #[trigger] self.mentions(id) implies destination(
                mapping,
                destination(mapping, id),
            ) == destination(mapping, id) by {
                self.lemma_substituted_mentions_destination(mapping, id);
                assert(once.mentions(destination(mapping, id)));
            }
        }
    }

    /// Substitution is idempotent along a mapping none of whose destinations
    /// is the source of a pair that leads elsewhere.
    pub proof fn lemma_substitution_is_idempotent(
        self,
        mapping: Seq<(DeclarationId, DeclarationId)>,
    )
        requires
            forall|id: DeclarationId| #[trigger]
                self.mentions(id) ==> destination(mapping, destination(mapping, id))
                    == destination(mapping, id),
        ensures
            self.substituted(mapping).substituted(mapping) == self.substituted(mapping),
    {
        self.lemma_substituting_twice(mapping);
    }
}

impl TyExpressionView {
    /// The empty mapping changes nothing.
    pub proof fn lemma_empty_mapping_changes_nothing(self)
        ensures
            self.substituted(Seq::empty()) == self,
    {
        assert forall|id: DeclarationId| #[trigger] self.mentions(id) implies destination(
            Seq::empty(),
            id,
        ) == id by {
            lemma_no_match(Seq::empty(), id);
        }
        self.lemma_unchanged_when_identities_fixed(Seq::empty());
    }
}

impl TyExpressionVariantView {
    /// The empty mapping changes nothing.
    pub proof fn lemma_empty_mapping_changes_nothing(self)
        ensures
            self.substituted(Seq::empty()) == self,
    {
        assert forall|id: DeclarationId| #[trigger] self.mentions(id) implies destination(
            Seq::empty(),
            id,
        ) == id by {
            lemma_no_match(Seq::empty(), id);
        }
        self.lemma_unchanged_when_identities_fixed(Seq::empty());
    }
}

impl TyCodeBlockView {
    /// The empty mapping changes nothing.
    pub proof fn lemma_empty_mapping_changes_nothing(self)
        ensures
            self.substituted(Seq::empty()) == self,
    {
        assert forall|id: DeclarationId| #[trigger] self.mentions(id) implies destination(
            Seq::empty(),
            id,
        ) == id by {
            lemma_no_match(Seq::empty(), id);
        }
        self.lemma_unchanged_when_identities_fixed(Seq::empty());
    }
}

impl TyAstNodeView {
    /// The empty mapping changes nothing.
    pub proof fn lemma_empty_mapping_changes_nothing(self)
        ensures
            self.substituted(Seq::empty()) == self,
    {
        assert forall|id: DeclarationId| #[trigger] self.mentions(id) implies destination(
            Seq::empty(),
            id,
        ) == id by {
            lemma_no_match(Seq::empty(), id);
        }
        self.lemma_unchanged_when_identities_fixed(Seq::empty());
    }
}

/// What can hold identities of declarations and have them replaced.
pub trait ReplaceDecls: View + Sized {
    /// What a value becomes when each identity in it that `mapping` has a
    /// destination for is replaced by that destination.
    spec fn replaced(value: Self::V, mapping: Seq<(DeclarationId, DeclarationId)>) -> Self::V;

    /// The empty mapping replaces nothing.
    proof fn lemma_empty_mapping_replaces_nothing(value: Self::V)
        ensures
            Self::replaced(value, Seq::empty()) == value,
    ;

    /// Replaces the identities in `self`, walking all of it.
    fn replace_decls_inner(&mut self, decl_mapping: &DeclMapping)
        ensures
            final(self)@ == Self::replaced(old(self)@, decl_mapping@),
    ;

    /// Replaces the identities in `self`. Nothing is walked for the empty
    /// mapping.
    fn replace_decls(&mut self, decl_mapping: &DeclMapping)
        ensures
            final(self)@ == Self::replaced(old(self)@, decl_mapping@),
    {
        if !decl_mapping.is_empty() {
            self.replace_decls_inner(decl_mapping);
        } else {
            proof {
                assert(decl_mapping@ =~= Seq::empty());
                Self::lemma_empty_mapping_replaces_nothing(self@);
            }
        }
    }
}

impl DeclarationId {
    /// Replaces the identity by its destination, if `decl_mapping` has one.
    pub fn substitute(&mut self, decl_mapping: &DeclMapping)
        ensures
            *final(self) == destination(decl_mapping@, *old(self)),
    {
        let found = decl_mapping.find_match(&*self);
        match found {
            Some(new_decl_id) => {
                *self = new_decl_id;
            },
            None => {},
        }
    }
}

impl TyExpression {
    /// Replaces every identity in the expression that `decl_mapping` has a
    /// destination for.
    pub fn substitute(&mut self, decl_mapping: &DeclMapping)
        ensures
            final(self)@ == old(self)@.substituted(decl_mapping@),
        decreases *old(self),
    {
        self.expression.substitute(decl_mapping);
    }
}

impl TyExpressionVariant {
    /// Replaces every identity in the expression that `decl_mapping` has a
    /// destination for.
    pub fn substitute(&mut self, decl_mapping: &DeclMapping)
        ensures
            final(self)@ == old(self)@.substituted(decl_mapping@),
        decreases *old(self),
    {
        match self {
            TyExpressionVariant::Literal(_) => {},
            TyExpressionVariant::VariableExpression { .. } => {},
            TyExpressionVariant::FunctionApplication { arguments, function_decl_id, .. } => {
                function_decl_id.substitute(decl_mapping);
                let ghost before = arguments@;
                let n = arguments.len();
                let mut i: usize = 0;
                while i < n
                    invariant
                        i <= n,
                        n == before.len(),
                        arguments@.len() == n,
                        *old(self) is FunctionApplication,
                        (*old(self))->arguments@ == before,
                        forall|j: int|
                            0 <= j < i ==> (#[trigger] arguments@[j]).0 == before[j].0
                                && arguments@[j].1@ == before[j].1@.substituted(decl_mapping@),
                        forall|j: int| i <= j < n ==> #[trigger] arguments@[j] == before[j],
                    decreases n - i,
                {
                    arguments[i].1.substitute(decl_mapping);
                    i += 1;
                }
                proof {
                    let now = arguments_view(arguments@);
                    let wanted = substituted_arguments(arguments_view(before), decl_mapping@);
                    assert forall|j: int| 0 <= j < n implies now[j] == wanted[j] by {
                        assert(arguments@[j].0 == before[j].0);
                    }
                    assert(now =~= wanted);
                }
            },
            TyExpressionVariant::Tuple { fields } => {
                let ghost before = fields@;
                let n = fields.len();
                let mut i: usize = 0;
                while i < n
                    invariant
                        i <= n,
                        n == before.len(),
                        fields@.len() == n,
                        *old(self) is Tuple,
                        (*old(self))->fields@ == before,
                        forall|j: int|
                            0 <= j < i ==> (#[trigger] fields@[j])@ == before[j]@.substituted(
                                decl_mapping@,
                            ),
                        forall|j: int| i <= j < n ==> #[trigger] fields@[j] == before[j],
                    decreases n - i,
                {
                    fields[i].substitute(decl_mapping);
                    i += 1;
                }
                proof {
                    let now = expressions_view(fields@);
                    let wanted = substituted_expressions(expressions_view(before), decl_mapping@);
                    assert forall|j: int| 0 <= j < n implies now[j] == wanted[j] by {
                        assert(fields@[j]@ == before[j]@.substituted(decl_mapping@));
                    }
                    assert(now =~= wanted);
                }
            },
            TyExpressionVariant::CodeBlock(block) => {
                block.substitute(decl_mapping);
            },
            TyExpressionVariant::IfExp { condition, then, otherwise } => {
                condition.substitute(decl_mapping);
                then.substitute(decl_mapping);
                match otherwise {
                    Some(expression) => {
                        expression.substitute(decl_mapping);
                    },
                    None => {},
                }
            },
        }
    }
}

impl TyCodeBlock {
    /// Replaces every identity in the block that `decl_mapping` has a
    /// destination for.
    pub fn substitute(&mut self, decl_mapping: &DeclMapping)
        ensures
            final(self)@ == old(self)@.substituted(decl_mapping@),
        decreases *old(self),
    {
        let ghost before = self.contents@;
        let n = self.contents.len();
        let mut i: usize = 0;
        while i < n
            invariant
                i <= n,
                n == before.len(),
                self.contents@.len() == n,
                old(self).contents@ == before,
                forall|j: int|
                    0 <= j < i ==> (#[trigger] self.contents@[j])@ == before[j]@.substituted(
                        decl_mapping@,
                    ),
                forall|j: int| i <= j < n ==> #[trigger] self.contents@[j] == before[j],
            decreases n - i,
        {
            self.contents[i].substitute(decl_mapping);
            i += 1;
        }
        proof {
            let now = nodes_view(self.contents@);
            let wanted = substituted_nodes(nodes_view(before), decl_mapping@);
            assert forall|j: int| 0 <= j < n implies now[j] == wanted[j] by {
                assert(self.contents@[j]@ == before[j]@.substituted(decl_mapping@));
            }
            assert(now =~= wanted);
        }
    }
}

impl TyAstNode {
    /// Replaces every identity in the node that `decl_mapping` has a
    /// destination for.
    pub fn substitute(&mut self, decl_mapping: &DeclMapping)
        ensures
            final(self)@ == old(self)@.substituted(decl_mapping@),
        decreases *old(self),
    {
        match self {
            TyAstNode::VariableDeclaration { body, .. } => {
                body.substitute(decl_mapping);
            },
            TyAstNode::FunctionDeclaration(id) => {
                id.substitute(decl_mapping);
            },
            TyAstNode::Expression(expression) => {
                expression.substitute(decl_mapping);
            },
            TyAstNode::ImplicitReturnExpression(expression) => {
                expression.substitute(decl_mapping);
            },
            TyAstNode::SideEffect => {},
        }
    }
}

impl TypeParameter {
    /// Replaces the declaration of each trait in the bounds that
    /// `decl_mapping` has a destination for.
    pub fn substitute(&mut self, decl_mapping: &DeclMapping)
        ensures
            final(self)@ == old(self)@.substituted(decl_mapping@),
    {
        let ghost before = self.trait_constraints@;
        let n = self.trait_constraints.len();
        let mut i: usize = 0;
        while i < n
            invariant
                i <= n,
                n == before.len(),
                self.trait_constraints@.len() == n,
                self.type_id == old(self).type_id,
                self.name_ident == old(self).name_ident,
                forall|j: int|
                    0 <= j < i ==> #[trigger] self.trait_constraints@[j] == substituted_constraints(
                        before,
                        decl_mapping@,
                    )[j],
                forall|j: int| i <= j < n ==> #[trigger] self.trait_constraints@[j] == before[j],
            decreases n - i,
        {
            self.trait_constraints[i].trait_decl_id.substitute(decl_mapping);
            i += 1;
        }
        assert(self.trait_constraints@ =~= substituted_constraints(before, decl_mapping@));
    }
}

impl TyFunctionDeclaration {
    /// Replaces every identity in the body and in the bounds of the type
    /// parameters that `decl_mapping` has a destination for.
    pub fn substitute(&mut self, decl_mapping: &DeclMapping)
        ensures
            final(self)@ == old(self)@.substituted(decl_mapping@),
    {
        self.body.substitute(decl_mapping);
        let ghost before = self.type_parameters@;
        let n = self.type_parameters.len();
        let mut i: usize = 0;
        while i < n
            invariant
                i <= n,
                n == before.len(),
                self.type_parameters@.len() == n,
                self.name == old(self).name,
                self.body@ == old(self).body@.substituted(decl_mapping@),
                self.parameters == old(self).parameters,
                self.span == old(self).span,
                self.return_type == old(self).return_type,
                self.purity == old(self).purity,
                old(self).type_parameters@ == before,
                forall|j: int|
                    0 <= j < i ==> (#[trigger] self.type_parameters@[j])@ == before[j]@.substituted(
                        decl_mapping@,
                    ),
                forall|j: int| i <= j < n ==> #[trigger] self.type_parameters@[j] == before[j],
            decreases n - i,
        {
            self.type_parameters[i].substitute(decl_mapping);
            i += 1;
        }
        assert(self@.type_parameters =~= substituted_type_parameters(
            old(self)@.type_parameters,
            decl_mapping@,
        ));
    }
}

impl ReplaceDecls for DeclarationId {
    open spec fn replaced(
        value: DeclarationId,
        mapping: Seq<(DeclarationId, DeclarationId)>,
    ) -> DeclarationId {
        destination(mapping, value)
    }

    proof fn lemma_empty_mapping_replaces_nothing(value: DeclarationId) {
        lemma_no_match(Seq::empty(), value);
    }

    fn replace_decls_inner(&mut self, decl_mapping: &DeclMapping) {
        self.substitute(decl_mapping);
    }
}

impl ReplaceDecls for TyExpression {
    open spec fn replaced(
        value: TyExpressionView,
        mapping: Seq<(DeclarationId, DeclarationId)>,
    ) -> TyExpressionView {
        value.substituted(mapping)
    }

    proof fn lemma_empty_mapping_replaces_nothing(value: TyExpressionView) {
        value.lemma_empty_mapping_changes_nothing();
    }

    fn replace_decls_inner(&mut self, decl_mapping: &DeclMapping) {
        self.substitute(decl_mapping);
    }
}

impl ReplaceDecls for TyExpressionVariant {
    open spec fn replaced(
        value: TyExpressionVariantView,
        mapping: Seq<(DeclarationId, DeclarationId)>,
    ) -> TyExpressionVariantView {
        value.substituted(mapping)
    }

    proof fn lemma_empty_mapping_replaces_nothing(value: TyExpressionVariantView) {
        value.lemma_empty_mapping_changes_nothing();
    }

    fn replace_decls_inner(&mut self, decl_mapping: &DeclMapping) {
        self.substitute(decl_mapping);
    }
}

impl ReplaceDecls for TyCodeBlock {
    open spec fn replaced(
        value: TyCodeBlockView,
        mapping: Seq<(DeclarationId, DeclarationId)>,
    ) -> TyCodeBlockView {
        value.substituted(mapping)
    }

    proof fn lemma_empty_mapping_replaces_nothing(value: TyCodeBlockView) {
        value.lemma_empty_mapping_changes_nothing();
    }

    fn replace_decls_inner(&mut self, decl_mapping: &DeclMapping) {
        self.substitute(decl_mapping);
    }
}

impl ReplaceDecls for TyAstNode {
    open spec fn replaced(
        value: TyAstNodeView,
        mapping: Seq<(DeclarationId, DeclarationId)>,
    ) -> TyAstNodeView {
        value.substituted(mapping)
    }

    proof fn lemma_empty_mapping_replaces_nothing(value: TyAstNodeView) {
        value.lemma_empty_mapping_changes_nothing();
    }

    fn replace_decls_inner(&mut self, decl_mapping: &DeclMapping) {
        self.substitute(decl_mapping);
    }
}

impl ReplaceDecls for TypeParameter {
    open spec fn replaced(
        value: TypeParameterView,
        mapping: Seq<(DeclarationId, DeclarationId)>,
    ) -> TypeParameterView {
        value.substituted(mapping)
    }

    proof fn lemma_empty_mapping_replaces_nothing(value: TypeParameterView) {
        assert forall|id: DeclarationId| #[trigger] value.mentions(id) implies destination(
            Seq::empty(),
            id,
        ) == id by {
            lemma_no_match(Seq::empty(), id);
        }
        value.lemma_unchanged_when_identities_fixed(Seq::empty());
    }

    fn replace_decls_inner(&mut self, decl_mapping: &DeclMapping) {
        self.substitute(decl_mapping);
    }
}

impl ReplaceDecls for TyFunctionDeclaration {
    open spec fn replaced(
        value: TyFunctionDeclarationView,
        mapping: Seq<(DeclarationId, DeclarationId)>,
    ) -> TyFunctionDeclarationView {
        value.substituted(mapping)
    }

    proof fn lemma_empty_mapping_replaces_nothing(value: TyFunctionDeclarationView) {
        value.lemma_empty_mapping_changes_nothing();
    }

    fn replace_decls_inner(&mut self, decl_mapping: &DeclMapping) {
        self.substitute(decl_mapping);
    }
}

} // verus!
