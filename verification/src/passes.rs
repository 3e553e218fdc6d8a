//! The passes that checking a call hands work to, and the record of what
//! they were asked and what they answered.

use vstd::prelude::*;
use sway_error::warning::CompileWarning;
use sway_types::Span;
use crate::decl_id::DeclarationId;
use crate::decl_id::TypeId;
use crate::decl_mapping::DeclMapping;
use crate::error::errors_view;
use crate::error::CallError;
use crate::error::CallErrorView;
use crate::error::CompileResult;
use crate::language::Expression;
use crate::ty::TyExpression;
use crate::ty::TyExpressionView;
use crate::ty::TypeParameter;
use crate::ty::type_parameters_view;
use crate::ty::TypeParameterView;

verus! {

/// The passes that checking a call hands work to. Nothing is assumed of
/// what they answer.
pub trait TypeChecker {
    /// The type of an expression that stands in for one with an error.
    fn error_recovery_type(&mut self) -> TypeId;

    /// Type checks `expression` with no type expected of it. `help_text`
    /// goes with what is reported.
    fn type_check(&mut self, expression: &Expression, help_text: &str) -> CompileResult<
        TyExpression,
    >;

    /// Unifies the type `received` with the type `expected`, which is the
    /// one that counts: only `received` may give way.
    fn unify_right(
        &mut self,
        received: TypeId,
        expected: TypeId,
        span: &Span,
        help_text: &str,
    ) -> (Vec<CompileWarning>, Vec<CallError>);

    /// Resolves the trait constraints of `type_parameters` and pairs each
    /// declaration of a constraint with the declaration that meets it.
    fn gather_decl_mapping_from_trait_constraints(
        &mut self,
        type_parameters: &Vec<TypeParameter>,
        access_span: &Span,
    ) -> CompileResult<DeclMapping>;
}

/// One request to a pass together with its answer.
pub enum Exchange {
    /// The type for a stand-in was asked for.
    RecoveryType { type_id: TypeId },
    /// An expression was type checked.
    TypeCheck {
        expression: Expression,
        help_text: Seq<char>,
        value: Option<TyExpressionView>,
        warnings: Seq<CompileWarning>,
        errors: Seq<CallErrorView>,
    },
    /// Two types were unified.
    Unify {
        received: TypeId,
        expected: TypeId,
        span: Span,
        help_text: Seq<char>,
        warnings: Seq<CompileWarning>,
        errors: Seq<CallErrorView>,
    },
    /// Trait constraints were resolved.
    Resolve {
        type_parameters: Seq<TypeParameterView>,
        access_span: Span,
        mapping: Option<Seq<(DeclarationId, DeclarationId)>>,
        warnings: Seq<CompileWarning>,
        errors: Seq<CallErrorView>,
    },
}

/// The value of a result as a value.
pub open spec fn expression_view(value: Option<TyExpression>) -> Option<TyExpressionView> {
    match value {
        Some(expression) => Some(expression@),
        None => None,
    }
}

/// The value of a result as a value.
pub open spec fn mapping_view(value: Option<DeclMapping>) -> Option<
    Seq<(DeclarationId, DeclarationId)>,
> {
    match value {
        Some(mapping) => Some(mapping@),
        None => None,
    }
}

/// A checker together with the record of every exchange with it. The
/// record grows by one with each request that goes through, and in no
/// other way.
pub struct Passes<C> {
    checker: C,
    asked: Ghost<Seq<Exchange>>,
}

impl<C: TypeChecker> Passes<C> {
    /// The exchanges so far, the earliest first.
    pub closed spec fn exchanges(&self) -> Seq<Exchange> {
        self.asked@
    }

    /// The checker that the requests go to.
    pub closed spec fn held(&self) -> C {
        self.checker
    }

    /// `checker` with nothing asked of it yet.
    pub fn new(checker: C) -> (passes: Passes<C>)
        ensures
            passes.held() == checker,
            passes.exchanges() == Seq::<Exchange>::empty(),
    {
        Passes { checker, asked: Ghost(Seq::empty()) }
    }

    /// The checker that the requests go to.
    pub fn checker(&self) -> (checker: &C)
        ensures
            *checker == self.held(),
    {
        &self.checker
    }

    /// Gives the checker back and drops the record.
    pub fn into_checker(self) -> (checker: C)
        ensures
            checker == self.held(),
    {
        self.checker
    }

    /// Asks for the type of a stand-in.
    pub fn error_recovery_type(&mut self) -> (type_id: TypeId)
        ensures
            final(self).exchanges() == old(self).exchanges().push(
                Exchange::RecoveryType { type_id },
            ),
    {
        let type_id = self.checker.error_recovery_type();
        self.asked = Ghost(self.asked@.push(Exchange::RecoveryType { type_id }));
        type_id
    }

    /// Has `expression` type checked.
    pub fn type_check(&mut self, expression: &Expression, help_text: &str) -> (answer:
        CompileResult<TyExpression>)
        ensures
            final(self).exchanges() == old(self).exchanges().push(
                Exchange::TypeCheck {
                    expression: *expression,
                    help_text: help_text@,
                    value: expression_view(answer.value),
                    warnings: answer.warnings@,
                    errors: errors_view(answer.errors@),
                },
            ),
    {
        let answer = self.checker.type_check(expression, help_text);
        self.asked = Ghost(
            self.asked@.push(
                Exchange::TypeCheck {
                    expression: *expression,
                    help_text: help_text@,
                    value: expression_view(answer.value),
                    warnings: answer.warnings@,
                    errors: errors_view(answer.errors@),
                },
            ),
        );
        answer
    }

    /// Has `received` unified with `expected`.
    pub fn unify_right(
        &mut self,
        received: TypeId,
        expected: TypeId,
        span: &Span,
        help_text: &str,
    ) -> (answer: (Vec<CompileWarning>, Vec<CallError>))
        ensures
            final(self).exchanges() == old(self).exchanges().push(
                Exchange::Unify {
                    received,
                    expected,
                    span: *span,
                    help_text: help_text@,
                    warnings: answer.0@,
                    errors: errors_view(answer.1@),
                },
            ),
    {
        let answer = self.checker.unify_right(received, expected, span, help_text);
        self.asked = Ghost(
            self.asked@.push(
                Exchange::Unify {
                    received,
                    expected,
                    span: *span,
                    help_text: help_text@,
                    warnings: answer.0@,
                    errors: errors_view(answer.1@),
                },
            ),
        );
        answer
    }

    /// Has the trait constraints of `type_parameters` resolved.
    pub fn gather_decl_mapping_from_trait_constraints(
        &mut self,
        type_parameters: &Vec<TypeParameter>,
        access_span: &Span,
    ) -> (answer: CompileResult<DeclMapping>)
        ensures
            final(self).exchanges() == old(self).exchanges().push(
                Exchange::Resolve {
                    type_parameters: type_parameters_view(type_parameters@),
                    access_span: *access_span,
                    mapping: mapping_view(answer.value),
                    warnings: answer.warnings@,
                    errors: errors_view(answer.errors@),
                },
            ),
    {
        let answer = self.checker.gather_decl_mapping_from_trait_constraints(
            type_parameters,
            access_span,
        );
        self.asked = Ghost(
            self.asked@.push(
                Exchange::Resolve {
                    type_parameters: type_parameters_view(type_parameters@),
                    access_span: *access_span,
                    mapping: mapping_view(answer.value),
                    warnings: answer.warnings@,
                    errors: errors_view(answer.errors@),
                },
            ),
        );
        answer
    }
}

} // verus!
