//! Checking one call of a function and specializing the callee for it.
//!
//! The call is checked in stages: purity, arity, the arguments one by one,
//! the trait constraints of the callee. What is wrong with the purity or
//! with an argument is reported and checking goes on; a wrong number of
//! arguments or an unmet constraint ends it. A call that gets through has
//! the callee's declarations replaced along the mapping that its
//! constraints gave, and the result stored as a declaration of its own.

use vstd::prelude::*;
use sway_error::warning::CompileWarning;
use sway_types::Ident;
use sway_types::Span;
use crate::decl_id::DeclarationId;
use crate::decl_id::TypeId;
use crate::decl_mapping::DeclMapping;
use crate::engine::DeclarationEngine;
use crate::error::err;
use crate::error::errors_view;
use crate::error::lemma_errors_view_add;
use crate::error::lemma_errors_view_push;
use crate::error::ok;
use crate::error::CallError;
use crate::error::CallErrorView;
use crate::error::CompileResult;
use crate::language::attribute_syntax;
use crate::language::promote_purity;
use crate::language::promoted;
use crate::language::CallPath;
use crate::language::CallPathView;
use crate::language::Expression;
use crate::language::Purity;
use crate::language::VariableMutability;
use crate::passes::expression_view;
use crate::passes::mapping_view;
use crate::passes::Exchange;
use crate::passes::Passes;
use crate::passes::TypeChecker;
use crate::replace_decls::ReplaceDecls;
use crate::ty::arguments_view;
use crate::ty::DeclarationView;
use crate::ty::TyExpression;
use crate::ty::TyExpressionVariant;
use crate::ty::TyExpressionVariantView;
use crate::ty::TyExpressionView;
use crate::ty::TyFunctionDeclaration;
use crate::ty::TyFunctionDeclarationView;
use crate::ty::TyFunctionParameter;

verus! {

/// Where a call is checked: the purity of the function that holds the call,
/// and the passes to hand work to.
pub struct TypeCheckContext<C> {
    pub purity: Purity,
    pub passes: Passes<C>,
}

impl<C: TypeChecker> TypeCheckContext<C> {
    /// The context of a function of purity `purity` with `checker` to hand
    /// work to, of which nothing has been asked yet.
    pub fn new(purity: Purity, checker: C) -> (ctx: TypeCheckContext<C>)
        ensures
            ctx.purity == purity,
            ctx.passes.held() == checker,
            ctx.passes.exchanges() == Seq::<Exchange>::empty(),
    {
        TypeCheckContext { purity, passes: Passes::new(checker) }
    }

    /// The purity of the function that holds the call.
    pub fn purity(&self) -> (purity: Purity)
        ensures
            purity == self.purity,
    {
        self.purity
    }
}

/// What goes with the errors of an argument that does not fit its
/// parameter.
pub open spec fn argument_help_text() -> Seq<char> {
    "The argument that has been provided to this function's type does not match the declared type of the parameter in the function declaration."@
}

/// What goes with the errors of an argument that does not fit its
/// parameter.
pub fn help_text() -> (text: &'static str)
    ensures
        text@ == argument_help_text(),
{
    "The argument that has been provided to this function's type does not match the declared type of the parameter in the function declaration."
}

/// What is reported of a caller of purity `caller` that calls a function of
/// purity `callee`: nothing if it may, else the access that it lacks.
pub open spec fn purity_errors(caller: Purity, callee: Purity, span: Span) -> Seq<CallErrorView> {
    if caller.may_call(callee) {
        Seq::empty()
    } else {
        seq![
            CallErrorView::StorageAccessMismatch {
                attrs: attribute_syntax(promoted(caller, callee)),
                span,
            },
        ]
    }
}

/// What is reported of a call with `received` arguments to the function
/// `method_name` with `expected` parameters.
pub open spec fn arity_errors(
    received: usize,
    expected: usize,
    method_name: Ident,
    span: Span,
) -> Seq<CallErrorView> {
    if received == expected {
        Seq::empty()
    } else if received < expected {
        seq![CallErrorView::TooFewArgumentsForFunction { span, method_name, expected, received }]
    } else {
        seq![CallErrorView::TooManyArgumentsForFunction { span, method_name, expected, received }]
    }
}

/// Whether a parameter is written through.
pub open spec fn requires_mutable(parameter: TyFunctionParameter) -> bool {
    VariableMutability::from_ref_mut(parameter.is_reference, parameter.is_mutable).mutable()
}

/// What is reported of the argument `argument`, written at `span`, for the
/// parameter `parameter`.
pub open spec fn mutability_errors(
    argument: TyExpressionView,
    parameter: TyFunctionParameter,
    span: Span,
) -> Seq<CallErrorView> {
    if !argument.mutability().mutable() && requires_mutable(parameter) {
        seq![CallErrorView::ImmutableArgumentToMutableParameter { span }]
    } else {
        Seq::empty()
    }
}

/// What specializing `function_decl` along `mapping` for a call leaves: the
/// declarations `before` with the specialized declaration behind them, and
/// the call, whose callee is that new declaration. The call has the return
/// type of the callee and the span of the call path.
pub open spec fn specialized_call(
    before: Seq<DeclarationView>,
    function_decl: TyFunctionDeclarationView,
    mapping: Seq<(DeclarationId, DeclarationId)>,
    call_path: CallPathView,
    arguments: Seq<(Ident, TyExpressionView)>,
) -> (Seq<DeclarationView>, TyExpressionView) {
    (
        before.push(DeclarationView::Function(function_decl.substituted(mapping))),
        TyExpressionView {
            expression: TyExpressionVariantView::FunctionApplication {
                call_path,
                arguments,
                function_decl_id: DeclarationId { index: before.len() as usize },
            },
            return_type: function_decl.return_type,
            span: call_path.span,
        },
    )
}

/// Reports a caller that lacks a storage access of its callee, together
/// with the attribute that would allow the call.
pub fn check_purity(caller: Purity, callee: Purity, span: Span, errors: &mut Vec<CallError>)
    ensures
        errors_view(final(errors)@) == errors_view(old(errors)@) + purity_errors(
            caller,
            callee,
            span,
        ),
{
    if !caller.can_call(callee) {
        let error = CallError::StorageAccessMismatch {
            attrs: promote_purity(caller, callee).to_attribute_syntax(),
            span,
        };
        proof {
            lemma_errors_view_push(errors@, error);
        }
        errors.push(error);
        assert(errors_view(errors@) =~= errors_view(old(errors)@) + purity_errors(
            caller,
            callee,
            span,
        ));
    } else {
        assert(errors_view(errors@) =~= errors_view(old(errors)@) + purity_errors(
            caller,
            callee,
            span,
        ));
    }
}

/// Holds the number of arguments of a call against the number of parameters
/// of its callee. There is a value exactly when the two agree.
pub fn check_function_arguments_arity(
    arguments_len: usize,
    function_decl: &TyFunctionDeclaration,
    call_path: &CallPath,
) -> (result: CompileResult<()>)
    ensures
        result.value is Some <==> arguments_len == function_decl.parameters@.len(),
        result.warnings@ == Seq::<CompileWarning>::empty(),
        errors_view(result.errors@) == arity_errors(
            arguments_len,
            function_decl.parameters.len(),
            function_decl.name,
            call_path.span,
        ),
{
    let warnings: Vec<CompileWarning> = Vec::new();
    let mut errors: Vec<CallError> = Vec::new();
    let expected = function_decl.parameters.len();
    if arguments_len == expected {
        assert(errors_view(errors@) =~= Seq::empty());
        ok((), warnings, errors)
    } else if arguments_len < expected {
        let error = CallError::TooFewArgumentsForFunction {
            span: call_path.span(),
            method_name: function_decl.name.clone(),
            expected,
            received: arguments_len,
        };
        errors.push(error);
        assert(errors_view(errors@) =~= seq![error@]);
        err(warnings, errors)
    } else {
        let error = CallError::TooManyArgumentsForFunction {
            span: call_path.span(),
            method_name: function_decl.name.clone(),
            expected,
            received: arguments_len,
        };
        errors.push(error);
        assert(errors_view(errors@) =~= seq![error@]);
        err(warnings, errors)
    }
}

/// Reports an argument that cannot be written through for a parameter that
/// is written through.
pub fn check_argument_mutability(
    argument: &TyExpression,
    parameter: &TyFunctionParameter,
    span: Span,
    errors: &mut Vec<CallError>,
)
    ensures
        errors_view(final(errors)@) == errors_view(old(errors)@) + mutability_errors(
            argument@,
            *parameter,
            span,
        ),
{
    let param_mutability = VariableMutability::new_from_ref_mut(
        parameter.is_reference,
        parameter.is_mutable,
    );
    if argument.gather_mutability().is_immutable() && param_mutability.is_mutable() {
        let error = CallError::ImmutableArgumentToMutableParameter { span };
        proof {
            lemma_errors_view_push(errors@, error);
        }
        errors.push(error);
    }
    assert(errors_view(errors@) =~= errors_view(old(errors)@) + mutability_errors(
        argument@,
        *parameter,
        span,
    ));
}

/// Specializes `function_decl` for a call: replaces its declarations along
/// `decl_mapping`, stores the result as a new declaration and builds the
/// call to it. The declarations that the engine held stay as they are.
pub fn specialize(
    engine: &mut DeclarationEngine,
    function_decl: TyFunctionDeclaration,
    decl_mapping: &DeclMapping,
    call_path: CallPath,
    typed_arguments: Vec<(Ident, TyExpression)>,
) -> (call: TyExpression)
    ensures
        (final(engine)@, call@) == specialized_call(
            old(engine)@,
            function_decl@,
            decl_mapping@,
            call_path@,
            arguments_view(typed_arguments@),
        ),
{
    let mut function_decl = function_decl;
    function_decl.replace_decls(decl_mapping);
    let return_type = function_decl.return_type;
    let span = call_path.span();
    let new_decl_id = engine.insert_function(function_decl);
    TyExpression {
        expression: TyExpressionVariant::FunctionApplication {
            call_path,
            arguments: typed_arguments,
            function_decl_id: new_decl_id,
        },
        return_type,
        span,
    }
}

/// What the passes answered for one argument.
pub struct CheckedArgument {
    /// The typed argument, unless type checking failed.
    pub answer: Option<TyExpressionView>,
    /// The type for the stand-in, where there is one.
    pub recovery_type: TypeId,
    pub check_warnings: Seq<CompileWarning>,
    pub check_errors: Seq<CallErrorView>,
    pub unify_warnings: Seq<CompileWarning>,
    pub unify_errors: Seq<CallErrorView>,
}

/// What resolving the trait constraints answered.
pub struct Resolved {
    /// The mapping, unless a constraint is unmet.
    pub mapping: Option<Seq<(DeclarationId, DeclarationId)>>,
    pub warnings: Seq<CompileWarning>,
    pub errors: Seq<CallErrorView>,
}

/// What checking a call leaves behind: the result and the declarations of
/// the engine.
pub struct CallOutcome {
    pub value: Option<TyExpressionView>,
    pub warnings: Seq<CompileWarning>,
    pub errors: Seq<CallErrorView>,
    pub declarations: Seq<DeclarationView>,
}

impl CheckedArgument {
    /// The argument as it comes out of type checking: the answer, or its
    /// stand-in at the place of the argument. This is what is unified with
    /// the parameter and what the mutability is read from.
    pub open spec fn checked(self, span: Span) -> TyExpressionView {
        match self.answer {
            Some(typed) => typed,
            None => TyExpressionView::error(self.recovery_type, span),
        }
    }

    /// Whether a stand-in takes the place of the argument: type checking
    /// failed, or unifying it with the parameter reported an error.
    pub open spec fn stands_in(self) -> bool {
        self.answer is None || self.unify_errors.len() > 0
    }

    /// The argument as the call holds it: the answer of type checking, or
    /// the stand-in at the place of the argument.
    pub open spec fn typed(self, span: Span) -> TyExpressionView {
        if self.stands_in() {
            TyExpressionView::error(self.recovery_type, span)
        } else {
            self.answer->0
        }
    }

    /// What is warned of the argument: by type checking, then by unifying.
    pub open spec fn warnings(self) -> Seq<CompileWarning> {
        self.check_warnings + self.unify_warnings
    }

    /// What is reported of the argument: what type checking reported, what
    /// unifying it with `parameter` reported, and what its mutability calls
    /// for.
    pub open spec fn errors(self, parameter: TyFunctionParameter, span: Span) -> Seq<
        CallErrorView,
    > {
        self.check_errors + self.unify_errors + mutability_errors(
            self.checked(span),
            parameter,
            span,
        )
    }

    /// What is asked about `argument` for `parameter`, with these answers:
    /// the argument is type checked; the type of a stand-in is asked for if
    /// that failed; the type that came out is unified with the type of the
    /// parameter, at the span of what came out; and the type of a stand-in
    /// is asked for if only that failed.
    pub open spec fn exchanges(self, argument: Expression, parameter: TyFunctionParameter) -> Seq<
        Exchange,
    > {
        let checked = self.checked(argument.span);
        seq![
            Exchange::TypeCheck {
                expression: argument,
                help_text: argument_help_text(),
                value: self.answer,
                warnings: self.check_warnings,
                errors: self.check_errors,
            },
        ] + (if self.answer is None {
            seq![Exchange::RecoveryType { type_id: self.recovery_type }]
        } else {
            Seq::empty()
        }) + seq![
            Exchange::Unify {
                received: checked.return_type,
                expected: parameter.type_id,
                span: checked.span,
                help_text: argument_help_text(),
                warnings: self.unify_warnings,
                errors: self.unify_errors,
            },
        ] + (if self.answer is Some && self.unify_errors.len() > 0 {
            seq![Exchange::RecoveryType { type_id: self.recovery_type }]
        } else {
            Seq::empty()
        })
    }
}

/// The warnings of the arguments, one argument after the other.
pub open spec fn arguments_warnings(checked: Seq<CheckedArgument>) -> Seq<CompileWarning>
    decreases checked.len(),
{
    if checked.len() == 0 {
        Seq::empty()
    } else {
        arguments_warnings(checked.drop_last()) + checked.last().warnings()
    }
}

/// The errors of the arguments, one argument after the other.
pub open spec fn arguments_errors(
    checked: Seq<CheckedArgument>,
    parameters: Seq<TyFunctionParameter>,
    arguments: Seq<Expression>,
) -> Seq<CallErrorView>
    decreases checked.len(),
{
    if checked.len() == 0 {
        Seq::empty()
    } else {
        let last = checked.len() - 1;
        arguments_errors(checked.drop_last(), parameters, arguments) + checked[last].errors(
            parameters[last],
            arguments[last].span,
        )
    }
}

/// What is asked about the arguments, one argument after the other.
pub open spec fn arguments_exchanges(
    checked: Seq<CheckedArgument>,
    parameters: Seq<TyFunctionParameter>,
    arguments: Seq<Expression>,
) -> Seq<Exchange>
    decreases checked.len(),
{
    if checked.len() == 0 {
        Seq::empty()
    } else {
        let last = checked.len() - 1;
        arguments_exchanges(checked.drop_last(), parameters, arguments) + checked[last].exchanges(
            arguments[last],
            parameters[last],
        )
    }
}

/// The typed arguments, each under the name of the parameter in its place.
pub open spec fn named_arguments(
    checked: Seq<CheckedArgument>,
    parameters: Seq<TyFunctionParameter>,
    arguments: Seq<Expression>,
) -> Seq<(Ident, TyExpressionView)> {
    Seq::new(checked.len(), |i: int| (parameters[i].name, checked[i].typed(arguments[i].span)))
}

/// The request to resolve the constraints of `function_decl` for the call
/// by `call_path`, with its answer.
pub open spec fn resolution(
    function_decl: TyFunctionDeclarationView,
    call_path: CallPathView,
    resolved: Resolved,
) -> Exchange {
    Exchange::Resolve {
        type_parameters: function_decl.type_parameters,
        access_span: call_path.span,
        mapping: resolved.mapping,
        warnings: resolved.warnings,
        errors: resolved.errors,
    }
}

/// What the passes are asked for a call, with their answers: nothing with a
/// wrong number of arguments, else what there is to ask about each argument
/// in turn, and then the mapping of the callee's constraints.
pub open spec fn call_exchanges(
    function_decl: TyFunctionDeclarationView,
    call_path: CallPathView,
    arguments: Seq<Expression>,
    checked: Seq<CheckedArgument>,
    resolved: Resolved,
) -> Seq<Exchange> {
    if arguments.len() != function_decl.parameters.len() {
        Seq::empty()
    } else {
        arguments_exchanges(checked, function_decl.parameters, arguments).push(
            resolution(function_decl, call_path, resolved),
        )
    }
}

/// What checking a call leaves behind, given what the passes answer.
///
/// With a wrong number of arguments only purity and arity are reported.
/// Else everything is reported in the order of the stages, and there is a
/// value exactly when the constraints gave a mapping: the call of the
/// callee specialized along that mapping, which is then the last
/// declaration of the engine.
pub open spec fn call_outcome(
    caller: Purity,
    before: Seq<DeclarationView>,
    function_decl: TyFunctionDeclarationView,
    call_path: CallPathView,
    arguments: Seq<Expression>,
    checked: Seq<CheckedArgument>,
    resolved: Resolved,
) -> CallOutcome {
    let of_purity = purity_errors(caller, function_decl.purity, call_path.span);
    if arguments.len() != function_decl.parameters.len() {
        CallOutcome {
            value: None,
            warnings: Seq::empty(),
            errors: of_purity + arity_errors(
                arguments.len() as usize,
                function_decl.parameters.len() as usize,
                function_decl.name,
                call_path.span,
            ),
            declarations: before,
        }
    } else {
        let warnings = arguments_warnings(checked) + resolved.warnings;
        let errors = of_purity + arguments_errors(checked, function_decl.parameters, arguments)
            + resolved.errors;
        match resolved.mapping {
            None => CallOutcome { value: None, warnings, errors, declarations: before },
            Some(mapping) => {
                let specialized = specialized_call(
                    before,
                    function_decl,
                    mapping,
                    call_path,
                    named_arguments(checked, function_decl.parameters, arguments),
                );
                CallOutcome {
                    value: Some(specialized.1),
                    warnings,
                    errors,
                    declarations: specialized.0,
                }
            },
        }
    }
}

/// Whether a call was checked with the answers `checked` and `resolved`:
/// the record of the passes grew from `asked_before` to `asked_after` by
/// exactly the exchanges of the call, and `outcome` is what those answers
/// leave behind.
pub open spec fn was_checked_with(
    caller: Purity,
    before: Seq<DeclarationView>,
    function_decl: TyFunctionDeclarationView,
    call_path: CallPathView,
    arguments: Seq<Expression>,
    asked_before: Seq<Exchange>,
    asked_after: Seq<Exchange>,
    outcome: CallOutcome,
    checked: Seq<CheckedArgument>,
    resolved: Resolved,
) -> bool {
    &&& checked.len() == arguments.len()
    &&& asked_after == asked_before + call_exchanges(
        function_decl,
        call_path,
        arguments,
        checked,
        resolved,
    )
    &&& outcome == call_outcome(
        caller,
        before,
        function_decl,
        call_path,
        arguments,
        checked,
        resolved,
    )
}

/// Whether a call was checked: the passes were asked what the call asks
/// for and nothing else, and `outcome` is what their answers leave behind.
pub open spec fn was_checked(
    caller: Purity,
    before: Seq<DeclarationView>,
    function_decl: TyFunctionDeclarationView,
    call_path: CallPathView,
    arguments: Seq<Expression>,
    asked_before: Seq<Exchange>,
    asked_after: Seq<Exchange>,
    outcome: CallOutcome,
) -> bool {
    exists|checked: Seq<CheckedArgument>, resolved: Resolved|
        was_checked_with(
            caller,
            before,
            function_decl,
            call_path,
            arguments,
            asked_before,
            asked_after,
            outcome,
            checked,
            resolved,
        )
}

/// The result of a check as a value, with the declarations that the engine
/// then holds.
pub open spec fn outcome_of(
    result: CompileResult<TyExpression>,
    declarations: Seq<DeclarationView>,
) -> CallOutcome {
    CallOutcome {
        value: match result.value {
            Some(call) => Some(call@),
            None => None,
        },
        warnings: result.warnings@,
        errors: errors_view(result.errors@),
        declarations,
    }
}

/// What is unified for an argument: its type as received, the type of the
/// parameter as expected, at the span of the argument.
pub fn unification_request(argument: &TyExpression, parameter: &TyFunctionParameter) -> (request:
    (TypeId, TypeId, Span))
    ensures
        request == (argument.return_type, parameter.type_id, argument.span),
{
    (argument.return_type, parameter.type_id, argument.span.clone())
}

/// Asks for the type of a stand-in and builds the stand-in at `span`.
pub fn stand_in<C: TypeChecker>(passes: &mut Passes<C>, span: Span) -> (sentinel: TyExpression)
    ensures
        final(passes).exchanges() == old(passes).exchanges().push(
            Exchange::RecoveryType { type_id: sentinel.return_type },
        ),
        sentinel@ == TyExpressionView::error(sentinel.return_type, span),
{
    let type_id = passes.error_recovery_type();
    TyExpression::error(type_id, span)
}

/// Whether `argument` was checked for `parameter` with the answers
/// `checked`: the record of the passes, the warnings and the errors grew by
/// what those answers give, and `typed` is the argument as the call holds
/// it, under the name of the parameter.
pub open spec fn argument_was_checked(
    checked: CheckedArgument,
    argument: Expression,
    parameter: TyFunctionParameter,
    asked_before: Seq<Exchange>,
    asked_after: Seq<Exchange>,
    warnings_before: Seq<CompileWarning>,
    warnings_after: Seq<CompileWarning>,
    errors_before: Seq<CallErrorView>,
    errors_after: Seq<CallErrorView>,
    typed: (Ident, TyExpressionView),
) -> bool {
    &&& asked_after == asked_before + checked.exchanges(argument, parameter)
    &&& warnings_after == warnings_before + checked.warnings()
    &&& errors_after == errors_before + checked.errors(parameter, argument.span)
    &&& typed == (parameter.name, checked.typed(argument.span))
}

/// Checks one argument for its parameter: has it type checked and unified
/// with the type of the parameter, and holds its mutability against that of
/// the parameter. An argument that fails to type check or to unify is
/// replaced by a stand-in, and checking goes on.
pub fn check_argument<C: TypeChecker>(
    passes: &mut Passes<C>,
    argument: &Expression,
    parameter: &TyFunctionParameter,
    warnings: &mut Vec<CompileWarning>,
    errors: &mut Vec<CallError>,
) -> (typed: (Ident, TyExpression))
    ensures
        exists|checked: CheckedArgument|
            argument_was_checked(
                checked,
                *argument,
                *parameter,
                old(passes).exchanges(),
                final(passes).exchanges(),
                old(warnings)@,
                final(warnings)@,
                errors_view(old(errors)@),
                errors_view(final(errors)@),
                (typed.0, typed.1@),
            ),
{
    let ghost mut recovery_type = TypeId { index: 0 };

    let answered = passes.type_check(argument, help_text());
    let answered_well = answered.value.is_some();
    let ghost answer = expression_view(answered.value);
    let ghost check_warnings = answered.warnings@;
    let ghost check_errors = errors_view(answered.errors@);
    proof {
        lemma_errors_view_add(errors@, answered.errors@);
    }
    let exp = match answered.absorb(warnings, errors) {
        Some(exp) => exp,
        None => {
            let sentinel = stand_in(passes, argument.span());
            proof {
                recovery_type = sentinel.return_type;
            }
            sentinel
        },
    };

    let request = unification_request(&exp, parameter);
    let unified = passes.unify_right(request.0, request.1, &request.2, help_text());
    let mut unify_warnings = unified.0;
    let mut unify_errors = unified.1;
    let unified_well = unify_errors.len() == 0;
    let ghost of_unifying = errors_view(unify_errors@);
    let ghost warned = unify_warnings@;
    proof {
        lemma_errors_view_add(errors@, unify_errors@);
    }
    warnings.append(&mut unify_warnings);
    errors.append(&mut unify_errors);

    // An argument for a mutable parameter has to be mutable itself.
    check_argument_mutability(&exp, parameter, argument.span(), errors);
    let ghost came_out = exp@;

    let typed = if answered_well && !unified_well {
        let sentinel = stand_in(passes, argument.span());
        proof {
            recovery_type = sentinel.return_type;
        }
        sentinel
    } else {
        exp
    };
    let named = (parameter.name.clone(), typed);
    proof {
        let checked = CheckedArgument {
            answer,
            recovery_type,
            check_warnings,
            check_errors,
            unify_warnings: warned,
            unify_errors: of_unifying,
        };
        assert(came_out == checked.checked(argument.span));
        assert(passes.exchanges() =~= old(passes).exchanges() + checked.exchanges(
            *argument,
            *parameter,
        ));
        assert(warnings@ =~= old(warnings)@ + checked.warnings());
        assert(errors_view(errors@) =~= errors_view(old(errors)@) + checked.errors(
            *parameter,
            argument.span,
        ));
        assert(argument_was_checked(
            checked,
            *argument,
            *parameter,
            old(passes).exchanges(),
            passes.exchanges(),
            old(warnings)@,
            warnings@,
            errors_view(old(errors)@),
            errors_view(errors@),
            (named.0, named.1@),
        ));
    }
    named
}

/// Ends the check of a call with what resolving the constraints answered.
/// What was reported so far is followed by what resolving reported. With a
/// mapping, `function_decl` is specialized along it and stored, and the
/// value is the call of that new declaration; without one there is no value
/// and the engine stays as it is.
pub fn conclude(
    engine: &mut DeclarationEngine,
    function_decl: TyFunctionDeclaration,
    call_path: CallPath,
    typed_arguments: Vec<(Ident, TyExpression)>,
    resolved: CompileResult<DeclMapping>,
    warnings: Vec<CompileWarning>,
    errors: Vec<CallError>,
) -> (result: CompileResult<TyExpression>)
    ensures
        result.warnings@ == warnings@ + resolved.warnings@,
        errors_view(result.errors@) == errors_view(errors@) + errors_view(resolved.errors@),
        resolved.value is None ==> result.value is None && final(engine)@ == old(engine)@,
        resolved.value matches Some(decl_mapping) ==> result.value matches Some(call) && (
            final(engine)@,
            call@,
        ) == specialized_call(
            old(engine)@,
            function_decl@,
            decl_mapping@,
            call_path@,
            arguments_view(typed_arguments@),
        ),
{
    let mut warnings = warnings;
    let mut errors = errors;
    proof {
        lemma_errors_view_add(errors@, resolved.errors@);
    }
    match resolved.absorb(&mut warnings, &mut errors) {
        Some(decl_mapping) => {
            let call = specialize(engine, function_decl, &decl_mapping, call_path, typed_arguments);
            ok(call, warnings, errors)
        },
        None => err(warnings, errors),
    }
}

/// What resolving answered, as a value.
pub open spec fn resolved_of(resolved: CompileResult<DeclMapping>) -> Resolved {
    Resolved {
        mapping: mapping_view(resolved.value),
        warnings: resolved.warnings@,
        errors: errors_view(resolved.errors@),
    }
}

/// Whether the arguments of a call were checked with the answers `checked`
/// and the constraints of the callee resolved with the answer `resolved`:
/// the record of the passes grew by exactly the exchanges of the call, the
/// warnings and the errors by those of the arguments, and `typed` holds the
/// arguments as the call holds them.
pub open spec fn arguments_were_checked_with(
    function_decl: TyFunctionDeclarationView,
    call_path: CallPathView,
    arguments: Seq<Expression>,
    asked_before: Seq<Exchange>,
    asked_after: Seq<Exchange>,
    warnings_before: Seq<CompileWarning>,
    warnings_after: Seq<CompileWarning>,
    errors_before: Seq<CallErrorView>,
    errors_after: Seq<CallErrorView>,
    typed: Seq<(Ident, TyExpressionView)>,
    resolved: Resolved,
    checked: Seq<CheckedArgument>,
) -> bool {
    &&& checked.len() == arguments.len()
    &&& asked_after == asked_before + call_exchanges(
        function_decl,
        call_path,
        arguments,
        checked,
        resolved,
    )
    &&& warnings_after == warnings_before + arguments_warnings(checked)
    &&& errors_after == errors_before + arguments_errors(
        checked,
        function_decl.parameters,
        arguments,
    )
    &&& typed == named_arguments(checked, function_decl.parameters, arguments)
}

/// Whether the arguments of a call were checked and the constraints of the
/// callee resolved with the answer `resolved`, whatever was answered about
/// the arguments.
pub open spec fn arguments_were_checked(
    function_decl: TyFunctionDeclarationView,
    call_path: CallPathView,
    arguments: Seq<Expression>,
    asked_before: Seq<Exchange>,
    asked_after: Seq<Exchange>,
    warnings_before: Seq<CompileWarning>,
    warnings_after: Seq<CompileWarning>,
    errors_before: Seq<CallErrorView>,
    errors_after: Seq<CallErrorView>,
    typed: Seq<(Ident, TyExpressionView)>,
    resolved: Resolved,
) -> bool {
    exists|checked: Seq<CheckedArgument>|
        arguments_were_checked_with(
            function_decl,
            call_path,
            arguments,
            asked_before,
            asked_after,
            warnings_before,
            warnings_after,
            errors_before,
            errors_after,
            typed,
            resolved,
            checked,
        )
}

/// Checks a call up to the point where the engine comes in: purity, arity,
/// each argument for its parameter, and last the request to resolve the
/// constraints of the callee.
///
/// With a wrong number of arguments the answer is `None`, purity and arity
/// are reported and no pass is asked anything. Else the answer holds the
/// typed arguments under the names of their parameters and what resolving
/// answered, which is not looked into here.
pub fn check_call<C: TypeChecker>(
    ctx: &mut TypeCheckContext<C>,
    function_decl: &TyFunctionDeclaration,
    call_path: &CallPath,
    arguments: &Vec<Expression>,
    warnings: &mut Vec<CompileWarning>,
    errors: &mut Vec<CallError>,
) -> (prepared: Option<(Vec<(Ident, TyExpression)>, CompileResult<DeclMapping>)>)
    ensures
        final(ctx).purity == old(ctx).purity,
        prepared is Some <==> arguments@.len() == function_decl.parameters@.len(),
        prepared is None ==> {
            &&& *final(ctx) == *old(ctx)
            &&& final(warnings)@ == old(warnings)@
            &&& errors_view(final(errors)@) == errors_view(old(errors)@) + purity_errors(
                old(ctx).purity,
                function_decl.purity,
                call_path.span,
            ) + arity_errors(
                arguments.len(),
                function_decl.parameters.len(),
                function_decl.name,
                call_path.span,
            )
        },
        prepared matches Some(answer) ==> arguments_were_checked(
            function_decl@,
            call_path@,
            arguments@,
            old(ctx).passes.exchanges(),
            final(ctx).passes.exchanges(),
            old(warnings)@,
            final(warnings)@,
            errors_view(old(errors)@) + purity_errors(
                old(ctx).purity,
                function_decl.purity,
                call_path.span,
            ),
            errors_view(final(errors)@),
            arguments_view(answer.0@),
            resolved_of(answer.1),
        ),
{
    let ghost of_purity = purity_errors(ctx.purity, function_decl.purity, call_path.span);
    let ghost asked_before = ctx.passes.exchanges();

    // The purity of the callee is held against that of the caller.
    check_purity(ctx.purity(), function_decl.purity, call_path.span(), errors);
    let ghost errors_before = errors_view(errors@);

    // The number of arguments has to be the number of parameters.
    let arity = check_function_arguments_arity(arguments.len(), function_decl, call_path);
    proof {
        lemma_errors_view_add(errors@, arity.errors@);
    }
    if arity.absorb(warnings, errors).is_none() {
        assert(warnings@ =~= old(warnings)@);
        return None;
    }
    assert(warnings@ =~= old(warnings)@);
    assert(errors_view(errors@) =~= errors_before);

    // Each argument is type checked and unified with its parameter.
    let n = arguments.len();
    let mut typed_arguments: Vec<(Ident, TyExpression)> = Vec::new();
    let ghost mut checked: Seq<CheckedArgument> = Seq::empty();
    let mut i: usize = 0;
    while i < n
        invariant
            i <= n,
            n == arguments@.len(),
            n == function_decl.parameters@.len(),
            ctx.purity == old(ctx).purity,
            checked.len() == i,
            typed_arguments@.len() == i,
            forall|j: int|
                0 <= j < i ==> (#[trigger] typed_arguments@[j]).0
                    == function_decl.parameters@[j].name && typed_arguments@[j].1@
                    == checked[j].typed(arguments@[j].span),
            ctx.passes.exchanges() == asked_before + arguments_exchanges(
                checked,
                function_decl.parameters@,
                arguments@,
            ),
            warnings@ == old(warnings)@ + arguments_warnings(checked),
            errors_view(errors@) == errors_before + arguments_errors(
                checked,
                function_decl.parameters@,
                arguments@,
            ),
        decreases n - i,
    {
        let ghost asked_at_entry = ctx.passes.exchanges();
        let ghost warnings_at_entry = warnings@;
        let ghost errors_at_entry = errors_view(errors@);
        let typed = check_argument(
            &mut ctx.passes,
            &arguments[i],
            &function_decl.parameters[i],
            warnings,
            errors,
        );
        proof {
            let of_argument = choose|of_argument: CheckedArgument|
                argument_was_checked(
                    of_argument,
                    arguments@[i as int],
                    function_decl.parameters@[i as int],
                    asked_at_entry,
                    ctx.passes.exchanges(),
                    warnings_at_entry,
                    warnings@,
                    errors_at_entry,
                    errors_view(errors@),
                    (typed.0, typed.1@),
                );
            let longer = checked.push(of_argument);
            assert(longer.drop_last() =~= checked);
            assert(ctx.passes.exchanges() =~= asked_before + arguments_exchanges(
                longer,
                function_decl.parameters@,
                arguments@,
            ));
            assert(warnings@ =~= old(warnings)@ + arguments_warnings(longer));
            assert(errors_view(errors@) =~= errors_before + arguments_errors(
                longer,
                function_decl.parameters@,
                arguments@,
            ));
            checked = longer;
        }
        typed_arguments.push(typed);
        i += 1;
    }

    // The trait constraints of the callee give the mapping.
    let resolved = ctx.passes.gather_decl_mapping_from_trait_constraints(
        &function_decl.type_parameters,
        &call_path.span(),
    );
    proof {
        assert(arguments_view(typed_arguments@) =~= named_arguments(
            checked,
            function_decl.parameters@,
            arguments@,
        ));
        assert(ctx.passes.exchanges() =~= asked_before + call_exchanges(
            function_decl@,
            call_path@,
            arguments@,
            checked,
            resolved_of(resolved),
        ));
        assert(arguments_were_checked_with(
            function_decl@,
            call_path@,
            arguments@,
            asked_before,
            ctx.passes.exchanges(),
            old(warnings)@,
            warnings@,
            errors_before,
            errors_view(errors@),
            arguments_view(typed_arguments@),
            resolved_of(resolved),
            checked,
        ));
    }
    Some((typed_arguments, resolved))
}

/// The errors of the arguments hold the errors of each argument.
pub proof fn lemma_arguments_errors_hold(
    checked: Seq<CheckedArgument>,
    parameters: Seq<TyFunctionParameter>,
    arguments: Seq<Expression>,
    i: int,
    error: CallErrorView,
)
    requires
        0 <= i < checked.len(),
        checked[i].errors(parameters[i], arguments[i].span).contains(error),
    ensures
        arguments_errors(checked, parameters, arguments).contains(error),
    decreases checked.len(),
{
    let last = checked.len() - 1;
    let head = arguments_errors(checked.drop_last(), parameters, arguments);
    let tail = checked[last].errors(parameters[last], arguments[last].span);
    if i < last {
        lemma_arguments_errors_hold(checked.drop_last(), parameters, arguments, i, error);
        let k = choose|k: int| 0 <= k < head.len() && head[k] == error;
        assert((head + tail)[k] == error);
    } else {
        let k = choose|k: int| 0 <= k < tail.len() && tail[k] == error;
        assert((head + tail)[head.len() + k] == error);
    }
}

/// A call with the right number of arguments reports each argument that
/// cannot be written through and stands for a parameter that is written
/// through, whatever else is reported and whether or not there is a value.
pub proof fn lemma_immutable_argument_is_reported(
    caller: Purity,
    before: Seq<DeclarationView>,
    function_decl: TyFunctionDeclarationView,
    call_path: CallPathView,
    arguments: Seq<Expression>,
    checked: Seq<CheckedArgument>,
    resolved: Resolved,
    i: int,
)
    requires
        arguments.len() == function_decl.parameters.len(),
        checked.len() == arguments.len(),
        0 <= i < arguments.len(),
        !checked[i].checked(arguments[i].span).mutability().mutable(),
        requires_mutable(function_decl.parameters[i]),
    ensures
        call_outcome(
            caller,
            before,
            function_decl,
            call_path,
            arguments,
            checked,
            resolved,
        ).errors.contains(
            CallErrorView::ImmutableArgumentToMutableParameter { span: arguments[i].span },
        ),
{
    let error = CallErrorView::ImmutableArgumentToMutableParameter { span: arguments[i].span };
    let of_argument = checked[i].errors(function_decl.parameters[i], arguments[i].span);
    let of_mutability = mutability_errors(
        checked[i].checked(arguments[i].span),
        function_decl.parameters[i],
        arguments[i].span,
    );
    assert(of_mutability[0] == error);
    assert(of_argument[of_argument.len() - 1] == error);
    lemma_arguments_errors_hold(checked, function_decl.parameters, arguments, i, error);
    let of_purity = purity_errors(caller, function_decl.purity, call_path.span);
    let of_arguments = arguments_errors(checked, function_decl.parameters, arguments);
    let k = choose|k: int| 0 <= k < of_arguments.len() && of_arguments[k] == error;
    assert((of_purity + of_arguments + resolved.errors)[of_purity.len() + k] == error);
}

/// Whatever the passes answer, what is reported starts with what there is
/// to say about the purity of caller and callee.
pub proof fn lemma_purity_is_reported_first(
    caller: Purity,
    before: Seq<DeclarationView>,
    function_decl: TyFunctionDeclarationView,
    call_path: CallPathView,
    arguments: Seq<Expression>,
    checked: Seq<CheckedArgument>,
    resolved: Resolved,
)
    ensures
        purity_errors(caller, function_decl.purity, call_path.span).is_prefix_of(
            call_outcome(
                caller,
                before,
                function_decl,
                call_path,
                arguments,
                checked,
                resolved,
            ).errors,
        ),
{
    let of_purity = purity_errors(caller, function_decl.purity, call_path.span);
    let errors = call_outcome(
        caller,
        before,
        function_decl,
        call_path,
        arguments,
        checked,
        resolved,
    ).errors;
    assert(of_purity =~= errors.subrange(0, of_purity.len() as int));
}

/// Whatever the passes answer, the declarations that the engine held stay
/// where and as they were, and a value is the call of a declaration that
/// the engine did not hold before.
pub proof fn lemma_earlier_declarations_stay(
    caller: Purity,
    before: Seq<DeclarationView>,
    function_decl: TyFunctionDeclarationView,
    call_path: CallPathView,
    arguments: Seq<Expression>,
    checked: Seq<CheckedArgument>,
    resolved: Resolved,
)
    requires
        before.len() <= usize::MAX,
    ensures
        ({
            let outcome = call_outcome(
                caller,
                before,
                function_decl,
                call_path,
                arguments,
                checked,
                resolved,
            );
            &&& before.is_prefix_of(outcome.declarations)
            &&& outcome.value is None ==> outcome.declarations == before
            &&& outcome.value matches Some(call) ==> {
                &&& outcome.declarations.len() == before.len() + 1
                &&& call.expression is FunctionApplication
                &&& call.expression->function_decl_id.index == before.len()
                &&& exists|mapping: Seq<(DeclarationId, DeclarationId)>|
                    outcome.declarations.last() == DeclarationView::Function(
                        #[trigger] function_decl.substituted(mapping),
                    )
            }
        }),
{
    let outcome = call_outcome(
        caller,
        before,
        function_decl,
        call_path,
        arguments,
        checked,
        resolved,
    );
    assert(before =~= outcome.declarations.subrange(0, before.len() as int));
    if outcome.value is Some {
        let mapping = resolved.mapping->0;
        assert(outcome.declarations.last() == DeclarationView::Function(
            function_decl.substituted(mapping),
        ));
    }
}

/// A callee without constraints is stored as it is: the empty mapping
/// changes nothing in it.
pub proof fn lemma_empty_mapping_stores_the_callee(
    before: Seq<DeclarationView>,
    function_decl: TyFunctionDeclarationView,
    call_path: CallPathView,
    arguments: Seq<(Ident, TyExpressionView)>,
)
    ensures
        specialized_call(before, function_decl, Seq::empty(), call_path, arguments).0
            == before.push(DeclarationView::Function(function_decl)),
{
    function_decl.lemma_empty_mapping_changes_nothing();
}

/// What is asked about one argument starts with its type check and holds
/// no other.
pub proof fn lemma_argument_exchanges_start_with_the_type_check(
    checked: CheckedArgument,
    argument: Expression,
    parameter: TyFunctionParameter,
)
    ensures
        checked.exchanges(argument, parameter).len() >= 2,
        checked.exchanges(argument, parameter)[0] is TypeCheck,
        forall|k: int|
            1 <= k < checked.exchanges(argument, parameter).len() ==> !(
            #[trigger] checked.exchanges(argument, parameter)[k] is TypeCheck),
{
}

/// The exchanges about one argument decide what the argument gives: two
/// sets of answers with the same exchanges give the same warnings, the same
/// errors and the same typed argument.
pub proof fn lemma_argument_exchanges_decide(
    first: CheckedArgument,
    second: CheckedArgument,
    argument: Expression,
    parameter: TyFunctionParameter,
)
    requires
        first.exchanges(argument, parameter) == second.exchanges(argument, parameter),
    ensures
        first.warnings() == second.warnings(),
        first.errors(parameter, argument.span) == second.errors(parameter, argument.span),
        first.typed(argument.span) == second.typed(argument.span),
{
    let asked = first.exchanges(argument, parameter);
    let again = second.exchanges(argument, parameter);
    assert(asked[0] == again[0]);
    assert(first.answer == second.answer);
    assert(asked[1] == again[1]);
    if first.answer is None {
        assert(asked[2] == again[2]);
    } else if first.unify_errors.len() > 0 {
        assert(asked[2] == again[2]);
    }
}

/// The exchanges about the arguments decide what the arguments give.
pub proof fn lemma_arguments_exchanges_decide(
    first: Seq<CheckedArgument>,
    second: Seq<CheckedArgument>,
    parameters: Seq<TyFunctionParameter>,
    arguments: Seq<Expression>,
)
    requires
        first.len() == second.len(),
        arguments_exchanges(first, parameters, arguments) == arguments_exchanges(
            second,
            parameters,
            arguments,
        ),
    ensures
        arguments_warnings(first) == arguments_warnings(second),
        arguments_errors(first, parameters, arguments) == arguments_errors(
            second,
            parameters,
            arguments,
        ),
        named_arguments(first, parameters, arguments) == named_arguments(
            second,
            parameters,
            arguments,
        ),
    decreases first.len(),
{
    if first.len() == 0 {
        assert(named_arguments(first, parameters, arguments) =~= named_arguments(
            second,
            parameters,
            arguments,
        ));
    } else {
        let last = first.len() - 1;
        let head = arguments_exchanges(first.drop_last(), parameters, arguments);
        let head_again = arguments_exchanges(second.drop_last(), parameters, arguments);
        let tail = first[last].exchanges(arguments[last], parameters[last]);
        let tail_again = second[last].exchanges(arguments[last], parameters[last]);
        let all = head + tail;
        assert(all == head_again + tail_again);
        lemma_argument_exchanges_start_with_the_type_check(
            first[last],
            arguments[last],
            parameters[last],
        );
        lemma_argument_exchanges_start_with_the_type_check(
            second[last],
            arguments[last],
            parameters[last],
        );
        if head.len() < head_again.len() {
            let k = head_again.len() - head.len();
            assert(all[head_again.len() as int] == tail_again[0]);
            assert(all[head_again.len() as int] == tail[k]);
        } else if head_again.len() < head.len() {
            let k = head.len() - head_again.len();
            assert(all[head.len() as int] == tail[0]);
            assert(all[head.len() as int] == tail_again[k]);
        }
        assert(head =~= all.subrange(0, head.len() as int));
        assert(head_again =~= all.subrange(0, head.len() as int));
        assert(tail =~= all.subrange(head.len() as int, all.len() as int));
        assert(tail_again =~= all.subrange(head.len() as int, all.len() as int));
        lemma_argument_exchanges_decide(
            first[last],
            second[last],
            arguments[last],
            parameters[last],
        );
        lemma_arguments_exchanges_decide(
            first.drop_last(),
            second.drop_last(),
            parameters,
            arguments,
        );
        let named = named_arguments(first, parameters, arguments);
        let named_again = named_arguments(second, parameters, arguments);
        assert forall|i: int| 0 <= i < named.len() implies named[i] == named_again[i] by {
            if i < last {
                assert(named_arguments(first.drop_last(), parameters, arguments)[i]
                    == named_arguments(second.drop_last(), parameters, arguments)[i]);
            }
        }
        assert(named =~= named_again);
    }
}

/// The record of the passes decides the outcome: whichever answers explain
/// the exchanges of a call, what the call leaves behind is the same.
pub proof fn lemma_exchanges_decide_the_outcome(
    caller: Purity,
    before: Seq<DeclarationView>,
    function_decl: TyFunctionDeclarationView,
    call_path: CallPathView,
    arguments: Seq<Expression>,
    first: Seq<CheckedArgument>,
    resolved: Resolved,
    second: Seq<CheckedArgument>,
    resolved_again: Resolved,
)
    requires
        first.len() == arguments.len(),
        second.len() == arguments.len(),
        call_exchanges(function_decl, call_path, arguments, first, resolved) == call_exchanges(
            function_decl,
            call_path,
            arguments,
            second,
            resolved_again,
        ),
    ensures
        call_outcome(caller, before, function_decl, call_path, arguments, first, resolved)
            == call_outcome(
            caller,
            before,
            function_decl,
            call_path,
            arguments,
            second,
            resolved_again,
        ),
{
    if arguments.len() == function_decl.parameters.len() {
        let of_arguments = arguments_exchanges(first, function_decl.parameters, arguments);
        let again = arguments_exchanges(second, function_decl.parameters, arguments);
        let asked = of_arguments.push(resolution(function_decl, call_path, resolved));
        let asked_again = again.push(resolution(function_decl, call_path, resolved_again));
        assert(asked.len() == asked_again.len());
        assert(asked.last() == asked_again.last());
        assert(of_arguments =~= asked.drop_last());
        assert(again =~= asked_again.drop_last());
        assert(resolved == resolved_again);
        lemma_arguments_exchanges_decide(first, second, function_decl.parameters, arguments);
    }
}

/// Checks the call of `function_decl` by `call_path` with `arguments` and,
/// if the call gets through, specializes `function_decl` for it.
///
/// The passes are asked what the call asks for and nothing else, and result
/// and engine are what [`call_outcome`] says for their answers. So with a
/// wrong number of arguments nothing but purity and arity is reported and
/// no pass is asked anything: the context is as it was. The engine changes
/// only when there is a value, by one new declaration.
pub fn instantiate_function_application<C: TypeChecker>(
    ctx: &mut TypeCheckContext<C>,
    engine: &mut DeclarationEngine,
    function_decl: TyFunctionDeclaration,
    call_path: CallPath,
    arguments: Vec<Expression>,
) -> (result: CompileResult<TyExpression>)
    ensures
        final(ctx).purity == old(ctx).purity,
        was_checked(
            old(ctx).purity,
            old(engine)@,
            function_decl@,
            call_path@,
            arguments@,
            old(ctx).passes.exchanges(),
            final(ctx).passes.exchanges(),
            outcome_of(result, final(engine)@),
        ),
        arguments@.len() != function_decl.parameters@.len() ==> {
            &&& *final(ctx) == *old(ctx)
            &&& result.value is None
            &&& result.warnings@ == Seq::<CompileWarning>::empty()
            &&& errors_view(result.errors@) == purity_errors(
                old(ctx).purity,
                function_decl.purity,
                call_path.span,
            ) + arity_errors(
                arguments.len(),
                function_decl.parameters.len(),
                function_decl.name,
                call_path.span,
            )
        },
        result.value is None ==> final(engine)@ == old(engine)@,
        result.value is Some ==> arguments@.len() == function_decl.parameters@.len(),
{
    let mut warnings: Vec<CompileWarning> = Vec::new();
    let mut errors: Vec<CallError> = Vec::new();
    let ghost caller = ctx.purity;
    let ghost of_purity = purity_errors(ctx.purity, function_decl.purity, call_path.span);
    assert(errors_view(errors@) + of_purity =~= of_purity);
    match check_call(ctx, &function_decl, &call_path, &arguments, &mut warnings, &mut errors) {
        None => {
            proof {
                let unchecked = Seq::new(
                    arguments@.len(),
                    |i: int|
                        CheckedArgument {
                            answer: None,
                            recovery_type: TypeId { index: 0 },
                            check_warnings: Seq::empty(),
                            check_errors: Seq::empty(),
                            unify_warnings: Seq::empty(),
                            unify_errors: Seq::empty(),
                        },
                );
                let unresolved = Resolved {
                    mapping: None,
                    warnings: Seq::empty(),
                    errors: Seq::empty(),
                };
                assert(warnings@ =~= Seq::empty());
                assert(errors_view(errors@) =~= of_purity + arity_errors(
                    arguments.len(),
                    function_decl.parameters.len(),
                    function_decl.name,
                    call_path.span,
                ));
                assert(ctx.passes.exchanges() =~= old(ctx).passes.exchanges() + Seq::empty());
                assert(was_checked_with(
                    caller,
                    old(engine)@,
                    function_decl@,
                    call_path@,
                    arguments@,
                    old(ctx).passes.exchanges(),
                    ctx.passes.exchanges(),
                    CallOutcome {
                        value: None,
                        warnings: warnings@,
                        errors: errors_view(errors@),
                        declarations: old(engine)@,
                    },
                    unchecked,
                    unresolved,
                ));
            }
            err(warnings, errors)
        },
        Some(prepared) => {
            let typed_arguments = prepared.0;
            let resolved = prepared.1;
            let ghost answered = resolved_of(resolved);
            let ghost typed = arguments_view(typed_arguments@);
            let ghost warned = warnings@;
            let ghost reported = errors_view(errors@);
            let ghost declared = function_decl@;
            let ghost path = call_path@;
            let result = conclude(
                engine,
                function_decl,
                call_path,
                typed_arguments,
                resolved,
                warnings,
                errors,
            );
            proof {
                let checked = choose|checked: Seq<CheckedArgument>|
                    arguments_were_checked_with(
                        declared,
                        path,
                        arguments@,
                        old(ctx).passes.exchanges(),
                        ctx.passes.exchanges(),
                        Seq::empty(),
                        warned,
                        of_purity,
                        reported,
                        typed,
                        answered,
                        checked,
                    );
                assert(warned =~= arguments_warnings(checked));
                assert(outcome_of(result, engine@) == call_outcome(
                    caller,
                    old(engine)@,
                    declared,
                    path,
                    arguments@,
                    checked,
                    answered,
                ));
                assert(was_checked_with(
                    caller,
                    old(engine)@,
                    declared,
                    path,
                    arguments@,
                    old(ctx).passes.exchanges(),
                    ctx.passes.exchanges(),
                    outcome_of(result, engine@),
                    checked,
                    answered,
                ));
            }
            result
        },
    }
}

} // verus!
