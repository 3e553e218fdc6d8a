use declaration_engine::decl_id::DeclarationId;
use declaration_engine::decl_id::TypeId;
use declaration_engine::decl_mapping::DeclMapping;
use declaration_engine::engine::DeclarationEngine;
use declaration_engine::error::CallError;
use declaration_engine::error::CompileResult;
use declaration_engine::function_application::check_argument_mutability;
use declaration_engine::function_application::check_function_arguments_arity;
use declaration_engine::function_application::check_purity;
use declaration_engine::function_application::instantiate_function_application;
use declaration_engine::function_application::specialize;
use declaration_engine::function_application::TypeCheckContext;
use declaration_engine::function_application::check_argument;
use declaration_engine::function_application::check_call;
use declaration_engine::function_application::conclude;
use declaration_engine::function_application::help_text;
use declaration_engine::function_application::stand_in;
use declaration_engine::function_application::unification_request;
use declaration_engine::passes::Passes;
use declaration_engine::passes::TypeChecker;
use declaration_engine::language::CallPath;
use declaration_engine::language::Expression;
use declaration_engine::language::ExpressionKind;
use declaration_engine::language::Purity;
use declaration_engine::language::VariableMutability;
use declaration_engine::ty::Declaration;
use declaration_engine::ty::TraitConstraint;
use declaration_engine::ty::TyAstNode;
use declaration_engine::ty::TyCodeBlock;
use declaration_engine::ty::TyExpression;
use declaration_engine::ty::TyExpressionVariant;
use declaration_engine::ty::TyFunctionDeclaration;
use declaration_engine::ty::TyFunctionParameter;
use declaration_engine::ty::TypeParameter;
use sway_error::error::CompileError;
use sway_error::type_error::TypeError;
use sway_error::warning::CompileWarning;
use sway_error::warning::Warning;
use sway_types::Ident;
use sway_types::Span;

const U64: usize = 1;
const BOOL: usize = 2;
const ERROR: usize = 99;

/// A checker that knows a few variables, takes literals for `u64`, and
/// writes down what it is asked.
struct Checker {
    variables: Vec<(&'static str, VariableMutability, usize)>,
    constraints: Option<Vec<(usize, usize)>>,
    warn_on_unify: bool,
    log: Vec<String>,
}

impl Checker {
    fn new() -> Checker {
        Checker {
            variables: vec![
                ("a", VariableMutability::Immutable, U64),
                ("m", VariableMutability::Mutable, U64),
                ("r", VariableMutability::RefMutable, U64),
                ("flag", VariableMutability::Immutable, BOOL),
            ],
            constraints: Some(vec![]),
            warn_on_unify: false,
            log: vec![],
        }
    }
}

fn unknown_variable(name: &Ident, span: &Span) -> CompileError {
    CompileError::UnknownVariablePath { var_name: name.clone(), span: span.clone() }
}

fn mismatch(received: TypeId, expected: TypeId, span: &Span, help_text: &str) -> CompileError {
    CompileError::TypeError(TypeError::MismatchedType {
        expected: format!("{}", expected.index()),
        received: format!("{}", received.index()),
        help_text: help_text.to_string(),
        span: span.clone(),
    })
}

fn unmet_constraint(span: &Span) -> CompileError {
    CompileError::Unimplemented("constraint", span.clone())
}

fn unify_warning(span: &Span) -> CompileWarning {
    CompileWarning { span: span.clone(), warning_content: Warning::DeadDeclaration }
}

impl TypeChecker for Checker {
    fn error_recovery_type(&mut self) -> TypeId {
        self.log.push("error_recovery_type".to_string());
        TypeId::new(ERROR)
    }

    fn type_check(&mut self, expression: &Expression, _help_text: &str) -> CompileResult<TyExpression> {
        self.log.push(format!("type_check {}", expression.span.as_str()));
        match &expression.kind {
            ExpressionKind::Literal(value) => CompileResult {
                value: Some(TyExpression {
                    expression: TyExpressionVariant::Literal(*value),
                    return_type: TypeId::new(U64),
                    span: expression.span.clone(),
                }),
                warnings: vec![],
                errors: vec![],
            },
            ExpressionKind::Variable(name) => {
                let known = self.variables.iter().find(|(known, _, _)| *known == name.as_str());
                match known {
                    Some((_, mutability, type_id)) => CompileResult {
                        value: Some(TyExpression {
                            expression: TyExpressionVariant::VariableExpression {
                                name: name.clone(),
                                mutability: *mutability,
                            },
                            return_type: TypeId::new(*type_id),
                            span: expression.span.clone(),
                        }),
                        warnings: vec![],
                        errors: vec![],
                    },
                    None => CompileResult {
                        value: None,
                        warnings: vec![],
                        errors: vec![CallError::Reported(unknown_variable(name, &expression.span))],
                    },
                }
            }
            _ => CompileResult {
                value: None,
                warnings: vec![],
                errors: vec![CallError::Reported(CompileError::Unimplemented(
                    "expression",
                    expression.span.clone(),
                ))],
            },
        }
    }

    fn unify_right(
        &mut self,
        received: TypeId,
        expected: TypeId,
        span: &Span,
        help_text: &str,
    ) -> (Vec<CompileWarning>, Vec<CallError>) {
        self.log.push(format!(
            "unify_right {} {} {}",
            received.index(),
            expected.index(),
            span.as_str()
        ));
        let warnings = if self.warn_on_unify { vec![unify_warning(span)] } else { vec![] };
        if received == expected || received.index() == ERROR {
            (warnings, vec![])
        } else {
            (warnings, vec![CallError::Reported(mismatch(received, expected, span, help_text))])
        }
    }

    fn gather_decl_mapping_from_trait_constraints(
        &mut self,
        type_parameters: &Vec<TypeParameter>,
        access_span: &Span,
    ) -> CompileResult<DeclMapping> {
        self.log.push(format!(
            "gather_decl_mapping_from_trait_constraints {} {}",
            type_parameters.len(),
            access_span.as_str()
        ));
        match &self.constraints {
            Some(pairs) => CompileResult {
                value: Some(DeclMapping {
                    mapping: pairs
                        .iter()
                        .map(|(from, to)| (DeclarationId::new(*from), DeclarationId::new(*to)))
                        .collect(),
                }),
                warnings: vec![],
                errors: vec![],
            },
            None => CompileResult {
                value: None,
                warnings: vec![],
                errors: vec![CallError::Reported(unmet_constraint(access_span))],
            },
        }
    }
}

fn context(purity: Purity) -> TypeCheckContext<Checker> {
    TypeCheckContext::new(purity, Checker::new())
}

fn context_with(purity: Purity, constraints: Option<Vec<(usize, usize)>>) -> TypeCheckContext<Checker> {
    let mut checker = Checker::new();
    checker.constraints = constraints;
    TypeCheckContext::new(purity, checker)
}

fn warning_context(purity: Purity) -> TypeCheckContext<Checker> {
    let mut checker = Checker::new();
    checker.warn_on_unify = true;
    TypeCheckContext::new(purity, checker)
}

fn span(text: &str) -> Span {
    Span::from_string(text.to_string())
}

fn path_to(name: &'static str) -> CallPath {
    CallPath {
        prefixes: vec![],
        suffix: Ident::new_no_span(name),
        is_absolute: false,
        span: span(name),
    }
}

fn variable(name: &'static str) -> Expression {
    Expression { kind: ExpressionKind::Variable(Ident::new_no_span(name)), span: span(name) }
}

fn literal(value: u64, text: &str) -> Expression {
    Expression { kind: ExpressionKind::Literal(value), span: span(text) }
}

fn parameter(name: &'static str, is_reference: bool, is_mutable: bool) -> TyFunctionParameter {
    TyFunctionParameter {
        name: Ident::new_no_span(name),
        is_reference,
        is_mutable,
        type_id: TypeId::new(U64),
    }
}

/// fn add<T: Show>(x: u64, y: u64) -> u64 { show(x) }, where `show` is the
/// declaration in slot 0.
fn add(parameters: Vec<TyFunctionParameter>, purity: Purity) -> TyFunctionDeclaration {
    TyFunctionDeclaration {
        name: Ident::new_no_span("add"),
        body: TyCodeBlock {
            contents: vec![TyAstNode::ImplicitReturnExpression(TyExpression {
                expression: TyExpressionVariant::FunctionApplication {
                    call_path: path_to("show"),
                    arguments: vec![(
                        Ident::new_no_span("value"),
                        TyExpression {
                            expression: TyExpressionVariant::VariableExpression {
                                name: Ident::new_no_span("x"),
                                mutability: VariableMutability::Immutable,
                            },
                            return_type: TypeId::new(U64),
                            span: span("x"),
                        },
                    )],
                    function_decl_id: DeclarationId::new(0),
                },
                return_type: TypeId::new(U64),
                span: span("show(x)"),
            })],
        },
        parameters,
        span: span("fn add"),
        return_type: TypeId::new(U64),
        type_parameters: vec![TypeParameter {
            type_id: TypeId::new(7),
            name_ident: Ident::new_no_span("T"),
            trait_constraints: vec![TraitConstraint {
                trait_name: Ident::new_no_span("Show"),
                trait_decl_id: DeclarationId::new(0),
            }],
        }],
        purity,
    }
}

fn two_parameters() -> Vec<TyFunctionParameter> {
    vec![parameter("x", false, false), parameter("y", false, false)]
}

fn callee_of(declaration: &TyFunctionDeclaration) -> usize {
    match &declaration.body.contents[0] {
        TyAstNode::ImplicitReturnExpression(TyExpression {
            expression: TyExpressionVariant::FunctionApplication { function_decl_id, .. },
            ..
        }) => function_decl_id.index(),
        _ => panic!("the body of the sample is one call"),
    }
}

/// An engine with `show` in slot 0, the show of `u64` in slot 1 and `add`
/// in slot 2.
fn engine_with(declaration: &TyFunctionDeclaration) -> (DeclarationEngine, DeclarationId) {
    let mut engine = DeclarationEngine::new();
    engine.insert_function(add(vec![parameter("value", false, false)], Purity::Pure));
    engine.insert_function(add(vec![parameter("value", false, false)], Purity::Reads));
    let id = engine.insert_function(declaration.clone());
    (engine, id)
}

#[test]
fn one_argument_for_two_parameters_is_too_few() {
    let declaration = add(two_parameters(), Purity::Pure);
    let (mut engine, _) = engine_with(&declaration);
    let before = engine.clone();
    let mut ctx = context(Purity::Pure);
    let result = instantiate_function_application(
        &mut ctx,
        &mut engine,
        declaration,
        path_to("add"),
        vec![variable("a")],
    );
    assert_eq!(result.value, None);
    assert_eq!(result.warnings, vec![]);
    assert_eq!(
        result.errors,
        vec![CallError::TooFewArgumentsForFunction {
            span: span("add"),
            method_name: Ident::new_no_span("add"),
            expected: 2,
            received: 1,
        }]
    );
    assert_eq!(ctx.passes.checker().log, Vec::<String>::new());
    assert_eq!(engine, before);
}

#[test]
fn three_arguments_for_two_parameters_are_too_many() {
    let declaration = add(two_parameters(), Purity::Pure);
    let (mut engine, _) = engine_with(&declaration);
    let before = engine.clone();
    let mut ctx = context(Purity::Pure);
    let result = instantiate_function_application(
        &mut ctx,
        &mut engine,
        declaration,
        path_to("add"),
        vec![variable("a"), variable("m"), literal(3, "3")],
    );
    assert_eq!(result.value, None);
    assert_eq!(result.warnings, vec![]);
    assert_eq!(
        result.errors,
        vec![CallError::TooManyArgumentsForFunction {
            span: span("add"),
            method_name: Ident::new_no_span("add"),
            expected: 2,
            received: 3,
        }]
    );
    assert_eq!(ctx.passes.checker().log, Vec::<String>::new());
    assert_eq!(engine, before);
}

#[test]
fn no_argument_for_two_parameters_is_too_few() {
    let declaration = add(two_parameters(), Purity::Pure);
    let mut engine = DeclarationEngine::new();
    let mut ctx = context(Purity::Pure);
    let result =
        instantiate_function_application(&mut ctx, &mut engine, declaration, path_to("add"), vec![]);
    assert_eq!(result.value, None);
    assert_eq!(
        result.errors,
        vec![CallError::TooFewArgumentsForFunction {
            span: span("add"),
            method_name: Ident::new_no_span("add"),
            expected: 2,
            received: 0,
        }]
    );
    assert_eq!(engine.len(), 0);
}

#[test]
fn a_call_with_the_right_arguments_names_a_new_declaration() {
    let declaration = add(two_parameters(), Purity::Pure);
    let (mut engine, original) = engine_with(&declaration);
    let mut ctx = context(Purity::Pure);
    let copy = engine.get_function(&original).unwrap().clone();
    let result = instantiate_function_application(
        &mut ctx,
        &mut engine,
        copy,
        path_to("add"),
        vec![variable("a"), literal(2, "2")],
    );
    assert_eq!(result.warnings, vec![]);
    assert_eq!(result.errors, vec![]);
    let call = result.value.unwrap();
    assert_eq!(call.return_type, TypeId::new(U64));
    assert_eq!(call.span, span("add"));
    assert_ne!(call.span, declaration.span);
    match call.expression {
        TyExpressionVariant::FunctionApplication { call_path, arguments, function_decl_id } => {
            assert_eq!(call_path, path_to("add"));
            assert_ne!(function_decl_id, original);
            assert_eq!(function_decl_id, DeclarationId::new(3));
            assert_eq!(arguments.len(), 2);
            assert_eq!(arguments[0].0, Ident::new_no_span("x"));
            assert_eq!(arguments[1].0, Ident::new_no_span("y"));
            assert_eq!(
                arguments[0].1.expression,
                TyExpressionVariant::VariableExpression {
                    name: Ident::new_no_span("a"),
                    mutability: VariableMutability::Immutable,
                }
            );
            assert_eq!(arguments[1].1.expression, TyExpressionVariant::Literal(2));
            assert_eq!(engine.len(), 4);
            assert_eq!(engine.get_function(&original), Some(&declaration));
            assert_eq!(engine.get_function(&function_decl_id), Some(&declaration));
        }
        _ => panic!("the result is a call"),
    }
    assert_eq!(
        ctx.passes.checker().log,
        vec![
            "type_check a",
            "unify_right 1 1 a",
            "type_check 2",
            "unify_right 1 1 2",
            "gather_decl_mapping_from_trait_constraints 1 add",
        ]
    );
}

#[test]
fn the_callee_is_specialized_along_the_mapping_of_its_constraints() {
    let declaration = add(two_parameters(), Purity::Pure);
    let (mut engine, original) = engine_with(&declaration);
    let mut ctx = context_with(Purity::Pure, Some(vec![(0, 1), (5, 6)]));
    let copy = engine.get_function(&original).unwrap().clone();
    let result = instantiate_function_application(
        &mut ctx,
        &mut engine,
        copy,
        path_to("add"),
        vec![variable("a"), variable("m")],
    );
    assert_eq!(result.errors, vec![]);
    let call = result.value.unwrap();
    let specialized = match call.expression {
        TyExpressionVariant::FunctionApplication { function_decl_id, .. } => function_decl_id,
        _ => panic!("the result is a call"),
    };
    assert_eq!(specialized, DeclarationId::new(3));
    let stored = engine.get_function(&specialized).unwrap();
    assert_eq!(callee_of(stored), 1);
    assert_eq!(stored.name, declaration.name);
    assert_eq!(stored.parameters, declaration.parameters);
    assert_eq!(stored.type_parameters[0].trait_constraints[0].trait_decl_id, DeclarationId::new(1));
    assert_eq!(stored.type_parameters[0].name_ident, Ident::new_no_span("T"));
    assert_eq!(stored.return_type, declaration.return_type);
    assert_eq!(stored.span, declaration.span);
    let kept = engine.get_function(&original).unwrap();
    assert_eq!(kept, &declaration);
    assert_eq!(callee_of(kept), 0);
}

#[test]
fn two_calls_specialize_one_declaration_twice() {
    let declaration = add(two_parameters(), Purity::Pure);
    let (mut engine, original) = engine_with(&declaration);
    let mut ctx = context_with(Purity::Pure, Some(vec![(0, 1)]));
    let copy = engine.get_function(&original).unwrap().clone();
    let first = instantiate_function_application(
        &mut ctx,
        &mut engine,
        copy,
        path_to("add"),
        vec![variable("a"), variable("m")],
    );
    let mut checker = ctx.passes.into_checker();
    assert_eq!(checker.log.len(), 5);
    checker.constraints = Some(vec![(0, 2)]);
    let mut ctx = TypeCheckContext::new(Purity::Pure, checker);
    let copy = engine.get_function(&original).unwrap().clone();
    let second = instantiate_function_application(
        &mut ctx,
        &mut engine,
        copy,
        path_to("add"),
        vec![variable("a"), variable("m")],
    );
    assert!(first.value.is_some());
    assert!(second.value.is_some());
    assert_eq!(engine.len(), 5);
    assert_eq!(callee_of(engine.get_function(&original).unwrap()), 0);
    assert_eq!(callee_of(engine.get_function(&DeclarationId::new(3)).unwrap()), 1);
    assert_eq!(callee_of(engine.get_function(&DeclarationId::new(4)).unwrap()), 2);
}

#[test]
fn an_immutable_argument_for_a_mutable_parameter_is_reported_and_the_call_stands() {
    let declaration =
        add(vec![parameter("x", true, true), parameter("y", false, false)], Purity::Pure);
    let (mut engine, original) = engine_with(&declaration);
    let mut ctx = context(Purity::Pure);
    let result = instantiate_function_application(
        &mut ctx,
        &mut engine,
        declaration,
        path_to("add"),
        vec![variable("a"), variable("a")],
    );
    assert_eq!(
        result.errors,
        vec![CallError::ImmutableArgumentToMutableParameter { span: span("a") }]
    );
    let call = result.value.unwrap();
    match call.expression {
        TyExpressionVariant::FunctionApplication { arguments, function_decl_id, .. } => {
            assert_eq!(arguments.len(), 2);
            assert_ne!(function_decl_id, original);
            assert!(engine.get_function(&function_decl_id).is_some());
        }
        _ => panic!("the result is a call"),
    }
    assert_eq!(engine.len(), 4);
}

#[test]
fn mutable_arguments_satisfy_mutable_parameters() {
    let declaration =
        add(vec![parameter("x", true, true), parameter("y", false, true)], Purity::Pure);
    let mut engine = DeclarationEngine::new();
    let mut ctx = context(Purity::Pure);
    let result = instantiate_function_application(
        &mut ctx,
        &mut engine,
        declaration,
        path_to("add"),
        vec![variable("r"), variable("m")],
    );
    assert_eq!(result.errors, vec![]);
    assert!(result.value.is_some());
}

#[test]
fn a_literal_for_a_mutable_parameter_is_reported() {
    let declaration =
        add(vec![parameter("x", false, false), parameter("y", false, true)], Purity::Pure);
    let mut engine = DeclarationEngine::new();
    let mut ctx = context(Purity::Pure);
    let result = instantiate_function_application(
        &mut ctx,
        &mut engine,
        declaration,
        path_to("add"),
        vec![literal(1, "1"), literal(2, "2")],
    );
    assert_eq!(
        result.errors,
        vec![CallError::ImmutableArgumentToMutableParameter { span: span("2") }]
    );
    assert!(result.value.is_some());
}

#[test]
fn a_pure_caller_of_a_reading_function_is_reported_and_the_call_stands() {
    let declaration = add(two_parameters(), Purity::Reads);
    let mut engine = DeclarationEngine::new();
    let mut ctx = context(Purity::Pure);
    let result = instantiate_function_application(
        &mut ctx,
        &mut engine,
        declaration,
        path_to("add"),
        vec![variable("a"), variable("m")],
    );
    assert_eq!(
        result.errors,
        vec![CallError::StorageAccessMismatch { attrs: "read".to_string(), span: span("add") }]
    );
    assert!(result.value.is_some());
    assert_eq!(engine.len(), 1);
    assert_eq!(ctx.purity(), Purity::Pure);
}

#[test]
fn a_reading_caller_of_a_writing_function_is_told_to_declare_both() {
    let declaration = add(two_parameters(), Purity::Writes);
    let mut engine = DeclarationEngine::new();
    let mut ctx = context(Purity::Reads);
    let result = instantiate_function_application(
        &mut ctx,
        &mut engine,
        declaration,
        path_to("add"),
        vec![variable("a")],
    );
    assert_eq!(
        result.errors,
        vec![
            CallError::StorageAccessMismatch {
                attrs: "read, write".to_string(),
                span: span("add")
            },
            CallError::TooFewArgumentsForFunction {
                span: span("add"),
                method_name: Ident::new_no_span("add"),
                expected: 2,
                received: 1,
            },
        ]
    );
    assert_eq!(result.value, None);
    assert_eq!(engine.len(), 0);
    assert_eq!(ctx.passes.checker().log, Vec::<String>::new());
}

#[test]
fn a_caller_that_declares_enough_is_not_reported() {
    for (caller, callee) in [
        (Purity::ReadsWrites, Purity::Writes),
        (Purity::Reads, Purity::Reads),
        (Purity::Writes, Purity::Pure),
    ] {
        let declaration = add(two_parameters(), callee);
        let mut engine = DeclarationEngine::new();
        let mut ctx = context(caller);
        let result = instantiate_function_application(
            &mut ctx,
            &mut engine,
            declaration,
            path_to("add"),
            vec![variable("a"), variable("m")],
        );
        assert_eq!(result.errors, vec![]);
        assert!(result.value.is_some());
    }
}

#[test]
fn an_argument_that_fails_to_type_check_is_replaced_and_checking_goes_on() {
    let declaration = add(two_parameters(), Purity::Pure);
    let mut engine = DeclarationEngine::new();
    let mut ctx = context(Purity::Pure);
    let result = instantiate_function_application(
        &mut ctx,
        &mut engine,
        declaration,
        path_to("add"),
        vec![variable("nowhere"), variable("m")],
    );
    assert_eq!(
        result.errors,
        vec![CallError::Reported(unknown_variable(&Ident::new_no_span("nowhere"), &span("nowhere")))]
    );
    let call = result.value.unwrap();
    match call.expression {
        TyExpressionVariant::FunctionApplication { arguments, .. } => {
            assert_eq!(arguments[0].0, Ident::new_no_span("x"));
            assert_eq!(arguments[0].1, TyExpression::error(TypeId::new(ERROR), span("nowhere")));
            assert_eq!(arguments[1].0, Ident::new_no_span("y"));
        }
        _ => panic!("the result is a call"),
    }
    assert_eq!(
        ctx.passes.checker().log,
        vec![
            "type_check nowhere",
            "error_recovery_type",
            "unify_right 99 1 nowhere",
            "type_check m",
            "unify_right 1 1 m",
            "gather_decl_mapping_from_trait_constraints 1 add",
        ]
    );
}

#[test]
fn an_argument_of_another_type_is_reported_and_the_call_stands() {
    let declaration = add(two_parameters(), Purity::Pure);
    let mut engine = DeclarationEngine::new();
    let mut ctx = context(Purity::Pure);
    let result = instantiate_function_application(
        &mut ctx,
        &mut engine,
        declaration,
        path_to("add"),
        vec![variable("a"), variable("flag")],
    );
    let help_text = "The argument that has been provided to this function's type does \
        not match the declared type of the parameter in the function \
        declaration.";
    assert_eq!(
        result.errors,
        vec![CallError::Reported(mismatch(
            TypeId::new(BOOL),
            TypeId::new(U64),
            &span("flag"),
            help_text
        ))]
    );
    let call = result.value.unwrap();
    match call.expression {
        TyExpressionVariant::FunctionApplication { arguments, .. } => {
            assert_eq!(arguments.len(), 2);
            assert_eq!(arguments[0].0, Ident::new_no_span("x"));
            assert_eq!(
                arguments[0].1.expression,
                TyExpressionVariant::VariableExpression {
                    name: Ident::new_no_span("a"),
                    mutability: VariableMutability::Immutable,
                }
            );
            assert_eq!(arguments[1].0, Ident::new_no_span("y"));
            assert_eq!(arguments[1].1, TyExpression::error(TypeId::new(ERROR), span("flag")));
        }
        _ => panic!("the result is a call"),
    }
    assert_eq!(engine.len(), 1);
    assert_eq!(
        ctx.passes.checker().log,
        vec![
            "type_check a",
            "unify_right 1 1 a",
            "type_check flag",
            "unify_right 2 1 flag",
            "error_recovery_type",
            "gather_decl_mapping_from_trait_constraints 1 add",
        ]
    );
}

#[test]
fn what_is_reported_comes_in_the_order_of_the_stages() {
    let declaration =
        add(vec![parameter("x", false, true), parameter("y", true, false)], Purity::Reads);
    let mut engine = DeclarationEngine::new();
    let mut ctx = warning_context(Purity::Pure);
    let result = instantiate_function_application(
        &mut ctx,
        &mut engine,
        declaration,
        path_to("add"),
        vec![variable("flag"), variable("nowhere")],
    );
    let help_text = "The argument that has been provided to this function's type does \
        not match the declared type of the parameter in the function \
        declaration.";
    assert_eq!(
        result.errors,
        vec![
            CallError::StorageAccessMismatch { attrs: "read".to_string(), span: span("add") },
            CallError::Reported(mismatch(
                TypeId::new(BOOL),
                TypeId::new(U64),
                &span("flag"),
                help_text
            )),
            CallError::ImmutableArgumentToMutableParameter { span: span("flag") },
            CallError::Reported(unknown_variable(
                &Ident::new_no_span("nowhere"),
                &span("nowhere")
            )),
            CallError::ImmutableArgumentToMutableParameter { span: span("nowhere") },
        ]
    );
    assert_eq!(result.warnings, vec![unify_warning(&span("flag")), unify_warning(&span("nowhere"))]);
    assert!(result.value.is_some());
}

#[test]
fn an_unmet_constraint_ends_the_call_and_leaves_the_engine_alone() {
    let declaration = add(two_parameters(), Purity::Pure);
    let (mut engine, original) = engine_with(&declaration);
    let before = engine.clone();
    let mut ctx = context_with(Purity::Pure, None);
    let copy = engine.get_function(&original).unwrap().clone();
    let result = instantiate_function_application(
        &mut ctx,
        &mut engine,
        copy,
        path_to("add"),
        vec![variable("a"), variable("flag")],
    );
    assert_eq!(result.value, None);
    assert_eq!(result.errors.len(), 2);
    assert_eq!(result.errors[1], CallError::Reported(unmet_constraint(&span("add"))));
    assert_eq!(engine, before);
}

#[test]
fn a_function_without_parameters_is_called_without_arguments() {
    let declaration = add(vec![], Purity::Pure);
    let mut engine = DeclarationEngine::new();
    let mut ctx = context(Purity::Pure);
    let result =
        instantiate_function_application(&mut ctx, &mut engine, declaration, path_to("add"), vec![]);
    assert_eq!(result.errors, vec![]);
    let call = result.value.unwrap();
    assert_eq!(
        call.expression,
        TyExpressionVariant::FunctionApplication {
            call_path: path_to("add"),
            arguments: vec![],
            function_decl_id: DeclarationId::new(0),
        }
    );
    assert_eq!(ctx.passes.checker().log, vec!["gather_decl_mapping_from_trait_constraints 1 add"]);
}

#[test]
fn the_arity_check_has_a_value_when_the_numbers_agree() {
    let declaration = add(two_parameters(), Purity::Pure);
    let result = check_function_arguments_arity(2, &declaration, &path_to("add"));
    assert_eq!(result, CompileResult { value: Some(()), warnings: vec![], errors: vec![] });
}

#[test]
fn the_arity_check_names_the_function_and_both_numbers() {
    let declaration = add(two_parameters(), Purity::Pure);
    let few = check_function_arguments_arity(1, &declaration, &path_to("call"));
    assert_eq!(
        few,
        CompileResult {
            value: None,
            warnings: vec![],
            errors: vec![CallError::TooFewArgumentsForFunction {
                span: span("call"),
                method_name: Ident::new_no_span("add"),
                expected: 2,
                received: 1,
            }],
        }
    );
    let many = check_function_arguments_arity(usize::MAX, &declaration, &path_to("call"));
    assert_eq!(
        many,
        CompileResult {
            value: None,
            warnings: vec![],
            errors: vec![CallError::TooManyArgumentsForFunction {
                span: span("call"),
                method_name: Ident::new_no_span("add"),
                expected: 2,
                received: usize::MAX,
            }],
        }
    );
}

#[test]
fn the_purity_check_adds_to_the_errors_it_is_given() {
    let mut errors = vec![CallError::ImmutableArgumentToMutableParameter { span: span("a") }];
    check_purity(Purity::Pure, Purity::Pure, span("f"), &mut errors);
    assert_eq!(errors.len(), 1);
    check_purity(Purity::Writes, Purity::Reads, span("f"), &mut errors);
    assert_eq!(
        errors,
        vec![
            CallError::ImmutableArgumentToMutableParameter { span: span("a") },
            CallError::StorageAccessMismatch { attrs: "read, write".to_string(), span: span("f") },
        ]
    );
    check_purity(Purity::Pure, Purity::Writes, span("g"), &mut errors);
    assert_eq!(
        errors[2],
        CallError::StorageAccessMismatch { attrs: "write".to_string(), span: span("g") }
    );
}

#[test]
fn the_mutability_check_reports_only_immutable_for_mutable() {
    let typed = |mutability| TyExpression {
        expression: TyExpressionVariant::VariableExpression {
            name: Ident::new_no_span("v"),
            mutability,
        },
        return_type: TypeId::new(U64),
        span: span("v"),
    };
    let mut errors = vec![];
    for mutability in [VariableMutability::Mutable, VariableMutability::RefMutable] {
        for (is_reference, is_mutable) in [(false, false), (false, true), (true, false), (true, true)] {
            check_argument_mutability(
                &typed(mutability),
                &parameter("p", is_reference, is_mutable),
                span("v"),
                &mut errors,
            );
        }
    }
    for mutability in [VariableMutability::Immutable, VariableMutability::ExportedConst] {
        check_argument_mutability(&typed(mutability), &parameter("p", false, false), span("v"), &mut errors);
    }
    assert_eq!(errors, vec![]);
    check_argument_mutability(
        &typed(VariableMutability::Immutable),
        &parameter("p", false, true),
        span("one"),
        &mut errors,
    );
    check_argument_mutability(
        &typed(VariableMutability::ExportedConst),
        &parameter("p", true, false),
        span("two"),
        &mut errors,
    );
    assert_eq!(
        errors,
        vec![
            CallError::ImmutableArgumentToMutableParameter { span: span("one") },
            CallError::ImmutableArgumentToMutableParameter { span: span("two") },
        ]
    );
}

#[test]
fn specializing_stores_the_replaced_declaration_and_calls_it() {
    let declaration = add(two_parameters(), Purity::Pure);
    let (mut engine, original) = engine_with(&declaration);
    let mapping = DeclMapping { mapping: vec![(DeclarationId::new(0), DeclarationId::new(1))] };
    let call = specialize(&mut engine, declaration.clone(), &mapping, path_to("add"), vec![]);
    assert_eq!(
        call,
        TyExpression {
            expression: TyExpressionVariant::FunctionApplication {
                call_path: path_to("add"),
                arguments: vec![],
                function_decl_id: DeclarationId::new(3),
            },
            return_type: TypeId::new(U64),
            span: span("add"),
        }
    );
    assert_eq!(callee_of(engine.get_function(&DeclarationId::new(3)).unwrap()), 1);
    assert_eq!(engine.get(&original), Some(&Declaration::Function(declaration)));
}

#[test]
fn a_result_hands_over_what_it_reported() {
    let mut warnings = vec![unify_warning(&span("w0"))];
    let mut errors = vec![CallError::ImmutableArgumentToMutableParameter { span: span("e0") }];
    let result = CompileResult {
        value: Some(5u8),
        warnings: vec![unify_warning(&span("w1")), unify_warning(&span("w2"))],
        errors: vec![CallError::Reported(unmet_constraint(&span("e1")))],
    };
    assert_eq!(result.absorb(&mut warnings, &mut errors), Some(5u8));
    assert_eq!(
        warnings,
        vec![unify_warning(&span("w0")), unify_warning(&span("w1")), unify_warning(&span("w2"))]
    );
    assert_eq!(
        errors,
        vec![
            CallError::ImmutableArgumentToMutableParameter { span: span("e0") },
            CallError::Reported(unmet_constraint(&span("e1"))),
        ]
    );
    let nothing: CompileResult<u8> = declaration_engine::error::err(vec![], vec![]);
    assert_eq!(nothing.absorb(&mut warnings, &mut errors), None);
    assert_eq!(warnings.len(), 3);
    assert_eq!(errors.len(), 2);
    let something = declaration_engine::error::ok(1u8, vec![], vec![]);
    assert_eq!(something.value, Some(1u8));
}

#[test]
fn the_help_text_names_argument_and_parameter() {
    assert_eq!(
        help_text(),
        "The argument that has been provided to this function's type does \
        not match the declared type of the parameter in the function \
        declaration."
    );
}

#[test]
fn an_argument_is_unified_as_received_with_its_parameter_as_expected() {
    let argument = TyExpression {
        expression: TyExpressionVariant::Literal(1),
        return_type: TypeId::new(BOOL),
        span: span("one"),
    };
    let request = unification_request(&argument, &parameter("p", false, false));
    assert_eq!(request, (TypeId::new(BOOL), TypeId::new(U64), span("one")));
}

#[test]
fn a_stand_in_has_the_type_that_the_passes_give() {
    let mut passes = Passes::new(Checker::new());
    let sentinel = stand_in(&mut passes, span("here"));
    assert_eq!(sentinel, TyExpression::error(TypeId::new(ERROR), span("here")));
    assert_eq!(passes.checker().log, vec!["error_recovery_type"]);
}

#[test]
fn the_passes_are_asked_what_they_are_handed() {
    let mut passes = Passes::new(Checker::new());
    assert_eq!(passes.error_recovery_type(), TypeId::new(ERROR));
    let answer = passes.type_check(&variable("m"), "help");
    assert_eq!(answer.value.unwrap().return_type, TypeId::new(U64));
    let unified = passes.unify_right(TypeId::new(BOOL), TypeId::new(U64), &span("s"), "help");
    assert_eq!(unified.0, vec![]);
    assert_eq!(
        unified.1,
        vec![CallError::Reported(mismatch(TypeId::new(BOOL), TypeId::new(U64), &span("s"), "help"))]
    );
    let resolved = passes.gather_decl_mapping_from_trait_constraints(&vec![], &span("call"));
    assert!(resolved.value.unwrap().is_empty());
    let checker = passes.into_checker();
    assert_eq!(
        checker.log,
        vec![
            "error_recovery_type",
            "type_check m",
            "unify_right 2 1 s",
            "gather_decl_mapping_from_trait_constraints 0 call",
        ]
    );
}

#[test]
fn one_argument_is_checked_unified_and_held_against_its_parameter() {
    let mut passes = Passes::new(Checker::new());
    let mut warnings = vec![];
    let mut errors = vec![];
    let typed = check_argument(
        &mut passes,
        &variable("a"),
        &parameter("p", true, false),
        &mut warnings,
        &mut errors,
    );
    assert_eq!(typed.0, Ident::new_no_span("p"));
    assert_eq!(
        typed.1.expression,
        TyExpressionVariant::VariableExpression {
            name: Ident::new_no_span("a"),
            mutability: VariableMutability::Immutable,
        }
    );
    assert_eq!(errors, vec![CallError::ImmutableArgumentToMutableParameter { span: span("a") }]);
    assert_eq!(warnings, vec![]);
    assert_eq!(passes.checker().log, vec!["type_check a", "unify_right 1 1 a"]);
}

#[test]
fn a_mutable_argument_that_fails_to_unify_is_replaced_without_a_word_on_mutability() {
    let mut passes = Passes::new(Checker::new());
    let mut warnings = vec![];
    let mut errors = vec![];
    let bool_parameter = TyFunctionParameter {
        name: Ident::new_no_span("p"),
        is_reference: false,
        is_mutable: true,
        type_id: TypeId::new(BOOL),
    };
    let typed =
        check_argument(&mut passes, &variable("m"), &bool_parameter, &mut warnings, &mut errors);
    assert_eq!(typed.0, Ident::new_no_span("p"));
    assert_eq!(typed.1, TyExpression::error(TypeId::new(ERROR), span("m")));
    assert_eq!(
        errors,
        vec![CallError::Reported(mismatch(
            TypeId::new(U64),
            TypeId::new(BOOL),
            &span("m"),
            help_text()
        ))]
    );
    assert_eq!(
        passes.checker().log,
        vec!["type_check m", "unify_right 1 2 m", "error_recovery_type"]
    );
}

#[test]
fn a_call_is_checked_before_the_engine_comes_in() {
    let declaration = add(two_parameters(), Purity::Reads);
    let mut ctx = context_with(Purity::Pure, Some(vec![(0, 1)]));
    let mut warnings = vec![];
    let mut errors = vec![];
    let prepared = check_call(
        &mut ctx,
        &declaration,
        &path_to("add"),
        &vec![variable("a"), literal(7, "7")],
        &mut warnings,
        &mut errors,
    );
    let (typed_arguments, resolved) = prepared.unwrap();
    assert_eq!(typed_arguments.len(), 2);
    assert_eq!(typed_arguments[0].0, Ident::new_no_span("x"));
    assert_eq!(typed_arguments[1].0, Ident::new_no_span("y"));
    assert_eq!(typed_arguments[1].1.expression, TyExpressionVariant::Literal(7));
    assert_eq!(
        resolved.value.unwrap().mapping,
        vec![(DeclarationId::new(0), DeclarationId::new(1))]
    );
    assert_eq!(
        errors,
        vec![CallError::StorageAccessMismatch { attrs: "read".to_string(), span: span("add") }]
    );
    assert_eq!(warnings, vec![]);

    let mut short_errors = vec![];
    let refused = check_call(
        &mut ctx,
        &declaration,
        &path_to("add"),
        &vec![variable("a")],
        &mut warnings,
        &mut short_errors,
    );
    assert!(refused.is_none());
    assert_eq!(short_errors.len(), 2);
    assert_eq!(ctx.passes.checker().log.len(), 5);
}

#[test]
fn concluding_specializes_with_a_mapping_and_stops_without_one() {
    let declaration = add(two_parameters(), Purity::Pure);
    let (mut engine, original) = engine_with(&declaration);
    let before = engine.clone();
    let unmet = CompileResult {
        value: None,
        warnings: vec![unify_warning(&span("w1"))],
        errors: vec![CallError::Reported(unmet_constraint(&span("add")))],
    };
    let stopped = conclude(
        &mut engine,
        declaration.clone(),
        path_to("add"),
        vec![],
        unmet,
        vec![unify_warning(&span("w0"))],
        vec![CallError::ImmutableArgumentToMutableParameter { span: span("e0") }],
    );
    assert_eq!(stopped.value, None);
    assert_eq!(stopped.warnings, vec![unify_warning(&span("w0")), unify_warning(&span("w1"))]);
    assert_eq!(
        stopped.errors,
        vec![
            CallError::ImmutableArgumentToMutableParameter { span: span("e0") },
            CallError::Reported(unmet_constraint(&span("add"))),
        ]
    );
    assert_eq!(engine, before);

    let met = CompileResult {
        value: Some(DeclMapping { mapping: vec![(DeclarationId::new(0), DeclarationId::new(1))] }),
        warnings: vec![],
        errors: vec![],
    };
    let done = conclude(
        &mut engine,
        declaration.clone(),
        path_to("site"),
        vec![],
        met,
        vec![],
        vec![CallError::ImmutableArgumentToMutableParameter { span: span("e0") }],
    );
    let call = done.value.unwrap();
    assert_eq!(call.span, span("site"));
    assert_eq!(done.errors.len(), 1);
    assert_eq!(engine.len(), 4);
    assert_eq!(callee_of(engine.get_function(&DeclarationId::new(3)).unwrap()), 1);
    assert_eq!(engine.get_function(&original), Some(&declaration));
}
