use declaration_engine::decl_id::DeclarationId;
use declaration_engine::decl_id::TypeId;
use declaration_engine::engine::DeclarationEngine;
use declaration_engine::language::Purity;
use declaration_engine::ty::Declaration;
use declaration_engine::ty::TyAstNode;
use declaration_engine::ty::TyCodeBlock;
use declaration_engine::ty::TyFunctionDeclaration;
use declaration_engine::ty::TyTraitFn;
use sway_types::Ident;
use sway_types::Span;

fn function_named(name: &'static str, mentioned: usize) -> TyFunctionDeclaration {
    TyFunctionDeclaration {
        name: Ident::new_no_span(name),
        body: TyCodeBlock {
            contents: vec![TyAstNode::FunctionDeclaration(DeclarationId::new(mentioned))],
        },
        parameters: vec![],
        span: Span::from_string(name.to_string()),
        return_type: TypeId::new(1),
        type_parameters: vec![],
        purity: Purity::Pure,
    }
}

fn trait_fn_named(name: &'static str) -> TyTraitFn {
    TyTraitFn {
        name: Ident::new_no_span(name),
        purity: Purity::Reads,
        parameters: vec![],
        return_type: TypeId::new(2),
    }
}

#[test]
fn a_new_engine_holds_nothing() {
    let engine = DeclarationEngine::new();
    assert_eq!(engine.len(), 0);
    assert_eq!(engine.get(&DeclarationId::new(0)), None);
    assert_eq!(engine.get_function(&DeclarationId::new(0)), None);
}

#[test]
fn each_insert_hands_out_the_next_slot() {
    let mut engine = DeclarationEngine::new();
    let first = engine.insert_function(function_named("f", 0));
    let second = engine.insert(Declaration::TraitFn(trait_fn_named("show")));
    let third = engine.insert_function(function_named("g", 1));
    assert_eq!(first, DeclarationId::new(0));
    assert_eq!(second, DeclarationId::new(1));
    assert_eq!(third, DeclarationId::new(2));
    assert_eq!(engine.len(), 3);
}

#[test]
fn a_declaration_is_found_under_its_identity() {
    let mut engine = DeclarationEngine::new();
    let first = engine.insert_function(function_named("f", 0));
    let second = engine.insert(Declaration::TraitFn(trait_fn_named("show")));
    assert_eq!(engine.get(&first), Some(&Declaration::Function(function_named("f", 0))));
    assert_eq!(engine.get(&second), Some(&Declaration::TraitFn(trait_fn_named("show"))));
    assert_eq!(engine.get_function(&first), Some(&function_named("f", 0)));
}

#[test]
fn what_is_no_function_is_not_found_as_one() {
    let mut engine = DeclarationEngine::new();
    let method = engine.insert(Declaration::TraitFn(trait_fn_named("show")));
    assert_eq!(engine.get_function(&method), None);
    assert!(engine.get(&method).is_some());
}

#[test]
fn an_identity_beyond_the_slots_finds_nothing() {
    let mut engine = DeclarationEngine::new();
    engine.insert_function(function_named("f", 0));
    assert_eq!(engine.get(&DeclarationId::new(1)), None);
    assert_eq!(engine.get_function(&DeclarationId::new(1)), None);
    assert_eq!(engine.get(&DeclarationId::new(usize::MAX)), None);
}

#[test]
fn inserting_leaves_the_earlier_declarations_alone() {
    let mut engine = DeclarationEngine::new();
    let first = engine.insert_function(function_named("f", 0));
    let mut copy = engine.get_function(&first).unwrap().clone();
    copy.name = Ident::new_no_span("f_specialized");
    let second = engine.insert_function(copy);
    assert_ne!(first, second);
    assert_eq!(engine.get_function(&first), Some(&function_named("f", 0)));
    assert_eq!(engine.get_function(&second).unwrap().name, Ident::new_no_span("f_specialized"));
}
