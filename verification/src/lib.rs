//! Declaration identities and the substitution of declarations at call sites.
//!
//! A declaration lives in a [`engine::DeclarationEngine`] and is named by a
//! [`decl_id::DeclarationId`]. A [`decl_mapping::DeclMapping`] pairs the
//! identities of generic declarations with those of their specializations, and
//! [`replace_decls::ReplaceDecls`] rewrites a typed tree ([`ty`]) along such a
//! mapping. [`function_application`] checks one call, reports what is wrong
//! with it ([`error`]) and specializes its callee. Type checking,
//! unification and the resolution of trait constraints are done by passes
//! from outside ([`passes`]); what they are asked and what they answer is
//! put on record, and the contracts speak of that record.
//!
//! Spans, identifiers and the diagnostics of other passes are those of the
//! compiler ([`sway`]); they are carried through and never looked into.

pub mod sway;
pub mod text;
pub mod decl_id;
pub mod decl_mapping;
pub mod language;
pub mod ty;
pub mod replace_decls;
pub mod error;
pub mod engine;
pub mod passes;
pub mod function_application;
