//! The compiler's base types that this library carries through without
//! looking inside them: source spans, identifiers and the diagnostics that
//! other passes report.

use vstd::prelude::*;

verus! {

/// `sway_types::Span`: a range of source text. Nothing is known of its
/// contents here.
#[verifier::external_type_specification]
#[verifier::external_body]
pub struct ExSpan(sway_types::Span);

/// `sway_types::BaseIdent` (also known as `sway_types::Ident`): an identifier
/// with the span it was read from. Nothing is known of its contents here.
#[verifier::external_type_specification]
#[verifier::external_body]
pub struct ExBaseIdent(sway_types::BaseIdent);

/// `sway_error::error::CompileError`: an error reported by another pass of
/// the compiler. Nothing is known of its contents here.
#[verifier::external_type_specification]
#[verifier::external_body]
pub struct ExCompileError(sway_error::error::CompileError);

/// `sway_error::warning::CompileWarning`: a warning reported by another pass
/// of the compiler. Nothing is known of its contents here.
#[verifier::external_type_specification]
#[verifier::external_body]
pub struct ExCompileWarning(sway_error::warning::CompileWarning);

/// `Clone::clone` as derived for `sway_types::Span`: the copy holds the same
/// source, bounds and path, so it is the same span.
pub assume_specification[ <sway_types::Span as Clone>::clone ](span: &sway_types::Span) -> (copy:
    sway_types::Span)
    ensures
        copy == *span,
;

/// `Clone::clone` as derived for `sway_types::BaseIdent`: the copy holds the
/// same name override, span and rawness, so it is the same identifier.
pub assume_specification[ <sway_types::BaseIdent as Clone>::clone ](
    ident: &sway_types::BaseIdent,
) -> (copy: sway_types::BaseIdent)
    ensures
        copy == *ident,
;

} // verus!
