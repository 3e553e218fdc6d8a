//! Diagnostics: the errors that checking a call raises, and the result type
//! that carries a value together with what was reported on the way to it.

use vstd::prelude::*;
use sway_error::error::CompileError;
use sway_error::warning::CompileWarning;
use sway_types::Ident;
use sway_types::Span;

verus! {

/// An error at a call site.
#[derive(Debug, PartialEq, Eq)]
pub enum CallError {
    /// The caller lacks a storage access that the callee declares. `attrs`
    /// is the attribute text that would allow the call.
    StorageAccessMismatch { attrs: String, span: Span },
    /// The call has fewer arguments than the function has parameters.
    TooFewArgumentsForFunction { span: Span, method_name: Ident, expected: usize, received: usize },
    /// The call has more arguments than the function has parameters.
    TooManyArgumentsForFunction {
        span: Span,
        method_name: Ident,
        expected: usize,
        received: usize,
    },
    /// An argument that cannot be written through is handed to a parameter
    /// that is written through.
    ImmutableArgumentToMutableParameter { span: Span },
    /// An error that another pass reported, passed on as it came.
    Reported(CompileError),
}

/// A [`CallError`] as a value.
pub enum CallErrorView {
    StorageAccessMismatch { attrs: Seq<char>, span: Span },
    TooFewArgumentsForFunction { span: Span, method_name: Ident, expected: usize, received: usize },
    TooManyArgumentsForFunction {
        span: Span,
        method_name: Ident,
        expected: usize,
        received: usize,
    },
    ImmutableArgumentToMutableParameter { span: Span },
    Reported(CompileError),
}

impl View for CallError {
    type V = CallErrorView;

    open spec fn view(&self) -> CallErrorView {
        match self {
            CallError::StorageAccessMismatch { attrs, span } => {
                CallErrorView::StorageAccessMismatch { attrs: attrs@, span: *span }
            },
            CallError::TooFewArgumentsForFunction { span, method_name, expected, received } => {
                CallErrorView::TooFewArgumentsForFunction {
                    span: *span,
                    method_name: *method_name,
                    expected: *expected,
                    received: *received,
                }
            },
            CallError::TooManyArgumentsForFunction { span, method_name, expected, received } => {
                CallErrorView::TooManyArgumentsForFunction {
                    span: *span,
                    method_name: *method_name,
                    expected: *expected,
                    received: *received,
                }
            },
            CallError::ImmutableArgumentToMutableParameter { span } => {
                CallErrorView::ImmutableArgumentToMutableParameter { span: *span }
            },
            CallError::Reported(error) => CallErrorView::Reported(*error),
        }
    }
}

/// The views of errors, in their order.
pub open spec fn errors_view(errors: Seq<CallError>) -> Seq<CallErrorView> {
    errors.map_values(|error: CallError| error@)
}

/// A value, if there is one, with the warnings and errors that were
/// reported on the way to it. Errors do not rule out a value.
#[derive(Debug, PartialEq, Eq)]
pub struct CompileResult<T> {
    pub value: Option<T>,
    pub warnings: Vec<CompileWarning>,
    pub errors: Vec<CallError>,
}

/// A result with a value.
pub fn ok<T>(value: T, warnings: Vec<CompileWarning>, errors: Vec<CallError>) -> (result:
    CompileResult<T>)
    ensures
        result.value == Some(value),
        result.warnings == warnings,
        result.errors == errors,
{
    CompileResult { value: Some(value), warnings, errors }
}

/// A result without a value.
pub fn err<T>(warnings: Vec<CompileWarning>, errors: Vec<CallError>) -> (result: CompileResult<T>)
    ensures
        result.value is None,
        result.warnings == warnings,
        result.errors == errors,
{
    CompileResult { value: None, warnings, errors }
}

impl<T> CompileResult<T> {
    /// Hands the warnings and errors of the result over to the two lists
    /// and gives back its value.
    pub fn absorb(self, warnings: &mut Vec<CompileWarning>, errors: &mut Vec<CallError>) -> (value:
        Option<T>)
        ensures
            value == self.value,
            final(warnings)@ == old(warnings)@ + self.warnings@,
            final(errors)@ == old(errors)@ + self.errors@,
    {
        let mut reported_warnings = self.warnings;
        let mut reported_errors = self.errors;
        warnings.append(&mut reported_warnings);
        errors.append(&mut reported_errors);
        self.value
    }
}

/// The views of two lists of errors, one after the other, are the views of
/// the lists joined.
pub proof fn lemma_errors_view_add(first: Seq<CallError>, second: Seq<CallError>)
    ensures
        errors_view(first + second) == errors_view(first) + errors_view(second),
{
    assert(errors_view(first + second) =~= errors_view(first) + errors_view(second));
}

/// The view of a list of errors with one more is the view of the list with
/// the view of that one more.
pub proof fn lemma_errors_view_push(errors: Seq<CallError>, error: CallError)
    ensures
        errors_view(errors.push(error)) == errors_view(errors).push(error@),
{
    assert(errors_view(errors.push(error)) =~= errors_view(errors).push(error@));
}

} // verus!
