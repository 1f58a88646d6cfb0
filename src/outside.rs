//! The few items of `proc_macro2` and `syn` that the directive model relies on.

use vstd::prelude::*;

use crate::repr::plain_text;

verus! {

/// A source location: carried alongside recorded directives and errors so
/// that diagnostics point at the offending item. Never inspected.
#[verifier::external_type_specification]
#[verifier::external_body]
pub struct ExSpan(proc_macro2::Span);

/// Relies on `syn::parse_str::<syn::LitInt>`, which lexes the text with
/// proc-macro2 and accepts it when the tokens are one integer literal, with
/// whitespace or comments around it. Which lexer runs depends on whether the
/// process is inside a procedural macro, so the verdict is not a function of
/// the text alone; an empty text lexes to no token and is always refused.
/// Delimiters are kept out, as nested groups are lexed recursively.
#[verifier::external_body]
pub(crate) fn is_int_literal(text: &str) -> (r: bool)
    requires
        plain_text(text@),
    ensures
        r ==> text@.len() > 0,
{
    syn::parse_str::<syn::LitInt>(text).is_ok()
}

} // verus!
