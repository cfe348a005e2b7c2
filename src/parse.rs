//! The parsing front end: argument texts read as a type or as a constant
//! expression, each given back as its token text.
//!
//! How the token text is spaced, and on some inputs whether the text parses
//! at all, depends on whether the process runs inside a macro expansion, so
//! nothing here is promised of the outcome.
use vstd::prelude::*;

verus! {

/// Relies on `syn::parse_str::<syn::Type>` to read `src` as a type, and on
/// printing the parsed type back as tokens.
#[verifier::external_body]
pub(crate) fn parse_type(src: &str) -> (r: Option<String>) {
    match syn::parse_str::<syn::Type>(src) {
        Ok(t) => Some(quote::ToTokens::to_token_stream(&t).to_string()),
        Err(_) => None,
    }
}

/// Relies on `syn::parse_str::<syn::Expr>` to read `src` as an expression,
/// and on printing the parsed expression back as tokens.
#[verifier::external_body]
pub(crate) fn parse_expr(src: &str) -> (r: Option<String>) {
    match syn::parse_str::<syn::Expr>(src) {
        Ok(e) => Some(quote::ToTokens::to_token_stream(&e).to_string()),
        Err(_) => None,
    }
}

} // verus!
