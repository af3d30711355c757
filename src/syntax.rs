//! What syn reads from source text: the two questions about Rust syntax
//! that the option list and the parameter annotations ask.
use vstd::prelude::*;

verus! {

/// Whether syn reads the text as exactly one Rust expression.
pub uninterp spec fn parses_as_expr(s: Seq<char>) -> bool;

/// The base 10 digits of the integer literal that syn reads from the text
/// (underscores, radix prefix and type suffix taken away); `None` where the
/// text is not one integer literal.
pub uninterp spec fn int_literal_digits(s: Seq<char>) -> Option<Seq<char>>;

/// Relies on `syn::parse_str::<syn::Expr>`: whether the text is one
/// expression, which depends on the text alone.
#[verifier::external_body]
pub(crate) fn is_expression(s: &str) -> (r: bool)
    ensures
        r == parses_as_expr(s@),
{
    syn::parse_str::<syn::Expr>(s).is_ok()
}

/// Relies on `syn::parse_str::<syn::LitInt>`: reads the text as one integer
/// literal and gives its base 10 digits (`LitInt::base10_digits`).
#[verifier::external_body]
pub(crate) fn integer_digits(s: &str) -> (r: Option<String>)
    ensures
        r matches Some(d) ==> int_literal_digits(s@) == Some(d@),
        r is None <==> int_literal_digits(s@) is None,
{
    syn::parse_str::<syn::LitInt>(s).ok().map(|lit| lit.base10_digits().to_string())
}

} // verus!
