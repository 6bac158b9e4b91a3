//! The one outside computation the identity derivation leans on:
//! evaluating a string as an integer arithmetic expression.

use vstd::prelude::*;

verus! {

/// What evaluating `s` as an integer arithmetic expression yields:
/// `Some(n)` when the string parses and evaluates to the 64-bit integer
/// `n`, `None` when parsing or evaluation fails.  With an empty variable
/// context the outcome is a function of the characters of `s` alone.
pub uninterp spec fn eval_int_of(s: Seq<char>) -> Option<i64>;

/// Relies on `evalexpr::eval_int`: evaluates `s` as an arithmetic
/// expression over 64-bit integers with an empty context, so the result
/// depends only on `s`.
#[verifier::external_body]
pub(crate) fn eval_int_expr(s: &str) -> (r: Option<i64>)
    ensures
        r == eval_int_of(s@),
{
    match evalexpr::eval_int(s) {
        Ok(n) => Some(n),
        Err(_) => None,
    }
}

} // verus!
