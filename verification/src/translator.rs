//! Translates lexer output to the virtual machine operations.

use vstd::prelude::*;

use crate::parser::Token;
use crate::vm::standard::{operation_of_token, Operation};

verus! {

/// Translate source code tokens to the operation each one stands for:
/// a pure, total, order-preserving rename with no failure mode.
pub fn translate(tokens: &[Token]) -> (ops: Vec<Operation>)
    ensures
        ops@ == tokens@.map_values(|t: Token| operation_of_token(t)),
{
    crate::vm::standard::translate(tokens)
}

} // verus!
