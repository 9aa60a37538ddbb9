//! Rules that are asked before the scanner's own table.

use vstd::prelude::*;
use crate::lexer::token::TokenKind;
use crate::lexer::Lexer;

verus! {

/// The rule for string literals. It is asked about the character `c` that the lexer is
/// about to read and may claim it by returning the kind of the token that it has consumed.
/// It declines every character, and a rule that declines leaves the lexer as it was.
pub fn rule_string_ident(lexer: &mut Lexer, c: char) -> (kind: Option<TokenKind>)
    ensures
        kind is None,
        *final(lexer) == *old(lexer),
{
    None
}

} // verus!
