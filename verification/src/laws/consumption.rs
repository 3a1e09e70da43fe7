//! An expression holds at least one token.
use crate::grammar::{
    advance, expect_identifier, expression, ident_expression, infix_rest, peek, prefix, Input,
    State,
};
use crate::lexer::TokenType;
use vstd::prelude::*;

verus! {

/// An identifier with what follows it holds at least one token.
proof fn ident_expression_consumes(inp: Input, st: State)
    ensures
        ident_expression(inp, st).value is Some ==> ident_expression(inp, st).used >= 1,
{
    reveal(ident_expression);
    reveal(crate::grammar::ident_rest);
    if peek(inp, st).token_type == TokenType::Ident {
        assert(st.pos < inp.tokens.len());
        assert(expect_identifier(inp, st).used == 1);
    }
}

/// A prefix expression holds at least one token.
proof fn prefix_consumes(inp: Input, st: State)
    ensures
        prefix(inp, st).value is Some ==> prefix(inp, st).used >= 1,
{
    reveal(prefix);
    reveal(ident_expression);
    reveal(expression);
    reveal(crate::grammar::list);
    ident_expression_consumes(inp, st);
    let kind = peek(inp, st).token_type;
    if kind != TokenType::Eof {
        assert(st.pos < inp.tokens.len());
        assert(advance(inp, st).pos == st.pos + 1);
    }
}

/// An expression holds at least one token.
pub proof fn expression_consumes(inp: Input, st: State)
    ensures
        expression(inp, st).value is Some ==> expression(inp, st).used >= 1,
{
    reveal(expression);
    reveal(prefix);
    reveal(infix_rest);
    prefix_consumes(inp, st);
}

} // verus!
