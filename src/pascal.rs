//! A small Pascal-like language: `BEGIN ... END.` blocks of assignments of
//! integer expressions.
pub mod ast;
pub mod interpreter;
pub mod lexer;
pub mod parser;
pub mod token;

pub use crate::pascal::ast::ASTNode;
pub use crate::pascal::interpreter::{Interpreter, Variables};
pub use crate::pascal::lexer::Lexer;
pub use crate::pascal::parser::Parser;
pub use crate::pascal::token::Token;

use vstd::prelude::*;
use crate::pascal::interpreter::eval;
use crate::pascal::parser::parse_text;

verus! {

/// Lexes, parses and runs `program`; gives the final variables, or the
/// first error.
pub fn execute(program: &str) -> (r: Result<Variables, String>)
    ensures
        r is Ok <==> (parse_text(program@) matches Some(tree) && eval(
            tree,
            Map::empty(),
        ).0 is Some),
        r matches Ok(vars) ==> vars.wf() && vars.map() == eval(
            parse_text(program@)->Some_0,
            Map::empty(),
        ).1,
{
    let lexer = Lexer::new(program);
    let mut parser = match Parser::new(lexer) {
        Ok(p) => p,
        Err(e) => {
            return Err(e);
        },
    };
    let tree = match parser.program() {
        Ok(t) => t,
        Err(e) => {
            return Err(e);
        },
    };
    let mut interpreter = Interpreter::new();
    match interpreter.interpret(&tree) {
        Ok(_) => {},
        Err(e) => {
            return Err(e);
        },
    }
    Ok(interpreter.get_variables().clone_vars())
}

} // verus!
