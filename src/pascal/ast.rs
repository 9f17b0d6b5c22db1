//! Syntax trees of the language.
use vstd::prelude::*;
use crate::pascal::token::{Token, TokenModel};

verus! {

broadcast use vstd::std_specs::vec::axiom_vec_index_decreases;

#[derive(Debug)]
pub enum ASTNode {
    BinOp { left: Box<ASTNode>, op: Token, right: Box<ASTNode> },
    UnaryOp { op: Token, expr: Box<ASTNode> },
    Num(i32),
    Var(String),
    Assign { var: String, expr: Box<ASTNode> },
    Compound { children: Vec<ASTNode> },
    NoOp,
}

/// A syntax tree with names as character sequences.
pub enum AstModel {
    BinOp { left: Box<AstModel>, op: TokenModel, right: Box<AstModel> },
    UnaryOp { op: TokenModel, expr: Box<AstModel> },
    Num(i32),
    Var(Seq<char>),
    Assign { var: Seq<char>, expr: Box<AstModel> },
    Compound { children: Seq<AstModel> },
    NoOp,
}

/// The model of a tree.
pub open spec fn ast_view(n: ASTNode) -> AstModel
    decreases n,
{
    match n {
        ASTNode::BinOp { left, op, right } => AstModel::BinOp {
            left: Box::new(ast_view(*left)),
            op: op@,
            right: Box::new(ast_view(*right)),
        },
        ASTNode::UnaryOp { op, expr } => AstModel::UnaryOp { op: op@, expr: Box::new(ast_view(*expr)) },
        ASTNode::Num(v) => AstModel::Num(v),
        ASTNode::Var(s) => AstModel::Var(s@),
        ASTNode::Assign { var, expr } => AstModel::Assign { var: var@, expr: Box::new(ast_view(*expr)) },
        ASTNode::Compound { children } => AstModel::Compound {
            children: Seq::new(
                children@.len(),
                |i: int|
                    if 0 <= i < children@.len() {
                        ast_view(children@[i])
                    } else {
                        AstModel::NoOp
                    },
            ),
        },
        ASTNode::NoOp => AstModel::NoOp,
    }
}

} // verus!
