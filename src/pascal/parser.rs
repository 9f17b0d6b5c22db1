//! Recursive-descent parser:
//! program := block `.`; block := BEGIN statement (`;` statement)* END;
//! statement := block | ID `:=` expr | (empty);
//! expr := term ((`+`|`-`) term)*; term := factor ((`*`|`/`) factor)*;
//! factor := (`+`|`-`) factor | INTEGER | `(` expr `)` | ID.
use vstd::prelude::*;
use vstd::string::StringExecFns;
use crate::pascal::ast::{ast_view, ASTNode, AstModel};
use crate::pascal::lexer::{next_token, Lexer};
use crate::pascal::token::{same_kind_model, Token, TokenModel};
use crate::render::{decimal_text, push_decimal};

verus! {

/// Work left at position `p` with current token `c`: unread characters,
/// plus one for a current token that is not the end.
pub open spec fn pmeasure(t: Seq<char>, p: int, c: TokenModel) -> nat {
    (if p <= t.len() {
        t.len() - p
    } else {
        0
    }) as nat + if c is Eof {
        0nat
    } else {
        1nat
    }
}

/// Consuming current token `c` when it is of the kind of `kind`: the next
/// position and token.
pub open spec fn eat_spec(t: Seq<char>, p: int, c: TokenModel, kind: TokenModel) -> Option<(int, TokenModel)> {
    if same_kind_model(c, kind) {
        match next_token(t, p).0 {
            Some(tok) => Some((next_token(t, p).1, tok)),
            None => None,
        }
    } else {
        None
    }
}

/// A parse result: the tree, then the position and the current token after it.
pub type Parsed<T> = Option<(T, int, TokenModel)>;

/// factor := (`+`|`-`) factor | INTEGER | `(` expr `)` | ID
pub open spec fn factor_spec(t: Seq<char>, p: int, c: TokenModel) -> Parsed<AstModel>
    decreases pmeasure(t, p, c), 1nat,
{
    match c {
        TokenModel::Plus | TokenModel::Minus => match eat_spec(t, p, c, c) {
            None => None,
            Some((p2, c2)) => if pmeasure(t, p2, c2) < pmeasure(t, p, c) {
                match factor_spec(t, p2, c2) {
                    None => None,
                    Some((n, p3, c3)) => Some((AstModel::UnaryOp { op: c, expr: Box::new(n) }, p3, c3)),
                }
            } else {
                None
            },
        },
        TokenModel::Integer(v) => match eat_spec(t, p, c, c) {
            None => None,
            Some((p2, c2)) => Some((AstModel::Num(v), p2, c2)),
        },
        TokenModel::LParen => match eat_spec(t, p, c, c) {
            None => None,
            Some((p2, c2)) => if pmeasure(t, p2, c2) < pmeasure(t, p, c) {
                match expr_spec(t, p2, c2) {
                    None => None,
                    Some((n, p3, c3)) => match eat_spec(t, p3, c3, TokenModel::RParen) {
                        None => None,
                        Some((p4, c4)) => Some((n, p4, c4)),
                    },
                }
            } else {
                None
            },
        },
        TokenModel::Id(name) => match eat_spec(t, p, c, c) {
            None => None,
            Some((p2, c2)) => Some((AstModel::Var(name), p2, c2)),
        },
        _ => None,
    }
}

/// The rest of a term after its first factors gave `left`.
pub open spec fn term_tail(t: Seq<char>, p: int, c: TokenModel, left: AstModel) -> Parsed<AstModel>
    decreases pmeasure(t, p, c), 0nat,
{
    if c is Multiply || c is Divide {
        match eat_spec(t, p, c, c) {
            None => None,
            Some((p2, c2)) => if pmeasure(t, p2, c2) < pmeasure(t, p, c) {
                match factor_spec(t, p2, c2) {
                    None => None,
                    Some((r, p3, c3)) => if pmeasure(t, p3, c3) <= pmeasure(t, p2, c2) {
                        term_tail(t, p3, c3, AstModel::BinOp { left: Box::new(left), op: c, right: Box::new(r) })
                    } else {
                        None
                    },
                }
            } else {
                None
            },
        }
    } else {
        Some((left, p, c))
    }
}

/// term := factor ((`*`|`/`) factor)*, grouped to the left.
pub open spec fn term_spec(t: Seq<char>, p: int, c: TokenModel) -> Parsed<AstModel>
    decreases pmeasure(t, p, c), 2nat,
{
    match factor_spec(t, p, c) {
        None => None,
        Some((n, p2, c2)) => if pmeasure(t, p2, c2) <= pmeasure(t, p, c) {
            term_tail(t, p2, c2, n)
        } else {
            None
        },
    }
}

/// The rest of an expression after its first terms gave `left`.
pub open spec fn expr_tail(t: Seq<char>, p: int, c: TokenModel, left: AstModel) -> Parsed<AstModel>
    decreases pmeasure(t, p, c), 0nat,
{
    if c is Plus || c is Minus {
        match eat_spec(t, p, c, c) {
            None => None,
            Some((p2, c2)) => if pmeasure(t, p2, c2) < pmeasure(t, p, c) {
                match term_spec(t, p2, c2) {
                    None => None,
                    Some((r, p3, c3)) => if pmeasure(t, p3, c3) <= pmeasure(t, p2, c2) {
                        expr_tail(t, p3, c3, AstModel::BinOp { left: Box::new(left), op: c, right: Box::new(r) })
                    } else {
                        None
                    },
                }
            } else {
                None
            },
        }
    } else {
        Some((left, p, c))
    }
}

/// expr := term ((`+`|`-`) term)*, grouped to the left.
pub open spec fn expr_spec(t: Seq<char>, p: int, c: TokenModel) -> Parsed<AstModel>
    decreases pmeasure(t, p, c), 3nat,
{
    match term_spec(t, p, c) {
        None => None,
        Some((n, p2, c2)) => if pmeasure(t, p2, c2) <= pmeasure(t, p, c) {
            expr_tail(t, p2, c2, n)
        } else {
            None
        },
    }
}

/// assignment := ID `:=` expr
pub open spec fn assignment_spec(t: Seq<char>, p: int, c: TokenModel) -> Parsed<AstModel>
    decreases pmeasure(t, p, c), 1nat,
{
    match c {
        TokenModel::Id(name) => match eat_spec(t, p, c, c) {
            None => None,
            Some((p2, c2)) => match eat_spec(t, p2, c2, TokenModel::Assign) {
                None => None,
                Some((p3, c3)) => if pmeasure(t, p3, c3) < pmeasure(t, p, c) {
                    match expr_spec(t, p3, c3) {
                        None => None,
                        Some((e, p4, c4)) => Some((AstModel::Assign { var: name, expr: Box::new(e) }, p4, c4)),
                    }
                } else {
                    None
                },
            },
        },
        _ => None,
    }
}

/// statement := block | assignment | (empty)
pub open spec fn statement_spec(t: Seq<char>, p: int, c: TokenModel) -> Parsed<AstModel>
    decreases pmeasure(t, p, c), 2nat,
{
    match c {
        TokenModel::Begin => block_spec(t, p, c),
        TokenModel::Id(_) => assignment_spec(t, p, c),
        _ => Some((AstModel::NoOp, p, c)),
    }
}

/// The rest of a statement list after the statements `acc`.
pub open spec fn list_tail(t: Seq<char>, p: int, c: TokenModel, acc: Seq<AstModel>) -> Parsed<Seq<AstModel>>
    decreases pmeasure(t, p, c), 0nat,
{
    if c is Semi {
        match eat_spec(t, p, c, c) {
            None => None,
            Some((p2, c2)) => if pmeasure(t, p2, c2) < pmeasure(t, p, c) {
                match statement_spec(t, p2, c2) {
                    None => None,
                    Some((n, p3, c3)) => if pmeasure(t, p3, c3) <= pmeasure(t, p2, c2) {
                        list_tail(t, p3, c3, acc.push(n))
                    } else {
                        None
                    },
                }
            } else {
                None
            },
        }
    } else {
        Some((acc, p, c))
    }
}

/// statement_list := statement (`;` statement)*
pub open spec fn list_spec(t: Seq<char>, p: int, c: TokenModel) -> Parsed<Seq<AstModel>>
    decreases pmeasure(t, p, c), 3nat,
{
    match statement_spec(t, p, c) {
        None => None,
        Some((n, p2, c2)) => if pmeasure(t, p2, c2) <= pmeasure(t, p, c) {
            list_tail(t, p2, c2, seq![n])
        } else {
            None
        },
    }
}

/// block := BEGIN statement_list END
pub open spec fn block_spec(t: Seq<char>, p: int, c: TokenModel) -> Parsed<AstModel>
    decreases pmeasure(t, p, c), 1nat,
{
    match eat_spec(t, p, c, TokenModel::Begin) {
        None => None,
        Some((p2, c2)) => if pmeasure(t, p2, c2) < pmeasure(t, p, c) {
            match list_spec(t, p2, c2) {
                None => None,
                Some((nodes, p3, c3)) => match eat_spec(t, p3, c3, TokenModel::End) {
                    None => None,
                    Some((p4, c4)) => Some((AstModel::Compound { children: nodes }, p4, c4)),
                },
            }
        } else {
            None
        },
    }
}

/// program := block `.`
pub open spec fn program_spec(t: Seq<char>, p: int, c: TokenModel) -> Parsed<AstModel> {
    match block_spec(t, p, c) {
        None => None,
        Some((n, p2, c2)) => match eat_spec(t, p2, c2, TokenModel::Dot) {
            None => None,
            Some((p3, c3)) => Some((n, p3, c3)),
        },
    }
}

/// The tree of a whole program text, if it lexes and parses.
pub open spec fn parse_text(t: Seq<char>) -> Option<AstModel> {
    match next_token(t, 0).0 {
        None => None,
        Some(c) => match program_spec(t, next_token(t, 0).1, c) {
            None => None,
            Some((n, _, _)) => Some(n),
        },
    }
}

/// The models of a sequence of trees.
pub open spec fn views(v: Seq<ASTNode>) -> Seq<AstModel> {
    Seq::new(v.len(), |i: int| ast_view(v[i]))
}

/// The name of a token's kind.
pub open spec fn kind_name(t: TokenModel) -> Seq<char> {
    match t {
        TokenModel::Integer(_) => "Integer("@,
        TokenModel::Plus => "Plus"@,
        TokenModel::Minus => "Minus"@,
        TokenModel::Multiply => "Multiply"@,
        TokenModel::Divide => "Divide"@,
        TokenModel::LParen => "LParen"@,
        TokenModel::RParen => "RParen"@,
        TokenModel::Begin => "Begin"@,
        TokenModel::End => "End"@,
        TokenModel::Semi => "Semi"@,
        TokenModel::Dot => "Dot"@,
        TokenModel::Assign => "Assign"@,
        TokenModel::Id(_) => "Id(\""@,
        TokenModel::Eof => "Eof"@,
    }
}

/// `Debug`-style text of a token: its kind, with the value or name it
/// carries in parentheses.
pub open spec fn token_text(t: TokenModel) -> Seq<char> {
    match t {
        TokenModel::Integer(v) => kind_name(t) + decimal_text(v as int) + ")"@,
        TokenModel::Id(s) => kind_name(t) + s + "\")"@,
        _ => kind_name(t),
    }
}

/// `Debug`-style text of a token, for error messages.
pub fn describe(t: &Token) -> (r: String)
    ensures
        r@ == token_text(t@),
{
    let mut out = match t {
        Token::Integer(_) => String::from_str("Integer("),
        Token::Plus => String::from_str("Plus"),
        Token::Minus => String::from_str("Minus"),
        Token::Multiply => String::from_str("Multiply"),
        Token::Divide => String::from_str("Divide"),
        Token::LParen => String::from_str("LParen"),
        Token::RParen => String::from_str("RParen"),
        Token::Begin => String::from_str("Begin"),
        Token::End => String::from_str("End"),
        Token::Semi => String::from_str("Semi"),
        Token::Dot => String::from_str("Dot"),
        Token::Assign => String::from_str("Assign"),
        Token::Id(_) => String::from_str("Id(\""),
        Token::Eof => String::from_str("Eof"),
    };
    match t {
        Token::Integer(v) => {
            push_decimal(&mut out, *v as i64);
            out.append(")");
        },
        Token::Id(name) => {
            out.append(name.as_str());
            out.append("\")");
        },
        _ => {},
    }
    out
}

pub struct Parser {
    lexer: Lexer,
    current_token: Token,
}

impl Parser {
    /// The program text.
    pub closed spec fn text(&self) -> Seq<char> {
        self.lexer.text_spec()
    }

    /// Position in the text after the current token.
    pub closed spec fn pos(&self) -> int {
        self.lexer.pos_spec()
    }

    /// The current token.
    pub closed spec fn cur(&self) -> TokenModel {
        self.current_token@
    }

    pub closed spec fn wf(&self) -> bool {
        &&& self.lexer.wf()
        &&& self.lexer.pos_spec() <= self.lexer.text_spec().len()
        &&& (self.current_token is Eof ==> self.lexer.remaining() == 0)
    }

    pub open spec fn measure(&self) -> nat {
        pmeasure(self.text(), self.pos(), self.cur())
    }

    /// Reads the first token.
    pub fn new(lexer: Lexer) -> (r: Result<Self, String>)
        requires
            lexer.wf(),
        ensures
            r is Ok <==> next_token(lexer.text_spec(), lexer.pos_spec()).0 is Some,
            r matches Ok(p) ==> p.wf() && p.text() == lexer.text_spec() && Some(p.cur())
                == next_token(lexer.text_spec(), lexer.pos_spec()).0 && p.pos() == next_token(
                lexer.text_spec(),
                lexer.pos_spec(),
            ).1,
    {
        let mut lexer = lexer;
        let current_token = match lexer.get_next_token() {
            Ok(t) => t,
            Err(e) => {
                return Err(e);
            },
        };
        Ok(Parser { lexer, current_token })
    }

    /// Consumes the current token if it is of the kind of `token_type`.
    fn eat(&mut self, token_type: Token) -> (r: Result<(), String>)
        requires
            old(self).wf(),
        ensures
            final(self).wf(),
            final(self).text() == old(self).text(),
            final(self).measure() <= old(self).measure(),
            r is Ok <==> eat_spec(old(self).text(), old(self).pos(), old(self).cur(), token_type@) is Some,
            r is Ok ==> eat_spec(old(self).text(), old(self).pos(), old(self).cur(), token_type@) == Some(
                (final(self).pos(), final(self).cur()),
            ),
            r is Ok && !(token_type is Eof) ==> final(self).measure() < old(self).measure(),
    {
        if self.current_token.kind_eq(&token_type) {
            match self.lexer.get_next_token() {
                Ok(t) => {
                    self.current_token = t;
                    Ok(())
                },
                Err(e) => Err(e),
            }
        } else {
            let mut msg = String::from_str("Expected ");
            msg.append(describe(&token_type).as_str());
            msg.append(", got ");
            msg.append(describe(&self.current_token).as_str());
            Err(msg)
        }
    }

    /// A whole program: a block followed by `.`.
    pub fn program(&mut self) -> (r: Result<ASTNode, String>)
        requires
            old(self).wf(),
        ensures
            final(self).wf(),
            r is Err <==> program_spec(old(self).text(), old(self).pos(), old(self).cur()) is None,
            r matches Ok(n) ==> program_spec(old(self).text(), old(self).pos(), old(self).cur())
                == Some((ast_view(n), final(self).pos(), final(self).cur())),
    {
        let node = match self.complex_statement() {
            Ok(n) => n,
            Err(e) => {
                return Err(e);
            },
        };
        match self.eat(Token::Dot) {
            Ok(()) => Ok(node),
            Err(e) => Err(e),
        }
    }

    #[verifier::rlimit(40)]
    fn complex_statement(&mut self) -> (r: Result<ASTNode, String>)
        requires
            old(self).wf(),
        ensures
            final(self).wf(),
            final(self).text() == old(self).text(),
            final(self).measure() <= old(self).measure(),
            r is Err ==> block_spec(old(self).text(), old(self).pos(), old(self).cur()) is None,
            r matches Ok(n) ==> block_spec(old(self).text(), old(self).pos(), old(self).cur())
                == Some((ast_view(n), final(self).pos(), final(self).cur())),
        decreases old(self).measure(), 1nat,
    {
        match self.eat(Token::Begin) {
            Ok(()) => {},
            Err(e) => {
                return Err(e);
            },
        }
        let nodes = match self.statement_list() {
            Ok(n) => n,
            Err(e) => {
                return Err(e);
            },
        };
        match self.eat(Token::End) {
            Ok(()) => {
                let ghost v = views(nodes@);
                let node = ASTNode::Compound { children: nodes };
                proof {
                    assert(ast_view(node)->children =~= v);
                }
                Ok(node)
            },
            Err(e) => Err(e),
        }
    }

    fn statement_list(&mut self) -> (r: Result<Vec<ASTNode>, String>)
        requires
            old(self).wf(),
        ensures
            final(self).wf(),
            final(self).text() == old(self).text(),
            final(self).measure() <= old(self).measure(),
            r is Err ==> list_spec(old(self).text(), old(self).pos(), old(self).cur()) is None,
            r matches Ok(v) ==> list_spec(old(self).text(), old(self).pos(), old(self).cur()) == Some(
                (views(v@), final(self).pos(), final(self).cur()),
            ),
        decreases old(self).measure(), 3nat,
    {
        let first = match self.statement() {
            Ok(n) => n,
            Err(e) => {
                return Err(e);
            },
        };
        let mut results: Vec<ASTNode> = Vec::new();
        results.push(first);
        proof {
            assert(views(results@) =~= seq![ast_view(first)]);
        }
        while matches!(self.current_token, Token::Semi)
            invariant
                self.wf(),
                self.text() == old(self).text(),
                self.measure() <= old(self).measure(),
                list_spec(old(self).text(), old(self).pos(), old(self).cur()) == list_tail(
                    self.text(),
                    self.pos(),
                    self.cur(),
                    views(results@),
                ),
            decreases self.measure(),
        {
            match self.eat(Token::Semi) {
                Ok(()) => {},
                Err(e) => {
                    return Err(e);
                },
            }
            let s = match self.statement() {
                Ok(n) => n,
                Err(e) => {
                    return Err(e);
                },
            };
            let ghost before = views(results@);
            results.push(s);
            proof {
                assert(views(results@) =~= before.push(ast_view(s)));
            }
        }
        Ok(results)
    }

    fn statement(&mut self) -> (r: Result<ASTNode, String>)
        requires
            old(self).wf(),
        ensures
            final(self).wf(),
            final(self).text() == old(self).text(),
            final(self).measure() <= old(self).measure(),
            r is Err ==> statement_spec(old(self).text(), old(self).pos(), old(self).cur()) is None,
            r matches Ok(n) ==> statement_spec(old(self).text(), old(self).pos(), old(self).cur())
                == Some((ast_view(n), final(self).pos(), final(self).cur())),
        decreases old(self).measure(), 2nat,
    {
        match &self.current_token {
            Token::Begin => self.complex_statement(),
            Token::Id(_) => self.assignment(),
            _ => Ok(self.empty()),
        }
    }

    fn assignment(&mut self) -> (r: Result<ASTNode, String>)
        requires
            old(self).wf(),
        ensures
            final(self).wf(),
            final(self).text() == old(self).text(),
            final(self).measure() <= old(self).measure(),
            r is Err ==> assignment_spec(old(self).text(), old(self).pos(), old(self).cur()) is None,
            r matches Ok(n) ==> assignment_spec(old(self).text(), old(self).pos(), old(self).cur())
                == Some((ast_view(n), final(self).pos(), final(self).cur())),
        decreases old(self).measure(), 1nat,
    {
        let var = match self.variable() {
            Ok(v) => v,
            Err(e) => {
                return Err(e);
            },
        };
        match self.eat(Token::Assign) {
            Ok(()) => {},
            Err(e) => {
                return Err(e);
            },
        }
        let expr = match self.expr() {
            Ok(n) => n,
            Err(e) => {
                return Err(e);
            },
        };
        Ok(ASTNode::Assign { var, expr: Box::new(expr) })
    }

    fn variable(&mut self) -> (r: Result<String, String>)
        requires
            old(self).wf(),
        ensures
            final(self).wf(),
            final(self).text() == old(self).text(),
            final(self).measure() <= old(self).measure(),
            r is Err ==> !(old(self).cur() is Id) || eat_spec(
                old(self).text(),
                old(self).pos(),
                old(self).cur(),
                old(self).cur(),
            ) is None,
            r matches Ok(name) ==> old(self).cur() == TokenModel::Id(name@) && eat_spec(
                old(self).text(),
                old(self).pos(),
                old(self).cur(),
                old(self).cur(),
            ) == Some((final(self).pos(), final(self).cur())),
            r is Ok ==> final(self).measure() < old(self).measure(),
    {
        match &self.current_token {
            Token::Id(name) => {
                let name = name.clone();
                match self.eat(Token::Id(String::new())) {
                    Ok(()) => Ok(name),
                    Err(e) => Err(e),
                }
            },
            _ => {
                let mut msg = String::from_str("Expected identifier, got ");
                msg.append(describe(&self.current_token).as_str());
                Err(msg)
            },
        }
    }

    fn empty(&self) -> (r: ASTNode)
        ensures
            r is NoOp,
    {
        ASTNode::NoOp
    }

    fn expr(&mut self) -> (r: Result<ASTNode, String>)
        requires
            old(self).wf(),
        ensures
            final(self).wf(),
            final(self).text() == old(self).text(),
            final(self).measure() <= old(self).measure(),
            r is Err ==> expr_spec(old(self).text(), old(self).pos(), old(self).cur()) is None,
            r matches Ok(n) ==> expr_spec(old(self).text(), old(self).pos(), old(self).cur()) == Some(
                (ast_view(n), final(self).pos(), final(self).cur()),
            ),
        decreases old(self).measure(), 3nat,
    {
        let mut node = match self.term() {
            Ok(n) => n,
            Err(e) => {
                return Err(e);
            },
        };
        while matches!(self.current_token, Token::Plus | Token::Minus)
            invariant
                self.wf(),
                self.text() == old(self).text(),
                self.measure() <= old(self).measure(),
                expr_spec(old(self).text(), old(self).pos(), old(self).cur()) == expr_tail(
                    self.text(),
                    self.pos(),
                    self.cur(),
                    ast_view(node),
                ),
            decreases self.measure(),
        {
            let op = self.current_token.duplicate();
            let eaten = match op {
                Token::Plus => self.eat(Token::Plus),
                _ => self.eat(Token::Minus),
            };
            match eaten {
                Ok(()) => {},
                Err(e) => {
                    return Err(e);
                },
            }
            let right = match self.term() {
                Ok(n) => n,
                Err(e) => {
                    return Err(e);
                },
            };
            node = ASTNode::BinOp { left: Box::new(node), op, right: Box::new(right) };
        }
        Ok(node)
    }

    fn term(&mut self) -> (r: Result<ASTNode, String>)
        requires
            old(self).wf(),
        ensures
            final(self).wf(),
            final(self).text() == old(self).text(),
            final(self).measure() <= old(self).measure(),
            r is Err ==> term_spec(old(self).text(), old(self).pos(), old(self).cur()) is None,
            r matches Ok(n) ==> term_spec(old(self).text(), old(self).pos(), old(self).cur()) == Some(
                (ast_view(n), final(self).pos(), final(self).cur()),
            ),
        decreases old(self).measure(), 2nat,
    {
        let mut node = match self.factor() {
            Ok(n) => n,
            Err(e) => {
                return Err(e);
            },
        };
        while matches!(self.current_token, Token::Multiply | Token::Divide)
            invariant
                self.wf(),
                self.text() == old(self).text(),
                self.measure() <= old(self).measure(),
                term_spec(old(self).text(), old(self).pos(), old(self).cur()) == term_tail(
                    self.text(),
                    self.pos(),
                    self.cur(),
                    ast_view(node),
                ),
            decreases self.measure(),
        {
            let op = self.current_token.duplicate();
            let eaten = match op {
                Token::Multiply => self.eat(Token::Multiply),
                _ => self.eat(Token::Divide),
            };
            match eaten {
                Ok(()) => {},
                Err(e) => {
                    return Err(e);
                },
            }
            let right = match self.factor() {
                Ok(n) => n,
                Err(e) => {
                    return Err(e);
                },
            };
            node = ASTNode::BinOp { left: Box::new(node), op, right: Box::new(right) };
        }
        Ok(node)
    }

    fn factor(&mut self) -> (r: Result<ASTNode, String>)
        requires
            old(self).wf(),
        ensures
            final(self).wf(),
            final(self).text() == old(self).text(),
            final(self).measure() <= old(self).measure(),
            r is Err ==> factor_spec(old(self).text(), old(self).pos(), old(self).cur()) is None,
            r matches Ok(n) ==> factor_spec(old(self).text(), old(self).pos(), old(self).cur())
                == Some((ast_view(n), final(self).pos(), final(self).cur())),
        decreases old(self).measure(), 1nat,
    {
        match &self.current_token {
            Token::Plus => {
                match self.eat(Token::Plus) {
                    Ok(()) => {},
                    Err(e) => {
                        return Err(e);
                    },
                }
                match self.factor() {
                    Ok(n) => Ok(ASTNode::UnaryOp { op: Token::Plus, expr: Box::new(n) }),
                    Err(e) => Err(e),
                }
            },
            Token::Minus => {
                match self.eat(Token::Minus) {
                    Ok(()) => {},
                    Err(e) => {
                        return Err(e);
                    },
                }
                match self.factor() {
                    Ok(n) => Ok(ASTNode::UnaryOp { op: Token::Minus, expr: Box::new(n) }),
                    Err(e) => Err(e),
                }
            },
            Token::Integer(v) => {
                let v = *v;
                match self.eat(Token::Integer(0)) {
                    Ok(()) => Ok(ASTNode::Num(v)),
                    Err(e) => Err(e),
                }
            },
            Token::LParen => {
                match self.eat(Token::LParen) {
                    Ok(()) => {},
                    Err(e) => {
                        return Err(e);
                    },
                }
                let node = match self.expr() {
                    Ok(n) => n,
                    Err(e) => {
                        return Err(e);
                    },
                };
                match self.eat(Token::RParen) {
                    Ok(()) => Ok(node),
                    Err(e) => Err(e),
                }
            },
            Token::Id(_) => {
                match self.variable() {
                    Ok(name) => Ok(ASTNode::Var(name)),
                    Err(e) => Err(e),
                }
            },
            _ => {
                let mut msg = String::from_str("Unexpected token in factor: ");
                msg.append(describe(&self.current_token).as_str());
                Err(msg)
            },
        }
    }
}

} // verus!
