//! Evaluates syntax trees over a table of integer variables.
use vstd::prelude::*;
use vstd::string::StringExecFns;
use crate::pascal::ast::{ast_view, ASTNode, AstModel};
use crate::pascal::parser::describe;
use crate::pascal::token::{Token, TokenModel};

verus! {

broadcast use vstd::std_specs::vec::axiom_vec_index_decreases;

/// The value bound to `k` by the latest entry of `e` that names it.
pub open spec fn lookup(e: Seq<(Seq<char>, i32)>, k: Seq<char>) -> Option<i32>
    decreases e.len(),
{
    if e.len() == 0 {
        None
    } else if e.last().0 == k {
        Some(e.last().1)
    } else {
        lookup(e.drop_last(), k)
    }
}

/// Entries with their names as character sequences.
pub open spec fn view_entries(v: Seq<(String, i32)>) -> Seq<(Seq<char>, i32)> {
    v.map_values(|p: (String, i32)| (p.0@, p.1))
}

pub open spec fn keys_unique(e: Seq<(Seq<char>, i32)>) -> bool {
    forall|i: int, j: int| 0 <= i < j < e.len() ==> #[trigger] e[i].0 != #[trigger] e[j].0
}

/// The variables of a program run: names bound to `i32` values.
#[derive(Debug)]
pub struct Variables {
    entries: Vec<(String, i32)>,
}

impl Variables {
    pub closed spec fn entries_spec(&self) -> Seq<(Seq<char>, i32)> {
        view_entries(self.entries@)
    }

    pub open spec fn wf(&self) -> bool {
        keys_unique(self.entries_spec())
    }

    /// The binding of each name.
    pub open spec fn map(&self) -> Map<Seq<char>, i32> {
        Map::new(
            |k: Seq<char>| lookup(self.entries_spec(), k) is Some,
            |k: Seq<char>| lookup(self.entries_spec(), k)->Some_0,
        )
    }

    pub fn new() -> (r: Self)
        ensures
            r.wf(),
            r.map() == Map::<Seq<char>, i32>::empty(),
    {
        let r = Variables { entries: Vec::new() };
        proof {
            assert(r.map() =~= Map::<Seq<char>, i32>::empty());
        }
        r
    }

    /// Number of variables.
    pub fn len(&self) -> (r: usize)
        requires
            self.wf(),
        ensures
            r == self.entries_spec().len(),
    {
        self.entries.len()
    }

    fn find(&self, key: &String) -> (r: Option<usize>)
        requires
            self.wf(),
        ensures
            r matches Some(i) ==> i < self.entries_spec().len() && self.entries_spec()[i as int].0
                == key@,
            r is None ==> forall|i: int|
                0 <= i < self.entries_spec().len() ==> self.entries_spec()[i].0 != key@,
    {
        let mut i: usize = 0;
        while i < self.entries.len()
            invariant
                i <= self.entries_spec().len(),
                forall|j: int| 0 <= j < i ==> self.entries_spec()[j].0 != key@,
            decreases self.entries_spec().len() - i,
        {
            if self.entries[i].0 == *key {
                return Some(i);
            }
            i = i + 1;
        }
        None
    }

    /// The value of `name`, if it is bound.
    pub fn get(&self, name: &str) -> (r: Option<&i32>)
        requires
            self.wf(),
        ensures
            r matches Some(v) ==> self.map().contains_key(name@) && self.map()[name@] == *v,
            r is None ==> !self.map().contains_key(name@),
    {
        let key = String::from_str(name);
        match self.find(&key) {
            Some(i) => {
                proof {
                    lemma_lookup_unique(self.entries_spec(), i as int);
                }
                Some(&self.entries[i].1)
            },
            None => {
                proof {
                    lemma_lookup_absent(self.entries_spec(), name@);
                }
                None
            },
        }
    }

    /// Binds `name` to `value`, replacing any earlier binding.
    pub fn insert(&mut self, name: String, value: i32)
        requires
            old(self).wf(),
        ensures
            final(self).wf(),
            final(self).map() == old(self).map().insert(name@, value),
    {
        let ghost e0 = self.entries_spec();
        match self.find(&name) {
            Some(i) => {
                self.entries.set(i, (name, value));
                proof {
                    assert(self.entries_spec() =~= e0.update(i as int, (e0[i as int].0, value)));
                    lemma_lookup_update(e0, i as int, value);
                    assert(self.map() =~= old(self).map().insert(e0[i as int].0, value));
                }
            },
            None => {
                let ghost k = name@;
                self.entries.push((name, value));
                proof {
                    let e1 = self.entries_spec();
                    assert(e1 =~= e0.push((k, value)));
                    assert(e1.drop_last() =~= e0);
                    assert forall|k2: Seq<char>| #[trigger] lookup(e1, k2) == if k2 == k {
                        Some(value)
                    } else {
                        lookup(e0, k2)
                    } by {
                        assert(e1.last() == (k, value));
                    }
                    assert(self.map() =~= old(self).map().insert(k, value));
                    assert forall|a: int, b: int| 0 <= a < b < e1.len() implies #[trigger] e1[a].0
                        != #[trigger] e1[b].0 by {
                        if b == e1.len() - 1 {
                            assert(e1[a] == e0[a]);
                        } else {
                            assert(e1[a] == e0[a]);
                            assert(e1[b] == e0[b]);
                        }
                    }
                }
            },
        }
    }

    /// An independent copy.
    pub fn clone_vars(&self) -> (r: Variables)
        requires
            self.wf(),
        ensures
            r.wf(),
            r.entries_spec() == self.entries_spec(),
            r.map() == self.map(),
    {
        let mut entries: Vec<(String, i32)> = Vec::new();
        let mut i: usize = 0;
        while i < self.entries.len()
            invariant
                i <= self.entries_spec().len(),
                entries@.len() == i,
                view_entries(entries@) == self.entries_spec().take(i as int),
            decreases self.entries_spec().len() - i,
        {
            let name = self.entries[i].0.clone();
            entries.push((name, self.entries[i].1));
            proof {
                assert(self.entries_spec()[i as int] == (self.entries@[i as int].0@, self.entries@[i as int].1));
                assert(view_entries(entries@)[i as int] == (entries@[i as int].0@, entries@[i as int].1));
            }
            i = i + 1;
            proof {
                assert(view_entries(entries@) =~= self.entries_spec().take(i as int));
            }
        }
        proof {
            assert(self.entries_spec().take(i as int) =~= self.entries_spec());
        }
        let r = Variables { entries };
        proof {
            assert(r.map() =~= self.map());
        }
        r
    }
}

proof fn lemma_lookup_absent(e: Seq<(Seq<char>, i32)>, k: Seq<char>)
    requires
        forall|i: int| 0 <= i < e.len() ==> e[i].0 != k,
    ensures
        lookup(e, k) is None,
    decreases e.len(),
{
    if e.len() > 0 {
        assert(e.last() == e[e.len() - 1]);
        lemma_lookup_absent(e.drop_last(), k);
    }
}

proof fn lemma_lookup_unique(e: Seq<(Seq<char>, i32)>, i: int)
    requires
        keys_unique(e),
        0 <= i < e.len(),
    ensures
        lookup(e, e[i].0) == Some(e[i].1),
    decreases e.len(),
{
    if i < e.len() - 1 {
        assert(e.last().0 != e[i].0) by {
            assert(e.last() == e[e.len() - 1]);
        }
        assert(keys_unique(e.drop_last()));
        assert(e.drop_last()[i] == e[i]);
        lemma_lookup_unique(e.drop_last(), i);
    }
}

proof fn lemma_lookup_update(e: Seq<(Seq<char>, i32)>, i: int, v: i32)
    requires
        keys_unique(e),
        0 <= i < e.len(),
    ensures
        keys_unique(e.update(i, (e[i].0, v))),
        forall|k: Seq<char>| #[trigger]
            lookup(e.update(i, (e[i].0, v)), k) == if k == e[i].0 {
                Some(v)
            } else {
                lookup(e, k)
            },
    decreases e.len(),
{
    let e2 = e.update(i, (e[i].0, v));
    assert(keys_unique(e2)) by {
        assert forall|a: int, b: int| 0 <= a < b < e2.len() implies #[trigger] e2[a].0 != #[trigger] e2[b].0 by {
            assert(e2[a].0 == e[a].0);
            assert(e2[b].0 == e[b].0);
        }
    }
    if i < e.len() - 1 {
        assert(keys_unique(e.drop_last()));
        lemma_lookup_update(e.drop_last(), i, v);
        assert(e2.drop_last() =~= e.drop_last().update(i, (e[i].0, v)));
        assert(e.drop_last()[i] == e[i]);
        assert forall|k: Seq<char>| #[trigger]
            lookup(e2, k) == if k == e[i].0 {
                Some(v)
            } else {
                lookup(e, k)
            } by {
            assert(e2.last() == e.last());
            assert(e.last() == e[e.len() - 1]);
            assert(e[i].0 != e[e.len() - 1].0);
            assert(lookup(e2.drop_last(), k) == lookup(e.drop_last().update(i, (e[i].0, v)), k));
        }
    } else {
        assert(e2.drop_last() =~= e.drop_last());
        assert forall|k: Seq<char>| #[trigger]
            lookup(e2, k) == if k == e[i].0 {
                Some(v)
            } else {
                lookup(e, k)
            } by {
            assert(e.last() == e[e.len() - 1]);
            if k != e[i].0 {
                lemma_lookup_update_last(e, k);
            }
        }
    }
}

proof fn lemma_lookup_update_last(e: Seq<(Seq<char>, i32)>, k: Seq<char>)
    requires
        e.len() > 0,
        e.last().0 != k,
    ensures
        lookup(e, k) == lookup(e.drop_last(), k),
{
}

/// `x` when it fits in an `i32`.
pub open spec fn fits(x: int) -> Option<i32> {
    if i32::MIN <= x <= i32::MAX {
        Some(x as i32)
    } else {
        None
    }
}

/// Division rounding towards zero, as `i32` division does.
pub open spec fn trunc_div(a: int, b: int) -> int {
    let q = (if a < 0 { -a } else { a }) / (if b < 0 { -b } else { b });
    if (a < 0) == (b < 0) {
        q
    } else {
        -q
    }
}

/// A binary operation; `None` on division by zero, overflow or an operator
/// that is not arithmetic.
pub open spec fn binop(op: TokenModel, a: i32, b: i32) -> Option<i32> {
    match op {
        TokenModel::Plus => fits(a + b),
        TokenModel::Minus => fits(a - b),
        TokenModel::Multiply => fits(a * b),
        TokenModel::Divide => if b == 0 {
            None
        } else {
            fits(trunc_div(a as int, b as int))
        },
        _ => None,
    }
}

pub open spec fn unop(op: TokenModel, a: i32) -> Option<i32> {
    match op {
        TokenModel::Plus => Some(a),
        TokenModel::Minus => fits(-a),
        _ => None,
    }
}

/// The value of `node` with variables `vars`, or `None` on an error, and
/// the variables afterwards (assignments made before an error stay).
pub open spec fn eval(node: AstModel, vars: Map<Seq<char>, i32>) -> (Option<i32>, Map<Seq<char>, i32>)
    decreases node, if node is Compound {
        node->children.len() + 1
    } else {
        0
    },
{
    match node {
        AstModel::BinOp { left, op, right } => {
            let (l, v1) = eval(*left, vars);
            match l {
                None => (None, v1),
                Some(a) => {
                    let (r, v2) = eval(*right, v1);
                    match r {
                        None => (None, v2),
                        Some(b) => (binop(op, a, b), v2),
                    }
                },
            }
        },
        AstModel::UnaryOp { op, expr } => {
            let (x, v1) = eval(*expr, vars);
            match x {
                None => (None, v1),
                Some(a) => (unop(op, a), v1),
            }
        },
        AstModel::Num(v) => (Some(v), vars),
        AstModel::Var(name) => if vars.contains_key(name) {
            (Some(vars[name]), vars)
        } else {
            (None, vars)
        },
        AstModel::Assign { var, expr } => {
            let (x, v1) = eval(*expr, vars);
            match x {
                None => (None, v1),
                Some(a) => (Some(a), v1.insert(var, a)),
            }
        },
        AstModel::Compound { children } => eval_from(node, 0, vars, 0),
        AstModel::NoOp => (Some(0), vars),
    }
}

/// The children of a compound node from the `i`-th on, run in order; the
/// value is that of the last one run (`acc` when none is left).
pub open spec fn eval_from(node: AstModel, i: int, vars: Map<Seq<char>, i32>, acc: i32) -> (
    Option<i32>,
    Map<Seq<char>, i32>,
)
    decreases node, if node is Compound && 0 <= i <= node->children.len() {
        (node->children.len() - i) as nat
    } else {
        0
    },
{
    match node {
        AstModel::Compound { children } => if 0 <= i < children.len() {
            let (x, v1) = eval(children[i], vars);
            match x {
                None => (None, v1),
                Some(a) => eval_from(node, i + 1, v1, a),
            }
        } else {
            (Some(acc), vars)
        },
        _ => (Some(acc), vars),
    }
}

pub struct Interpreter {
    pub variables: Variables,
}

impl Interpreter {
    pub open spec fn wf(&self) -> bool {
        self.variables.wf()
    }

    /// An interpreter with no variables.
    pub fn new() -> (r: Self)
        ensures
            r.wf(),
            r.variables.map() == Map::<Seq<char>, i32>::empty(),
    {
        Interpreter { variables: Variables::new() }
    }

    fn arith(op: &Token, a: i32, b: i32) -> (r: Result<i32, String>)
        ensures
            r is Ok <==> binop(op@, a, b) is Some,
            r matches Ok(v) ==> binop(op@, a, b) == Some(v),
    {
        let wide: i64 = match op {
            Token::Plus => a as i64 + b as i64,
            Token::Minus => a as i64 - b as i64,
            Token::Multiply => {
                proof {
                    let x = a as int;
                    let y = b as int;
                    assert(-0x4000_0000_0000_0000 <= x * y <= 0x4000_0000_0000_0000) by (nonlinear_arith)
                        requires
                            -0x8000_0000 <= x <= 0x7fff_ffff,
                            -0x8000_0000 <= y <= 0x7fff_ffff,
                    ;
                }
                a as i64 * b as i64
            },
            Token::Divide => {
                if b == 0 {
                    return Err(String::from_str("Division by zero"));
                }
                let ua: i64 = if a < 0 { -(a as i64) } else { a as i64 };
                let ub: i64 = if b < 0 { -(b as i64) } else { b as i64 };
                let q = ua / ub;
                if (a < 0) == (b < 0) {
                    q
                } else {
                    -q
                }
            },
            _ => {
                let mut msg = String::from_str("Unknown binary operator: ");
                msg.append(describe(op).as_str());
                return Err(msg);
            },
        };
        if wide < i32::MIN as i64 || wide > i32::MAX as i64 {
            Err(String::from_str("Integer overflow"))
        } else {
            Ok(wide as i32)
        }
    }

    /// Evaluates `node`, assigning as it goes; the value of a block is that
    /// of its last statement, of an empty statement 0.
    pub fn interpret(&mut self, node: &ASTNode) -> (r: Result<i32, String>)
        requires
            old(self).wf(),
        ensures
            final(self).wf(),
            r is Ok <==> eval(ast_view(*node), old(self).variables.map()).0 is Some,
            r matches Ok(v) ==> eval(ast_view(*node), old(self).variables.map()).0 == Some(v),
            final(self).variables.map() == eval(ast_view(*node), old(self).variables.map()).1,
        decreases node,
    {
        match node {
            ASTNode::BinOp { left, op, right } => {
                let a = match self.interpret(left) {
                    Ok(a) => a,
                    Err(e) => {
                        return Err(e);
                    },
                };
                let b = match self.interpret(right) {
                    Ok(b) => b,
                    Err(e) => {
                        return Err(e);
                    },
                };
                Self::arith(op, a, b)
            },
            ASTNode::UnaryOp { op, expr } => {
                let a = match self.interpret(expr) {
                    Ok(a) => a,
                    Err(e) => {
                        return Err(e);
                    },
                };
                match op {
                    Token::Plus => Ok(a),
                    Token::Minus => if a == i32::MIN {
                        Err(String::from_str("Integer overflow"))
                    } else {
                        Ok(-a)
                    },
                    _ => {
                        let mut msg = String::from_str("Unknown unary operator: ");
                        msg.append(describe(op).as_str());
                        Err(msg)
                    },
                }
            },
            ASTNode::Num(v) => Ok(*v),
            ASTNode::Var(name) => match self.variables.get(name.as_str()) {
                Some(v) => Ok(*v),
                None => {
                    let mut msg = String::from_str("Undefined variable: ");
                    msg.append(name.as_str());
                    Err(msg)
                },
            },
            ASTNode::Assign { var, expr } => {
                let v = match self.interpret(expr) {
                    Ok(v) => v,
                    Err(e) => {
                        return Err(e);
                    },
                };
                self.variables.insert(var.clone(), v);
                Ok(v)
            },
            ASTNode::Compound { children } => {
                let mut result: i32 = 0;
                let mut i: usize = 0;
                while i < children.len()
                    invariant
                        self.wf(),
                        *node is Compound,
                        (*node)->children == *children,
                        i <= children@.len(),
                        eval(ast_view(*node), old(self).variables.map()) == eval_from(
                            ast_view(*node),
                            i as int,
                            self.variables.map(),
                            result,
                        ),
                    decreases children@.len() - i,
                {
                    proof {
                        assert(decreases_to!(*node => (*node)->children));
                        assert(decreases_to!((*node)->children => (*node)->children@));
                        assert(decreases_to!((*node)->children@ => (*node)->children@[i as int]));
                    }
                    let ghost before = self.variables.map();
                    proof {
                        assert(ast_view(*node)->children[i as int] == ast_view(children@[i as int]));
                    }
                    result = match self.interpret(&children[i]) {
                        Ok(v) => v,
                        Err(e) => {
                            proof {
                                assert(ast_view(*node)->children[i as int] == ast_view(children@[i as int]));
                                assert(eval_from(ast_view(*node), i as int, before, result).0 is None);
                            }
                            return Err(e);
                        },
                    };
                    i = i + 1;
                }
                Ok(result)
            },
            ASTNode::NoOp => Ok(0),
        }
    }

    /// The variables assigned so far.
    pub fn get_variables(&self) -> (r: &Variables)
        ensures
            r == &self.variables,
    {
        &self.variables
    }
}

impl Default for Interpreter {
    fn default() -> (r: Self)
        ensures
            r.wf(),
            r.variables.map() == Map::<Seq<char>, i32>::empty(),
    {
        Self::new()
    }
}

} // verus!
