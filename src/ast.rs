use vstd::prelude::*;

verus! {

/// Binary operators: arithmetic and comparison.
#[derive(Debug, Clone, Copy, PartialEq, Eq, Structural)]
pub enum BinaryOp {
    Add,
    Sub,
    Mul,
    Div,
    Mod,
    Eq,
    Ne,
    Lt,
    Gt,
    Le,
    Ge,
}

/// Prefix operators: logical not and arithmetic negation.
#[derive(Debug, Clone, Copy, PartialEq, Eq, Structural)]
pub enum UnaryOp {
    Not,
    Neg,
}

#[derive(Debug, PartialEq)]
pub enum Expression {
    Identifier(String),
    Number(i32),
    Binary(Box<Expression>, BinaryOp, Box<Expression>),
    Unary(UnaryOp, Box<Expression>),
    Call(String, Vec<Expression>),
    Assignment(String, Box<Expression>),
}

#[derive(Debug, PartialEq)]
pub enum Statement {
    VariableDeclaration { name: String, init: Expression, is_const: bool },
    FunctionDeclaration { name: String, params: Vec<String>, body: Vec<Statement> },
    If { condition: Expression, then_branch: Box<Statement>, else_branch: Option<Box<Statement>> },
    While { condition: Expression, body: Box<Statement> },
    Return(Option<Expression>),
    Block(Vec<Statement>),
    Expression(Expression),
}

/// A whole source file: its top-level statements in order.
#[derive(Debug, PartialEq)]
pub struct Program {
    pub body: Vec<Statement>,
}

/// An expression as a value: names as character sequences.
pub enum ExprV {
    Identifier(Seq<char>),
    Number(i32),
    Binary(Box<ExprV>, BinaryOp, Box<ExprV>),
    Unary(UnaryOp, Box<ExprV>),
    Call(Seq<char>, Seq<ExprV>),
    Assignment(Seq<char>, Box<ExprV>),
}

/// A statement as a value: names as character sequences.
pub enum StmtV {
    VariableDeclaration(Seq<char>, ExprV, bool),
    FunctionDeclaration(Seq<char>, Seq<Seq<char>>, Seq<StmtV>),
    If(ExprV, Box<StmtV>, Option<Box<StmtV>>),
    While(ExprV, Box<StmtV>),
    Return(Option<ExprV>),
    Block(Seq<StmtV>),
    Expression(ExprV),
}

pub open spec fn strings_view(v: Seq<String>) -> Seq<Seq<char>> {
    v.map_values(|s: String| s@)
}

pub open spec fn expr_view(e: Expression) -> ExprV
    decreases e,
{
    match e {
        Expression::Identifier(n) => ExprV::Identifier(n@),
        Expression::Number(n) => ExprV::Number(n),
        Expression::Binary(l, op, r) => ExprV::Binary(Box::new(expr_view(*l)), op, Box::new(expr_view(*r))),
        Expression::Unary(op, x) => ExprV::Unary(op, Box::new(expr_view(*x))),
        Expression::Call(n, args) => ExprV::Call(n@, exprs_view(args@, args@.len() as int)),
        Expression::Assignment(n, v) => ExprV::Assignment(n@, Box::new(expr_view(*v))),
    }
}

/// The views of the first `n` expressions.
pub open spec fn exprs_view(s: Seq<Expression>, n: int) -> Seq<ExprV>
    decreases s, n,
{
    if n <= 0 || s.len() < n {
        seq![]
    } else {
        exprs_view(s, n - 1).push(expr_view(s[n - 1]))
    }
}

pub open spec fn stmt_view(s: Statement) -> StmtV
    decreases s,
{
    match s {
        Statement::VariableDeclaration { name, init, is_const } => StmtV::VariableDeclaration(
            name@,
            expr_view(init),
            is_const,
        ),
        Statement::FunctionDeclaration { name, params, body } => StmtV::FunctionDeclaration(
            name@,
            strings_view(params@),
            stmts_view(body@, body@.len() as int),
        ),
        Statement::If { condition, then_branch, else_branch } => StmtV::If(
            expr_view(condition),
            Box::new(stmt_view(*then_branch)),
            match else_branch {
                Some(e) => Some(Box::new(stmt_view(*e))),
                None => None,
            },
        ),
        Statement::While { condition, body } => StmtV::While(expr_view(condition), Box::new(stmt_view(*body))),
        Statement::Return(v) => StmtV::Return(
            match v {
                Some(e) => Some(expr_view(e)),
                None => None,
            },
        ),
        Statement::Block(ss) => StmtV::Block(stmts_view(ss@, ss@.len() as int)),
        Statement::Expression(e) => StmtV::Expression(expr_view(e)),
    }
}

/// The views of the first `n` statements.
pub open spec fn stmts_view(s: Seq<Statement>, n: int) -> Seq<StmtV>
    decreases s, n,
{
    if n <= 0 || s.len() < n {
        seq![]
    } else {
        stmts_view(s, n - 1).push(stmt_view(s[n - 1]))
    }
}

/// The views of a list depend on its first `n` elements only.
pub proof fn lemma_exprs_view_prefix(s1: Seq<Expression>, s2: Seq<Expression>, n: int)
    requires
        0 <= n <= s1.len(),
        n <= s2.len(),
        forall|k: int| 0 <= k < n ==> s1[k] == s2[k],
    ensures
        exprs_view(s1, n) == exprs_view(s2, n),
    decreases n,
{
    if n > 0 {
        lemma_exprs_view_prefix(s1, s2, n - 1);
    }
}

pub proof fn lemma_stmts_view_prefix(s1: Seq<Statement>, s2: Seq<Statement>, n: int)
    requires
        0 <= n <= s1.len(),
        n <= s2.len(),
        forall|k: int| 0 <= k < n ==> s1[k] == s2[k],
    ensures
        stmts_view(s1, n) == stmts_view(s2, n),
    decreases n,
{
    if n > 0 {
        lemma_stmts_view_prefix(s1, s2, n - 1);
    }
}

proof fn lemma_exprs_view_pointwise(a: Seq<Expression>, b: Seq<Expression>, n: int)
    requires
        0 <= n <= a.len(),
        n <= b.len(),
        forall|k: int| 0 <= k < n ==> expr_view(#[trigger] a[k]) == expr_view(b[k]),
    ensures
        exprs_view(a, n) == exprs_view(b, n),
    decreases n,
{
    if n > 0 {
        lemma_exprs_view_pointwise(a, b, n - 1);
    }
}

proof fn lemma_stmts_view_pointwise(a: Seq<Statement>, b: Seq<Statement>, n: int)
    requires
        0 <= n <= a.len(),
        n <= b.len(),
        forall|k: int| 0 <= k < n ==> stmt_view(#[trigger] a[k]) == stmt_view(b[k]),
    ensures
        stmts_view(a, n) == stmts_view(b, n),
    decreases n,
{
    if n > 0 {
        lemma_stmts_view_pointwise(a, b, n - 1);
    }
}

fn clone_exprs(v: &Vec<Expression>) -> (r: Vec<Expression>)
    ensures
        exprs_view(r@, r@.len() as int) == exprs_view(v@, v@.len() as int),
    decreases v@, 0nat,
{
    let mut r: Vec<Expression> = Vec::new();
    let mut i: usize = 0;
    while i < v.len()
        invariant
            i <= v@.len(),
            r@.len() == i,
            forall|k: int| 0 <= k < i ==> expr_view(#[trigger] r@[k]) == expr_view(v@[k]),
        decreases v@.len() - i,
    {
        let e = v[i].clone();
        r.push(e);
        i = i + 1;
    }
    proof {
        lemma_exprs_view_pointwise(r@, v@, i as int);
    }
    r
}

impl Clone for Expression {
    fn clone(&self) -> (r: Expression)
        ensures
            expr_view(r) == expr_view(*self),
        decreases self,
    {
        match self {
            Expression::Identifier(n) => Expression::Identifier(n.clone()),
            Expression::Number(n) => Expression::Number(*n),
            Expression::Binary(l, op, r) => Expression::Binary(Box::new((**l).clone()), *op, Box::new((**r).clone())),
            Expression::Unary(op, x) => Expression::Unary(*op, Box::new((**x).clone())),
            Expression::Call(n, args) => Expression::Call(n.clone(), clone_exprs(args)),
            Expression::Assignment(n, v) => Expression::Assignment(n.clone(), Box::new((**v).clone())),
        }
    }
}

fn clone_stmts(v: &Vec<Statement>) -> (r: Vec<Statement>)
    ensures
        stmts_view(r@, r@.len() as int) == stmts_view(v@, v@.len() as int),
    decreases v@, 0nat,
{
    let mut r: Vec<Statement> = Vec::new();
    let mut i: usize = 0;
    while i < v.len()
        invariant
            i <= v@.len(),
            r@.len() == i,
            forall|k: int| 0 <= k < i ==> stmt_view(#[trigger] r@[k]) == stmt_view(v@[k]),
        decreases v@.len() - i,
    {
        let e = v[i].clone();
        r.push(e);
        i = i + 1;
    }
    proof {
        lemma_stmts_view_pointwise(r@, v@, i as int);
    }
    r
}

fn clone_strings(v: &Vec<String>) -> (r: Vec<String>)
    ensures
        strings_view(r@) == strings_view(v@),
{
    let mut r: Vec<String> = Vec::new();
    let mut i: usize = 0;
    while i < v.len()
        invariant
            i <= v@.len(),
            r@.len() == i,
            forall|k: int| 0 <= k < i ==> #[trigger] r@[k] == v@[k],
        decreases v@.len() - i,
    {
        r.push(v[i].clone());
        i = i + 1;
    }
    assert(strings_view(r@) =~= strings_view(v@));
    r
}

impl Clone for Statement {
    fn clone(&self) -> (r: Statement)
        ensures
            stmt_view(r) == stmt_view(*self),
        decreases self,
    {
        match self {
            Statement::VariableDeclaration { name, init, is_const } => Statement::VariableDeclaration {
                name: name.clone(),
                init: init.clone(),
                is_const: *is_const,
            },
            Statement::FunctionDeclaration { name, params, body } => Statement::FunctionDeclaration {
                name: name.clone(),
                params: clone_strings(params),
                body: clone_stmts(body),
            },
            Statement::If { condition, then_branch, else_branch } => Statement::If {
                condition: condition.clone(),
                then_branch: Box::new((**then_branch).clone()),
                else_branch: match else_branch {
                    Some(e) => Some(Box::new((**e).clone())),
                    None => None,
                },
            },
            Statement::While { condition, body } => Statement::While {
                condition: condition.clone(),
                body: Box::new((**body).clone()),
            },
            Statement::Return(v) => Statement::Return(
                match v {
                    Some(e) => Some(e.clone()),
                    None => None,
                },
            ),
            Statement::Block(ss) => Statement::Block(clone_stmts(ss)),
            Statement::Expression(e) => Statement::Expression(e.clone()),
        }
    }
}

impl Clone for Program {
    fn clone(&self) -> (r: Program)
        ensures
            stmts_view(r.body@, r.body@.len() as int) == stmts_view(self.body@, self.body@.len() as int),
    {
        Program { body: clone_stmts(&self.body) }
    }
}

} // verus!
