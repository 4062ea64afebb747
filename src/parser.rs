use vstd::prelude::*;
use crate::ast::{
    expr_view, exprs_view, lemma_exprs_view_prefix, lemma_stmts_view_prefix, stmt_view, stmts_view, strings_view,
    BinaryOp, ExprV, Expression, Program, Statement, StmtV, UnaryOp,
};
use crate::grammar::{
    p_args, p_assignment, p_block, p_consume, p_expr_stmt, p_expression, p_function, p_ident, p_if,
    p_level, p_level_rest, p_measure, p_params, p_primary, p_program, p_read, p_return, p_statement,
    p_unary, p_var, p_while, shrinks, PErr, PState,
};
use crate::error::{CompileError, Expected};
use crate::lexer::{lemma_next_lexeme_progress, lexeme_of, Lexeme, Lexer};
use crate::token::{SpannedToken, Token};

verus! {

/// Recursive-descent parser with one token of lookahead.
pub struct Parser {
    lexer: Lexer,
    current_token: SpannedToken,
}

/// The error `e` is the one the grammar describes as `pe`.
pub open spec fn err_matches(e: CompileError, pe: PErr) -> bool {
    match pe {
        PErr::Lex(c) => e == c,
        PErr::Syntax(x, lx, sp) => e matches CompileError::UnexpectedToken { expected, found, span }
            && expected == x && lexeme_of(found) == lx && span == sp,
        PErr::Target(sp) => e == CompileError::InvalidAssignmentTarget { span: sp },
        PErr::Stalled => false,
    }
}

/// `r` is the outcome that the grammar gives as `g`, and `after` the state it ends in.
pub open spec fn expr_outcome(r: Result<Expression, CompileError>, after: PState, g: Result<(ExprV, PState), PErr>) -> bool {
    match g {
        Ok((v, n)) => r matches Ok(e) && expr_view(e) == v && after == n,
        Err(pe) => r matches Err(e) && err_matches(e, pe),
    }
}

/// Like `expr_outcome`, for statements.
pub open spec fn stmt_outcome(r: Result<Statement, CompileError>, after: PState, g: Result<(StmtV, PState), PErr>) -> bool {
    match g {
        Ok((v, n)) => r matches Ok(st) && stmt_view(st) == v && after == n,
        Err(pe) => r matches Err(e) && err_matches(e, pe),
    }
}

/// `b` is `a` after consuming at least one token.
pub open spec fn progressed(a: Parser, b: Parser) -> bool {
    &&& b.wf()
    &&& b.chars() == a.chars()
    &&& b.measure() < a.measure()
}

impl Parser {
    /// The token under the cursor.
    pub closed spec fn current(&self) -> SpannedToken {
        self.current_token
    }

    /// The source text.
    pub closed spec fn chars(&self) -> Seq<char> {
        self.lexer.chars()
    }

    pub closed spec fn wf(&self) -> bool {
        &&& self.lexer.wf()
        &&& 0 <= self.lexer.position() <= self.lexer.chars().len()
    }

    /// The parser's state as the grammar sees it.
    pub closed spec fn ps(&self) -> PState {
        PState { pos: self.lexer.position(), cur: lexeme_of(self.current_token.token), span: self.current_token.span }
    }

    /// What is left to read: it shrinks with every token consumed.
    pub open spec fn measure(&self) -> int {
        p_measure(self.chars(), self.ps())
    }

    /// The read position lies within the text.
    pub proof fn lemma_in_text(&self)
        requires
            self.wf(),
        ensures
            0 <= self.ps().pos <= self.chars().len(),
    {
    }

    /// Reads the first token.
    pub fn new(mut lexer: Lexer) -> (r: Result<Parser, CompileError>)
        requires
            lexer.wf(),
        ensures
            match p_read(lexer.chars(), lexer.position()) {
                Ok(n) => r matches Ok(p) && p.wf() && p.chars() == lexer.chars() && p.ps() == n,
                Err(pe) => r matches Err(e) && err_matches(e, pe),
            },
    {
        let current_token = lexer.next_token()?;
        proof {
            lexer.lemma_position();
        }
        Ok(Parser { lexer, current_token })
    }

    fn advance(&mut self) -> (r: Result<(), CompileError>)
        requires
            old(self).wf(),
        ensures
            match p_read(old(self).chars(), old(self).ps().pos) {
                Ok(n) => r is Ok && final(self).ps() == n,
                Err(pe) => r matches Err(e) && err_matches(e, pe),
            },
            r is Ok ==> final(self).wf() && final(self).chars() == old(self).chars()
                && final(self).measure() <= old(self).measure()
                && (!(old(self).current().token is EOF) ==> final(self).measure() < old(self).measure()),
    {
        proof {
            self.lexer.lemma_position();
            lemma_next_lexeme_progress(self.lexer.chars(), self.lexer.position());
        }
        self.current_token = self.lexer.next_token()?;
        proof {
            self.lexer.lemma_position();
            if !matches!(self.current_token.token, Token::EOF) {
                assert(lexeme_of(self.current_token.token) != Lexeme::Tok(Token::EOF));
            }
        }
        Ok(())
    }

    fn unexpected(&self, expected: Expected) -> (r: CompileError)
        ensures
            err_matches(r, PErr::Syntax(expected, self.ps().cur, self.ps().span)),
    {
        CompileError::UnexpectedToken {
            expected,
            found: self.current_token.token.duplicate(),
            span: self.current_token.span,
        }
    }

    /// Takes an identifier and returns its text.
    fn consume_identifier(&mut self) -> (r: Result<String, CompileError>)
        requires
            old(self).wf(),
        ensures
            match p_ident(old(self).chars(), old(self).ps()) {
                Ok((w, n)) => r matches Ok(name) && name@ == w && final(self).ps() == n,
                Err(pe) => r matches Err(e) && err_matches(e, pe),
            },
            r is Ok ==> progressed(*old(self), *final(self)),
    {
        match &self.current_token.token {
            Token::Identifier(s) => {
                let name = s.clone();
                self.advance()?;
                Ok(name)
            },
            _ => Err(self.unexpected(Expected::Identifier)),
        }
    }

    /// Takes a token of the same kind as `expected`, payload ignored.
    fn consume(&mut self, expected: Token) -> (r: Result<(), CompileError>)
        requires
            old(self).wf(),
            !(expected is EOF),
            !(expected is Identifier),
        ensures
            match p_consume(old(self).chars(), old(self).ps(), expected) {
                Ok(n) => r is Ok && final(self).ps() == n,
                Err(pe) => r matches Err(e) && err_matches(e, pe),
            },
            r is Ok ==> progressed(*old(self), *final(self)),
    {
        if self.current_token.token.kind_of() == expected.kind_of() {
            self.advance()
        } else {
            Err(self.unexpected(Expected::Token(expected)))
        }
    }
    /// An expression: the lowest precedence level.
    fn parse_expression(&mut self) -> (r: Result<Expression, CompileError>)
        requires
            old(self).wf(),
        ensures
            expr_outcome(r, final(self).ps(), p_expression(old(self).chars(), old(self).ps())),
            r is Ok ==> progressed(*old(self), *final(self)),
        decreases self.measure(), 8nat,
    {
        self.parse_assignment()
    }

    /// `NAME = EXPR`, right-associative; any other left-hand side is refused.
    fn parse_assignment(&mut self) -> (r: Result<Expression, CompileError>)
        requires
            old(self).wf(),
        ensures
            expr_outcome(r, final(self).ps(), p_assignment(old(self).chars(), old(self).ps())),
            r is Ok ==> progressed(*old(self), *final(self)),
        decreases self.measure(), 7nat,
    {
        let expr = self.parse_equality()?;
        if matches!(self.current_token.token, Token::Eq) {
            self.advance()?;
            let value = self.parse_assignment()?;
            match expr {
                Expression::Identifier(name) => {
                    return Ok(Expression::Assignment(name, Box::new(value)));
                },
                _ => {
                    return Err(CompileError::InvalidAssignmentTarget { span: self.current_token.span });
                },
            }
        }
        Ok(expr)
    }

    /// `==` and `!=`, left-associative.
    fn parse_equality(&mut self) -> (r: Result<Expression, CompileError>)
        requires
            old(self).wf(),
        ensures
            expr_outcome(r, final(self).ps(), p_level(old(self).chars(), old(self).ps(), 6)),
            r is Ok ==> progressed(*old(self), *final(self)),
        decreases self.measure(), 6nat,
    {
        let mut expr = self.parse_comparison()?;
        loop
            invariant
                p_level(self.chars(), old(self).ps(), 6) == p_level_rest(self.chars(), self.ps(), 6, expr_view(expr)),
                self.wf(),
                self.chars() == old(self).chars(),
                self.measure() < old(self).measure(),
            ensures
                p_level(self.chars(), old(self).ps(), 6) == Ok::<(ExprV, PState), PErr>((expr_view(expr), self.ps())),
                self.wf(),
                self.chars() == old(self).chars(),
                self.measure() < old(self).measure(),
            decreases self.measure(),
        {
            let op = match self.current_token.token {
                Token::EqEq => BinaryOp::Eq,
                Token::BangEq => BinaryOp::Ne,
                _ => break,
            };
            self.advance()?;
            let right = self.parse_comparison()?;
            expr = Expression::Binary(Box::new(expr), op, Box::new(right));
        }
        Ok(expr)
    }

    /// `<`, `<=`, `>` and `>=`, left-associative.
    fn parse_comparison(&mut self) -> (r: Result<Expression, CompileError>)
        requires
            old(self).wf(),
        ensures
            expr_outcome(r, final(self).ps(), p_level(old(self).chars(), old(self).ps(), 5)),
            r is Ok ==> progressed(*old(self), *final(self)),
        decreases self.measure(), 5nat,
    {
        let mut expr = self.parse_term()?;
        loop
            invariant
                p_level(self.chars(), old(self).ps(), 5) == p_level_rest(self.chars(), self.ps(), 5, expr_view(expr)),
                self.wf(),
                self.chars() == old(self).chars(),
                self.measure() < old(self).measure(),
            ensures
                p_level(self.chars(), old(self).ps(), 5) == Ok::<(ExprV, PState), PErr>((expr_view(expr), self.ps())),
                self.wf(),
                self.chars() == old(self).chars(),
                self.measure() < old(self).measure(),
            decreases self.measure(),
        {
            let op = match self.current_token.token {
                Token::Lt => BinaryOp::Lt,
                Token::LtEq => BinaryOp::Le,
                Token::Gt => BinaryOp::Gt,
                Token::GtEq => BinaryOp::Ge,
                _ => break,
            };
            self.advance()?;
            let right = self.parse_term()?;
            expr = Expression::Binary(Box::new(expr), op, Box::new(right));
        }
        Ok(expr)
    }

    /// `+` and `-`, left-associative.
    fn parse_term(&mut self) -> (r: Result<Expression, CompileError>)
        requires
            old(self).wf(),
        ensures
            expr_outcome(r, final(self).ps(), p_level(old(self).chars(), old(self).ps(), 4)),
            r is Ok ==> progressed(*old(self), *final(self)),
        decreases self.measure(), 4nat,
    {
        let mut expr = self.parse_factor()?;
        loop
            invariant
                p_level(self.chars(), old(self).ps(), 4) == p_level_rest(self.chars(), self.ps(), 4, expr_view(expr)),
                self.wf(),
                self.chars() == old(self).chars(),
                self.measure() < old(self).measure(),
            ensures
                p_level(self.chars(), old(self).ps(), 4) == Ok::<(ExprV, PState), PErr>((expr_view(expr), self.ps())),
                self.wf(),
                self.chars() == old(self).chars(),
                self.measure() < old(self).measure(),
            decreases self.measure(),
        {
            let op = match self.current_token.token {
                Token::Plus => BinaryOp::Add,
                Token::Minus => BinaryOp::Sub,
                _ => break,
            };
            self.advance()?;
            let right = self.parse_factor()?;
            expr = Expression::Binary(Box::new(expr), op, Box::new(right));
        }
        Ok(expr)
    }

    /// `*`, `/` and `%`, left-associative.
    fn parse_factor(&mut self) -> (r: Result<Expression, CompileError>)
        requires
            old(self).wf(),
        ensures
            expr_outcome(r, final(self).ps(), p_level(old(self).chars(), old(self).ps(), 3)),
            r is Ok ==> progressed(*old(self), *final(self)),
        decreases self.measure(), 3nat,
    {
        let mut expr = self.parse_unary()?;
        loop
            invariant
                p_level(self.chars(), old(self).ps(), 3) == p_level_rest(self.chars(), self.ps(), 3, expr_view(expr)),
                self.wf(),
                self.chars() == old(self).chars(),
                self.measure() < old(self).measure(),
            ensures
                p_level(self.chars(), old(self).ps(), 3) == Ok::<(ExprV, PState), PErr>((expr_view(expr), self.ps())),
                self.wf(),
                self.chars() == old(self).chars(),
                self.measure() < old(self).measure(),
            decreases self.measure(),
        {
            let op = match self.current_token.token {
                Token::Star => BinaryOp::Mul,
                Token::Slash => BinaryOp::Div,
                Token::Percent => BinaryOp::Mod,
                _ => break,
            };
            self.advance()?;
            let right = self.parse_unary()?;
            expr = Expression::Binary(Box::new(expr), op, Box::new(right));
        }
        Ok(expr)
    }

    /// Prefix `!` and `-`, right-associative.
    fn parse_unary(&mut self) -> (r: Result<Expression, CompileError>)
        requires
            old(self).wf(),
        ensures
            expr_outcome(r, final(self).ps(), p_unary(old(self).chars(), old(self).ps())),
            r is Ok ==> progressed(*old(self), *final(self)),
        decreases self.measure(), 2nat,
    {
        let op = match self.current_token.token {
            Token::Bang => UnaryOp::Not,
            Token::Minus => UnaryOp::Neg,
            _ => {
                return self.parse_primary();
            },
        };
        self.advance()?;
        let right = self.parse_unary()?;
        Ok(Expression::Unary(op, Box::new(right)))
    }

    /// Comma-separated call arguments, up to but not including the `)`.
    fn parse_arguments(&mut self) -> (r: Result<Vec<Expression>, CompileError>)
        requires
            old(self).wf(),
        ensures
            match p_args(old(self).chars(), old(self).ps(), seq![]) {
                Ok((v, n)) => r matches Ok(a) && exprs_view(a@, a@.len() as int) == v && final(self).ps() == n,
                Err(pe) => r matches Err(e) && err_matches(e, pe),
            },
            r is Ok ==> progressed(*old(self), *final(self)),
        decreases self.measure(), 9nat,
    {
        let mut args: Vec<Expression> = Vec::new();
        loop
            invariant_except_break
                p_args(self.chars(), old(self).ps(), seq![]) == p_args(
                    self.chars(),
                    self.ps(),
                    exprs_view(args@, args@.len() as int),
                ),
            invariant
                self.wf(),
                self.chars() == old(self).chars(),
                self.measure() <= old(self).measure(),
                args@.len() > 0 ==> self.measure() < old(self).measure(),
            ensures
                p_args(self.chars(), old(self).ps(), seq![]) == Ok::<(Seq<ExprV>, PState), PErr>(
                    (exprs_view(args@, args@.len() as int), self.ps()),
                ),
                self.wf(),
                self.chars() == old(self).chars(),
                self.measure() < old(self).measure(),
            decreases self.measure(),
        {
            let ghost cur = self.ps();
            let ghost acc = exprs_view(args@, args@.len() as int);
            let arg = self.parse_expression()?;
            let ghost ps1 = self.ps();
            let ghost av = expr_view(arg);
            let ghost before = args@;
            args.push(arg);
            proof {
                lemma_exprs_view_prefix(args@, before, before.len() as int);
                assert(args@[before.len() as int] == arg);
            }
            assert(exprs_view(args@, args@.len() as int) == acc.push(av));
            assert(shrinks(self.chars(), cur, ps1));
            if matches!(self.current_token.token, Token::Comma) {
                self.advance()?;
                assert(p_args(self.chars(), cur, acc) == p_args(self.chars(), self.ps(), acc.push(av)));
            } else {
                assert(p_args(self.chars(), cur, acc) == Ok::<(Seq<ExprV>, PState), PErr>((acc.push(av), ps1)));
                break;
            }
        }
        Ok(args)
    }

    /// A literal, a name, a call `NAME(ARGS)`, or a parenthesized expression.
    fn parse_primary(&mut self) -> (r: Result<Expression, CompileError>)
        requires
            old(self).wf(),
        ensures
            expr_outcome(r, final(self).ps(), p_primary(old(self).chars(), old(self).ps())),
            r is Ok ==> progressed(*old(self), *final(self)),
        decreases self.measure(), 1nat,
    {
        match &self.current_token.token {
            Token::Number(n) => {
                let val = *n;
                self.advance()?;
                Ok(Expression::Number(val))
            },
            Token::Identifier(s) => {
                let name = s.clone();
                self.advance()?;
                if !matches!(self.current_token.token, Token::LParen) {
                    return Ok(Expression::Identifier(name));
                }
                self.advance()?;
                let ghost ps2 = self.ps();
                let args = if matches!(self.current_token.token, Token::RParen) {
                    Vec::new()
                } else {
                    self.parse_arguments()?
                };
                let ghost ps3 = self.ps();
                assert(exprs_view(args@, args@.len() as int) == if ps2.cur == Lexeme::Tok(Token::RParen) {
                    Seq::<ExprV>::empty()
                } else {
                    p_args(self.chars(), ps2, seq![])->Ok_0.0
                });
                self.consume(Token::RParen)?;
                let r = Expression::Call(name, args);
                assert(expr_view(r) == ExprV::Call(name@, exprs_view(args@, args@.len() as int)));
                Ok(r)
            },
            Token::LParen => {
                self.advance()?;
                let expr = self.parse_expression()?;
                self.consume(Token::RParen)?;
                Ok(expr)
            },
            _ => Err(self.unexpected(Expected::Expression)),
        }
    }
    /// The whole token stream as a program: statements up to the end of input.
    pub fn parse_program(&mut self) -> (r: Result<Program, CompileError>)
        requires
            old(self).wf(),
        ensures
            match p_program(old(self).chars(), old(self).ps(), seq![]) {
                Ok(v) => r matches Ok(p) && stmts_view(p.body@, p.body@.len() as int) == v,
                Err(pe) => r matches Err(e) && err_matches(e, pe),
            },
            r is Ok ==> final(self).wf() && final(self).chars() == old(self).chars()
                && final(self).current().token is EOF,
    {
        let mut body: Vec<Statement> = Vec::new();
        while !matches!(self.current_token.token, Token::EOF)
            invariant
                p_program(self.chars(), old(self).ps(), seq![]) == p_program(
                    self.chars(),
                    self.ps(),
                    stmts_view(body@, body@.len() as int),
                ),
                self.wf(),
                self.chars() == old(self).chars(),
            decreases self.measure(),
        {
            let stmt = self.parse_statement()?;
            let ghost before = body@;
            body.push(stmt);
            proof {
                lemma_stmts_view_prefix(body@, before, before.len() as int);
                assert(body@[before.len() as int] == stmt);
            }
        }
        Ok(Program { body })
    }

    /// One statement, chosen by its first token.
    fn parse_statement(&mut self) -> (r: Result<Statement, CompileError>)
        requires
            old(self).wf(),
        ensures
            stmt_outcome(r, final(self).ps(), p_statement(old(self).chars(), old(self).ps())),
            r is Ok ==> progressed(*old(self), *final(self)),
        decreases self.measure(), 2nat,
    {
        match self.current_token.token {
            Token::Let => self.parse_variable_declaration(false),
            Token::Const => self.parse_variable_declaration(true),
            Token::Function => self.parse_function_declaration(),
            Token::If => self.parse_if_statement(),
            Token::While => self.parse_while_statement(),
            Token::Return => self.parse_return_statement(),
            Token::LBrace => {
                self.advance()?;
                let block = self.parse_block()?;
                Ok(Statement::Block(block))
            },
            _ => self.parse_expression_statement(),
        }
    }

    /// `let NAME = EXPR;` or `const NAME = EXPR;`, its keyword under the cursor.
    fn parse_variable_declaration(&mut self, is_const: bool) -> (r: Result<Statement, CompileError>)
        requires
            old(self).wf(),
            !(old(self).current().token is EOF),
        ensures
            stmt_outcome(r, final(self).ps(), p_var(old(self).chars(), old(self).ps(), is_const)),
            r is Ok ==> progressed(*old(self), *final(self)),
        decreases self.measure(), 1nat,
    {
        self.advance()?;
        let name = self.consume_identifier()?;
        self.consume(Token::Eq)?;
        let init = self.parse_expression()?;
        self.consume(Token::Semi)?;
        Ok(Statement::VariableDeclaration { name, init, is_const })
    }

    /// Comma-separated parameter names, up to but not including the `)`.
    fn parse_parameters(&mut self) -> (r: Result<Vec<String>, CompileError>)
        requires
            old(self).wf(),
        ensures
            match p_params(old(self).chars(), old(self).ps(), seq![]) {
                Ok((v, n)) => r matches Ok(a) && strings_view(a@) == v && final(self).ps() == n,
                Err(pe) => r matches Err(e) && err_matches(e, pe),
            },
            r is Ok ==> progressed(*old(self), *final(self)),
    {
        let mut params: Vec<String> = Vec::new();
        assert(strings_view(params@) =~= Seq::<Seq<char>>::empty());
        loop
            invariant_except_break
                p_params(self.chars(), old(self).ps(), seq![]) == p_params(self.chars(), self.ps(), strings_view(params@)),
            invariant
                self.wf(),
                self.chars() == old(self).chars(),
                self.measure() <= old(self).measure(),
                params@.len() > 0 ==> self.measure() < old(self).measure(),
            ensures
                p_params(self.chars(), old(self).ps(), seq![]) == Ok::<(Seq<Seq<char>>, PState), PErr>(
                    (strings_view(params@), self.ps()),
                ),
                self.wf(),
                self.chars() == old(self).chars(),
                self.measure() < old(self).measure(),
            decreases self.measure(),
        {
            let ghost cur = self.ps();
            let ghost acc = strings_view(params@);
            let param = self.consume_identifier()?;
            let ghost ps1 = self.ps();
            let ghost w = param@;
            params.push(param);
            assert(strings_view(params@) =~= acc.push(w));
            if matches!(self.current_token.token, Token::Comma) {
                self.advance()?;
                assert(p_params(self.chars(), cur, acc) == p_params(self.chars(), self.ps(), acc.push(w)));
            } else {
                assert(p_params(self.chars(), cur, acc) == Ok::<(Seq<Seq<char>>, PState), PErr>((acc.push(w), ps1)));
                break;
            }
        }
        Ok(params)
    }

    /// `function NAME(PARAMS) { BODY }`, its keyword under the cursor.
    #[verifier::rlimit(40)]
    fn parse_function_declaration(&mut self) -> (r: Result<Statement, CompileError>)
        requires
            old(self).wf(),
            !(old(self).current().token is EOF),
        ensures
            stmt_outcome(r, final(self).ps(), p_function(old(self).chars(), old(self).ps())),
            r is Ok ==> progressed(*old(self), *final(self)),
        decreases self.measure(), 1nat,
    {
        let ghost s = self.chars();
        let ghost ps0 = self.ps();
        self.advance()?;
        let name = self.consume_identifier()?;
        self.consume(Token::LParen)?;
        let ghost ps3 = self.ps();
        let params = if matches!(self.current_token.token, Token::RParen) {
            let v: Vec<String> = Vec::new();
            assert(strings_view(v@) =~= Seq::<Seq<char>>::empty());
            v
        } else {
            self.parse_parameters()?
        };
        let ghost ns = strings_view(params@);
        assert(ns == (if ps3.cur == Lexeme::Tok(Token::RParen) {
            Seq::<Seq<char>>::empty()
        } else {
            p_params(s, ps3, seq![])->Ok_0.0
        }));
        self.consume(Token::RParen)?;
        self.consume(Token::LBrace)?;
        let ghost ps6 = self.ps();
        assert(shrinks(s, ps0, ps6));
        let body = self.parse_block()?;
        let r = Statement::FunctionDeclaration { name, params, body };
        assert(stmt_view(r) == StmtV::FunctionDeclaration(name@, ns, stmts_view(body@, body@.len() as int)));
        Ok(r)
    }

    /// Statements up to and including the closing `}`; the `{` is already consumed.
    fn parse_block(&mut self) -> (r: Result<Vec<Statement>, CompileError>)
        requires
            old(self).wf(),
        ensures
            match p_block(old(self).chars(), old(self).ps(), seq![]) {
                Ok((v, n)) => r matches Ok(b) && stmts_view(b@, b@.len() as int) == v && final(self).ps() == n,
                Err(pe) => r matches Err(e) && err_matches(e, pe),
            },
            r is Ok ==> progressed(*old(self), *final(self)),
        decreases self.measure(), 3nat,
    {
        let mut statements: Vec<Statement> = Vec::new();
        while !matches!(self.current_token.token, Token::RBrace) && !matches!(self.current_token.token, Token::EOF)
            invariant
                p_block(self.chars(), old(self).ps(), seq![]) == p_block(
                    self.chars(),
                    self.ps(),
                    stmts_view(statements@, statements@.len() as int),
                ),
                self.wf(),
                self.chars() == old(self).chars(),
                self.measure() <= old(self).measure(),
            decreases self.measure(),
        {
            let stmt = self.parse_statement()?;
            let ghost before = statements@;
            statements.push(stmt);
            proof {
                lemma_stmts_view_prefix(statements@, before, before.len() as int);
                assert(statements@[before.len() as int] == stmt);
            }
        }
        self.consume(Token::RBrace)?;
        Ok(statements)
    }

    /// `if (EXPR) STMT [else STMT]`; an `else` binds to the nearest `if`.
    fn parse_if_statement(&mut self) -> (r: Result<Statement, CompileError>)
        requires
            old(self).wf(),
            !(old(self).current().token is EOF),
        ensures
            stmt_outcome(r, final(self).ps(), p_if(old(self).chars(), old(self).ps())),
            r is Ok ==> progressed(*old(self), *final(self)),
        decreases self.measure(), 1nat,
    {
        self.advance()?;
        self.consume(Token::LParen)?;
        let condition = self.parse_expression()?;
        self.consume(Token::RParen)?;
        let then_branch = Box::new(self.parse_statement()?);
        let else_branch = if matches!(self.current_token.token, Token::Else) {
            self.advance()?;
            Some(Box::new(self.parse_statement()?))
        } else {
            None
        };
        Ok(Statement::If { condition, then_branch, else_branch })
    }

    /// `while (EXPR) STMT`.
    fn parse_while_statement(&mut self) -> (r: Result<Statement, CompileError>)
        requires
            old(self).wf(),
            !(old(self).current().token is EOF),
        ensures
            stmt_outcome(r, final(self).ps(), p_while(old(self).chars(), old(self).ps())),
            r is Ok ==> progressed(*old(self), *final(self)),
        decreases self.measure(), 1nat,
    {
        self.advance()?;
        self.consume(Token::LParen)?;
        let condition = self.parse_expression()?;
        self.consume(Token::RParen)?;
        let body = Box::new(self.parse_statement()?);
        Ok(Statement::While { condition, body })
    }

    /// `return;` or `return EXPR;`.
    fn parse_return_statement(&mut self) -> (r: Result<Statement, CompileError>)
        requires
            old(self).wf(),
            !(old(self).current().token is EOF),
        ensures
            stmt_outcome(r, final(self).ps(), p_return(old(self).chars(), old(self).ps())),
            r is Ok ==> progressed(*old(self), *final(self)),
        decreases self.measure(), 1nat,
    {
        self.advance()?;
        let value = if matches!(self.current_token.token, Token::Semi) {
            None
        } else {
            Some(self.parse_expression()?)
        };
        self.consume(Token::Semi)?;
        Ok(Statement::Return(value))
    }

    /// `EXPR;`.
    fn parse_expression_statement(&mut self) -> (r: Result<Statement, CompileError>)
        requires
            old(self).wf(),
        ensures
            stmt_outcome(r, final(self).ps(), p_expr_stmt(old(self).chars(), old(self).ps())),
            r is Ok ==> progressed(*old(self), *final(self)),
        decreases self.measure(), 1nat,
    {
        let expr = self.parse_expression()?;
        self.consume(Token::Semi)?;
        Ok(Statement::Expression(expr))
    }

}

} // verus!
