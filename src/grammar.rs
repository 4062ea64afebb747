use vstd::prelude::*;
use crate::ast::{BinaryOp, ExprV, StmtV, UnaryOp};
use crate::error::{CompileError, Expected};
use crate::lexer::{next_lexeme, span_at, Lexeme};
use crate::token::{Span, Token};

verus! {

/// The parser's position in the text: the lexer's read position, and the token
/// under the cursor with its span.
pub struct PState {
    pub pos: int,
    pub cur: Lexeme,
    pub span: Span,
}

/// Why parsing stops.
pub enum PErr {
    /// The lexer refused the text.
    Lex(CompileError),
    /// A token other than the one the grammar requires.
    Syntax(Expected, Lexeme, Span),
    /// An assignment whose left-hand side is not a name; the span is that of
    /// the token after its right-hand side.
    Target(Span),
    /// A step that read no input. Never produced: every step consumes a token
    /// (see `lemma_next_lexeme_progress`).
    Stalled,
}

pub open spec fn is_tok(ps: PState, t: Token) -> bool {
    ps.cur == Lexeme::Tok(t)
}

/// What is left to read: it shrinks with every token consumed.
pub open spec fn p_measure(s: Seq<char>, ps: PState) -> int {
    2 * (s.len() - ps.pos) + if is_tok(ps, Token::EOF) { 0int } else { 1int }
}

/// `b` is a state within the text with less left to read than `a`.
pub open spec fn shrinks(s: Seq<char>, a: PState, b: PState) -> bool {
    0 <= b.pos <= s.len() && p_measure(s, b) < p_measure(s, a)
}

/// The state after reading the next token from position `pos`.
pub open spec fn p_read(s: Seq<char>, pos: int) -> Result<PState, PErr> {
    match next_lexeme(s, pos) {
        Ok((lx, st, e)) => Ok(PState { pos: e, cur: lx, span: span_at(s, st) }),
        Err(err) => Err(PErr::Lex(err)),
    }
}

/// Moves past the current token.
pub open spec fn p_step(s: Seq<char>, ps: PState) -> Result<PState, PErr> {
    match p_read(s, ps.pos) {
        Ok(n) => if shrinks(s, ps, n) {
            Ok(n)
        } else {
            Err(PErr::Stalled)
        },
        Err(e) => Err(e),
    }
}

pub open spec fn unexpected(ps: PState, expected: Expected) -> PErr {
    PErr::Syntax(expected, ps.cur, ps.span)
}

/// Moves past a token of the same kind as `t`, or fails.
pub open spec fn p_consume(s: Seq<char>, ps: PState, t: Token) -> Result<PState, PErr> {
    match ps.cur {
        Lexeme::Tok(x) => if x.kind() == t.kind() {
            p_step(s, ps)
        } else {
            Err(unexpected(ps, Expected::Token(t)))
        },
        Lexeme::Word(_) => Err(unexpected(ps, Expected::Token(t))),
    }
}

/// Moves past an identifier, giving its text, or fails.
pub open spec fn p_ident(s: Seq<char>, ps: PState) -> Result<(Seq<char>, PState), PErr> {
    match ps.cur {
        Lexeme::Word(w) => match p_step(s, ps) {
            Ok(n) => Ok((w, n)),
            Err(e) => Err(e),
        },
        _ => Err(unexpected(ps, Expected::Identifier)),
    }
}

/// The operator of precedence level `k` under the cursor, if any: 6 equality,
/// 5 comparison, 4 additive, 3 multiplicative.
pub open spec fn level_op(k: int, cur: Lexeme) -> Option<BinaryOp> {
    match cur {
        Lexeme::Tok(t) => if k == 6 {
            match t {
                Token::EqEq => Some(BinaryOp::Eq),
                Token::BangEq => Some(BinaryOp::Ne),
                _ => None,
            }
        } else if k == 5 {
            match t {
                Token::Lt => Some(BinaryOp::Lt),
                Token::LtEq => Some(BinaryOp::Le),
                Token::Gt => Some(BinaryOp::Gt),
                Token::GtEq => Some(BinaryOp::Ge),
                _ => None,
            }
        } else if k == 4 {
            match t {
                Token::Plus => Some(BinaryOp::Add),
                Token::Minus => Some(BinaryOp::Sub),
                _ => None,
            }
        } else {
            match t {
                Token::Star => Some(BinaryOp::Mul),
                Token::Slash => Some(BinaryOp::Div),
                Token::Percent => Some(BinaryOp::Mod),
                _ => None,
            }
        },
        Lexeme::Word(_) => None,
    }
}

pub open spec fn p_expression(s: Seq<char>, ps: PState) -> Result<(ExprV, PState), PErr>
    decreases p_measure(s, ps), 8int,
{
    p_assignment(s, ps)
}

/// `NAME = EXPR`, right-associative.
pub open spec fn p_assignment(s: Seq<char>, ps: PState) -> Result<(ExprV, PState), PErr>
    decreases p_measure(s, ps), 7int,
{
    match p_level(s, ps, 6) {
        Err(e) => Err(e),
        Ok((e, ps1)) => if !shrinks(s, ps, ps1) {
            Err(PErr::Stalled)
        } else if is_tok(ps1, Token::Eq) {
            match p_step(s, ps1) {
                Err(err) => Err(err),
                Ok(ps2) => match p_assignment(s, ps2) {
                    Err(err) => Err(err),
                    Ok((v, ps3)) => match e {
                        ExprV::Identifier(n) => Ok((ExprV::Assignment(n, Box::new(v)), ps3)),
                        _ => Err(PErr::Target(ps3.span)),
                    },
                },
            }
        } else {
            Ok((e, ps1))
        },
    }
}

/// A left-associative chain of level-`k` operators over level `k - 1` operands.
pub open spec fn p_level(s: Seq<char>, ps: PState, k: int) -> Result<(ExprV, PState), PErr>
    decreases p_measure(s, ps), if k < 3 { 3 } else { k },
{
    let first = if k <= 3 {
        p_unary(s, ps)
    } else {
        p_level(s, ps, k - 1)
    };
    match first {
        Err(e) => Err(e),
        Ok((e, ps1)) => if !shrinks(s, ps, ps1) {
            Err(PErr::Stalled)
        } else {
            p_level_rest(s, ps1, k, e)
        },
    }
}

/// The rest of a level-`k` chain whose operands so far make `left`.
pub open spec fn p_level_rest(s: Seq<char>, ps: PState, k: int, left: ExprV) -> Result<(ExprV, PState), PErr>
    decreases p_measure(s, ps), if k < 3 { 3 } else { k },
{
    match level_op(k, ps.cur) {
        None => Ok((left, ps)),
        Some(op) => match p_step(s, ps) {
            Err(e) => Err(e),
            Ok(ps1) => {
                let right = if k <= 3 {
                    p_unary(s, ps1)
                } else {
                    p_level(s, ps1, k - 1)
                };
                match right {
                    Err(e) => Err(e),
                    Ok((r, ps2)) => if !shrinks(s, ps1, ps2) {
                        Err(PErr::Stalled)
                    } else {
                        p_level_rest(s, ps2, k, ExprV::Binary(Box::new(left), op, Box::new(r)))
                    },
                }
            },
        },
    }
}

/// Prefix `!` and `-`, right-associative.
pub open spec fn p_unary(s: Seq<char>, ps: PState) -> Result<(ExprV, PState), PErr>
    decreases p_measure(s, ps), 2int,
{
    let op = if is_tok(ps, Token::Bang) {
        Some(UnaryOp::Not)
    } else if is_tok(ps, Token::Minus) {
        Some(UnaryOp::Neg)
    } else {
        None
    };
    match op {
        None => p_primary(s, ps),
        Some(op) => match p_step(s, ps) {
            Err(e) => Err(e),
            Ok(ps1) => match p_unary(s, ps1) {
                Err(e) => Err(e),
                Ok((x, ps2)) => Ok((ExprV::Unary(op, Box::new(x)), ps2)),
            },
        },
    }
}

/// A literal, a name, a call, or a parenthesized expression.
pub open spec fn p_primary(s: Seq<char>, ps: PState) -> Result<(ExprV, PState), PErr>
    decreases p_measure(s, ps), 1int,
{
    match ps.cur {
        Lexeme::Tok(Token::Number(n)) => match p_step(s, ps) {
            Err(e) => Err(e),
            Ok(ps1) => Ok((ExprV::Number(n), ps1)),
        },
        Lexeme::Word(name) => match p_step(s, ps) {
            Err(e) => Err(e),
            Ok(ps1) => if !is_tok(ps1, Token::LParen) {
                Ok((ExprV::Identifier(name), ps1))
            } else {
                match p_step(s, ps1) {
                    Err(e) => Err(e),
                    Ok(ps2) => {
                        let args = if is_tok(ps2, Token::RParen) {
                            Ok((Seq::<ExprV>::empty(), ps2))
                        } else {
                            p_args(s, ps2, seq![])
                        };
                        match args {
                            Err(e) => Err(e),
                            Ok((a, ps3)) => match p_consume(s, ps3, Token::RParen) {
                                Err(e) => Err(e),
                                Ok(ps4) => Ok((ExprV::Call(name, a), ps4)),
                            },
                        }
                    },
                }
            },
        },
        Lexeme::Tok(Token::LParen) => match p_step(s, ps) {
            Err(e) => Err(e),
            Ok(ps1) => match p_expression(s, ps1) {
                Err(e) => Err(e),
                Ok((e, ps2)) => match p_consume(s, ps2, Token::RParen) {
                    Err(err) => Err(err),
                    Ok(ps3) => Ok((e, ps3)),
                },
            },
        },
        _ => Err(unexpected(ps, Expected::Expression)),
    }
}

/// Comma-separated call arguments, appended to `acc`.
pub open spec fn p_args(s: Seq<char>, ps: PState, acc: Seq<ExprV>) -> Result<(Seq<ExprV>, PState), PErr>
    decreases p_measure(s, ps), 9int,
{
    match p_expression(s, ps) {
        Err(e) => Err(e),
        Ok((a, ps1)) => if !shrinks(s, ps, ps1) {
            Err(PErr::Stalled)
        } else if is_tok(ps1, Token::Comma) {
            match p_step(s, ps1) {
                Err(e) => Err(e),
                Ok(ps2) => p_args(s, ps2, acc.push(a)),
            }
        } else {
            Ok((acc.push(a), ps1))
        },
    }
}

/// One statement, chosen by its first token.
pub open spec fn p_statement(s: Seq<char>, ps: PState) -> Result<(StmtV, PState), PErr>
    decreases p_measure(s, ps), 2int,
{
    match ps.cur {
        Lexeme::Tok(Token::Let) => p_var(s, ps, false),
        Lexeme::Tok(Token::Const) => p_var(s, ps, true),
        Lexeme::Tok(Token::Function) => p_function(s, ps),
        Lexeme::Tok(Token::If) => p_if(s, ps),
        Lexeme::Tok(Token::While) => p_while(s, ps),
        Lexeme::Tok(Token::Return) => p_return(s, ps),
        Lexeme::Tok(Token::LBrace) => match p_step(s, ps) {
            Err(e) => Err(e),
            Ok(ps1) => match p_block(s, ps1, seq![]) {
                Err(e) => Err(e),
                Ok((b, ps2)) => Ok((StmtV::Block(b), ps2)),
            },
        },
        _ => p_expr_stmt(s, ps),
    }
}

/// `let NAME = EXPR;` or `const NAME = EXPR;`.
pub open spec fn p_var(s: Seq<char>, ps: PState, is_const: bool) -> Result<(StmtV, PState), PErr> {
    match p_step(s, ps) {
        Err(e) => Err(e),
        Ok(ps1) => match p_ident(s, ps1) {
            Err(e) => Err(e),
            Ok((name, ps2)) => match p_consume(s, ps2, Token::Eq) {
                Err(e) => Err(e),
                Ok(ps3) => match p_expression(s, ps3) {
                    Err(e) => Err(e),
                    Ok((init, ps4)) => match p_consume(s, ps4, Token::Semi) {
                        Err(e) => Err(e),
                        Ok(ps5) => Ok((StmtV::VariableDeclaration(name, init, is_const), ps5)),
                    },
                },
            },
        },
    }
}

/// Comma-separated parameter names, appended to `acc`.
pub open spec fn p_params(s: Seq<char>, ps: PState, acc: Seq<Seq<char>>) -> Result<(Seq<Seq<char>>, PState), PErr>
    decreases p_measure(s, ps),
{
    match p_ident(s, ps) {
        Err(e) => Err(e),
        Ok((w, ps1)) => if is_tok(ps1, Token::Comma) {
            match p_step(s, ps1) {
                Err(e) => Err(e),
                Ok(ps2) => if shrinks(s, ps, ps2) {
                    p_params(s, ps2, acc.push(w))
                } else {
                    Err(PErr::Stalled)
                },
            }
        } else {
            Ok((acc.push(w), ps1))
        },
    }
}

/// `function NAME(PARAMS) { BODY }`.
pub open spec fn p_function(s: Seq<char>, ps: PState) -> Result<(StmtV, PState), PErr>
    decreases p_measure(s, ps), 1int,
{
    match p_step(s, ps) {
        Err(e) => Err(e),
        Ok(ps1) => match p_ident(s, ps1) {
            Err(e) => Err(e),
            Ok((name, ps2)) => match p_consume(s, ps2, Token::LParen) {
                Err(e) => Err(e),
                Ok(ps3) => {
                    let params = if is_tok(ps3, Token::RParen) {
                        Ok((Seq::<Seq<char>>::empty(), ps3))
                    } else {
                        p_params(s, ps3, seq![])
                    };
                    match params {
                        Err(e) => Err(e),
                        Ok((ns, ps4)) => match p_consume(s, ps4, Token::RParen) {
                            Err(e) => Err(e),
                            Ok(ps5) => match p_consume(s, ps5, Token::LBrace) {
                                Err(e) => Err(e),
                                Ok(ps6) => if !shrinks(s, ps, ps6) {
                                    Err(PErr::Stalled)
                                } else {
                                    match p_block(s, ps6, seq![]) {
                                        Err(e) => Err(e),
                                        Ok((body, ps7)) => Ok((StmtV::FunctionDeclaration(name, ns, body), ps7)),
                                    }
                                },
                            },
                        },
                    }
                },
            },
        },
    }
}

/// Statements up to the closing `}`, appended to `acc`; the `}` is consumed.
pub open spec fn p_block(s: Seq<char>, ps: PState, acc: Seq<StmtV>) -> Result<(Seq<StmtV>, PState), PErr>
    decreases p_measure(s, ps), 3int,
{
    if is_tok(ps, Token::RBrace) || is_tok(ps, Token::EOF) {
        match p_consume(s, ps, Token::RBrace) {
            Err(e) => Err(e),
            Ok(ps1) => Ok((acc, ps1)),
        }
    } else {
        match p_statement(s, ps) {
            Err(e) => Err(e),
            Ok((st, ps1)) => if shrinks(s, ps, ps1) {
                p_block(s, ps1, acc.push(st))
            } else {
                Err(PErr::Stalled)
            },
        }
    }
}

/// `if (EXPR) STMT [else STMT]`.
pub open spec fn p_if(s: Seq<char>, ps: PState) -> Result<(StmtV, PState), PErr>
    decreases p_measure(s, ps), 1int,
{
    match p_step(s, ps) {
        Err(e) => Err(e),
        Ok(ps1) => match p_consume(s, ps1, Token::LParen) {
            Err(e) => Err(e),
            Ok(ps2) => match p_expression(s, ps2) {
                Err(e) => Err(e),
                Ok((c, ps3)) => match p_consume(s, ps3, Token::RParen) {
                    Err(e) => Err(e),
                    Ok(ps4) => if !shrinks(s, ps, ps4) {
                        Err(PErr::Stalled)
                    } else {
                        match p_statement(s, ps4) {
                            Err(e) => Err(e),
                            Ok((t, ps5)) => if !shrinks(s, ps, ps5) {
                                Err(PErr::Stalled)
                            } else if is_tok(ps5, Token::Else) {
                                match p_step(s, ps5) {
                                    Err(e) => Err(e),
                                    Ok(ps6) => match p_statement(s, ps6) {
                                        Err(e) => Err(e),
                                        Ok((u, ps7)) => Ok((StmtV::If(c, Box::new(t), Some(Box::new(u))), ps7)),
                                    },
                                }
                            } else {
                                Ok((StmtV::If(c, Box::new(t), None), ps5))
                            },
                        }
                    },
                },
            },
        },
    }
}

/// `while (EXPR) STMT`.
pub open spec fn p_while(s: Seq<char>, ps: PState) -> Result<(StmtV, PState), PErr>
    decreases p_measure(s, ps), 1int,
{
    match p_step(s, ps) {
        Err(e) => Err(e),
        Ok(ps1) => match p_consume(s, ps1, Token::LParen) {
            Err(e) => Err(e),
            Ok(ps2) => match p_expression(s, ps2) {
                Err(e) => Err(e),
                Ok((c, ps3)) => match p_consume(s, ps3, Token::RParen) {
                    Err(e) => Err(e),
                    Ok(ps4) => if !shrinks(s, ps, ps4) {
                        Err(PErr::Stalled)
                    } else {
                        match p_statement(s, ps4) {
                            Err(e) => Err(e),
                            Ok((b, ps5)) => Ok((StmtV::While(c, Box::new(b)), ps5)),
                        }
                    },
                },
            },
        },
    }
}

/// `return;` or `return EXPR;`.
pub open spec fn p_return(s: Seq<char>, ps: PState) -> Result<(StmtV, PState), PErr> {
    match p_step(s, ps) {
        Err(e) => Err(e),
        Ok(ps1) => {
            let value = if is_tok(ps1, Token::Semi) {
                Ok((None::<ExprV>, ps1))
            } else {
                match p_expression(s, ps1) {
                    Err(e) => Err(e),
                    Ok((v, ps2)) => Ok((Some(v), ps2)),
                }
            };
            match value {
                Err(e) => Err(e),
                Ok((v, ps2)) => match p_consume(s, ps2, Token::Semi) {
                    Err(e) => Err(e),
                    Ok(ps3) => Ok((StmtV::Return(v), ps3)),
                },
            }
        },
    }
}

/// `EXPR;`.
pub open spec fn p_expr_stmt(s: Seq<char>, ps: PState) -> Result<(StmtV, PState), PErr> {
    match p_expression(s, ps) {
        Err(e) => Err(e),
        Ok((v, ps1)) => match p_consume(s, ps1, Token::Semi) {
            Err(e) => Err(e),
            Ok(ps2) => Ok((StmtV::Expression(v), ps2)),
        },
    }
}

/// Statements up to the end of input, appended to `acc`.
pub open spec fn p_program(s: Seq<char>, ps: PState, acc: Seq<StmtV>) -> Result<Seq<StmtV>, PErr>
    decreases p_measure(s, ps),
{
    if is_tok(ps, Token::EOF) {
        Ok(acc)
    } else {
        match p_statement(s, ps) {
            Err(e) => Err(e),
            Ok((st, ps1)) => if shrinks(s, ps, ps1) {
                p_program(s, ps1, acc.push(st))
            } else {
                Err(PErr::Stalled)
            },
        }
    }
}

/// The program that a source text spells, or why it spells none.
pub open spec fn p_source(s: Seq<char>) -> Result<Seq<StmtV>, PErr> {
    match p_read(s, 0) {
        Err(e) => Err(e),
        Ok(ps) => if 0 <= ps.pos <= s.len() {
            p_program(s, ps, seq![])
        } else {
            Err(PErr::Stalled)
        },
    }
}

} // verus!
