use vstd::prelude::*;
use crate::compiles_to;
use crate::ast::{expr_view, exprs_view, stmt_view, stmts_view, strings_view, BinaryOp, Expression, Program, Statement};
use crate::codegen_spec::{
    args_code, block_code, branch_registered, collect_branch, collect_list, collect_stmt, const_line, emit,
    ends_in_expression, expr_code, fold_op, funcs_code, label_name, locals_text, lookup, lookup_scope, loop_close,
    lemma_stmt_code_scopes, loop_exit, loop_open, main_code, main_head, mains, module_head, module_tail, op_text, param_scope, params_text,
    program_code, slot_name, start_routine, stmt_code, GenState, Scopes,
};
use crate::error::CompileError;

verus! {

/// Constant folding is exact but shallow: an operator on two literals becomes
/// one constant, and in `a op1 (b op2 c)` only the inner operator is folded.
pub proof fn law_shallow_folding(sc: Scopes, a: i32, b: i32, c: i32, op1: BinaryOp, op2: BinaryOp)
    ensures
        expr_code(
            sc,
            Expression::Binary(Box::new(Expression::Number(b)), op2, Box::new(Expression::Number(c))),
        ) == Ok::<Seq<char>, CompileError>(const_line(fold_op(op2, b, c) as int)),
        expr_code(
            sc,
            Expression::Binary(
                Box::new(Expression::Number(a)),
                op1,
                Box::new(Expression::Binary(Box::new(Expression::Number(b)), op2, Box::new(Expression::Number(c)))),
            ),
        ) == Ok::<Seq<char>, CompileError>(const_line(a as int) + const_line(fold_op(op2, b, c) as int) + op_text(op1)),
{
    let inner = Expression::Binary(Box::new(Expression::Number(b)), op2, Box::new(Expression::Number(c)));
    assert(expr_code(sc, inner) == Ok::<Seq<char>, CompileError>(const_line(fold_op(op2, b, c) as int)));
    assert(expr_code(sc, Expression::Number(a)) == Ok::<Seq<char>, CompileError>(const_line(a as int)));
}

/// Assigning to a name bound `const` is an error and generates nothing, once
/// the assigned value itself compiles.
pub proof fn law_const_assignment(sc: Scopes, name: String, v: Expression)
    requires
        lookup(sc, name@) matches Some((_, is_const)) && is_const,
        expr_code(sc, v) is Ok,
    ensures
        expr_code(sc, Expression::Assignment(name, Box::new(v))) == Err::<Seq<char>, CompileError>(
            CompileError::AssignmentToConstant { name },
        ),
{
}

/// The two lists agree on the views of their first `n` expressions.
pub open spec fn same_exprs(a1: Seq<Expression>, a2: Seq<Expression>, n: int) -> bool {
    &&& 0 <= n <= a1.len()
    &&& n <= a2.len()
    &&& forall|i: int| 0 <= i < n ==> expr_view(#[trigger] a1[i]) == expr_view(a2[i])
}

/// The two lists agree on the views of their first `n` statements.
pub open spec fn same_stmts(b1: Seq<Statement>, b2: Seq<Statement>, n: int) -> bool {
    &&& 0 <= n <= b1.len()
    &&& n <= b2.len()
    &&& forall|i: int| 0 <= i < n ==> stmt_view(#[trigger] b1[i]) == stmt_view(b2[i])
}

proof fn lemma_exprs_view_index(a: Seq<Expression>, n: int)
    requires
        0 <= n <= a.len(),
    ensures
        exprs_view(a, n).len() == n,
        forall|i: int| 0 <= i < n ==> #[trigger] exprs_view(a, n)[i] == expr_view(a[i]),
    decreases n,
{
    if n > 0 {
        lemma_exprs_view_index(a, n - 1);
    }
}

proof fn lemma_stmts_view_index(b: Seq<Statement>, n: int)
    requires
        0 <= n <= b.len(),
    ensures
        stmts_view(b, n).len() == n,
        forall|i: int| 0 <= i < n ==> #[trigger] stmts_view(b, n)[i] == stmt_view(b[i]),
    decreases n,
{
    if n > 0 {
        lemma_stmts_view_index(b, n - 1);
    }
}

proof fn lemma_same_exprs_of_views(a1: Seq<Expression>, a2: Seq<Expression>)
    requires
        exprs_view(a1, a1.len() as int) == exprs_view(a2, a2.len() as int),
    ensures
        a1.len() == a2.len(),
        same_exprs(a1, a2, a1.len() as int),
{
    lemma_exprs_view_index(a1, a1.len() as int);
    lemma_exprs_view_index(a2, a2.len() as int);
    let v1 = exprs_view(a1, a1.len() as int);
    let v2 = exprs_view(a2, a2.len() as int);
    assert(a1.len() == v1.len() == v2.len() == a2.len());
    assert forall|i: int| 0 <= i < a1.len() implies expr_view(#[trigger] a1[i]) == expr_view(a2[i]) by {
        assert(v1[i] == expr_view(a1[i]));
        assert(v2[i] == expr_view(a2[i]));
    }
}

proof fn lemma_same_stmts_of_views(b1: Seq<Statement>, b2: Seq<Statement>)
    requires
        stmts_view(b1, b1.len() as int) == stmts_view(b2, b2.len() as int),
    ensures
        b1.len() == b2.len(),
        same_stmts(b1, b2, b1.len() as int),
{
    lemma_stmts_view_index(b1, b1.len() as int);
    lemma_stmts_view_index(b2, b2.len() as int);
    let v1 = stmts_view(b1, b1.len() as int);
    let v2 = stmts_view(b2, b2.len() as int);
    assert(b1.len() == v1.len() == v2.len() == b2.len());
    assert forall|i: int| 0 <= i < b1.len() implies stmt_view(#[trigger] b1[i]) == stmt_view(b2[i]) by {
        assert(v1[i] == stmt_view(b1[i]));
        assert(v2[i] == stmt_view(b2[i]));
    }
}

proof fn lemma_expr_code_view(sc: Scopes, e1: Expression, e2: Expression)
    requires
        expr_view(e1) == expr_view(e2),
    ensures
        expr_code(sc, e1) is Ok <==> expr_code(sc, e2) is Ok,
        expr_code(sc, e1) is Ok ==> expr_code(sc, e1) == expr_code(sc, e2),
    decreases e1,
{
    match e1 {
        Expression::Binary(l, _, r) => match e2 {
            Expression::Binary(l2, _, r2) => {
                lemma_expr_code_view(sc, *l, *l2);
                lemma_expr_code_view(sc, *r, *r2);
            },
            _ => {},
        },
        Expression::Unary(_, x) => match e2 {
            Expression::Unary(_, x2) => lemma_expr_code_view(sc, *x, *x2),
            _ => {},
        },
        Expression::Call(_, args) => match e2 {
            Expression::Call(_, args2) => {
                lemma_same_exprs_of_views(args@, args2@);
                lemma_args_code_view(sc, args@, args2@, args@.len() as int);
            },
            _ => {},
        },
        Expression::Assignment(_, v) => match e2 {
            Expression::Assignment(_, v2) => lemma_expr_code_view(sc, *v, *v2),
            _ => {},
        },
        _ => {},
    }
}

proof fn lemma_args_code_view(sc: Scopes, a1: Seq<Expression>, a2: Seq<Expression>, n: int)
    requires
        same_exprs(a1, a2, n),
    ensures
        args_code(sc, a1, n) is Ok <==> args_code(sc, a2, n) is Ok,
        args_code(sc, a1, n) is Ok ==> args_code(sc, a1, n) == args_code(sc, a2, n),
    decreases a1, n,
{
    if n > 0 {
        lemma_args_code_view(sc, a1, a2, n - 1);
        lemma_expr_code_view(sc, a1[n - 1], a2[n - 1]);
    }
}

proof fn lemma_mains_view(b1: Seq<Statement>, b2: Seq<Statement>)
    requires
        b1.len() == b2.len(),
        same_stmts(b1, b2, b1.len() as int),
    ensures
        mains(b1).len() == mains(b2).len(),
        same_stmts(mains(b1), mains(b2), mains(b1).len() as int),
    decreases b1.len(),
{
    if b1.len() > 0 {
        lemma_mains_view(b1.drop_last(), b2.drop_last());
        assert(stmt_view(b1.last()) == stmt_view(b2.last()));
        let m1 = mains(b1.drop_last());
        let m2 = mains(b2.drop_last());
        if !(b1.last() is FunctionDeclaration) {
            assert(!(b2.last() is FunctionDeclaration));
            assert forall|i: int| 0 <= i < m1.len() + 1 implies stmt_view(#[trigger] m1.push(b1.last())[i])
                == stmt_view(m2.push(b2.last())[i]) by {
                if i < m1.len() {
                    assert(stmt_view(m1[i]) == stmt_view(m2[i]));
                }
            }
        } else {
            assert(b2.last() is FunctionDeclaration);
        }
    }
}

/// Compiling one source text twice gives byte-identical output: any two
/// results that `compile` may give for the same text agree on success, and
/// successful ones hold the same text.
pub proof fn law_compile_deterministic(input: Seq<char>, r1: Result<String, CompileError>, r2: Result<String, CompileError>)
    requires
        compiles_to(input, r1),
        compiles_to(input, r2),
    ensures
        r1 is Ok <==> r2 is Ok,
        r1 is Ok ==> r1->Ok_0@ == r2->Ok_0@,
{
    match crate::grammar::p_source(input) {
        Ok(vs) => {
            let prog_a = choose|p: Program|
                #[trigger] stmts_view(p.body@, p.body@.len() as int) == vs && match program_code(GenState::fresh(), p.body@) {
                    Ok(st) => r1 matches Ok(t) && t@ == st.out,
                    Err(e) => r1 == Err::<String, CompileError>(e),
                };
            let prog_b = choose|p: Program|
                #[trigger] stmts_view(p.body@, p.body@.len() as int) == vs && match program_code(GenState::fresh(), p.body@) {
                    Ok(st) => r2 matches Ok(t) && t@ == st.out,
                    Err(e) => r2 == Err::<String, CompileError>(e),
                };
            law_generation_depends_on_views(GenState::fresh(), prog_a.body@, prog_b.body@);
        },
        Err(_) => {},
    }
}

proof fn lemma_block_view(a: Statement, b: Statement)
    requires
        stmt_view(a) == stmt_view(b),
    ensures
        (a is Block) == (b is Block),
        (a is Expression) == (b is Expression),
        (a is FunctionDeclaration) == (b is FunctionDeclaration),
{
    match a {
        Statement::Block(_) => {},
        _ => match b {
            Statement::Block(_) => {},
            _ => {},
        },
    }
}

proof fn lemma_stmt_code_view(st: GenState, s1: Statement, s2: Statement, reg: bool)
    requires
        stmt_view(s1) == stmt_view(s2),
    ensures
        stmt_code(st, s1, reg) is Ok <==> stmt_code(st, s2, reg) is Ok,
        stmt_code(st, s1, reg) is Ok ==> stmt_code(st, s1, reg) == stmt_code(st, s2, reg),
    decreases s1,
{
    match s1 {
        Statement::VariableDeclaration { init, .. } => match s2 {
            Statement::VariableDeclaration { init: init2, .. } => lemma_expr_code_view(st.scopes, init, init2),
            _ => {},
        },
        Statement::Expression(e) => match s2 {
            Statement::Expression(e2) => lemma_expr_code_view(st.scopes, e, e2),
            _ => {},
        },
        Statement::Return(v) => match s2 {
            Statement::Return(v2) => match (v, v2) {
                (Some(e), Some(e2)) => lemma_expr_code_view(st.scopes, e, e2),
                _ => {},
            },
            _ => {},
        },
        Statement::Block(ss) => match s2 {
            Statement::Block(ss2) => {
                lemma_same_stmts_of_views(ss@, ss2@);
                lemma_block_code_view(st, ss@, ss2@, ss@.len() as int, reg);
            },
            _ => {},
        },
        Statement::If { condition, then_branch, else_branch } => match s2 {
            Statement::If { condition: c2, then_branch: t2, else_branch: e2 } => {
                lemma_expr_code_view(st.scopes, condition, c2);
                match expr_code(st.scopes, condition) {
                    Ok(c) => {
                        let st0 = emit(st, c + "    (if\n"@ + "      (then\n"@);
                        assert(stmt_view(*then_branch) == stmt_view(*t2));
                        lemma_block_view(*then_branch, *t2);
                        lemma_stmt_code_view(st0, *then_branch, *t2, branch_registered(reg, *then_branch));
                        match stmt_code(st0, *then_branch, branch_registered(reg, *then_branch)) {
                            Ok(st1) => match (else_branch, e2) {
                                (Some(x), Some(y)) => {
                                    assert(stmt_view(*x) == stmt_view(*y));
                                    lemma_block_view(*x, *y);
                                    lemma_stmt_code_view(
                                        emit(st1, "      )\n"@ + "      (else\n"@),
                                        *x,
                                        *y,
                                        branch_registered(reg, *x),
                                    );
                                },
                                _ => {},
                            },
                            Err(_) => {},
                        }
                    },
                    Err(_) => {},
                }
            },
            _ => {},
        },
        Statement::While { condition, body } => match s2 {
            Statement::While { condition: c2, body: b2 } => {
                lemma_expr_code_view(st.scopes, condition, c2);
                match expr_code(st.scopes, condition) {
                    Ok(c) => {
                        let exit = label_name("break"@, st.labels);
                        let head = label_name("continue"@, st.labels + 1);
                        assert(stmt_view(*body) == stmt_view(*b2));
                        lemma_block_view(*body, *b2);
                        lemma_stmt_code_view(
                            GenState { out: st.out + loop_open(exit, head) + c + loop_exit(exit), labels: st.labels + 2, ..st },
                            *body,
                            *b2,
                            branch_registered(reg, *body),
                        );
                    },
                    Err(_) => {},
                }
            },
            _ => {},
        },
        _ => {},
    }
}

proof fn lemma_block_code_view(st: GenState, b1: Seq<Statement>, b2: Seq<Statement>, n: int, reg: bool)
    requires
        same_stmts(b1, b2, n),
    ensures
        block_code(st, b1, n, reg) is Ok <==> block_code(st, b2, n, reg) is Ok,
        block_code(st, b1, n, reg) is Ok ==> block_code(st, b1, n, reg) == block_code(st, b2, n, reg),
    decreases b1, n,
{
    if n > 0 {
        lemma_block_code_view(st, b1, b2, n - 1, reg);
        match block_code(st, b1, n - 1, reg) {
            Ok(st1) => lemma_stmt_code_view(st1, b1[n - 1], b2[n - 1], reg),
            Err(_) => {},
        }
    }
}

proof fn lemma_collect_list_view(sc: Scopes, locals: nat, b1: Seq<Statement>, b2: Seq<Statement>, n: int)
    requires
        same_stmts(b1, b2, n),
    ensures
        collect_list(sc, locals, b1, n) == collect_list(sc, locals, b2, n),
    decreases b1, n,
{
    if n > 0 {
        lemma_collect_list_view(sc, locals, b1, b2, n - 1);
        match collect_list(sc, locals, b1, n - 1) {
            Ok((sc1, l1, _)) => lemma_collect_stmt_view(sc1, l1, b1[n - 1], b2[n - 1]),
            Err(_) => {},
        }
    }
}

proof fn lemma_collect_stmt_view(sc: Scopes, locals: nat, s1: Statement, s2: Statement)
    requires
        stmt_view(s1) == stmt_view(s2),
    ensures
        collect_stmt(sc, locals, s1) == collect_stmt(sc, locals, s2),
    decreases s1,
{
    match s1 {
        Statement::Block(ss) => match s2 {
            Statement::Block(ss2) => {
                lemma_same_stmts_of_views(ss@, ss2@);
                lemma_collect_list_view(sc, locals, ss@, ss2@, ss@.len() as int);
            },
            _ => {},
        },
        Statement::If { then_branch, else_branch, .. } => match s2 {
            Statement::If { then_branch: t2, else_branch: e2, .. } => {
                lemma_collect_branch_view(sc, locals, *then_branch, *t2);
                match collect_branch(sc, locals, *then_branch) {
                    Ok((sc1, l1, _)) => match (else_branch, e2) {
                        (Some(x), Some(y)) => lemma_collect_branch_view(sc1, l1, *x, *y),
                        _ => {},
                    },
                    Err(_) => {},
                }
            },
            _ => {},
        },
        Statement::While { body, .. } => match s2 {
            Statement::While { body: b2, .. } => lemma_collect_branch_view(sc, locals, *body, *b2),
            _ => {},
        },
        _ => {},
    }
}

proof fn lemma_collect_branch_view(sc: Scopes, locals: nat, s1: Statement, s2: Statement)
    requires
        stmt_view(s1) == stmt_view(s2),
    ensures
        collect_branch(sc, locals, s1) == collect_branch(sc, locals, s2),
    decreases s1,
{
    match s1 {
        Statement::Block(ss) => match s2 {
            Statement::Block(ss2) => {
                lemma_same_stmts_of_views(ss@, ss2@);
                lemma_collect_list_view(sc, locals, ss@, ss2@, ss@.len() as int);
            },
            _ => {},
        },
        _ => {},
    }
}

proof fn lemma_start_routine_view(st: GenState, b1: Seq<Statement>, b2: Seq<Statement>)
    requires
        b1.len() == b2.len(),
        same_stmts(b1, b2, b1.len() as int),
    ensures
        start_routine(st, b1) is Ok <==> start_routine(st, b2) is Ok,
        start_routine(st, b1) is Ok ==> start_routine(st, b1) == start_routine(st, b2),
{
    lemma_collect_list_view(st.scopes, st.locals, b1, b2, b1.len() as int);
}

proof fn lemma_funcs_code_view(st: GenState, b1: Seq<Statement>, b2: Seq<Statement>, n: int)
    requires
        same_stmts(b1, b2, n),
    ensures
        funcs_code(st, b1, n) is Ok <==> funcs_code(st, b2, n) is Ok,
        funcs_code(st, b1, n) is Ok ==> funcs_code(st, b1, n) == funcs_code(st, b2, n),
    decreases n,
{
    if n > 0 {
        lemma_funcs_code_view(st, b1, b2, n - 1);
        assert(stmt_view(b1[n - 1]) == stmt_view(b2[n - 1]));
        match funcs_code(st, b1, n - 1) {
            Ok(st1) => match b1[n - 1] {
                Statement::FunctionDeclaration { name, params, body } => match b2[n - 1] {
                    Statement::FunctionDeclaration { body: body2, .. } => {
                        lemma_same_stmts_of_views(body@, body2@);
                        let ps = strings_view(params@);
                        let sta = GenState {
                            out: st1.out + ("  (func $"@ + name@ + " "@ + params_text(ps) + "(result i32)\n"@),
                            scopes: st1.scopes.push(param_scope(ps)),
                            ..st1
                        };
                        lemma_start_routine_view(sta, body@, body2@);
                        match start_routine(sta, body@) {
                            Ok(stb) => lemma_block_code_view(stb, body@, body2@, body@.len() as int, true),
                            Err(_) => {},
                        }
                    },
                    _ => {},
                },
                _ => {},
            },
            Err(_) => {},
        }
    }
}

proof fn lemma_main_code_view(st: GenState, m1: Seq<Statement>, m2: Seq<Statement>, keep: bool)
    requires
        m1.len() == m2.len(),
        same_stmts(m1, m2, m1.len() as int),
    ensures
        main_code(st, m1, keep) is Ok <==> main_code(st, m2, keep) is Ok,
        main_code(st, m1, keep) is Ok ==> main_code(st, m1, keep) == main_code(st, m2, keep),
{
    if m1.len() > 0 {
        assert(stmt_view(m1.last()) == stmt_view(m2.last()));
        lemma_block_code_view(st, m1, m2, m1.len() - 1, true);
        match block_code(st, m1, m1.len() - 1, true) {
            Ok(st1) => match (m1.last(), m2.last()) {
                (Statement::Expression(e1), Statement::Expression(e2)) => lemma_expr_code_view(st1.scopes, e1, e2),
                _ => {},
            },
            Err(_) => {},
        }
    }
    lemma_block_code_view(st, m1, m2, m1.len() as int, true);
}

/// Generation depends on the program's view alone: programs whose statements
/// have equal views generate the same text, or both fail. So compiling one
/// source text twice gives byte-identical output (see `compile`).
pub proof fn law_generation_depends_on_views(st: GenState, b1: Seq<Statement>, b2: Seq<Statement>)
    requires
        stmts_view(b1, b1.len() as int) == stmts_view(b2, b2.len() as int),
    ensures
        program_code(st, b1) is Ok <==> program_code(st, b2) is Ok,
        program_code(st, b1) is Ok ==> program_code(st, b1) == program_code(st, b2),
{
    lemma_same_stmts_of_views(b1, b2);
    let n = b1.len() as int;
    if n > 0 {
        assert(stmt_view(b1.last()) == stmt_view(b2.last()));
    }
    assert(ends_in_expression(b1) == ends_in_expression(b2));
    let st0 = emit(st, module_head());
    lemma_funcs_code_view(st0, b1, b2, n);
    match funcs_code(st0, b1, n) {
        Ok(st1) => {
            lemma_start_routine_view(emit(st1, main_head()), b1, b2);
            match start_routine(emit(st1, main_head()), b1) {
                Ok(st2) => {
                    lemma_mains_view(b1, b2);
                    lemma_main_code_view(st2, mains(b1), mains(b2), ends_in_expression(b1));
                },
                Err(_) => {},
            }
        },
        Err(_) => {},
    }
}

/// A program whose only statement is `let NAME = N;` declares one local for
/// NAME, pushes N, stores it into that local, and then yields 0.
pub proof fn law_single_let(body: Seq<Statement>, name: String, n: i32)
    requires
        body == seq![Statement::VariableDeclaration { name, init: Expression::Number(n), is_const: false }],
    ensures
        program_code(GenState::fresh(), body) matches Ok(st) && st.out =~= module_head() + main_head()
            + "    (local "@ + slot_name(name@, 0) + " i32)\n"@ + const_line(n as int) + "    local.set "@
            + slot_name(name@, 0) + "\n"@ + "    i32.const 0\n"@ + module_tail(),
{
    let slot = slot_name(name@, 0);
    let st0 = emit(GenState::fresh(), module_head());
    assert(funcs_code(st0, body, 0) == Ok::<GenState, CompileError>(st0));
    assert(funcs_code(st0, body, 1) == Ok::<GenState, CompileError>(st0));
    let sc0: Scopes = seq![seq![]];
    let b = (name@, slot, false);
    let sc1: Scopes = seq![seq![b]];
    assert(sc0.update(0, sc0[0].push(b)) =~= sc1);
    assert(collect_list(sc0, 0, body, 0) == Ok::<(Scopes, nat, Seq<Seq<char>>), CompileError>((sc0, 0, seq![])));
    assert(collect_stmt(sc0, 0, body[0]) == Ok::<(Scopes, nat, Seq<Seq<char>>), CompileError>((sc1, 1, seq![slot])));
    assert(Seq::<Seq<char>>::empty() + seq![slot] =~= seq![slot]);
    assert(collect_list(sc0, 0, body, 1) == Ok::<(Scopes, nat, Seq<Seq<char>>), CompileError>((sc1, 1, seq![slot])));
    assert(seq![slot].drop_last() =~= Seq::<Seq<char>>::empty());
    assert(locals_text(seq![slot]) =~= "    (local "@ + slot + " i32)\n"@) by {
        assert(locals_text(Seq::<Seq<char>>::empty()) == Seq::<char>::empty());
    }
    let st2 = start_routine(emit(st0, main_head()), body)->Ok_0;
    assert(st2.slots == seq![slot]);
    assert(body.drop_last() =~= Seq::<Statement>::empty());
    assert(mains(Seq::<Statement>::empty()) == Seq::<Statement>::empty());
    assert(mains(body) =~= body);
    assert(!ends_in_expression(body));
    assert(block_code(st2, body, 0, true) == Ok::<GenState, CompileError>(st2));
    assert(expr_code(st2.scopes, Expression::Number(n)) == Ok::<Seq<char>, CompileError>(const_line(n as int)));
    assert(st2.next == 0 && st2.next < st2.slots.len() && st2.slots[0] == slot);
    assert(stmt_code(st2, body[0], true) is Ok);
    assert(block_code(st2, body, 1, true) is Ok);
    let st3 = block_code(st2, body, 1, true)->Ok_0;
    assert(st3.out =~= st2.out + const_line(n as int) + "    local.set "@ + slot + "\n"@);
    assert(main_code(st2, mains(body), false) is Ok);
}

/// A conditional is a structured `if` with a `then` branch; the `else` branch
/// is there exactly when the source has one.
pub proof fn law_if_branches(st: GenState, s: Statement, reg: bool)
    requires
        s matches Statement::If { condition, .. } && expr_code(st.scopes, condition) is Ok,
    ensures
        s matches Statement::If { condition, then_branch, else_branch } && ({
            let c = expr_code(st.scopes, condition)->Ok_0;
            let st0 = emit(st, c + "    (if\n"@ + "      (then\n"@);
            stmt_code(st0, *then_branch, branch_registered(reg, *then_branch)) matches Ok(st1) ==> match else_branch {
                None => stmt_code(st, s, reg) == Ok::<GenState, CompileError>(emit(st1, "      )\n"@ + "    )\n"@)),
                Some(e) => stmt_code(emit(st1, "      )\n"@ + "      (else\n"@), *e, branch_registered(reg, *e)) matches Ok(
                    st2,
                ) ==> stmt_code(st, s, reg) == Ok::<GenState, CompileError>(emit(st2, "      )\n"@ + "    )\n"@)),
            }
        }),
{
}

/// A loop is a block around a loop: the condition, a conditional branch out to
/// the block when it is zero, the body, and a branch back to the loop head.
/// Both labels are fresh and distinct.
pub proof fn law_while_structure(st: GenState, s: Statement, reg: bool)
    requires
        s matches Statement::While { condition, .. } && expr_code(st.scopes, condition) is Ok,
        st.labels + 2 <= usize::MAX,
    ensures
        s matches Statement::While { condition, body } && ({
            let exit = label_name("break"@, st.labels);
            let head = label_name("continue"@, st.labels + 1);
            let c = expr_code(st.scopes, condition)->Ok_0;
            let inner = GenState { out: st.out + loop_open(exit, head) + c + loop_exit(exit), labels: st.labels + 2, ..st };
            &&& exit != head
            &&& stmt_code(st, s, reg) == match stmt_code(inner, *body, branch_registered(reg, *body)) {
                Ok(st1) => Ok::<GenState, CompileError>(emit(st1, loop_close(head))),
                Err(e) => Err(e),
            }
        }),
{
    reveal_strlit("$");
    reveal_strlit("break");
    reveal_strlit("continue");
    let exit = label_name("break"@, st.labels);
    let head = label_name("continue"@, st.labels + 1);
    assert(exit[1] == 'b');
    assert(head[1] == 'c');
}

/// `const NAME = N; NAME = M;` fails to compile, with the assignment as the cause.
pub proof fn law_const_reassignment(body: Seq<Statement>, name: String, n: i32, m: i32)
    requires
        body == seq![
            Statement::VariableDeclaration { name, init: Expression::Number(n), is_const: true },
            Statement::Expression(Expression::Assignment(name, Box::new(Expression::Number(m)))),
        ],
    ensures
        program_code(GenState::fresh(), body) == Err::<GenState, CompileError>(
            CompileError::AssignmentToConstant { name },
        ),
{
    let slot = slot_name(name@, 0);
    let b = (name@, slot, true);
    let st0 = emit(GenState::fresh(), module_head());
    assert(funcs_code(st0, body, 0) == Ok::<GenState, CompileError>(st0));
    assert(funcs_code(st0, body, 1) == Ok::<GenState, CompileError>(st0));
    assert(funcs_code(st0, body, 2) == Ok::<GenState, CompileError>(st0));
    let sc0: Scopes = seq![seq![]];
    let sc1: Scopes = seq![seq![b]];
    assert(sc0.update(0, sc0[0].push(b)) =~= sc1);
    assert(collect_list(sc0, 0, body, 0) == Ok::<(Scopes, nat, Seq<Seq<char>>), CompileError>((sc0, 0, seq![])));
    assert(collect_stmt(sc0, 0, body[0]) == Ok::<(Scopes, nat, Seq<Seq<char>>), CompileError>((sc1, 1, seq![slot])));
    assert(Seq::<Seq<char>>::empty() + seq![slot] =~= seq![slot]);
    assert(collect_list(sc0, 0, body, 1) == Ok::<(Scopes, nat, Seq<Seq<char>>), CompileError>((sc1, 1, seq![slot])));
    assert(collect_stmt(sc1, 1, body[1]) == Ok::<(Scopes, nat, Seq<Seq<char>>), CompileError>((sc1, 1, seq![])));
    assert(seq![slot] + Seq::<Seq<char>>::empty() =~= seq![slot]);
    assert(collect_list(sc0, 0, body, 2) == Ok::<(Scopes, nat, Seq<Seq<char>>), CompileError>((sc1, 1, seq![slot])));
    let st2 = start_routine(emit(st0, main_head()), body)->Ok_0;
    assert(st2.slots == seq![slot] && st2.next == 0);
    assert(body.drop_last().drop_last() =~= Seq::<Statement>::empty());
    assert(mains(Seq::<Statement>::empty()) == Seq::<Statement>::empty());
    assert(body.drop_last() =~= seq![body[0]]);
    assert(mains(body.drop_last()) =~= seq![body[0]]);
    assert(mains(body) =~= body);
    assert(ends_in_expression(body));
    assert(block_code(st2, body, 0, true) == Ok::<GenState, CompileError>(st2));
    assert(expr_code(st2.scopes, Expression::Number(n)) == Ok::<Seq<char>, CompileError>(const_line(n as int)));
    assert(st2.next < st2.slots.len() && st2.slots[0] == slot);
    assert(stmt_code(st2, body[0], true) is Ok);
    assert(block_code(st2, body, 1, true) is Ok);
    let st3 = block_code(st2, body, 1, true)->Ok_0;
    assert(st2.scopes == sc1);
    assert(st3.scopes == seq![seq![b, b]]) by {
        assert(seq![b].push(b) =~= seq![b, b]);
        assert(st2.scopes.update(0, st2.scopes[0].push(b)) =~= seq![seq![b, b]]);
    }
    assert(seq![b, b].drop_last() =~= seq![b]);
    assert(lookup_scope(seq![b, b], name@) == Some((slot, true)));
    assert(seq![seq![b, b]].drop_last() =~= Seq::<Seq<(Seq<char>, Seq<char>, bool)>>::empty());
    assert(lookup(st3.scopes, name@) == Some((slot, true)));
    assert(expr_code(st3.scopes, Expression::Number(m)) == Ok::<Seq<char>, CompileError>(const_line(m as int)));
}

/// The entry routine's result: when the program's last top-level statement is
/// a bare expression, every other statement is generated as usual and that
/// expression's value is left, not dropped; otherwise, also when the program
/// ends in a function declaration or is empty, all statements are generated as
/// usual and the result is 0.
pub proof fn law_program_result(st: GenState, body: Seq<Statement>)
    ensures
        ends_in_expression(body) ==> {
            let ms = mains(body);
            &&& ms.len() > 0
            &&& ms.last() == body.last()
            &&& main_code(st, ms, true) == match block_code(st, ms, ms.len() - 1, true) {
                Err(e) => Err(e),
                Ok(st1) => match expr_code(st1.scopes, body.last()->Expression_0) {
                    Err(e) => Err(e),
                    Ok(b) => Ok::<GenState, CompileError>(emit(st1, b)),
                },
            }
        },
        !ends_in_expression(body) ==> main_code(st, mains(body), false) == match block_code(
            st,
            mains(body),
            mains(body).len() as int,
            true,
        ) {
            Err(e) => Err(e),
            Ok(st1) => Ok::<GenState, CompileError>(emit(st1, "    i32.const 0\n"@)),
        },
{
}

/// Elsewhere a bare expression statement discards its value.
pub proof fn law_expression_statement_drops(st: GenState, e: Expression, reg: bool)
    requires
        expr_code(st.scopes, e) is Ok,
    ensures
        stmt_code(st, Statement::Expression(e), reg) == Ok::<GenState, CompileError>(
            emit(st, expr_code(st.scopes, e)->Ok_0 + "    drop\n"@),
        ),
{
}

/// The top-level function declarations, in order.
pub open spec fn functions_of(body: Seq<Statement>) -> Seq<Statement>
    decreases body.len(),
{
    if body.len() == 0 {
        seq![]
    } else if body.last() is FunctionDeclaration {
        functions_of(body.drop_last()).push(body.last())
    } else {
        functions_of(body.drop_last())
    }
}

proof fn lemma_funcs_prefix(st: GenState, s1: Seq<Statement>, s2: Seq<Statement>, n: int)
    requires
        0 <= n <= s1.len(),
        n <= s2.len(),
        forall|k: int| 0 <= k < n ==> s1[k] == s2[k],
    ensures
        funcs_code(st, s1, n) == funcs_code(st, s2, n),
    decreases n,
{
    if n > 0 {
        lemma_funcs_prefix(st, s1, s2, n - 1);
    }
}

proof fn lemma_collect_prefix(sc: Scopes, locals: nat, s1: Seq<Statement>, s2: Seq<Statement>, n: int)
    requires
        0 <= n <= s1.len(),
        n <= s2.len(),
        forall|k: int| 0 <= k < n ==> s1[k] == s2[k],
    ensures
        collect_list(sc, locals, s1, n) == collect_list(sc, locals, s2, n),
    decreases n,
{
    if n > 0 {
        lemma_collect_prefix(sc, locals, s1, s2, n - 1);
    }
}

/// The hoisting pass reads the function declarations alone.
proof fn lemma_funcs_only_functions(st: GenState, body: Seq<Statement>, n: int)
    requires
        0 <= n <= body.len(),
    ensures
        funcs_code(st, body, n) == funcs_code(
            st,
            functions_of(body.take(n)),
            functions_of(body.take(n)).len() as int,
        ),
    decreases n,
{
    let f = functions_of(body.take(n));
    if n == 0 {
        assert(body.take(0) =~= Seq::<Statement>::empty());
    } else {
        lemma_funcs_only_functions(st, body, n - 1);
        let g = functions_of(body.take(n - 1));
        assert(body.take(n).drop_last() =~= body.take(n - 1));
        assert(body.take(n).last() == body[n - 1]);
        if body[n - 1] is FunctionDeclaration {
            assert(f == g.push(body[n - 1]));
            lemma_funcs_prefix(st, f, g, g.len() as int);
            assert(f[g.len() as int] == body[n - 1]);
        } else {
            assert(f == g);
        }
    }
}

/// The pre-pass reads the statements that are not function declarations alone.
proof fn lemma_collect_only_mains(sc: Scopes, locals: nat, body: Seq<Statement>, n: int)
    requires
        0 <= n <= body.len(),
    ensures
        collect_list(sc, locals, body, n) == collect_list(sc, locals, mains(body.take(n)), mains(body.take(n)).len() as int),
    decreases n,
{
    let m = mains(body.take(n));
    if n == 0 {
        assert(body.take(0) =~= Seq::<Statement>::empty());
    } else {
        lemma_collect_only_mains(sc, locals, body, n - 1);
        let g = mains(body.take(n - 1));
        assert(body.take(n).drop_last() =~= body.take(n - 1));
        assert(body.take(n).last() == body[n - 1]);
        if body[n - 1] is FunctionDeclaration {
            assert(m == g);
            match collect_list(sc, locals, body, n - 1) {
                Ok((sc1, l1, a)) => {
                    assert(collect_stmt(sc1, l1, body[n - 1]) == Ok::<(Scopes, nat, Seq<Seq<char>>), CompileError>(
                        (sc1, l1, seq![]),
                    ));
                    assert(a + Seq::<Seq<char>>::empty() =~= a);
                },
                Err(_) => {},
            }
        } else {
            assert(m == g.push(body[n - 1]));
            lemma_collect_prefix(sc, locals, m, g, g.len() as int);
            assert(m[g.len() as int] == body[n - 1]);
        }
    }
}

proof fn lemma_ends_in_expression(body: Seq<Statement>)
    requires
        !(body.len() > 0 && body.last() is FunctionDeclaration),
    ensures
        ends_in_expression(body) == (mains(body).len() > 0 && mains(body).last() is Expression),
{
    if body.len() > 0 {
        assert(mains(body) == mains(body.drop_last()).push(body.last()));
    }
}

/// Declaration order at the top level does not matter: two programs with the
/// same function declarations in the same order and the same other statements
/// in the same order, interleaved in any way, generate the same text, provided
/// neither ends in a function declaration (which would change the result).
pub proof fn law_function_order(st: GenState, p: Seq<Statement>, q: Seq<Statement>)
    requires
        functions_of(p) == functions_of(q),
        mains(p) == mains(q),
        !(p.len() > 0 && p.last() is FunctionDeclaration),
        !(q.len() > 0 && q.last() is FunctionDeclaration),
    ensures
        program_code(st, p) == program_code(st, q),
{
    let st0 = emit(st, module_head());
    lemma_funcs_only_functions(st0, p, p.len() as int);
    lemma_funcs_only_functions(st0, q, q.len() as int);
    assert(p.take(p.len() as int) =~= p);
    assert(q.take(q.len() as int) =~= q);
    lemma_ends_in_expression(p);
    lemma_ends_in_expression(q);
    match funcs_code(st0, p, p.len() as int) {
        Ok(st1) => {
            let sth = emit(st1, main_head());
            lemma_collect_only_mains(sth.scopes, sth.locals, p, p.len() as int);
            lemma_collect_only_mains(sth.scopes, sth.locals, q, q.len() as int);
            assert(start_routine(sth, p) == start_routine(sth, q));
        },
        Err(_) => {},
    }
}

/// Labels are never reused: a statement takes labels only from the counter,
/// which only grows. A loop's own two labels are below the counter its body
/// starts from, so no label inside the body or after the loop repeats them.
pub proof fn law_labels_fresh(st: GenState, s: Statement, reg: bool)
    ensures
        stmt_code(st, s, reg) matches Ok(st2) ==> st2.labels >= st.labels,
        s matches Statement::While { condition, body } ==> (expr_code(st.scopes, condition) matches Ok(c) ==> ({
            let inner = GenState {
                out: st.out + loop_open(label_name("break"@, st.labels), label_name("continue"@, st.labels + 1)) + c
                    + loop_exit(label_name("break"@, st.labels)),
                labels: st.labels + 2,
                ..st
            };
            stmt_code(inner, *body, branch_registered(reg, *body)) matches Ok(st2) ==> st2.labels >= st.labels + 2
        })),
{
    lemma_stmt_code_scopes(st, s, reg);
    match s {
        Statement::While { condition, body } => match expr_code(st.scopes, condition) {
            Ok(c) => {
                let inner = GenState {
                    out: st.out + loop_open(label_name("break"@, st.labels), label_name("continue"@, st.labels + 1)) + c
                        + loop_exit(label_name("break"@, st.labels)),
                    labels: st.labels + 2,
                    ..st
                };
                lemma_stmt_code_scopes(inner, *body, branch_registered(reg, *body));
            },
            Err(_) => {},
        },
        _ => {},
    }
}

/// An operator whose operands are not both literals is emitted in full: the
/// left operand, the right operand, then the operator's instruction; an
/// operand that folded to a constant is not folded again with its sibling.
pub proof fn law_binary_unfolded(sc: Scopes, l: Expression, op: BinaryOp, r: Expression)
    requires
        !(l is Number && r is Number),
        expr_code(sc, l) is Ok,
        expr_code(sc, r) is Ok,
    ensures
        expr_code(sc, Expression::Binary(Box::new(l), op, Box::new(r))) == Ok::<Seq<char>, CompileError>(
            expr_code(sc, l)->Ok_0 + expr_code(sc, r)->Ok_0 + op_text(op),
        ),
{
}

/// Functions are hoisted: after the module header the generator emits the
/// program's function declarations alone, each once and in source order,
/// wherever they stand among the other statements; only then comes the entry
/// routine, with its locals and the other statements.
pub proof fn law_functions_first(st: GenState, body: Seq<Statement>)
    ensures
        program_code(st, body) == match funcs_code(
            emit(st, module_head()),
            functions_of(body),
            functions_of(body).len() as int,
        ) {
            Err(e) => Err(e),
            Ok(st1) => match start_routine(emit(st1, main_head()), body) {
                Err(e) => Err(e),
                Ok(st2) => match main_code(st2, mains(body), ends_in_expression(body)) {
                    Err(e) => Err(e),
                    Ok(st3) => Ok::<GenState, CompileError>(emit(st3, module_tail())),
                },
            },
        },
{
    lemma_funcs_only_functions(emit(st, module_head()), body, body.len() as int);
    assert(body.take(body.len() as int) =~= body);
}

} // verus!
