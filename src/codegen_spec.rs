use vstd::prelude::*;
use crate::ast::{strings_view, BinaryOp, Expression, Statement, UnaryOp};
use crate::error::CompileError;
use crate::text::{int_text, nat_text};

verus! {

/// One binding as the generator sees it: source name, generated slot, declared `const`.
pub type Slot = (Seq<char>, Seq<char>, bool);

/// The scope stack, outermost first; within a scope, later bindings shadow earlier ones.
pub type Scopes = Seq<Seq<Slot>>;

/// The abstract state of a code generator: the text so far, the scope stack,
/// the counters for slots and labels, the slots that the pre-pass gave the
/// routine being generated, and how many of them its declarations have taken.
pub struct GenState {
    pub out: Seq<char>,
    pub scopes: Scopes,
    pub locals: nat,
    pub labels: nat,
    pub slots: Seq<Seq<char>>,
    pub next: nat,
}

impl GenState {
    /// A generator that has emitted nothing, with one empty global scope.
    pub open spec fn fresh() -> GenState {
        GenState { out: seq![], scopes: seq![seq![]], locals: 0, labels: 0, slots: seq![], next: 0 }
    }
}

/// `st` with `t` appended to the text.
pub open spec fn emit(st: GenState, t: Seq<char>) -> GenState {
    GenState { out: st.out + t, ..st }
}

/// The newest binding of `name` in one scope.
pub open spec fn lookup_scope(scope: Seq<Slot>, name: Seq<char>) -> Option<(Seq<char>, bool)>
    decreases scope.len(),
{
    if scope.len() == 0 {
        None
    } else if scope.last().0 == name {
        Some((scope.last().1, scope.last().2))
    } else {
        lookup_scope(scope.drop_last(), name)
    }
}

/// Nearest-scope lookup: innermost scope first.
pub open spec fn lookup(scopes: Scopes, name: Seq<char>) -> Option<(Seq<char>, bool)>
    decreases scopes.len(),
{
    if scopes.len() == 0 {
        None
    } else {
        match lookup_scope(scopes.last(), name) {
            Some(b) => Some(b),
            None => lookup(scopes.drop_last(), name),
        }
    }
}

/// Adds a binding to the innermost scope.
pub open spec fn bind(scopes: Scopes, b: Slot) -> Scopes {
    if scopes.len() == 0 {
        scopes
    } else {
        scopes.update(scopes.len() - 1, scopes.last().push(b))
    }
}

/// The generated identifier of the `n`-th declared variable.
pub open spec fn slot_name(name: Seq<char>, n: nat) -> Seq<char> {
    "$"@ + name + "_"@ + nat_text(n)
}

/// The generated identifier of the `n`-th label, e.g. `$break_3`.
pub open spec fn label_name(prefix: Seq<char>, n: nat) -> Seq<char> {
    "$"@ + prefix + "_"@ + nat_text(n)
}

pub open spec fn const_line(n: int) -> Seq<char> {
    "    i32.const "@ + int_text(n) + "\n"@
}

/// Quotient rounded toward zero, as the target's signed division computes it.
pub open spec fn trunc_quot(a: int, b: int) -> int {
    let q = (if a < 0 { -a } else { a }) / (if b < 0 { -b } else { b });
    if (a < 0) == (b < 0) { q } else { -q }
}

/// Remainder of the division rounded toward zero: its sign is the dividend's.
pub open spec fn trunc_rem(a: int, b: int) -> int {
    let m = (if a < 0 { -a } else { a }) % (if b < 0 { -b } else { b });
    if a < 0 { -m } else { m }
}

/// The value of a binary operator on two literals, in wrapped 32-bit arithmetic;
/// division and remainder by zero give 0.
pub open spec fn fold_op(op: BinaryOp, l: i32, r: i32) -> i32 {
    match op {
        BinaryOp::Add => l.wrapping_add(r),
        BinaryOp::Sub => l.wrapping_sub(r),
        BinaryOp::Mul => l.wrapping_mul(r),
        BinaryOp::Div => if r == 0 {
            0
        } else if trunc_quot(l as int, r as int) > i32::MAX {
            i32::MIN
        } else {
            trunc_quot(l as int, r as int) as i32
        },
        BinaryOp::Mod => if r == 0 {
            0
        } else {
            trunc_rem(l as int, r as int) as i32
        },
        BinaryOp::Eq => if l == r { 1 } else { 0 },
        BinaryOp::Ne => if l != r { 1 } else { 0 },
        BinaryOp::Lt => if l < r { 1 } else { 0 },
        BinaryOp::Gt => if l > r { 1 } else { 0 },
        BinaryOp::Le => if l <= r { 1 } else { 0 },
        BinaryOp::Ge => if l >= r { 1 } else { 0 },
    }
}

/// The instruction line of a binary operator.
pub open spec fn op_text(op: BinaryOp) -> Seq<char> {
    match op {
        BinaryOp::Add => "    i32.add\n"@,
        BinaryOp::Sub => "    i32.sub\n"@,
        BinaryOp::Mul => "    i32.mul\n"@,
        BinaryOp::Div => "    i32.div_s\n"@,
        BinaryOp::Mod => "    i32.rem_s\n"@,
        BinaryOp::Eq => "    i32.eq\n"@,
        BinaryOp::Ne => "    i32.ne\n"@,
        BinaryOp::Lt => "    i32.lt_s\n"@,
        BinaryOp::Gt => "    i32.gt_s\n"@,
        BinaryOp::Le => "    i32.le_s\n"@,
        BinaryOp::Ge => "    i32.ge_s\n"@,
    }
}

/// The code of an expression: it leaves the expression's value on the stack.
pub open spec fn expr_code(sc: Scopes, e: Expression) -> Result<Seq<char>, CompileError>
    decreases e,
{
    match e {
        Expression::Number(n) => Ok(const_line(n as int)),
        Expression::Identifier(name) => match lookup(sc, name@) {
            None => Err(CompileError::UndefinedVariable { name }),
            Some(b) => Ok("    local.get "@ + b.0 + "\n"@),
        },
        Expression::Binary(l, op, r) => {
            if (*l is Number) && (*r is Number) {
                Ok(const_line(fold_op(op, l->Number_0, r->Number_0) as int))
            } else {
                match expr_code(sc, *l) {
                    Err(err) => Err(err),
                    Ok(a) => match expr_code(sc, *r) {
                        Err(err) => Err(err),
                        Ok(b) => Ok(a + b + op_text(op)),
                    },
                }
            }
        },
        Expression::Unary(op, x) => match expr_code(sc, *x) {
            Err(err) => Err(err),
            Ok(a) => match op {
                UnaryOp::Not => Ok(a + "    i32.eqz\n"@),
                UnaryOp::Neg => Ok("    i32.const 0\n"@ + a + "    i32.sub\n"@),
            },
        },
        Expression::Call(name, args) => match args_code(sc, args@, args@.len() as int) {
            Err(err) => Err(err),
            Ok(a) => Ok(a + "    call $"@ + name@ + "\n"@),
        },
        Expression::Assignment(name, v) => match expr_code(sc, *v) {
            Err(err) => Err(err),
            Ok(a) => match lookup(sc, name@) {
                None => Err(CompileError::UndefinedVariable { name }),
                Some(b) => if b.1 {
                    Err(CompileError::AssignmentToConstant { name })
                } else {
                    Ok(a + "    local.tee "@ + b.0 + "\n"@)
                },
            },
        },
    }
}

/// The code of the first `n` arguments of a call, left to right.
pub open spec fn args_code(sc: Scopes, args: Seq<Expression>, n: int) -> Result<Seq<char>, CompileError>
    decreases args, n,
{
    if n <= 0 || args.len() < n {
        Ok(seq![])
    } else {
        match args_code(sc, args, n - 1) {
            Err(err) => Err(err),
            Ok(a) => match expr_code(sc, args[n - 1]) {
                Err(err) => Err(err),
                Ok(b) => Ok(a + b),
            },
        }
    }
}

/// Opens the exit block and, inside it, the loop.
pub open spec fn loop_open(exit: Seq<char>, head: Seq<char>) -> Seq<char> {
    "    (block "@ + exit + "\n"@ + "      (loop "@ + head + "\n"@
}

/// Leaves the exit block when the condition on the stack is zero.
pub open spec fn loop_exit(exit: Seq<char>) -> Seq<char> {
    "        i32.eqz\n"@ + "        br_if "@ + exit + "\n"@
}

/// Branches back to the loop head, then closes the loop and the block.
pub open spec fn loop_close(head: Seq<char>) -> Seq<char> {
    "        br "@ + head + "\n"@ + "      )\n"@ + "    )\n"@
}

/// Whether a branch lies where the pre-pass looks: in registered position, and a block.
pub open spec fn branch_registered(reg: bool, s: Statement) -> bool {
    reg && s is Block
}

/// The generator after a statement. `reg` says whether the pre-pass reached the
/// statement: a declaration it reached takes the next of the routine's slots
/// (the one the pre-pass gave it) and binds its name to it again, so that from
/// there on the name means this declaration; one it did not reach stores into
/// the binding its name already has.
pub open spec fn stmt_code(st: GenState, s: Statement, reg: bool) -> Result<GenState, CompileError>
    decreases s,
{
    match s {
        Statement::VariableDeclaration { name, init, is_const } => match expr_code(st.scopes, init) {
            Err(err) => Err(err),
            Ok(a) => if reg && st.next < st.slots.len() {
                let slot = st.slots[st.next as int];
                Ok(GenState {
                    out: st.out + a + "    local.set "@ + slot + "\n"@,
                    scopes: bind(st.scopes, (name@, slot, is_const)),
                    next: st.next + 1,
                    ..st
                })
            } else {
                match lookup(st.scopes, name@) {
                    None => Err(CompileError::UndefinedVariable { name }),
                    Some(b) => Ok(emit(st, a + "    local.set "@ + b.0 + "\n"@)),
                }
            },
        },
        Statement::Expression(e) => match expr_code(st.scopes, e) {
            Err(err) => Err(err),
            Ok(a) => Ok(emit(st, a + "    drop\n"@)),
        },
        Statement::Return(v) => match v {
            None => Ok(emit(st, "    i32.const 0\n"@ + "    return\n"@)),
            Some(e) => match expr_code(st.scopes, e) {
                Err(err) => Err(err),
                Ok(a) => Ok(emit(st, a + "    return\n"@)),
            },
        },
        Statement::Block(ss) => block_code(st, ss@, ss@.len() as int, reg),
        Statement::If { condition, then_branch, else_branch } => match expr_code(st.scopes, condition) {
            Err(err) => Err(err),
            Ok(c) => match stmt_code(
                emit(st, c + "    (if\n"@ + "      (then\n"@),
                *then_branch,
                branch_registered(reg, *then_branch),
            ) {
                Err(err) => Err(err),
                Ok(st1) => match else_branch {
                    None => Ok(emit(st1, "      )\n"@ + "    )\n"@)),
                    Some(e) => match stmt_code(
                        emit(st1, "      )\n"@ + "      (else\n"@),
                        *e,
                        branch_registered(reg, *e),
                    ) {
                        Err(err) => Err(err),
                        Ok(st2) => Ok(emit(st2, "      )\n"@ + "    )\n"@)),
                    },
                },
            },
        },
        Statement::While { condition, body } => {
            if st.labels + 2 > usize::MAX {
                Err(CompileError::TooManyNames)
            } else {
                let exit = label_name("break"@, st.labels);
                let head = label_name("continue"@, st.labels + 1);
                match expr_code(st.scopes, condition) {
                    Err(err) => Err(err),
                    Ok(c) => match stmt_code(
                        GenState { out: st.out + loop_open(exit, head) + c + loop_exit(exit), labels: st.labels + 2, ..st },
                        *body,
                        branch_registered(reg, *body),
                    ) {
                        Err(err) => Err(err),
                        Ok(st1) => Ok(emit(st1, loop_close(head))),
                    },
                }
            }
        },
        Statement::FunctionDeclaration { .. } => Ok(st),
    }
}

/// The generator after the first `n` statements of a list, in order.
pub open spec fn block_code(st: GenState, ss: Seq<Statement>, n: int, reg: bool) -> Result<GenState, CompileError>
    decreases ss, n,
{
    if n <= 0 || ss.len() < n {
        Ok(st)
    } else {
        match block_code(st, ss, n - 1, reg) {
            Err(err) => Err(err),
            Ok(st1) => stmt_code(st1, ss[n - 1], reg),
        }
    }
}

/// Generating statements binds names in existing scopes and never adds or
/// removes a scope; the label counter only grows.
pub proof fn lemma_stmt_code_scopes(st: GenState, s: Statement, reg: bool)
    ensures
        stmt_code(st, s, reg) matches Ok(st2) ==> st2.scopes.len() == st.scopes.len() && st2.labels >= st.labels,
    decreases s,
{
    match s {
        Statement::Block(ss) => lemma_block_code_scopes(st, ss@, ss@.len() as int, reg),
        Statement::If { condition, then_branch, else_branch } => match expr_code(st.scopes, condition) {
            Ok(c) => {
                let st0 = emit(st, c + "    (if\n"@ + "      (then\n"@);
                lemma_stmt_code_scopes(st0, *then_branch, branch_registered(reg, *then_branch));
                match (stmt_code(st0, *then_branch, branch_registered(reg, *then_branch)), else_branch) {
                    (Ok(st1), Some(e)) => lemma_stmt_code_scopes(
                        emit(st1, "      )\n"@ + "      (else\n"@),
                        *e,
                        branch_registered(reg, *e),
                    ),
                    _ => {},
                }
            },
            Err(_) => {},
        },
        Statement::While { condition, body } => match expr_code(st.scopes, condition) {
            Ok(c) => {
                let exit = label_name("break"@, st.labels);
                let head = label_name("continue"@, st.labels + 1);
                lemma_stmt_code_scopes(
                    GenState { out: st.out + loop_open(exit, head) + c + loop_exit(exit), labels: st.labels + 2, ..st },
                    *body,
                    branch_registered(reg, *body),
                );
            },
            Err(_) => {},
        },
        _ => {},
    }
}

pub proof fn lemma_block_code_scopes(st: GenState, ss: Seq<Statement>, n: int, reg: bool)
    ensures
        block_code(st, ss, n, reg) matches Ok(st2) ==> st2.scopes.len() == st.scopes.len() && st2.labels >= st.labels,
    decreases ss, n,
{
    if n <= 0 || ss.len() < n {
    } else {
        lemma_block_code_scopes(st, ss, n - 1, reg);
        match block_code(st, ss, n - 1, reg) {
            Ok(st1) => lemma_stmt_code_scopes(st1, ss[n - 1], reg),
            Err(_) => {},
        }
    }
}

/// The locals pre-pass over the first `n` statements of a list: the scopes and
/// counter afterwards, and the slots declared, in order.
pub open spec fn collect_list(sc: Scopes, locals: nat, ss: Seq<Statement>, n: int) -> Result<(Scopes, nat, Seq<Seq<char>>), CompileError>
    decreases ss, n,
{
    if n <= 0 || ss.len() < n {
        Ok((sc, locals, seq![]))
    } else {
        match collect_list(sc, locals, ss, n - 1) {
            Err(err) => Err(err),
            Ok((sc1, l1, a)) => match collect_stmt(sc1, l1, ss[n - 1]) {
                Err(err) => Err(err),
                Ok((sc2, l2, b)) => Ok((sc2, l2, a + b)),
            },
        }
    }
}

/// The pre-pass over one statement: declarations, blocks, and the branches of
/// `if` and `while` that are blocks. Each declaration gets a fresh slot, and
/// its name is bound to that slot in the innermost scope.
pub open spec fn collect_stmt(sc: Scopes, locals: nat, s: Statement) -> Result<(Scopes, nat, Seq<Seq<char>>), CompileError>
    decreases s,
{
    match s {
        Statement::VariableDeclaration { name, is_const, .. } => {
            if locals + 1 > usize::MAX {
                Err(CompileError::TooManyNames)
            } else {
                let slot = slot_name(name@, locals);
                Ok((bind(sc, (name@, slot, is_const)), locals + 1, seq![slot]))
            }
        },
        Statement::Block(inner) => collect_list(sc, locals, inner@, inner@.len() as int),
        Statement::If { then_branch, else_branch, .. } => match collect_branch(sc, locals, *then_branch) {
            Err(err) => Err(err),
            Ok((sc1, l1, a)) => match else_branch {
                None => Ok((sc1, l1, a)),
                Some(e) => match collect_branch(sc1, l1, *e) {
                    Err(err) => Err(err),
                    Ok((sc2, l2, b)) => Ok((sc2, l2, a + b)),
                },
            },
        },
        Statement::While { body, .. } => collect_branch(sc, locals, *body),
        _ => Ok((sc, locals, seq![])),
    }
}

/// The pre-pass over a branch: only a block branch is scanned.
pub open spec fn collect_branch(sc: Scopes, locals: nat, s: Statement) -> Result<(Scopes, nat, Seq<Seq<char>>), CompileError>
    decreases s,
{
    match s {
        Statement::Block(inner) => collect_list(sc, locals, inner@, inner@.len() as int),
        _ => Ok((sc, locals, seq![])),
    }
}

/// The pre-pass adds bindings to existing scopes and never adds or removes a scope.
pub proof fn lemma_collect_list_scopes(sc: Scopes, locals: nat, ss: Seq<Statement>, n: int)
    ensures
        collect_list(sc, locals, ss, n) matches Ok((sc2, _, _)) ==> sc2.len() == sc.len(),
    decreases ss, n,
{
    if n <= 0 || ss.len() < n {
    } else {
        lemma_collect_list_scopes(sc, locals, ss, n - 1);
        match collect_list(sc, locals, ss, n - 1) {
            Ok((sc1, l1, _)) => lemma_collect_stmt_scopes(sc1, l1, ss[n - 1]),
            Err(_) => {},
        }
    }
}

pub proof fn lemma_collect_stmt_scopes(sc: Scopes, locals: nat, s: Statement)
    ensures
        collect_stmt(sc, locals, s) matches Ok((sc2, _, _)) ==> sc2.len() == sc.len(),
    decreases s,
{
    match s {
        Statement::Block(inner) => lemma_collect_list_scopes(sc, locals, inner@, inner@.len() as int),
        Statement::If { then_branch, else_branch, .. } => {
            lemma_collect_branch_scopes(sc, locals, *then_branch);
            match collect_branch(sc, locals, *then_branch) {
                Ok((sc1, l1, _)) => match else_branch {
                    Some(e) => lemma_collect_branch_scopes(sc1, l1, *e),
                    None => {},
                },
                Err(_) => {},
            }
        },
        Statement::While { body, .. } => lemma_collect_branch_scopes(sc, locals, *body),
        _ => {},
    }
}

pub proof fn lemma_collect_branch_scopes(sc: Scopes, locals: nat, s: Statement)
    ensures
        collect_branch(sc, locals, s) matches Ok((sc2, _, _)) ==> sc2.len() == sc.len(),
    decreases s,
{
    match s {
        Statement::Block(inner) => lemma_collect_list_scopes(sc, locals, inner@, inner@.len() as int),
        _ => {},
    }
}

/// The scope of a function's parameters: each bound to `$name`, mutable.
pub open spec fn param_scope(ps: Seq<Seq<char>>) -> Seq<Slot>
    decreases ps.len(),
{
    if ps.len() == 0 {
        seq![]
    } else {
        param_scope(ps.drop_last()).push((ps.last(), "$"@ + ps.last(), false))
    }
}

pub open spec fn params_text(ps: Seq<Seq<char>>) -> Seq<char>
    decreases ps.len(),
{
    if ps.len() == 0 {
        seq![]
    } else {
        params_text(ps.drop_last()) + "(param "@ + "$"@ + ps.last() + " i32) "@
    }
}

pub open spec fn locals_text(names: Seq<Seq<char>>) -> Seq<char>
    decreases names.len(),
{
    if names.len() == 0 {
        seq![]
    } else {
        locals_text(names.drop_last()) + "    (local "@ + names.last() + " i32)\n"@
    }
}

/// Runs the pre-pass over a routine's body in the innermost scope: every
/// declaration it reaches gets a slot and its name is registered there, so a
/// name can be used before its declaration. The text gets a local line for
/// each slot, and the body's declarations will take the slots in order.
pub open spec fn start_routine(st: GenState, body: Seq<Statement>) -> Result<GenState, CompileError> {
    match collect_list(st.scopes, st.locals, body, body.len() as int) {
        Err(err) => Err(err),
        Ok((sc1, l1, names)) => Ok(GenState {
            out: st.out + locals_text(names),
            scopes: sc1,
            locals: l1,
            slots: names,
            next: 0,
            ..st
        }),
    }
}

/// The generator after one function definition; its scope is gone afterwards.
pub open spec fn func_code(st: GenState, name: Seq<char>, ps: Seq<Seq<char>>, body: Seq<Statement>) -> Result<GenState, CompileError> {
    let head = "  (func $"@ + name + " "@ + params_text(ps) + "(result i32)\n"@;
    match start_routine(GenState { out: st.out + head, scopes: st.scopes.push(param_scope(ps)), ..st }, body) {
        Err(err) => Err(err),
        Ok(st1) => match block_code(st1, body, body.len() as int, true) {
            Err(err) => Err(err),
            Ok(st2) => Ok(GenState {
                out: st2.out + "    i32.const 0\n"@ + "  )\n"@,
                scopes: st2.scopes.drop_last(),
                ..st2
            }),
        },
    }
}

/// The generator after the function declarations among the first `n`
/// top-level statements, in order.
pub open spec fn funcs_code(st: GenState, body: Seq<Statement>, n: int) -> Result<GenState, CompileError>
    decreases n,
{
    if n <= 0 || body.len() < n {
        Ok(st)
    } else {
        match funcs_code(st, body, n - 1) {
            Err(err) => Err(err),
            Ok(st1) => match body[n - 1] {
                Statement::FunctionDeclaration { name, params, body: fbody } => func_code(
                    st1,
                    name@,
                    strings_view(params@),
                    fbody@,
                ),
                _ => Ok(st1),
            },
        }
    }
}

/// The top-level statements that are not function declarations, in order.
pub open spec fn mains(body: Seq<Statement>) -> Seq<Statement>
    decreases body.len(),
{
    if body.len() == 0 {
        seq![]
    } else if body.last() is FunctionDeclaration {
        mains(body.drop_last())
    } else {
        mains(body.drop_last()).push(body.last())
    }
}

/// Whether a program's last top-level statement is a bare expression, whose
/// value then becomes the program's result.
pub open spec fn ends_in_expression(body: Seq<Statement>) -> bool {
    body.len() > 0 && body.last() is Expression
}

/// The entry routine's statements `ms`: with `keep`, the last one is a bare
/// expression whose value stays as the result; otherwise every statement is
/// generated as usual and the result is 0.
pub open spec fn main_code(st: GenState, ms: Seq<Statement>, keep: bool) -> Result<GenState, CompileError> {
    if keep && ms.len() > 0 && ms.last() is Expression {
        match block_code(st, ms, ms.len() - 1, true) {
            Err(err) => Err(err),
            Ok(st1) => match expr_code(st1.scopes, ms.last()->Expression_0) {
                Err(err) => Err(err),
                Ok(b) => Ok(emit(st1, b)),
            },
        }
    } else {
        match block_code(st, ms, ms.len() as int, true) {
            Err(err) => Err(err),
            Ok(st1) => Ok(emit(st1, "    i32.const 0\n"@)),
        }
    }
}

pub open spec fn module_head() -> Seq<char> {
    "(module\n"@
}

pub open spec fn main_head() -> Seq<char> {
    "  (func $main (result i32)\n"@
}

pub open spec fn module_tail() -> Seq<char> {
    "  )\n"@ + "  (export \"_start\" (func $main))\n"@ + ")\n"@
}

/// A whole program: hoisted functions, then the entry routine with its locals.
pub open spec fn program_code(st: GenState, body: Seq<Statement>) -> Result<GenState, CompileError> {
    match funcs_code(emit(st, module_head()), body, body.len() as int) {
        Err(err) => Err(err),
        Ok(st1) => match start_routine(emit(st1, main_head()), body) {
            Err(err) => Err(err),
            Ok(st2) => match main_code(st2, mains(body), ends_in_expression(body)) {
                Err(err) => Err(err),
                Ok(st3) => Ok(emit(st3, module_tail())),
            },
        },
    }
}

} // verus!
