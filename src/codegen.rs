use vstd::prelude::*;
use crate::ast::{strings_view, BinaryOp, Expression, Program, Statement, UnaryOp};
use crate::codegen_spec::{
    args_code, bind, block_code, collect_branch, collect_list, collect_stmt, const_line, emit, expr_code, fold_op,
    func_code, funcs_code, label_name, lemma_block_code_scopes, locals_text, lookup, lookup_scope, loop_close,
    loop_exit, loop_open, mains, op_text, param_scope, params_text, program_code, slot_name, start_routine,
    stmt_code, trunc_quot, trunc_rem, lemma_collect_list_scopes, GenState, Scopes, Slot,
};
use crate::error::CompileError;
use crate::text::{i32_text, usize_text};

verus! {

/// A declared name, the identifier of its slot, and whether it is `const`.
pub struct Binding {
    pub name: String,
    pub slot: String,
    pub is_const: bool,
}

impl View for Binding {
    type V = Slot;

    open spec fn view(&self) -> Slot {
        (self.name@, self.slot@, self.is_const)
    }
}

/// The two states agree, the output compared character by character.
pub open spec fn same_state(a: GenState, b: GenState) -> bool {
    &&& a.out =~= b.out
    &&& a.scopes == b.scopes
    &&& a.locals == b.locals
    &&& a.labels == b.labels
    &&& a.slots == b.slots
    &&& a.next == b.next
}

proof fn lemma_same_state(a: GenState, b: GenState)
    requires
        same_state(a, b),
    ensures
        a == b,
{
    assert(a.out == b.out);
}

/// `s1` is `s0` with `t` appended to the output and nothing else changed.
pub open spec fn emitted(s0: GenState, s1: GenState, t: Seq<char>) -> bool {
    same_state(s1, emit(s0, t))
}

pub open spec fn scope_view(s: Seq<Binding>) -> Seq<Slot> {
    s.map_values(|b: Binding| b@)
}

pub open spec fn scopes_view(s: Seq<Vec<Binding>>) -> Scopes {
    s.map_values(|v: Vec<Binding>| scope_view(v@))
}

/// Walks a program and emits the text of a stack-machine module.
pub struct CodeGenerator {
    output: String,
    scopes: Vec<Vec<Binding>>,
    local_counter: usize,
    label_counter: usize,
    slots: Vec<String>,
    next_slot: usize,
}

impl View for CodeGenerator {
    type V = GenState;

    closed spec fn view(&self) -> GenState {
        GenState {
            out: self.output@,
            scopes: scopes_view(self.scopes@),
            locals: self.local_counter as nat,
            labels: self.label_counter as nat,
            slots: strings_view(self.slots@),
            next: self.next_slot as nat,
        }
    }
}

fn find_in_scope(scope: &Vec<Binding>, n: usize, name: &String) -> (r: Option<(String, bool)>)
    requires
        n <= scope@.len(),
    ensures
        match lookup_scope(scope_view(scope@).take(n as int), name@) {
            None => r is None,
            Some(b) => r matches Some(p) && p.0@ == b.0 && p.1 == b.1,
        },
    decreases n,
{
    let ghost sv = scope_view(scope@);
    assert(sv.take(n as int).len() == n);
    if n == 0 {
        None
    } else {
        assert(sv.take(n as int).drop_last() =~= sv.take(n - 1));
        if scope[n - 1].name == *name {
            Some((scope[n - 1].slot.clone(), scope[n - 1].is_const))
        } else {
            find_in_scope(scope, n - 1, name)
        }
    }
}

fn find_binding(scopes: &Vec<Vec<Binding>>, n: usize, name: &String) -> (r: Option<(String, bool)>)
    requires
        n <= scopes@.len(),
    ensures
        match lookup(scopes_view(scopes@).take(n as int), name@) {
            None => r is None,
            Some(b) => r matches Some(p) && p.0@ == b.0 && p.1 == b.1,
        },
    decreases n,
{
    let ghost sv = scopes_view(scopes@);
    if n == 0 {
        None
    } else {
        assert(sv.take(n as int).drop_last() =~= sv.take(n - 1));
        assert(scope_view(scopes@[n - 1]@).take(scopes@[n - 1]@.len() as int) =~= scope_view(scopes@[n - 1]@));
        let r = find_in_scope(&scopes[n - 1], scopes[n - 1].len(), name);
        if r.is_some() {
            r
        } else {
            find_binding(scopes, n - 1, name)
        }
    }
}

fn magnitude(a: i32) -> (m: u64)
    ensures
        m as int == if a < 0 { -a } else { a as int },
{
    if a < 0 {
        (-(a as i64)) as u64
    } else {
        a as u64
    }
}

/// Evaluates a binary operator on two literals, as the folded constant.
fn fold_value(op: BinaryOp, l: i32, r: i32) -> (v: i32)
    ensures
        v == fold_op(op, l, r),
{
    match op {
        BinaryOp::Add => l.wrapping_add(r),
        BinaryOp::Sub => l.wrapping_sub(r),
        BinaryOp::Mul => l.wrapping_mul(r),
        BinaryOp::Div => {
            if r == 0 {
                0
            } else {
                let ml = magnitude(l);
                let mr = magnitude(r);
                let q = ml / mr;
                assert(q <= ml) by (nonlinear_arith)
                    requires mr >= 1, q == ml / mr;
                let sq: i64 = if (l < 0) == (r < 0) {
                    q as i64
                } else {
                    -(q as i64)
                };
                assert(sq == trunc_quot(l as int, r as int));
                if sq > i32::MAX as i64 {
                    i32::MIN
                } else {
                    sq as i32
                }
            }
        },
        BinaryOp::Mod => {
            if r == 0 {
                0
            } else {
                let mr = magnitude(r);
                let m = magnitude(l) % mr;
                assert(m < mr);
                let sm: i64 = if l < 0 {
                    -(m as i64)
                } else {
                    m as i64
                };
                assert(sm == trunc_rem(l as int, r as int));
                sm as i32
            }
        },
        BinaryOp::Eq => if l == r { 1 } else { 0 },
        BinaryOp::Ne => if l != r { 1 } else { 0 },
        BinaryOp::Lt => if l < r { 1 } else { 0 },
        BinaryOp::Gt => if l > r { 1 } else { 0 },
        BinaryOp::Le => if l <= r { 1 } else { 0 },
        BinaryOp::Ge => if l >= r { 1 } else { 0 },
    }
}

fn op_line(op: BinaryOp) -> (s: &'static str)
    ensures
        s@ == op_text(op),
{
    match op {
        BinaryOp::Add => "    i32.add\n",
        BinaryOp::Sub => "    i32.sub\n",
        BinaryOp::Mul => "    i32.mul\n",
        BinaryOp::Div => "    i32.div_s\n",
        BinaryOp::Mod => "    i32.rem_s\n",
        BinaryOp::Eq => "    i32.eq\n",
        BinaryOp::Ne => "    i32.ne\n",
        BinaryOp::Lt => "    i32.lt_s\n",
        BinaryOp::Gt => "    i32.gt_s\n",
        BinaryOp::Le => "    i32.le_s\n",
        BinaryOp::Ge => "    i32.ge_s\n",
    }
}

/// `idx` lists, in order, the positions in `body` of the statements that are
/// not function declarations.
pub open spec fn selects(body: Seq<Statement>, idx: Seq<usize>) -> bool {
    &&& idx.len() == mains(body).len()
    &&& forall|j: int| 0 <= j < idx.len() ==> idx[j] < body.len() && body[idx[j] as int] == #[trigger] mains(body)[j]
}

fn main_indices(body: &Vec<Statement>) -> (idx: Vec<usize>)
    ensures
        selects(body@, idx@),
{
    let mut idx: Vec<usize> = Vec::new();
    let ghost mut ms: Seq<Statement> = seq![];
    let mut i: usize = 0;
    while i < body.len()
        invariant
            i <= body@.len(),
            ms == mains(body@.take(i as int)),
            idx@.len() == ms.len(),
            forall|j: int| 0 <= j < idx@.len() ==> #[trigger] idx@[j] < i,
            forall|j: int| 0 <= j < ms.len() ==> body@[idx@[j] as int] == #[trigger] ms[j],
        decreases body@.len() - i,
    {
        assert(body@.take(i + 1).drop_last() =~= body@.take(i as int));
        assert(body@.take(i + 1).last() == body@[i as int]);
        if !matches!(body[i], Statement::FunctionDeclaration { .. }) {
            idx.push(i);
            proof {
                ms = ms.push(body@[i as int]);
            }
        }
        assert(ms == mains(body@.take(i + 1)));
        i = i + 1;
    }
    assert(body@.take(i as int) =~= body@);
    idx
}

impl Default for CodeGenerator {
    fn default() -> (r: CodeGenerator)
        ensures
            r@ == GenState::fresh(),
    {
        CodeGenerator::new()
    }
}

impl CodeGenerator {
    pub fn new() -> (r: CodeGenerator)
        ensures
            r@ == GenState::fresh(),
    {
        let r = CodeGenerator {
            output: String::new(),
            scopes: vec![Vec::new()],
            local_counter: 0,
            label_counter: 0,
            slots: Vec::new(),
            next_slot: 0,
        };
        assert(r@.scopes =~~= GenState::fresh().scopes);
        assert(r@.slots =~= GenState::fresh().slots);
        r
    }

    fn enter_scope(&mut self)
        ensures
            final(self)@ == (GenState { scopes: old(self)@.scopes.push(seq![]), ..old(self)@ }),
    {
        self.scopes.push(Vec::new());
        assert(self@.scopes =~~= old(self)@.scopes.push(seq![]));
    }

    fn exit_scope(&mut self)
        requires
            old(self)@.scopes.len() > 0,
        ensures
            final(self)@ == (GenState { scopes: old(self)@.scopes.drop_last(), ..old(self)@ }),
    {
        let _ = self.scopes.pop();
        assert(self@.scopes =~= old(self)@.scopes.drop_last());
    }

    fn bind_local(&mut self, b: Binding)
        ensures
            final(self)@ == (GenState { scopes: bind(old(self)@.scopes, b@), ..old(self)@ }),
    {
        match self.scopes.pop() {
            Some(mut last) => {
                last.push(b);
                self.scopes.push(last);
                assert(self@.scopes =~~= bind(old(self)@.scopes, b@));
            },
            None => {},
        }
    }

    /// Names a fresh slot for a declaration of `name` and binds the name to it
    /// in the innermost scope.
    fn declare_local(&mut self, name: &String, is_const: bool) -> (r: Result<String, CompileError>)
        ensures
            old(self)@.locals + 1 > usize::MAX ==> r == Err::<String, CompileError>(CompileError::TooManyNames)
                && final(self)@ == old(self)@,
            old(self)@.locals + 1 <= usize::MAX ==> r is Ok && r->Ok_0@ == slot_name(name@, old(self)@.locals)
                && final(self)@ == (GenState {
                    scopes: bind(old(self)@.scopes, (name@, slot_name(name@, old(self)@.locals), is_const)),
                    locals: old(self)@.locals + 1,
                    ..old(self)@
                }),
    {
        if self.local_counter == usize::MAX {
            return Err(CompileError::TooManyNames);
        }
        let mut slot = String::from_str("$");
        slot.append(name.as_str());
        slot.append("_");
        let n = usize_text(self.local_counter);
        slot.append(n.as_str());
        self.local_counter = self.local_counter + 1;
        let b = Binding { name: name.clone(), slot: slot.clone(), is_const };
        self.bind_local(b);
        Ok(slot)
    }

    fn get_local(&self, name: &String) -> (r: Option<(String, bool)>)
        ensures
            match lookup(self@.scopes, name@) {
                None => r is None,
                Some(b) => r matches Some(p) && p.0@ == b.0 && p.1 == b.1,
            },
    {
        assert(scopes_view(self.scopes@).take(self.scopes@.len() as int) =~= self@.scopes);
        find_binding(&self.scopes, self.scopes.len(), name)
    }

    fn new_label(&mut self, prefix: &str) -> (r: String)
        requires
            old(self)@.labels < usize::MAX,
        ensures
            r@ == label_name(prefix@, old(self)@.labels),
            final(self)@ == (GenState { labels: old(self)@.labels + 1, ..old(self)@ }),
    {
        let mut label = String::from_str("$");
        label.append(prefix);
        label.append("_");
        let n = usize_text(self.label_counter);
        label.append(n.as_str());
        self.label_counter = self.label_counter + 1;
        label
    }

    fn emit_const(&mut self, n: i32)
        ensures
            emitted(old(self)@, final(self)@, const_line(n as int)),
    {
        self.emit("    i32.const ");
        let t = i32_text(n);
        self.emit(t.as_str());
        self.emit("\n");
    }

    fn generate_expression(&mut self, expr: &Expression) -> (r: Result<(), CompileError>)
        ensures
            match expr_code(old(self)@.scopes, *expr) {
                Ok(t) => r is Ok && emitted(old(self)@, final(self)@, t),
                Err(e) => r == Err::<(), CompileError>(e),
            },
        decreases expr,
    {
        match expr {
            Expression::Number(n) => {
                self.emit_const(*n);
                Ok(())
            },
            Expression::Identifier(name) => match self.get_local(name) {
                None => Err(CompileError::UndefinedVariable { name: name.clone() }),
                Some((slot, _)) => {
                    self.emit("    local.get ");
                    self.emit(slot.as_str());
                    self.emit("\n");
                    Ok(())
                },
            },
            Expression::Binary(left, op, right) => {
                match (&**left, &**right) {
                    (Expression::Number(l), Expression::Number(r)) => {
                        let v = fold_value(*op, *l, *r);
                        self.emit_const(v);
                        return Ok(());
                    },
                    _ => {},
                }
                self.generate_expression(left)?;
                self.generate_expression(right)?;
                self.emit(op_line(*op));
                Ok(())
            },
            Expression::Unary(op, operand) => match op {
                UnaryOp::Not => {
                    self.generate_expression(operand)?;
                    self.emit("    i32.eqz\n");
                    Ok(())
                },
                UnaryOp::Neg => {
                    self.emit("    i32.const 0\n");
                    self.generate_expression(operand)?;
                    self.emit("    i32.sub\n");
                    Ok(())
                },
            },
            Expression::Call(name, args) => {
                self.generate_args(args, args.len())?;
                self.emit("    call $");
                self.emit(name.as_str());
                self.emit("\n");
                Ok(())
            },
            Expression::Assignment(name, value) => {
                self.generate_expression(value)?;
                match self.get_local(name) {
                    None => Err(CompileError::UndefinedVariable { name: name.clone() }),
                    Some((slot, is_const)) => {
                        if is_const {
                            return Err(CompileError::AssignmentToConstant { name: name.clone() });
                        }
                        self.emit("    local.tee ");
                        self.emit(slot.as_str());
                        self.emit("\n");
                        Ok(())
                    },
                }
            },
        }
    }

    /// Emits the first `n` arguments of a call, left to right.
    fn generate_args(&mut self, args: &Vec<Expression>, n: usize) -> (r: Result<(), CompileError>)
        requires
            n <= args@.len(),
        ensures
            match args_code(old(self)@.scopes, args@, n as int) {
                Ok(t) => r is Ok && emitted(old(self)@, final(self)@, t),
                Err(e) => r == Err::<(), CompileError>(e),
            },
        decreases args@, n,
    {
        if n == 0 {
            return Ok(());
        }
        self.generate_args(args, n - 1)?;
        self.generate_expression(&args[n - 1])?;
        Ok(())
    }

    /// Emits a statement. `reg` says whether the locals pre-pass reached it.
    fn generate_statement(&mut self, stmt: &Statement, reg: bool) -> (r: Result<(), CompileError>)
        ensures
            match stmt_code(old(self)@, *stmt, reg) {
                Ok(st) => r is Ok && same_state(final(self)@, st),
                Err(e) => r == Err::<(), CompileError>(e),
            },
        decreases stmt, 1nat,
    {
        match stmt {
            Statement::VariableDeclaration { name, init, is_const } => {
                self.generate_expression(init)?;
                if reg && self.next_slot < self.slots.len() {
                    let slot = self.slots[self.next_slot].clone();
                    self.emit("    local.set ");
                    self.emit(slot.as_str());
                    self.emit("\n");
                    self.bind_local(Binding { name: name.clone(), slot, is_const: *is_const });
                    self.next_slot = self.next_slot + 1;
                    Ok(())
                } else {
                    match self.get_local(name) {
                        None => Err(CompileError::UndefinedVariable { name: name.clone() }),
                        Some((slot, _)) => {
                            self.emit("    local.set ");
                            self.emit(slot.as_str());
                            self.emit("\n");
                            Ok(())
                        },
                    }
                }
            },
            Statement::Expression(expr) => {
                self.generate_expression(expr)?;
                self.emit("    drop\n");
                Ok(())
            },
            Statement::Return(value) => {
                match value {
                    Some(e) => {
                        self.generate_expression(e)?;
                    },
                    None => {
                        self.emit("    i32.const 0\n");
                    },
                }
                self.emit("    return\n");
                Ok(())
            },
            Statement::Block(stmts) => self.generate_block(stmts, stmts.len(), reg),
            Statement::If { .. } => self.generate_if(stmt, reg),
            Statement::While { .. } => self.generate_while(stmt, reg),
            Statement::FunctionDeclaration { .. } => Ok(()),
        }
    }

    fn generate_if(&mut self, stmt: &Statement, reg: bool) -> (r: Result<(), CompileError>)
        requires
            stmt is If,
        ensures
            match stmt_code(old(self)@, *stmt, reg) {
                Ok(st) => r is Ok && same_state(final(self)@, st),
                Err(e) => r == Err::<(), CompileError>(e),
            },
        decreases stmt, 0nat,
    {
        let Statement::If { condition, then_branch, else_branch } = stmt else {
            return Ok(());
        };
        let ghost s0 = self@;
        self.generate_expression(condition)?;
        self.emit("    (if\n");
        self.emit("      (then\n");
        proof {
            let c = expr_code(s0.scopes, *condition)->Ok_0;
            lemma_same_state(self@, emit(s0, c + "    (if\n"@ + "      (then\n"@));
        }
        let then_reg = reg && matches!(**then_branch, Statement::Block(_));
        self.generate_statement(then_branch, then_reg)?;
        let ghost s1 = self@;
        self.emit("      )\n");
        match else_branch {
            Some(e) => {
                self.emit("      (else\n");
                proof {
                    lemma_same_state(self@, emit(s1, "      )\n"@ + "      (else\n"@));
                }
                let else_reg = reg && matches!(**e, Statement::Block(_));
                self.generate_statement(e, else_reg)?;
                let ghost s2 = self@;
                self.emit("      )\n");
                self.emit("    )\n");
                assert(self@.out =~= emit(s2, "      )\n"@ + "    )\n"@).out);
            },
            None => {
                self.emit("    )\n");
                assert(self@.out =~= emit(s1, "      )\n"@ + "    )\n"@).out);
            },
        }
        Ok(())
    }

    fn generate_while(&mut self, stmt: &Statement, reg: bool) -> (r: Result<(), CompileError>)
        requires
            stmt is While,
        ensures
            match stmt_code(old(self)@, *stmt, reg) {
                Ok(st) => r is Ok && same_state(final(self)@, st),
                Err(e) => r == Err::<(), CompileError>(e),
            },
        decreases stmt, 0nat,
    {
        let Statement::While { condition, body } = stmt else {
            return Ok(());
        };
        if self.label_counter >= usize::MAX - 1 {
            return Err(CompileError::TooManyNames);
        }
        let exit = self.new_label("break");
        let head = self.new_label("continue");
        self.emit_loop_open(&exit, &head);
        self.generate_expression(condition)?;
        self.emit_loop_exit(&exit);
        let body_reg = reg && matches!(**body, Statement::Block(_));
        self.generate_statement(body, body_reg)?;
        self.emit_loop_close(&head);
        Ok(())
    }

    /// Emits the first `n` statements of a list, in order.
    fn generate_block(&mut self, stmts: &Vec<Statement>, n: usize, reg: bool) -> (r: Result<(), CompileError>)
        requires
            n <= stmts@.len(),
        ensures
            match block_code(old(self)@, stmts@, n as int, reg) {
                Ok(st) => r is Ok && same_state(final(self)@, st),
                Err(e) => r == Err::<(), CompileError>(e),
            },
        decreases stmts@, n,
    {
        if n == 0 {
            return Ok(());
        }
        self.generate_block(stmts, n - 1, reg)?;
        self.generate_statement(&stmts[n - 1], reg)
    }

    /// The locals pre-pass over the first `n` statements of a list.
    fn collect_locals(&mut self, stmts: &Vec<Statement>, n: usize) -> (r: Result<Vec<String>, CompileError>)
        requires
            n <= stmts@.len(),
        ensures
            match collect_list(old(self)@.scopes, old(self)@.locals, stmts@, n as int) {
                Ok((sc, l, names)) => r is Ok && strings_view(r->Ok_0@) =~= names
                    && final(self)@ == (GenState { scopes: sc, locals: l, ..old(self)@ }),
                Err(e) => r == Err::<Vec<String>, CompileError>(e),
            },
        decreases stmts@, n,
    {
        if n == 0 {
            return Ok(Vec::new());
        }
        let mut a = self.collect_locals(stmts, n - 1)?;
        let mut b = self.collect_stmt_locals(&stmts[n - 1])?;
        a.append(&mut b);
        Ok(a)
    }

    fn collect_stmt_locals(&mut self, stmt: &Statement) -> (r: Result<Vec<String>, CompileError>)
        ensures
            match collect_stmt(old(self)@.scopes, old(self)@.locals, *stmt) {
                Ok((sc, l, names)) => r is Ok && strings_view(r->Ok_0@) =~= names
                    && final(self)@ == (GenState { scopes: sc, locals: l, ..old(self)@ }),
                Err(e) => r == Err::<Vec<String>, CompileError>(e),
            },
        decreases stmt,
    {
        match stmt {
            Statement::VariableDeclaration { name, is_const, .. } => {
                let slot = self.declare_local(name, *is_const)?;
                Ok(vec![slot])
            },
            Statement::Block(inner) => self.collect_locals(inner, inner.len()),
            Statement::If { then_branch, else_branch, .. } => {
                let mut a = self.collect_branch_locals(then_branch)?;
                match else_branch {
                    Some(e) => {
                        let mut b = self.collect_branch_locals(e)?;
                        a.append(&mut b);
                    },
                    None => {},
                }
                Ok(a)
            },
            Statement::While { body, .. } => self.collect_branch_locals(body),
            _ => Ok(Vec::new()),
        }
    }

    fn collect_branch_locals(&mut self, stmt: &Statement) -> (r: Result<Vec<String>, CompileError>)
        ensures
            match collect_branch(old(self)@.scopes, old(self)@.locals, *stmt) {
                Ok((sc, l, names)) => r is Ok && strings_view(r->Ok_0@) =~= names
                    && final(self)@ == (GenState { scopes: sc, locals: l, ..old(self)@ }),
                Err(e) => r == Err::<Vec<String>, CompileError>(e),
            },
        decreases stmt,
    {
        match stmt {
            Statement::Block(inner) => self.collect_locals(inner, inner.len()),
            _ => Ok(Vec::new()),
        }
    }

    fn emit_locals(&mut self, names: &Vec<String>)
        ensures
            emitted(old(self)@, final(self)@, locals_text(strings_view(names@))),
    {
        let ghost ns = strings_view(names@);
        let mut i: usize = 0;
        while i < names.len()
            invariant
                i <= names@.len(),
                ns == strings_view(names@),
                emitted(old(self)@, self@, locals_text(ns.take(i as int))),
            decreases names@.len() - i,
        {
            self.emit("    (local ");
            self.emit(names[i].as_str());
            self.emit(" i32)\n");
            assert(ns.take(i + 1).drop_last() =~= ns.take(i as int));
            i = i + 1;
        }
        assert(ns.take(i as int) =~= ns);
    }

    /// Runs the locals pre-pass over a routine's body: each declaration it
    /// reaches gets a slot and its name is registered in the innermost scope.
    /// Declares the slots and hands them to the body's declarations, in order.
    fn start_routine(&mut self, body: &Vec<Statement>) -> (r: Result<(), CompileError>)
        ensures
            match start_routine(old(self)@, body@) {
                Ok(st) => r is Ok && same_state(final(self)@, st),
                Err(e) => r == Err::<(), CompileError>(e),
            },
    {
        let names = self.collect_locals(body, body.len())?;
        self.emit_locals(&names);
        self.slots = names;
        self.next_slot = 0;
        Ok(())
    }

    /// Emits one function: parameters bound in a fresh scope, the locals of its
    /// body, the body, and a default result of 0.
    fn generate_function(&mut self, name: &String, params: &Vec<String>, body: &Vec<Statement>) -> (r: Result<(), CompileError>)
        ensures
            match func_code(old(self)@, name@, strings_view(params@), body@) {
                Ok(st) => r is Ok && same_state(final(self)@, st),
                Err(e) => r == Err::<(), CompileError>(e),
            },
    {
        let ghost s0 = self@;
        let ghost ps = strings_view(params@);
        self.emit("  (func $");
        self.emit(name.as_str());
        self.emit(" ");
        let ghost s1 = self@;
        self.enter_scope();
        let mut i: usize = 0;
        while i < params.len()
            invariant
                i <= params@.len(),
                ps == strings_view(params@),
                self@.out =~= s1.out + params_text(ps.take(i as int)),
                self@.scopes == s0.scopes.push(param_scope(ps.take(i as int))),
                self@.locals == s0.locals,
                self@.labels == s0.labels,
                self@.slots == s0.slots,
                self@.next == s0.next,
            decreases params@.len() - i,
        {
            let mut slot = String::from_str("$");
            slot.append(params[i].as_str());
            self.emit("(param ");
            self.emit(slot.as_str());
            self.emit(" i32) ");
            let b = Binding { name: params[i].clone(), slot, is_const: false };
            self.bind_local(b);
            assert(ps.take(i + 1).drop_last() =~= ps.take(i as int));
            assert(self@.scopes =~= s0.scopes.push(param_scope(ps.take(i + 1))));
            i = i + 1;
        }
        assert(ps.take(i as int) =~= ps);
        self.emit("(result i32)\n");
        let ghost head = "  (func $"@ + name@ + " "@ + params_text(ps) + "(result i32)\n"@;
        proof {
            lemma_same_state(self@, GenState { out: s0.out + head, scopes: s0.scopes.push(param_scope(ps)), ..s0 });
        }
        let ghost s1b = self@;
        self.start_routine(body)?;
        let ghost s2 = self@;
        proof {
            let st1 = start_routine(GenState { out: s0.out + head, scopes: s0.scopes.push(param_scope(ps)), ..s0 }, body@)->Ok_0;
            lemma_same_state(self@, st1);
            lemma_collect_list_scopes(s1b.scopes, s1b.locals, body@, body@.len() as int);
        }
        self.generate_block(body, body.len(), true)?;
        proof {
            lemma_block_code_scopes(s2, body@, body@.len() as int, true);
        }
        let ghost s3 = self@;
        self.emit("    i32.const 0\n");
        self.emit("  )\n");
        self.exit_scope();
        assert(self@.out =~= s3.out + "    i32.const 0\n"@ + "  )\n"@);
        Ok(())
    }

    /// Emits the function declarations among the first `n` top-level statements.
    fn generate_functions(&mut self, body: &Vec<Statement>, n: usize) -> (r: Result<(), CompileError>)
        requires
            n <= body@.len(),
        ensures
            match funcs_code(old(self)@, body@, n as int) {
                Ok(st) => r is Ok && same_state(final(self)@, st),
                Err(e) => r == Err::<(), CompileError>(e),
            },
        decreases n,
    {
        if n == 0 {
            return Ok(());
        }
        self.generate_functions(body, n - 1)?;
        match &body[n - 1] {
            Statement::FunctionDeclaration { name, params, body: fbody } => self.generate_function(name, params, fbody),
            _ => Ok(()),
        }
    }

    /// Emits the first `n` statements that `idx` selects from `body`.
    fn generate_selected(&mut self, body: &Vec<Statement>, idx: &Vec<usize>, n: usize) -> (r: Result<(), CompileError>)
        requires
            n <= idx@.len(),
            selects(body@, idx@),
        ensures
            match block_code(old(self)@, mains(body@), n as int, true) {
                Ok(st) => r is Ok && same_state(final(self)@, st),
                Err(e) => r == Err::<(), CompileError>(e),
            },
        decreases n,
    {
        if n == 0 {
            return Ok(());
        }
        self.generate_selected(body, idx, n - 1)?;
        self.generate_statement(&body[idx[n - 1]], true)
    }

    /// Generates the module text for a whole program: every top-level function
    /// first, then the entry routine `$main`, exported as `_start`. The entry
    /// routine's result is the value of the program's last statement when that
    /// is a bare expression, and 0 otherwise.
    pub fn generate(&mut self, program: &Program) -> (r: Result<String, CompileError>)
        ensures
            match program_code(old(self)@, program.body@) {
                Ok(st) => r is Ok && same_state(final(self)@, st) && r->Ok_0@ == final(self)@.out,
                Err(e) => r == Err::<String, CompileError>(e),
            },
    {
        let body = &program.body;
        self.emit("(module\n");
        self.generate_functions(body, body.len())?;
        self.emit("  (func $main (result i32)\n");
        self.start_routine(body)?;
        let idx = main_indices(body);
        let keep = body.len() > 0 && matches!(body[body.len() - 1], Statement::Expression(_));
        let k = if idx.len() > 0 { idx.len() - 1 } else { 0 };
        if keep && idx.len() > 0 && matches!(body[idx[k]], Statement::Expression(_)) {
            self.generate_selected(body, &idx, k)?;
            match &body[idx[k]] {
                Statement::Expression(e) => {
                    self.generate_expression(e)?;
                },
                _ => {},
            }
        } else {
            self.generate_selected(body, &idx, idx.len())?;
            self.emit("    i32.const 0\n");
        }
        self.emit("  )\n");
        self.emit("  (export \"_start\" (func $main))\n");
        self.emit(")\n");
        Ok(self.output.clone())
    }

    fn emit_loop_open(&mut self, exit: &String, head: &String)
        ensures
            emitted(old(self)@, final(self)@, loop_open(exit@, head@)),
    {
        self.emit("    (block ");
        self.emit(exit.as_str());
        self.emit("\n");
        self.emit("      (loop ");
        self.emit(head.as_str());
        self.emit("\n");
    }

    fn emit_loop_exit(&mut self, exit: &String)
        ensures
            emitted(old(self)@, final(self)@, loop_exit(exit@)),
    {
        self.emit("        i32.eqz\n");
        self.emit("        br_if ");
        self.emit(exit.as_str());
        self.emit("\n");
    }

    fn emit_loop_close(&mut self, head: &String)
        ensures
            emitted(old(self)@, final(self)@, loop_close(head@)),
    {
        self.emit("        br ");
        self.emit(head.as_str());
        self.emit("\n");
        self.emit("      )\n");
        self.emit("    )\n");
    }

    fn emit(&mut self, s: &str)
        ensures
            final(self)@ == (GenState { out: old(self)@.out + s@, ..old(self)@ }),
    {
        self.output.append(s);
    }
}

} // verus!
