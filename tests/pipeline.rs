use humera_js_compiler::compile;
use humera_js_compiler::error::{CompileError, Expected};
use humera_js_compiler::lexer::Lexer;
use humera_js_compiler::token::{Span, Token};

#[test]
fn single_let_generates_exact_module() {
    let out = compile("let x = 10;").unwrap();
    let expected = "(module\n  (func $main (result i32)\n    (local $x_0 i32)\n    i32.const 10\n    local.set $x_0\n    i32.const 0\n  )\n  (export \"_start\" (func $main))\n)\n";
    assert_eq!(out, expected);
}

#[test]
fn single_let_negative_literal_is_not_folded() {
    let out = compile("let y = -7;").unwrap();
    assert!(out.contains("(local $y_0 i32)"));
    assert!(out.contains("    i32.const 0\n    i32.const 7\n    i32.sub\n    local.set $y_0\n"));
}

#[test]
fn folding_is_shallow() {
    let out = compile("1 + 2 * 3;").unwrap();
    assert!(out.contains("    i32.const 1\n    i32.const 6\n    i32.add\n"));
    assert!(!out.contains("i32.const 7"));
    assert!(!out.contains("i32.mul"));
}

#[test]
fn folding_wraps_and_compares() {
    let out = compile("2147483647 + 1;").unwrap();
    assert!(out.contains("    i32.const -2147483648\n"));
    let out = compile("3 < 4;").unwrap();
    assert!(out.contains("    i32.const 1\n  )"));
    let out = compile("7 % 3;").unwrap();
    assert!(out.contains("    i32.const 1\n  )"));
    let out = compile("7 / 2;").unwrap();
    assert!(out.contains("    i32.const 3\n  )"));
    let out = compile("65536 * 65536;").unwrap();
    assert!(out.contains("    i32.const 0\n  )"));
}

#[test]
fn division_by_literal_zero_folds_to_zero() {
    let out = compile("10 / 0;").unwrap();
    assert!(out.contains("    i32.const 0\n  )"));
    assert!(!out.contains("div_s"));
    let out = compile("10 % 0;").unwrap();
    assert!(!out.contains("rem_s"));
}

#[test]
fn runtime_division_is_signed() {
    let out = compile("let a = 5; a / 2;").unwrap();
    assert!(out.contains("    local.get $a_0\n    i32.const 2\n    i32.div_s\n"));
}

#[test]
fn sum_reads_both_locals() {
    let out = compile("let a = 10; let b = 20; let c = a + b;").unwrap();
    assert!(out.contains("    local.get $a_0\n    local.get $b_1\n    i32.add\n    local.set $c_2\n"));
}

#[test]
fn if_without_else_has_no_else_marker() {
    let out = compile("let x = 1; if (x) { x = 2; }").unwrap();
    assert!(out.contains("(if"));
    assert!(out.contains("(then"));
    assert!(!out.contains("(else"));
    let out = compile("let x = 1; if (x) { x = 2; } else { x = 3; }").unwrap();
    assert!(out.contains("(else"));
}

#[test]
fn while_is_block_around_loop() {
    let out = compile("let i = 0; while (i < 3) { i = i + 1; }").unwrap();
    assert!(out.contains("    (block $break_0\n      (loop $continue_1\n"));
    assert!(out.contains("        i32.eqz\n        br_if $break_0\n"));
    assert!(out.contains("        br $continue_1\n      )\n    )\n"));
}

#[test]
fn function_declared_after_call_is_hoisted() {
    let late = compile("let r = f(1); function f(a) { return a; }").unwrap();
    let early = compile("function f(a) { return a; } let r = f(1);").unwrap();
    assert_eq!(late, early);
    let func = late.find("(func $f").unwrap();
    let main = late.find("(func $main").unwrap();
    assert!(func < main);
    assert!(late.contains("    i32.const 1\n    call $f\n"));
}

#[test]
fn const_assignment_is_an_error() {
    let r = compile("const x = 10; x = 20;");
    match r {
        Err(CompileError::AssignmentToConstant { name }) => assert_eq!(name, "x"),
        _ => panic!("expected an assignment-to-constant error"),
    }
}

#[test]
fn compile_is_deterministic() {
    let src = "function g(n) { let k = n * 2; while (k > 0) { k = k - 1; } return k; } let a = g(3); if (a == 0) { a = 1; } a;";
    assert_eq!(compile(src).unwrap(), compile(src).unwrap());
}

#[test]
fn last_expression_is_the_result() {
    let out = compile("let x = 4; x + 1;").unwrap();
    assert!(out.contains("    local.get $x_0\n    i32.const 1\n    i32.add\n  )\n"));
    assert!(!out.contains("drop"));
    let out = compile("let x = 4;").unwrap();
    assert!(out.contains("    local.set $x_0\n    i32.const 0\n  )\n"));
    let out = compile("").unwrap();
    assert!(out.contains("  (func $main (result i32)\n    i32.const 0\n  )\n"));
}

#[test]
fn earlier_expressions_are_dropped() {
    let out = compile("1; 2;").unwrap();
    assert!(out.contains("    i32.const 1\n    drop\n    i32.const 2\n  )\n"));
}

#[test]
fn each_declaration_has_its_own_slot() {
    let out = compile("let x = 1; let x = 2; x;").unwrap();
    assert!(out.contains("(local $x_0 i32)"));
    assert!(out.contains("(local $x_1 i32)"));
    assert!(out.contains("    i32.const 1\n    local.set $x_0\n    i32.const 2\n    local.set $x_1\n    local.get $x_1\n  )"));
}

#[test]
fn reads_see_the_declarations_already_reached() {
    let out = compile("let x = 1; x; let x = 2; x;").unwrap();
    assert!(out.contains("    local.set $x_0\n    local.get $x_0\n    drop\n    i32.const 2\n    local.set $x_1\n    local.get $x_1\n  )"));
    let out = compile("let x = 1; { let x = x + 1; }").unwrap();
    assert!(out.contains("    local.get $x_0\n    i32.const 1\n    i32.add\n    local.set $x_1\n"));
}

#[test]
fn trailing_function_declaration_defaults_result_to_zero() {
    let out = compile("5; function f() {}").unwrap();
    assert!(out.contains("  (func $main (result i32)\n    i32.const 5\n    drop\n    i32.const 0\n  )\n"));
}

#[test]
fn function_parameters_and_locals() {
    let out = compile("function h(p, q) { let t = p; return t; }").unwrap();
    assert!(out.contains("  (func $h (param $p i32) (param $q i32) (result i32)\n    (local $t_0 i32)\n    local.get $p\n    local.set $t_0\n    local.get $t_0\n    return\n    i32.const 0\n  )\n"));
}

#[test]
fn unary_operators() {
    let out = compile("let x = 0; !x;").unwrap();
    assert!(out.contains("    local.get $x_0\n    i32.eqz\n"));
}

#[test]
fn return_without_value_returns_zero() {
    let out = compile("function f() { return; }").unwrap();
    assert!(out.contains("    i32.const 0\n    return\n"));
}

#[test]
fn comments_are_skipped() {
    let out = compile("// leading\nlet x = 1; // trailing\n").unwrap();
    assert!(out.contains("local.set $x_0"));
}

#[test]
fn unexpected_character_error() {
    match compile("let x = 1 # 2;") {
        Err(CompileError::UnexpectedChar { ch, span }) => {
            assert_eq!(ch, '#');
            assert_eq!(span, Span::new(1, 11));
        }
        _ => panic!("expected a lexical error"),
    }
}

#[test]
fn number_too_large_error() {
    assert!(matches!(compile("let x = 2147483648;"), Err(CompileError::NumberTooLarge { .. })));
    assert!(compile("let x = 2147483647;").is_ok());
}

#[test]
fn unexpected_token_error() {
    match compile("let = 5;") {
        Err(CompileError::UnexpectedToken { expected, found, span }) => {
            assert_eq!(expected, Expected::Identifier);
            assert_eq!(found, Token::Eq);
            assert_eq!(span, Span::new(1, 5));
        }
        _ => panic!("expected a syntax error"),
    }
    match compile("let x = 5") {
        Err(CompileError::UnexpectedToken { expected, found, .. }) => {
            assert_eq!(expected, Expected::Token(Token::Semi));
            assert_eq!(found, Token::EOF);
        }
        _ => panic!("expected a syntax error"),
    }
    assert!(matches!(compile(";"), Err(CompileError::UnexpectedToken { expected: Expected::Expression, .. })));
}

#[test]
fn invalid_assignment_target_error() {
    match compile("1 = 2;") {
        Err(CompileError::InvalidAssignmentTarget { span }) => assert_eq!(span, Span::new(1, 6)),
        _ => panic!("expected an invalid-assignment-target error"),
    }
    match compile("a + b = 1;") {
        Err(CompileError::InvalidAssignmentTarget { span }) => assert_eq!(span, Span::new(1, 10)),
        _ => panic!("expected an invalid-assignment-target error"),
    }
}

#[test]
fn undefined_variable_error() {
    match compile("y + 1;") {
        Err(CompileError::UndefinedVariable { name }) => assert_eq!(name, "y"),
        _ => panic!("expected an undefined-variable error"),
    }
    assert!(matches!(compile("z = 1;"), Err(CompileError::UndefinedVariable { .. })));
}

#[test]
fn lexer_tokens_and_spans() {
    let mut lx = Lexer::new("let x1 = 42;\n  if (a <= b) != !c");
    let expect = vec![
        (Token::Let, 1, 1),
        (Token::Identifier("x1".to_string()), 1, 5),
        (Token::Eq, 1, 8),
        (Token::Number(42), 1, 10),
        (Token::Semi, 1, 12),
        (Token::If, 2, 3),
        (Token::LParen, 2, 6),
        (Token::Identifier("a".to_string()), 2, 7),
        (Token::LtEq, 2, 9),
        (Token::Identifier("b".to_string()), 2, 12),
        (Token::RParen, 2, 13),
        (Token::BangEq, 2, 15),
        (Token::Bang, 2, 18),
        (Token::Identifier("c".to_string()), 2, 19),
        (Token::EOF, 2, 20),
        (Token::EOF, 2, 20),
    ];
    for (tok, line, col) in expect {
        let t = lx.next_token().unwrap();
        assert_eq!(t.token, tok);
        assert_eq!(t.span, Span::new(line, col));
    }
}

#[test]
fn lexer_peek() {
    let lx = Lexer::new("ab");
    assert_eq!(lx.peek(), Some('a'));
    let empty = Lexer::new("");
    assert_eq!(empty.peek(), None);
}

#[test]
fn keywords_are_not_identifiers() {
    let mut lx = Lexer::new("function return const else while letter");
    let expect = vec![Token::Function, Token::Return, Token::Const, Token::Else, Token::While, Token::Identifier("letter".to_string())];
    for tok in expect {
        assert_eq!(lx.next_token().unwrap().token, tok);
    }
}

use humera_js_compiler::ast::{BinaryOp, Expression, Program, Statement, UnaryOp};
use humera_js_compiler::parser::Parser;

fn parse(src: &str) -> Result<Program, CompileError> {
    let mut p = Parser::new(Lexer::new(src))?;
    p.parse_program()
}

fn num(n: i32) -> Box<Expression> {
    Box::new(Expression::Number(n))
}

fn name(s: &str) -> Expression {
    Expression::Identifier(s.to_string())
}

#[test]
fn parser_precedence_and_associativity() {
    let prog = parse("a = b = 1 + 2 * 3 == 7; 1 - 2 - 3; -!x;").unwrap();
    let sum = Expression::Binary(num(1), BinaryOp::Add, Box::new(Expression::Binary(num(2), BinaryOp::Mul, num(3))));
    let cmp = Expression::Binary(Box::new(sum), BinaryOp::Eq, num(7));
    let assign = Expression::Assignment(
        "a".to_string(),
        Box::new(Expression::Assignment("b".to_string(), Box::new(cmp))),
    );
    let diff = Expression::Binary(Box::new(Expression::Binary(num(1), BinaryOp::Sub, num(2))), BinaryOp::Sub, num(3));
    let neg = Expression::Unary(UnaryOp::Neg, Box::new(Expression::Unary(UnaryOp::Not, Box::new(name("x")))));
    assert_eq!(
        prog,
        Program { body: vec![Statement::Expression(assign), Statement::Expression(diff), Statement::Expression(neg)] }
    );
}

#[test]
fn parser_dangling_else_binds_to_nearest_if() {
    let prog = parse("if (a) if (b) x; else y;").unwrap();
    let inner = Statement::If {
        condition: name("b"),
        then_branch: Box::new(Statement::Expression(name("x"))),
        else_branch: Some(Box::new(Statement::Expression(name("y")))),
    };
    let outer = Statement::If { condition: name("a"), then_branch: Box::new(inner), else_branch: None };
    assert_eq!(prog, Program { body: vec![outer] });
}

#[test]
fn parser_functions_calls_and_blocks() {
    let prog = parse("function f(p, q) { return p; } { let v = f(1, g()); } const k = 2; while (k) return;").unwrap();
    assert_eq!(prog.body.len(), 4);
    assert_eq!(
        prog.body[0],
        Statement::FunctionDeclaration {
            name: "f".to_string(),
            params: vec!["p".to_string(), "q".to_string()],
            body: vec![Statement::Return(Some(name("p")))],
        }
    );
    let call = Expression::Call("f".to_string(), vec![Expression::Number(1), Expression::Call("g".to_string(), vec![])]);
    assert_eq!(
        prog.body[1],
        Statement::Block(vec![Statement::VariableDeclaration { name: "v".to_string(), init: call, is_const: false }])
    );
    assert_eq!(
        prog.body[2],
        Statement::VariableDeclaration { name: "k".to_string(), init: Expression::Number(2), is_const: true }
    );
    assert_eq!(
        prog.body[3],
        Statement::While { condition: name("k"), body: Box::new(Statement::Return(None)) }
    );
}

#[test]
fn parser_rejects_malformed_input() {
    assert!(matches!(parse("(1 + 2) = 3;"), Err(CompileError::InvalidAssignmentTarget { .. })));
    assert!(matches!(parse("function f(a,) {}"), Err(CompileError::UnexpectedToken { expected: Expected::Identifier, .. })));
    assert!(matches!(parse("{ 1;"), Err(CompileError::UnexpectedToken { found: Token::EOF, .. })));
    assert!(matches!(parse("f(1 2);"), Err(CompileError::UnexpectedToken { .. })));
}

#[test]
fn prepass_registers_names_before_their_declarations() {
    let out = compile("let y = x; let x = 1;").unwrap();
    assert!(out.contains("    local.get $x_1\n    local.set $y_0\n    i32.const 1\n    local.set $x_1\n"));
    match compile("x = 2; const x = 1;") {
        Err(CompileError::AssignmentToConstant { name }) => assert_eq!(name, "x"),
        _ => panic!("expected an assignment-to-constant error"),
    }
    let out = compile("function f() { t = 3; let t = 0; return t; }").unwrap();
    assert!(out.contains("    i32.const 3\n    local.tee $t_0\n    drop\n"));
}
