//! End-to-end tests of the pipeline: lexing, parsing, compiling and running.

use minilang::ast::{Expression, Function, Operand, Statement, operand};
use minilang::compiler;
use minilang::error::VmError;
use minilang::lexer::lexer;
use minilang::lexer::tokenize;
use minilang::machine::Machine;
use minilang::natives::apply;
use minilang::op::Op;
use minilang::parser::Parser;
use minilang::scope::Scope;
use minilang::token::TokenType;
use minilang::traveler::Traveler;
use minilang::value::{Cmp, Native, Object, Value};

fn parse_source(src: &str) -> Vec<Statement> {
    let mut lx = lexer(src.chars().collect());
    let tokens = tokenize(&mut lx).expect("lexing failed");
    let traveler = Traveler::new(tokens);
    let mut parser = Parser::new(traveler);
    parser.parse().expect("parse failed")
}

fn run_program(ops: Vec<Op>, scope: &mut Scope) -> Result<Option<Value>, VmError> {
    let mut vm = Machine::new(ops);
    vm.run(scope)
}

fn run_source(src: &str, scope: &mut Scope) -> Result<Option<Value>, VmError> {
    let ops = compiler::statements(parse_source(src));
    run_program(ops, scope)
}

#[test]
fn two_int_literals_add() {
    let e = Expression::Operation(
        Box::new(Expression::Atom(Value::IntLiteral(2))),
        Operand::Plus,
        Box::new(Expression::Atom(Value::IntLiteral(3))),
    );
    let ops = compiler::statements(vec![Statement::Expression(Box::new(e))]);
    let mut scope = Scope::new();
    assert_eq!(run_program(ops, &mut scope), Ok(Some(Value::IntLiteral(5))));
}

#[test]
fn two_int_literals_sub_is_reversed() {
    // `10 - 3` evaluates to `3 - 10` under this design
    let e = Expression::Operation(
        Box::new(Expression::Atom(Value::IntLiteral(10))),
        Operand::Minus,
        Box::new(Expression::Atom(Value::IntLiteral(3))),
    );
    let ops = compiler::statements(vec![Statement::Expression(Box::new(e))]);
    let mut scope = Scope::new();
    assert_eq!(run_program(ops, &mut scope), Ok(Some(Value::IntLiteral(-7))));
}

#[test]
fn precedence_mul_binds_tighter() {
    let stmts = parse_source("1 + 2 * 3");
    assert_eq!(stmts.len(), 1);
    let expected = Statement::Expression(Box::new(Expression::Operation(
        Box::new(Expression::Atom(Value::IntLiteral(1))),
        Operand::Plus,
        Box::new(Expression::Operation(
            Box::new(Expression::Atom(Value::IntLiteral(2))),
            Operand::Mul,
            Box::new(Expression::Atom(Value::IntLiteral(3))),
        )),
    )));
    assert_eq!(stmts[0], expected);

    let mut scope = Scope::new();
    assert_eq!(run_source("1 + 2 * 3", &mut scope), Ok(Some(Value::IntLiteral(7))));
}

#[test]
fn equal_precedence_groups_left() {
    // `10 - 5 - 2` groups as `(10 - 5) - 2` at the AST level
    let stmts = parse_source("10 - 5 - 2");
    assert_eq!(stmts.len(), 1);
    let expected = Statement::Expression(Box::new(Expression::Operation(
        Box::new(Expression::Operation(
            Box::new(Expression::Atom(Value::IntLiteral(10))),
            Operand::Minus,
            Box::new(Expression::Atom(Value::IntLiteral(5))),
        )),
        Operand::Minus,
        Box::new(Expression::Atom(Value::IntLiteral(2))),
    )));
    assert_eq!(stmts[0], expected);

    // with the reversed operand order applied recursively: (5-10) -> -5,
    // then 2 - (-5) -> 7
    let mut scope = Scope::new();
    assert_eq!(run_source("10 - 5 - 2", &mut scope), Ok(Some(Value::IntLiteral(7))));
}

#[test]
fn define_then_name_round_trip() {
    let ops = vec![
        Op::Value(Value::IntLiteral(5)),
        Op::Value(Value::StringLiteral("x".to_string())),
        Op::Define,
        Op::Name("x".to_string()),
    ];
    let mut scope = Scope::new();
    assert_eq!(run_program(ops, &mut scope), Ok(Some(Value::IntLiteral(5))));
    assert_eq!(scope.get(&"x".to_string()), Some(&Value::IntLiteral(5)));
}

#[test]
fn shared_global_scope_across_calls() {
    // var s = 0; a function assigns to s; after the call the binding changed
    let setter = Expression::Function(Function::new(
        Some("setit".to_string()),
        vec!["a".to_string()],
        Some(vec![Statement::Assignment(
            "s".to_string(),
            Box::new(Expression::Identifier("a".to_string())),
        )]),
    ));
    let stmts = vec![
        Statement::Definition("s".to_string(), Box::new(Expression::Atom(Value::IntLiteral(0)))),
        Statement::Expression(Box::new(setter)),
        Statement::Expression(Box::new(Expression::Call(Box::new(vec![
            Expression::Identifier("setit".to_string()),
            Expression::Atom(Value::IntLiteral(42)),
        ])))),
    ];
    let ops = compiler::statements(stmts);
    let mut scope = Scope::new();
    run_program(ops, &mut scope).expect("run failed");
    assert_eq!(scope.get(&"s".to_string()), Some(&Value::IntLiteral(42)));
}

/// `a < k` at the source level must be written `Operation(k, Lt, a)`:
/// an operation computes `right OP left`.
fn reversed(op: Operand, left: Expression, right: Expression) -> Expression {
    Expression::Operation(Box::new(right), op, Box::new(left))
}

#[test]
fn recursive_interpreted_function() {
    // fib(a) = a if a < 3 else fib(a - 1) + fib(a - 2)
    let ident = |n: &str| Expression::Identifier(n.to_string());
    let int = |v: i64| Expression::Atom(Value::IntLiteral(v));
    let call = |f: &str, e: Expression| {
        Expression::Call(Box::new(vec![Expression::Identifier(f.to_string()), e]))
    };

    let cond = reversed(Operand::Lt, ident("a"), int(3));
    let then_branch = vec![Statement::Expression(Box::new(Expression::Return(Some(Box::new(
        ident("a"),
    )))))];
    let rec = Expression::Operation(
        Box::new(call("fib", reversed(Operand::Minus, ident("a"), int(1)))),
        Operand::Plus,
        Box::new(call("fib", reversed(Operand::Minus, ident("a"), int(2)))),
    );
    let else_branch = vec![Statement::Expression(Box::new(Expression::Return(Some(Box::new(
        rec,
    )))))];
    let fib = Expression::Function(Function::new(
        Some("fib".to_string()),
        vec!["a".to_string()],
        Some(vec![Statement::IfElse(
            Box::new(cond),
            Box::new(then_branch),
            Box::new(else_branch),
        )]),
    ));
    let stmts = vec![
        Statement::Expression(Box::new(fib)),
        Statement::Expression(Box::new(call("fib", int(2)))),
    ];
    let ops = compiler::statements(stmts);
    let mut scope = Scope::new();
    // below the recursion threshold the result matches Fibonacci directly
    assert_eq!(run_program(ops, &mut scope), Ok(Some(Value::IntLiteral(2))));

    // deeper recursion terminates, but the single flat scope shared by every
    // call frame lets the nested calls overwrite `a`, so the value diverges
    // from the closed-form sequence (which would give 13 for 6)
    let stmts2 = vec![Statement::Expression(Box::new(call("fib", int(6))))];
    let ops2 = compiler::statements(stmts2);
    assert_eq!(run_program(ops2, &mut scope), Ok(Some(Value::IntLiteral(3))));
}

#[test]
fn unbound_name_pushes_nothing() {
    // if the lookup pushed a placeholder, Add would see it and fail
    let ops = vec![
        Op::Value(Value::IntLiteral(1)),
        Op::Value(Value::IntLiteral(2)),
        Op::Name("unbound".to_string()),
        Op::Add,
    ];
    let mut scope = Scope::new();
    assert_eq!(run_program(ops, &mut scope), Ok(Some(Value::IntLiteral(3))));
}

#[test]
fn native_puts_writes_and_returns_joined() {
    let mut scope = Scope::new();
    apply(&mut scope);
    let ops = vec![
        Op::Name("puts".to_string()),
        Op::Value(Value::StringLiteral("a".to_string())),
        Op::Value(Value::StringLiteral("b".to_string())),
        Op::Value(Value::IntLiteral(2)),
        Op::Call,
    ];
    let mut vm = Machine::new(ops);
    let r = vm.run(&mut scope);
    assert_eq!(r, Ok(Some(Value::StringLiteral("a b".to_string()))));
    assert_eq!(vm.output, "a b");
}

#[test]
fn native_putsln_appends_newline() {
    let mut scope = Scope::new();
    apply(&mut scope);
    let ops = vec![
        Op::Name("putsln".to_string()),
        Op::Value(Value::IntLiteral(-12)),
        Op::Value(Value::BoolLiteral(true)),
        Op::Value(Value::Nil),
        Op::Value(Value::IntLiteral(3)),
        Op::Call,
    ];
    let mut vm = Machine::new(ops);
    let r = vm.run(&mut scope);
    assert_eq!(r, Ok(Some(Value::StringLiteral("-12 true nil".to_string()))));
    assert_eq!(vm.output, "-12 true nil\n");
}

#[test]
fn native_angry_aborts_with_message() {
    let mut scope = Scope::new();
    apply(&mut scope);
    let ops = vec![
        Op::Name("angry".to_string()),
        Op::Value(Value::StringLiteral("oh".to_string())),
        Op::Value(Value::StringLiteral("no".to_string())),
        Op::Value(Value::IntLiteral(2)),
        Op::Call,
    ];
    let mut scope2 = scope;
    assert_eq!(run_program(ops, &mut scope2), Err(VmError::Abort("oh no".to_string())));
}

#[test]
fn operand_table() {
    assert_eq!(operand("*"), Some((Operand::Mul, 1)));
    assert_eq!(operand("/"), Some((Operand::Div, 1)));
    assert_eq!(operand("+"), Some((Operand::Plus, 2)));
    assert_eq!(operand("-"), Some((Operand::Minus, 2)));
    assert_eq!(operand("=="), Some((Operand::Equals, 3)));
    assert_eq!(operand("!="), Some((Operand::NEquals, 3)));
    assert_eq!(operand("<"), Some((Operand::Lt, 4)));
    assert_eq!(operand(">"), Some((Operand::Gt, 4)));
    assert_eq!(operand("<="), Some((Operand::LtEquals, 4)));
    assert_eq!(operand(">="), Some((Operand::GtEquals, 4)));
    assert_eq!(operand("="), None);
    assert_eq!(operand(""), None);
}

#[test]
fn value_arithmetic_rules() {
    let i = Value::IntLiteral(7);
    assert_eq!(i.add(Value::IntLiteral(5)), Ok(Value::IntLiteral(12)));
    assert_eq!(
        Value::StringLiteral("ab".to_string()).add(Value::StringLiteral("cd".to_string())),
        Ok(Value::StringLiteral("abcd".to_string()))
    );
    assert_eq!(
        Value::StringLiteral("ab".to_string()).add(Value::CharLiteral('c')),
        Ok(Value::StringLiteral("abc".to_string()))
    );
    assert_eq!(
        Value::CharLiteral('x').add(Value::CharLiteral('y')),
        Ok(Value::StringLiteral("xy".to_string()))
    );
    assert_eq!(i.add(Value::Nil), Err(VmError::InvalidOperation));
    assert_eq!(i.sub(Value::IntLiteral(9)), Ok(Value::IntLiteral(-2)));
    assert_eq!(i.mul(Value::IntLiteral(6)), Ok(Value::IntLiteral(42)));
    assert_eq!(i.div(Value::IntLiteral(2)), Ok(Value::IntLiteral(3)));
    assert_eq!(i.div(Value::IntLiteral(0)), Err(VmError::DivisionByZero));
    assert_eq!(
        Value::IntLiteral(i64::MAX).add(Value::IntLiteral(1)),
        Ok(Value::IntLiteral(i64::MIN))
    );
    assert_eq!(
        Value::IntLiteral(i64::MIN).div(Value::IntLiteral(-1)),
        Ok(Value::IntLiteral(i64::MIN))
    );
}

#[test]
fn value_equality_quirks() {
    // two equal characters are unequal under the language's equality
    assert!(!Value::CharLiteral('a').value_eq(&Value::CharLiteral('a')));
    assert!(Value::Nil.value_eq(&Value::Nil));
    assert!(Value::IntLiteral(3).value_eq(&Value::IntLiteral(3)));
    assert!(!Value::IntLiteral(3).value_eq(&Value::BoolLiteral(true)));
    assert!(Value::StringLiteral("a".to_string()).value_eq(&Value::StringLiteral("a".to_string())));
}

#[test]
fn value_ordering() {
    let lt = |a: &Value, b: &Value| a.compare(b) == Some(Cmp::Less);
    assert!(lt(&Value::IntLiteral(1), &Value::IntLiteral(2)));
    assert!(lt(&Value::BoolLiteral(false), &Value::BoolLiteral(true)));
    assert!(lt(
        &Value::StringLiteral("abc".to_string()),
        &Value::StringLiteral("abd".to_string())
    ));
    // Nil compares equal to Nil, so `<=` holds while `<` does not
    assert_eq!(Value::Nil.compare(&Value::Nil), Some(Cmp::Equal));
    // unordered pairs yield no ordering at all
    assert_eq!(Value::IntLiteral(1).compare(&Value::BoolLiteral(true)), None);
    assert_eq!(Value::CharLiteral('a').compare(&Value::CharLiteral('b')), None);
}

#[test]
fn to_boolean_rules() {
    assert!(!Value::IntLiteral(0).to_boolean());
    assert!(Value::IntLiteral(-1).to_boolean());
    assert!(!Value::StringLiteral(String::new()).to_boolean());
    assert!(Value::StringLiteral("x".to_string()).to_boolean());
    assert!(Value::CharLiteral('c').to_boolean());
    assert!(!Value::Nil.to_boolean());
    assert!(Value::Object(Object::Native(Native::Puts)).to_boolean());
}

#[test]
fn compile_if_shape() {
    // cond; JumpUnless(len(body)+1); body; cond again
    let stmts = vec![Statement::If(
        Box::new(Expression::Atom(Value::BoolLiteral(true))),
        Box::new(vec![Statement::Expression(Box::new(Expression::Atom(Value::IntLiteral(1))))]),
    )];
    let ops = compiler::statements(stmts);
    assert_eq!(
        ops,
        vec![
            Op::Value(Value::BoolLiteral(true)),
            Op::JumpUnless(2),
            Op::Value(Value::IntLiteral(1)),
            Op::Value(Value::BoolLiteral(true)),
        ]
    );
}

#[test]
fn compile_if_else_shape() {
    let stmts = vec![Statement::IfElse(
        Box::new(Expression::Atom(Value::BoolLiteral(false))),
        Box::new(vec![Statement::Expression(Box::new(Expression::Atom(Value::IntLiteral(1))))]),
        Box::new(vec![Statement::Expression(Box::new(Expression::Atom(Value::IntLiteral(2))))]),
    )];
    let ops = compiler::statements(stmts);
    assert_eq!(
        ops,
        vec![
            Op::Value(Value::BoolLiteral(false)),
            Op::JumpUnless(2),
            Op::Value(Value::IntLiteral(1)),
            Op::Value(Value::BoolLiteral(false)),
            Op::JumpIf(2),
            Op::Value(Value::IntLiteral(2)),
        ]
    );
}

#[test]
fn compile_call_pushes_count_minus_one() {
    let stmts = vec![Statement::Expression(Box::new(Expression::Call(Box::new(vec![
        Expression::Identifier("f".to_string()),
        Expression::Atom(Value::IntLiteral(4)),
    ]))))];
    let ops = compiler::statements(stmts);
    assert_eq!(
        ops,
        vec![
            Op::Name("f".to_string()),
            Op::Value(Value::IntLiteral(4)),
            Op::Value(Value::IntLiteral(1)),
            Op::Call,
        ]
    );
}

#[test]
fn lexer_tokenizes_definition() {
    let mut lx = lexer("var x = 5".chars().collect());
    let tokens = tokenize(&mut lx).expect("lexing failed");
    let kinds: Vec<TokenType> = tokens.iter().map(|t| t.token_type).collect();
    assert_eq!(
        kinds,
        vec![
            TokenType::Keyword,
            TokenType::Identifier,
            TokenType::Operator,
            TokenType::IntLiteral,
            TokenType::EOF,
        ]
    );
    assert_eq!(tokens[0].content, "var");
    assert_eq!(tokens[1].content, "x");
    assert_eq!(tokens[2].content, "=");
    assert_eq!(tokens[3].content, "5");
}

#[test]
fn lexer_token_kinds() {
    let mut lx = lexer("tru fal 1.5 \"hey\" foo <= ~".chars().collect());
    let tokens = tokenize(&mut lx).expect("lexing failed");
    let kinds: Vec<TokenType> = tokens.iter().map(|t| t.token_type).collect();
    assert_eq!(
        kinds,
        vec![
            TokenType::BoolLiteral,
            TokenType::BoolLiteral,
            TokenType::FloatLiteral,
            TokenType::StringLiteral,
            TokenType::Identifier,
            TokenType::Operator,
            TokenType::Symbol,
            TokenType::EOF,
        ]
    );
    assert_eq!(tokens[2].content, "1.5");
    assert_eq!(tokens[3].content, "hey");
    assert_eq!(tokens[5].content, "<=");
}

#[test]
fn lexer_rejects_unknown_character() {
    let mut lx = lexer("a @ b".chars().collect());
    let r = tokenize(&mut lx);
    assert!(r.is_err());
    assert_eq!(r.unwrap_err().position, 2);
}

#[test]
fn lexer_keyword_needs_word_boundary() {
    // `iffy` is an identifier, not the keyword `if` followed by `fy`
    let mut lx = lexer("iffy".chars().collect());
    let tokens = tokenize(&mut lx).expect("lexing failed");
    assert_eq!(tokens[0].token_type, TokenType::Identifier);
    assert_eq!(tokens[0].content, "iffy");
}

#[test]
fn parser_var_definition() {
    let stmts = parse_source("var x = 2 + 3");
    assert_eq!(stmts.len(), 1);
    match &stmts[0] {
        Statement::Definition(name, expr) => {
            assert_eq!(name, "x");
            match expr.as_ref() {
                Expression::Operation(_, Operand::Plus, _) => {}
                other => panic!("unexpected expression: {:?}", other),
            }
        }
        other => panic!("unexpected statement: {:?}", other),
    }
}

#[test]
fn parser_call_with_arguments() {
    let stmts = parse_source("g(1, 2)");
    assert_eq!(stmts.len(), 1);
    let expected = Statement::Expression(Box::new(Expression::Call(Box::new(vec![
        Expression::Identifier("g".to_string()),
        Expression::Atom(Value::IntLiteral(1)),
        Expression::Atom(Value::IntLiteral(2)),
    ]))));
    assert_eq!(stmts[0], expected);
}

#[test]
fn parser_postfix_call_sugar() {
    // note that `f` alone would lex as a keyword
    let stmts = parse_source("g~");
    assert_eq!(stmts.len(), 1);
    let expected = Statement::Expression(Box::new(Expression::Call(Box::new(vec![
        Expression::Identifier("g".to_string()),
    ]))));
    assert_eq!(stmts[0], expected);
}

#[test]
fn parser_rejects_huge_int_literal() {
    let mut lx = lexer("99999999999999999999".chars().collect());
    let tokens = tokenize(&mut lx).expect("lexing failed");
    let mut parser = Parser::new(Traveler::new(tokens));
    assert!(parser.parse().is_err());
}

#[test]
fn machine_reports_invalid_call() {
    let ops = vec![
        Op::Value(Value::IntLiteral(9)),
        Op::Value(Value::IntLiteral(0)),
        Op::Call,
    ];
    let mut scope = Scope::new();
    assert_eq!(run_program(ops, &mut scope), Err(VmError::InvalidCall));
}

#[test]
fn machine_reports_stack_underflow() {
    let ops = vec![Op::Add];
    let mut scope = Scope::new();
    assert_eq!(run_program(ops, &mut scope), Err(VmError::StackUnderflow));
}

#[test]
fn machine_reports_broken_assignment() {
    let ops = vec![
        Op::Value(Value::IntLiteral(1)),
        Op::Value(Value::IntLiteral(2)),
        Op::Define,
    ];
    let mut scope = Scope::new();
    assert_eq!(run_program(ops, &mut scope), Err(VmError::BrokenAssignment));
}

#[test]
fn machine_invalid_operation_is_reported() {
    let ops = vec![
        Op::Value(Value::Nil),
        Op::Value(Value::IntLiteral(2)),
        Op::Sub,
    ];
    let mut scope = Scope::new();
    assert_eq!(run_program(ops, &mut scope), Err(VmError::InvalidOperation));
}

#[test]
fn missing_arguments_bind_nil() {
    // calling a two-parameter function with one argument binds Nil to the rest
    let ret_b = Expression::Return(Some(Box::new(Expression::Identifier("b".to_string()))));
    let f = Expression::Function(Function::new(
        Some("g".to_string()),
        vec!["a".to_string(), "b".to_string()],
        Some(vec![Statement::Expression(Box::new(ret_b))]),
    ));
    let stmts = vec![
        Statement::Expression(Box::new(f)),
        Statement::Expression(Box::new(Expression::Call(Box::new(vec![
            Expression::Identifier("g".to_string()),
            Expression::Atom(Value::IntLiteral(1)),
        ])))),
    ];
    let ops = compiler::statements(stmts);
    let mut scope = Scope::new();
    assert_eq!(run_program(ops, &mut scope), Ok(Some(Value::Nil)));
}

#[test]
fn bodyless_function_pushes_nil() {
    let f = Expression::Function(Function::new(
        Some("h".to_string()),
        vec![],
        None,
    ));
    let stmts = vec![
        Statement::Expression(Box::new(f)),
        Statement::Expression(Box::new(Expression::Call(Box::new(vec![
            Expression::Identifier("h".to_string()),
        ])))),
    ];
    let ops = compiler::statements(stmts);
    let mut scope = Scope::new();
    assert_eq!(run_program(ops, &mut scope), Ok(Some(Value::Nil)));
}

#[test]
fn scope_insert_overwrites() {
    let mut scope = Scope::new();
    scope.insert("k".to_string(), Value::IntLiteral(1));
    scope.insert("k".to_string(), Value::IntLiteral(2));
    assert_eq!(scope.get(&"k".to_string()), Some(&Value::IntLiteral(2)));
    assert_eq!(scope.get(&"missing".to_string()), None);
}

#[test]
fn apply_registers_natives() {
    let mut scope = Scope::new();
    apply(&mut scope);
    assert_eq!(
        scope.get(&"puts".to_string()),
        Some(&Value::Object(Object::Native(Native::Puts)))
    );
    assert_eq!(
        scope.get(&"putsln".to_string()),
        Some(&Value::Object(Object::Native(Native::Putsln)))
    );
    assert_eq!(
        scope.get(&"angry".to_string()),
        Some(&Value::Object(Object::Native(Native::Angry)))
    );
}

#[test]
fn repl_scope_persists_across_runs() {
    let mut scope = Scope::new();
    run_source("var x = 41", &mut scope).expect("first line failed");
    let r = run_source("x + 1", &mut scope).expect("second line failed");
    assert_eq!(r, Some(Value::IntLiteral(42)));
}

#[test]
fn run_with_budget_reports_out_of_fuel() {
    let ops = vec![
        Op::Value(Value::IntLiteral(1)),
        Op::Value(Value::IntLiteral(2)),
        Op::Add,
    ];
    let mut scope = Scope::new();
    let mut vm = Machine::new(ops);
    let (r, rem) = vm.run_with_budget(&mut scope, 2);
    assert_eq!(r, Err(VmError::OutOfFuel));
    assert_eq!(rem, 0);
}

#[test]
fn parse_with_budget_reports_too_deep() {
    let mut lx = lexer("((((1))))".chars().collect());
    let tokens = tokenize(&mut lx).expect("lexing failed");
    let mut parser = Parser::new(Traveler::new(tokens));
    assert_eq!(parser.parse_with_budget(2), Err(minilang::error::ParseError::TooDeep));
}
