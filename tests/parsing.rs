use toylang::ast::{Expression, Statement};
use toylang::error::CompileError;
use toylang::parser::{parse_integer, Parser, Prio};
use toylang::token::TokenType;
use toylang::tokenizer::Tokenizer;

fn parse(src: &str) -> Result<(Vec<Statement>, Vec<Expression>), CompileError> {
    let mut p = Parser::new(Tokenizer::new(src.to_string()));
    let stmts = p.parse_program()?;
    Ok((stmts, p.get_program()))
}

fn shape(store: &[Expression], e: usize) -> String {
    match &store[e] {
        Expression::InfixExpression { left, op, right } => {
            format!("Infix({:?}, {}, {})", op, shape(store, *left), shape(store, *right))
        }
        Expression::PrefixExpression { op, right } => format!("Prefix({:?}, {})", op, shape(store, *right)),
        Expression::AssignExpression { left, right } => {
            format!("Assign({}, {})", shape(store, *left), shape(store, *right))
        }
        Expression::FunctionCall { left, parameters } => {
            let args: Vec<String> = parameters.iter().map(|a| shape(store, *a)).collect();
            format!("Call({}, [{}])", shape(store, *left), args.join(", "))
        }
        Expression::Integer(i) => format!("{}", i),
        Expression::String(s) => format!("{:?}", s),
        Expression::Identifier { value, .. } => value.clone(),
    }
}

fn expr_shape(src: &str) -> String {
    let (stmts, store) = parse(src).unwrap();
    match &stmts[0] {
        Statement::ExpressionStatement(e) => shape(&store, *e),
        _ => panic!("not an expression statement"),
    }
}

#[test]
fn multiplication_binds_tighter_than_addition() {
    assert_eq!(expr_shape("1 + 2 * 3;"), "Infix(Plus, 1, Infix(Astrik, 2, 3))");
}

#[test]
fn subtraction_groups_to_the_left() {
    assert_eq!(expr_shape("10 - 3 - 2;"), "Infix(Minus, Infix(Minus, 10, 3), 2)");
}

#[test]
fn parentheses_and_prefix() {
    assert_eq!(expr_shape("(1 + 2) * -x;"), "Infix(Astrik, Infix(Plus, 1, 2), Prefix(Minus, x))");
    assert_eq!(expr_shape("+5;"), "5");
}

#[test]
fn comparison_and_assignment() {
    assert_eq!(expr_shape("a = b + 1 < c;"), "Assign(a, Infix(LT, Infix(Plus, b, 1), c))");
    assert_eq!(expr_shape("a == b;"), "Infix(EQ, a, b)");
}

#[test]
fn calls_build_call_nodes() {
    assert_eq!(expr_shape("f(1, g(2), x + 1);"), "Call(f, [1, Call(g, [2]), Infix(Plus, x, 1)])");
    assert_eq!(expr_shape("f();"), "Call(f, [])");
}

#[test]
fn children_come_before_parents() {
    let (_, store) = parse("1 + 2 * 3 - f(4);").unwrap();
    for (i, e) in store.iter().enumerate() {
        match e {
            Expression::InfixExpression { left, right, .. } => assert!(*left < i && *right < i),
            Expression::FunctionCall { left, parameters } => {
                assert!(*left < i);
                assert!(parameters.iter().all(|a| *a < i));
            }
            _ => {}
        }
    }
}

#[test]
fn statements_of_each_kind() {
    let src = "var a: int; var b: int = 1; func f(x: int, y: str): int { return x; } if a { b = 2; } else { b = 3; } f(a, b);";
    let (stmts, _) = parse(src).unwrap();
    assert_eq!(stmts.len(), 5);
    assert!(matches!(&stmts[0], Statement::VarStatement { value: None, .. }));
    assert!(matches!(&stmts[1], Statement::VarStatement { value: Some(_), .. }));
    match &stmts[2] {
        Statement::FuncStatement { name, call_inputs, return_type, body } => {
            assert_eq!(name, "f");
            assert_eq!(call_inputs.len(), 2);
            assert_eq!(call_inputs[1].name, "y");
            assert_eq!(call_inputs[1].param_type, "str");
            assert_eq!(return_type.as_deref(), Some("int"));
            assert_eq!(body.len(), 1);
        }
        _ => panic!("expected a function"),
    }
    assert!(matches!(&stmts[3], Statement::IfElseStatement { else_body: Some(_), .. }));
    assert!(matches!(&stmts[4], Statement::ExpressionStatement(_)));
}

#[test]
fn missing_right_parenthesis_is_a_syntax_error() {
    match parse("(1 + 2;") {
        Err(CompileError::SyntaxError { expected, found }) => {
            assert_eq!(expected, Some(TokenType::RParent));
            assert_eq!(found, TokenType::Semicolon);
        }
        _ => panic!("expected a syntax error"),
    }
}

#[test]
fn missing_type_is_a_syntax_error() {
    assert!(matches!(
        parse("var x = 1;"),
        Err(CompileError::SyntaxError { expected: Some(TokenType::Colon), found: TokenType::Assign })
    ));
}

#[test]
fn delimiter_cannot_start_an_expression() {
    assert!(matches!(
        parse("f(,);"),
        Err(CompileError::SyntaxError { expected: None, found: TokenType::Comma })
    ));
}

#[test]
fn oversized_integer_is_rejected() {
    assert!(matches!(parse("99999999999999999999;"), Err(CompileError::InvalidInteger)));
    let (stmts, store) = parse("9223372036854775807;").unwrap();
    match &stmts[0] {
        Statement::ExpressionStatement(e) => assert!(matches!(store[*e], Expression::Integer(i64::MAX))),
        _ => panic!(),
    }
}

#[test]
fn integer_text_values() {
    assert_eq!(parse_integer(&vec!['4', '2']), Some(42));
    assert_eq!(parse_integer(&vec!['4', 'x']), None);
    assert_eq!(parse_integer(&vec![]), Some(0));
}

#[test]
fn operator_strengths() {
    assert_eq!(Parser::get_prio(&TokenType::Astrik), Prio::Mult);
    assert_eq!(Parser::get_prio(&TokenType::LParent), Prio::Call);
    assert_eq!(Parser::get_prio(&TokenType::Semicolon), Prio::Lowest);
    assert_eq!(Parser::get_prio(&TokenType::EQ), Prio::Equal);
}

fn reprint(src: &str) -> String {
    let mut p = Parser::new(Tokenizer::new(src.to_string()));
    let stmts = p.parse_program().unwrap();
    let mut out = String::new();
    for s in &stmts {
        out.push_str(&p.stmt_to_string(s, 0));
    }
    out
}

#[test]
fn printing_and_reparsing_keeps_the_shape() {
    let src = "var a: int = 1 + 2 * 3; func f(x: int, y: int): int { if x < y { return -x; } else { y = x - 1; } return f(x, y); } print(\"%d\", a);";
    let once = reprint(src);
    let twice = reprint(&once);
    assert_eq!(once, twice);
    assert!(once.starts_with("var a: int = (1 + (2 * 3));\n"));
    assert!(once.contains("\tif (x < y) {\n\t\treturn (-x);\n\t} else {\n\t\t(y = (x - 1));\n\t}\n"));
}

#[test]
fn printing_with_indent() {
    let mut p = Parser::new(Tokenizer::new("return 1;".to_string()));
    let stmts = p.parse_program().unwrap();
    assert_eq!(p.stmt_to_string(&stmts[0], 2), "\t\treturn 1;\n");
    assert_eq!(p.stmt_to_string(&stmts[0], -1), "return 1;\n");
    assert_eq!(p.exp_to_string(0), "1");
}
