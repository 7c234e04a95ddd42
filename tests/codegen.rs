use toylang::ast::{Expression, Statement};
use toylang::compiler::{compile_source, Compiler, Registers};
use toylang::error::CompileError;
use toylang::symbols::{Symbol, SymbolTable};

fn lines(src: &str) -> Vec<String> {
    compile_source(src.to_string()).unwrap().lines().map(|l| l.to_string()).collect()
}

fn function_body(src: &str, name: &str) -> Vec<String> {
    let all = lines(src);
    let start = all.iter().position(|l| l == &format!("{}:", name)).unwrap();
    let rest = &all[start + 1..];
    let end = rest
        .iter()
        .position(|l| !l.starts_with('\t') && !l.starts_with('.'))
        .unwrap_or(rest.len());
    rest[..end].to_vec()
}

#[test]
fn end_to_end_main() {
    let body = function_body("func main() { var x: int = 2 + 3; return x; }", "main");
    let want = vec![
        "\tPUSH RBP",
        "\tMOV RBP, RSP",
        "\tSUB RSP, 16",
        "\tPUSH 2",
        "\tPUSH 3",
        "\tPOP RBX",
        "\tPOP RAX",
        "\tADD RAX, RBX",
        "\tPUSH RAX",
        "\tPOP RAX",
        "\tMOV QWORD [rbp-8], RAX",
        "\tMOV RAX, QWORD [rbp-8]",
        "\tPUSH RAX",
        "\tLEAVE",
        "\tRET",
        "\tXOR EAX, EAX",
        "\tLEAVE",
        "\tRET",
    ];
    assert_eq!(body, want);
}

#[test]
fn listing_starts_with_header_and_builtin() {
    let all = lines("");
    assert_eq!(all[0], "section .text");
    assert_eq!(all[1], "global main");
    assert!(all[2].ends_with(" printf"));
    assert_eq!(all[3], "print:");
    assert_eq!(
        &all[4..],
        &[
            "\tPUSH RBP",
            "\tMOV RBP, RSP",
            "\tMOV RDI, [RBP + 16]",
            "\tMOV RSI, [RBP + 24]",
            "\tXOR RAX, RAX",
            "\tCALL printf",
            "\tLEAVE",
            "\tRET"
        ]
    );
}

#[test]
fn frame_reflects_largest_offset() {
    let body = function_body("func f() { var a: int; var b: int; var c: int; }", "f");
    assert_eq!(body[2], "\tSUB RSP, 24");
    assert_eq!(body[3..], ["\tMOV RSP, RBP", "\tPOP RBP", "\tRET"]);
    let body = function_body("func g() { var a: int; }", "g");
    assert_eq!(body[2], "\tSUB RSP, 16");
    let body = function_body("func h() { }", "h");
    assert_eq!(body[2], "\tSUB RSP, 16");
}

#[test]
fn parameters_are_copied_to_local_slots() {
    let body = function_body("func f(a: int, b: int) { var c: int = a; }", "f");
    assert_eq!(
        body[2..7],
        [
            "\tSUB RSP, 32",
            "\tMOV RAX, QWORD [RBP + 16]",
            "\tMOV QWORD [RBP - 16], RAX",
            "\tMOV RAX, QWORD [RBP + 24]",
            "\tMOV QWORD [RBP - 24], RAX"
        ]
    );
    assert_eq!(body[7], "\tMOV RAX, QWORD [rbp-16]");
    assert_eq!(body[10], "\tMOV QWORD [rbp-32], RAX");
}

#[test]
fn block_variable_is_not_visible_after_the_block() {
    let r = compile_source("func main() { var a: int = 1; if a { var b: int = 2; } return b; }".to_string());
    match r {
        Err(CompileError::UndefinedVariable(name)) => assert_eq!(name, "b"),
        _ => panic!("expected an undefined variable"),
    }
}

#[test]
fn block_keeps_enclosing_offsets() {
    let body = function_body(
        "func main() { var a: int; if 1 { var b: int; var c: int; } var d: int = 7; return d; }",
        "main",
    );
    assert_eq!(body[2], "\tSUB RSP, 24");
    assert!(body.contains(&"\tMOV QWORD [rbp-16], RAX".to_string()));
    assert!(!body.contains(&"\tMOV QWORD [rbp-32], RAX".to_string()));
}

#[test]
fn outer_variable_shadowed_in_block() {
    let body = function_body("func main() { var a: int = 1; if a { var a: int = 2; a = 3; } a = 4; }", "main");
    assert!(body.contains(&"\tMOV QWORD [rbp-16], RAX".to_string()));
    assert_eq!(body[body.len() - 4], "\tMOV QWORD [rbp-8], RAX");
}

#[test]
fn if_else_labels() {
    let body = function_body("func main() { if 1 < 2 { print(\"a\", 1); } else { print(\"b\", 2); } }", "main");
    let want_tail = vec![
        "\tPUSH 1",
        "\tPUSH 2",
        "\tPOP RBX",
        "\tPOP RAX",
        "\tCMP RAX, RBX",
        "\tSETL AL",
        "\tMOVZX RAX, AL",
        "\tPUSH RAX",
        "\tPOP RAX",
        "\tCMP RAX, 0",
        "\tJE .A0",
    ];
    assert_eq!(body[3..14], want_tail[..]);
    let all = lines("func main() { if 1 < 2 { print(\"a\", 1); } else { print(\"b\", 2); } }");
    assert!(all.contains(&".A0:".to_string()));
    assert!(all.contains(&".A1:".to_string()));
    assert!(all.contains(&"\tJMP .A1".to_string()));
    assert_eq!(all[0], "section .data");
    assert_eq!(all[1], ".S0:");
    assert_eq!(all[2], "\tDB \"a\", 0");
    assert_eq!(all[3], ".S1:");
}

#[test]
fn call_pushes_arguments_last_first() {
    let body = function_body("func main() { print(\"x\", 5); }", "main");
    assert_eq!(body[3..7], ["\tPUSH 5", "\tMOV RAX, .S0", "\tPUSH RAX", "\tCALL print"]);
}

#[test]
fn wrong_argument_count_is_rejected() {
    let r = compile_source("func f(a: int, b: int) { return a; } func main() { f(1); }".to_string());
    match r {
        Err(CompileError::ArgumentCount { name, expected, found }) => {
            assert_eq!(name, "f");
            assert_eq!(expected, 2);
            assert_eq!(found, 1);
        }
        _ => panic!("expected an argument count error"),
    }
}

#[test]
fn undeclared_function_is_rejected() {
    assert!(matches!(
        compile_source("func main() { g(1); }".to_string()),
        Err(CompileError::UndefinedFunction(_))
    ));
    assert!(matches!(
        compile_source("func main() { main2(); } func main2() { }".to_string()),
        Err(CompileError::UndefinedFunction(_))
    ));
}

#[test]
fn assignment_to_non_identifier_is_rejected() {
    assert!(matches!(
        compile_source("func main() { 1 = 2; }".to_string()),
        Err(CompileError::AssignToNonIdentifier)
    ));
}

#[test]
fn unsupported_operator_is_rejected() {
    assert!(matches!(
        compile_source("func main() { var a: int = 4 / 2; }".to_string()),
        Err(CompileError::UnsupportedOperator(_))
    ));
}

#[test]
fn undefined_variable_read_fails() {
    assert!(matches!(
        compile_source("func main() { return y; }".to_string()),
        Err(CompileError::UndefinedVariable(_))
    ));
}

#[test]
fn invalid_handle_is_rejected() {
    let stmts = vec![Statement::ExpressionStatement(3)];
    let mut c = Compiler::new(stmts, vec![Expression::Integer(1)]);
    assert!(matches!(c.compile(), Err(CompileError::InvalidHandle)));
    let stmts = vec![Statement::ExpressionStatement(0)];
    let program = vec![Expression::InfixExpression { left: 0, op: toylang::token::TokenType::Plus, right: 0 }];
    let mut c = Compiler::new(stmts, program);
    assert!(matches!(c.compile(), Err(CompileError::InvalidHandle)));
}

#[test]
fn prefix_minus_subtracts_from_zero() {
    let body = function_body("func main() { var a: int = -7; }", "main");
    assert_eq!(
        body[3..10],
        ["\tPUSH 0", "\tPUSH 7", "\tPOP RBX", "\tPOP RAX", "\tSUB RAX, RBX", "\tPUSH RAX", "\tPOP RAX"]
    );
}

#[test]
fn compiling_twice_gives_identical_output() {
    let src = "func f(a: int) { return a * 2; } func main() { var x: int = f(3); if x > 1 { print(\"%d\", x); } return 0; }";
    let a = compile_source(src.to_string()).unwrap();
    let b = compile_source(src.to_string()).unwrap();
    assert_eq!(a, b);
}

#[test]
fn compiler_step_by_step() {
    let mut p = toylang::parser::Parser::new(toylang::tokenizer::Tokenizer::new("func main() { return 1; }".to_string()));
    let stmts = p.parse_program().unwrap();
    let mut c = Compiler::new(stmts, p.get_program());
    c.compile().unwrap();
    let text = c.to_assembly();
    assert!(text.starts_with("section .text\nglobal main\n"));
    assert!(text.ends_with("\tPUSH 1\n\tLEAVE\n\tRET\n\tXOR EAX, EAX\n\tLEAVE\n\tRET"));
}

#[test]
fn register_names() {
    assert_eq!(Registers::RAX.to_string(), "RAX");
    assert_eq!(Registers::AL.to_string(), "AL");
    assert_eq!(Registers::RBP.to_string(), "RBP");
}

#[test]
fn symbol_table_scopes() {
    let mut t = SymbolTable::new();
    t.add("a".to_string(), Symbol { symb_type: "int".to_string(), offset: 8 });
    assert_eq!(t.cur_offset(), 8);
    t.enter_scope(t.cur_offset());
    t.add("b".to_string(), Symbol { symb_type: "int".to_string(), offset: 16 });
    t.add("a".to_string(), Symbol { symb_type: "str".to_string(), offset: 24 });
    assert_eq!(t.cur_offset(), 24);
    assert_eq!(t.get(&"a".to_string()).unwrap().offset, 24);
    assert_eq!(t.get(&"a".to_string()).unwrap().symb_type, "str");
    assert!(t.move_out().is_ok());
    assert_eq!(t.cur_offset(), 8);
    assert!(t.get(&"b".to_string()).is_none());
    assert_eq!(t.get(&"a".to_string()).unwrap().offset, 8);
    assert!(matches!(t.move_out(), Err(CompileError::ScopeUnderflow)));
    let t2 = SymbolTable::new_from_outer(t);
    assert_eq!(t2.cur_offset(), 0);
    assert_eq!(t2.get(&"a".to_string()).unwrap().offset, 8);
}

#[test]
fn builtin_registration() {
    let mut c = Compiler::new(Vec::new(), Vec::new());
    c.add_builtin_function("show".to_string());
    let text = c.to_assembly();
    assert!(text.starts_with("section .text\nshow:\n\tPUSH RBP\n"));
}
