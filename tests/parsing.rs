use z_lang::ast::{BinaryOp, Expr, Literal, Stmt, Type, UnaryOp};
use z_lang::lexer::lex;
use z_lang::parser::parse;

fn program(src: &str) -> Vec<Stmt> {
    parse(lex(src).ok().unwrap()).ok().unwrap().statements
}

fn single_expr(src: &str) -> Expr {
    let mut ss = program(src);
    assert_eq!(ss.len(), 1);
    match ss.remove(0) {
        Stmt::Expr(e) => e,
        other => panic!("not an expression statement: {:?}", other),
    }
}

#[test]
fn parse_precedence_mul_over_add() {
    match single_expr("1 + 2 * 3;") {
        Expr::Binary(l, BinaryOp::Add, r, sp) => {
            assert!(matches!(*l, Expr::Literal(Literal::Int(1), _)));
            assert!(matches!(*r, Expr::Binary(_, BinaryOp::Mul, _, _)));
            assert_eq!((sp.start, sp.end), (0, 9));
        }
        other => panic!("{:?}", other),
    }
}

#[test]
fn parse_left_associative_subtraction() {
    match single_expr("a - b - c") {
        Expr::Binary(l, BinaryOp::Sub, r, _) => {
            assert!(matches!(*l, Expr::Binary(_, BinaryOp::Sub, _, _)));
            assert!(matches!(*r, Expr::Identifier(ref n, _) if n == "c"));
        }
        other => panic!("{:?}", other),
    }
}

#[test]
fn parse_logical_and_comparison_levels() {
    match single_expr("a < b && c == d || !e") {
        Expr::Binary(l, BinaryOp::Or, r, _) => {
            assert!(matches!(*l, Expr::Binary(_, BinaryOp::And, _, _)));
            assert!(matches!(*r, Expr::Unary(UnaryOp::Not, _, _)));
        }
        other => panic!("{:?}", other),
    }
}

#[test]
fn parse_postfix_call_index_field() {
    match single_expr("f(1, x)[0].len") {
        Expr::Field(b, name, _) => {
            assert_eq!(name, "len");
            match *b {
                Expr::Index(c, _, _) => match *c {
                    Expr::Call(callee, args, _) => {
                        assert!(matches!(*callee, Expr::Identifier(ref n, _) if n == "f"));
                        assert_eq!(args.len(), 2);
                    }
                    other => panic!("{:?}", other),
                },
                other => panic!("{:?}", other),
            }
        }
        other => panic!("{:?}", other),
    }
}

#[test]
fn parse_let_forms() {
    let ss = program("let a: int = 1; let b = 2.5; let c: [string];");
    assert_eq!(ss.len(), 3);
    match &ss[0] {
        Stmt::Let(n, Some(Type::Int), Some(Expr::Literal(Literal::Int(1), _)), _) => assert_eq!(n, "a"),
        other => panic!("{:?}", other),
    }
    match &ss[1] {
        Stmt::Let(n, None, Some(Expr::Literal(Literal::Float(t), _)), _) => {
            assert_eq!(n, "b");
            assert_eq!(t, "2.5");
        }
        other => panic!("{:?}", other),
    }
    match &ss[2] {
        Stmt::Let(_, Some(Type::Array(e)), None, _) => assert!(matches!(**e, Type::String)),
        other => panic!("{:?}", other),
    }
}

#[test]
fn parse_function_declaration() {
    let ss = program("fn add(a: int, b: int) -> int { return a + b; }");
    match &ss[0] {
        Stmt::Function(name, params, Type::Int, body, _) => {
            assert_eq!(name, "add");
            assert_eq!(params.len(), 2);
            assert_eq!(params[1].0, "b");
            match &**body {
                Stmt::Block(stmts, _) => assert!(matches!(stmts[0], Stmt::Return(Some(_), _))),
                other => panic!("{:?}", other),
            }
        }
        other => panic!("{:?}", other),
    }
}

#[test]
fn parse_function_without_return_type_is_void() {
    let ss = program("fn main() { }");
    assert!(matches!(&ss[0], Stmt::Function(n, p, Type::Void, _, _) if n == "main" && p.is_empty()));
}

#[test]
fn parse_struct_while_for_import() {
    let ss = program("struct P { x: int y: float } while x < 3 { x = x + 1; } for i in xs { } import io;");
    assert!(matches!(&ss[0], Stmt::Struct(n, f, _) if n == "P" && f.len() == 2));
    assert!(matches!(&ss[1], Stmt::While(_, _, _)));
    assert!(matches!(&ss[2], Stmt::For(n, _, _, _) if n == "i"));
    assert!(matches!(&ss[3], Stmt::Import(p, _) if p == "io"));
}

#[test]
fn parse_if_else_chain_and_lambda() {
    let ss = program("if a { 1 } else if b { 2 } else { 3 } let f = fn(x: int) { x };");
    match &ss[0] {
        Stmt::Expr(Expr::If(_, _, Some(el), _)) => assert!(matches!(**el, Expr::If(_, _, Some(_), _))),
        other => panic!("{:?}", other),
    }
    assert!(matches!(&ss[1], Stmt::Let(_, None, Some(Expr::Lambda(_, _, _)), _)));
}

#[test]
fn parse_function_type() {
    let ss = program("let f: fn(int, float) -> bool;");
    match &ss[0] {
        Stmt::Let(_, Some(t), None, _) => assert_eq!(t.to_string(), "fn(int, float) -> bool"),
        other => panic!("{:?}", other),
    }
}

#[test]
fn parse_assignment_targets() {
    let ss = program("a[0] = 5; p.x = 1;");
    assert!(matches!(&ss[0], Stmt::Assign(Expr::Index(..), _, _)));
    assert!(matches!(&ss[1], Stmt::Assign(Expr::Field(..), _, _)));
    let err = parse(lex("1 = 2;").ok().unwrap()).err().unwrap();
    assert_eq!((err.span.start, err.span.end), (0, 1));
}

#[test]
fn parse_error_missing_semicolon_after_let() {
    let err = parse(lex("let x = 1 let").ok().unwrap()).err().unwrap();
    assert_eq!((err.span.start, err.span.end), (10, 13));
    assert!(err.to_string().starts_with("Parse error at position 10: Expected ';'"));
}

#[test]
fn parse_error_at_end_of_input() {
    let err = parse(lex("let x =").ok().unwrap()).err().unwrap();
    assert_eq!((err.span.start, err.span.end), (7, 7));
}

#[test]
fn parse_error_integer_out_of_range() {
    assert!(parse(lex("99999999999999999999;").ok().unwrap()).is_err());
    let ss = program("9223372036854775807;");
    assert!(matches!(&ss[0], Stmt::Expr(Expr::Literal(Literal::Int(i64::MAX), _))));
}

#[test]
fn parse_is_deterministic() {
    let src = "fn main() { let x = 1 + 2 * f(3); while x > 0 { x = x - 1; } }";
    let a = parse(lex(src).ok().unwrap()).ok().unwrap();
    let b = parse(lex(src).ok().unwrap()).ok().unwrap();
    assert_eq!(format!("{:?}", a), format!("{:?}", b));
}
