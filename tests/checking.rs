use z_lang::ast::{BinaryOp, Span, Type};
use z_lang::lexer::lex;
use z_lang::parser::parse;
use z_lang::typechecker::{typecheck, types_equal, ErrorKind, TypeChecker, TypeError};

fn check(src: &str) -> Result<(), TypeError> {
    let prog = parse(lex(src).ok().unwrap()).ok().unwrap();
    typecheck(prog).map(|_| ())
}

fn sp() -> Span {
    Span { start: 0, end: 1 }
}

#[test]
fn binary_op_numeric_promotion() {
    let tc = TypeChecker::new();
    let r = tc.check_binary_op(&BinaryOp::Add, &Type::Int, &Type::Int, &sp()).ok().unwrap();
    assert_eq!(r.to_string(), "int");
    let r = tc.check_binary_op(&BinaryOp::Add, &Type::Int, &Type::Float, &sp()).ok().unwrap();
    assert_eq!(r.to_string(), "float");
    let r = tc.check_binary_op(&BinaryOp::Mul, &Type::Float, &Type::Int, &sp()).ok().unwrap();
    assert_eq!(r.to_string(), "float");
    let r = tc.check_binary_op(&BinaryOp::Lt, &Type::Int, &Type::Float, &sp()).ok().unwrap();
    assert_eq!(r.to_string(), "bool");
}

#[test]
fn binary_op_string_concatenation() {
    let tc = TypeChecker::new();
    for (l, r) in [(Type::String, Type::String), (Type::String, Type::Int), (Type::Int, Type::String)] {
        let t = tc.check_binary_op(&BinaryOp::Add, &l, &r, &sp()).ok().unwrap();
        assert_eq!(t.to_string(), "string");
    }
    let e = tc.check_binary_op(&BinaryOp::Sub, &Type::String, &Type::Int, &sp()).err().unwrap();
    assert_eq!(e.kind, ErrorKind::Type);
    assert_eq!(e.span, Some(sp()));
}

#[test]
fn binary_op_rejections() {
    let tc = TypeChecker::new();
    assert!(tc.check_binary_op(&BinaryOp::Lt, &Type::String, &Type::Int, &sp()).is_err());
    assert!(tc.check_binary_op(&BinaryOp::And, &Type::Bool, &Type::Int, &sp()).is_err());
    let t = tc.check_binary_op(&BinaryOp::Eq, &Type::String, &Type::Int, &sp()).ok().unwrap();
    assert_eq!(t.to_string(), "bool");
}

#[test]
fn type_compatibility_is_exact() {
    let tc = TypeChecker::new();
    assert!(tc.check_type_compatibility(&Type::Int, &Type::Int, &sp()).is_ok());
    assert!(tc.check_type_compatibility(&Type::Int, &Type::Float, &sp()).is_err());
    let a = Type::Array(Box::new(Type::Struct("P".to_string())));
    let b = Type::Array(Box::new(Type::Struct("P".to_string())));
    let c = Type::Array(Box::new(Type::Struct("Q".to_string())));
    assert!(types_equal(&a, &b));
    assert!(!types_equal(&a, &c));
}

#[test]
fn check_let_inference_and_annotation() {
    assert!(check("let x = 1 + 2; let y: int = x * 3;").is_ok());
    assert!(check("let z: float = 1 + 2.5;").is_ok());
    assert!(check("let w: int = 1 + 2.5;").is_err());
}

#[test]
fn check_let_float_from_int_is_type_error() {
    let e = check("let y: float = 5;").err().unwrap();
    assert_eq!(e.kind, ErrorKind::Type);
    assert_eq!(e.span, Some(Span { start: 0, end: 17 }));
}

#[test]
fn check_let_without_type_or_value() {
    let e = check("let q;").err().unwrap();
    assert_eq!(e.kind, ErrorKind::Type);
}

#[test]
fn check_string_concatenation_program() {
    assert!(check("let s: string = \"x\" + \"y\"; let t: string = \"x\" + 5; let u: string = 5 + \"x\";").is_ok());
}

#[test]
fn check_undefined_name_reports_its_span() {
    let e = check("let a = 1;\nlet b = a + zz;").err().unwrap();
    assert_eq!(e.kind, ErrorKind::Name);
    assert_eq!(e.span, Some(Span { start: 23, end: 25 }));
    assert_eq!(e.to_string(), "Type error at position 23: Undefined variable: zz");
}

#[test]
fn check_initializer_cannot_see_its_own_name() {
    let e = check("let x = x;").err().unwrap();
    assert_eq!(e.kind, ErrorKind::Name);
}

#[test]
fn check_forward_reference_to_function() {
    assert!(check("let r: int = twice(4); fn twice(n: int) -> int { return n * 2; }").is_ok());
    assert!(check("let r: float = twice(4); fn twice(n: int) -> int { return n * 2; }").is_err());
    assert!(check("let r = twice(true); fn twice(n: int) -> int { return n; }").is_err());
}

#[test]
fn check_function_body_and_return() {
    assert!(check("fn f(a: int) -> bool { return a > 1; }").is_ok());
    assert!(check("fn f(a: int) -> bool { return a; }").is_err());
    assert!(check("return 1;").is_err());
}

#[test]
fn check_scopes_in_blocks() {
    assert!(check("let a = 1; { let b = a; }").is_ok());
    let e = check("{ let b = 1; } let c = b;").err().unwrap();
    assert_eq!(e.kind, ErrorKind::Name);
}

#[test]
fn check_conditions_must_be_bool() {
    assert!(check("let x = 1; while x < 10 { x = x + 1; }").is_ok());
    assert!(check("while 1 { }").is_err());
    assert!(check("if 1 { }").is_err());
}

#[test]
fn check_structs_arrays_and_for() {
    assert!(check("struct P { x: int } fn f(p: P) -> int { return p.x; }").is_ok());
    assert!(check("struct P { x: int } fn f(p: P) -> int { return p.y; }").is_err());
    assert!(check("let xs = [1, 2, 3]; let s = 0; for v in xs { s = s + v; } let h: int = xs[0];").is_ok());
    assert!(check("let ys = [1, true];").is_err());
    assert!(check("for v in 3 { }").is_err());
}

#[test]
fn check_lambda_type() {
    assert!(check("let f = fn(a: int) { a + 1 }; let g: fn(int) -> int = f;").is_ok());
    assert!(check("let f = fn(a) { a };").is_err());
}

#[test]
fn check_again_is_idempotent() {
    let prog = parse(lex("fn main() { let a = 1; } let b = 2.0 + 1;").ok().unwrap()).ok().unwrap();
    let once = typecheck(prog).ok().unwrap();
    let text = format!("{:?}", once);
    let twice = typecheck(once).ok().unwrap();
    assert_eq!(format!("{:?}", twice), text);
}
