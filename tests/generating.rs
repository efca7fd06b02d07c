use z_lang::codegen::{generate_ir, int_to_text, uint_to_text, RUNTIME};
use z_lang::lexer::lex;
use z_lang::optimizer::optimize;
use z_lang::parser::parse;
use z_lang::typechecker::typecheck;
use z_lang::{compile_source, CompilerError};

fn lower(src: &str) -> String {
    let prog = parse(lex(src).ok().unwrap()).ok().unwrap();
    let checked = typecheck(prog).ok().unwrap();
    generate_ir(checked).ok().unwrap()
}

fn entry(src: &str) -> String {
    let c = lower(src);
    let start = c.find("int main() {\n").unwrap();
    c[start..].to_string()
}

#[test]
fn scenario_let_sum_is_int_declaration() {
    assert_eq!(entry("let x = 1 + 2;"), "int main() {\n    int x = (1 + 2);\n    return 0;\n}\n");
}

#[test]
fn scenario_string_literals_fold() {
    assert_eq!(entry("let s = \"a\" + \"b\";"), "int main() {\n    const char* s = \"ab\";\n    return 0;\n}\n");
}

#[test]
fn scenario_float_from_int_fails_checking() {
    assert!(matches!(compile_source("let y: Float = 5;", 0), Err(CompilerError::TypeError(_))));
    assert!(matches!(compile_source("let y: float = 5;", 0), Err(CompilerError::TypeError(_))));
}

#[test]
fn scenario_empty_while_true() {
    assert_eq!(entry("while true { }"), "int main() {\n    while (1) {\n    }\n    return 0;\n}\n");
}

#[test]
fn generate_starts_with_runtime() {
    let c = lower("let a = 1;");
    assert!(c.starts_with(RUNTIME));
    assert!(RUNTIME.contains("char* concat_str_int(const char* str, int num)"));
}

#[test]
fn generate_concat_with_numbers() {
    let c = entry("let s = \"n=\" + 5; let t = \"f=\" + 1.5; let u = 2 + \"x\";");
    assert!(c.contains("const char* s = concat_str_int(\"n=\", 5);"));
    assert!(c.contains("const char* t = concat_str_float(\"f=\", 1.5);"));
    assert!(c.contains("const char* u = concat_int_str(2, \"x\");"));
}

#[test]
fn generate_main_body_and_functions() {
    let c = lower("fn add(a: int, b: int) -> int { return a + b; } fn main() { let r = add(1, 2); let s = r; }");
    assert!(c.contains("int add(int a, int b) {\n    return (a + b);\n}\n"));
    assert!(c.contains("int main() {\n    int r = add(1, 2);\n    int s = r;\n    return 0;\n}\n"));
}

#[test]
fn generate_if_else_chain() {
    let c = entry("let a = 1; if a > 1 { a = 2; } else if a < 0 { a = 3; } else { a = 4; }");
    assert!(c.contains("    if ((a > 1)) {\n        a = 2;\n    } else if ((a < 0)) {\n        a = 3;\n    } else {\n        a = 4;\n    }\n"));
}

#[test]
fn generate_struct_and_literals() {
    let c = lower("struct P { x: int } let b = !false; let n = -7; let f: float;");
    assert!(c.contains("typedef struct P {\n    int x;\n} P;\n"));
    assert!(c.contains("    bool b = (!0);\n"));
    assert!(c.contains("    int n = (-7);\n"));
    assert!(c.contains("    double f = 0;\n"));
}

#[test]
fn generate_rejects_for_loops() {
    let prog = parse(lex("let xs = [1]; for v in xs { }").ok().unwrap()).ok().unwrap();
    let checked = typecheck(prog).ok().unwrap();
    let e = generate_ir(checked).err().unwrap();
    assert!(e.to_string().starts_with("Code generation error: "));
}

#[test]
fn number_texts() {
    assert_eq!(int_to_text(-42), "-42");
    assert_eq!(int_to_text(0), "0");
    assert_eq!(int_to_text(i64::MIN), "-9223372036854775808");
    assert_eq!(uint_to_text(1234567890), "1234567890");
}

#[test]
fn optimize_tiers() {
    let t0 = optimize("X".to_string(), 0).ok().unwrap();
    assert_eq!(t0, "// Z Language code with optimization level 0\n// Optimizations applied:\n// - No optimizations\n\nX");
    let t1 = optimize("X".to_string(), 1).ok().unwrap();
    assert!(t1.contains("#define Z_OPT_LEVEL 1\n") && t1.ends_with("\n\nX"));
    let t2 = optimize("X".to_string(), 2).ok().unwrap();
    assert!(t2.contains("#define likely(x)   __builtin_expect(!!(x), 1)\n"));
    let t3 = optimize("X".to_string(), 3).ok().unwrap();
    assert!(t3.contains("#ifdef __SSE__\n") && t3.contains("#ifdef _OPENMP\n"));
    let t9 = optimize("X".to_string(), 9).ok().unwrap();
    assert_eq!(t9, t3);
}

#[test]
fn compile_source_stages() {
    assert!(matches!(compile_source("let $", 3), Err(CompilerError::LexerError(_))));
    assert!(matches!(compile_source("let 1", 3), Err(CompilerError::ParserError(_))));
    assert!(matches!(compile_source("let a = b;", 3), Err(CompilerError::TypeError(_))));
    assert!(matches!(compile_source("let xs = [1]; for v in xs { }", 3), Err(CompilerError::CodegenError(_))));
    let ok = compile_source("let x = 1 + 2;", 1).ok().unwrap();
    assert!(ok.starts_with("// Z Language code with optimization level 1\n"));
    assert!(ok.contains("    int x = (1 + 2);\n"));
    match compile_source("let $", 3) {
        Err(CompilerError::LexerError(m)) => assert_eq!(m, "Lexer error at position 4: Invalid token: '$'"),
        _ => panic!("expected a lexer error"),
    }
}

#[test]
fn runtime_routines_are_callable() {
    let c = entry("fn main() { print(\"hi\"); print_int(1 + 2); print_float(2.5); }");
    assert!(c.contains("    print(\"hi\");\n    print_int((1 + 2));\n    print_float(2.5);\n"));
    assert!(matches!(compile_source("print(1);", 0), Err(CompilerError::TypeError(_))));
}

#[test]
fn declarations_follow_the_kinds_of_names() {
    let c = entry("let s = \"a\"; let t = s + 1; let u = s; let x = 2.5; let y = x * 2;");
    assert!(c.contains("    const char* t = concat_str_int(s, 1);\n"));
    assert!(c.contains("    const char* u = s;\n"));
    assert!(c.contains("    double y = (x * 2);\n"));
    let c = lower("fn name() -> string { return \"x\"; } fn main() { let n = name(); let m = n + \"!\"; }");
    assert!(c.contains("    const char* n = name();\n"));
    assert!(c.contains("    const char* m = concat_str_str(n, \"!\");\n"));
    let c = lower("fn half(v: float) -> float { let w = v; return w / 2; }");
    assert!(c.contains("double half(double v) {\n    double w = v;\n    return (w / 2);\n}\n"));
}
