use vstd::prelude::*;
use vstd::string::StringExecFns;
use vstd::string::StrSliceExecFns;
use crate::ast::{
    BinaryOp, Expr, ExprV, LitV, Literal, Program, Stmt, StmtV, Type, TypeV, UnaryOp,
    expr_view, exprs_view, stmt_view, stmts_view, type_view, typed_fields_view,
};

verus! {

broadcast use vstd::std_specs::vec::group_vec_axioms;

/// The runtime that every generated translation unit starts with.
pub const RUNTIME: &'static str = "// Z language runtime\n#define bool _Bool\n#define true 1\n#define false 0\n#define NULL ((void*)0)\nint printf(const char* format, ...);\nint sprintf(char* buffer, const char* format, ...);\nvoid* malloc(unsigned long size);\nunsigned long strlen(const char* s);\nchar* strcpy(char* dest, const char* src);\nchar* strcat(char* dest, const char* src);\n\nvoid print(const char* message) {\n    printf(\"%s\\n\", message);\n}\n\nvoid print_int(int value) {\n    printf(\"%d\\n\", value);\n}\n\nvoid print_float(double value) {\n    printf(\"%f\\n\", value);\n}\n\nchar* concat_str_str(const char* a, const char* b) {\n    char* result = malloc(strlen(a) + strlen(b) + 1);\n    strcpy(result, a);\n    strcat(result, b);\n    return result;\n}\n\nchar* concat_str_int(const char* str, int num) {\n    char buffer[32];\n    sprintf(buffer, \"%d\", num);\n    return concat_str_str(str, buffer);\n}\n\nchar* concat_str_float(const char* str, double num) {\n    char buffer[64];\n    sprintf(buffer, \"%f\", num);\n    return concat_str_str(str, buffer);\n}\n\nchar* concat_int_str(int num, const char* str) {\n    char buffer[32];\n    sprintf(buffer, \"%d\", num);\n    return concat_str_str(buffer, str);\n}\n\nchar* concat_float_str(double num, const char* str) {\n    char buffer[64];\n    sprintf(buffer, \"%f\", num);\n    return concat_str_str(buffer, str);\n}\n\n";

/// The kind of C value an expression has, as far as its shape shows.
#[derive(Clone, Copy, Debug, PartialEq, Eq, Structural)]
pub enum CKind {
    Int,
    Double,
    Bool,
    Str,
    Other,
}

pub open spec fn digit_char(d: nat) -> char {
    if d == 0 { '0' } else if d == 1 { '1' } else if d == 2 { '2' } else if d == 3 { '3' } else if d
        == 4 { '4' } else if d == 5 { '5' } else if d == 6 { '6' } else if d == 7 { '7' } else if d
        == 8 { '8' } else { '9' }
}

/// The decimal digits of `n`.
pub open spec fn nat_text(n: nat) -> Seq<char>
    decreases n,
{
    if n < 10 {
        seq![digit_char(n)]
    } else {
        nat_text(n / 10) + seq![digit_char(n % 10)]
    }
}

pub open spec fn int_text(v: int) -> Seq<char> {
    if v < 0 {
        seq!['-'] + nat_text((-v) as nat)
    } else {
        nat_text(v as nat)
    }
}

/// `n` levels of indentation.
pub open spec fn indent_text(n: nat) -> Seq<char>
    decreases n,
{
    if n == 0 {
        Seq::empty()
    } else {
        deeper(indent_text((n - 1) as nat))
    }
}

/// One level of indentation deeper than `ind`.
pub open spec fn deeper(ind: Seq<char>) -> Seq<char> {
    ind + "    "@
}

pub open spec fn is_quoted(s: Seq<char>) -> bool {
    s.len() >= 2 && s[0] == '"' && s.last() == '"'
}

pub open spec fn unquote(s: Seq<char>) -> Seq<char> {
    s.subrange(1, s.len() - 1)
}

/// The C kinds of the names in scope, latest last.
pub type Kinds = Seq<(Seq<char>, CKind)>;

/// The kind of name `n`: the latest binding wins; unknown names are `Other`.
pub open spec fn lookup_kind(env: Kinds, n: Seq<char>) -> CKind
    decreases env.len(),
{
    if env.len() == 0 {
        CKind::Other
    } else if env.last().0 == n {
        env.last().1
    } else {
        lookup_kind(env.drop_last(), n)
    }
}

pub open spec fn type_kind(t: TypeV) -> CKind {
    match t {
        TypeV::Int => CKind::Int,
        TypeV::Float => CKind::Double,
        TypeV::Bool => CKind::Bool,
        TypeV::Str => CKind::Str,
        _ => CKind::Other,
    }
}

/// The C kind of an expression; a call has the kind of what its callee names
/// (a function stands in `env` with the kind of its result).
pub open spec fn expr_kind(e: ExprV, env: Kinds) -> CKind
    decreases e,
{
    match e {
        ExprV::Literal(LitV::Int(_), _) => CKind::Int,
        ExprV::Literal(LitV::Float(_), _) => CKind::Double,
        ExprV::Literal(LitV::Bool(_), _) => CKind::Bool,
        ExprV::Literal(LitV::Str(_), _) => CKind::Str,
        ExprV::Identifier(n, _) => lookup_kind(env, n),
        ExprV::Call(c, _, _) => expr_kind(*c, env),
        ExprV::Binary(l, op, r, _) => match op {
            BinaryOp::Add | BinaryOp::Sub | BinaryOp::Mul | BinaryOp::Div | BinaryOp::Mod => {
                let kl = expr_kind(*l, env);
                let kr = expr_kind(*r, env);
                if op == BinaryOp::Add && (kl is Str || kr is Str) {
                    CKind::Str
                } else if kl is Double || kr is Double {
                    CKind::Double
                } else {
                    CKind::Int
                }
            },
            _ => CKind::Bool,
        },
        ExprV::Unary(UnaryOp::Not, _, _) => CKind::Bool,
        ExprV::Unary(UnaryOp::Neg, x, _) => expr_kind(*x, env),
        _ => CKind::Other,
    }
}

pub open spec fn binary_op_text(op: BinaryOp) -> Seq<char> {
    match op {
        BinaryOp::Add => "+"@,
        BinaryOp::Sub => "-"@,
        BinaryOp::Mul => "*"@,
        BinaryOp::Div => "/"@,
        BinaryOp::Mod => "%"@,
        BinaryOp::Eq => "=="@,
        BinaryOp::Neq => "!="@,
        BinaryOp::Lt => "<"@,
        BinaryOp::Lte => "<="@,
        BinaryOp::Gt => ">"@,
        BinaryOp::Gte => ">="@,
        BinaryOp::And => "&&"@,
        BinaryOp::Or => "||"@,
    }
}

pub open spec fn call_text(f: Seq<char>, a: Seq<char>, b: Seq<char>) -> Seq<char> {
    f + "("@ + a + ", "@ + b + ")"@
}

/// The C text of `l + r` where at least one side is a string.
pub open spec fn concat_text(l: ExprV, lt: Seq<char>, r: ExprV, rt: Seq<char>, env: Kinds) -> Seq<char> {
    if is_quoted(lt) && is_quoted(rt) {
        "\""@ + unquote(lt) + unquote(rt) + "\""@
    } else if is_string_side(l, lt, env) {
        if is_string_side(r, rt, env) {
            call_text("concat_str_str"@, lt, rt)
        } else if expr_kind(r, env) is Double {
            call_text("concat_str_float"@, lt, rt)
        } else {
            call_text("concat_str_int"@, lt, rt)
        }
    } else if expr_kind(l, env) is Double {
        call_text("concat_float_str"@, lt, rt)
    } else {
        call_text("concat_int_str"@, lt, rt)
    }
}

pub open spec fn is_string_side(e: ExprV, t: Seq<char>, env: Kinds) -> bool {
    is_quoted(t) || expr_kind(e, env) is Str
}

/// The C text of an expression, or `None` where the C backend has no value
/// form for it (array literals, `if` and blocks as values, lambdas).
pub open spec fn gen_expr(e: ExprV, env: Kinds) -> Option<Seq<char>>
    decreases e,
{
    match e {
        ExprV::Literal(l, _) => Some(
            match l {
                LitV::Int(v) => int_text(v),
                LitV::Float(t) => t,
                LitV::Bool(b) => if b {
                    "1"@
                } else {
                    "0"@
                },
                LitV::Str(t) => t,
                LitV::Null => "NULL"@,
            },
        ),
        ExprV::Identifier(n, _) => Some(n),
        ExprV::Binary(l, op, r, _) => match (gen_expr(*l, env), gen_expr(*r, env)) {
            (Some(lt), Some(rt)) => if op == BinaryOp::Add && (is_string_side(*l, lt, env)
                || is_string_side(*r, rt, env)) {
                Some(concat_text(*l, lt, *r, rt, env))
            } else {
                Some("("@ + lt + " "@ + binary_op_text(op) + " "@ + rt + ")"@)
            },
            _ => None,
        },
        ExprV::Unary(op, x, _) => match gen_expr(*x, env) {
            Some(xt) => Some(
                "("@ + (match op {
                    UnaryOp::Neg => "-"@,
                    UnaryOp::Not => "!"@,
                }) + xt + ")"@,
            ),
            None => None,
        },
        ExprV::Call(c, args, _) => match (gen_expr(*c, env), gen_args(args, env)) {
            (Some(ct), Some(at)) => Some(ct + "("@ + at + ")"@),
            _ => None,
        },
        ExprV::Index(b, i, _) => match (gen_expr(*b, env), gen_expr(*i, env)) {
            (Some(bt), Some(it)) => Some(bt + "["@ + it + "]"@),
            _ => None,
        },
        ExprV::Field(b, n, _) => match gen_expr(*b, env) {
            Some(bt) => Some(bt + "."@ + n),
            None => None,
        },
        _ => None,
    }
}

/// Arguments separated by `, `.
pub open spec fn gen_args(args: Seq<ExprV>, env: Kinds) -> Option<Seq<char>>
    decreases args,
{
    if args.len() == 0 {
        Some(Seq::empty())
    } else {
        match gen_expr(args[0], env) {
            Some(a) => if args.len() == 1 {
                Some(a)
            } else {
                match gen_args(args.subrange(1, args.len() as int), env) {
                    Some(rest) => Some(a + ", "@ + rest),
                    None => None,
                }
            },
            None => None,
        }
    }
}

/// The C type that stands for a type of the language.
pub open spec fn c_type(t: TypeV) -> Option<Seq<char>> {
    match t {
        TypeV::Int => Some("int"@),
        TypeV::Float => Some("double"@),
        TypeV::Bool => Some("bool"@),
        TypeV::Str => Some("const char*"@),
        TypeV::Void => Some("void"@),
        TypeV::Struct(n) => Some(n),
        _ => None,
    }
}

pub open spec fn kind_c_type(k: CKind) -> Seq<char> {
    match k {
        CKind::Double => "double"@,
        CKind::Bool => "bool"@,
        CKind::Str => "const char*"@,
        _ => "int"@,
    }
}

/// What a declaration without initializer starts with.
pub open spec fn zero_value(t: TypeV) -> Option<Seq<char>> {
    match t {
        TypeV::Int => Some("0"@),
        TypeV::Float => Some("0"@),
        TypeV::Bool => Some("0"@),
        TypeV::Str => Some("\"\""@),
        _ => None,
    }
}

/// The statements of a branch or loop body: the statements of a block, or
/// the single expression as a statement.
pub open spec fn gen_branch(e: ExprV, ind: Seq<char>, env: Kinds) -> Option<Seq<char>>
    decreases e, 1nat,
{
    match e {
        ExprV::Block(ss, _) => gen_stmts(ss, ind, env),
        _ => match gen_expr(e, env) {
            Some(t) => Some(ind + t + ";\n"@),
            None => None,
        },
    }
}

/// An `if` chain, from `if` to its last closing brace.
pub open spec fn gen_if(e: ExprV, ind: Seq<char>, env: Kinds) -> Option<Seq<char>>
    decreases e, 2nat,
{
    match e {
        ExprV::If(c, th, el, _) => match (gen_expr(*c, env), gen_branch(*th, deeper(ind), env)) {
            (Some(ct), Some(tt)) => {
                let head = "if ("@ + ct + ") {\n"@ + tt + ind + "}"@;
                match el {
                    None => Some(head),
                    Some(x) => if *x is If {
                        match gen_if(*x, ind, env) {
                            Some(rest) => Some(head + " else "@ + rest),
                            None => None,
                        }
                    } else {
                        match gen_branch(*x, deeper(ind), env) {
                            Some(et) => Some(head + " else {\n"@ + et + ind + "}"@),
                            None => None,
                        }
                    },
                }
            },
            _ => None,
        },
        _ => None,
    }
}

/// The body of a loop: the statements of a block, or the one statement.
pub open spec fn gen_body(s: StmtV, ind: Seq<char>, env: Kinds) -> Option<Seq<char>>
    decreases s, 1nat,
{
    match s {
        StmtV::Block(ss, _) => gen_stmts(ss, ind, env),
        _ => match gen_stmt(s, ind, env) {
            Some((t, _)) => Some(t),
            None => None,
        },
    }
}

/// The kind that a declaration gives its name.
pub open spec fn let_kind(ann: Option<TypeV>, init: Option<ExprV>, env: Kinds) -> CKind {
    match ann {
        Some(t) => type_kind(t),
        None => match init {
            Some(x) => expr_kind(x, env),
            None => CKind::Other,
        },
    }
}

/// The C text of a statement indented by `ind`, and the kinds in scope after
/// it; `None` where the C backend cannot lower it (`for` loops, nested
/// declarations).
pub open spec fn gen_stmt(s: StmtV, ind: Seq<char>, env: Kinds) -> Option<(Seq<char>, Kinds)>
    decreases s, 0nat,
{
    match s {
        StmtV::Expr(e) => match e {
            ExprV::If(..) => match gen_if(e, ind, env) {
                Some(t) => Some((ind + t + "\n"@, env)),
                None => None,
            },
            ExprV::Block(ss, _) => match gen_stmts(ss, deeper(ind), env) {
                Some(t) => Some((ind + "{\n"@ + t + ind + "}\n"@, env)),
                None => None,
            },
            _ => match gen_expr(e, env) {
                Some(t) => Some((ind + t + ";\n"@, env)),
                None => None,
            },
        },
        StmtV::Let(n, ann, init, _) => {
            let ty: Option<Seq<char>> = match ann {
                Some(t) => c_type(t),
                None => match init {
                    Some(x) => Some(kind_c_type(expr_kind(x, env))),
                    None => None,
                },
            };
            let value: Option<Seq<char>> = match init {
                Some(x) => gen_expr(x, env),
                None => match ann {
                    Some(t) => zero_value(t),
                    None => None,
                },
            };
            match (ty, value) {
                (Some(tt), Some(vt)) => Some(
                    (ind + tt + " "@ + n + " = "@ + vt + ";\n"@, env.push((n, let_kind(ann, init, env)))),
                ),
                _ => None,
            }
        },
        StmtV::Assign(t, v, _) => match (gen_expr(t, env), gen_expr(v, env)) {
            (Some(tt), Some(vt)) => Some((ind + tt + " = "@ + vt + ";\n"@, env)),
            _ => None,
        },
        StmtV::Return(e, _) => match e {
            Some(x) => match gen_expr(x, env) {
                Some(t) => Some((ind + "return "@ + t + ";\n"@, env)),
                None => None,
            },
            None => Some((ind + "return;\n"@, env)),
        },
        StmtV::While(c, body, _) => match (gen_expr(c, env), gen_body(*body, deeper(ind), env)) {
            (Some(ct), Some(bt)) => Some((ind + "while ("@ + ct + ") {\n"@ + bt + ind + "}\n"@, env)),
            _ => None,
        },
        StmtV::Block(ss, _) => match gen_stmts(ss, deeper(ind), env) {
            Some(t) => Some((ind + "{\n"@ + t + ind + "}\n"@, env)),
            None => None,
        },
        StmtV::Import(..) => Some((Seq::empty(), env)),
        _ => None,
    }
}

/// Statements one after another, each seeing the names declared before it.
pub open spec fn gen_stmts(ss: Seq<StmtV>, ind: Seq<char>, env: Kinds) -> Option<Seq<char>>
    decreases ss, 0nat,
{
    if ss.len() == 0 {
        Some(Seq::empty())
    } else {
        match gen_stmt(ss[0], ind, env) {
            Some((a, env1)) => match gen_stmts(ss.subrange(1, ss.len() as int), ind, env1) {
                Some(b) => Some(a + b),
                None => None,
            },
            None => None,
        }
    }
}

/// `type name` for each entry, separated by `, `.
pub open spec fn gen_params(ps: Seq<(Seq<char>, TypeV)>) -> Option<Seq<char>>
    decreases ps.len(),
{
    if ps.len() == 0 {
        Some(Seq::empty())
    } else {
        match (c_type(ps[0].1), gen_params(ps.subrange(1, ps.len() as int))) {
            (Some(t), Some(rest)) => Some(
                t + " "@ + ps[0].0 + if ps.len() > 1 {
                    ", "@ + rest
                } else {
                    rest
                },
            ),
            _ => None,
        }
    }
}

/// One `type name;` line for each field.
pub open spec fn gen_fields(fs: Seq<(Seq<char>, TypeV)>) -> Option<Seq<char>>
    decreases fs.len(),
{
    if fs.len() == 0 {
        Some(Seq::empty())
    } else {
        match (c_type(fs[0].1), gen_fields(fs.subrange(1, fs.len() as int))) {
            (Some(t), Some(rest)) => Some("    "@ + t + " "@ + fs[0].0 + ";\n"@ + rest),
            _ => None,
        }
    }
}

pub open spec fn is_main(n: Seq<char>) -> bool {
    n == "main"@
}

pub open spec fn params_kinds(ps: Seq<(Seq<char>, TypeV)>) -> Kinds {
    ps.map_values(|p: (Seq<char>, TypeV)| (p.0, type_kind(p.1)))
}

/// The runtime's routines and the program's functions, each with the kind of
/// its result.
pub open spec fn program_kinds(ss: Seq<StmtV>) -> Kinds
    decreases ss.len(),
{
    if ss.len() == 0 {
        seq![("print"@, CKind::Other), ("print_int"@, CKind::Other), ("print_float"@, CKind::Other)]
    } else {
        let rest = program_kinds(ss.drop_last());
        match ss.last() {
            StmtV::Function(n, _, r, _, _) => rest.push((n, type_kind(r))),
            _ => rest,
        }
    }
}

/// What a top-level statement contributes before the entry point: a struct
/// type, or a function other than the entry function.
pub open spec fn gen_decl(s: StmtV, env: Kinds) -> Option<Seq<char>> {
    match s {
        StmtV::Struct(n, fs, _) => match gen_fields(fs) {
            Some(ft) => Some("typedef struct "@ + n + " {\n"@ + ft + "} "@ + n + ";\n\n"@),
            None => None,
        },
        StmtV::Function(n, ps, r, body, _) => if is_main(n) {
            Some(Seq::empty())
        } else {
            match (c_type(r), gen_params(ps), gen_body(*body, "    "@, env + params_kinds(ps))) {
                (Some(rt), Some(pt), Some(bt)) => Some(rt + " "@ + n + "("@ + pt + ") {\n"@ + bt + "}\n\n"@),
                _ => None,
            }
        },
        _ => Some(Seq::empty()),
    }
}

/// What a top-level statement contributes to the entry point (the body of
/// the entry function, or the statement itself) and the kinds after it.
pub open spec fn gen_entry_part(s: StmtV, env: Kinds) -> Option<(Seq<char>, Kinds)> {
    match s {
        StmtV::Function(n, _, _, body, _) => if is_main(n) {
            match gen_body(*body, "    "@, env) {
                Some(t) => Some((t, env)),
                None => None,
            }
        } else {
            Some((Seq::empty(), env))
        },
        StmtV::Struct(..) => Some((Seq::empty(), env)),
        _ => gen_stmt(s, "    "@, env),
    }
}

pub open spec fn gen_decls(ss: Seq<StmtV>, env: Kinds) -> Option<Seq<char>>
    decreases ss.len(),
{
    if ss.len() == 0 {
        Some(Seq::empty())
    } else {
        match (gen_decls(ss.drop_last(), env), gen_decl(ss.last(), env)) {
            (Some(a), Some(b)) => Some(a + b),
            _ => None,
        }
    }
}

pub open spec fn gen_entry(ss: Seq<StmtV>, env: Kinds) -> Option<Seq<char>>
    decreases ss.len(),
{
    if ss.len() == 0 {
        Some(Seq::empty())
    } else {
        match gen_entry_part(ss[0], env) {
            Some((a, env1)) => match gen_entry(ss.subrange(1, ss.len() as int), env1) {
                Some(b) => Some(a + b),
                None => None,
            },
            None => None,
        }
    }
}

/// The whole translation unit: the runtime, the declarations, then the entry
/// point with the top-level statements and the body of `main`.
pub open spec fn gen_program(ss: Seq<StmtV>) -> Option<Seq<char>> {
    let env = program_kinds(ss);
    match (gen_decls(ss, env), gen_entry(ss, env)) {
        (Some(d), Some(m)) => Some(RUNTIME@ + d + "int main() {\n"@ + m + "    "@ + "return 0;\n}\n"@),
        _ => None,
    }
}

#[derive(Debug)]
pub struct CodegenError {
    pub message: String,
}

impl CodegenError {
    pub fn to_string(&self) -> (r: String)
        ensures
            r@ == "Code generation error: "@ + self.message@,
    {
        let mut out = "Code generation error: ".to_string();
        out.append(self.message.as_str());
        out
    }
}

pub open spec fn text_agrees(r: Result<String, CodegenError>, m: Option<Seq<char>>) -> bool {
    match m {
        Some(t) => r is Ok && r->Ok_0@ == t,
        None => r is Err,
    }
}

fn unsupported(what: &str) -> (e: CodegenError) {
    let mut message = "Unsupported construct: ".to_string();
    message.append(what);
    CodegenError { message }
}

fn digit_str(d: u64) -> (r: &'static str)
    requires
        d < 10,
    ensures
        r@ == seq![digit_char(d as nat)],
{
    proof {
        reveal_strlit("0");
        reveal_strlit("1");
        reveal_strlit("2");
        reveal_strlit("3");
        reveal_strlit("4");
        reveal_strlit("5");
        reveal_strlit("6");
        reveal_strlit("7");
        reveal_strlit("8");
        reveal_strlit("9");
    }
    let r = if d == 0 { "0" } else if d == 1 { "1" } else if d == 2 { "2" } else if d == 3 { "3" } else if d
        == 4 { "4" } else if d == 5 { "5" } else if d == 6 { "6" } else if d == 7 { "7" } else if d
        == 8 { "8" } else { "9" };
    assert(r@ =~= seq![digit_char(d as nat)]);
    r
}

fn append_nat(out: &mut String, n: u64)
    ensures
        final(out)@ == old(out)@ + nat_text(n as nat),
    decreases n,
{
    if n >= 10 {
        append_nat(out, n / 10);
        out.append(digit_str(n % 10));
        assert(nat_text(n as nat) == nat_text((n / 10) as nat) + seq![digit_char((n % 10) as nat)]);
    } else {
        out.append(digit_str(n));
    }
}

/// The decimal text of `n`.
pub fn uint_to_text(n: u64) -> (r: String)
    ensures
        r@ == nat_text(n as nat),
{
    let mut out = String::new();
    append_nat(&mut out, n);
    assert(out@ =~= nat_text(n as nat));
    out
}

/// The decimal text of `v`.
pub fn int_to_text(v: i64) -> (r: String)
    ensures
        r@ == int_text(v as int),
{
    let mut out = String::new();
    if v < 0 {
        out.append("-");
        let m: u64 = (-(v as i128)) as u64;
        append_nat(&mut out, m);
        proof {
            reveal_strlit("-");
        }
        assert(out@ =~= int_text(v as int));
    } else {
        append_nat(&mut out, v as u64);
        assert(out@ =~= int_text(v as int));
    }
    out
}

fn is_quoted_exec(s: &String) -> (r: bool)
    ensures
        r == is_quoted(s@),
{
    let n = s.as_str().unicode_len();
    n >= 2 && s.as_str().get_char(0) == '"' && s.as_str().get_char(n - 1) == '"'
}

fn unquote_exec(s: &String) -> (r: String)
    requires
        is_quoted(s@),
    ensures
        r@ == unquote(s@),
{
    let n = s.as_str().unicode_len();
    s.as_str().substring_char(1, n - 1).to_owned()
}

fn expr_kind_exec(e: &Expr, env: &Vec<(String, CKind)>) -> (r: CKind)
    ensures
        r == expr_kind(expr_view(*e), kinds_view(*env)),
    decreases e,
{
    match e {
        Expr::Literal(Literal::Int(_), _) => CKind::Int,
        Expr::Literal(Literal::Float(_), _) => CKind::Double,
        Expr::Literal(Literal::Bool(_), _) => CKind::Bool,
        Expr::Literal(Literal::String(_), _) => CKind::Str,
        Expr::Identifier(n, _) => lookup_kind_exec(env, n),
        Expr::Call(c, _, _) => expr_kind_exec(c, env),
        Expr::Binary(l, op, r, _) => match op {
            BinaryOp::Add | BinaryOp::Sub | BinaryOp::Mul | BinaryOp::Div | BinaryOp::Mod => {
                let kl = expr_kind_exec(l, env);
                let kr = expr_kind_exec(r, env);
                if *op == BinaryOp::Add && (kl == CKind::Str || kr == CKind::Str) {
                    CKind::Str
                } else if kl == CKind::Double || kr == CKind::Double {
                    CKind::Double
                } else {
                    CKind::Int
                }
            },
            _ => CKind::Bool,
        },
        Expr::Unary(UnaryOp::Not, _, _) => CKind::Bool,
        Expr::Unary(UnaryOp::Neg, x, _) => expr_kind_exec(x, env),
        _ => CKind::Other,
    }
}

fn binary_op_str(op: &BinaryOp) -> (r: &'static str)
    ensures
        r@ == binary_op_text(*op),
{
    match op {
        BinaryOp::Add => "+",
        BinaryOp::Sub => "-",
        BinaryOp::Mul => "*",
        BinaryOp::Div => "/",
        BinaryOp::Mod => "%",
        BinaryOp::Eq => "==",
        BinaryOp::Neq => "!=",
        BinaryOp::Lt => "<",
        BinaryOp::Lte => "<=",
        BinaryOp::Gt => ">",
        BinaryOp::Gte => ">=",
        BinaryOp::And => "&&",
        BinaryOp::Or => "||",
    }
}

fn call_exec(f: &str, a: &String, b: &String) -> (r: String)
    ensures
        r@ == call_text(f@, a@, b@),
{
    let mut out = f.to_string();
    out.append("(");
    out.append(a.as_str());
    out.append(", ");
    out.append(b.as_str());
    out.append(")");
    out
}

fn concat_exec(l: &Expr, lt: &String, r: &Expr, rt: &String, env: &Vec<(String, CKind)>) -> (out: String)
    ensures
        out@ == concat_text(expr_view(*l), lt@, expr_view(*r), rt@, kinds_view(*env)),
{
    let lq = is_quoted_exec(lt);
    let rq = is_quoted_exec(rt);
    let kl = expr_kind_exec(l, env);
    let kr = expr_kind_exec(r, env);
    if lq && rq {
        let mut out = "\"".to_string();
        out.append(unquote_exec(lt).as_str());
        out.append(unquote_exec(rt).as_str());
        out.append("\"");
        out
    } else if lq || kl == CKind::Str {
        if rq || kr == CKind::Str {
            call_exec("concat_str_str", lt, rt)
        } else if kr == CKind::Double {
            call_exec("concat_str_float", lt, rt)
        } else {
            call_exec("concat_str_int", lt, rt)
        }
    } else if kl == CKind::Double {
        call_exec("concat_float_str", lt, rt)
    } else {
        call_exec("concat_int_str", lt, rt)
    }
}

fn c_type_exec(t: &Type) -> (r: Option<String>)
    ensures
        match c_type(type_view(*t)) {
            Some(x) => r is Some && r->0@ == x,
            None => r is None,
        },
{
    match t {
        Type::Int => Some("int".to_string()),
        Type::Float => Some("double".to_string()),
        Type::Bool => Some("bool".to_string()),
        Type::String => Some("const char*".to_string()),
        Type::Void => Some("void".to_string()),
        Type::Struct(n) => Some(n.clone()),
        _ => None,
    }
}

fn kind_c_type_exec(k: CKind) -> (r: &'static str)
    ensures
        r@ == kind_c_type(k),
{
    match k {
        CKind::Double => "double",
        CKind::Bool => "bool",
        CKind::Str => "const char*",
        _ => "int",
    }
}

fn zero_value_exec(t: &Type) -> (r: Option<&'static str>)
    ensures
        match zero_value(type_view(*t)) {
            Some(x) => r is Some && r->0@ == x,
            None => r is None,
        },
{
    match t {
        Type::Int => Some("0"),
        Type::Float => Some("0"),
        Type::Bool => Some("0"),
        Type::String => Some("\"\""),
        _ => None,
    }
}

fn deeper_exec(ind: &String) -> (r: String)
    ensures
        r@ == deeper(ind@),
{
    let mut d = ind.clone();
    d.append("    ");
    d
}

/// The kinds in scope, as the model sees them.
pub open spec fn kinds_view(v: Vec<(String, CKind)>) -> Kinds {
    Seq::new(v.len() as nat, |i: int| (v[i].0@, v[i].1))
}

fn lookup_kind_exec(env: &Vec<(String, CKind)>, n: &String) -> (r: CKind)
    ensures
        r == lookup_kind(kinds_view(*env), n@),
{
    let ghost kv = kinds_view(*env);
    let mut k: usize = env.len();
    assert(kv.subrange(0, k as int) =~= kv);
    while k > 0
        invariant
            k <= env.len(),
            kv == kinds_view(*env),
            lookup_kind(kv, n@) == lookup_kind(kv.subrange(0, k as int), n@),
        decreases k,
    {
        assert(kv.subrange(0, k as int).drop_last() =~= kv.subrange(0, k - 1));
        if env[k - 1].0 == *n {
            return env[k - 1].1;
        }
        k = k - 1;
    }
    CKind::Other
}

fn clone_kinds(env: &Vec<(String, CKind)>) -> (r: Vec<(String, CKind)>)
    ensures
        kinds_view(r) == kinds_view(*env),
{
    let mut out: Vec<(String, CKind)> = Vec::new();
    let mut i: usize = 0;
    while i < env.len()
        invariant
            i <= env.len(),
            out.len() == i,
            forall|j: int| 0 <= j < i ==> (#[trigger] out[j]).0@ == env[j].0@ && out[j].1 == env[j].1,
        decreases env.len() - i,
    {
        out.push((env[i].0.clone(), env[i].1));
        i = i + 1;
    }
    assert(kinds_view(out) =~= kinds_view(*env));
    out
}

fn push_kind(env: &mut Vec<(String, CKind)>, n: String, k: CKind)
    ensures
        kinds_view(*final(env)) == kinds_view(*old(env)).push((n@, k)),
{
    let ghost before = kinds_view(*env);
    let ghost nv = n@;
    env.push((n, k));
    assert(kinds_view(*env) =~= before.push((nv, k)));
}

fn type_kind_exec(t: &Type) -> (r: CKind)
    ensures
        r == type_kind(type_view(*t)),
{
    match t {
        Type::Int => CKind::Int,
        Type::Float => CKind::Double,
        Type::Bool => CKind::Bool,
        Type::String => CKind::Str,
        _ => CKind::Other,
    }
}

/// Lowers a checked program to C source text.
pub struct CodeGenerator {
    pub indent_level: usize,
}

impl CodeGenerator {
    pub fn new() -> (r: CodeGenerator)
        ensures
            r.indent_level == 0,
    {
        CodeGenerator { indent_level: 0 }
    }

    /// The indentation of the current nesting level.
    pub fn indent(&self) -> (r: String)
        ensures
            r@ == indent_text(self.indent_level as nat),
    {
        let mut out = String::new();
        let mut i: usize = 0;
        while i < self.indent_level
            invariant
                i <= self.indent_level,
                out@ == indent_text(i as nat),
            decreases self.indent_level - i,
        {
            out.append("    ");
            i = i + 1;
        }
        out
    }

    #[verifier::rlimit(40)]
    pub fn generate_expression(&self, e: &Expr, env: &Vec<(String, CKind)>) -> (r: Result<String, CodegenError>)
        ensures
            text_agrees(r, gen_expr(expr_view(*e), kinds_view(*env))),
        decreases e, 0nat,
    {
        match e {
            Expr::Literal(l, _) => match l {
                Literal::Int(v) => Ok(int_to_text(*v)),
                Literal::Float(t) => Ok(t.clone()),
                Literal::Bool(b) => if *b {
                    Ok("1".to_string())
                } else {
                    Ok("0".to_string())
                },
                Literal::String(t) => Ok(t.clone()),
                Literal::Null => Ok("NULL".to_string()),
            },
            Expr::Identifier(n, _) => Ok(n.clone()),
            Expr::Binary(l, op, r, _) => {
                let lt = match self.generate_expression(l, env) {
                    Ok(t) => t,
                    Err(x) => return Err(x),
                };
                let rt = match self.generate_expression(r, env) {
                    Ok(t) => t,
                    Err(x) => return Err(x),
                };
                let string_left = is_quoted_exec(&lt) || expr_kind_exec(l, env) == CKind::Str;
                let string_right = is_quoted_exec(&rt) || expr_kind_exec(r, env) == CKind::Str;
                if *op == BinaryOp::Add && (string_left || string_right) {
                    Ok(concat_exec(l, &lt, r, &rt, env))
                } else {
                    let mut out = "(".to_string();
                    out.append(lt.as_str());
                    out.append(" ");
                    out.append(binary_op_str(op));
                    out.append(" ");
                    out.append(rt.as_str());
                    out.append(")");
                    Ok(out)
                }
            },
            Expr::Unary(op, x, _) => match self.generate_expression(x, env) {
                Ok(xt) => {
                    let mut out = "(".to_string();
                    match op {
                        UnaryOp::Neg => out.append("-"),
                        UnaryOp::Not => out.append("!"),
                    }
                    out.append(xt.as_str());
                    out.append(")");
                    Ok(out)
                },
                Err(x) => Err(x),
            },
            Expr::Call(c, args, _) => match self.generate_expression(c, env) {
                Ok(ct) => match self.generate_args(args, 0, env) {
                    Ok(at) => {
                        assert(exprs_view(*args).subrange(0, exprs_view(*args).len() as int) =~= exprs_view(*args));
                        let mut out = ct;
                        out.append("(");
                        out.append(at.as_str());
                        out.append(")");
                        Ok(out)
                    },
                    Err(x) => {
                        assert(exprs_view(*args).subrange(0, exprs_view(*args).len() as int) =~= exprs_view(*args));
                        Err(x)
                    },
                },
                Err(x) => Err(x),
            },
            Expr::Index(b, i, _) => match self.generate_expression(b, env) {
                Ok(bt) => match self.generate_expression(i, env) {
                    Ok(it) => {
                        let mut out = bt;
                        out.append("[");
                        out.append(it.as_str());
                        out.append("]");
                        Ok(out)
                    },
                    Err(x) => Err(x),
                },
                Err(x) => Err(x),
            },
            Expr::Field(b, n, _) => match self.generate_expression(b, env) {
                Ok(bt) => {
                    let mut out = bt;
                    out.append(".");
                    out.append(n.as_str());
                    Ok(out)
                },
                Err(x) => Err(x),
            },
            Expr::Array(..) => Err(unsupported("array literal")),
            Expr::If(..) => Err(unsupported("'if' used as a value")),
            Expr::Block(..) => Err(unsupported("block used as a value")),
            Expr::Lambda(..) => Err(unsupported("lambda")),
        }
    }

    /// The arguments from index `i` on.
    fn generate_args(&self, args: &Vec<Expr>, i: usize, env: &Vec<(String, CKind)>) -> (r: Result<String, CodegenError>)
        requires
            i <= args.len(),
        ensures
            text_agrees(r, gen_args(exprs_view(*args).subrange(i as int, args.len() as int), kinds_view(*env))),
        decreases args, args.len() - i,
    {
        let ghost sv = exprs_view(*args);
        let ghost tail = sv.subrange(i as int, args.len() as int);
        if i == args.len() {
            return Ok(String::new());
        }
        proof {
            vstd::std_specs::vec::axiom_vec_index_decreases(*args, i as int);
            assert(tail[0] == expr_view(args[i as int]));
            assert(tail.subrange(1, tail.len() as int) =~= sv.subrange(i + 1, args.len() as int));
        }
        match self.generate_expression(&args[i], env) {
            Ok(a) => if i + 1 == args.len() {
                Ok(a)
            } else {
                match self.generate_args(args, i + 1, env) {
                    Ok(rest) => {
                        let mut out = a;
                        out.append(", ");
                        out.append(rest.as_str());
                        Ok(out)
                    },
                    Err(x) => Err(x),
                }
            },
            Err(x) => Err(x),
        }
    }

    fn generate_branch(&self, e: &Expr, ind: &String, env: &Vec<(String, CKind)>) -> (r: Result<String, CodegenError>)
        ensures
            text_agrees(r, gen_branch(expr_view(*e), ind@, kinds_view(*env))),
        decreases e, 1nat,
    {
        match e {
            Expr::Block(ss, _) => {
                let mut inner = clone_kinds(env);
                let r = self.generate_statements(ss, 0, ind, &mut inner);
                assert(stmts_view(*ss).subrange(0, ss.len() as int) =~= stmts_view(*ss));
                r
            },
            _ => match self.generate_expression(e, env) {
                Ok(t) => {
                    let mut out = ind.clone();
                    out.append(t.as_str());
                    out.append(";\n");
                    Ok(out)
                },
                Err(x) => Err(x),
            },
        }
    }

    #[verifier::rlimit(40)]
    fn generate_if(&self, e: &Expr, ind: &String, env: &Vec<(String, CKind)>) -> (r: Result<String, CodegenError>)
        ensures
            text_agrees(r, gen_if(expr_view(*e), ind@, kinds_view(*env))),
        decreases e, 2nat,
    {
        match e {
            Expr::If(c, th, el, _) => {
                let ct = match self.generate_expression(c, env) {
                    Ok(t) => t,
                    Err(x) => return Err(x),
                };
                let d = deeper_exec(ind);
                let tt = match self.generate_branch(th, &d, env) {
                    Ok(t) => t,
                    Err(x) => return Err(x),
                };
                let mut head = "if (".to_string();
                head.append(ct.as_str());
                head.append(") {\n");
                head.append(tt.as_str());
                head.append(ind.as_str());
                head.append("}");
                match el {
                    None => Ok(head),
                    Some(x) => {
                        if matches!(**x, Expr::If(..)) {
                            match self.generate_if(x, ind, env) {
                                Ok(rest) => {
                                    head.append(" else ");
                                    head.append(rest.as_str());
                                    Ok(head)
                                },
                                Err(x) => Err(x),
                            }
                        } else {
                            match self.generate_branch(x, &d, env) {
                                Ok(et) => {
                                    head.append(" else {\n");
                                    head.append(et.as_str());
                                    head.append(ind.as_str());
                                    head.append("}");
                                    Ok(head)
                                },
                                Err(x) => Err(x),
                            }
                        }
                    },
                }
            },
            _ => Err(unsupported("expected 'if'")),
        }
    }

    fn generate_body(&self, s: &Stmt, ind: &String, env: &Vec<(String, CKind)>) -> (r: Result<String, CodegenError>)
        ensures
            text_agrees(r, gen_body(stmt_view(*s), ind@, kinds_view(*env))),
        decreases s, 1nat,
    {
        let mut inner = clone_kinds(env);
        match s {
            Stmt::Block(ss, _) => {
                let r = self.generate_statements(ss, 0, ind, &mut inner);
                assert(stmts_view(*ss).subrange(0, ss.len() as int) =~= stmts_view(*ss));
                r
            },
            _ => self.generate_statement(s, ind, &mut inner),
        }
    }

    fn let_kind_exec(ann: &Option<Type>, init: &Option<Expr>, env: &Vec<(String, CKind)>) -> (r: CKind)
        ensures
            r == let_kind(crate::ast::opt_type_view(*ann), crate::ast::opt_expr_view(*init), kinds_view(*env)),
    {
        match ann {
            Some(t) => type_kind_exec(t),
            None => match init {
                Some(x) => expr_kind_exec(x, env),
                None => CKind::Other,
            },
        }
    }

    /// Lowers one statement; a declaration adds its name to `env`.
    #[verifier::rlimit(40)]
    pub fn generate_statement(&self, s: &Stmt, ind: &String, env: &mut Vec<(String, CKind)>) -> (r: Result<String, CodegenError>)
        ensures
            match gen_stmt(stmt_view(*s), ind@, kinds_view(*old(env))) {
                Some((t, k)) => r is Ok && r->Ok_0@ == t && kinds_view(*final(env)) == k,
                None => r is Err,
            },
        decreases s, 0nat,
    {
        match s {
            Stmt::Expr(e) => match e {
                Expr::If(..) => match self.generate_if(e, ind, env) {
                    Ok(t) => {
                        let mut out = ind.clone();
                        out.append(t.as_str());
                        out.append("\n");
                        Ok(out)
                    },
                    Err(x) => Err(x),
                },
                Expr::Block(ss, _) => {
                    let d = deeper_exec(ind);
                    let mut inner = clone_kinds(env);
                    let r = self.generate_statements(ss, 0, &d, &mut inner);
                    assert(stmts_view(*ss).subrange(0, ss.len() as int) =~= stmts_view(*ss));
                    match r {
                        Ok(t) => {
                            let mut out = ind.clone();
                            out.append("{\n");
                            out.append(t.as_str());
                            out.append(ind.as_str());
                            out.append("}\n");
                            Ok(out)
                        },
                        Err(x) => Err(x),
                    }
                },
                _ => match self.generate_expression(e, env) {
                    Ok(t) => {
                        let mut out = ind.clone();
                        out.append(t.as_str());
                        out.append(";\n");
                        Ok(out)
                    },
                    Err(x) => Err(x),
                },
            },
            Stmt::Let(n, ann, init, _) => {
                let ty: Option<String> = match ann {
                    Some(t) => c_type_exec(t),
                    None => match init {
                        Some(x) => Some(kind_c_type_exec(expr_kind_exec(x, env)).to_string()),
                        None => None,
                    },
                };
                let value: Option<String> = match init {
                    Some(x) => match self.generate_expression(x, env) {
                        Ok(t) => Some(t),
                        Err(_) => None,
                    },
                    None => match ann {
                        Some(t) => match zero_value_exec(t) {
                            Some(z) => Some(z.to_string()),
                            None => None,
                        },
                        None => None,
                    },
                };
                match (ty, value) {
                    (Some(tt), Some(vt)) => {
                        let k = Self::let_kind_exec(ann, init, env);
                        let mut out = ind.clone();
                        out.append(tt.as_str());
                        out.append(" ");
                        out.append(n.as_str());
                        out.append(" = ");
                        out.append(vt.as_str());
                        out.append(";\n");
                        push_kind(env, n.clone(), k);
                        Ok(out)
                    },
                    _ => Err(unsupported("declaration of this type")),
                }
            },
            Stmt::Assign(t, v, _) => match self.generate_expression(t, env) {
                Ok(tt) => match self.generate_expression(v, env) {
                    Ok(vt) => {
                        let mut out = ind.clone();
                        out.append(tt.as_str());
                        out.append(" = ");
                        out.append(vt.as_str());
                        out.append(";\n");
                        Ok(out)
                    },
                    Err(x) => Err(x),
                },
                Err(x) => Err(x),
            },
            Stmt::Return(e, _) => match e {
                Some(x) => match self.generate_expression(x, env) {
                    Ok(t) => {
                        let mut out = ind.clone();
                        out.append("return ");
                        out.append(t.as_str());
                        out.append(";\n");
                        Ok(out)
                    },
                    Err(x) => Err(x),
                },
                None => {
                    let mut out = ind.clone();
                    out.append("return;\n");
                    Ok(out)
                },
            },
            Stmt::While(c, body, _) => match self.generate_expression(c, env) {
                Ok(ct) => {
                    let d = deeper_exec(ind);
                    match self.generate_body(body, &d, env) {
                        Ok(bt) => {
                            let mut out = ind.clone();
                            out.append("while (");
                            out.append(ct.as_str());
                            out.append(") {\n");
                            out.append(bt.as_str());
                            out.append(ind.as_str());
                            out.append("}\n");
                            Ok(out)
                        },
                        Err(x) => Err(x),
                    }
                },
                Err(x) => Err(x),
            },
            Stmt::Block(ss, _) => {
                let d = deeper_exec(ind);
                let mut inner = clone_kinds(env);
                let r = self.generate_statements(ss, 0, &d, &mut inner);
                assert(stmts_view(*ss).subrange(0, ss.len() as int) =~= stmts_view(*ss));
                match r {
                    Ok(t) => {
                        let mut out = ind.clone();
                        out.append("{\n");
                        out.append(t.as_str());
                        out.append(ind.as_str());
                        out.append("}\n");
                        Ok(out)
                    },
                    Err(x) => Err(x),
                }
            },
            Stmt::Import(..) => Ok(String::new()),
            Stmt::For(..) => Err(unsupported("'for' loop")),
            Stmt::Function(..) => Err(unsupported("nested function declaration")),
            Stmt::Struct(..) => Err(unsupported("nested struct declaration")),
        }
    }

    /// The statements from index `i` on, each seeing the names declared
    /// before it.
    fn generate_statements(&self, ss: &Vec<Stmt>, i: usize, ind: &String, env: &mut Vec<(String, CKind)>) -> (r: Result<String, CodegenError>)
        requires
            i <= ss.len(),
        ensures
            text_agrees(r, gen_stmts(stmts_view(*ss).subrange(i as int, ss.len() as int), ind@, kinds_view(*old(env)))),
        decreases ss, ss.len() - i,
    {
        let ghost sv = stmts_view(*ss);
        let ghost tail = sv.subrange(i as int, ss.len() as int);
        if i == ss.len() {
            return Ok(String::new());
        }
        proof {
            vstd::std_specs::vec::axiom_vec_index_decreases(*ss, i as int);
            assert(tail[0] == stmt_view(ss[i as int]));
            assert(tail.subrange(1, tail.len() as int) =~= sv.subrange(i + 1, ss.len() as int));
        }
        match self.generate_statement(&ss[i], ind, env) {
            Ok(a) => match self.generate_statements(ss, i + 1, ind, env) {
                Ok(rest) => {
                    let mut out = a;
                    out.append(rest.as_str());
                    Ok(out)
                },
                Err(x) => Err(x),
            },
            Err(x) => Err(x),
        }
    }

    fn generate_params(&self, ps: &Vec<(String, Type)>, i: usize) -> (r: Result<String, CodegenError>)
        requires
            i <= ps.len(),
        ensures
            text_agrees(r, gen_params(typed_fields_view(*ps).subrange(i as int, ps.len() as int))),
        decreases ps.len() - i,
    {
        let ghost sv = typed_fields_view(*ps);
        let ghost tail = sv.subrange(i as int, ps.len() as int);
        if i == ps.len() {
            return Ok(String::new());
        }
        assert(tail.subrange(1, tail.len() as int) =~= sv.subrange(i + 1, ps.len() as int));
        let t = match c_type_exec(&ps[i].1) {
            Some(t) => t,
            None => return Err(unsupported("parameter of this type")),
        };
        assert(tail[0] == (ps[i as int].0@, type_view(ps[i as int].1)));
        match self.generate_params(ps, i + 1) {
            Ok(rest) => {
                let mut out = t;
                out.append(" ");
                out.append(ps[i].0.as_str());
                let ghost head = out@;
                if i + 1 < ps.len() {
                    out.append(", ");
                    out.append(rest.as_str());
                    assert(out@ =~= head + (", "@ + rest@));
                } else {
                    out.append(rest.as_str());
                }
                Ok(out)
            },
            Err(x) => Err(x),
        }
    }

    fn generate_fields(&self, fs: &Vec<(String, Type)>, i: usize) -> (r: Result<String, CodegenError>)
        requires
            i <= fs.len(),
        ensures
            text_agrees(r, gen_fields(typed_fields_view(*fs).subrange(i as int, fs.len() as int))),
        decreases fs.len() - i,
    {
        let ghost sv = typed_fields_view(*fs);
        let ghost tail = sv.subrange(i as int, fs.len() as int);
        if i == fs.len() {
            return Ok(String::new());
        }
        assert(tail.subrange(1, tail.len() as int) =~= sv.subrange(i + 1, fs.len() as int));
        let t = match c_type_exec(&fs[i].1) {
            Some(t) => t,
            None => return Err(unsupported("field of this type")),
        };
        assert(tail[0] == (fs[i as int].0@, type_view(fs[i as int].1)));
        match self.generate_fields(fs, i + 1) {
            Ok(rest) => {
                let mut out = "    ".to_string();
                out.append(t.as_str());
                out.append(" ");
                out.append(fs[i].0.as_str());
                out.append(";\n");
                out.append(rest.as_str());
                Ok(out)
            },
            Err(x) => Err(x),
        }
    }

    #[verifier::rlimit(40)]
    fn generate_decl(&self, s: &Stmt, env: &Vec<(String, CKind)>) -> (r: Result<String, CodegenError>)
        ensures
            text_agrees(r, gen_decl(stmt_view(*s), kinds_view(*env))),
    {
        match s {
            Stmt::Struct(n, fs, _) => {
                let r = self.generate_fields(fs, 0);
                assert(typed_fields_view(*fs).subrange(0, fs.len() as int) =~= typed_fields_view(*fs));
                match r {
                    Ok(ft) => {
                        let mut out = "typedef struct ".to_string();
                        out.append(n.as_str());
                        out.append(" {\n");
                        out.append(ft.as_str());
                        out.append("} ");
                        out.append(n.as_str());
                        out.append(";\n\n");
                        Ok(out)
                    },
                    Err(x) => Err(x),
                }
            },
            Stmt::Function(n, ps, rt, body, _) => {
                if is_main_name(n) {
                    return Ok(String::new());
                }
                let rtt = match c_type_exec(rt) {
                    Some(t) => t,
                    None => return Err(unsupported("return type")),
                };
                let pr = self.generate_params(ps, 0);
                assert(typed_fields_view(*ps).subrange(0, ps.len() as int) =~= typed_fields_view(*ps));
                let pt = match pr {
                    Ok(t) => t,
                    Err(x) => return Err(x),
                };
                let mut fenv = clone_kinds(env);
                let mut k: usize = 0;
                while k < ps.len()
                    invariant
                        k <= ps.len(),
                        kinds_view(fenv) == kinds_view(*env) + params_kinds(typed_fields_view(*ps)).subrange(0, k as int),
                    decreases ps.len() - k,
                {
                    let ghost before = kinds_view(fenv);
                    push_kind(&mut fenv, ps[k].0.clone(), type_kind_exec(&ps[k].1));
                    assert(params_kinds(typed_fields_view(*ps)).subrange(0, k + 1) =~= params_kinds(
                        typed_fields_view(*ps),
                    ).subrange(0, k as int).push((ps[k as int].0@, type_kind(type_view(ps[k as int].1)))));
                    assert(kinds_view(fenv) =~= kinds_view(*env) + params_kinds(typed_fields_view(*ps)).subrange(0, k + 1));
                    k = k + 1;
                }
                assert(params_kinds(typed_fields_view(*ps)).subrange(0, ps.len() as int) =~= params_kinds(typed_fields_view(*ps)));
                let four = "    ".to_string();
                match self.generate_body(body, &four, &fenv) {
                    Ok(bt) => {
                        let mut out = rtt;
                        out.append(" ");
                        out.append(n.as_str());
                        out.append("(");
                        out.append(pt.as_str());
                        out.append(") {\n");
                        out.append(bt.as_str());
                        out.append("}\n\n");
                        Ok(out)
                    },
                    Err(x) => Err(x),
                }
            },
            _ => Ok(String::new()),
        }
    }

    fn generate_entry_part(&self, s: &Stmt, env: &mut Vec<(String, CKind)>) -> (r: Result<String, CodegenError>)
        ensures
            match gen_entry_part(stmt_view(*s), kinds_view(*old(env))) {
                Some((t, k)) => r is Ok && r->Ok_0@ == t && kinds_view(*final(env)) == k,
                None => r is Err,
            },
    {
        let four = "    ".to_string();
        match s {
            Stmt::Function(n, _, _, body, _) => {
                if is_main_name(n) {
                    self.generate_body(body, &four, env)
                } else {
                    Ok(String::new())
                }
            },
            Stmt::Struct(..) => Ok(String::new()),
            _ => self.generate_statement(s, &four, env),
        }
    }

    /// The runtime's routines and the program's functions with the kinds of
    /// their results.
    fn program_kinds_exec(ss: &Vec<Stmt>) -> (r: Vec<(String, CKind)>)
        ensures
            kinds_view(r) == program_kinds(stmts_view(*ss)),
    {
        let ghost sv = stmts_view(*ss);
        let mut env: Vec<(String, CKind)> = Vec::new();
        push_kind(&mut env, "print".to_string(), CKind::Other);
        push_kind(&mut env, "print_int".to_string(), CKind::Other);
        push_kind(&mut env, "print_float".to_string(), CKind::Other);
        assert(kinds_view(env) =~= program_kinds(sv.subrange(0, 0)));
        let mut i: usize = 0;
        while i < ss.len()
            invariant
                i <= ss.len(),
                sv == stmts_view(*ss),
                kinds_view(env) == program_kinds(sv.subrange(0, i as int)),
            decreases ss.len() - i,
        {
            assert(sv.subrange(0, i + 1).drop_last() =~= sv.subrange(0, i as int));
            assert(sv.subrange(0, i + 1).last() == stmt_view(ss[i as int]));
            match &ss[i] {
                Stmt::Function(n, _, rt, _, _) => {
                    push_kind(&mut env, n.clone(), type_kind_exec(rt));
                },
                _ => {},
            }
            i = i + 1;
        }
        assert(sv.subrange(0, sv.len() as int) =~= sv);
        env
    }

    /// Lowers a whole program: the runtime, then the struct types and the
    /// functions other than `main`, then the entry point.
    #[verifier::rlimit(40)]
    pub fn generate(&mut self, program: Program) -> (r: Result<String, CodegenError>)
        ensures
            text_agrees(r, gen_program(program@)),
    {
        let ss = &program.statements;
        let ghost sv = stmts_view(*ss);
        let globals = Self::program_kinds_exec(ss);
        let ghost gv = kinds_view(globals);
        let mut decls = String::new();
        let mut i: usize = 0;
        assert(sv.subrange(0, 0) =~= Seq::<StmtV>::empty());
        while i < ss.len()
            invariant
                i <= ss.len(),
                sv == stmts_view(*ss),
                sv == program@,
                gv == kinds_view(globals),
                gv == program_kinds(sv),
                gen_decls(sv.subrange(0, i as int), gv) == Some(decls@),
            decreases ss.len() - i,
        {
            assert(sv.subrange(0, i + 1).drop_last() =~= sv.subrange(0, i as int));
            assert(sv.subrange(0, i + 1).last() == stmt_view(ss[i as int]));
            match self.generate_decl(&ss[i], &globals) {
                Ok(dt) => {
                    decls.append(dt.as_str());
                },
                Err(x) => {
                    proof {
                        assert(gen_decls(sv.subrange(0, i + 1), gv) is None);
                        lemma_decls_none(sv, gv, i + 1, sv.len() as int);
                        assert(sv.subrange(0, sv.len() as int) =~= sv);
                    }
                    return Err(x);
                },
            }
            i = i + 1;
        }
        assert(sv.subrange(0, sv.len() as int) =~= sv);
        let mut env = clone_kinds(&globals);
        let mut entry = String::new();
        let mut j: usize = 0;
        assert(Seq::<char>::empty() + Seq::<char>::empty() =~= Seq::<char>::empty());
        while j < ss.len()
            invariant
                j <= ss.len(),
                sv == stmts_view(*ss),
                sv == program@,
                gv == program_kinds(sv),
                gen_entry(sv, gv) == match gen_entry(sv.subrange(j as int, sv.len() as int), kinds_view(env)) {
                    Some(t) => Some(entry@ + t),
                    None => None,
                },
            decreases ss.len() - j,
        {
            let ghost tail = sv.subrange(j as int, sv.len() as int);
            let ghost ev = kinds_view(env);
            let ghost acc = entry@;
            assert(tail[0] == stmt_view(ss[j as int]));
            assert(tail.subrange(1, tail.len() as int) =~= sv.subrange(j + 1, sv.len() as int));
            match self.generate_entry_part(&ss[j], &mut env) {
                Ok(mt) => {
                    entry.append(mt.as_str());
                    proof {
                        match gen_entry(sv.subrange(j + 1, sv.len() as int), kinds_view(env)) {
                            Some(t) => {
                                assert(acc + (mt@ + t) =~= entry@ + t);
                            },
                            None => {},
                        }
                    }
                },
                Err(x) => {
                    return Err(x);
                },
            }
            j = j + 1;
        }
        assert(sv.subrange(ss.len() as int, sv.len() as int) =~= Seq::<StmtV>::empty());
        assert(entry@ + Seq::<char>::empty() =~= entry@);
        self.indent_level = 1;
        let ind = self.indent();
        self.indent_level = 0;
        let mut out = RUNTIME.to_string();
        out.append(decls.as_str());
        out.append("int main() {\n");
        out.append(entry.as_str());
        assert(indent_text(0) == Seq::<char>::empty());
        assert(indent_text(1) == deeper(indent_text(0)));
        assert(ind@ =~= "    "@);
        out.append(ind.as_str());
        out.append("return 0;\n}\n");
        Ok(out)
    }
}

proof fn lemma_decls_none(sv: Seq<StmtV>, env: Kinds, i: int, k: int)
    requires
        0 < i <= k <= sv.len(),
        gen_decls(sv.subrange(0, i), env) is None,
    ensures
        gen_decls(sv.subrange(0, k), env) is None,
    decreases k,
{
    if k > i {
        lemma_decls_none(sv, env, i, k - 1);
        assert(sv.subrange(0, k).drop_last() =~= sv.subrange(0, k - 1));
    }
}

fn is_main_name(n: &String) -> (r: bool)
    ensures
        r == is_main(n@),
{
    let k = n.as_str().unicode_len();
    if k != 4 {
        proof {
            reveal_strlit("main");
        }
        return false;
    }
    let a = n.as_str().get_char(0) == 'm' && n.as_str().get_char(1) == 'a' && n.as_str().get_char(2)
        == 'i' && n.as_str().get_char(3) == 'n';
    proof {
        reveal_strlit("main");
        if a {
            assert(n@ =~= "main"@);
        }
    }
    a
}

/// Lowers a checked program to C source text.
pub fn generate_ir(program: Program) -> (r: Result<String, CodegenError>)
    ensures
        text_agrees(r, gen_program(program@)),
{
    let mut codegen = CodeGenerator::new();
    codegen.generate(program)
}

} // verus!
