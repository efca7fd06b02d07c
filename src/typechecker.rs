use vstd::prelude::*;
use vstd::string::StringExecFns;
use crate::ast::{
    BinaryOp, Expr, ExprV, LitV, Literal, Program, Span, Stmt, StmtV, Type, TypeV, UnaryOp,
    expr_view, exprs_view, stmt_view, stmts_view, type_view, types_view, typed_fields_view,
};

verus! {

broadcast use vstd::std_specs::vec::group_vec_axioms;

/// The two kinds of semantic error: a use of a name that is not in scope,
/// and every other rule of the type system.
#[derive(Clone, Copy, Debug, PartialEq, Eq, Structural)]
pub enum ErrorKind {
    Type,
    Name,
}

/// The model of a semantic error: its kind and where it is.
pub type CheckErr = (ErrorKind, Span);

/// Scopes of variables, innermost last; in a scope a later binding shadows
/// an earlier one.
pub type EnvV = Seq<Seq<(Seq<char>, TypeV)>>;

/// The declarations of a program: functions (name, parameter types, return
/// type) and structs (name, fields).
pub struct GlobalsV {
    pub funcs: Seq<(Seq<char>, Seq<TypeV>, TypeV)>,
    pub structs: Seq<(Seq<char>, Seq<(Seq<char>, TypeV)>)>,
}

pub open spec fn is_numeric(t: TypeV) -> bool {
    t == TypeV::Int || t == TypeV::Float
}

/// The type of `l op r` given the operand types, or `None` where the
/// operator does not apply to them.
pub open spec fn binary_type(op: BinaryOp, l: TypeV, r: TypeV) -> Option<TypeV> {
    match op {
        BinaryOp::Add | BinaryOp::Sub | BinaryOp::Mul | BinaryOp::Div | BinaryOp::Mod => {
            if l == TypeV::Int && r == TypeV::Int {
                Some(TypeV::Int)
            } else if is_numeric(l) && is_numeric(r) {
                Some(TypeV::Float)
            } else if op == BinaryOp::Add && (l == TypeV::Str || r == TypeV::Str) {
                Some(TypeV::Str)
            } else {
                None
            }
        },
        BinaryOp::Eq | BinaryOp::Neq => Some(TypeV::Bool),
        BinaryOp::Lt | BinaryOp::Lte | BinaryOp::Gt | BinaryOp::Gte => {
            if is_numeric(l) && is_numeric(r) {
                Some(TypeV::Bool)
            } else {
                None
            }
        },
        BinaryOp::And | BinaryOp::Or => {
            if l == TypeV::Bool && r == TypeV::Bool {
                Some(TypeV::Bool)
            } else {
                None
            }
        },
    }
}

pub open spec fn unary_type(op: UnaryOp, t: TypeV) -> Option<TypeV> {
    match op {
        UnaryOp::Neg => if is_numeric(t) {
            Some(t)
        } else {
            None
        },
        UnaryOp::Not => if t == TypeV::Bool {
            Some(TypeV::Bool)
        } else {
            None
        },
    }
}

pub open spec fn literal_type(l: LitV) -> TypeV {
    match l {
        LitV::Int(_) => TypeV::Int,
        LitV::Float(_) => TypeV::Float,
        LitV::Bool(_) => TypeV::Bool,
        LitV::Str(_) => TypeV::Str,
        LitV::Null => TypeV::Void,
    }
}

pub open spec fn find_in_scope(sc: Seq<(Seq<char>, TypeV)>, n: Seq<char>) -> Option<TypeV>
    decreases sc.len(),
{
    if sc.len() == 0 {
        None
    } else if sc.last().0 == n {
        Some(sc.last().1)
    } else {
        find_in_scope(sc.drop_last(), n)
    }
}

/// The type of variable `n`: the innermost binding wins.
pub open spec fn lookup_var(env: EnvV, n: Seq<char>) -> Option<TypeV>
    decreases env.len(),
{
    if env.len() == 0 {
        None
    } else {
        match find_in_scope(env.last(), n) {
            Some(t) => Some(t),
            None => lookup_var(env.drop_last(), n),
        }
    }
}

/// The signature of function `n`: the last declaration wins.
pub open spec fn find_func(fs: Seq<(Seq<char>, Seq<TypeV>, TypeV)>, n: Seq<char>) -> Option<(Seq<TypeV>, TypeV)>
    decreases fs.len(),
{
    if fs.len() == 0 {
        None
    } else if fs.last().0 == n {
        Some((fs.last().1, fs.last().2))
    } else {
        find_func(fs.drop_last(), n)
    }
}

/// The fields of struct `n`: the last declaration wins.
pub open spec fn find_struct(ss: Seq<(Seq<char>, Seq<(Seq<char>, TypeV)>)>, n: Seq<char>) -> Option<Seq<(Seq<char>, TypeV)>>
    decreases ss.len(),
{
    if ss.len() == 0 {
        None
    } else if ss.last().0 == n {
        Some(ss.last().1)
    } else {
        find_struct(ss.drop_last(), n)
    }
}

/// Binds `n` to `t` in the innermost scope.
pub open spec fn bind(env: EnvV, n: Seq<char>, t: TypeV) -> EnvV {
    if env.len() == 0 {
        seq![seq![(n, t)]]
    } else {
        env.update(env.len() - 1, env.last().push((n, t)))
    }
}

/// The type of a block: that of its last statement where that is an
/// expression statement, else `Void`.
pub open spec fn result_type(ss: Seq<StmtV>, last: TypeV) -> TypeV {
    if ss.len() > 0 && ss.last() is Expr {
        last
    } else {
        TypeV::Void
    }
}

pub open spec fn param_types(ps: Seq<(Seq<char>, TypeV)>) -> Seq<TypeV> {
    ps.map_values(|p: (Seq<char>, TypeV)| p.1)
}

pub open spec fn lambda_scope(ps: Seq<(Seq<char>, Option<TypeV>)>) -> Seq<(Seq<char>, TypeV)> {
    ps.map_values(|p: (Seq<char>, Option<TypeV>)| (p.0, p.1->0))
}

pub open spec fn all_annotated(ps: Seq<(Seq<char>, Option<TypeV>)>) -> bool {
    forall|i: int| 0 <= i < ps.len() ==> (#[trigger] ps[i]).1 is Some
}

pub open spec fn all_same(ts: Seq<TypeV>) -> bool {
    forall|i: int| 0 <= i < ts.len() ==> #[trigger] ts[i] == ts[0]
}

/// The type of expression `e` in scopes `env`, or the first error.
pub open spec fn check_expr(g: GlobalsV, env: EnvV, e: ExprV) -> Result<TypeV, CheckErr>
    decreases e,
{
    match e {
        ExprV::Literal(l, _) => Ok(literal_type(l)),
        ExprV::Identifier(n, sp) => match lookup_var(env, n) {
            Some(t) => Ok(t),
            None => match find_func(g.funcs, n) {
                Some((ps, r)) => Ok(TypeV::Function(ps, Box::new(r))),
                None => Err((ErrorKind::Name, sp)),
            },
        },
        ExprV::Binary(l, op, r, sp) => match check_expr(g, env, *l) {
            Ok(tl) => match check_expr(g, env, *r) {
                Ok(tr) => match binary_type(op, tl, tr) {
                    Some(t) => Ok(t),
                    None => Err((ErrorKind::Type, sp)),
                },
                Err(x) => Err(x),
            },
            Err(x) => Err(x),
        },
        ExprV::Unary(op, x, sp) => match check_expr(g, env, *x) {
            Ok(t) => match unary_type(op, t) {
                Some(u) => Ok(u),
                None => Err((ErrorKind::Type, sp)),
            },
            Err(x) => Err(x),
        },
        ExprV::Call(c, args, sp) => match check_expr(g, env, *c) {
            Ok(tc) => match check_exprs(g, env, args) {
                Ok(ta) => match tc {
                    TypeV::Function(ps, r) => if ps == ta {
                        Ok(*r)
                    } else {
                        Err((ErrorKind::Type, sp))
                    },
                    _ => Err((ErrorKind::Type, sp)),
                },
                Err(x) => Err(x),
            },
            Err(x) => Err(x),
        },
        ExprV::Index(b, i, sp) => match check_expr(g, env, *b) {
            Ok(tb) => match check_expr(g, env, *i) {
                Ok(ti) => match tb {
                    TypeV::Array(el) => if ti == TypeV::Int {
                        Ok(*el)
                    } else {
                        Err((ErrorKind::Type, sp))
                    },
                    _ => Err((ErrorKind::Type, sp)),
                },
                Err(x) => Err(x),
            },
            Err(x) => Err(x),
        },
        ExprV::Field(b, n, sp) => match check_expr(g, env, *b) {
            Ok(tb) => match tb {
                TypeV::Struct(sn) => match find_struct(g.structs, sn) {
                    Some(fs) => match find_in_scope(fs, n) {
                        Some(t) => Ok(t),
                        None => Err((ErrorKind::Type, sp)),
                    },
                    None => Err((ErrorKind::Type, sp)),
                },
                _ => Err((ErrorKind::Type, sp)),
            },
            Err(x) => Err(x),
        },
        ExprV::Array(es, sp) => match check_exprs(g, env, es) {
            Ok(ts) => if ts.len() > 0 && all_same(ts) {
                Ok(TypeV::Array(Box::new(ts[0])))
            } else {
                Err((ErrorKind::Type, sp))
            },
            Err(x) => Err(x),
        },
        ExprV::If(c, th, el, sp) => match check_expr(g, env, *c) {
            Ok(tc) => if tc != TypeV::Bool {
                Err((ErrorKind::Type, sp))
            } else {
                match check_expr(g, env, *th) {
                    Ok(tt) => match el {
                        Some(x) => match check_expr(g, env, *x) {
                            Ok(te) => if tt == te {
                                Ok(tt)
                            } else {
                                Err((ErrorKind::Type, sp))
                            },
                            Err(x) => Err(x),
                        },
                        None => Ok(TypeV::Void),
                    },
                    Err(x) => Err(x),
                }
            },
            Err(x) => Err(x),
        },
        ExprV::Block(ss, _) => match check_stmts(g, env.push(Seq::empty()), None, ss) {
            Ok((_, t)) => Ok(t),
            Err(x) => Err(x),
        },
        ExprV::Lambda(ps, body, sp) => if !all_annotated(ps) {
            Err((ErrorKind::Type, sp))
        } else {
            match check_expr(g, env.push(lambda_scope(ps)), *body) {
                Ok(tb) => Ok(
                    TypeV::Function(
                        ps.map_values(|p: (Seq<char>, Option<TypeV>)| p.1->0),
                        Box::new(tb),
                    ),
                ),
                Err(x) => Err(x),
            }
        },
    }
}

/// The types of `es`, checked from left to right, or the first error.
pub open spec fn check_exprs(g: GlobalsV, env: EnvV, es: Seq<ExprV>) -> Result<Seq<TypeV>, CheckErr>
    decreases es,
{
    if es.len() == 0 {
        Ok(Seq::empty())
    } else {
        match check_expr(g, env, es[0]) {
            Ok(t) => match check_exprs(g, env, es.subrange(1, es.len() as int)) {
                Ok(ts) => Ok(seq![t] + ts),
                Err(x) => Err(x),
            },
            Err(x) => Err(x),
        }
    }
}

/// Checks statement `s`; `ret` is the return type of the enclosing function,
/// if any. Gives the scopes after it and, for an expression statement, the
/// expression's type (`Void` for the others). A loop or block body gets a
/// scope of its own; a function body sees its parameters and the program's
/// declarations, not the variables of the top level.
pub open spec fn check_stmt(g: GlobalsV, env: EnvV, ret: Option<TypeV>, s: StmtV) -> Result<(EnvV, TypeV), CheckErr>
    decreases s,
{
    match s {
        StmtV::Expr(e) => match check_expr(g, env, e) {
            Ok(t) => Ok((env, t)),
            Err(x) => Err(x),
        },
        StmtV::Let(n, ann, init, sp) => match (ann, init) {
            (Some(ty), Some(e)) => match check_expr(g, env, e) {
                Ok(te) => if te == ty {
                    Ok((bind(env, n, ty), TypeV::Void))
                } else {
                    Err((ErrorKind::Type, sp))
                },
                Err(x) => Err(x),
            },
            (Some(ty), None) => Ok((bind(env, n, ty), TypeV::Void)),
            (None, Some(e)) => match check_expr(g, env, e) {
                Ok(te) => Ok((bind(env, n, te), TypeV::Void)),
                Err(x) => Err(x),
            },
            (None, None) => Err((ErrorKind::Type, sp)),
        },
        StmtV::Assign(t, v, sp) => match check_expr(g, env, t) {
            Ok(tt) => match check_expr(g, env, v) {
                Ok(tv) => if tt == tv {
                    Ok((env, TypeV::Void))
                } else {
                    Err((ErrorKind::Type, sp))
                },
                Err(x) => Err(x),
            },
            Err(x) => Err(x),
        },
        StmtV::Return(e, sp) => {
            let te: Result<TypeV, CheckErr> = match e {
                Some(x) => check_expr(g, env, x),
                None => Ok(TypeV::Void),
            };
            match te {
                Ok(t) => match ret {
                    Some(r) => if t == r {
                        Ok((env, TypeV::Void))
                    } else {
                        Err((ErrorKind::Type, sp))
                    },
                    None => Err((ErrorKind::Type, sp)),
                },
                Err(x) => Err(x),
            }
        },
        StmtV::While(c, body, sp) => match check_expr(g, env, c) {
            Ok(tc) => if tc != TypeV::Bool {
                Err((ErrorKind::Type, sp))
            } else {
                match check_stmt(g, env.push(Seq::empty()), ret, *body) {
                    Ok(_) => Ok((env, TypeV::Void)),
                    Err(x) => Err(x),
                }
            },
            Err(x) => Err(x),
        },
        StmtV::For(n, it, body, sp) => match check_expr(g, env, it) {
            Ok(ti) => match ti {
                TypeV::Array(el) => match check_stmt(g, env.push(seq![(n, *el)]), ret, *body) {
                    Ok(_) => Ok((env, TypeV::Void)),
                    Err(x) => Err(x),
                },
                _ => Err((ErrorKind::Type, sp)),
            },
            Err(x) => Err(x),
        },
        StmtV::Block(ss, _) => match check_stmts(g, env.push(Seq::empty()), ret, ss) {
            Ok(_) => Ok((env, TypeV::Void)),
            Err(x) => Err(x),
        },
        StmtV::Function(_, ps, r, body, _) => match check_stmt(g, seq![ps], Some(r), *body) {
            Ok(_) => Ok((env, TypeV::Void)),
            Err(x) => Err(x),
        },
        StmtV::Struct(..) => Ok((env, TypeV::Void)),
        StmtV::Import(..) => Ok((env, TypeV::Void)),
    }
}

/// Checks statements in order, threading the scopes; gives the scopes after
/// them and the type of the sequence as a block.
pub open spec fn check_stmts(g: GlobalsV, env: EnvV, ret: Option<TypeV>, ss: Seq<StmtV>) -> Result<(EnvV, TypeV), CheckErr>
    decreases ss,
{
    if ss.len() == 0 {
        Ok((env, TypeV::Void))
    } else {
        match check_stmt(g, env, ret, ss[0]) {
            Ok((env1, t)) => if ss.len() == 1 {
                Ok((env1, result_type(ss, t)))
            } else {
                check_stmts(g, env1, ret, ss.subrange(1, ss.len() as int))
            },
            Err(x) => Err(x),
        }
    }
}

/// The functions declared at the top level, in order.
pub open spec fn funcs_of(ss: Seq<StmtV>) -> Seq<(Seq<char>, Seq<TypeV>, TypeV)>
    decreases ss.len(),
{
    if ss.len() == 0 {
        Seq::empty()
    } else {
        let rest = funcs_of(ss.drop_last());
        match ss.last() {
            StmtV::Function(n, ps, r, _, _) => rest.push((n, param_types(ps), r)),
            _ => rest,
        }
    }
}

/// The structs declared at the top level, in order.
pub open spec fn structs_of(ss: Seq<StmtV>) -> Seq<(Seq<char>, Seq<(Seq<char>, TypeV)>)>
    decreases ss.len(),
{
    if ss.len() == 0 {
        Seq::empty()
    } else {
        let rest = structs_of(ss.drop_last());
        match ss.last() {
            StmtV::Struct(n, fs, _) => rest.push((n, fs)),
            _ => rest,
        }
    }
}

/// The routines of the runtime that every program can call.
pub open spec fn builtin_funcs() -> Seq<(Seq<char>, Seq<TypeV>, TypeV)> {
    seq![
        ("print"@, seq![TypeV::Str], TypeV::Void),
        ("print_int"@, seq![TypeV::Int], TypeV::Void),
        ("print_float"@, seq![TypeV::Float], TypeV::Void),
    ]
}

/// The declarations a program's statements see: the runtime's routines,
/// then the program's own functions and structs.
pub open spec fn globals_of(ss: Seq<StmtV>) -> GlobalsV {
    GlobalsV { funcs: builtin_funcs() + funcs_of(ss), structs: structs_of(ss) }
}

/// Checking a whole program: declarations first, then every top-level
/// statement in order in one global scope. Gives the first error, if any.
pub open spec fn check_program_spec(ss: Seq<StmtV>) -> Option<CheckErr> {
    match check_stmts(globals_of(ss), seq![Seq::empty()], None, ss) {
        Ok(_) => None,
        Err(x) => Some(x),
    }
}


proof fn lemma_lambda_unannotated(g: GlobalsV, env: EnvV, ps: Seq<(Seq<char>, Option<TypeV>)>, b: ExprV, sp: Span)
    requires
        !all_annotated(ps),
    ensures
        check_expr(g, env, ExprV::Lambda(ps, Box::new(b), sp)) == Err::<TypeV, CheckErr>((ErrorKind::Type, sp)),
{
}


#[derive(Debug)]
pub struct TypeError {
    pub kind: ErrorKind,
    pub message: String,
    pub span: Option<Span>,
}

impl TypeError {
    pub fn to_string(&self) -> (r: String)
        ensures
            match self.span {
                Some(sp) => r@ == "Type error at position "@ + crate::codegen::nat_text(sp.start as nat)
                    + ": "@ + self.message@,
                None => r@ == "Type error: "@ + self.message@,
            },
    {
        match self.span {
            Some(sp) => {
                let mut out = "Type error at position ".to_string();
                out.append(crate::codegen::uint_to_text(sp.start as u64).as_str());
                out.append(": ");
                out.append(self.message.as_str());
                out
            },
            None => {
                let mut out = "Type error: ".to_string();
                out.append(self.message.as_str());
                out
            },
        }
    }
}

pub open spec fn scope_view(v: Vec<(String, Type)>) -> Seq<(Seq<char>, TypeV)> {
    typed_fields_view(v)
}

pub open spec fn env_view(v: Seq<Vec<(String, Type)>>) -> EnvV {
    v.map_values(|s: Vec<(String, Type)>| scope_view(s))
}

pub open spec fn funcs_view(v: Vec<(String, Vec<Type>, Type)>) -> Seq<(Seq<char>, Seq<TypeV>, TypeV)> {
    Seq::new(v.len() as nat, |i: int| (v[i].0@, types_view(v[i].1), type_view(v[i].2)))
}

pub open spec fn structs_view(v: Vec<(String, Vec<(String, Type)>)>) -> Seq<(Seq<char>, Seq<(Seq<char>, TypeV)>)> {
    Seq::new(v.len() as nat, |i: int| (v[i].0@, scope_view(v[i].1)))
}

pub open spec fn err_agrees(e: TypeError, x: CheckErr) -> bool {
    e.kind == x.0 && e.span == Some(x.1)
}

pub open spec fn ty_agrees(r: Result<Type, TypeError>, m: Result<TypeV, CheckErr>) -> bool {
    match m {
        Ok(t) => r is Ok && r->Ok_0@ == t,
        Err(x) => r is Err && err_agrees(r->Err_0, x),
    }
}

pub open spec fn opt_view(t: Option<Type>) -> Option<TypeV> {
    crate::ast::opt_type_view(t)
}

/// The scopes kept all but the innermost one, and their number.
pub open spec fn same_outer(a: Seq<Vec<(String, Type)>>, b: Seq<Vec<(String, Type)>>) -> bool {
    a.len() == b.len() && a.len() >= 1 && a.subrange(0, a.len() - 1) == b.subrange(0, b.len() - 1)
}

/// Whether two types are the same.
pub fn types_equal(a: &Type, b: &Type) -> (r: bool)
    ensures
        r == (a@ == b@),
    decreases a,
{
    match (a, b) {
        (Type::Int, Type::Int) => true,
        (Type::Float, Type::Float) => true,
        (Type::Bool, Type::Bool) => true,
        (Type::String, Type::String) => true,
        (Type::Void, Type::Void) => true,
        (Type::Inferred, Type::Inferred) => true,
        (Type::Struct(x), Type::Struct(y)) => *x == *y,
        (Type::Array(x), Type::Array(y)) => types_equal(x, y),
        (Type::Function(ps, r1), Type::Function(qs, r2)) => {
            if ps.len() != qs.len() {
                assert(types_view(*ps).len() != types_view(*qs).len());
                return false;
            }
            let mut i: usize = 0;
            while i < ps.len()
                invariant
                    i <= ps.len(),
                    ps.len() == qs.len(),
                    *a is Function,
                    (*a)->Function_0 == *ps,
                    *b is Function,
                    (*b)->Function_0 == *qs,
                    forall|j: int| 0 <= j < i ==> type_view(#[trigger] ps[j]) == type_view(qs[j]),
                decreases ps.len() - i,
            {
                proof {
                    vstd::std_specs::vec::axiom_vec_index_decreases(*ps, i as int);
                }
                if !types_equal(&ps[i], &qs[i]) {
                    assert(types_view(*ps)[i as int] != types_view(*qs)[i as int]);
                    return false;
                }
                i = i + 1;
            }
            assert(types_view(*ps) =~= types_view(*qs));
            types_equal(r1, r2)
        },
        _ => false,
    }
}

fn clone_types(v: &Vec<Type>) -> (r: Vec<Type>)
    ensures
        types_view(r) == types_view(*v),
{
    let mut out: Vec<Type> = Vec::new();
    let mut i: usize = 0;
    while i < v.len()
        invariant
            i <= v.len(),
            out.len() == i,
            forall|j: int| 0 <= j < i ==> type_view(#[trigger] out[j]) == type_view(v[j]),
        decreases v.len() - i,
    {
        out.push(v[i].deep_clone());
        i = i + 1;
    }
    assert(types_view(out) =~= types_view(*v));
    out
}

fn clone_fields(v: &Vec<(String, Type)>) -> (r: Vec<(String, Type)>)
    ensures
        scope_view(r) == scope_view(*v),
{
    let mut out: Vec<(String, Type)> = Vec::new();
    let mut i: usize = 0;
    while i < v.len()
        invariant
            i <= v.len(),
            out.len() == i,
            forall|j: int| 0 <= j < i ==> (#[trigger] out[j]).0@ == v[j].0@ && type_view(out[j].1) == type_view(v[j].1),
        decreases v.len() - i,
    {
        out.push((v[i].0.clone(), v[i].1.deep_clone()));
        i = i + 1;
    }
    assert(scope_view(out) =~= scope_view(*v));
    out
}

/// The type bound to `n` in one scope, the latest binding first.
fn find_in_fields(fs: &Vec<(String, Type)>, n: &String) -> (r: Option<Type>)
    ensures
        opt_view(r) == find_in_scope(scope_view(*fs), n@),
{
    let ghost sv = scope_view(*fs);
    let mut k: usize = fs.len();
    assert(sv.subrange(0, k as int) =~= sv);
    while k > 0
        invariant
            k <= fs.len(),
            sv == scope_view(*fs),
            find_in_scope(sv, n@) == find_in_scope(sv.subrange(0, k as int), n@),
        decreases k,
    {
        assert(sv.subrange(0, k as int).drop_last() =~= sv.subrange(0, k - 1));
        if fs[k - 1].0 == *n {
            return Some(fs[k - 1].1.deep_clone());
        }
        k = k - 1;
    }
    None
}

fn lookup_var_exec(env: &Vec<Vec<(String, Type)>>, n: &String) -> (r: Option<Type>)
    ensures
        opt_view(r) == lookup_var(env_view(env@), n@),
{
    let ghost ev = env_view(env@);
    let mut k: usize = env.len();
    assert(ev.subrange(0, k as int) =~= ev);
    while k > 0
        invariant
            k <= env.len(),
            ev == env_view(env@),
            lookup_var(ev, n@) == lookup_var(ev.subrange(0, k as int), n@),
        decreases k,
    {
        assert(ev.subrange(0, k as int).drop_last() =~= ev.subrange(0, k - 1));
        match find_in_fields(&env[k - 1], n) {
            Some(t) => {
                return Some(t);
            },
            None => {},
        }
        k = k - 1;
    }
    None
}

/// Adds the binding of `n` to `t` to the innermost scope.
fn bind_exec(env: &mut Vec<Vec<(String, Type)>>, n: String, t: Type)
    requires
        old(env)@.len() >= 1,
    ensures
        env_view(final(env)@) == bind(env_view(old(env)@), n@, t@),
        same_outer(final(env)@, old(env)@),
{
    let ghost ov = env_view(env@);
    let ghost oenv = env@;
    let ghost nv = n@;
    let ghost tv = t@;
    let mut last = env.pop().unwrap();
    let ghost lv = scope_view(last);
    last.push((n, t));
    assert(scope_view(last) =~= lv.push((nv, tv)));
    env.push(last);
    assert(env_view(env@) =~= bind(ov, nv, tv));
    assert(env@.subrange(0, env@.len() - 1) =~= oenv.subrange(0, oenv.len() - 1));
}

fn type_error(span: Span, message: &str) -> (e: TypeError)
    ensures
        err_agrees(e, (ErrorKind::Type, span)),
{
    TypeError { kind: ErrorKind::Type, message: message.to_string(), span: Some(span) }
}

/// Checks a program in two passes: first every top-level function and struct
/// is declared, then every statement is checked in order.
pub struct TypeChecker {
    pub variables: Vec<Vec<(String, Type)>>,
    pub functions: Vec<(String, Vec<Type>, Type)>,
    pub structs: Vec<(String, Vec<(String, Type)>)>,
}

impl TypeChecker {
    pub fn new() -> (r: TypeChecker)
        ensures
            r.functions@.len() == 0,
            r.structs@.len() == 0,
    {
        TypeChecker { variables: Vec::new(), functions: Vec::new(), structs: Vec::new() }
    }

    pub open spec fn globals(&self) -> GlobalsV {
        GlobalsV { funcs: funcs_view(self.functions), structs: structs_view(self.structs) }
    }

    fn find_func_exec(&self, n: &String) -> (r: Option<(Vec<Type>, Type)>)
        ensures
            match find_func(self.globals().funcs, n@) {
                Some((ps, rt)) => r is Some && types_view((r->0).0) == ps && (r->0).1@ == rt,
                None => r is None,
            },
    {
        let ghost fv = self.globals().funcs;
        let mut k: usize = self.functions.len();
        assert(fv.subrange(0, k as int) =~= fv);
        while k > 0
            invariant
                k <= self.functions.len(),
                fv == self.globals().funcs,
                find_func(fv, n@) == find_func(fv.subrange(0, k as int), n@),
            decreases k,
        {
            assert(fv.subrange(0, k as int).drop_last() =~= fv.subrange(0, k - 1));
            if self.functions[k - 1].0 == *n {
                let ps = clone_types(&self.functions[k - 1].1);
                let rt = self.functions[k - 1].2.deep_clone();
                return Some((ps, rt));
            }
            k = k - 1;
        }
        None
    }

    fn find_field_exec(&self, sn: &String, f: &String) -> (r: Option<Type>)
        ensures
            match find_struct(self.globals().structs, sn@) {
                Some(fs) => opt_view(r) == find_in_scope(fs, f@),
                None => r is None,
            },
    {
        let ghost sv = self.globals().structs;
        let mut k: usize = self.structs.len();
        assert(sv.subrange(0, k as int) =~= sv);
        while k > 0
            invariant
                k <= self.structs.len(),
                sv == self.globals().structs,
                find_struct(sv, sn@) == find_struct(sv.subrange(0, k as int), sn@),
            decreases k,
        {
            assert(sv.subrange(0, k as int).drop_last() =~= sv.subrange(0, k - 1));
            if self.structs[k - 1].0 == *sn {
                return find_in_fields(&self.structs[k - 1].1, f);
            }
            k = k - 1;
        }
        None
    }

    /// The type of `l op r` from the operand types.
    pub fn check_binary_op(&self, op: &BinaryOp, left_type: &Type, right_type: &Type, span: &Span) -> (r: Result<Type, TypeError>)
        ensures
            match binary_type(*op, left_type@, right_type@) {
                Some(t) => r is Ok && r->Ok_0@ == t,
                None => r is Err && err_agrees(r->Err_0, (ErrorKind::Type, *span)),
            },
    {
        let l_int = matches!(left_type, Type::Int);
        let l_float = matches!(left_type, Type::Float);
        let r_int = matches!(right_type, Type::Int);
        let r_float = matches!(right_type, Type::Float);
        match op {
            BinaryOp::Add | BinaryOp::Sub | BinaryOp::Mul | BinaryOp::Div | BinaryOp::Mod => {
                if l_int && r_int {
                    Ok(Type::Int)
                } else if (l_int || l_float) && (r_int || r_float) {
                    Ok(Type::Float)
                } else if *op == BinaryOp::Add && (matches!(left_type, Type::String) || matches!(right_type, Type::String)) {
                    Ok(Type::String)
                } else {
                    Err(type_error(*span, "Invalid operand types for arithmetic operator"))
                }
            },
            BinaryOp::Eq | BinaryOp::Neq => Ok(Type::Bool),
            BinaryOp::Lt | BinaryOp::Lte | BinaryOp::Gt | BinaryOp::Gte => {
                if (l_int || l_float) && (r_int || r_float) {
                    Ok(Type::Bool)
                } else {
                    Err(type_error(*span, "Invalid operand types for comparison operator"))
                }
            },
            BinaryOp::And | BinaryOp::Or => {
                if matches!(left_type, Type::Bool) && matches!(right_type, Type::Bool) {
                    Ok(Type::Bool)
                } else {
                    Err(type_error(*span, "Invalid operand types for logical operator"))
                }
            },
        }
    }

    /// Succeeds exactly when the two types are the same.
    pub fn check_type_compatibility(&self, actual: &Type, expected: &Type, span: &Span) -> (r: Result<(), TypeError>)
        ensures
            r is Ok <==> actual@ == expected@,
            r is Err ==> err_agrees(r->Err_0, (ErrorKind::Type, *span)),
    {
        if types_equal(actual, expected) {
            Ok(())
        } else {
            Err(type_error(*span, "Type mismatch"))
        }
    }

    fn types_list_equal(a: &Vec<Type>, b: &Vec<Type>) -> (r: bool)
        ensures
            r == (types_view(*a) == types_view(*b)),
    {
        if a.len() != b.len() {
            assert(types_view(*a).len() != types_view(*b).len());
            return false;
        }
        let mut i: usize = 0;
        while i < a.len()
            invariant
                i <= a.len(),
                a.len() == b.len(),
                forall|j: int| 0 <= j < i ==> type_view(#[trigger] a[j]) == type_view(b[j]),
            decreases a.len() - i,
        {
            if !types_equal(&a[i], &b[i]) {
                assert(types_view(*a)[i as int] != types_view(*b)[i as int]);
                return false;
            }
            i = i + 1;
        }
        assert(types_view(*a) =~= types_view(*b));
        true
    }

    fn all_same_exec(ts: &Vec<Type>) -> (r: bool)
        requires
            ts.len() > 0,
        ensures
            r == all_same(types_view(*ts)),
    {
        let mut i: usize = 1;
        while i < ts.len()
            invariant
                1 <= i <= ts.len(),
                forall|j: int| 0 <= j < i ==> type_view(#[trigger] ts[j]) == type_view(ts[0]),
            decreases ts.len() - i,
        {
            if !types_equal(&ts[i], &ts[0]) {
                assert(types_view(*ts)[i as int] != types_view(*ts)[0]);
                return false;
            }
            i = i + 1;
        }
        assert forall|j: int| 0 <= j < types_view(*ts).len() implies #[trigger] types_view(*ts)[j]
            == types_view(*ts)[0] by {
            assert(type_view(ts[j]) == type_view(ts[0]));
        }
        true
    }

    #[verifier::rlimit(40)]
    fn check_expression(&self, env: &mut Vec<Vec<(String, Type)>>, e: &Expr) -> (r: Result<Type, TypeError>)
        ensures
            ty_agrees(r, check_expr(self.globals(), env_view(old(env)@), expr_view(*e))),
            r is Ok ==> final(env)@ == old(env)@,
        decreases e, 2nat,
    {
        let ghost ev = env_view(env@);
        match e {
            Expr::Literal(l, _) => match l {
                Literal::Int(_) => Ok(Type::Int),
                Literal::Float(_) => Ok(Type::Float),
                Literal::Bool(_) => Ok(Type::Bool),
                Literal::String(_) => Ok(Type::String),
                Literal::Null => Ok(Type::Void),
            },
            Expr::Identifier(n, sp) => match lookup_var_exec(env, n) {
                Some(t) => Ok(t),
                None => match self.find_func_exec(n) {
                    Some((ps, rt)) => Ok(Type::Function(ps, Box::new(rt))),
                    None => {
                        let mut message = "Undefined variable: ".to_string();
                        message.append(n.as_str());
                        Err(TypeError { kind: ErrorKind::Name, message, span: Some(*sp) })
                    },
                },
            },
            Expr::Binary(l, op, rhs, sp) => match self.check_expression(env, l) {
                Ok(tl) => match self.check_expression(env, rhs) {
                    Ok(tr) => self.check_binary_op(op, &tl, &tr, sp),
                    Err(x) => Err(x),
                },
                Err(x) => Err(x),
            },
            Expr::Unary(op, x, sp) => match self.check_expression(env, x) {
                Ok(t) => match op {
                    UnaryOp::Neg => if matches!(t, Type::Int) || matches!(t, Type::Float) {
                        Ok(t)
                    } else {
                        Err(type_error(*sp, "Operand of '-' must be numeric"))
                    },
                    UnaryOp::Not => if matches!(t, Type::Bool) {
                        Ok(Type::Bool)
                    } else {
                        Err(type_error(*sp, "Operand of '!' must be bool"))
                    },
                },
                Err(x) => Err(x),
            },
            Expr::Call(c, args, sp) => match self.check_expression(env, c) {
                Ok(tc) => match self.check_expressions(env, args) {
                    Ok(ta) => match tc {
                        Type::Function(ps, rt) => if Self::types_list_equal(&ps, &ta) {
                            Ok(*rt)
                        } else {
                            Err(type_error(*sp, "Argument types do not match the parameters"))
                        },
                        _ => Err(type_error(*sp, "Called value is not a function")),
                    },
                    Err(x) => Err(x),
                },
                Err(x) => Err(x),
            },
            Expr::Index(b, i, sp) => match self.check_expression(env, b) {
                Ok(tb) => match self.check_expression(env, i) {
                    Ok(ti) => match tb {
                        Type::Array(el) => if matches!(ti, Type::Int) {
                            Ok(*el)
                        } else {
                            Err(type_error(*sp, "Index must be an int"))
                        },
                        _ => Err(type_error(*sp, "Indexed value is not an array")),
                    },
                    Err(x) => Err(x),
                },
                Err(x) => Err(x),
            },
            Expr::Field(b, n, sp) => match self.check_expression(env, b) {
                Ok(tb) => match tb {
                    Type::Struct(sn) => match self.find_field_exec(&sn, n) {
                        Some(t) => Ok(t),
                        None => Err(type_error(*sp, "Unknown struct field")),
                    },
                    _ => Err(type_error(*sp, "Field access on a value that is not a struct")),
                },
                Err(x) => Err(x),
            },
            Expr::Array(es, sp) => match self.check_expressions(env, es) {
                Ok(ts) => if ts.len() > 0 && Self::all_same_exec(&ts) {
                    let t0 = ts[0].deep_clone();
                    Ok(Type::Array(Box::new(t0)))
                } else {
                    Err(type_error(*sp, "Array elements must be of one known type"))
                },
                Err(x) => Err(x),
            },
            Expr::If(c, th, el, sp) => match self.check_expression(env, c) {
                Ok(tc) => if !matches!(tc, Type::Bool) {
                    Err(type_error(*sp, "Condition must be bool"))
                } else {
                    match self.check_expression(env, th) {
                        Ok(tt) => match el {
                            Some(x) => match self.check_expression(env, x) {
                                Ok(te) => if types_equal(&tt, &te) {
                                    Ok(tt)
                                } else {
                                    Err(type_error(*sp, "Branches of 'if' differ in type"))
                                },
                                Err(x) => Err(x),
                            },
                            None => Ok(Type::Void),
                        },
                        Err(x) => Err(x),
                    }
                },
                Err(x) => Err(x),
            },
            Expr::Block(..) => self.check_block_expression(env, e),
            Expr::Lambda(..) => self.check_lambda(env, e),
        }
    }

    fn check_block_expression(&self, env: &mut Vec<Vec<(String, Type)>>, e: &Expr) -> (r: Result<Type, TypeError>)
        requires
            *e is Block,
        ensures
            ty_agrees(r, check_expr(self.globals(), env_view(old(env)@), expr_view(*e))),
            r is Ok ==> final(env)@ == old(env)@,
        decreases e, 1nat,
    {
        let ghost ev = env_view(env@);
        let ghost old_env = env@;
        match e {
            Expr::Block(ss, _) => {
                let fresh: Vec<(String, Type)> = Vec::new();
                assert(scope_view(fresh) =~= Seq::<(Seq<char>, TypeV)>::empty());
                env.push(fresh);
                assert(env_view(env@) =~= ev.push(Seq::empty()));
                match self.check_statements(env, &None, ss) {
                    Ok(t) => {
                        env.pop();
                        assert(env@ =~= old_env);
                        Ok(t)
                    },
                    Err(x) => Err(x),
                }
            },
            _ => Err(type_error(Span { start: 0, end: 0 }, "Expected a block")),
        }
    }

    #[verifier::rlimit(40)]
    fn check_lambda(&self, env: &mut Vec<Vec<(String, Type)>>, e: &Expr) -> (r: Result<Type, TypeError>)
        requires
            *e is Lambda,
        ensures
            ty_agrees(r, check_expr(self.globals(), env_view(old(env)@), expr_view(*e))),
            r is Ok ==> final(env)@ == old(env)@,
        decreases e, 1nat,
    {
        let ghost ev = env_view(env@);
        match e {
            Expr::Lambda(ps, body, sp) => {
                let ghost pv = crate::ast::lambda_params_view(*ps);
                assert(expr_view(*e) == ExprV::Lambda(pv, Box::new(expr_view(**body)), *sp));
                let mut scope: Vec<(String, Type)> = Vec::new();
                let mut ptypes: Vec<Type> = Vec::new();
                let mut i: usize = 0;
                while i < ps.len()
                    invariant
                        i <= ps.len(),
                        pv == crate::ast::lambda_params_view(*ps),
                        ev == env_view(old(env)@),
                        env@ == old(env)@,
                        expr_view(*e) == ExprV::Lambda(pv, Box::new(expr_view(**body)), *sp),
                        scope.len() == i,
                        ptypes.len() == i,
                        forall|j: int| 0 <= j < i ==> (#[trigger] pv[j]).1 is Some,
                        forall|j: int| 0 <= j < i ==> (#[trigger] scope[j]).0@ == pv[j].0 && type_view(scope[j].1) == pv[j].1->0,
                        forall|j: int| 0 <= j < i ==> type_view(#[trigger] ptypes[j]) == pv[j].1->0,
                    decreases ps.len() - i,
                {
                    assert(pv[i as int] == (ps[i as int].0@, crate::ast::opt_type_view(ps[i as int].1)));
                    match &ps[i].1 {
                        Some(t) => {
                            scope.push((ps[i].0.clone(), t.deep_clone()));
                            ptypes.push(t.deep_clone());
                        },
                        None => {
                            assert(!all_annotated(pv));
                            proof {
                                lemma_lambda_unannotated(self.globals(), ev, pv, expr_view(**body), *sp);
                            }
                            return Err(type_error(*sp, "Lambda parameters need type annotations"));
                        },
                    }
                    i = i + 1;
                }
                assert(all_annotated(pv));
                assert(scope_view(scope) =~= lambda_scope(pv));
                assert(types_view(ptypes) =~= pv.map_values(|p: (Seq<char>, Option<TypeV>)| p.1->0));
                let ghost old_env = env@;
                env.push(scope);
                assert(env_view(env@) =~= ev.push(lambda_scope(pv)));
                match self.check_expression(env, body) {
                    Ok(tb) => {
                        env.pop();
                        assert(env@ =~= old_env);
                        Ok(Type::Function(ptypes, Box::new(tb)))
                    },
                    Err(x) => Err(x),
                }
            },
            _ => Err(type_error(Span { start: 0, end: 0 }, "Expected a lambda")),
        }
    }

    #[verifier::rlimit(40)]
    fn check_expressions(&self, env: &mut Vec<Vec<(String, Type)>>, es: &Vec<Expr>) -> (r: Result<Vec<Type>, TypeError>)
        ensures
            match check_exprs(self.globals(), env_view(old(env)@), exprs_view(*es)) {
                Ok(ts) => r is Ok && types_view(r->Ok_0) == ts,
                Err(x) => r is Err && err_agrees(r->Err_0, x),
            },
            r is Ok ==> final(env)@ == old(env)@,
        decreases es, 0nat,
    {
        let ghost g = self.globals();
        let ghost ev = env_view(env@);
        let ghost old_env = env@;
        let ghost sv = exprs_view(*es);
        let mut out: Vec<Type> = Vec::new();
        let mut i: usize = 0;
        assert(sv.subrange(0, sv.len() as int) =~= sv);
        assert(types_view(out) + Seq::<TypeV>::empty() =~= Seq::<TypeV>::empty());
        while i < es.len()
            invariant
                i <= es.len(),
                sv == exprs_view(*es),
                env@ == old_env,
                old_env == old(env)@,
                ev == env_view(old_env),
                g == self.globals(),
                out.len() == i,
                check_exprs(g, ev, sv) == match check_exprs(g, ev, sv.subrange(i as int, sv.len() as int)) {
                    Ok(ts) => Ok(types_view(out) + ts),
                    Err(x) => Err(x),
                },
            decreases es.len() - i,
        {
            proof {
                vstd::std_specs::vec::axiom_vec_index_decreases(*es, i as int);
                let tail = sv.subrange(i as int, sv.len() as int);
                assert(tail.subrange(1, sv.len() - i) =~= sv.subrange(i + 1, sv.len() as int));
                assert(tail.len() > 0);
                assert(tail[0] == sv[i as int]);
                assert(sv[i as int] == expr_view(es[i as int]));
            }
            match self.check_expression(env, &es[i]) {
                Ok(t) => {
                    let ghost tv = t@;
                    let ghost before = types_view(out);
                    out.push(t);
                    assert(types_view(out) =~= before.push(tv));
                    proof {
                        match check_exprs(g, ev, sv.subrange(i + 1, sv.len() as int)) {
                            Ok(ts) => {
                                assert(before + (seq![tv] + ts) =~= before.push(tv) + ts);
                            },
                            Err(_) => {},
                        }
                    }
                    i = i + 1;
                },
                Err(x) => {
                    proof {
                        let tail = sv.subrange(i as int, sv.len() as int);
                        assert(check_expr(g, ev, tail[0]) is Err);
                        assert(check_exprs(g, ev, tail) == Err::<Seq<TypeV>, CheckErr>(
                            check_expr(g, ev, tail[0])->Err_0,
                        ));
                        assert(check_exprs(g, ev, sv) is Err);
                        assert(err_agrees(x, check_exprs(g, ev, sv)->Err_0));
                    }
                    return Err(x);
                },
            }
        }
        assert(types_view(out) + Seq::<TypeV>::empty() =~= types_view(out));
        Ok(out)
    }

    #[verifier::rlimit(40)]
    fn check_statement(&self, env: &mut Vec<Vec<(String, Type)>>, ret: &Option<Type>, s: &Stmt) -> (r: Result<Type, TypeError>)
        requires
            old(env)@.len() >= 1,
        ensures
            match check_stmt(self.globals(), env_view(old(env)@), opt_view(*ret), stmt_view(*s)) {
                Ok((env2, t)) => r is Ok && env_view(final(env)@) == env2 && r->Ok_0@ == t,
                Err(x) => r is Err && err_agrees(r->Err_0, x),
            },
            r is Ok ==> same_outer(final(env)@, old(env)@),
        decreases s, 0nat,
    {
        let ghost ev = env_view(env@);
        let ghost old_env = env@;
        assert(old_env.subrange(0, old_env.len() - 1) =~= old_env.subrange(0, old_env.len() - 1));
        match s {
            Stmt::Expr(e) => self.check_expression(env, e),
            Stmt::Let(n, ann, init, sp) => match (ann, init) {
                (Some(ty), Some(x)) => match self.check_expression(env, x) {
                    Ok(te) => if types_equal(&te, ty) {
                        bind_exec(env, n.clone(), ty.deep_clone());
                        Ok(Type::Void)
                    } else {
                        Err(type_error(*sp, "Type mismatch: initializer does not match the declared type"))
                    },
                    Err(x) => Err(x),
                },
                (Some(ty), None) => {
                    bind_exec(env, n.clone(), ty.deep_clone());
                    Ok(Type::Void)
                },
                (None, Some(x)) => match self.check_expression(env, x) {
                    Ok(te) => {
                        bind_exec(env, n.clone(), te);
                        Ok(Type::Void)
                    },
                    Err(x) => Err(x),
                },
                (None, None) => Err(type_error(*sp, "Cannot infer type for variable without initializer")),
            },
            Stmt::Assign(t, v, sp) => match self.check_expression(env, t) {
                Ok(tt) => match self.check_expression(env, v) {
                    Ok(tv) => if types_equal(&tt, &tv) {
                        Ok(Type::Void)
                    } else {
                        Err(type_error(*sp, "Type mismatch in assignment"))
                    },
                    Err(x) => Err(x),
                },
                Err(x) => Err(x),
            },
            Stmt::Return(e, sp) => {
                let te = match e {
                    Some(x) => self.check_expression(env, x),
                    None => Ok(Type::Void),
                };
                match te {
                    Ok(t) => match ret {
                        Some(rt) => if types_equal(&t, rt) {
                            Ok(Type::Void)
                        } else {
                            Err(type_error(*sp, "Returned value does not match the return type"))
                        },
                        None => Err(type_error(*sp, "'return' outside of a function")),
                    },
                    Err(x) => Err(x),
                }
            },
            Stmt::While(c, body, sp) => match self.check_expression(env, c) {
                Ok(tc) => if !matches!(tc, Type::Bool) {
                    Err(type_error(*sp, "Condition must be bool"))
                } else {
                    let fresh: Vec<(String, Type)> = Vec::new();
                    assert(scope_view(fresh) =~= Seq::<(Seq<char>, TypeV)>::empty());
                    env.push(fresh);
                    assert(env_view(env@) =~= ev.push(Seq::empty()));
                    match self.check_statement(env, ret, body) {
                        Ok(_) => {
                            env.pop();
                            assert(env@ =~= old_env);
                            Ok(Type::Void)
                        },
                        Err(x) => Err(x),
                    }
                },
                Err(x) => Err(x),
            },
            Stmt::For(n, it, body, sp) => match self.check_expression(env, it) {
                Ok(ti) => match ti {
                    Type::Array(el) => {
                        let ghost nv = n@;
                        let ghost elv = el@;
                        let mut scope: Vec<(String, Type)> = Vec::new();
                        scope.push((n.clone(), *el));
                        assert(scope_view(scope) =~= seq![(nv, elv)]);
                        env.push(scope);
                        assert(env_view(env@) =~= ev.push(seq![(nv, elv)]));
                        match self.check_statement(env, ret, body) {
                            Ok(_) => {
                                env.pop();
                                assert(env@ =~= old_env);
                                Ok(Type::Void)
                            },
                            Err(x) => Err(x),
                        }
                    },
                    _ => Err(type_error(*sp, "'for' needs an array to iterate over")),
                },
                Err(x) => Err(x),
            },
            Stmt::Block(ss, _) => {
                let fresh: Vec<(String, Type)> = Vec::new();
                assert(scope_view(fresh) =~= Seq::<(Seq<char>, TypeV)>::empty());
                env.push(fresh);
                assert(env_view(env@) =~= ev.push(Seq::empty()));
                match self.check_statements(env, ret, ss) {
                    Ok(_) => {
                        env.pop();
                        assert(env@ =~= old_env);
                        Ok(Type::Void)
                    },
                    Err(x) => Err(x),
                }
            },
            Stmt::Function(_, ps, rt, body, _) => {
                let mut fenv: Vec<Vec<(String, Type)>> = Vec::new();
                fenv.push(clone_fields(ps));
                assert(env_view(fenv@) =~= seq![scope_view(*ps)]);
                let fret = Some(rt.deep_clone());
                match self.check_statement(&mut fenv, &fret, body) {
                    Ok(_) => Ok(Type::Void),
                    Err(x) => Err(x),
                }
            },
            Stmt::Struct(..) => Ok(Type::Void),
            Stmt::Import(..) => Ok(Type::Void),
        }
    }

    #[verifier::rlimit(40)]
    fn check_statements(&self, env: &mut Vec<Vec<(String, Type)>>, ret: &Option<Type>, ss: &Vec<Stmt>) -> (r: Result<Type, TypeError>)
        requires
            old(env)@.len() >= 1,
        ensures
            match check_stmts(self.globals(), env_view(old(env)@), opt_view(*ret), stmts_view(*ss)) {
                Ok((env2, t)) => r is Ok && env_view(final(env)@) == env2 && r->Ok_0@ == t,
                Err(x) => r is Err && err_agrees(r->Err_0, x),
            },
            r is Ok ==> same_outer(final(env)@, old(env)@),
        decreases ss, 0nat,
    {
        let ghost g = self.globals();
        let ghost rv = opt_view(*ret);
        let ghost sv = stmts_view(*ss);
        let ghost e0 = env_view(env@);
        let ghost old_env = env@;
        if ss.len() == 0 {
            assert(old_env.subrange(0, old_env.len() - 1) =~= old_env.subrange(0, old_env.len() - 1));
            return Ok(Type::Void);
        }
        let mut i: usize = 0;
        assert(sv.subrange(0, sv.len() as int) =~= sv);
        while i < ss.len()
            invariant
                i < ss.len(),
                sv == stmts_view(*ss),
                g == self.globals(),
                rv == opt_view(*ret),
                e0 == env_view(old_env),
                old_env == old(env)@,
                old_env.len() >= 1,
                same_outer(env@, old_env),
                check_stmts(g, e0, rv, sv) == check_stmts(g, env_view(env@), rv, sv.subrange(i as int, sv.len() as int)),
            decreases ss.len() - i,
        {
            proof {
                vstd::std_specs::vec::axiom_vec_index_decreases(*ss, i as int);
                assert(sv.subrange(i as int, sv.len() as int)[0] == sv[i as int]);
                assert(sv[i as int] == stmt_view(ss[i as int]));
            }
            let ghost before = env@;
            let ghost tail = sv.subrange(i as int, sv.len() as int);
            match self.check_statement(env, ret, &ss[i]) {
                Ok(t) => {
                    let ghost step = check_stmt(g, env_view(before), rv, tail[0]);
                    assert(step == Ok::<(EnvV, TypeV), CheckErr>((env_view(env@), t@)));
                    proof {
                        assert(env@.subrange(0, env@.len() - 1) =~= old_env.subrange(0, old_env.len() - 1)) by {
                            assert(env@.subrange(0, env@.len() - 1) == before.subrange(0, before.len() - 1));
                        }
                    }
                    if i + 1 == ss.len() {
                        let is_expr = matches!(&ss[i], Stmt::Expr(_));
                        proof {
                            let tail = sv.subrange(i as int, sv.len() as int);
                            assert(tail.len() == 1);
                            assert(tail.last() == sv[i as int]);
                            assert(sv[i as int] == stmt_view(ss[i as int]));
                            if is_expr {
                                assert(stmt_view(ss[i as int]) is Expr);
                            } else {
                                assert(!(stmt_view(ss[i as int]) is Expr));
                            }
                        }
                        assert(check_stmts(g, env_view(before), rv, tail) == Ok::<(EnvV, TypeV), CheckErr>(
                            (env_view(env@), result_type(tail, t@)),
                        ));
                        assert(check_stmts(g, e0, rv, sv) == Ok::<(EnvV, TypeV), CheckErr>(
                            (env_view(env@), result_type(tail, t@)),
                        ));
                        assert(same_outer(env@, old_env));
                        if is_expr {
                            return Ok(t);
                        } else {
                            return Ok(Type::Void);
                        }
                    }
                    proof {
                        assert(sv.subrange(i as int, sv.len() as int).subrange(1, sv.len() - i) =~= sv.subrange(i + 1, sv.len() as int));
                    }
                    i = i + 1;
                },
                Err(x) => {
                    return Err(x);
                },
            }
        }
        Ok(Type::Void)
    }

    /// Declares a runtime routine of one parameter that returns nothing.
    fn declare_builtin(&mut self, name: &str, param: Type)
        ensures
            funcs_view(final(self).functions) == funcs_view(old(self).functions).push(
                (name@, seq![param@], TypeV::Void),
            ),
            final(self).structs == old(self).structs,
    {
        let ghost before = funcs_view(self.functions);
        let ghost pv = param@;
        let mut ps: Vec<Type> = Vec::new();
        ps.push(param);
        assert(types_view(ps) =~= seq![pv]);
        self.functions.push((name.to_string(), ps, Type::Void));
        assert(funcs_view(self.functions) =~= before.push((name@, seq![pv], TypeV::Void)));
    }

    /// Registers the runtime's routines, then every top-level function and
    /// struct, in order.
    fn declare_all(&mut self, stmts: &Vec<Stmt>)
        ensures
            final(self).globals() == globals_of(stmts_view(*stmts)),
    {
        self.functions = Vec::new();
        self.structs = Vec::new();
        self.declare_builtin("print", Type::String);
        self.declare_builtin("print_int", Type::Int);
        self.declare_builtin("print_float", Type::Float);
        let ghost sv = stmts_view(*stmts);
        let mut i: usize = 0;
        assert(funcs_view(self.functions) =~= builtin_funcs() + funcs_of(sv.subrange(0, 0)));
        assert(structs_view(self.structs) =~= structs_of(sv.subrange(0, 0)));
        while i < stmts.len()
            invariant
                i <= stmts.len(),
                sv == stmts_view(*stmts),
                funcs_view(self.functions) == builtin_funcs() + funcs_of(sv.subrange(0, i as int)),
                structs_view(self.structs) == structs_of(sv.subrange(0, i as int)),
            decreases stmts.len() - i,
        {
            assert(sv.subrange(0, i + 1).drop_last() =~= sv.subrange(0, i as int));
            assert(sv.subrange(0, i + 1).last() == stmt_view(stmts[i as int]));
            match &stmts[i] {
                Stmt::Function(name, ps, rt, _, _) => {
                    let ghost before = funcs_view(self.functions);
                    let mut types: Vec<Type> = Vec::new();
                    let mut k: usize = 0;
                    while k < ps.len()
                        invariant
                            k <= ps.len(),
                            types.len() == k,
                            forall|j: int| 0 <= j < k ==> type_view(#[trigger] types[j]) == type_view(ps[j].1),
                        decreases ps.len() - k,
                    {
                        types.push(ps[k].1.deep_clone());
                        k = k + 1;
                    }
                    assert(types_view(types) =~= param_types(scope_view(*ps)));
                    let entry = (name.clone(), types, rt.deep_clone());
                    self.functions.push(entry);
                    assert(funcs_view(self.functions) =~= before.push(
                        (name@, param_types(scope_view(*ps)), type_view(*rt)),
                    ));
                    assert(builtin_funcs() + funcs_of(sv.subrange(0, i + 1)) =~= (builtin_funcs() + funcs_of(
                        sv.subrange(0, i as int),
                    )).push((name@, param_types(scope_view(*ps)), type_view(*rt))));
                },
                Stmt::Struct(name, fs, _) => {
                    let ghost before = structs_view(self.structs);
                    let entry = (name.clone(), clone_fields(fs));
                    self.structs.push(entry);
                    assert(structs_view(self.structs) =~= before.push((name@, scope_view(*fs))));
                },
                _ => {},
            }
            i = i + 1;
        }
        assert(sv.subrange(0, sv.len() as int) =~= sv);
    }

    /// Checks a program. On success the program comes back as it was given.
    pub fn check_program(&mut self, program: Program) -> (r: Result<Program, TypeError>)
        ensures
            check_result_agrees(program@, r),
    {
        self.declare_all(&program.statements);
        let mut env: Vec<Vec<(String, Type)>> = Vec::new();
        let fresh: Vec<(String, Type)> = Vec::new();
        assert(scope_view(fresh) =~= Seq::<(Seq<char>, TypeV)>::empty());
        env.push(fresh);
        assert(env_view(env@) =~= seq![Seq::<(Seq<char>, TypeV)>::empty()]);
        let r = self.check_statements(&mut env, &None, &program.statements);
        self.variables = env;
        match r {
            Ok(_) => Ok(program),
            Err(e) => Err(e),
        }
    }
}

/// The result of checking agrees with the model: the program itself when
/// checking succeeds, else an error of the model's kind at its span.
pub open spec fn check_result_agrees(p: Seq<StmtV>, r: Result<Program, TypeError>) -> bool {
    match check_program_spec(p) {
        None => r is Ok && r->Ok_0@ == p,
        Some(x) => r is Err && err_agrees(r->Err_0, x),
    }
}

/// Type-checks a program with fresh symbol tables.
pub fn typecheck(program: Program) -> (r: Result<Program, TypeError>)
    ensures
        check_result_agrees(program@, r),
{
    let mut checker = TypeChecker::new();
    checker.check_program(program)
}

/// Checking is idempotent: a program that checking gave back is the one that
/// was given, and checking it again succeeds and gives it back once more.
pub proof fn lemma_check_idempotent(p: Seq<StmtV>, r1: Result<Program, TypeError>, r2: Result<Program, TypeError>)
    requires
        check_result_agrees(p, r1),
        r1 is Ok,
        check_result_agrees(r1->Ok_0@, r2),
    ensures
        r1->Ok_0@ == p,
        r2 is Ok,
        r2->Ok_0@ == p,
{
}

/// Numeric promotion: adding two numeric literals gives `Float` when either is
/// a float literal, else `Int`; comparing them gives `Bool`.
pub proof fn lemma_numeric_promotion(g: GlobalsV, env: EnvV, a: LitV, b: LitV, sa: Span, sb: Span, sp: Span)
    requires
        a is Int || a is Float,
        b is Int || b is Float,
    ensures
        check_expr(
            g,
            env,
            ExprV::Binary(Box::new(ExprV::Literal(a, sa)), BinaryOp::Add, Box::new(ExprV::Literal(b, sb)), sp),
        ) == Ok::<TypeV, CheckErr>(
            if a is Float || b is Float {
                TypeV::Float
            } else {
                TypeV::Int
            },
        ),
        check_expr(
            g,
            env,
            ExprV::Binary(Box::new(ExprV::Literal(a, sa)), BinaryOp::Lt, Box::new(ExprV::Literal(b, sb)), sp),
        ) == Ok::<TypeV, CheckErr>(TypeV::Bool),
{
    let l = ExprV::Literal(a, sa);
    let r = ExprV::Literal(b, sb);
    assert(check_expr(g, env, l) == Ok::<TypeV, CheckErr>(literal_type(a)));
    assert(check_expr(g, env, r) == Ok::<TypeV, CheckErr>(literal_type(b)));
}

/// String concatenation: `+` with a string literal on either side and a
/// string or integer literal on the other gives `String`.
pub proof fn lemma_string_concat(g: GlobalsV, env: EnvV, s: Seq<char>, other: LitV, ss: Span, so: Span, sp: Span)
    requires
        other is Str || other is Int,
    ensures
        check_expr(
            g,
            env,
            ExprV::Binary(Box::new(ExprV::Literal(LitV::Str(s), ss)), BinaryOp::Add, Box::new(ExprV::Literal(other, so)), sp),
        ) == Ok::<TypeV, CheckErr>(TypeV::Str),
        check_expr(
            g,
            env,
            ExprV::Binary(Box::new(ExprV::Literal(other, so)), BinaryOp::Add, Box::new(ExprV::Literal(LitV::Str(s), ss)), sp),
        ) == Ok::<TypeV, CheckErr>(TypeV::Str),
{
    let l = ExprV::Literal(LitV::Str(s), ss);
    let r = ExprV::Literal(other, so);
    assert(check_expr(g, env, l) == Ok::<TypeV, CheckErr>(TypeV::Str));
    assert(check_expr(g, env, r) == Ok::<TypeV, CheckErr>(literal_type(other)));
}

/// Undefined names: an identifier bound neither as a variable in scope nor
/// as a function fails with a name error at its own span, also as the
/// right operand of a binary expression whose left operand checks.
pub proof fn lemma_undefined_name(g: GlobalsV, env: EnvV, n: Seq<char>, sp: Span, left: ExprV, op: BinaryOp, bsp: Span)
    requires
        lookup_var(env, n) is None,
        find_func(g.funcs, n) is None,
    ensures
        check_expr(g, env, ExprV::Identifier(n, sp)) == Err::<TypeV, CheckErr>((ErrorKind::Name, sp)),
        check_expr(g, env, left) is Ok ==> check_expr(
            g,
            env,
            ExprV::Binary(Box::new(left), op, Box::new(ExprV::Identifier(n, sp)), bsp),
        ) == Err::<TypeV, CheckErr>((ErrorKind::Name, sp)),
{
    assert(check_expr(g, env, ExprV::Identifier(n, sp)) == Err::<TypeV, CheckErr>((ErrorKind::Name, sp)));
}

} // verus!
