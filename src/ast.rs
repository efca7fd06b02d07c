use vstd::prelude::*;
use vstd::string::StringExecFns;

verus! {

broadcast use vstd::std_specs::vec::group_vec_axioms;

/// A half-open byte range `[start, end)` of the source text.
#[derive(Clone, Copy, Debug, PartialEq, Eq, Structural)]
pub struct Span {
    pub start: usize,
    pub end: usize,
}

impl Span {
    pub open spec fn wf(self) -> bool {
        self.start <= self.end
    }
}

impl From<std::ops::Range<usize>> for Span {
    fn from(range: std::ops::Range<usize>) -> (r: Span) {
        Span { start: range.start, end: range.end }
    }
}

impl vstd::std_specs::convert::FromSpecImpl<std::ops::Range<usize>> for Span {
    open spec fn obeys_from_spec() -> bool {
        true
    }

    open spec fn from_spec(v: std::ops::Range<usize>) -> Span {
        Span { start: v.start, end: v.end }
    }
}

/// The mathematical model of a type.
pub enum TypeV {
    Int,
    Float,
    Bool,
    Str,
    Void,
    Array(Box<TypeV>),
    Function(Seq<TypeV>, Box<TypeV>),
    Struct(Seq<char>),
    Inferred,
}

#[derive(Debug)]
pub enum Type {
    Int,
    Float,
    Bool,
    String,
    Void,
    Array(Box<Type>),
    Function(Vec<Type>, Box<Type>),
    Struct(String),
    Inferred,
}

pub open spec fn type_view(t: Type) -> TypeV
    decreases t,
{
    match t {
        Type::Int => TypeV::Int,
        Type::Float => TypeV::Float,
        Type::Bool => TypeV::Bool,
        Type::String => TypeV::Str,
        Type::Void => TypeV::Void,
        Type::Array(e) => TypeV::Array(Box::new(type_view(*e))),
        Type::Function(ps, r) => TypeV::Function(types_view(ps), Box::new(type_view(*r))),
        Type::Struct(n) => TypeV::Struct(n@),
        Type::Inferred => TypeV::Inferred,
    }
}

pub open spec fn types_view(v: Vec<Type>) -> Seq<TypeV>
    decreases v,
{
    Seq::new(
        v.len() as nat,
        |i: int|
            if 0 <= i < v.len() {
                type_view(v[i])
            } else {
                TypeV::Inferred
            },
    )
}

impl View for Type {
    type V = TypeV;

    open spec fn view(&self) -> TypeV {
        type_view(*self)
    }
}

impl Type {
    /// A copy of the type, node by node.
    pub fn deep_clone(&self) -> (r: Type)
        ensures
            r@ == self@,
        decreases self,
    {
        match self {
            Type::Int => Type::Int,
            Type::Float => Type::Float,
            Type::Bool => Type::Bool,
            Type::String => Type::String,
            Type::Void => Type::Void,
            Type::Array(e) => Type::Array(Box::new(e.deep_clone())),
            Type::Function(ps, ret) => {
                let mut v: Vec<Type> = Vec::new();
                let mut i: usize = 0;
                while i < ps.len()
                    invariant
                        i <= ps.len(),
                        v@.len() == i,
                        *self is Function,
                        (*self)->Function_0 == *ps,
                        forall|j: int| 0 <= j < i ==> type_view(#[trigger] v[j]) == type_view(ps[j]),
                    decreases ps.len() - i,
                {
                    proof {
                        vstd::std_specs::vec::axiom_vec_index_decreases(*ps, i as int);
                        assert(decreases_to!(*self => ps[i as int]));
                    }
                    v.push(ps[i].deep_clone());
                    i = i + 1;
                }
                let r = Type::Function(v, Box::new(ret.deep_clone()));
                assert(types_view(v) =~= types_view(*ps));
                r
            },
            Type::Struct(n) => Type::Struct(n.clone()),
            Type::Inferred => Type::Inferred,
        }
    }
}

/// How a type is written in diagnostics.
pub open spec fn type_text(t: TypeV) -> Seq<char>
    decreases t, 1nat,
{
    match t {
        TypeV::Int => "int"@,
        TypeV::Float => "float"@,
        TypeV::Bool => "bool"@,
        TypeV::Str => "string"@,
        TypeV::Void => "void"@,
        TypeV::Array(e) => "["@ + type_text(*e) + "]"@,
        TypeV::Function(ps, r) => "fn("@ + type_list_text(ps) + ") -> "@ + type_text(*r),
        TypeV::Struct(n) => n,
        TypeV::Inferred => "_"@,
    }
}

/// Types separated by `, `.
pub open spec fn type_list_text(ps: Seq<TypeV>) -> Seq<char>
    decreases ps, 0nat,
{
    if ps.len() == 0 {
        Seq::empty()
    } else if ps.len() == 1 {
        type_text(ps[0])
    } else {
        type_text(ps[0]) + ", "@ + type_list_text(ps.subrange(1, ps.len() as int))
    }
}

impl Type {
    /// The type as written in diagnostics.
    pub fn to_string(&self) -> (r: String)
        ensures
            r@ == type_text(self@),
        decreases self, 1nat,
    {
        match self {
            Type::Int => "int".to_string(),
            Type::Float => "float".to_string(),
            Type::Bool => "bool".to_string(),
            Type::String => "string".to_string(),
            Type::Void => "void".to_string(),
            Type::Array(e) => {
                let mut out = "[".to_string();
                out.append(e.to_string().as_str());
                out.append("]");
                out
            },
            Type::Function(ps, r) => {
                let mut out = "fn(".to_string();
                let lt = Type::list_to_string(ps, 0);
                assert(types_view(*ps).subrange(0, ps.len() as int) =~= types_view(*ps));
                out.append(lt.as_str());
                out.append(") -> ");
                out.append(r.to_string().as_str());
                out
            },
            Type::Struct(n) => n.clone(),
            Type::Inferred => "_".to_string(),
        }
    }

    fn list_to_string(ps: &Vec<Type>, i: usize) -> (r: String)
        requires
            i <= ps.len(),
        ensures
            r@ == type_list_text(types_view(*ps).subrange(i as int, ps.len() as int)),
        decreases ps, ps.len() - i,
    {
        let ghost tail = types_view(*ps).subrange(i as int, ps.len() as int);
        if i == ps.len() {
            return String::new();
        }
        proof {
            vstd::std_specs::vec::axiom_vec_index_decreases(*ps, i as int);
            assert(tail[0] == type_view(ps[i as int]));
            assert(tail.subrange(1, tail.len() as int) =~= types_view(*ps).subrange(i + 1, ps.len() as int));
        }
        let first = ps[i].to_string();
        if i + 1 == ps.len() {
            first
        } else {
            let mut out = first;
            out.append(", ");
            out.append(Type::list_to_string(ps, i + 1).as_str());
            out
        }
    }
}

impl Clone for Type {
    fn clone(&self) -> Type {
        self.deep_clone()
    }
}

pub open spec fn opt_type_view(t: Option<Type>) -> Option<TypeV> {
    match t {
        Some(t) => Some(type_view(t)),
        None => None,
    }
}

/// A literal as the tree holds it. A float literal and a string literal keep
/// their source text (a string literal with its quotes and escapes).
#[derive(Clone, Debug)]
pub enum Literal {
    Int(i64),
    Float(String),
    Bool(bool),
    String(String),
    Null,
}

pub enum LitV {
    Int(int),
    Float(Seq<char>),
    Bool(bool),
    Str(Seq<char>),
    Null,
}

impl View for Literal {
    type V = LitV;

    open spec fn view(&self) -> LitV {
        match self {
            Literal::Int(i) => LitV::Int(*i as int),
            Literal::Float(s) => LitV::Float(s@),
            Literal::Bool(b) => LitV::Bool(*b),
            Literal::String(s) => LitV::Str(s@),
            Literal::Null => LitV::Null,
        }
    }
}

#[derive(Clone, Copy, Debug, PartialEq, Eq, Structural)]
pub enum BinaryOp {
    Add,
    Sub,
    Mul,
    Div,
    Mod,
    Eq,
    Neq,
    Lt,
    Lte,
    Gt,
    Gte,
    And,
    Or,
}

#[derive(Clone, Copy, Debug, PartialEq, Eq, Structural)]
pub enum UnaryOp {
    Neg,
    Not,
}

#[derive(Debug)]
pub enum Expr {
    Literal(Literal, Span),
    Identifier(String, Span),
    Binary(Box<Expr>, BinaryOp, Box<Expr>, Span),
    Unary(UnaryOp, Box<Expr>, Span),
    Call(Box<Expr>, Vec<Expr>, Span),
    Index(Box<Expr>, Box<Expr>, Span),
    Field(Box<Expr>, String, Span),
    Array(Vec<Expr>, Span),
    If(Box<Expr>, Box<Expr>, Option<Box<Expr>>, Span),
    Block(Vec<Stmt>, Span),
    Lambda(Vec<(String, Option<Type>)>, Box<Expr>, Span),
}

#[derive(Debug)]
pub enum Stmt {
    Expr(Expr),
    Let(String, Option<Type>, Option<Expr>, Span),
    Assign(Expr, Expr, Span),
    Return(Option<Expr>, Span),
    While(Expr, Box<Stmt>, Span),
    For(String, Expr, Box<Stmt>, Span),
    Block(Vec<Stmt>, Span),
    Function(String, Vec<(String, Type)>, Type, Box<Stmt>, Span),
    Struct(String, Vec<(String, Type)>, Span),
    Import(String, Span),
}

/// The mathematical model of an expression.
pub enum ExprV {
    Literal(LitV, Span),
    Identifier(Seq<char>, Span),
    Binary(Box<ExprV>, BinaryOp, Box<ExprV>, Span),
    Unary(UnaryOp, Box<ExprV>, Span),
    Call(Box<ExprV>, Seq<ExprV>, Span),
    Index(Box<ExprV>, Box<ExprV>, Span),
    Field(Box<ExprV>, Seq<char>, Span),
    Array(Seq<ExprV>, Span),
    If(Box<ExprV>, Box<ExprV>, Option<Box<ExprV>>, Span),
    Block(Seq<StmtV>, Span),
    Lambda(Seq<(Seq<char>, Option<TypeV>)>, Box<ExprV>, Span),
}

/// The mathematical model of a statement.
pub enum StmtV {
    Expr(ExprV),
    Let(Seq<char>, Option<TypeV>, Option<ExprV>, Span),
    Assign(ExprV, ExprV, Span),
    Return(Option<ExprV>, Span),
    While(ExprV, Box<StmtV>, Span),
    For(Seq<char>, ExprV, Box<StmtV>, Span),
    Block(Seq<StmtV>, Span),
    Function(Seq<char>, Seq<(Seq<char>, TypeV)>, TypeV, Box<StmtV>, Span),
    Struct(Seq<char>, Seq<(Seq<char>, TypeV)>, Span),
    Import(Seq<char>, Span),
}

pub open spec fn typed_fields_view(fs: Vec<(String, Type)>) -> Seq<(Seq<char>, TypeV)> {
    Seq::new(fs.len() as nat, |i: int| (fs[i].0@, type_view(fs[i].1)))
}

pub open spec fn lambda_params_view(ps: Vec<(String, Option<Type>)>) -> Seq<(Seq<char>, Option<TypeV>)> {
    Seq::new(ps.len() as nat, |i: int| (ps[i].0@, opt_type_view(ps[i].1)))
}

pub open spec fn expr_view(e: Expr) -> ExprV
    decreases e,
{
    match e {
        Expr::Literal(l, sp) => ExprV::Literal(l@, sp),
        Expr::Identifier(n, sp) => ExprV::Identifier(n@, sp),
        Expr::Binary(l, op, r, sp) => ExprV::Binary(
            Box::new(expr_view(*l)),
            op,
            Box::new(expr_view(*r)),
            sp,
        ),
        Expr::Unary(op, x, sp) => ExprV::Unary(op, Box::new(expr_view(*x)), sp),
        Expr::Call(c, args, sp) => ExprV::Call(Box::new(expr_view(*c)), exprs_view(args), sp),
        Expr::Index(b, i, sp) => ExprV::Index(Box::new(expr_view(*b)), Box::new(expr_view(*i)), sp),
        Expr::Field(b, n, sp) => ExprV::Field(Box::new(expr_view(*b)), n@, sp),
        Expr::Array(es, sp) => ExprV::Array(exprs_view(es), sp),
        Expr::If(c, t, e, sp) => ExprV::If(
            Box::new(expr_view(*c)),
            Box::new(expr_view(*t)),
            match e {
                Some(x) => Some(Box::new(expr_view(*x))),
                None => None,
            },
            sp,
        ),
        Expr::Block(ss, sp) => ExprV::Block(stmts_view(ss), sp),
        Expr::Lambda(ps, body, sp) => ExprV::Lambda(
            lambda_params_view(ps),
            Box::new(expr_view(*body)),
            sp,
        ),
    }
}

pub open spec fn exprs_view(v: Vec<Expr>) -> Seq<ExprV>
    decreases v,
{
    Seq::new(
        v.len() as nat,
        |i: int|
            if 0 <= i < v.len() {
                expr_view(v[i])
            } else {
                ExprV::Literal(LitV::Null, Span { start: 0, end: 0 })
            },
    )
}

pub open spec fn stmts_view(v: Vec<Stmt>) -> Seq<StmtV>
    decreases v,
{
    Seq::new(
        v.len() as nat,
        |i: int|
            if 0 <= i < v.len() {
                stmt_view(v[i])
            } else {
                StmtV::Import(Seq::empty(), Span { start: 0, end: 0 })
            },
    )
}

pub open spec fn opt_expr_view(e: Option<Expr>) -> Option<ExprV> {
    match e {
        Some(x) => Some(expr_view(x)),
        None => None,
    }
}

pub open spec fn stmt_view(s: Stmt) -> StmtV
    decreases s,
{
    match s {
        Stmt::Expr(e) => StmtV::Expr(expr_view(e)),
        Stmt::Let(n, t, e, sp) => StmtV::Let(
            n@,
            opt_type_view(t),
            match e {
                Some(x) => Some(expr_view(x)),
                None => None,
            },
            sp,
        ),
        Stmt::Assign(t, v, sp) => StmtV::Assign(expr_view(t), expr_view(v), sp),
        Stmt::Return(e, sp) => StmtV::Return(
            match e {
                Some(x) => Some(expr_view(x)),
                None => None,
            },
            sp,
        ),
        Stmt::While(c, b, sp) => StmtV::While(expr_view(c), Box::new(stmt_view(*b)), sp),
        Stmt::For(n, it, b, sp) => StmtV::For(n@, expr_view(it), Box::new(stmt_view(*b)), sp),
        Stmt::Block(ss, sp) => StmtV::Block(stmts_view(ss), sp),
        Stmt::Function(n, ps, r, b, sp) => StmtV::Function(
            n@,
            typed_fields_view(ps),
            type_view(r),
            Box::new(stmt_view(*b)),
            sp,
        ),
        Stmt::Struct(n, fs, sp) => StmtV::Struct(n@, typed_fields_view(fs), sp),
        Stmt::Import(p, sp) => StmtV::Import(p@, sp),
    }
}

impl View for Expr {
    type V = ExprV;

    open spec fn view(&self) -> ExprV {
        expr_view(*self)
    }
}

impl View for Stmt {
    type V = StmtV;

    open spec fn view(&self) -> StmtV {
        stmt_view(*self)
    }
}

/// A whole program: its top-level statements in order.
#[derive(Debug)]
pub struct Program {
    pub statements: Vec<Stmt>,
}

impl View for Program {
    type V = Seq<StmtV>;

    open spec fn view(&self) -> Seq<StmtV> {
        stmts_view(self.statements)
    }
}

impl Program {
    pub fn new(statements: Vec<Stmt>) -> (r: Program)
        ensures
            r.statements == statements,
    {
        Program { statements }
    }
}

} // verus!
