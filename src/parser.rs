use vstd::prelude::*;
use vstd::string::StringExecFns;
use vstd::string::StrSliceExecFns;
use crate::ast::{
    BinaryOp, Expr, ExprV, LitV, Literal, Program, Span, Stmt, StmtV, Type, TypeV, UnaryOp,
    expr_view, exprs_view, stmt_view, stmts_view, type_view, types_view, opt_type_view,
};
use crate::lexer::{Span as LexerSpan, Token, TokenV, tokens_view};

verus! {

broadcast use vstd::std_specs::vec::group_vec_axioms;

/// The model of a parse step: a value and the position after it, or the span
/// of the first token that breaks the grammar.
pub type PRes<T> = Result<(T, int), Span>;

pub open spec fn at(t: Seq<TokenV>, p: int, k: Token) -> bool {
    0 <= p < t.len() && t[p].token == k
}

pub open spec fn tok_span(t: Seq<TokenV>, p: int) -> Span {
    Span { start: t[p].start, end: t[p].end }
}

/// Where the end of the input is reported: just after the last token.
pub open spec fn end_span(t: Seq<TokenV>) -> Span {
    if t.len() == 0 {
        Span { start: 0, end: 0 }
    } else {
        Span { start: t.last().end, end: t.last().end }
    }
}

pub open spec fn err_span(t: Seq<TokenV>, p: int) -> Span {
    if 0 <= p < t.len() {
        tok_span(t, p)
    } else {
        end_span(t)
    }
}

/// The span from the start of token `a` to the end of token `b - 1`.
pub open spec fn join_span(t: Seq<TokenV>, a: int, b: int) -> Span {
    Span { start: t[a].start, end: t[b - 1].end }
}

/// Every parse step consumes at least one token and stays within the input;
/// a step that goes on from a position returned by an earlier one checks it,
/// which makes termination evident.
pub open spec fn moved(t: Seq<TokenV>, p: int, q: int) -> bool {
    p < q <= t.len()
}

pub open spec fn text(t: Seq<TokenV>, p: int) -> Seq<char> {
    t[p].text
}

pub open spec fn all_digits(w: Seq<char>) -> bool {
    forall|i: int| 0 <= i < w.len() ==> '0' <= #[trigger] w[i] && w[i] <= '9'
}

/// The number that a string of decimal digits denotes.
pub open spec fn digits_value(w: Seq<char>) -> int
    decreases w.len(),
{
    if w.len() == 0 {
        0
    } else {
        digits_value(w.drop_last()) * 10 + (w.last() as int - '0' as int)
    }
}

pub open spec fn named_type(w: Seq<char>) -> TypeV {
    if w == "int"@ {
        TypeV::Int
    } else if w == "float"@ {
        TypeV::Float
    } else if w == "bool"@ {
        TypeV::Bool
    } else if w == "string"@ {
        TypeV::Str
    } else if w == "void"@ {
        TypeV::Void
    } else {
        TypeV::Struct(w)
    }
}

/// type := identifier | `[` type `]` | `fn` `(` types `)` `->` type
pub open spec fn p_type(t: Seq<TokenV>, p: int) -> PRes<TypeV>
    decreases t.len() - p, 2nat,
{
    if at(t, p, Token::Identifier) {
        Ok((named_type(text(t, p)), p + 1))
    } else if at(t, p, Token::LeftBracket) {
        match p_type(t, p + 1) {
            Ok((e, q)) => if at(t, q, Token::RightBracket) {
                Ok((TypeV::Array(Box::new(e)), q + 1))
            } else {
                Err(err_span(t, q))
            },
            Err(e) => Err(e),
        }
    } else if at(t, p, Token::Fn) {
        if !at(t, p + 1, Token::LeftParen) {
            Err(err_span(t, p + 1))
        } else {
            match p_type_list(t, p + 2) {
                Ok((ps, q)) => if !at(t, q, Token::Arrow) {
                    Err(err_span(t, q))
                } else if !moved(t, p, q) {
                    Err(err_span(t, q))
                } else {
                    match p_type(t, q + 1) {
                        Ok((r, u)) => Ok((TypeV::Function(ps, Box::new(r)), u)),
                        Err(e) => Err(e),
                    }
                },
                Err(e) => Err(e),
            }
        }
    } else {
        Err(err_span(t, p))
    }
}

/// types `)`, separated by commas, the closing parenthesis consumed.
pub open spec fn p_type_list(t: Seq<TokenV>, p: int) -> PRes<Seq<TypeV>>
    decreases t.len() - p, 3nat,
{
    if at(t, p, Token::RightParen) {
        Ok((Seq::empty(), p + 1))
    } else if !(0 <= p < t.len()) {
        Err(err_span(t, p))
    } else {
        match p_type(t, p) {
            Ok((ty, q)) => if at(t, q, Token::Comma) {
                if !moved(t, p, q) {
                    Err(err_span(t, q))
                } else {
                    match p_type_list(t, q + 1) {
                        Ok((rest, r)) => Ok((seq![ty] + rest, r)),
                        Err(e) => Err(e),
                    }
                }
            } else if at(t, q, Token::RightParen) {
                Ok((seq![ty], q + 1))
            } else {
                Err(err_span(t, q))
            },
            Err(e) => Err(e),
        }
    }
}

/// `name : type` entries up to `closer`, consumed. Commas separate them; where
/// the closer is a brace the comma may be left out.
pub open spec fn p_fields(t: Seq<TokenV>, p: int, closer: Token) -> PRes<Seq<(Seq<char>, TypeV)>>
    decreases t.len() - p, 3nat,
{
    if at(t, p, closer) {
        Ok((Seq::empty(), p + 1))
    } else if !at(t, p, Token::Identifier) {
        Err(err_span(t, p))
    } else if !at(t, p + 1, Token::Colon) {
        Err(err_span(t, p + 1))
    } else {
        match p_type(t, p + 2) {
            Ok((ty, q)) => {
                let f = (text(t, p), ty);
                if at(t, q, Token::Comma) {
                    if !moved(t, p, q) {
                        Err(err_span(t, q))
                    } else {
                        match p_fields(t, q + 1, closer) {
                            Ok((rest, r)) => Ok((seq![f] + rest, r)),
                            Err(e) => Err(e),
                        }
                    }
                } else if at(t, q, closer) {
                    Ok((seq![f], q + 1))
                } else if closer == Token::RightBrace && moved(t, p, q) {
                    match p_fields(t, q, closer) {
                        Ok((rest, r)) => Ok((seq![f] + rest, r)),
                        Err(e) => Err(e),
                    }
                } else {
                    Err(err_span(t, q))
                }
            },
            Err(e) => Err(e),
        }
    }
}

/// Lambda parameters `name [: type]` up to `)`, consumed.
pub open spec fn p_lambda_params(t: Seq<TokenV>, p: int) -> PRes<Seq<(Seq<char>, Option<TypeV>)>>
    decreases t.len() - p, 3nat,
{
    if at(t, p, Token::RightParen) {
        Ok((Seq::empty(), p + 1))
    } else if !at(t, p, Token::Identifier) {
        Err(err_span(t, p))
    } else {
        let ann: PRes<Option<TypeV>> = if at(t, p + 1, Token::Colon) {
            match p_type(t, p + 2) {
                Ok((ty, q)) => Ok((Some(ty), q)),
                Err(e) => Err(e),
            }
        } else {
            Ok((None, p + 1))
        };
        match ann {
            Ok((oty, q)) => {
                let f = (text(t, p), oty);
                if at(t, q, Token::Comma) {
                    if !moved(t, p, q) {
                        Err(err_span(t, q))
                    } else {
                        match p_lambda_params(t, q + 1) {
                            Ok((rest, r)) => Ok((seq![f] + rest, r)),
                            Err(e) => Err(e),
                        }
                    }
                } else if at(t, q, Token::RightParen) {
                    Ok((seq![f], q + 1))
                } else {
                    Err(err_span(t, q))
                }
            },
            Err(e) => Err(e),
        }
    }
}

/// The binary operator at `p` that belongs to precedence level `lvl`
/// (0: `||`, 1: `&&`, 2: equality, 3: relational, 4: additive, 5: multiplicative).
pub open spec fn op_at(t: Seq<TokenV>, p: int, lvl: nat) -> Option<BinaryOp> {
    if !(0 <= p < t.len()) {
        None
    } else {
        let k = t[p].token;
        if lvl == 0 && k == Token::Or {
            Some(BinaryOp::Or)
        } else if lvl == 1 && k == Token::And {
            Some(BinaryOp::And)
        } else if lvl == 2 && k == Token::Equal {
            Some(BinaryOp::Eq)
        } else if lvl == 2 && k == Token::NotEqual {
            Some(BinaryOp::Neq)
        } else if lvl == 3 && k == Token::Less {
            Some(BinaryOp::Lt)
        } else if lvl == 3 && k == Token::LessEqual {
            Some(BinaryOp::Lte)
        } else if lvl == 3 && k == Token::Greater {
            Some(BinaryOp::Gt)
        } else if lvl == 3 && k == Token::GreaterEqual {
            Some(BinaryOp::Gte)
        } else if lvl == 4 && k == Token::Plus {
            Some(BinaryOp::Add)
        } else if lvl == 4 && k == Token::Minus {
            Some(BinaryOp::Sub)
        } else if lvl == 5 && k == Token::Star {
            Some(BinaryOp::Mul)
        } else if lvl == 5 && k == Token::Slash {
            Some(BinaryOp::Div)
        } else if lvl == 5 && k == Token::Percent {
            Some(BinaryOp::Mod)
        } else {
            None
        }
    }
}

/// expression := level 0 of the binary operators.
pub open spec fn p_expr(t: Seq<TokenV>, p: int) -> PRes<ExprV>
    decreases t.len() - p, 18nat,
{
    p_binary(t, p, 0)
}

/// An operand of level `lvl`: the next level up, or a unary expression.
pub open spec fn p_operand(t: Seq<TokenV>, p: int, lvl: nat) -> PRes<ExprV>
    decreases t.len() - p, 16nat - 2 * lvl,
{
    if lvl < 5 {
        p_binary(t, p, lvl + 1)
    } else if lvl == 5 {
        p_unary(t, p)
    } else {
        Err(err_span(t, p))
    }
}

/// Operands of level `lvl` joined by its operators, grouped to the left.
pub open spec fn p_binary(t: Seq<TokenV>, p: int, lvl: nat) -> PRes<ExprV>
    decreases t.len() - p, 17nat - 2 * lvl,
{
    if lvl > 5 {
        Err(err_span(t, p))
    } else {
        match p_operand(t, p, lvl) {
            Ok((l, q)) => if !moved(t, p, q) {
                Err(err_span(t, q))
            } else {
                p_binary_tail(t, q, lvl, l, p)
            },
            Err(e) => Err(e),
        }
    }
}

/// Given the left operand `left` that began at token `start`, the rest of a
/// chain of level `lvl` from `p` on.
pub open spec fn p_binary_tail(t: Seq<TokenV>, p: int, lvl: nat, left: ExprV, start: int) -> PRes<ExprV>
    decreases t.len() - p, 0nat,
{
    match op_at(t, p, lvl) {
        Some(op) => if lvl > 5 {
            Err(err_span(t, p))
        } else {
            match p_operand(t, p + 1, lvl) {
                Ok((r, q)) => if !moved(t, p, q) || !(0 <= start < q) {
                    Err(err_span(t, q))
                } else {
                    p_binary_tail(
                        t,
                        q,
                        lvl,
                        ExprV::Binary(Box::new(left), op, Box::new(r), join_span(t, start, q)),
                        start,
                    )
                },
                Err(e) => Err(e),
            }
        },
        None => Ok((left, p)),
    }
}

/// unary := (`-` | `!`) unary | postfix
pub open spec fn p_unary(t: Seq<TokenV>, p: int) -> PRes<ExprV>
    decreases t.len() - p, 5nat,
{
    if at(t, p, Token::Minus) || at(t, p, Token::Not) {
        let op = if at(t, p, Token::Minus) {
            UnaryOp::Neg
        } else {
            UnaryOp::Not
        };
        match p_unary(t, p + 1) {
            Ok((e, q)) => if !moved(t, p, q) {
                Err(err_span(t, q))
            } else {
                Ok((ExprV::Unary(op, Box::new(e), join_span(t, p, q)), q))
            },
            Err(e) => Err(e),
        }
    } else {
        p_postfix(t, p)
    }
}

/// postfix := primary { call | index | field }
pub open spec fn p_postfix(t: Seq<TokenV>, p: int) -> PRes<ExprV>
    decreases t.len() - p, 4nat,
{
    match p_primary(t, p) {
        Ok((e, q)) => if !moved(t, p, q) {
            Err(err_span(t, q))
        } else {
            p_postfix_tail(t, q, e, p)
        },
        Err(e) => Err(e),
    }
}

pub open spec fn p_postfix_tail(t: Seq<TokenV>, p: int, e: ExprV, start: int) -> PRes<ExprV>
    decreases t.len() - p, 0nat,
{
    if !(0 <= start < p) {
        Ok((e, p))
    } else if at(t, p, Token::LeftParen) {
        match p_expr_list(t, p + 1, Token::RightParen) {
            Ok((args, q)) => if !moved(t, p, q) {
                Err(err_span(t, q))
            } else {
                p_postfix_tail(t, q, ExprV::Call(Box::new(e), args, join_span(t, start, q)), start)
            },
            Err(x) => Err(x),
        }
    } else if at(t, p, Token::LeftBracket) {
        match p_expr(t, p + 1) {
            Ok((ix, q)) => if !at(t, q, Token::RightBracket) {
                Err(err_span(t, q))
            } else if !moved(t, p, q) {
                Err(err_span(t, q))
            } else {
                p_postfix_tail(
                    t,
                    q + 1,
                    ExprV::Index(Box::new(e), Box::new(ix), join_span(t, start, q + 1)),
                    start,
                )
            },
            Err(x) => Err(x),
        }
    } else if at(t, p, Token::Dot) {
        if at(t, p + 1, Token::Identifier) {
            p_postfix_tail(
                t,
                p + 2,
                ExprV::Field(Box::new(e), text(t, p + 1), join_span(t, start, p + 2)),
                start,
            )
        } else {
            Err(err_span(t, p + 1))
        }
    } else {
        Ok((e, p))
    }
}

/// Expressions up to `closer`, consumed, separated by commas.
pub open spec fn p_expr_list(t: Seq<TokenV>, p: int, closer: Token) -> PRes<Seq<ExprV>>
    decreases t.len() - p, 19nat,
{
    if at(t, p, closer) {
        Ok((Seq::empty(), p + 1))
    } else {
        match p_expr(t, p) {
            Ok((a, q)) => if at(t, q, Token::Comma) {
                if !moved(t, p, q) {
                    Err(err_span(t, q))
                } else {
                    match p_expr_list(t, q + 1, closer) {
                        Ok((rest, r)) => Ok((seq![a] + rest, r)),
                        Err(e) => Err(e),
                    }
                }
            } else if at(t, q, closer) {
                Ok((seq![a], q + 1))
            } else {
                Err(err_span(t, q))
            },
            Err(e) => Err(e),
        }
    }
}

/// The value of an integer literal, when it fits in an `i64`.
pub open spec fn int_literal(w: Seq<char>) -> Option<int> {
    if all_digits(w) && digits_value(w) <= i64::MAX {
        Some(digits_value(w))
    } else {
        None
    }
}

/// primary := literal | identifier | `(` expr `)` | `[` exprs `]` | if | block | lambda
pub open spec fn p_primary(t: Seq<TokenV>, p: int) -> PRes<ExprV>
    decreases t.len() - p, 3nat,
{
    if !(0 <= p < t.len()) {
        Err(err_span(t, p))
    } else {
        let k = t[p].token;
        let sp = tok_span(t, p);
        if k == Token::IntLiteral {
            match int_literal(text(t, p)) {
                Some(v) => Ok((ExprV::Literal(LitV::Int(v), sp), p + 1)),
                None => Err(sp),
            }
        } else if k == Token::FloatLiteral {
            Ok((ExprV::Literal(LitV::Float(text(t, p)), sp), p + 1))
        } else if k == Token::StringLiteral {
            Ok((ExprV::Literal(LitV::Str(text(t, p)), sp), p + 1))
        } else if k == Token::True {
            Ok((ExprV::Literal(LitV::Bool(true), sp), p + 1))
        } else if k == Token::False {
            Ok((ExprV::Literal(LitV::Bool(false), sp), p + 1))
        } else if k == Token::Null {
            Ok((ExprV::Literal(LitV::Null, sp), p + 1))
        } else if k == Token::Identifier {
            Ok((ExprV::Identifier(text(t, p), sp), p + 1))
        } else if k == Token::LeftParen {
            match p_expr(t, p + 1) {
                Ok((e, q)) => if at(t, q, Token::RightParen) {
                    Ok((e, q + 1))
                } else {
                    Err(err_span(t, q))
                },
                Err(e) => Err(e),
            }
        } else if k == Token::LeftBracket {
            match p_expr_list(t, p + 1, Token::RightBracket) {
                Ok((es, q)) => if q <= p {
                    Err(err_span(t, q))
                } else {
                    Ok((ExprV::Array(es, join_span(t, p, q)), q))
                },
                Err(e) => Err(e),
            }
        } else if k == Token::If {
            p_if(t, p)
        } else if k == Token::LeftBrace {
            p_block(t, p)
        } else if k == Token::Fn {
            p_lambda(t, p)
        } else {
            Err(sp)
        }
    }
}

/// if := `if` expr block [`else` (if | block)]
pub open spec fn p_if(t: Seq<TokenV>, p: int) -> PRes<ExprV>
    decreases t.len() - p, 2nat,
{
    if !at(t, p, Token::If) {
        Err(err_span(t, p))
    } else {
        match p_expr(t, p + 1) {
            Ok((c, q)) => if !at(t, q, Token::LeftBrace) || !moved(t, p, q) {
                Err(err_span(t, q))
            } else {
                match p_block(t, q) {
                    Ok((th, r)) => if !moved(t, q, r) {
                        Err(err_span(t, r))
                    } else if at(t, r, Token::Else) {
                        let el: PRes<ExprV> = if at(t, r + 1, Token::If) {
                            p_if(t, r + 1)
                        } else if at(t, r + 1, Token::LeftBrace) {
                            p_block(t, r + 1)
                        } else {
                            Err(err_span(t, r + 1))
                        };
                        match el {
                            Ok((x, u)) => if !moved(t, p, u) {
                                Err(err_span(t, u))
                            } else {
                                Ok((ExprV::If(Box::new(c), Box::new(th), Some(Box::new(x)), join_span(t, p, u)), u))
                            },
                            Err(e) => Err(e),
                        }
                    } else {
                        Ok((ExprV::If(Box::new(c), Box::new(th), None, join_span(t, p, r)), r))
                    },
                    Err(e) => Err(e),
                }
            },
            Err(e) => Err(e),
        }
    }
}

/// block := `{` statements `}`
pub open spec fn p_block(t: Seq<TokenV>, p: int) -> PRes<ExprV>
    decreases t.len() - p, 2nat,
{
    if !at(t, p, Token::LeftBrace) {
        Err(err_span(t, p))
    } else {
        match p_stmts(t, p + 1, true) {
            Ok((ss, q)) => if !moved(t, p, q) {
                Err(err_span(t, q))
            } else {
                Ok((ExprV::Block(ss, join_span(t, p, q)), q))
            },
            Err(e) => Err(e),
        }
    }
}

/// lambda := `fn` `(` params `)` block
pub open spec fn p_lambda(t: Seq<TokenV>, p: int) -> PRes<ExprV>
    decreases t.len() - p, 2nat,
{
    if !at(t, p, Token::Fn) {
        Err(err_span(t, p))
    } else if !at(t, p + 1, Token::LeftParen) {
        Err(err_span(t, p + 1))
    } else {
        match p_lambda_params(t, p + 2) {
            Ok((ps, q)) => if !at(t, q, Token::LeftBrace) || !moved(t, p, q) {
                Err(err_span(t, q))
            } else {
                match p_block(t, q) {
                    Ok((body, r)) => if !moved(t, p, r) {
                        Err(err_span(t, r))
                    } else {
                        Ok((ExprV::Lambda(ps, Box::new(body), join_span(t, p, r)), r))
                    },
                    Err(e) => Err(e),
                }
            },
            Err(e) => Err(e),
        }
    }
}

/// Statements from `p` on: inside a block up to its `}` (consumed), at the
/// top level up to the end of the input.
pub open spec fn p_stmts(t: Seq<TokenV>, p: int, in_block: bool) -> PRes<Seq<StmtV>>
    decreases t.len() - p, 21nat,
{
    if in_block && at(t, p, Token::RightBrace) {
        Ok((Seq::empty(), p + 1))
    } else if !(0 <= p < t.len()) {
        if in_block {
            Err(end_span(t))
        } else {
            Ok((Seq::empty(), p))
        }
    } else {
        match p_stmt(t, p) {
            Ok((s, q)) => if !moved(t, p, q) {
                Err(err_span(t, q))
            } else {
                match p_stmts(t, q, in_block) {
                    Ok((rest, r)) => Ok((seq![s] + rest, r)),
                    Err(e) => Err(e),
                }
            },
            Err(e) => Err(e),
        }
    }
}

/// The position after an optional semicolon at `q`.
pub open spec fn skip_semi(t: Seq<TokenV>, q: int) -> int {
    if at(t, q, Token::Semicolon) {
        q + 1
    } else {
        q
    }
}

/// An expression that can stand on the left of `=`.
pub open spec fn is_place(e: ExprV) -> bool {
    e is Identifier || e is Index || e is Field
}

pub open spec fn expr_span(e: ExprV) -> Span {
    match e {
        ExprV::Literal(_, s) => s,
        ExprV::Identifier(_, s) => s,
        ExprV::Binary(_, _, _, s) => s,
        ExprV::Unary(_, _, s) => s,
        ExprV::Call(_, _, s) => s,
        ExprV::Index(_, _, s) => s,
        ExprV::Field(_, _, s) => s,
        ExprV::Array(_, s) => s,
        ExprV::If(_, _, _, s) => s,
        ExprV::Block(_, s) => s,
        ExprV::Lambda(_, _, s) => s,
    }
}

/// A statement, chosen by its first token.
pub open spec fn p_stmt(t: Seq<TokenV>, p: int) -> PRes<StmtV>
    decreases t.len() - p, 20nat,
{
    if !(0 <= p < t.len()) {
        Err(end_span(t))
    } else {
        let k = t[p].token;
        if k == Token::Let {
            p_let(t, p)
        } else if k == Token::Fn {
            p_function(t, p)
        } else if k == Token::Return {
            p_return(t, p)
        } else if k == Token::If {
            match p_if(t, p) {
                Ok((e, q)) => Ok((StmtV::Expr(e), q)),
                Err(e) => Err(e),
            }
        } else if k == Token::While {
            p_while(t, p)
        } else if k == Token::For {
            p_for(t, p)
        } else if k == Token::LeftBrace {
            match p_block(t, p) {
                Ok((e, q)) => Ok((StmtV::Expr(e), q)),
                Err(e) => Err(e),
            }
        } else if k == Token::Struct {
            p_struct(t, p)
        } else if k == Token::Import {
            p_import(t, p)
        } else {
            match p_expr(t, p) {
                Ok((e, q)) => if at(t, q, Token::Assign) {
                    if !is_place(e) {
                        Err(expr_span(e))
                    } else if !moved(t, p, q) {
                        Err(err_span(t, q))
                    } else {
                        match p_expr(t, q + 1) {
                            Ok((v, r)) => if !moved(t, p, r) {
                                Err(err_span(t, r))
                            } else {
                                let u = skip_semi(t, r);
                                Ok((StmtV::Assign(e, v, join_span(t, p, u)), u))
                            },
                            Err(x) => Err(x),
                        }
                    }
                } else {
                    Ok((StmtV::Expr(e), skip_semi(t, q)))
                },
                Err(x) => Err(x),
            }
        }
    }
}

/// let := `let` name [`:` type] [`=` expr] `;`
pub open spec fn p_let(t: Seq<TokenV>, p: int) -> PRes<StmtV>
    decreases t.len() - p, 19nat,
{
    if !at(t, p, Token::Let) {
        Err(err_span(t, p))
    } else if !at(t, p + 1, Token::Identifier) {
        Err(err_span(t, p + 1))
    } else {
        let name = text(t, p + 1);
        let ann: PRes<Option<TypeV>> = if at(t, p + 2, Token::Colon) {
            match p_type(t, p + 3) {
                Ok((ty, q)) => Ok((Some(ty), q)),
                Err(e) => Err(e),
            }
        } else {
            Ok((None, p + 2))
        };
        match ann {
            Ok((ty, q)) => {
                let init: PRes<Option<ExprV>> = if at(t, q, Token::Assign) {
                    if !moved(t, p, q) {
                        Err(err_span(t, q))
                    } else {
                        match p_expr(t, q + 1) {
                            Ok((e, r)) => Ok((Some(e), r)),
                            Err(e) => Err(e),
                        }
                    }
                } else {
                    Ok((None, q))
                };
                match init {
                    Ok((e, r)) => if !at(t, r, Token::Semicolon) || !(p < r) {
                        Err(err_span(t, r))
                    } else {
                        Ok((StmtV::Let(name, ty, e, join_span(t, p, r + 1)), r + 1))
                    },
                    Err(e) => Err(e),
                }
            },
            Err(e) => Err(e),
        }
    }
}

/// function := `fn` name `(` name `:` type, ... `)` [`->` type] `{` statements `}`
pub open spec fn p_function(t: Seq<TokenV>, p: int) -> PRes<StmtV>
    decreases t.len() - p, 19nat,
{
    if !at(t, p, Token::Fn) {
        Err(err_span(t, p))
    } else if !at(t, p + 1, Token::Identifier) {
        Err(err_span(t, p + 1))
    } else if !at(t, p + 2, Token::LeftParen) {
        Err(err_span(t, p + 2))
    } else {
        match p_fields(t, p + 3, Token::RightParen) {
            Ok((ps, q)) => {
                let ret: PRes<TypeV> = if at(t, q, Token::Arrow) {
                    if !moved(t, p, q) {
                        Err(err_span(t, q))
                    } else {
                        p_type(t, q + 1)
                    }
                } else {
                    Ok((TypeV::Void, q))
                };
                match ret {
                    Ok((rt, r)) => if !at(t, r, Token::LeftBrace) || !moved(t, p, r) {
                        Err(err_span(t, r))
                    } else {
                        match p_stmts(t, r + 1, true) {
                            Ok((ss, u)) => if !moved(t, r, u) {
                                Err(err_span(t, u))
                            } else {
                                Ok((
                                    StmtV::Function(
                                        text(t, p + 1),
                                        ps,
                                        rt,
                                        Box::new(StmtV::Block(ss, join_span(t, r, u))),
                                        join_span(t, p, u),
                                    ),
                                    u,
                                ))
                            },
                            Err(e) => Err(e),
                        }
                    },
                    Err(e) => Err(e),
                }
            },
            Err(e) => Err(e),
        }
    }
}

/// return := `return` [expr] [`;`]
pub open spec fn p_return(t: Seq<TokenV>, p: int) -> PRes<StmtV>
    decreases t.len() - p, 19nat,
{
    if !at(t, p, Token::Return) {
        Err(err_span(t, p))
    } else if at(t, p + 1, Token::Semicolon) {
        Ok((StmtV::Return(None, join_span(t, p, p + 2)), p + 2))
    } else if p + 1 >= t.len() || at(t, p + 1, Token::RightBrace) {
        Ok((StmtV::Return(None, join_span(t, p, p + 1)), p + 1))
    } else {
        match p_expr(t, p + 1) {
            Ok((e, q)) => if !moved(t, p, q) {
                Err(err_span(t, q))
            } else {
                let u = skip_semi(t, q);
                Ok((StmtV::Return(Some(e), join_span(t, p, u)), u))
            },
            Err(e) => Err(e),
        }
    }
}

/// while := `while` expr `{` statements `}`
pub open spec fn p_while(t: Seq<TokenV>, p: int) -> PRes<StmtV>
    decreases t.len() - p, 19nat,
{
    if !at(t, p, Token::While) {
        Err(err_span(t, p))
    } else {
        match p_expr(t, p + 1) {
            Ok((c, q)) => if !at(t, q, Token::LeftBrace) || !moved(t, p, q) {
                Err(err_span(t, q))
            } else {
                match p_stmts(t, q + 1, true) {
                    Ok((ss, r)) => if !moved(t, q, r) {
                        Err(err_span(t, r))
                    } else {
                        Ok((StmtV::While(c, Box::new(StmtV::Block(ss, join_span(t, q, r))), join_span(t, p, r)), r))
                    },
                    Err(e) => Err(e),
                }
            },
            Err(e) => Err(e),
        }
    }
}

/// for := `for` name `in` expr `{` statements `}`
pub open spec fn p_for(t: Seq<TokenV>, p: int) -> PRes<StmtV>
    decreases t.len() - p, 19nat,
{
    if !at(t, p, Token::For) {
        Err(err_span(t, p))
    } else if !at(t, p + 1, Token::Identifier) {
        Err(err_span(t, p + 1))
    } else if !at(t, p + 2, Token::Identifier) || text(t, p + 2) != "in"@ {
        Err(err_span(t, p + 2))
    } else {
        match p_expr(t, p + 3) {
            Ok((it, q)) => if !at(t, q, Token::LeftBrace) || !moved(t, p, q) {
                Err(err_span(t, q))
            } else {
                match p_stmts(t, q + 1, true) {
                    Ok((ss, r)) => if !moved(t, q, r) {
                        Err(err_span(t, r))
                    } else {
                        Ok((
                            StmtV::For(
                                text(t, p + 1),
                                it,
                                Box::new(StmtV::Block(ss, join_span(t, q, r))),
                                join_span(t, p, r),
                            ),
                            r,
                        ))
                    },
                    Err(e) => Err(e),
                }
            },
            Err(e) => Err(e),
        }
    }
}

/// struct := `struct` name `{` fields `}`
pub open spec fn p_struct(t: Seq<TokenV>, p: int) -> PRes<StmtV>
    decreases t.len() - p, 19nat,
{
    if !at(t, p, Token::Struct) {
        Err(err_span(t, p))
    } else if !at(t, p + 1, Token::Identifier) {
        Err(err_span(t, p + 1))
    } else if !at(t, p + 2, Token::LeftBrace) {
        Err(err_span(t, p + 2))
    } else {
        match p_fields(t, p + 3, Token::RightBrace) {
            Ok((fs, q)) => if !moved(t, p, q) {
                Err(err_span(t, q))
            } else {
                Ok((StmtV::Struct(text(t, p + 1), fs, join_span(t, p, q)), q))
            },
            Err(e) => Err(e),
        }
    }
}

/// import := `import` name [`;`]
pub open spec fn p_import(t: Seq<TokenV>, p: int) -> PRes<StmtV>
    decreases t.len() - p, 19nat,
{
    if !at(t, p, Token::Import) {
        Err(err_span(t, p))
    } else if !at(t, p + 1, Token::Identifier) {
        Err(err_span(t, p + 1))
    } else {
        let u = skip_semi(t, p + 2);
        Ok((StmtV::Import(text(t, p + 1), join_span(t, p, u)), u))
    }
}

/// The program that a token sequence denotes, or the span of the first token
/// that breaks the grammar.
pub open spec fn parse_spec(t: Seq<TokenV>) -> Result<Seq<StmtV>, Span> {
    match p_stmts(t, 0, false) {
        Ok((ss, _)) => Ok(ss),
        Err(e) => Err(e),
    }
}

#[derive(Debug)]
pub struct ParseError {
    pub message: String,
    pub span: Span,
}

impl ParseError {
    pub fn to_string(&self) -> (r: String)
        ensures
            r@ == "Parse error at position "@ + crate::codegen::nat_text(self.span.start as nat) + ": "@
                + self.message@,
    {
        let mut out = "Parse error at position ".to_string();
        out.append(crate::codegen::uint_to_text(self.span.start as u64).as_str());
        out.append(": ");
        out.append(self.message.as_str());
        out
    }
}

/// A result of parsing agrees with the model of the token sequence.
pub open spec fn parse_result_agrees(t: Seq<TokenV>, r: Result<Program, ParseError>) -> bool {
    match parse_spec(t) {
        Ok(ss) => r is Ok && r->Ok_0@ == ss,
        Err(sp) => r is Err && r->Err_0.span == sp,
    }
}

/// Parsing is deterministic: any two results that parsing may give for the
/// same token sequence (same kinds, texts and spans) are the same tree, or
/// fail at the same span.
pub proof fn lemma_parse_deterministic(
    t: Seq<TokenV>,
    r1: Result<Program, ParseError>,
    r2: Result<Program, ParseError>,
)
    requires
        parse_result_agrees(t, r1),
        parse_result_agrees(t, r2),
    ensures
        r1 is Ok <==> r2 is Ok,
        r1 is Ok ==> r1->Ok_0@ == r2->Ok_0@,
        r1 is Err ==> r1->Err_0.span == r2->Err_0.span,
{
}

/// An exec parse step agrees with its model: the same value and position,
/// or an error at the same span.
pub open spec fn agrees<X, V>(r: Result<(X, usize), ParseError>, m: PRes<V>, view: spec_fn(X) -> V) -> bool {
    match m {
        Ok((v, q)) => r is Ok && view(r->Ok_0.0) == v && r->Ok_0.1 as int == q,
        Err(sp) => r is Err && r->Err_0.span == sp,
    }
}

/// The position an exec step returned lies after `p` and within the input.
pub open spec fn advanced<X>(r: Result<(X, usize), ParseError>, p: int, len: int) -> bool {
    r is Ok ==> p < r->Ok_0.1 <= len
}

pub open spec fn field_list_view(v: Vec<(String, Type)>) -> Seq<(Seq<char>, TypeV)> {
    crate::ast::typed_fields_view(v)
}

proof fn lemma_digits_prefix(w: Seq<char>, k: int, m: int)
    requires
        all_digits(w),
        0 <= k <= m <= w.len(),
    ensures
        digits_value(w.subrange(0, k)) <= digits_value(w.subrange(0, m)),
        0 <= digits_value(w.subrange(0, k)),
    decreases m,
{
    if k < m {
        lemma_digits_prefix(w, k, m - 1);
        assert(w.subrange(0, m).drop_last() =~= w.subrange(0, m - 1));
    } else if k > 0 {
        lemma_digits_prefix(w, k - 1, k - 1);
        assert(w.subrange(0, k).drop_last() =~= w.subrange(0, k - 1));
    } else {
        assert(w.subrange(0, 0).len() == 0);
    }
}

/// The value of the integer literal `w`, if it is all digits and fits.
fn int_literal_exec(w: &str) -> (r: Option<i64>)
    ensures
        r matches Some(v) ==> int_literal(w@) == Some(v as int),
        r is None ==> int_literal(w@) is None,
{
    let n = w.unicode_len();
    let mut v: i64 = 0;
    let mut k: usize = 0;
    assert(w@.subrange(0, 0).len() == 0);
    while k < n
        invariant
            n == w@.len(),
            k <= n,
            0 <= v,
            v as int == digits_value(w@.subrange(0, k as int)),
            all_digits(w@.subrange(0, k as int)),
        decreases n - k,
    {
        let c = w.get_char(k);
        if !('0' <= c && c <= '9') {
            assert(!all_digits(w@));
            return None;
        }
        let d = (c as u32 - '0' as u32) as i64;
        assert(w@.subrange(0, k + 1).drop_last() =~= w@.subrange(0, k as int));
        let nv: i128 = v as i128 * 10 + d as i128;
        if nv > i64::MAX as i128 {
            proof {
                if all_digits(w@) {
                    lemma_digits_prefix(w@, k + 1, n as int);
                    assert(w@.subrange(0, n as int) =~= w@);
                }
            }
            return None;
        }
        v = nv as i64;
        k = k + 1;
        assert(all_digits(w@.subrange(0, k as int))) by {
            assert forall|i: int| 0 <= i < k implies '0' <= #[trigger] w@.subrange(0, k as int)[i]
                && w@.subrange(0, k as int)[i] <= '9' by {
                if i < k - 1 {
                    assert(w@.subrange(0, k as int)[i] == w@.subrange(0, k - 1)[i]);
                }
            }
        }
    }
    assert(w@.subrange(0, n as int) =~= w@);
    Some(v)
}

/// Whether two texts hold the same characters.
fn same_text(a: &str, b: &str) -> (r: bool)
    ensures
        r == (a@ == b@),
{
    let n = a.unicode_len();
    if n != b.unicode_len() {
        return false;
    }
    let mut k: usize = 0;
    while k < n
        invariant
            n == a@.len(),
            n == b@.len(),
            k <= n,
            forall|i: int| 0 <= i < k ==> a@[i] == b@[i],
        decreases n - k,
    {
        if a.get_char(k) != b.get_char(k) {
            return false;
        }
        k = k + 1;
    }
    assert(a@ =~= b@);
    true
}

fn named_type_exec(w: &String) -> (r: Type)
    ensures
        r@ == named_type(w@),
{
    if same_text(w.as_str(), "int") {
        Type::Int
    } else if same_text(w.as_str(), "float") {
        Type::Float
    } else if same_text(w.as_str(), "bool") {
        Type::Bool
    } else if same_text(w.as_str(), "string") {
        Type::String
    } else if same_text(w.as_str(), "void") {
        Type::Void
    } else {
        Type::Struct(w.clone())
    }
}

/// A recursive-descent parser over a token sequence.
pub struct Parser {
    pub tokens: Vec<LexerSpan>,
}

impl Parser {
    pub fn new(tokens: Vec<LexerSpan>) -> (r: Parser)
        ensures
            r.tokens == tokens,
    {
        Parser { tokens }
    }

    pub open spec fn toks(&self) -> Seq<TokenV> {
        tokens_view(self.tokens@)
    }

    fn is(&self, p: usize, k: Token) -> (r: bool)
        ensures
            r == at(self.toks(), p as int, k),
            self.toks().len() <= usize::MAX,
    {
        p < self.tokens.len() && self.tokens[p].token == k
    }

    fn span_at(&self, p: usize) -> (r: Span)
        requires
            p < self.toks().len(),
        ensures
            r == tok_span(self.toks(), p as int),
    {
        Span { start: self.tokens[p].span.start, end: self.tokens[p].span.end }
    }

    fn join(&self, a: usize, b: usize) -> (r: Span)
        requires
            a < b <= self.toks().len(),
        ensures
            r == join_span(self.toks(), a as int, b as int),
    {
        Span { start: self.tokens[a].span.start, end: self.tokens[b - 1].span.end }
    }

    /// An error at position `p` that says what was expected there.
    fn error(&self, p: usize, expected: &str) -> (e: ParseError)
        ensures
            e.span == err_span(self.toks(), p as int),
    {
        let mut message = "Expected ".to_string();
        message.append(expected);
        if p < self.tokens.len() {
            message.append(", found ");
            message.append(self.tokens[p].token.describe());
            ParseError { message, span: self.span_at(p) }
        } else {
            message.append(", found end of file");
            let n = self.tokens.len();
            if n == 0 {
                ParseError { message, span: Span { start: 0, end: 0 } }
            } else {
                let e = self.tokens[n - 1].span.end;
                ParseError { message, span: Span { start: e, end: e } }
            }
        }
    }

    /// Consumes a token of kind `expected` at `p`, giving the position after it.
    pub fn expect(&self, p: usize, expected: Token) -> (r: Result<usize, ParseError>)
        ensures
            at(self.toks(), p as int, expected) ==> r == Ok::<usize, ParseError>((p + 1) as usize),
            !at(self.toks(), p as int, expected) ==> r is Err && r->Err_0.span == err_span(
                self.toks(),
                p as int,
            ),
    {
        if self.is(p, expected) {
            Ok(p + 1)
        } else {
            Err(self.error(p, expected.describe()))
        }
    }

    pub fn parse_type(&self, p: usize) -> (r: Result<(Type, usize), ParseError>)
        requires
            p <= self.toks().len(),
        ensures
            agrees(r, p_type(self.toks(), p as int), |x: Type| type_view(x)),
            advanced(r, p as int, self.toks().len() as int),
        decreases self.toks().len() - p, 2nat,
    {
        if self.is(p, Token::Identifier) {
            Ok((named_type_exec(&self.tokens[p].text), p + 1))
        } else if self.is(p, Token::LeftBracket) {
            match self.parse_type(p + 1) {
                Ok((e, q)) => match self.expect(q, Token::RightBracket) {
                    Ok(u) => Ok((Type::Array(Box::new(e)), u)),
                    Err(x) => Err(x),
                },
                Err(e) => Err(e),
            }
        } else if self.is(p, Token::Fn) {
            if !self.is(p + 1, Token::LeftParen) {
                Err(self.error(p + 1, "'('"))
            } else {
                match self.parse_type_list(p + 2) {
                    Ok((ps, q)) => if !self.is(q, Token::Arrow) {
                        Err(self.error(q, "'->'"))
                    } else {
                        match self.parse_type(q + 1) {
                            Ok((rt, u)) => Ok((Type::Function(ps, Box::new(rt)), u)),
                            Err(e) => Err(e),
                        }
                    },
                    Err(e) => Err(e),
                }
            }
        } else {
            Err(self.error(p, "type"))
        }
    }

    fn parse_type_list(&self, p: usize) -> (r: Result<(Vec<Type>, usize), ParseError>)
        requires
            p <= self.toks().len(),
        ensures
            agrees(r, p_type_list(self.toks(), p as int), |x: Vec<Type>| types_view(x)),
            advanced(r, p as int, self.toks().len() as int),
        decreases self.toks().len() - p, 3nat,
    {
        if self.is(p, Token::RightParen) {
            let v: Vec<Type> = Vec::new();
            assert(types_view(v) =~= Seq::<TypeV>::empty());
            Ok((v, p + 1))
        } else if p >= self.tokens.len() {
            Err(self.error(p, "type"))
        } else {
            match self.parse_type(p) {
                Ok((ty, q)) => if self.is(q, Token::Comma) {
                    match self.parse_type_list(q + 1) {
                        Ok((rest, r)) => {
                            let ghost tv = ty@;
                            let ghost rv = types_view(rest);
                            let mut v = rest;
                            v.insert(0, ty);
                            assert(types_view(v) =~= seq![tv] + rv);
                            Ok((v, r))
                        },
                        Err(e) => Err(e),
                    }
                } else if self.is(q, Token::RightParen) {
                    let ghost tv = ty@;
                    let mut v: Vec<Type> = Vec::new();
                    v.push(ty);
                    assert(types_view(v) =~= seq![tv]);
                    Ok((v, q + 1))
                } else {
                    Err(self.error(q, "',' or ')'"))
                },
                Err(e) => Err(e),
            }
        }
    }

    #[verifier::rlimit(40)]
    fn parse_fields(&self, p: usize, closer: Token) -> (r: Result<(Vec<(String, Type)>, usize), ParseError>)
        requires
            p <= self.toks().len(),
        ensures
            agrees(r, p_fields(self.toks(), p as int, closer), |x: Vec<(String, Type)>| field_list_view(x)),
            advanced(r, p as int, self.toks().len() as int),
        decreases self.toks().len() - p, 3nat,
    {
        if self.is(p, closer) {
            let v: Vec<(String, Type)> = Vec::new();
            assert(field_list_view(v) =~= Seq::<(Seq<char>, TypeV)>::empty());
            Ok((v, p + 1))
        } else if !self.is(p, Token::Identifier) {
            Err(self.error(p, "field name"))
        } else if !self.is(p + 1, Token::Colon) {
            Err(self.error(p + 1, "':'"))
        } else {
            match self.parse_type(p + 2) {
                Ok((ty, q)) => {
                    let name = self.tokens[p].text.clone();
                    let ghost fv = (name@, ty@);
                    let f = (name, ty);
                    if self.is(q, Token::Comma) {
                        match self.parse_fields(q + 1, closer) {
                            Ok((rest, r)) => {
                                let ghost rv = field_list_view(rest);
                                let mut v = rest;
                                v.insert(0, f);
                                assert(field_list_view(v) =~= seq![fv] + rv);
                                Ok((v, r))
                            },
                            Err(e) => Err(e),
                        }
                    } else if self.is(q, closer) {
                        let mut v: Vec<(String, Type)> = Vec::new();
                        v.push(f);
                        assert(field_list_view(v) =~= seq![fv]);
                        Ok((v, q + 1))
                    } else if closer == Token::RightBrace {
                        match self.parse_fields(q, closer) {
                            Ok((rest, r)) => {
                                let ghost rv = field_list_view(rest);
                                let mut v = rest;
                                v.insert(0, f);
                                assert(field_list_view(v) =~= seq![fv] + rv);
                                Ok((v, r))
                            },
                            Err(e) => Err(e),
                        }
                    } else {
                        Err(self.error(q, "',' or ')'"))
                    }
                },
                Err(e) => Err(e),
            }
        }
    }

    fn parse_lambda_params(&self, p: usize) -> (r: Result<(Vec<(String, Option<Type>)>, usize), ParseError>)
        requires
            p <= self.toks().len(),
        ensures
            agrees(
                r,
                p_lambda_params(self.toks(), p as int),
                |x: Vec<(String, Option<Type>)>| crate::ast::lambda_params_view(x),
            ),
            advanced(r, p as int, self.toks().len() as int),
        decreases self.toks().len() - p, 3nat,
    {
        if self.is(p, Token::RightParen) {
            let v: Vec<(String, Option<Type>)> = Vec::new();
            assert(crate::ast::lambda_params_view(v) =~= Seq::<(Seq<char>, Option<TypeV>)>::empty());
            Ok((v, p + 1))
        } else if !self.is(p, Token::Identifier) {
            Err(self.error(p, "parameter name"))
        } else {
            let ann: Result<(Option<Type>, usize), ParseError> = if self.is(p + 1, Token::Colon) {
                match self.parse_type(p + 2) {
                    Ok((ty, q)) => Ok((Some(ty), q)),
                    Err(e) => Err(e),
                }
            } else {
                Ok((None, p + 1))
            };
            match ann {
                Ok((oty, q)) => {
                    let name = self.tokens[p].text.clone();
                    let ghost fv = (name@, opt_type_view(oty));
                    let f = (name, oty);
                    if self.is(q, Token::Comma) {
                        match self.parse_lambda_params(q + 1) {
                            Ok((rest, r)) => {
                                let ghost rv = crate::ast::lambda_params_view(rest);
                                let mut v = rest;
                                v.insert(0, f);
                                assert(crate::ast::lambda_params_view(v) =~= seq![fv] + rv);
                                Ok((v, r))
                            },
                            Err(e) => Err(e),
                        }
                    } else if self.is(q, Token::RightParen) {
                        let mut v: Vec<(String, Option<Type>)> = Vec::new();
                        v.push(f);
                        assert(crate::ast::lambda_params_view(v) =~= seq![fv]);
                        Ok((v, q + 1))
                    } else {
                        Err(self.error(q, "',' or ')'"))
                    }
                },
                Err(e) => Err(e),
            }
        }
    }

    fn op_at_exec(&self, p: usize, lvl: usize) -> (r: Option<BinaryOp>)
        ensures
            r == op_at(self.toks(), p as int, lvl as nat),
            r is Some ==> p < self.toks().len() <= usize::MAX,
    {
        if p >= self.tokens.len() {
            return None;
        }
        let k = self.tokens[p].token;
        if lvl == 0 && k == Token::Or {
            Some(BinaryOp::Or)
        } else if lvl == 1 && k == Token::And {
            Some(BinaryOp::And)
        } else if lvl == 2 && k == Token::Equal {
            Some(BinaryOp::Eq)
        } else if lvl == 2 && k == Token::NotEqual {
            Some(BinaryOp::Neq)
        } else if lvl == 3 && k == Token::Less {
            Some(BinaryOp::Lt)
        } else if lvl == 3 && k == Token::LessEqual {
            Some(BinaryOp::Lte)
        } else if lvl == 3 && k == Token::Greater {
            Some(BinaryOp::Gt)
        } else if lvl == 3 && k == Token::GreaterEqual {
            Some(BinaryOp::Gte)
        } else if lvl == 4 && k == Token::Plus {
            Some(BinaryOp::Add)
        } else if lvl == 4 && k == Token::Minus {
            Some(BinaryOp::Sub)
        } else if lvl == 5 && k == Token::Star {
            Some(BinaryOp::Mul)
        } else if lvl == 5 && k == Token::Slash {
            Some(BinaryOp::Div)
        } else if lvl == 5 && k == Token::Percent {
            Some(BinaryOp::Mod)
        } else {
            None
        }
    }

    pub fn parse_expression(&self, p: usize) -> (r: Result<(Expr, usize), ParseError>)
        requires
            p <= self.toks().len(),
        ensures
            agrees(r, p_expr(self.toks(), p as int), |x: Expr| expr_view(x)),
            advanced(r, p as int, self.toks().len() as int),
        decreases self.toks().len() - p, 18nat,
    {
        self.parse_binary(p, 0)
    }

    fn parse_operand(&self, p: usize, lvl: usize) -> (r: Result<(Expr, usize), ParseError>)
        requires
            p <= self.toks().len(),
            lvl <= 5,
        ensures
            agrees(r, p_operand(self.toks(), p as int, lvl as nat), |x: Expr| expr_view(x)),
            advanced(r, p as int, self.toks().len() as int),
        decreases self.toks().len() - p, 16nat - 2 * lvl,
    {
        if lvl < 5 {
            self.parse_binary(p, lvl + 1)
        } else {
            self.parse_unary(p)
        }
    }

    fn parse_binary(&self, p: usize, lvl: usize) -> (r: Result<(Expr, usize), ParseError>)
        requires
            p <= self.toks().len(),
            lvl <= 5,
        ensures
            agrees(r, p_binary(self.toks(), p as int, lvl as nat), |x: Expr| expr_view(x)),
            advanced(r, p as int, self.toks().len() as int),
        decreases self.toks().len() - p, 17nat - 2 * lvl,
    {
        match self.parse_operand(p, lvl) {
            Ok((l, q)) => self.parse_binary_tail(q, lvl, l, p),
            Err(e) => Err(e),
        }
    }

    fn parse_binary_tail(&self, p: usize, lvl: usize, left: Expr, start: usize) -> (r: Result<(Expr, usize), ParseError>)
        requires
            p <= self.toks().len(),
            lvl <= 5,
            start < p,
        ensures
            agrees(r, p_binary_tail(self.toks(), p as int, lvl as nat, expr_view(left), start as int), |x: Expr| expr_view(x)),
            r is Ok ==> p <= r->Ok_0.1 <= self.toks().len(),
        decreases self.toks().len() - p, 0nat,
    {
        match self.op_at_exec(p, lvl) {
            Some(op) => {
                match self.parse_operand(p + 1, lvl) {
                    Ok((rhs, q)) => {
                        let sp = self.join(start, q);
                        self.parse_binary_tail(q, lvl, Expr::Binary(Box::new(left), op, Box::new(rhs), sp), start)
                    },
                    Err(e) => Err(e),
                }
            },
            None => Ok((left, p)),
        }
    }

    fn parse_unary(&self, p: usize) -> (r: Result<(Expr, usize), ParseError>)
        requires
            p <= self.toks().len(),
        ensures
            agrees(r, p_unary(self.toks(), p as int), |x: Expr| expr_view(x)),
            advanced(r, p as int, self.toks().len() as int),
        decreases self.toks().len() - p, 5nat,
    {
        if self.is(p, Token::Minus) || self.is(p, Token::Not) {
            let op = if self.is(p, Token::Minus) {
                UnaryOp::Neg
            } else {
                UnaryOp::Not
            };
            match self.parse_unary(p + 1) {
                Ok((e, q)) => {
                    let sp = self.join(p, q);
                    Ok((Expr::Unary(op, Box::new(e), sp), q))
                },
                Err(e) => Err(e),
            }
        } else {
            self.parse_postfix(p)
        }
    }

    fn parse_postfix(&self, p: usize) -> (r: Result<(Expr, usize), ParseError>)
        requires
            p <= self.toks().len(),
        ensures
            agrees(r, p_postfix(self.toks(), p as int), |x: Expr| expr_view(x)),
            advanced(r, p as int, self.toks().len() as int),
        decreases self.toks().len() - p, 4nat,
    {
        match self.parse_primary(p) {
            Ok((e, q)) => self.parse_postfix_tail(q, e, p),
            Err(e) => Err(e),
        }
    }

    #[verifier::rlimit(40)]
    fn parse_postfix_tail(&self, p: usize, e: Expr, start: usize) -> (r: Result<(Expr, usize), ParseError>)
        requires
            p <= self.toks().len(),
            start < p,
        ensures
            agrees(r, p_postfix_tail(self.toks(), p as int, expr_view(e), start as int), |x: Expr| expr_view(x)),
            r is Ok ==> p <= r->Ok_0.1 <= self.toks().len(),
        decreases self.toks().len() - p, 0nat,
    {
        if self.is(p, Token::LeftParen) {
            match self.parse_expr_list(p + 1, Token::RightParen) {
                Ok((args, q)) => {
                    let sp = self.join(start, q);
                    self.parse_postfix_tail(q, Expr::Call(Box::new(e), args, sp), start)
                },
                Err(x) => Err(x),
            }
        } else if self.is(p, Token::LeftBracket) {
            match self.parse_expression(p + 1) {
                Ok((ix, q)) => if !self.is(q, Token::RightBracket) {
                    Err(self.error(q, "']'"))
                } else {
                    let sp = self.join(start, q + 1);
                    self.parse_postfix_tail(q + 1, Expr::Index(Box::new(e), Box::new(ix), sp), start)
                },
                Err(x) => Err(x),
            }
        } else if self.is(p, Token::Dot) {
            if self.is(p + 1, Token::Identifier) {
                let name = self.tokens[p + 1].text.clone();
                let sp = self.join(start, p + 2);
                self.parse_postfix_tail(p + 2, Expr::Field(Box::new(e), name, sp), start)
            } else {
                Err(self.error(p + 1, "field name"))
            }
        } else {
            Ok((e, p))
        }
    }

    fn parse_expr_list(&self, p: usize, closer: Token) -> (r: Result<(Vec<Expr>, usize), ParseError>)
        requires
            p <= self.toks().len(),
        ensures
            agrees(r, p_expr_list(self.toks(), p as int, closer), |x: Vec<Expr>| exprs_view(x)),
            advanced(r, p as int, self.toks().len() as int),
        decreases self.toks().len() - p, 19nat,
    {
        if self.is(p, closer) {
            let v: Vec<Expr> = Vec::new();
            assert(exprs_view(v) =~= Seq::<ExprV>::empty());
            Ok((v, p + 1))
        } else {
            match self.parse_expression(p) {
                Ok((a, q)) => {
                    let ghost av = expr_view(a);
                    if self.is(q, Token::Comma) {
                        match self.parse_expr_list(q + 1, closer) {
                            Ok((rest, r)) => {
                                let ghost rv = exprs_view(rest);
                                let mut v = rest;
                                v.insert(0, a);
                                assert(exprs_view(v) =~= seq![av] + rv);
                                Ok((v, r))
                            },
                            Err(e) => Err(e),
                        }
                    } else if self.is(q, closer) {
                        let mut v: Vec<Expr> = Vec::new();
                        v.push(a);
                        assert(exprs_view(v) =~= seq![av]);
                        Ok((v, q + 1))
                    } else {
                        Err(self.error(q, "',' or closing bracket"))
                    }
                },
                Err(e) => Err(e),
            }
        }
    }

    #[verifier::rlimit(40)]
    fn parse_primary(&self, p: usize) -> (r: Result<(Expr, usize), ParseError>)
        requires
            p <= self.toks().len(),
        ensures
            agrees(r, p_primary(self.toks(), p as int), |x: Expr| expr_view(x)),
            advanced(r, p as int, self.toks().len() as int),
        decreases self.toks().len() - p, 3nat,
    {
        if p >= self.tokens.len() {
            return Err(self.error(p, "expression"));
        }
        let k = self.tokens[p].token;
        let sp = self.span_at(p);
        if k == Token::IntLiteral {
            match int_literal_exec(self.tokens[p].text.as_str()) {
                Some(v) => Ok((Expr::Literal(Literal::Int(v), sp), p + 1)),
                None => {
                    let mut message = "Integer literal out of range: ".to_string();
                    message.append(self.tokens[p].text.as_str());
                    Err(ParseError { message, span: sp })
                },
            }
        } else if k == Token::FloatLiteral {
            Ok((Expr::Literal(Literal::Float(self.tokens[p].text.clone()), sp), p + 1))
        } else if k == Token::StringLiteral {
            Ok((Expr::Literal(Literal::String(self.tokens[p].text.clone()), sp), p + 1))
        } else if k == Token::True {
            Ok((Expr::Literal(Literal::Bool(true), sp), p + 1))
        } else if k == Token::False {
            Ok((Expr::Literal(Literal::Bool(false), sp), p + 1))
        } else if k == Token::Null {
            Ok((Expr::Literal(Literal::Null, sp), p + 1))
        } else if k == Token::Identifier {
            Ok((Expr::Identifier(self.tokens[p].text.clone(), sp), p + 1))
        } else if k == Token::LeftParen {
            match self.parse_expression(p + 1) {
                Ok((e, q)) => match self.expect(q, Token::RightParen) {
                    Ok(u) => Ok((e, u)),
                    Err(x) => Err(x),
                },
                Err(e) => Err(e),
            }
        } else if k == Token::LeftBracket {
            match self.parse_expr_list(p + 1, Token::RightBracket) {
                Ok((es, q)) => {
                    let sp2 = self.join(p, q);
                    Ok((Expr::Array(es, sp2), q))
                },
                Err(e) => Err(e),
            }
        } else if k == Token::If {
            self.parse_if_expression(p)
        } else if k == Token::LeftBrace {
            self.parse_block_expression(p)
        } else if k == Token::Fn {
            self.parse_lambda(p)
        } else {
            Err(self.error(p, "expression"))
        }
    }

    #[verifier::rlimit(40)]
    fn parse_if_expression(&self, p: usize) -> (r: Result<(Expr, usize), ParseError>)
        requires
            p <= self.toks().len(),
        ensures
            agrees(r, p_if(self.toks(), p as int), |x: Expr| expr_view(x)),
            advanced(r, p as int, self.toks().len() as int),
        decreases self.toks().len() - p, 2nat,
    {
        if !self.is(p, Token::If) {
            return Err(self.error(p, "'if'"));
        }
        match self.parse_expression(p + 1) {
            Ok((c, q)) => if !self.is(q, Token::LeftBrace) {
                Err(self.error(q, "'{'"))
            } else {
                match self.parse_block_expression(q) {
                    Ok((th, r)) => if self.is(r, Token::Else) {
                        let el = if self.is(r + 1, Token::If) {
                            self.parse_if_expression(r + 1)
                        } else if self.is(r + 1, Token::LeftBrace) {
                            self.parse_block_expression(r + 1)
                        } else {
                            Err(self.error(r + 1, "'if' or '{'"))
                        };
                        match el {
                            Ok((x, u)) => {
                                let sp = self.join(p, u);
                                Ok((Expr::If(Box::new(c), Box::new(th), Some(Box::new(x)), sp), u))
                            },
                            Err(e) => Err(e),
                        }
                    } else {
                        let sp = self.join(p, r);
                        Ok((Expr::If(Box::new(c), Box::new(th), None, sp), r))
                    },
                    Err(e) => Err(e),
                }
            },
            Err(e) => Err(e),
        }
    }

    fn parse_block_expression(&self, p: usize) -> (r: Result<(Expr, usize), ParseError>)
        requires
            p <= self.toks().len(),
        ensures
            agrees(r, p_block(self.toks(), p as int), |x: Expr| expr_view(x)),
            advanced(r, p as int, self.toks().len() as int),
        decreases self.toks().len() - p, 2nat,
    {
        if !self.is(p, Token::LeftBrace) {
            return Err(self.error(p, "'{'"));
        }
        match self.parse_statements(p + 1, true) {
            Ok((ss, q)) => {
                let sp = self.join(p, q);
                Ok((Expr::Block(ss, sp), q))
            },
            Err(e) => Err(e),
        }
    }

    #[verifier::rlimit(40)]
    fn parse_lambda(&self, p: usize) -> (r: Result<(Expr, usize), ParseError>)
        requires
            p <= self.toks().len(),
        ensures
            agrees(r, p_lambda(self.toks(), p as int), |x: Expr| expr_view(x)),
            advanced(r, p as int, self.toks().len() as int),
        decreases self.toks().len() - p, 2nat,
    {
        if !self.is(p, Token::Fn) {
            Err(self.error(p, "'fn'"))
        } else if !self.is(p + 1, Token::LeftParen) {
            Err(self.error(p + 1, "'('"))
        } else {
            match self.parse_lambda_params(p + 2) {
                Ok((ps, q)) => if !self.is(q, Token::LeftBrace) {
                    Err(self.error(q, "'{'"))
                } else {
                    match self.parse_block_expression(q) {
                        Ok((body, r)) => {
                            let sp = self.join(p, r);
                            Ok((Expr::Lambda(ps, Box::new(body), sp), r))
                        },
                        Err(e) => Err(e),
                    }
                },
                Err(e) => Err(e),
            }
        }
    }

    fn parse_statements(&self, p: usize, in_block: bool) -> (r: Result<(Vec<Stmt>, usize), ParseError>)
        requires
            p <= self.toks().len(),
        ensures
            agrees(r, p_stmts(self.toks(), p as int, in_block), |x: Vec<Stmt>| stmts_view(x)),
            r is Ok ==> p <= r->Ok_0.1 <= self.toks().len(),
            r is Ok && in_block ==> p < r->Ok_0.1,
        decreases self.toks().len() - p, 21nat,
    {
        if in_block && self.is(p, Token::RightBrace) {
            let v: Vec<Stmt> = Vec::new();
            assert(stmts_view(v) =~= Seq::<StmtV>::empty());
            Ok((v, p + 1))
        } else if p >= self.tokens.len() {
            if in_block {
                Err(self.error(p, "'}'"))
            } else {
                let v: Vec<Stmt> = Vec::new();
                assert(stmts_view(v) =~= Seq::<StmtV>::empty());
                Ok((v, p))
            }
        } else {
            match self.parse_statement(p) {
                Ok((st, q)) => {
                    let ghost sv = stmt_view(st);
                    match self.parse_statements(q, in_block) {
                        Ok((rest, r)) => {
                            let ghost rv = stmts_view(rest);
                            let mut v = rest;
                            v.insert(0, st);
                            assert(stmts_view(v) =~= seq![sv] + rv);
                            Ok((v, r))
                        },
                        Err(e) => Err(e),
                    }
                },
                Err(e) => Err(e),
            }
        }
    }

    fn skip_semicolon(&self, q: usize) -> (r: usize)
        requires
            q <= self.toks().len(),
        ensures
            r as int == skip_semi(self.toks(), q as int),
            q <= r <= self.toks().len(),
    {
        if self.is(q, Token::Semicolon) {
            q + 1
        } else {
            q
        }
    }

    #[verifier::rlimit(40)]
    fn parse_statement(&self, p: usize) -> (r: Result<(Stmt, usize), ParseError>)
        requires
            p <= self.toks().len(),
        ensures
            agrees(r, p_stmt(self.toks(), p as int), |x: Stmt| stmt_view(x)),
            advanced(r, p as int, self.toks().len() as int),
        decreases self.toks().len() - p, 20nat,
    {
        if p >= self.tokens.len() {
            return Err(self.error(p, "statement"));
        }
        let k = self.tokens[p].token;
        if k == Token::Let {
            self.parse_let_statement(p)
        } else if k == Token::Fn {
            self.parse_function_declaration(p)
        } else if k == Token::Return {
            self.parse_return_statement(p)
        } else if k == Token::If {
            match self.parse_if_expression(p) {
                Ok((e, q)) => Ok((Stmt::Expr(e), q)),
                Err(e) => Err(e),
            }
        } else if k == Token::While {
            self.parse_while_statement(p)
        } else if k == Token::For {
            self.parse_for_statement(p)
        } else if k == Token::LeftBrace {
            match self.parse_block_expression(p) {
                Ok((e, q)) => Ok((Stmt::Expr(e), q)),
                Err(e) => Err(e),
            }
        } else if k == Token::Struct {
            self.parse_struct_declaration(p)
        } else if k == Token::Import {
            self.parse_import_statement(p)
        } else {
            match self.parse_expression(p) {
                Ok((e, q)) => if self.is(q, Token::Assign) {
                    let place = match &e {
                        Expr::Identifier(..) => true,
                        Expr::Index(..) => true,
                        Expr::Field(..) => true,
                        _ => false,
                    };
                    if !place {
                        let message = "Invalid assignment target".to_string();
                        Err(ParseError { message, span: span_of_expr(&e) })
                    } else {
                        match self.parse_expression(q + 1) {
                            Ok((v, r)) => {
                                let u = self.skip_semicolon(r);
                                let sp = self.join(p, u);
                                Ok((Stmt::Assign(e, v, sp), u))
                            },
                            Err(x) => Err(x),
                        }
                    }
                } else {
                    Ok((Stmt::Expr(e), self.skip_semicolon(q)))
                },
                Err(x) => Err(x),
            }
        }
    }

    #[verifier::rlimit(40)]
    fn parse_let_statement(&self, p: usize) -> (r: Result<(Stmt, usize), ParseError>)
        requires
            p <= self.toks().len(),
        ensures
            agrees(r, p_let(self.toks(), p as int), |x: Stmt| stmt_view(x)),
            advanced(r, p as int, self.toks().len() as int),
        decreases self.toks().len() - p, 19nat,
    {
        if !self.is(p, Token::Let) {
            return Err(self.error(p, "'let'"));
        }
        if !self.is(p + 1, Token::Identifier) {
            return Err(self.error(p + 1, "identifier after 'let'"));
        }
        let ann: Result<(Option<Type>, usize), ParseError> = if self.is(p + 2, Token::Colon) {
            match self.parse_type(p + 3) {
                Ok((ty, q)) => Ok((Some(ty), q)),
                Err(e) => Err(e),
            }
        } else {
            Ok((None, p + 2))
        };
        match ann {
            Ok((ty, q)) => {
                let init: Result<(Option<Expr>, usize), ParseError> = if self.is(q, Token::Assign) {
                    match self.parse_expression(q + 1) {
                        Ok((e, r)) => Ok((Some(e), r)),
                        Err(e) => Err(e),
                    }
                } else {
                    Ok((None, q))
                };
                match init {
                    Ok((e, r)) => if !self.is(r, Token::Semicolon) {
                        Err(self.error(r, "';'"))
                    } else {
                        let name = self.tokens[p + 1].text.clone();
                        let sp = self.join(p, r + 1);
                        Ok((Stmt::Let(name, ty, e, sp), r + 1))
                    },
                    Err(e) => Err(e),
                }
            },
            Err(e) => Err(e),
        }
    }

    #[verifier::rlimit(40)]
    fn parse_function_declaration(&self, p: usize) -> (r: Result<(Stmt, usize), ParseError>)
        requires
            p <= self.toks().len(),
        ensures
            agrees(r, p_function(self.toks(), p as int), |x: Stmt| stmt_view(x)),
            advanced(r, p as int, self.toks().len() as int),
        decreases self.toks().len() - p, 19nat,
    {
        if !self.is(p, Token::Fn) {
            return Err(self.error(p, "'fn'"));
        }
        if !self.is(p + 1, Token::Identifier) {
            return Err(self.error(p + 1, "function name after 'fn'"));
        }
        if !self.is(p + 2, Token::LeftParen) {
            return Err(self.error(p + 2, "'(' after function name"));
        }
        match self.parse_fields(p + 3, Token::RightParen) {
            Ok((ps, q)) => {
                let ret: Result<(Type, usize), ParseError> = if self.is(q, Token::Arrow) {
                    self.parse_type(q + 1)
                } else {
                    Ok((Type::Void, q))
                };
                match ret {
                    Ok((rt, r)) => if !self.is(r, Token::LeftBrace) {
                        Err(self.error(r, "'{' to begin function body"))
                    } else {
                        match self.parse_statements(r + 1, true) {
                            Ok((ss, u)) => {
                                let name = self.tokens[p + 1].text.clone();
                                let body = Stmt::Block(ss, self.join(r, u));
                                assert(stmt_view(body) == StmtV::Block(stmts_view(ss), join_span(self.toks(), r as int, u as int)));
                                let sp = self.join(p, u);
                                Ok((Stmt::Function(name, ps, rt, Box::new(body), sp), u))
                            },
                            Err(e) => Err(e),
                        }
                    },
                    Err(e) => Err(e),
                }
            },
            Err(e) => Err(e),
        }
    }

    fn parse_return_statement(&self, p: usize) -> (r: Result<(Stmt, usize), ParseError>)
        requires
            p <= self.toks().len(),
        ensures
            agrees(r, p_return(self.toks(), p as int), |x: Stmt| stmt_view(x)),
            advanced(r, p as int, self.toks().len() as int),
        decreases self.toks().len() - p, 19nat,
    {
        if !self.is(p, Token::Return) {
            Err(self.error(p, "'return'"))
        } else if self.is(p + 1, Token::Semicolon) {
            Ok((Stmt::Return(None, self.join(p, p + 2)), p + 2))
        } else if p + 1 >= self.tokens.len() || self.is(p + 1, Token::RightBrace) {
            Ok((Stmt::Return(None, self.join(p, p + 1)), p + 1))
        } else {
            match self.parse_expression(p + 1) {
                Ok((e, q)) => {
                    let u = self.skip_semicolon(q);
                    Ok((Stmt::Return(Some(e), self.join(p, u)), u))
                },
                Err(e) => Err(e),
            }
        }
    }

    #[verifier::rlimit(40)]
    fn parse_while_statement(&self, p: usize) -> (r: Result<(Stmt, usize), ParseError>)
        requires
            p <= self.toks().len(),
        ensures
            agrees(r, p_while(self.toks(), p as int), |x: Stmt| stmt_view(x)),
            advanced(r, p as int, self.toks().len() as int),
        decreases self.toks().len() - p, 19nat,
    {
        if !self.is(p, Token::While) {
            return Err(self.error(p, "'while'"));
        }
        match self.parse_expression(p + 1) {
            Ok((c, q)) => if !self.is(q, Token::LeftBrace) {
                Err(self.error(q, "'{'"))
            } else {
                match self.parse_statements(q + 1, true) {
                    Ok((ss, r)) => {
                        let body = Stmt::Block(ss, self.join(q, r));
                        assert(stmt_view(body) == StmtV::Block(stmts_view(ss), join_span(self.toks(), q as int, r as int)));
                        Ok((Stmt::While(c, Box::new(body), self.join(p, r)), r))
                    },
                    Err(e) => Err(e),
                }
            },
            Err(e) => Err(e),
        }
    }

    #[verifier::rlimit(40)]
    fn parse_for_statement(&self, p: usize) -> (r: Result<(Stmt, usize), ParseError>)
        requires
            p <= self.toks().len(),
        ensures
            agrees(r, p_for(self.toks(), p as int), |x: Stmt| stmt_view(x)),
            advanced(r, p as int, self.toks().len() as int),
        decreases self.toks().len() - p, 19nat,
    {
        if !self.is(p, Token::For) {
            return Err(self.error(p, "'for'"));
        }
        if !self.is(p + 1, Token::Identifier) {
            return Err(self.error(p + 1, "loop variable"));
        }
        if !self.is(p + 2, Token::Identifier) || !same_text(self.tokens[p + 2].text.as_str(), "in") {
            return Err(self.error(p + 2, "'in'"));
        }
        match self.parse_expression(p + 3) {
            Ok((it, q)) => if !self.is(q, Token::LeftBrace) {
                Err(self.error(q, "'{'"))
            } else {
                match self.parse_statements(q + 1, true) {
                    Ok((ss, r)) => {
                        let name = self.tokens[p + 1].text.clone();
                        let body = Stmt::Block(ss, self.join(q, r));
                        assert(stmt_view(body) == StmtV::Block(stmts_view(ss), join_span(self.toks(), q as int, r as int)));
                        Ok((Stmt::For(name, it, Box::new(body), self.join(p, r)), r))
                    },
                    Err(e) => Err(e),
                }
            },
            Err(e) => Err(e),
        }
    }

    fn parse_struct_declaration(&self, p: usize) -> (r: Result<(Stmt, usize), ParseError>)
        requires
            p <= self.toks().len(),
        ensures
            agrees(r, p_struct(self.toks(), p as int), |x: Stmt| stmt_view(x)),
            advanced(r, p as int, self.toks().len() as int),
        decreases self.toks().len() - p, 19nat,
    {
        if !self.is(p, Token::Struct) {
            Err(self.error(p, "'struct'"))
        } else if !self.is(p + 1, Token::Identifier) {
            Err(self.error(p + 1, "struct name"))
        } else if !self.is(p + 2, Token::LeftBrace) {
            Err(self.error(p + 2, "'{'"))
        } else {
            match self.parse_fields(p + 3, Token::RightBrace) {
                Ok((fs, q)) => {
                    let name = self.tokens[p + 1].text.clone();
                    Ok((Stmt::Struct(name, fs, self.join(p, q)), q))
                },
                Err(e) => Err(e),
            }
        }
    }

    fn parse_import_statement(&self, p: usize) -> (r: Result<(Stmt, usize), ParseError>)
        requires
            p <= self.toks().len(),
        ensures
            agrees(r, p_import(self.toks(), p as int), |x: Stmt| stmt_view(x)),
            advanced(r, p as int, self.toks().len() as int),
        decreases self.toks().len() - p, 19nat,
    {
        if !self.is(p, Token::Import) {
            Err(self.error(p, "'import'"))
        } else if !self.is(p + 1, Token::Identifier) {
            Err(self.error(p + 1, "module name"))
        } else {
            let u = self.skip_semicolon(p + 2);
            let path = self.tokens[p + 1].text.clone();
            Ok((Stmt::Import(path, self.join(p, u)), u))
        }
    }

    /// Parses the whole token sequence as a program.
    pub fn parse_program(&self) -> (r: Result<Program, ParseError>)
        ensures
            parse_result_agrees(self.toks(), r),
    {
        match self.parse_statements(0, false) {
            Ok((ss, _)) => Ok(Program::new(ss)),
            Err(e) => Err(e),
        }
    }
}

fn span_of_expr(e: &Expr) -> (r: Span)
    ensures
        r == expr_span(expr_view(*e)),
{
    match e {
        Expr::Literal(_, s) => *s,
        Expr::Identifier(_, s) => *s,
        Expr::Binary(_, _, _, s) => *s,
        Expr::Unary(_, _, s) => *s,
        Expr::Call(_, _, s) => *s,
        Expr::Index(_, _, s) => *s,
        Expr::Field(_, _, s) => *s,
        Expr::Array(_, s) => *s,
        Expr::If(_, _, _, s) => *s,
        Expr::Block(_, s) => *s,
        Expr::Lambda(_, _, s) => *s,
    }
}

/// Parses a token sequence into a program, or reports the first token that
/// breaks the grammar.
pub fn parse(tokens: Vec<LexerSpan>) -> (r: Result<Program, ParseError>)
    ensures
        parse_result_agrees(tokens_view(tokens@), r),
{
    let parser = Parser::new(tokens);
    parser.parse_program()
}

} // verus!
