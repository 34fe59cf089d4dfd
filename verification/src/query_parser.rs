//! Parser for `select` and `insert` queries.
//!
//! ```text
//! select_stmt := "select" IDENT shape ("filter" expr)? ("order" "by" order ("," order)*)?
//!                ("limit" INT)? ("offset" INT)? EOF
//! shape       := "{" (item ("," item)* ","?)? "}"
//! item        := IDENT ":=" expr | IDENT ":" shape | IDENT
//! insert_stmt := "insert" IDENT "{" (IDENT ":=" literal ("," IDENT ":=" literal)* ","?)? "}" EOF
//! ```
//!
//! Expressions are parsed by precedence climbing. From loosest to tightest:
//! `or`, `and`, `not` (prefix), the comparisons together with `in` and
//! `not in`, `+ -`, `* / %`, and the unary `+ -`; binary operators are left
//! associative. `-9223372036854775808` is the literal `i64::MIN`. An
//! expression directly followed by the start of another expression is an
//! error that asks for a comparison operator. The parser checks syntax only.
use vstd::prelude::*;
use crate::query_ast::{
    ArithmeticExpr, ArithmeticOp, Assignment, CompareExpr, CompareOp, Expr, ExprView, FunctionCallExpr,
    InExpr, InOp, InsertQuery, InsertView, Literal, LiteralView, OrderDirection, OrderExpr, OrderView,
    Path, PathStep, SelectQuery, SelectView, Shape, ShapeItem, ShapeItemView, UnaryArithmeticExpr,
    UnaryArithmeticOp, assignments_view, exprs_view, items_view, orders_view, steps_view,
};
use crate::query_lexer::{
    Keyword, LexError, Span, Token, TokenKind, TokenKindView, TokenView, keyword_text, lex, lex_spec,
    tokens_view,
};
use crate::text::{chars_of, is_digit, str_equal};

verus! {

/// Parser error category.
#[derive(Debug, Clone, PartialEq, Eq)]
pub enum ParseErrorKind {
    Lex(LexError),
    UnexpectedEof { expected: &'static str },
    UnexpectedToken { expected: &'static str },
    UnexpectedValue { expected: &'static str },
    InvalidIntegerLiteral,
    InvalidFloatLiteral,
    Unsupported,
}

/// Parser error with an optional source span.
#[derive(Debug, Clone, PartialEq, Eq)]
pub struct ParseError {
    pub(crate) kind: ParseErrorKind,
    pub(crate) span: Option<Span>,
}

/// Binary operators of the expression grammar.
#[derive(Debug, Clone, Copy, PartialEq, Eq, Structural)]
pub enum InfixOp {
    Or,
    And,
    Eq,
    Ne,
    Lt,
    Le,
    Gt,
    Ge,
    In,
    NotIn,
    Add,
    Sub,
    Mul,
    Div,
    Mod,
}

pub ghost enum ParseErrorKindView {
    Lex(LexError),
    UnexpectedEof(Seq<char>),
    UnexpectedToken(Seq<char>),
    UnexpectedValue(Seq<char>),
    InvalidIntegerLiteral,
    InvalidFloatLiteral,
    Unsupported,
}

pub ghost struct ParseErrorView {
    pub kind: ParseErrorKindView,
    pub span: Option<Span>,
}

impl View for ParseErrorKind {
    type V = ParseErrorKindView;

    open spec fn view(&self) -> ParseErrorKindView {
        match self {
            ParseErrorKind::Lex(e) => ParseErrorKindView::Lex(*e),
            ParseErrorKind::UnexpectedEof { expected } => ParseErrorKindView::UnexpectedEof(
                expected@,
            ),
            ParseErrorKind::UnexpectedToken { expected } => ParseErrorKindView::UnexpectedToken(
                expected@,
            ),
            ParseErrorKind::UnexpectedValue { expected } => ParseErrorKindView::UnexpectedValue(
                expected@,
            ),
            ParseErrorKind::InvalidIntegerLiteral => ParseErrorKindView::InvalidIntegerLiteral,
            ParseErrorKind::InvalidFloatLiteral => ParseErrorKindView::InvalidFloatLiteral,
            ParseErrorKind::Unsupported => ParseErrorKindView::Unsupported,
        }
    }
}

impl View for ParseError {
    type V = ParseErrorView;

    open(crate) spec fn view(&self) -> ParseErrorView {
        ParseErrorView { kind: self.kind@, span: self.span }
    }
}

// ---------------------------------------------------------------------------
// Tokens
// ---------------------------------------------------------------------------
pub open spec fn kind_at(ts: Seq<TokenView>, i: int) -> Option<TokenKindView> {
    if 0 <= i < ts.len() {
        Some(ts[i].kind)
    } else {
        None
    }
}

pub open spec fn span_at(ts: Seq<TokenView>, i: int) -> Option<Span> {
    if 0 <= i < ts.len() {
        Some(ts[i].span)
    } else {
        None
    }
}

pub open spec fn is_word(ts: Seq<TokenView>, i: int, w: Seq<char>) -> bool {
    kind_at(ts, i) == Some(TokenKindView::Ident(w))
}

/// The error for finding something other than `expected` at `i`.
pub open spec fn unexpected(ts: Seq<TokenView>, i: int, expected: Seq<char>) -> ParseErrorView {
    if 0 <= i < ts.len() {
        ParseErrorView {
            kind: ParseErrorKindView::UnexpectedToken(expected),
            span: Some(ts[i].span),
        }
    } else {
        ParseErrorView { kind: ParseErrorKindView::UnexpectedEof(expected), span: None }
    }
}

/// Consumes the token `want`, spelled `text` in messages.
pub open spec fn expect_spec(ts: Seq<TokenView>, i: int, want: TokenKindView, text: Seq<char>) -> Result<
    int,
    ParseErrorView,
> {
    if kind_at(ts, i) == Some(want) {
        Ok(i + 1)
    } else {
        Err(unexpected(ts, i, text))
    }
}

pub open spec fn ident_spec(ts: Seq<TokenView>, i: int) -> Result<(Seq<char>, int), ParseErrorView> {
    match kind_at(ts, i) {
        Some(TokenKindView::Ident(name)) => Ok((name, i + 1)),
        _ => Err(unexpected(ts, i, "IDENT"@)),
    }
}

/// A position that moved forward and stayed within the tokens; every
/// construct consumes at least one token, so the grammar below only ever
/// continues from such positions.
pub open spec fn advanced(ts: Seq<TokenView>, from: int, to: int) -> bool {
    from < to <= ts.len()
}

/// The error value used where a position failed to advance; no input
/// reaches it.
pub open spec fn stalled() -> ParseErrorView {
    ParseErrorView { kind: ParseErrorKindView::Unsupported, span: None }
}

// ---------------------------------------------------------------------------
// Literals
// ---------------------------------------------------------------------------
/// Value of a string of decimal digits.
pub open spec fn digits_value(s: Seq<char>) -> nat
    decreases s.len(),
{
    if s.len() == 0 {
        0
    } else {
        digits_value(s.drop_last()) * 10 + ((s.last() as u32) - ('0' as u32)) as nat
    }
}

/// The `i64` written by `text`: a non-empty run of decimal digits whose
/// value fits.
pub open spec fn int_value(text: Seq<char>) -> Option<i64> {
    if text.len() > 0 && (forall|k: int| 0 <= k < text.len() ==> is_digit(#[trigger] text[k]))
        && digits_value(text) <= i64::MAX {
        Some(digits_value(text) as i64)
    } else {
        None
    }
}

pub open spec fn literal_spec(ts: Seq<TokenView>, i: int) -> Result<(LiteralView, int), ParseErrorView> {
    match kind_at(ts, i) {
        Some(TokenKindView::Int(text)) => match int_value(text) {
            Some(v) => Ok((LiteralView::Int64(v), i + 1)),
            None => Err(
                ParseErrorView {
                    kind: ParseErrorKindView::InvalidIntegerLiteral,
                    span: Some(ts[i].span),
                },
            ),
        },
        Some(TokenKindView::Float(text)) => Ok((LiteralView::Float64(text), i + 1)),
        Some(TokenKindView::String(v)) => Ok((LiteralView::String(v), i + 1)),
        Some(TokenKindView::Keyword(Keyword::True)) => Ok((LiteralView::Bool(true), i + 1)),
        Some(TokenKindView::Keyword(Keyword::False)) => Ok((LiteralView::Bool(false), i + 1)),
        Some(TokenKindView::Keyword(Keyword::Null)) => Ok((LiteralView::Null, i + 1)),
        _ => Err(unexpected(ts, i, "literal"@)),
    }
}

// ---------------------------------------------------------------------------
// Expressions
// ---------------------------------------------------------------------------
pub open spec fn binding_power(op: InfixOp) -> (int, int) {
    match op {
        InfixOp::Or => (1, 2),
        InfixOp::And => (3, 4),
        InfixOp::Add | InfixOp::Sub => (7, 8),
        InfixOp::Mul | InfixOp::Div | InfixOp::Mod => (9, 10),
        _ => (5, 6),
    }
}

/// The binary operator at `j`, if any.
pub open spec fn infix_at(ts: Seq<TokenView>, j: int) -> Option<InfixOp> {
    match kind_at(ts, j) {
        Some(TokenKindView::Plus) => Some(InfixOp::Add),
        Some(TokenKindView::Minus) => Some(InfixOp::Sub),
        Some(TokenKindView::Star) => Some(InfixOp::Mul),
        Some(TokenKindView::Slash) => Some(InfixOp::Div),
        Some(TokenKindView::Percent) => Some(InfixOp::Mod),
        Some(TokenKindView::Eq) => Some(InfixOp::Eq),
        Some(TokenKindView::Ne) => Some(InfixOp::Ne),
        Some(TokenKindView::Lt) => Some(InfixOp::Lt),
        Some(TokenKindView::Le) => Some(InfixOp::Le),
        Some(TokenKindView::Gt) => Some(InfixOp::Gt),
        Some(TokenKindView::Ge) => Some(InfixOp::Ge),
        Some(TokenKindView::Ident(w)) => if w == "or"@ {
            Some(InfixOp::Or)
        } else if w == "and"@ {
            Some(InfixOp::And)
        } else if w == "in"@ {
            Some(InfixOp::In)
        } else if w == "not"@ && is_word(ts, j + 1, "in"@) {
            Some(InfixOp::NotIn)
        } else {
            None
        },
        _ => None,
    }
}

pub open spec fn binary(left: ExprView, op: InfixOp, right: ExprView) -> ExprView {
    let l = Box::new(left);
    let r = Box::new(right);
    match op {
        InfixOp::Or => ExprView::Or(l, r),
        InfixOp::And => ExprView::And(l, r),
        InfixOp::Eq => ExprView::Compare(l, CompareOp::Eq, r),
        InfixOp::Ne => ExprView::Compare(l, CompareOp::Ne, r),
        InfixOp::Lt => ExprView::Compare(l, CompareOp::Lt, r),
        InfixOp::Le => ExprView::Compare(l, CompareOp::Le, r),
        InfixOp::Gt => ExprView::Compare(l, CompareOp::Gt, r),
        InfixOp::Ge => ExprView::Compare(l, CompareOp::Ge, r),
        InfixOp::Add => ExprView::Arithmetic(l, ArithmeticOp::Add, r),
        InfixOp::Sub => ExprView::Arithmetic(l, ArithmeticOp::Sub, r),
        InfixOp::Mul => ExprView::Arithmetic(l, ArithmeticOp::Mul, r),
        InfixOp::Div => ExprView::Arithmetic(l, ArithmeticOp::Div, r),
        InfixOp::Mod => ExprView::Arithmetic(l, ArithmeticOp::Mod, r),
        InfixOp::In => ExprView::In(l, InOp::In, seq![]),
        InfixOp::NotIn => ExprView::In(l, InOp::NotIn, seq![]),
    }
}

/// A token that starts an expression, where an operator was expected.
pub open spec fn starts_primary(ts: Seq<TokenView>, j: int) -> bool {
    if is_word(ts, j, "and"@) || is_word(ts, j, "or"@) || is_word(ts, j, "in"@) {
        false
    } else {
        match kind_at(ts, j) {
            Some(TokenKindView::Dot) => true,
            Some(TokenKindView::Ident(_)) => true,
            Some(TokenKindView::Int(_)) => true,
            Some(TokenKindView::String(_)) => true,
            Some(TokenKindView::LParen) => true,
            Some(TokenKindView::Keyword(Keyword::True)) => true,
            Some(TokenKindView::Keyword(Keyword::False)) => true,
            Some(TokenKindView::Keyword(Keyword::Null)) => true,
            _ => false,
        }
    }
}

/// The further steps `.name` of a path.
pub open spec fn path_steps_spec(ts: Seq<TokenView>, j: int, acc: Seq<Seq<char>>) -> Result<
    (Seq<Seq<char>>, int),
    ParseErrorView,
>
    decreases ts.len() - j,
{
    if j < 0 || j >= ts.len() || kind_at(ts, j) != Some(TokenKindView::Dot) {
        Ok((acc, j))
    } else {
        match ident_spec(ts, j + 1) {
            Err(e) => Err(e),
            Ok((name, k)) => path_steps_spec(ts, k, acc.push(name)),
        }
    }
}

/// A path at `i`; a leading `.` is accepted when `allow_dot`.
pub open spec fn path_spec(ts: Seq<TokenView>, i: int, allow_dot: bool) -> Result<
    (Seq<Seq<char>>, int),
    ParseErrorView,
> {
    if kind_at(ts, i) == Some(TokenKindView::Dot) && !allow_dot {
        Err(unexpected(ts, i, "IDENT"@))
    } else {
        let j = if kind_at(ts, i) == Some(TokenKindView::Dot) {
            i + 1
        } else {
            i
        };
        match ident_spec(ts, j) {
            Err(e) => Err(e),
            Ok((name, k)) => path_steps_spec(ts, k, seq![name]),
        }
    }
}

/// `expr` followed by no further expression start.
pub open spec fn expr_spec(ts: Seq<TokenView>, i: int) -> Result<(ExprView, int), ParseErrorView>
    decreases ts.len() - i, 5int,
{
    if i < 0 || i > ts.len() {
        Err(stalled())
    } else {
        match expr_bp_spec(ts, i, 0) {
            Err(e) => Err(e),
            Ok((e, j)) => if starts_primary(ts, j) {
                Err(unexpected(ts, j, "comparison operator"@))
            } else {
                Ok((e, j))
            },
        }
    }
}

/// Precedence climbing: an operand, then operators that bind at least as
/// tightly as `min_bp`.
pub open spec fn expr_bp_spec(ts: Seq<TokenView>, i: int, min_bp: int) -> Result<
    (ExprView, int),
    ParseErrorView,
>
    decreases ts.len() - i, 4int,
{
    if i < 0 || i > ts.len() {
        Err(stalled())
    } else {
        match prefix_spec(ts, i) {
            Err(e) => Err(e),
            Ok((left, j)) => if advanced(ts, i, j) {
                infix_spec(ts, j, left, min_bp)
            } else {
                Err(stalled())
            },
        }
    }
}

/// The operator loop of precedence climbing, from `j` with operand `left`.
pub open spec fn infix_spec(ts: Seq<TokenView>, j: int, left: ExprView, min_bp: int) -> Result<
    (ExprView, int),
    ParseErrorView,
>
    decreases ts.len() - j, 0int,
{
    if j < 0 || j > ts.len() {
        Err(stalled())
    } else {
        match infix_at(ts, j) {
            None => Ok((left, j)),
            Some(op) => if binding_power(op).0 < min_bp {
                Ok((left, j))
            } else {
                let k = if op == InfixOp::NotIn {
                    j + 2
                } else {
                    j + 1
                };
                if op == InfixOp::In || op == InfixOp::NotIn {
                    match list_spec(ts, k, "["@, TokenKindView::LBracket, "]"@, TokenKindView::RBracket) {
                        Err(e) => Err(e),
                        Ok((right, n)) => if advanced(ts, j, n) {
                            infix_spec(
                                ts,
                                n,
                                ExprView::In(
                                    Box::new(left),
                                    if op == InfixOp::In {
                                        InOp::In
                                    } else {
                                        InOp::NotIn
                                    },
                                    right,
                                ),
                                min_bp,
                            )
                        } else {
                            Err(stalled())
                        },
                    }
                } else {
                    match expr_bp_spec(ts, k, binding_power(op).1) {
                        Err(e) => Err(e),
                        Ok((right, n)) => if advanced(ts, j, n) {
                            infix_spec(ts, n, binary(left, op, right), min_bp)
                        } else {
                            Err(stalled())
                        },
                    }
                }
            },
        }
    }
}

pub open spec fn i64_min_text() -> Seq<char> {
    "9223372036854775808"@
}

/// `not`, unary `+`/`-`, or a primary expression.
pub open spec fn prefix_spec(ts: Seq<TokenView>, i: int) -> Result<(ExprView, int), ParseErrorView>
    decreases ts.len() - i, 3int,
{
    if i < 0 || i > ts.len() {
        Err(stalled())
    } else if is_word(ts, i, "not"@) {
        match expr_bp_spec(ts, i + 1, 5) {
            Err(e) => Err(e),
            Ok((e, n)) => Ok((ExprView::Not(Box::new(e)), n)),
        }
    } else if kind_at(ts, i) == Some(TokenKindView::Plus) || kind_at(ts, i) == Some(
        TokenKindView::Minus,
    ) {
        let op = if kind_at(ts, i) == Some(TokenKindView::Plus) {
            UnaryArithmeticOp::Plus
        } else {
            UnaryArithmeticOp::Minus
        };
        if op == UnaryArithmeticOp::Minus && kind_at(ts, i + 1) == Some(
            TokenKindView::Int(i64_min_text()),
        ) {
            Ok((ExprView::Literal(LiteralView::Int64(i64::MIN)), i + 2))
        } else {
            match expr_bp_spec(ts, i + 1, 11) {
                Err(e) => Err(e),
                Ok((e, n)) => Ok((ExprView::UnaryArithmetic(op, Box::new(e)), n)),
            }
        }
    } else {
        primary_spec(ts, i)
    }
}

/// A parenthesized expression, a path, a function call or a literal.
pub open spec fn primary_spec(ts: Seq<TokenView>, i: int) -> Result<(ExprView, int), ParseErrorView>
    decreases ts.len() - i, 2int,
{
    if i < 0 || i > ts.len() {
        Err(stalled())
    } else {
        match kind_at(ts, i) {
            None => Err(unexpected(ts, i, "expression"@)),
            Some(TokenKindView::LParen) => match expr_spec(ts, i + 1) {
                Err(e) => Err(e),
                Ok((e, j)) => match expect_spec(ts, j, TokenKindView::RParen, ")"@) {
                    Err(err) => Err(err),
                    Ok(k) => Ok((e, k)),
                },
            },
            Some(TokenKindView::Dot) => match path_spec(ts, i, true) {
                Err(e) => Err(e),
                Ok((p, j)) => Ok((ExprView::Path(p), j)),
            },
            Some(TokenKindView::Ident(name)) => if kind_at(ts, i + 1) == Some(TokenKindView::LParen) {
                if kind_at(ts, i + 2) == Some(TokenKindView::RParen) {
                    Ok((ExprView::FunctionCall(name, seq![]), i + 3))
                } else {
                    match list_items_spec(ts, i + 2, seq![]) {
                        Err(e) => Err(e),
                        Ok((args, j)) => match expect_spec(ts, j, TokenKindView::RParen, ")"@) {
                            Err(err) => Err(err),
                            Ok(k) => Ok((ExprView::FunctionCall(name, args), k)),
                        },
                    }
                }
            } else {
                match path_spec(ts, i, false) {
                    Err(e) => Err(e),
                    Ok((p, j)) => Ok((ExprView::Path(p), j)),
                }
            },
            Some(TokenKindView::Int(_)) | Some(TokenKindView::Float(_)) | Some(
                TokenKindView::String(_),
            ) | Some(TokenKindView::Keyword(Keyword::True)) | Some(
                TokenKindView::Keyword(Keyword::False),
            ) | Some(TokenKindView::Keyword(Keyword::Null)) => match literal_spec(ts, i) {
                Err(e) => Err(e),
                Ok((l, j)) => Ok((ExprView::Literal(l), j)),
            },
            Some(_) => Err(unexpected(ts, i, "expression"@)),
        }
    }
}

/// `open (expr ("," expr)*)? close`.
pub open spec fn list_spec(
    ts: Seq<TokenView>,
    i: int,
    open_text: Seq<char>,
    open: TokenKindView,
    close_text: Seq<char>,
    close: TokenKindView,
) -> Result<(Seq<ExprView>, int), ParseErrorView>
    decreases ts.len() - i, 1int,
{
    if i < 0 || i > ts.len() {
        Err(stalled())
    } else {
        match expect_spec(ts, i, open, open_text) {
            Err(e) => Err(e),
            Ok(j) => if kind_at(ts, j) == Some(close) {
                Ok((seq![], j + 1))
            } else {
                match list_items_spec(ts, j, seq![]) {
                    Err(e) => Err(e),
                    Ok((items, k)) => match expect_spec(ts, k, close, close_text) {
                        Err(err) => Err(err),
                        Ok(n) => Ok((items, n)),
                    },
                }
            },
        }
    }
}

/// `expr ("," expr)*` from `i`, after the items `acc`.
pub open spec fn list_items_spec(ts: Seq<TokenView>, i: int, acc: Seq<ExprView>) -> Result<
    (Seq<ExprView>, int),
    ParseErrorView,
>
    decreases ts.len() - i, 6int,
{
    if i < 0 || i > ts.len() {
        Err(stalled())
    } else {
        match expr_spec(ts, i) {
            Err(e) => Err(e),
            Ok((e, j)) => if !advanced(ts, i, j) {
                Err(stalled())
            } else if kind_at(ts, j) == Some(TokenKindView::Comma) {
                list_items_spec(ts, j + 1, acc.push(e))
            } else {
                Ok((acc.push(e), j))
            },
        }
    }
}

// ---------------------------------------------------------------------------
// Shapes and clauses
// ---------------------------------------------------------------------------
/// `{ items }` at `i`.
pub open spec fn shape_spec(ts: Seq<TokenView>, i: int) -> Result<
    (Seq<ShapeItemView>, int),
    ParseErrorView,
>
    decreases ts.len() - i, 2int,
{
    if i < 0 || i > ts.len() {
        Err(stalled())
    } else {
        match expect_spec(ts, i, TokenKindView::LBrace, "{"@) {
            Err(e) => Err(e),
            Ok(j) => shape_items_spec(ts, j, seq![]),
        }
    }
}

/// Shape items from `j` through the closing `}`, after the items `acc`.
pub open spec fn shape_items_spec(ts: Seq<TokenView>, j: int, acc: Seq<ShapeItemView>) -> Result<
    (Seq<ShapeItemView>, int),
    ParseErrorView,
>
    decreases ts.len() - j, 1int,
{
    if j < 0 || j > ts.len() {
        Err(stalled())
    } else {
        match kind_at(ts, j) {
            None => Err(
                ParseErrorView { kind: ParseErrorKindView::UnexpectedEof("}"@), span: None },
            ),
            Some(TokenKindView::RBrace) => Ok((acc, j + 1)),
            Some(_) => match shape_item_spec(ts, j) {
                Err(e) => Err(e),
                Ok((item, k)) => if !advanced(ts, j, k) {
                    Err(stalled())
                } else if kind_at(ts, k) == Some(TokenKindView::Comma) {
                    shape_items_spec(ts, k + 1, acc.push(item))
                } else {
                    match kind_at(ts, k) {
                        Some(TokenKindView::RBrace) => shape_items_spec(ts, k, acc.push(item)),
                        Some(_) => Err(unexpected(ts, k, ", or }"@)),
                        None => Err(
                            ParseErrorView {
                                kind: ParseErrorKindView::UnexpectedEof("}"@),
                                span: None,
                            },
                        ),
                    }
                },
            },
        }
    }
}

/// `name := expr`, `name: { ... }` or `name`.
pub open spec fn shape_item_spec(ts: Seq<TokenView>, j: int) -> Result<
    (ShapeItemView, int),
    ParseErrorView,
>
    decreases ts.len() - j, 0int,
{
    match ident_spec(ts, j) {
        Err(e) => Err(e),
        Ok((name, k)) => match kind_at(ts, k) {
            Some(TokenKindView::ColonEq) => match expr_spec(ts, k + 1) {
                Err(e) => Err(e),
                Ok((e, n)) => Ok((ShapeItemView::Computed(name, e), n)),
            },
            Some(TokenKindView::Colon) => if j < 0 || k + 1 > ts.len() {
                Err(stalled())
            } else {
                match shape_spec(ts, k + 1) {
                    Err(e) => Err(e),
                    Ok((items, n)) => Ok((ShapeItemView::Field(seq![name], Some(items)), n)),
                }
            },
            _ => Ok((ShapeItemView::Field(seq![name], None), k)),
        },
    }
}

pub open spec fn filter_spec(ts: Seq<TokenView>, i: int) -> Result<
    (Option<ExprView>, int),
    ParseErrorView,
> {
    if kind_at(ts, i) == Some(TokenKindView::Keyword(Keyword::Filter)) {
        match expr_spec(ts, i + 1) {
            Err(e) => Err(e),
            Ok((e, j)) => Ok((Some(e), j)),
        }
    } else {
        Ok((None, i))
    }
}

/// `expr (desc | asc)?`.
pub open spec fn order_item_spec(ts: Seq<TokenView>, i: int) -> Result<(OrderView, int), ParseErrorView> {
    match expr_spec(ts, i) {
        Err(e) => Err(e),
        Ok((e, j)) => if kind_at(ts, j) == Some(TokenKindView::Keyword(Keyword::Desc)) {
            Ok((OrderView { expr: e, direction: OrderDirection::Desc }, j + 1))
        } else if kind_at(ts, j) == Some(TokenKindView::Keyword(Keyword::Asc)) {
            Ok((OrderView { expr: e, direction: OrderDirection::Asc }, j + 1))
        } else {
            Ok((OrderView { expr: e, direction: OrderDirection::Asc }, j))
        },
    }
}

/// Order items from `i`, after `acc`, separated by commas.
pub open spec fn order_items_spec(ts: Seq<TokenView>, i: int, acc: Seq<OrderView>) -> Result<
    (Seq<OrderView>, int),
    ParseErrorView,
>
    decreases ts.len() - i,
{
    if i < 0 || i > ts.len() {
        Err(stalled())
    } else {
        match order_item_spec(ts, i) {
            Err(e) => Err(e),
            Ok((o, j)) => if !advanced(ts, i, j) {
                Err(stalled())
            } else if kind_at(ts, j) == Some(TokenKindView::Comma) {
                order_items_spec(ts, j + 1, acc.push(o))
            } else {
                Ok((acc.push(o), j))
            },
        }
    }
}

pub open spec fn order_spec(ts: Seq<TokenView>, i: int) -> Result<(Seq<OrderView>, int), ParseErrorView> {
    if kind_at(ts, i) != Some(TokenKindView::Keyword(Keyword::Order)) {
        Ok((seq![], i))
    } else {
        match expect_spec(ts, i + 1, TokenKindView::Keyword(Keyword::By), "by"@) {
            Err(e) => Err(e),
            Ok(j) => order_items_spec(ts, j, seq![]),
        }
    }
}

pub open spec fn not_non_negative() -> ParseErrorView {
    ParseErrorView {
        kind: ParseErrorKindView::UnexpectedValue("non-negative integer"@),
        span: None,
    }
}

/// `keyword INT` with a non-negative value, when `keyword` is at `i`.
pub open spec fn count_clause_spec(ts: Seq<TokenView>, i: int, keyword: Keyword) -> Result<
    (Option<i64>, int),
    ParseErrorView,
> {
    if kind_at(ts, i) != Some(TokenKindView::Keyword(keyword)) {
        Ok((None, i))
    } else if kind_at(ts, i + 1) == Some(TokenKindView::Minus) {
        Err(not_non_negative())
    } else {
        match literal_spec(ts, i + 1) {
            Err(e) => Err(e),
            Ok((LiteralView::Int64(v), j)) => if v >= 0 {
                Ok((Some(v), j))
            } else {
                Err(not_non_negative())
            },
            Ok(_) => Err(not_non_negative()),
        }
    }
}

pub open spec fn eof_spec(ts: Seq<TokenView>, i: int) -> Result<(), ParseErrorView> {
    if 0 <= i < ts.len() {
        Err(
            ParseErrorView {
                kind: ParseErrorKindView::UnexpectedToken("EOF"@),
                span: Some(ts[i].span),
            },
        )
    } else {
        Ok(())
    }
}

/// A whole `select` statement.
pub open spec fn select_spec(ts: Seq<TokenView>) -> Result<SelectView, ParseErrorView> {
    match expect_spec(ts, 0, TokenKindView::Keyword(Keyword::Select), "select"@) {
        Err(e) => Err(e),
        Ok(a) => match ident_spec(ts, a) {
            Err(e) => Err(e),
            Ok((root, b)) => match shape_spec(ts, b) {
                Err(e) => Err(e),
                Ok((shape, c)) => match filter_spec(ts, c) {
                    Err(e) => Err(e),
                    Ok((filter, d)) => match order_spec(ts, d) {
                        Err(e) => Err(e),
                        Ok((order_by, e)) => match count_clause_spec(ts, e, Keyword::Limit) {
                            Err(err) => Err(err),
                            Ok((limit, f)) => match count_clause_spec(ts, f, Keyword::Offset) {
                                Err(err) => Err(err),
                                Ok((offset, g)) => match eof_spec(ts, g) {
                                    Err(err) => Err(err),
                                    Ok(_) => Ok(
                                        SelectView {
                                            root_type_name: root,
                                            shape,
                                            filter,
                                            order_by,
                                            limit,
                                            offset,
                                        },
                                    ),
                                },
                            },
                        },
                    },
                },
            },
        },
    }
}

/// Assignments from `j` through the closing `}`, after `acc`.
pub open spec fn assignments_spec(ts: Seq<TokenView>, j: int, acc: Seq<(Seq<char>, LiteralView)>) -> Result<
    (Seq<(Seq<char>, LiteralView)>, int),
    ParseErrorView,
>
    decreases ts.len() - j,
{
    if j < 0 || j > ts.len() {
        Err(stalled())
    } else if kind_at(ts, j) == Some(TokenKindView::RBrace) {
        Ok((acc, j + 1))
    } else {
        match ident_spec(ts, j) {
            Err(e) => Err(e),
            Ok((name, k)) => match expect_spec(ts, k, TokenKindView::ColonEq, ":="@) {
                Err(e) => Err(e),
                Ok(l) => match literal_spec(ts, l) {
                    Err(e) => Err(e),
                    Ok((value, n)) => if !advanced(ts, j, n) {
                        Err(stalled())
                    } else if kind_at(ts, n) == Some(TokenKindView::Comma) {
                        assignments_spec(ts, n + 1, acc.push((name, value)))
                    } else {
                        match kind_at(ts, n) {
                            Some(TokenKindView::RBrace) => assignments_spec(
                                ts,
                                n,
                                acc.push((name, value)),
                            ),
                            Some(_) => Err(unexpected(ts, n, "comma"@)),
                            None => Err(
                                ParseErrorView {
                                    kind: ParseErrorKindView::UnexpectedEof("}"@),
                                    span: None,
                                },
                            ),
                        }
                    },
                },
            },
        }
    }
}

/// A whole `insert` statement.
pub open spec fn insert_spec(ts: Seq<TokenView>) -> Result<InsertView, ParseErrorView> {
    match expect_spec(ts, 0, TokenKindView::Keyword(Keyword::Insert), "insert"@) {
        Err(e) => Err(e),
        Ok(a) => match ident_spec(ts, a) {
            Err(e) => Err(e),
            Ok((root, b)) => match expect_spec(ts, b, TokenKindView::LBrace, "{"@) {
                Err(e) => Err(e),
                Ok(c) => match assignments_spec(ts, c, seq![]) {
                    Err(e) => Err(e),
                    Ok((assignments, d)) => match eof_spec(ts, d) {
                        Err(e) => Err(e),
                        Ok(_) => Ok(InsertView { root_type_name: root, assignments }),
                    },
                },
            },
        },
    }
}

/// What `parse_select` gives for a source text.
pub open spec fn select_of(s: Seq<char>) -> Result<SelectView, ParseErrorView> {
    match lex_spec(s) {
        Err(e) => Err(ParseErrorView { kind: ParseErrorKindView::Lex(e), span: None }),
        Ok(ts) => select_spec(ts),
    }
}

/// What `parse_insert` gives for a source text.
pub open spec fn insert_of(s: Seq<char>) -> Result<InsertView, ParseErrorView> {
    match lex_spec(s) {
        Err(e) => Err(ParseErrorView { kind: ParseErrorKindView::Lex(e), span: None }),
        Ok(ts) => insert_spec(ts),
    }
}

/// Each operator token means its usual operation: between two operands,
/// `=`, `!=`, `<`, `<=`, `>` and `>=` compare by equality, inequality and
/// order, and `+`, `-`, `*`, `/` and `%` add, subtract, multiply, divide and
/// take the remainder.
pub proof fn law_operator_tokens(ts: Seq<TokenView>, j: int, l: ExprView, r: ExprView)
    requires
        0 <= j < ts.len(),
    ensures
        ts[j].kind == TokenKindView::Eq ==> (infix_at(ts, j) matches Some(op) && (binary(l, op, r) matches ExprView::Compare(_, cop, _) && forall|a: int, b: int| #[trigger] cop.holds(a, b) == (a == b))),
        ts[j].kind == TokenKindView::Ne ==> (infix_at(ts, j) matches Some(op) && (binary(l, op, r) matches ExprView::Compare(_, cop, _) && forall|a: int, b: int| #[trigger] cop.holds(a, b) == (a != b))),
        ts[j].kind == TokenKindView::Lt ==> (infix_at(ts, j) matches Some(op) && (binary(l, op, r) matches ExprView::Compare(_, cop, _) && forall|a: int, b: int| #[trigger] cop.holds(a, b) == (a < b))),
        ts[j].kind == TokenKindView::Le ==> (infix_at(ts, j) matches Some(op) && (binary(l, op, r) matches ExprView::Compare(_, cop, _) && forall|a: int, b: int| #[trigger] cop.holds(a, b) == (a <= b))),
        ts[j].kind == TokenKindView::Gt ==> (infix_at(ts, j) matches Some(op) && (binary(l, op, r) matches ExprView::Compare(_, cop, _) && forall|a: int, b: int| #[trigger] cop.holds(a, b) == (a > b))),
        ts[j].kind == TokenKindView::Ge ==> (infix_at(ts, j) matches Some(op) && (binary(l, op, r) matches ExprView::Compare(_, cop, _) && forall|a: int, b: int| #[trigger] cop.holds(a, b) == (a >= b))),
        ts[j].kind == TokenKindView::Plus ==> (infix_at(ts, j) matches Some(op) && (binary(l, op, r) matches ExprView::Arithmetic(_, aop, _) && forall|a: int, b: int| #[trigger] aop.apply(a, b) == a + b)),
        ts[j].kind == TokenKindView::Minus ==> (infix_at(ts, j) matches Some(op) && (binary(l, op, r) matches ExprView::Arithmetic(_, aop, _) && forall|a: int, b: int| #[trigger] aop.apply(a, b) == a - b)),
        ts[j].kind == TokenKindView::Star ==> (infix_at(ts, j) matches Some(op) && (binary(l, op, r) matches ExprView::Arithmetic(_, aop, _) && forall|a: int, b: int| #[trigger] aop.apply(a, b) == a * b)),
        ts[j].kind == TokenKindView::Slash ==> (infix_at(ts, j) matches Some(op) && (binary(l, op, r) matches ExprView::Arithmetic(_, aop, _) && forall|a: int, b: int| #[trigger] aop.apply(a, b) == a / b)),
        ts[j].kind == TokenKindView::Percent ==> (infix_at(ts, j) matches Some(op) && (binary(l, op, r) matches ExprView::Arithmetic(_, aop, _) && forall|a: int, b: int| #[trigger] aop.apply(a, b) == a % b)),
{
}

// ---------------------------------------------------------------------------
// Error spans
// ---------------------------------------------------------------------------
/// A parse error points into the tokens or nowhere: a lexical error and an
/// unexpected end carry no span, an unexpected token carries its span, and
/// any span an error carries is the span of one of the tokens.
pub open spec fn error_span_ok(ts: Seq<TokenView>, e: ParseErrorView) -> bool {
    &&& (e.kind is Lex || e.kind is UnexpectedEof) ==> e.span is None
    &&& e.kind is UnexpectedToken ==> e.span is Some
    &&& e.span matches Some(sp) ==> exists|k: int| 0 <= k < ts.len() && #[trigger] ts[k].span == sp
}

proof fn lemma_unexpected_spans(ts: Seq<TokenView>)
    ensures
        forall|i: int, x: Seq<char>| error_span_ok(ts, #[trigger] unexpected(ts, i, x)),
{
    assert forall|i: int, x: Seq<char>| error_span_ok(ts, #[trigger] unexpected(ts, i, x)) by {
        if 0 <= i < ts.len() {
            assert(ts[i].span == ts[i].span);
        }
    }
}

proof fn lemma_literal_span(ts: Seq<TokenView>, i: int)
    ensures
        literal_spec(ts, i) matches Err(e) ==> error_span_ok(ts, e),
{
    lemma_unexpected_spans(ts);
    if 0 <= i < ts.len() {
        assert(ts[i].span == ts[i].span);
    }
}

proof fn lemma_path_steps_span(ts: Seq<TokenView>, j: int, acc: Seq<Seq<char>>)
    ensures
        path_steps_spec(ts, j, acc) matches Err(e) ==> error_span_ok(ts, e),
    decreases ts.len() - j,
{
    lemma_unexpected_spans(ts);
    if 0 <= j < ts.len() && kind_at(ts, j) == Some(TokenKindView::Dot) {
        if let Ok((name, k)) = ident_spec(ts, j + 1) {
            lemma_path_steps_span(ts, k, acc.push(name));
        }
    }
}

proof fn lemma_path_span(ts: Seq<TokenView>, i: int, allow_dot: bool)
    ensures
        path_spec(ts, i, allow_dot) matches Err(e) ==> error_span_ok(ts, e),
{
    lemma_unexpected_spans(ts);
    let j = if kind_at(ts, i) == Some(TokenKindView::Dot) {
        i + 1
    } else {
        i
    };
    if let Ok((name, k)) = ident_spec(ts, j) {
        lemma_path_steps_span(ts, k, seq![name]);
    }
}

proof fn lemma_expr_span(ts: Seq<TokenView>, i: int)
    ensures
        expr_spec(ts, i) matches Err(e) ==> error_span_ok(ts, e),
    decreases ts.len() - i, 5int,
{
    lemma_unexpected_spans(ts);
    if 0 <= i <= ts.len() {
        lemma_expr_bp_span(ts, i, 0);
    }
}

proof fn lemma_expr_bp_span(ts: Seq<TokenView>, i: int, min_bp: int)
    ensures
        expr_bp_spec(ts, i, min_bp) matches Err(e) ==> error_span_ok(ts, e),
    decreases ts.len() - i, 4int,
{
    if 0 <= i <= ts.len() {
        lemma_prefix_span(ts, i);
        if let Ok((left, j)) = prefix_spec(ts, i) {
            if advanced(ts, i, j) {
                lemma_infix_span(ts, j, left, min_bp);
            }
        }
    }
}

proof fn lemma_infix_span(ts: Seq<TokenView>, j: int, left: ExprView, min_bp: int)
    ensures
        infix_spec(ts, j, left, min_bp) matches Err(e) ==> error_span_ok(ts, e),
    decreases ts.len() - j, 0int,
{
    if 0 <= j < ts.len() {
        if let Some(op) = infix_at(ts, j) {
            let k = if op == InfixOp::NotIn {
                j + 2
            } else {
                j + 1
            };
            if k <= ts.len() {
                lemma_list_span(ts, k, "["@, TokenKindView::LBracket, "]"@, TokenKindView::RBracket);
                lemma_expr_bp_span(ts, k, binding_power(op).1);
            }
            if let Ok((right, n)) = list_spec(
                ts,
                k,
                "["@,
                TokenKindView::LBracket,
                "]"@,
                TokenKindView::RBracket,
            ) {
                if advanced(ts, j, n) {
                    let inop = if op == InfixOp::In {
                        InOp::In
                    } else {
                        InOp::NotIn
                    };
                    lemma_infix_span(ts, n, ExprView::In(Box::new(left), inop, right), min_bp);
                }
            }
            if let Ok((right, n)) = expr_bp_spec(ts, k, binding_power(op).1) {
                if advanced(ts, j, n) {
                    lemma_infix_span(ts, n, binary(left, op, right), min_bp);
                }
            }
        }
    }
}

proof fn lemma_prefix_span(ts: Seq<TokenView>, i: int)
    ensures
        prefix_spec(ts, i) matches Err(e) ==> error_span_ok(ts, e),
    decreases ts.len() - i, 3int,
{
    if 0 <= i <= ts.len() {
        if i < ts.len() {
            lemma_expr_bp_span(ts, i + 1, 5);
            lemma_expr_bp_span(ts, i + 1, 11);
        }
        lemma_primary_span(ts, i);
    }
}

proof fn lemma_primary_span(ts: Seq<TokenView>, i: int)
    ensures
        primary_spec(ts, i) matches Err(e) ==> error_span_ok(ts, e),
    decreases ts.len() - i, 2int,
{
    lemma_unexpected_spans(ts);
    if 0 <= i < ts.len() {
        lemma_expr_span(ts, i + 1);
        lemma_path_span(ts, i, true);
        lemma_path_span(ts, i, false);
        if i + 2 <= ts.len() {
            lemma_list_items_span(ts, i + 2, seq![]);
        }
        lemma_literal_span(ts, i);
    }
}

proof fn lemma_list_span(
    ts: Seq<TokenView>,
    i: int,
    open_text: Seq<char>,
    open: TokenKindView,
    close_text: Seq<char>,
    close: TokenKindView,
)
    ensures
        list_spec(ts, i, open_text, open, close_text, close) matches Err(e) ==> error_span_ok(ts, e),
    decreases ts.len() - i, 1int,
{
    lemma_unexpected_spans(ts);
    if 0 <= i < ts.len() {
        lemma_list_items_span(ts, i + 1, seq![]);
    }
}

proof fn lemma_list_items_span(ts: Seq<TokenView>, i: int, acc: Seq<ExprView>)
    ensures
        list_items_spec(ts, i, acc) matches Err(e) ==> error_span_ok(ts, e),
    decreases ts.len() - i, 6int,
{
    if 0 <= i <= ts.len() {
        lemma_expr_span(ts, i);
        if let Ok((e, j)) = expr_spec(ts, i) {
            if advanced(ts, i, j) && kind_at(ts, j) == Some(TokenKindView::Comma) {
                lemma_list_items_span(ts, j + 1, acc.push(e));
            }
        }
    }
}

proof fn lemma_shape_span(ts: Seq<TokenView>, i: int)
    ensures
        shape_spec(ts, i) matches Err(e) ==> error_span_ok(ts, e),
    decreases ts.len() - i, 2int,
{
    lemma_unexpected_spans(ts);
    if 0 <= i < ts.len() {
        lemma_shape_items_span(ts, i + 1, seq![]);
    }
}

proof fn lemma_shape_items_span(ts: Seq<TokenView>, j: int, acc: Seq<ShapeItemView>)
    ensures
        shape_items_spec(ts, j, acc) matches Err(e) ==> error_span_ok(ts, e),
    decreases ts.len() - j, 1int,
{
    lemma_unexpected_spans(ts);
    if 0 <= j < ts.len() {
        lemma_shape_item_span(ts, j);
        if let Ok((item, k)) = shape_item_spec(ts, j) {
            if advanced(ts, j, k) {
                if k < ts.len() {
                    lemma_shape_items_span(ts, k + 1, acc.push(item));
                }
                lemma_shape_items_span(ts, k, acc.push(item));
            }
        }
    }
}

proof fn lemma_shape_item_span(ts: Seq<TokenView>, j: int)
    ensures
        shape_item_spec(ts, j) matches Err(e) ==> error_span_ok(ts, e),
    decreases ts.len() - j, 0int,
{
    lemma_unexpected_spans(ts);
    if 0 <= j < ts.len() {
        if j + 2 <= ts.len() {
            lemma_expr_span(ts, j + 2);
            lemma_shape_span(ts, j + 2);
        }
    }
}

proof fn lemma_order_items_span(ts: Seq<TokenView>, i: int, acc: Seq<OrderView>)
    ensures
        order_items_spec(ts, i, acc) matches Err(e) ==> error_span_ok(ts, e),
    decreases ts.len() - i,
{
    if 0 <= i <= ts.len() {
        lemma_expr_span(ts, i);
        if let Ok((o, j)) = order_item_spec(ts, i) {
            if advanced(ts, i, j) && kind_at(ts, j) == Some(TokenKindView::Comma) {
                lemma_order_items_span(ts, j + 1, acc.push(o));
            }
        }
    }
}

proof fn lemma_clauses_span(ts: Seq<TokenView>, i: int)
    ensures
        filter_spec(ts, i) matches Err(e) ==> error_span_ok(ts, e),
        order_spec(ts, i) matches Err(e) ==> error_span_ok(ts, e),
        count_clause_spec(ts, i, Keyword::Limit) matches Err(e) ==> error_span_ok(ts, e),
        count_clause_spec(ts, i, Keyword::Offset) matches Err(e) ==> error_span_ok(ts, e),
        eof_spec(ts, i) matches Err(e) ==> error_span_ok(ts, e),
{
    lemma_unexpected_spans(ts);
    lemma_expr_span(ts, i + 1);
    lemma_literal_span(ts, i + 1);
    lemma_order_items_span(ts, i + 2, seq![]);
    if 0 <= i < ts.len() {
        assert(ts[i].span == ts[i].span);
    }
}

proof fn lemma_assignments_span(ts: Seq<TokenView>, j: int, acc: Seq<(Seq<char>, LiteralView)>)
    ensures
        assignments_spec(ts, j, acc) matches Err(e) ==> error_span_ok(ts, e),
    decreases ts.len() - j,
{
    lemma_unexpected_spans(ts);
    if 0 <= j <= ts.len() && kind_at(ts, j) != Some(TokenKindView::RBrace) {
        lemma_literal_span(ts, j + 2);
        if let Ok((name, k)) = ident_spec(ts, j) {
            if let Ok(l) = expect_spec(ts, k, TokenKindView::ColonEq, ":="@) {
                if let Ok((value, n)) = literal_spec(ts, l) {
                    if advanced(ts, j, n) {
                        if n < ts.len() {
                            lemma_assignments_span(ts, n + 1, acc.push((name, value)));
                        }
                        lemma_assignments_span(ts, n, acc.push((name, value)));
                    }
                }
            }
        }
    }
}

/// Select parse errors carry spans as `error_span_ok` says: a lexical
/// error has none, an unexpected token has its own, and any other span is
/// that of a token of the source.
pub proof fn law_select_error_spans(s: Seq<char>)
    ensures
        select_of(s) matches Err(e) ==> match lex_spec(s) {
            Err(le) => e.kind == ParseErrorKindView::Lex(le) && e.span is None,
            Ok(ts) => error_span_ok(ts, e),
        },
{
    if let Ok(ts) = lex_spec(s) {
        lemma_unexpected_spans(ts);
        if let Ok(a) = expect_spec(ts, 0, TokenKindView::Keyword(Keyword::Select), "select"@) {
            if let Ok((_, b)) = ident_spec(ts, a) {
                lemma_shape_span(ts, b);
                if let Ok((_, c)) = shape_spec(ts, b) {
                    lemma_clauses_span(ts, c);
                    if let Ok((_, d)) = filter_spec(ts, c) {
                        lemma_clauses_span(ts, d);
                        if let Ok((_, e)) = order_spec(ts, d) {
                            lemma_clauses_span(ts, e);
                            if let Ok((_, f)) = count_clause_spec(ts, e, Keyword::Limit) {
                                lemma_clauses_span(ts, f);
                                if let Ok((_, g)) = count_clause_spec(ts, f, Keyword::Offset) {
                                    lemma_clauses_span(ts, g);
                                }
                            }
                        }
                    }
                }
            }
        }
    }
}

/// Insert parse errors carry spans as `error_span_ok` says.
pub proof fn law_insert_error_spans(s: Seq<char>)
    ensures
        insert_of(s) matches Err(e) ==> match lex_spec(s) {
            Err(le) => e.kind == ParseErrorKindView::Lex(le) && e.span is None,
            Ok(ts) => error_span_ok(ts, e),
        },
{
    if let Ok(ts) = lex_spec(s) {
        lemma_unexpected_spans(ts);
        if let Ok(a) = expect_spec(ts, 0, TokenKindView::Keyword(Keyword::Insert), "insert"@) {
            if let Ok((_, b)) = ident_spec(ts, a) {
                if let Ok(c) = expect_spec(ts, b, TokenKindView::LBrace, "{"@) {
                    lemma_assignments_span(ts, c, seq![]);
                    if let Ok((_, d)) = assignments_spec(ts, c, seq![]) {
                        lemma_clauses_span(ts, d);
                    }
                }
            }
        }
    }
}

// ---------------------------------------------------------------------------
// Parser
// ---------------------------------------------------------------------------
/// Token kinds without their text.
#[derive(Clone, Copy, PartialEq, Eq, Structural)]
pub enum Tag {
    Keyword(Keyword),
    Ident,
    String,
    Float,
    Int,
    LBrace,
    RBrace,
    LBracket,
    RBracket,
    LParen,
    RParen,
    Comma,
    ColonEq,
    Colon,
    Dot,
    Eq,
    Ne,
    Lt,
    Le,
    Gt,
    Ge,
    Plus,
    Minus,
    Star,
    Slash,
    Percent,
}

pub open spec fn tag_of(k: TokenKindView) -> Tag {
    match k {
        TokenKindView::Keyword(w) => Tag::Keyword(w),
        TokenKindView::Ident(_) => Tag::Ident,
        TokenKindView::String(_) => Tag::String,
        TokenKindView::Float(_) => Tag::Float,
        TokenKindView::Int(_) => Tag::Int,
        TokenKindView::LBrace => Tag::LBrace,
        TokenKindView::RBrace => Tag::RBrace,
        TokenKindView::LBracket => Tag::LBracket,
        TokenKindView::RBracket => Tag::RBracket,
        TokenKindView::LParen => Tag::LParen,
        TokenKindView::RParen => Tag::RParen,
        TokenKindView::Comma => Tag::Comma,
        TokenKindView::ColonEq => Tag::ColonEq,
        TokenKindView::Colon => Tag::Colon,
        TokenKindView::Dot => Tag::Dot,
        TokenKindView::Eq => Tag::Eq,
        TokenKindView::Ne => Tag::Ne,
        TokenKindView::Lt => Tag::Lt,
        TokenKindView::Le => Tag::Le,
        TokenKindView::Gt => Tag::Gt,
        TokenKindView::Ge => Tag::Ge,
        TokenKindView::Plus => Tag::Plus,
        TokenKindView::Minus => Tag::Minus,
        TokenKindView::Star => Tag::Star,
        TokenKindView::Slash => Tag::Slash,
        TokenKindView::Percent => Tag::Percent,
    }
}

/// The token kind of a tag without text.
pub open spec fn tag_kind(t: Tag) -> TokenKindView {
    match t {
        Tag::Keyword(w) => TokenKindView::Keyword(w),
        Tag::LBrace => TokenKindView::LBrace,
        Tag::RBrace => TokenKindView::RBrace,
        Tag::LBracket => TokenKindView::LBracket,
        Tag::RBracket => TokenKindView::RBracket,
        Tag::LParen => TokenKindView::LParen,
        Tag::RParen => TokenKindView::RParen,
        Tag::Comma => TokenKindView::Comma,
        Tag::ColonEq => TokenKindView::ColonEq,
        Tag::Colon => TokenKindView::Colon,
        Tag::Dot => TokenKindView::Dot,
        Tag::Eq => TokenKindView::Eq,
        Tag::Ne => TokenKindView::Ne,
        Tag::Lt => TokenKindView::Lt,
        Tag::Le => TokenKindView::Le,
        Tag::Gt => TokenKindView::Gt,
        Tag::Ge => TokenKindView::Ge,
        Tag::Plus => TokenKindView::Plus,
        Tag::Minus => TokenKindView::Minus,
        Tag::Star => TokenKindView::Star,
        Tag::Slash => TokenKindView::Slash,
        Tag::Percent => TokenKindView::Percent,
        _ => TokenKindView::Comma,
    }
}

pub open spec fn has_text(t: Tag) -> bool {
    t == Tag::Ident || t == Tag::String || t == Tag::Float || t == Tag::Int
}

fn tag(kind: &TokenKind) -> (r: Tag)
    ensures
        r == tag_of(kind@),
{
    match kind {
        TokenKind::Keyword(w) => Tag::Keyword(*w),
        TokenKind::Ident(_) => Tag::Ident,
        TokenKind::String(_) => Tag::String,
        TokenKind::Float(_) => Tag::Float,
        TokenKind::Int(_) => Tag::Int,
        TokenKind::LBrace => Tag::LBrace,
        TokenKind::RBrace => Tag::RBrace,
        TokenKind::LBracket => Tag::LBracket,
        TokenKind::RBracket => Tag::RBracket,
        TokenKind::LParen => Tag::LParen,
        TokenKind::RParen => Tag::RParen,
        TokenKind::Comma => Tag::Comma,
        TokenKind::ColonEq => Tag::ColonEq,
        TokenKind::Colon => Tag::Colon,
        TokenKind::Dot => Tag::Dot,
        TokenKind::Eq => Tag::Eq,
        TokenKind::Ne => Tag::Ne,
        TokenKind::Lt => Tag::Lt,
        TokenKind::Le => Tag::Le,
        TokenKind::Gt => Tag::Gt,
        TokenKind::Ge => Tag::Ge,
        TokenKind::Plus => Tag::Plus,
        TokenKind::Minus => Tag::Minus,
        TokenKind::Star => Tag::Star,
        TokenKind::Slash => Tag::Slash,
        TokenKind::Percent => Tag::Percent,
    }
}

/// The tag of the token at `i`.
fn peek(tokens: &Vec<Token>, i: usize) -> (r: Option<Tag>)
    ensures
        r == match kind_at(tokens_view(tokens@), i as int) {
            Some(k) => Some(tag_of(k)),
            None => None::<Tag>,
        },
{
    if i < tokens.len() {
        Some(tag(tokens[i].kind()))
    } else {
        None
    }
}

/// Whether the token at `i` is the text-free token `want`.
fn at(tokens: &Vec<Token>, i: usize, want: Tag) -> (r: bool)
    requires
        !has_text(want),
    ensures
        r == (kind_at(tokens_view(tokens@), i as int) == Some(tag_kind(want))),
{
    match peek(tokens, i) {
        Some(t) => t == want,
        None => false,
    }
}

/// Whether the token at `i` is the identifier `word`.
fn word_at(tokens: &Vec<Token>, i: usize, word: &str) -> (r: bool)
    ensures
        r == is_word(tokens_view(tokens@), i as int, word@),
{
    if i < tokens.len() {
        if let TokenKind::Ident(value) = tokens[i].kind() {
            return str_equal(value.as_str(), word);
        }
    }
    false
}

fn error(kind: ParseErrorKind, span: Option<Span>) -> (r: ParseError)
    ensures
        r@ == (ParseErrorView { kind: kind@, span }),
{
    ParseError { kind, span }
}

/// The error for finding something other than `expected` at `i`.
fn unexpected_at(tokens: &Vec<Token>, i: usize, expected: &'static str) -> (r: ParseError)
    ensures
        r@ == unexpected(tokens_view(tokens@), i as int, expected@),
{
    if i < tokens.len() {
        error(ParseErrorKind::UnexpectedToken { expected }, Some(tokens[i].span()))
    } else {
        error(ParseErrorKind::UnexpectedEof { expected }, None)
    }
}

fn stalled_error() -> (r: ParseError)
    ensures
        r@ == stalled(),
{
    error(ParseErrorKind::Unsupported, None)
}

pub open(crate) spec fn int_result(r: Result<usize, ParseError>) -> Result<int, ParseErrorView> {
    match r {
        Ok(n) => Ok(n as int),
        Err(e) => Err(e@),
    }
}

/// Consumes the text-free token `want`.
fn expect(tokens: &Vec<Token>, i: usize, want: Tag, text: &'static str) -> (r: Result<
    usize,
    ParseError,
>)
    requires
        !has_text(want),
        i < usize::MAX,
    ensures
        int_result(r) == expect_spec(tokens_view(tokens@), i as int, tag_kind(want), text@),
{
    if at(tokens, i, want) {
        Ok(i + 1)
    } else {
        Err(unexpected_at(tokens, i, text))
    }
}

fn expect_ident(tokens: &Vec<Token>, i: usize) -> (r: Result<(String, usize), ParseError>)
    requires
        i < usize::MAX,
    ensures
        match (r, ident_spec(tokens_view(tokens@), i as int)) {
            (Ok((name, n)), Ok((v, m))) => name@ == v && n == m,
            (Err(e), Err(v)) => e@ == v,
            _ => false,
        },
{
    if i < tokens.len() {
        if let TokenKind::Ident(value) = tokens[i].kind() {
            return Ok((value.clone(), i + 1));
        }
    }
    Err(unexpected_at(tokens, i, "IDENT"))
}

proof fn lemma_digits_value_push(s: Seq<char>, c: char)
    ensures
        digits_value(s.push(c)) == digits_value(s) * 10 + ((c as u32) - ('0' as u32)) as nat,
{
    assert(s.push(c).drop_last() =~= s);
}

/// The `i64` value of a run of decimal digits, when it fits.
fn int_of_text(text: &str) -> (r: Option<i64>)
    ensures
        r == int_value(text@),
{
    let chars = chars_of(text);
    if chars.len() == 0 {
        return None;
    }
    let mut value: u64 = 0;
    let mut i: usize = 0;
    while i < chars.len()
        invariant
            chars@ == text@,
            i <= chars.len(),
            value == digits_value(text@.take(i as int)),
            value <= i64::MAX,
            forall|k: int| 0 <= k < i ==> is_digit(#[trigger] text@[k]),
        decreases chars.len() - i,
    {
        let c = chars[i];
        if !(('0' <= c) && (c <= '9')) {
            return None;
        }
        let d = (c as u32 - '0' as u32) as u64;
        proof {
            assert(text@.take(i + 1) =~= text@.take(i as int).push(c));
            lemma_digits_value_push(text@.take(i as int), c);
        }
        if value > (9223372036854775807u64 - d) / 10 {
            proof {
                lemma_digits_value_monotone(text@, i + 1);
            }
            return None;
        }
        value = value * 10 + d;
        i += 1;
    }
    proof {
        assert(text@.take(chars.len() as int) =~= text@);
    }
    Some(value as i64)
}

/// A prefix of digits is worth no more than the whole.
proof fn lemma_digits_value_monotone(s: Seq<char>, k: int)
    requires
        0 <= k <= s.len(),
    ensures
        digits_value(s.take(k)) <= digits_value(s),
    decreases s.len() - k,
{
    if k < s.len() {
        lemma_digits_value_monotone(s, k + 1);
        assert(s.take(k + 1).drop_last() =~= s.take(k));
    } else {
        assert(s.take(k) =~= s);
    }
}

pub open(crate) spec fn literal_result(r: Result<(Literal, usize), ParseError>) -> Result<
    (LiteralView, int),
    ParseErrorView,
> {
    match r {
        Ok((l, n)) => Ok((l@, n as int)),
        Err(e) => Err(e@),
    }
}

fn expect_literal(tokens: &Vec<Token>, i: usize) -> (r: Result<(Literal, usize), ParseError>)
    requires
        i < usize::MAX,
    ensures
        literal_result(r) == literal_spec(tokens_view(tokens@), i as int),
{
    if i < tokens.len() {
        let token = &tokens[i];
        match token.kind() {
            TokenKind::Int(text) => {
                return match int_of_text(text.as_str()) {
                    Some(v) => Ok((Literal::Int64(v), i + 1)),
                    None => Err(error(ParseErrorKind::InvalidIntegerLiteral, Some(token.span()))),
                };
            },
            TokenKind::Float(text) => {
                return Ok((Literal::Float64(text.clone()), i + 1));
            },
            TokenKind::String(text) => {
                return Ok((Literal::String(text.clone()), i + 1));
            },
            TokenKind::Keyword(Keyword::True) => {
                return Ok((Literal::Bool(true), i + 1));
            },
            TokenKind::Keyword(Keyword::False) => {
                return Ok((Literal::Bool(false), i + 1));
            },
            TokenKind::Keyword(Keyword::Null) => {
                return Ok((Literal::Null, i + 1));
            },
            _ => {},
        }
    }
    Err(unexpected_at(tokens, i, "literal"))
}

pub open(crate) spec fn expr_result(r: Result<(Expr, usize), ParseError>) -> Result<
    (ExprView, int),
    ParseErrorView,
> {
    match r {
        Ok((e, n)) => Ok((e@, n as int)),
        Err(e) => Err(e@),
    }
}

pub open(crate) spec fn exprs_result(r: Result<(Vec<Expr>, usize), ParseError>) -> Result<
    (Seq<ExprView>, int),
    ParseErrorView,
> {
    match r {
        Ok((es, n)) => Ok((exprs_view(es@), n as int)),
        Err(e) => Err(e@),
    }
}

pub open(crate) spec fn moves_forward<T>(r: Result<(T, usize), ParseError>, i: int, len: int) -> bool {
    r matches Ok((_, n)) ==> i < n <= len
}

proof fn lemma_exprs_view_push(s: Seq<Expr>, e: Expr)
    ensures
        exprs_view(s.push(e)) == exprs_view(s).push(e@),
{
    assert(s.push(e).drop_last() =~= s);
}

fn peek_infix_op(tokens: &Vec<Token>, j: usize) -> (r: Option<InfixOp>)
    requires
        j < usize::MAX,
    ensures
        r == infix_at(tokens_view(tokens@), j as int),
{
    match peek(tokens, j) {
        Some(Tag::Plus) => Some(InfixOp::Add),
        Some(Tag::Minus) => Some(InfixOp::Sub),
        Some(Tag::Star) => Some(InfixOp::Mul),
        Some(Tag::Slash) => Some(InfixOp::Div),
        Some(Tag::Percent) => Some(InfixOp::Mod),
        Some(Tag::Eq) => Some(InfixOp::Eq),
        Some(Tag::Ne) => Some(InfixOp::Ne),
        Some(Tag::Lt) => Some(InfixOp::Lt),
        Some(Tag::Le) => Some(InfixOp::Le),
        Some(Tag::Gt) => Some(InfixOp::Gt),
        Some(Tag::Ge) => Some(InfixOp::Ge),
        Some(Tag::Ident) => {
            if word_at(tokens, j, "or") {
                Some(InfixOp::Or)
            } else if word_at(tokens, j, "and") {
                Some(InfixOp::And)
            } else if word_at(tokens, j, "in") {
                Some(InfixOp::In)
            } else if word_at(tokens, j, "not") && word_at(tokens, j + 1, "in") {
                Some(InfixOp::NotIn)
            } else {
                None
            }
        },
        _ => None,
    }
}

fn binding_power_of(op: InfixOp) -> (r: (u8, u8))
    ensures
        r.0 == binding_power(op).0,
        r.1 == binding_power(op).1,
{
    match op {
        InfixOp::Or => (1, 2),
        InfixOp::And => (3, 4),
        InfixOp::Add | InfixOp::Sub => (7, 8),
        InfixOp::Mul | InfixOp::Div | InfixOp::Mod => (9, 10),
        _ => (5, 6),
    }
}

fn make_binary_expr(left: Expr, op: InfixOp, right: Expr) -> (r: Expr)
    requires
        op != InfixOp::In,
        op != InfixOp::NotIn,
    ensures
        r@ == binary(left@, op, right@),
{
    match op {
        InfixOp::Or => Expr::Or(Box::new(left), Box::new(right)),
        InfixOp::And => Expr::And(Box::new(left), Box::new(right)),
        InfixOp::Eq => Expr::Compare(CompareExpr::new(left, CompareOp::Eq, right)),
        InfixOp::Ne => Expr::Compare(CompareExpr::new(left, CompareOp::Ne, right)),
        InfixOp::Lt => Expr::Compare(CompareExpr::new(left, CompareOp::Lt, right)),
        InfixOp::Le => Expr::Compare(CompareExpr::new(left, CompareOp::Le, right)),
        InfixOp::Gt => Expr::Compare(CompareExpr::new(left, CompareOp::Gt, right)),
        InfixOp::Ge => Expr::Compare(CompareExpr::new(left, CompareOp::Ge, right)),
        InfixOp::Add => Expr::Arithmetic(ArithmeticExpr::new(left, ArithmeticOp::Add, right)),
        InfixOp::Sub => Expr::Arithmetic(ArithmeticExpr::new(left, ArithmeticOp::Sub, right)),
        InfixOp::Mul => Expr::Arithmetic(ArithmeticExpr::new(left, ArithmeticOp::Mul, right)),
        InfixOp::Div => Expr::Arithmetic(ArithmeticExpr::new(left, ArithmeticOp::Div, right)),
        _ => Expr::Arithmetic(ArithmeticExpr::new(left, ArithmeticOp::Mod, right)),
    }
}

fn is_primary_expr_start(tokens: &Vec<Token>, j: usize) -> (r: bool)
    ensures
        r == starts_primary(tokens_view(tokens@), j as int),
{
    if word_at(tokens, j, "and") || word_at(tokens, j, "or") || word_at(tokens, j, "in") {
        return false;
    }
    match peek(tokens, j) {
        Some(Tag::Dot) | Some(Tag::Ident) | Some(Tag::Int) | Some(Tag::String) | Some(Tag::LParen)
        | Some(Tag::Keyword(Keyword::True)) | Some(Tag::Keyword(Keyword::False)) | Some(
            Tag::Keyword(Keyword::Null),
        ) => true,
        _ => false,
    }
}

pub open(crate) spec fn path_result(r: Result<(Path, usize), ParseError>) -> Result<
    (Seq<Seq<char>>, int),
    ParseErrorView,
> {
    match r {
        Ok((p, n)) => Ok((p@, n as int)),
        Err(e) => Err(e@),
    }
}

fn parse_path(tokens: &Vec<Token>, i: usize, allow_leading_dot: bool) -> (r: Result<
    (Path, usize),
    ParseError,
>)
    requires
        tokens@.len() < usize::MAX,
        i <= tokens@.len(),
    ensures
        path_result(r) == path_spec(tokens_view(tokens@), i as int, allow_leading_dot),
        moves_forward(r, i as int, tokens@.len() as int),
{
    let ghost ts = tokens_view(tokens@);
    let mut j = i;
    if at(tokens, i, Tag::Dot) {
        if !allow_leading_dot {
            return Err(unexpected_at(tokens, i, "IDENT"));
        }
        j = i + 1;
    }
    let (first, k) = expect_ident(tokens, j)?;
    let mut steps: Vec<PathStep> = Vec::new();
    steps.push(PathStep::new(first.as_str()));
    let mut cursor = k;
    proof {
        assert(steps_view(steps@) =~= seq![first@]);
    }
    while at(tokens, cursor, Tag::Dot)
        invariant
            ts == tokens_view(tokens@),
            tokens@.len() < usize::MAX,
            i < cursor <= tokens@.len(),
            path_spec(ts, i as int, allow_leading_dot) == path_steps_spec(
                ts,
                cursor as int,
                steps_view(steps@),
            ),
        decreases tokens@.len() - cursor,
    {
        let (name, next) = expect_ident(tokens, cursor + 1)?;
        let ghost before = steps@;
        steps.push(PathStep::new(name.as_str()));
        proof {
            assert(steps_view(steps@) =~= steps_view(before).push(name@));
        }
        cursor = next;
    }
    Ok((Path::new(steps), cursor))
}

/// `expr` not followed by the start of another expression.
fn parse_expr(tokens: &Vec<Token>, i: usize) -> (r: Result<(Expr, usize), ParseError>)
    requires
        tokens@.len() < usize::MAX,
        i <= tokens@.len(),
    ensures
        expr_result(r) == expr_spec(tokens_view(tokens@), i as int),
        moves_forward(r, i as int, tokens@.len() as int),
    decreases tokens@.len() - i, 5int,
{
    let (expr, j) = parse_expr_bp(tokens, i, 0)?;
    if is_primary_expr_start(tokens, j) {
        return Err(unexpected_at(tokens, j, "comparison operator"));
    }
    Ok((expr, j))
}

/// Precedence climbing from `i`, with operators binding at least `min_bp`.
fn parse_expr_bp(tokens: &Vec<Token>, i: usize, min_bp: u8) -> (r: Result<(Expr, usize), ParseError>)
    requires
        tokens@.len() < usize::MAX,
        i <= tokens@.len(),
    ensures
        expr_result(r) == expr_bp_spec(tokens_view(tokens@), i as int, min_bp as int),
        moves_forward(r, i as int, tokens@.len() as int),
    decreases tokens@.len() - i, 4int,
{
    let ghost ts = tokens_view(tokens@);
    let (first, j0) = parse_prefix_or_primary(tokens, i)?;
    let mut left = first;
    let mut j = j0;
    while j < tokens.len()
        invariant
            ts == tokens_view(tokens@),
            tokens@.len() < usize::MAX,
            i < j <= tokens@.len(),
            expr_bp_spec(ts, i as int, min_bp as int) == infix_spec(ts, j as int, left@, min_bp as int),
        ensures
            i < j <= tokens@.len(),
            expr_bp_spec(ts, i as int, min_bp as int) == Ok::<(ExprView, int), ParseErrorView>(
                (left@, j as int),
            ),
        decreases tokens@.len() - j,
    {
        let op = match peek_infix_op(tokens, j) {
            Some(op) => op,
            None => {
                break;
            },
        };
        let (left_bp, right_bp) = binding_power_of(op);
        if left_bp < min_bp {
            break;
        }
        let k = if op == InfixOp::NotIn {
            j + 2
        } else {
            j + 1
        };
        if op == InfixOp::In || op == InfixOp::NotIn {
            let (right, n) = parse_in_rhs(tokens, k)?;
            let in_op = if op == InfixOp::In {
                InOp::In
            } else {
                InOp::NotIn
            };
            left = Expr::In(InExpr::new(left, in_op, right));
            j = n;
        } else {
            let (right, n) = parse_expr_bp(tokens, k, right_bp)?;
            left = make_binary_expr(left, op, right);
            j = n;
        }
    }
    Ok((left, j))
}

fn parse_prefix_or_primary(tokens: &Vec<Token>, i: usize) -> (r: Result<(Expr, usize), ParseError>)
    requires
        tokens@.len() < usize::MAX,
        i <= tokens@.len(),
    ensures
        expr_result(r) == prefix_spec(tokens_view(tokens@), i as int),
        moves_forward(r, i as int, tokens@.len() as int),
    decreases tokens@.len() - i, 3int,
{
    if word_at(tokens, i, "not") {
        let (operand, n) = parse_expr_bp(tokens, i + 1, 5)?;
        return Ok((Expr::Not(Box::new(operand)), n));
    }
    let plus = at(tokens, i, Tag::Plus);
    if plus || at(tokens, i, Tag::Minus) {
        let op = if plus {
            UnaryArithmeticOp::Plus
        } else {
            UnaryArithmeticOp::Minus
        };
        if op == UnaryArithmeticOp::Minus && i + 1 < tokens.len() {
            if let TokenKind::Int(text) = tokens[i + 1].kind() {
                if str_equal(text.as_str(), "9223372036854775808") {
                    return Ok((Expr::Literal(Literal::Int64(i64::MIN)), i + 2));
                }
            }
        }
        let (operand, n) = parse_expr_bp(tokens, i + 1, 11)?;
        return Ok((Expr::UnaryArithmetic(UnaryArithmeticExpr::new(op, operand)), n));
    }
    parse_primary_expr(tokens, i)
}

fn parse_primary_expr(tokens: &Vec<Token>, i: usize) -> (r: Result<(Expr, usize), ParseError>)
    requires
        tokens@.len() < usize::MAX,
        i <= tokens@.len(),
    ensures
        expr_result(r) == primary_spec(tokens_view(tokens@), i as int),
        moves_forward(r, i as int, tokens@.len() as int),
    decreases tokens@.len() - i, 2int,
{
    match peek(tokens, i) {
        None => Err(unexpected_at(tokens, i, "expression")),
        Some(Tag::LParen) => {
            let (expr, j) = parse_expr(tokens, i + 1)?;
            let k = expect(tokens, j, Tag::RParen, ")")?;
            Ok((expr, k))
        },
        Some(Tag::Dot) => {
            let (path, j) = parse_path(tokens, i, true)?;
            Ok((Expr::Path(path), j))
        },
        Some(Tag::Ident) => {
            if at(tokens, i + 1, Tag::LParen) {
                parse_function_call_expr(tokens, i)
            } else {
                let (path, j) = parse_path(tokens, i, false)?;
                Ok((Expr::Path(path), j))
            }
        },
        Some(Tag::Int) | Some(Tag::Float) | Some(Tag::String) | Some(Tag::Keyword(Keyword::True))
        | Some(Tag::Keyword(Keyword::False)) | Some(Tag::Keyword(Keyword::Null)) => {
            let (literal, j) = expect_literal(tokens, i)?;
            Ok((Expr::Literal(literal), j))
        },
        Some(_) => Err(unexpected_at(tokens, i, "expression")),
    }
}

/// `name(args...)` at `i`, where an identifier is followed by `(`.
fn parse_function_call_expr(tokens: &Vec<Token>, i: usize) -> (r: Result<(Expr, usize), ParseError>)
    requires
        tokens@.len() < usize::MAX,
        i + 1 < tokens@.len(),
        kind_at(tokens_view(tokens@), i as int) matches Some(TokenKindView::Ident(_)),
        kind_at(tokens_view(tokens@), i + 1) == Some(TokenKindView::LParen),
    ensures
        expr_result(r) == primary_spec(tokens_view(tokens@), i as int),
        moves_forward(r, i as int, tokens@.len() as int),
    decreases tokens@.len() - i, 1int,
{
    let (name, j) = expect_ident(tokens, i)?;
    let k = expect(tokens, j, Tag::LParen, "(")?;
    if at(tokens, k, Tag::RParen) {
        proof {
            assert(exprs_view(Seq::<Expr>::empty()) =~= seq![]);
        }
        return Ok((Expr::FunctionCall(FunctionCallExpr::new(name.as_str(), Vec::new())), k + 1));
    }
    let (args, n) = parse_list_items(tokens, k)?;
    let m = expect(tokens, n, Tag::RParen, ")")?;
    Ok((Expr::FunctionCall(FunctionCallExpr::new(name.as_str(), args)), m))
}

/// `[ (expr ("," expr)*)? ]` at `i`.
fn parse_in_rhs(tokens: &Vec<Token>, i: usize) -> (r: Result<(Vec<Expr>, usize), ParseError>)
    requires
        tokens@.len() < usize::MAX,
        i <= tokens@.len(),
    ensures
        exprs_result(r) == list_spec(
            tokens_view(tokens@),
            i as int,
            "["@,
            TokenKindView::LBracket,
            "]"@,
            TokenKindView::RBracket,
        ),
        moves_forward(r, i as int, tokens@.len() as int),
    decreases tokens@.len() - i, 1int,
{
    let j = expect(tokens, i, Tag::LBracket, "[")?;
    if at(tokens, j, Tag::RBracket) {
        proof {
            assert(exprs_view(Seq::<Expr>::empty()) =~= seq![]);
        }
        return Ok((Vec::new(), j + 1));
    }
    let (values, k) = parse_list_items(tokens, j)?;
    let n = expect(tokens, k, Tag::RBracket, "]")?;
    Ok((values, n))
}

/// `expr ("," expr)*` at `i`.
fn parse_list_items(tokens: &Vec<Token>, i: usize) -> (r: Result<(Vec<Expr>, usize), ParseError>)
    requires
        tokens@.len() < usize::MAX,
        i <= tokens@.len(),
    ensures
        exprs_result(r) == list_items_spec(tokens_view(tokens@), i as int, seq![]),
        moves_forward(r, i as int, tokens@.len() as int),
    decreases tokens@.len() - i, 6int,
{
    let ghost ts = tokens_view(tokens@);
    let mut items: Vec<Expr> = Vec::new();
    let (first, j0) = parse_expr(tokens, i)?;
    let ghost e0 = first@;
    proof {
        lemma_exprs_view_push(items@, first);
    }
    items.push(first);
    let mut j = j0;
    while at(tokens, j, Tag::Comma)
        invariant
            ts == tokens_view(tokens@),
            tokens@.len() < usize::MAX,
            i < j <= tokens@.len(),
            list_items_spec(ts, i as int, seq![]) == if kind_at(ts, j as int) == Some(
                TokenKindView::Comma,
            ) {
                list_items_spec(ts, j + 1, exprs_view(items@))
            } else {
                Ok((exprs_view(items@), j as int))
            },
        decreases tokens@.len() - j,
    {
        let (next, n) = parse_expr(tokens, j + 1)?;
        let ghost before = items@;
        proof {
            lemma_exprs_view_push(items@, next);
        }
        items.push(next);
        j = n;
    }
    Ok((items, j))
}

pub open(crate) spec fn items_result(r: Result<(Vec<ShapeItem>, usize), ParseError>) -> Result<
    (Seq<ShapeItemView>, int),
    ParseErrorView,
> {
    match r {
        Ok((items, n)) => Ok((items_view(items@), n as int)),
        Err(e) => Err(e@),
    }
}

proof fn lemma_items_view_push(s: Seq<ShapeItem>, item: ShapeItem)
    ensures
        items_view(s.push(item)) == items_view(s).push(item@),
{
    assert(s.push(item).drop_last() =~= s);
}

fn eof_error() -> (r: ParseError)
    ensures
        r@ == (ParseErrorView { kind: ParseErrorKindView::UnexpectedEof("}"@), span: None }),
{
    error(ParseErrorKind::UnexpectedEof { expected: "}" }, None)
}

/// `{ items }` at `i`.
fn parse_shape(tokens: &Vec<Token>, i: usize) -> (r: Result<(Vec<ShapeItem>, usize), ParseError>)
    requires
        tokens@.len() < usize::MAX,
        i <= tokens@.len(),
    ensures
        items_result(r) == shape_spec(tokens_view(tokens@), i as int),
        moves_forward(r, i as int, tokens@.len() as int),
    decreases tokens@.len() - i, 2int,
{
    let ghost ts = tokens_view(tokens@);
    let j = expect(tokens, i, Tag::LBrace, "{")?;
    let mut items: Vec<ShapeItem> = Vec::new();
    let mut cursor = j;
    proof {
        assert(items_view(items@) =~= seq![]);
    }
    loop
        invariant
            ts == tokens_view(tokens@),
            tokens@.len() < usize::MAX,
            i < cursor <= tokens@.len(),
            shape_spec(ts, i as int) == shape_items_spec(ts, cursor as int, items_view(items@)),
        decreases tokens@.len() - cursor,
    {
        match peek(tokens, cursor) {
            None => {
                return Err(eof_error());
            },
            Some(Tag::RBrace) => {
                return Ok((items, cursor + 1));
            },
            Some(_) => {
                let (item, k) = parse_shape_item(tokens, cursor)?;
                proof {
                    lemma_items_view_push(items@, item);
                }
                items.push(item);
                if at(tokens, k, Tag::Comma) {
                    cursor = k + 1;
                } else {
                    match peek(tokens, k) {
                        Some(Tag::RBrace) => {
                            cursor = k;
                        },
                        Some(_) => {
                            return Err(unexpected_at(tokens, k, ", or }"));
                        },
                        None => {
                            return Err(eof_error());
                        },
                    }
                }
            },
        }
    }
}

pub open(crate) spec fn item_result(r: Result<(ShapeItem, usize), ParseError>) -> Result<
    (ShapeItemView, int),
    ParseErrorView,
> {
    match r {
        Ok((item, n)) => Ok((item@, n as int)),
        Err(e) => Err(e@),
    }
}

fn parse_shape_item(tokens: &Vec<Token>, j: usize) -> (r: Result<(ShapeItem, usize), ParseError>)
    requires
        tokens@.len() < usize::MAX,
        j < tokens@.len(),
    ensures
        item_result(r) == shape_item_spec(tokens_view(tokens@), j as int),
        moves_forward(r, j as int, tokens@.len() as int),
    decreases tokens@.len() - j, 0int,
{
    let (field_name, k) = expect_ident(tokens, j)?;
    match peek(tokens, k) {
        Some(Tag::ColonEq) => {
            let (expr, n) = parse_expr(tokens, k + 1)?;
            Ok((ShapeItem::computed(field_name.as_str(), expr), n))
        },
        Some(Tag::Colon) => {
            let (child_items, n) = parse_shape(tokens, k + 1)?;
            let mut steps: Vec<PathStep> = Vec::new();
            steps.push(PathStep::new(field_name.as_str()));
            let path = Path::new(steps);
            proof {
                assert(path@ =~= seq![field_name@]);
            }
            Ok((ShapeItem::new(path, Some(Shape::new(child_items))), n))
        },
        _ => {
            let mut steps: Vec<PathStep> = Vec::new();
            steps.push(PathStep::new(field_name.as_str()));
            let path = Path::new(steps);
            proof {
                assert(path@ =~= seq![field_name@]);
            }
            Ok((ShapeItem::new(path, None), k))
        },
    }
}

fn parse_filter_clause(tokens: &Vec<Token>, i: usize) -> (r: Result<(Option<Expr>, usize), ParseError>)
    requires
        tokens@.len() < usize::MAX,
        i <= tokens@.len(),
    ensures
        match (r, filter_spec(tokens_view(tokens@), i as int)) {
            (Ok((e, n)), Ok((v, m))) => crate::query_ast::option_expr_view(e) == v && n == m && i
                <= n <= tokens@.len(),
            (Err(e), Err(v)) => e@ == v,
            _ => false,
        },
{
    if at(tokens, i, Tag::Keyword(Keyword::Filter)) {
        let (expr, j) = parse_expr(tokens, i + 1)?;
        Ok((Some(expr), j))
    } else {
        Ok((None, i))
    }
}

pub open(crate) spec fn orders_result(r: Result<(Vec<OrderExpr>, usize), ParseError>) -> Result<
    (Seq<OrderView>, int),
    ParseErrorView,
> {
    match r {
        Ok((os, n)) => Ok((orders_view(os@), n as int)),
        Err(e) => Err(e@),
    }
}

fn parse_order_item(tokens: &Vec<Token>, i: usize) -> (r: Result<(OrderExpr, usize), ParseError>)
    requires
        tokens@.len() < usize::MAX,
        i <= tokens@.len(),
    ensures
        match (r, order_item_spec(tokens_view(tokens@), i as int)) {
            (Ok((o, n)), Ok((v, m))) => o@ == v && n == m && i < n <= tokens@.len(),
            (Err(e), Err(v)) => e@ == v,
            _ => false,
        },
{
    let (expr, j) = parse_expr(tokens, i)?;
    if at(tokens, j, Tag::Keyword(Keyword::Desc)) {
        Ok((OrderExpr::new(expr, OrderDirection::Desc), j + 1))
    } else if at(tokens, j, Tag::Keyword(Keyword::Asc)) {
        Ok((OrderExpr::new(expr, OrderDirection::Asc), j + 1))
    } else {
        Ok((OrderExpr::new(expr, OrderDirection::Asc), j))
    }
}

fn parse_order_clause(tokens: &Vec<Token>, i: usize) -> (r: Result<(Vec<OrderExpr>, usize), ParseError>)
    requires
        tokens@.len() < usize::MAX,
        i <= tokens@.len(),
    ensures
        orders_result(r) == order_spec(tokens_view(tokens@), i as int),
        r matches Ok((_, n)) ==> i <= n <= tokens@.len(),
{
    let ghost ts = tokens_view(tokens@);
    let mut results: Vec<OrderExpr> = Vec::new();
    if !at(tokens, i, Tag::Keyword(Keyword::Order)) {
        proof {
            assert(orders_view(results@) =~= seq![]);
        }
        return Ok((results, i));
    }
    let j = expect(tokens, i + 1, Tag::Keyword(Keyword::By), "by")?;
    let (first, k0) = parse_order_item(tokens, j)?;
    let ghost before = results@;
    results.push(first);
    proof {
        assert(orders_view(results@) =~= orders_view(before).push(first@));
        assert(orders_view(before) =~= seq![]);
    }
    let mut k = k0;
    while at(tokens, k, Tag::Comma)
        invariant
            ts == tokens_view(tokens@),
            tokens@.len() < usize::MAX,
            i < k <= tokens@.len(),
            order_spec(ts, i as int) == if kind_at(ts, k as int) == Some(TokenKindView::Comma) {
                order_items_spec(ts, k + 1, orders_view(results@))
            } else {
                Ok((orders_view(results@), k as int))
            },
        decreases tokens@.len() - k,
    {
        let (item, n) = parse_order_item(tokens, k + 1)?;
        let ghost prior = results@;
        results.push(item);
        proof {
            assert(orders_view(results@) =~= orders_view(prior).push(item@));
        }
        k = n;
    }
    Ok((results, k))
}

fn not_non_negative_error() -> (r: ParseError)
    ensures
        r@ == not_non_negative(),
{
    error(ParseErrorKind::UnexpectedValue { expected: "non-negative integer" }, None)
}

/// `limit INT` or `offset INT`, when `keyword` is at `i`.
fn parse_count_clause(tokens: &Vec<Token>, i: usize, keyword: Keyword) -> (r: Result<
    (Option<i64>, usize),
    ParseError,
>)
    requires
        tokens@.len() < usize::MAX,
        i <= tokens@.len(),
    ensures
        match (r, count_clause_spec(tokens_view(tokens@), i as int, keyword)) {
            (Ok((v, n)), Ok((w, m))) => v == w && n == m && i <= n <= tokens@.len(),
            (Err(e), Err(w)) => e@ == w,
            _ => false,
        },
{
    if !at(tokens, i, Tag::Keyword(keyword)) {
        return Ok((None, i));
    }
    if at(tokens, i + 1, Tag::Minus) {
        return Err(not_non_negative_error());
    }
    match expect_literal(tokens, i + 1)? {
        (Literal::Int64(value), j) => {
            if value >= 0 {
                Ok((Some(value), j))
            } else {
                Err(not_non_negative_error())
            }
        },
        _ => Err(not_non_negative_error()),
    }
}

fn ensure_eof(tokens: &Vec<Token>, i: usize) -> (r: Result<(), ParseError>)
    ensures
        match (r, eof_spec(tokens_view(tokens@), i as int)) {
            (Ok(_), Ok(_)) => true,
            (Err(e), Err(v)) => e@ == v,
            _ => false,
        },
{
    if i < tokens.len() {
        Err(error(ParseErrorKind::UnexpectedToken { expected: "EOF" }, Some(tokens[i].span())))
    } else {
        Ok(())
    }
}

fn lex_error(e: LexError) -> (r: ParseError)
    ensures
        r@ == (ParseErrorView { kind: ParseErrorKindView::Lex(e), span: None }),
{
    error(ParseErrorKind::Lex(e), None)
}

pub open(crate) spec fn select_result(r: Result<SelectQuery, ParseError>) -> Result<
    SelectView,
    ParseErrorView,
> {
    match r {
        Ok(q) => Ok(q@),
        Err(e) => Err(e@),
    }
}

/// Parses one `select` statement.
pub fn parse_select(input: &str) -> (r: Result<SelectQuery, ParseError>)
    requires
        input@.len() < usize::MAX,
    ensures
        select_result(r) == select_of(input@),
{
    let tokens = match lex(input) {
        Ok(tokens) => tokens,
        Err(e) => {
            return Err(lex_error(e));
        },
    };
    let ghost ts = tokens_view(tokens@);
    assert(tokens@.len() == ts.len());
    let a = expect(&tokens, 0, Tag::Keyword(Keyword::Select), "select")?;
    let (root_type_name, b) = expect_ident(&tokens, a)?;
    let (items, c) = parse_shape(&tokens, b)?;
    let (filter, d) = parse_filter_clause(&tokens, c)?;
    let (order_by, e) = parse_order_clause(&tokens, d)?;
    let (limit, f) = parse_count_clause(&tokens, e, Keyword::Limit)?;
    let (offset, g) = parse_count_clause(&tokens, f, Keyword::Offset)?;
    ensure_eof(&tokens, g)?;
    let shape = Shape::new(items);
    let query = SelectQuery::new(root_type_name.as_str(), shape, filter, order_by, limit, offset);
    Ok(query)
}

pub open(crate) spec fn insert_result(r: Result<InsertQuery, ParseError>) -> Result<
    InsertView,
    ParseErrorView,
> {
    match r {
        Ok(q) => Ok(q@),
        Err(e) => Err(e@),
    }
}

proof fn lemma_assignments_view_push(s: Seq<Assignment>, a: Assignment)
    ensures
        assignments_view(s.push(a)) == assignments_view(s).push(a@),
{
    assert(assignments_view(s.push(a)) =~= assignments_view(s).push(a@));
}

/// Parses one `insert` statement: `insert Type { field := literal, ... }`.
pub fn parse_insert(input: &str) -> (r: Result<InsertQuery, ParseError>)
    requires
        input@.len() < usize::MAX,
    ensures
        insert_result(r) == insert_of(input@),
{
    let tokens = match lex(input) {
        Ok(tokens) => tokens,
        Err(e) => {
            return Err(lex_error(e));
        },
    };
    let ghost ts = tokens_view(tokens@);
    assert(tokens@.len() == ts.len());
    let a = expect(&tokens, 0, Tag::Keyword(Keyword::Insert), "insert")?;
    let (root_type_name, b) = expect_ident(&tokens, a)?;
    let c = expect(&tokens, b, Tag::LBrace, "{")?;
    let mut assignments: Vec<Assignment> = Vec::new();
    let mut cursor = c;
    proof {
        assert(assignments_view(assignments@) =~= seq![]);
    }
    loop
        invariant
            ts == tokens_view(tokens@),
            lex_spec(input@) == Ok::<Seq<TokenView>, LexError>(ts),
            tokens@.len() < usize::MAX,
            cursor <= tokens@.len(),
            insert_spec(ts) == match assignments_spec(ts, cursor as int, assignments_view(assignments@)) {
                Err(e) => Err(e),
                Ok((list, d)) => match eof_spec(ts, d) {
                    Err(e) => Err(e),
                    Ok(_) => Ok(InsertView { root_type_name: root_type_name@, assignments: list }),
                },
            },
        decreases tokens@.len() - cursor,
    {
        if at(&tokens, cursor, Tag::RBrace) {
            ensure_eof(&tokens, cursor + 1)?;
            return Ok(InsertQuery::new(root_type_name.as_str(), assignments));
        }
        let (field_name, k) = expect_ident(&tokens, cursor)?;
        let l = expect(&tokens, k, Tag::ColonEq, ":=")?;
        let (value, n) = expect_literal(&tokens, l)?;
        let assignment = Assignment::new(field_name.as_str(), value);
        proof {
            lemma_assignments_view_push(assignments@, assignment);
        }
        assignments.push(assignment);
        if at(&tokens, n, Tag::Comma) {
            cursor = n + 1;
        } else {
            match peek(&tokens, n) {
                Some(Tag::RBrace) => {
                    cursor = n;
                },
                Some(_) => {
                    return Err(unexpected_at(&tokens, n, "comma"));
                },
                None => {
                    return Err(eof_error());
                },
            }
        }
    }
}

impl ParseError {
    pub fn kind(&self) -> (r: &ParseErrorKind)
        ensures
            r@ == self@.kind,
    {
        &self.kind
    }

    pub fn span(&self) -> (r: Option<Span>)
        ensures
            r == self@.span,
    {
        self.span
    }
}

} // verus!
