//! Lexer for query source.
//!
//! Blanks (`[ \t\r\n\f]`) separate tokens, and the longest token is taken at
//! each step: words `[A-Za-z_][A-Za-z0-9_]*` (a reserved word is its keyword;
//! `and`, `or`, `not` and `in` stay identifiers), integers `[0-9]+`, decimals
//! `[0-9]+.[0-9]+`, strings `"..."` without escapes, punctuation and
//! operators. A decimal point without digits on both sides is an error at the
//! offending character, and a string without its closing quote is an error
//! at its opening quote. Every token carries the byte offset, the one-based
//! line and the one-based column of its start and end.
use vstd::prelude::*;
use crate::schema_lexer::{law_placed_bytes, pos_at, spans_placed};
pub use crate::schema_lexer::{Position, Span};
use crate::text::{
    advance_position, byte_at, byte_len, column_at, digit_char, digits_end, digits_end_exec, ident_end,
    ident_end_exec, ident_start_char, is_alpha, is_digit, is_ident_continue, is_ident_start,
    lemma_digits_end, lemma_ident_end,
    lemma_skip_blank, lemma_skip_blank_run, line_at, skip_blank, skip_blank_exec, source_chars, str_equal, string_of,
};

verus! {

/// Reserved words of the query language.
#[derive(Debug, Clone, Copy, PartialEq, Eq, Structural)]
pub enum Keyword {
    Select,
    Insert,
    Filter,
    Order,
    By,
    Limit,
    Offset,
    Asc,
    Desc,
    True,
    False,
    Null,
}

/// Token categories.
#[derive(Debug, Clone, PartialEq, Eq)]
pub enum TokenKind {
    Keyword(Keyword),
    Ident(String),
    String(String),
    Float(String),
    Int(String),
    LBrace,
    RBrace,
    LBracket,
    RBracket,
    LParen,
    RParen,
    Comma,
    ColonEq,
    Colon,
    Dot,
    Eq,
    Ne,
    Lt,
    Le,
    Gt,
    Ge,
    Plus,
    Minus,
    Star,
    Slash,
    Percent,
}

/// A token with its source span.
#[derive(Debug, Clone, PartialEq, Eq)]
pub struct Token {
    pub(crate) kind: TokenKind,
    pub(crate) span: Span,
}

/// Lexer error category.
#[derive(Debug, Clone, Copy, PartialEq, Eq, Structural)]
pub enum LexErrorKind {
    UnexpectedChar(char),
    UnterminatedString,
}

/// Lexer error with its source position.
#[derive(Debug, Clone, Copy, PartialEq, Eq, Structural)]
pub struct LexError {
    pub(crate) kind: LexErrorKind,
    pub(crate) position: Position,
}

/// Mathematical value of a token kind.
pub ghost enum TokenKindView {
    Keyword(Keyword),
    Ident(Seq<char>),
    String(Seq<char>),
    Float(Seq<char>),
    Int(Seq<char>),
    LBrace,
    RBrace,
    LBracket,
    RBracket,
    LParen,
    RParen,
    Comma,
    ColonEq,
    Colon,
    Dot,
    Eq,
    Ne,
    Lt,
    Le,
    Gt,
    Ge,
    Plus,
    Minus,
    Star,
    Slash,
    Percent,
}

/// Mathematical value of a token.
pub ghost struct TokenView {
    pub kind: TokenKindView,
    pub span: Span,
}

impl View for TokenKind {
    type V = TokenKindView;

    open spec fn view(&self) -> TokenKindView {
        match self {
            TokenKind::Keyword(k) => TokenKindView::Keyword(*k),
            TokenKind::Ident(s) => TokenKindView::Ident(s@),
            TokenKind::String(s) => TokenKindView::String(s@),
            TokenKind::Float(s) => TokenKindView::Float(s@),
            TokenKind::Int(s) => TokenKindView::Int(s@),
            TokenKind::LBrace => TokenKindView::LBrace,
            TokenKind::RBrace => TokenKindView::RBrace,
            TokenKind::LBracket => TokenKindView::LBracket,
            TokenKind::RBracket => TokenKindView::RBracket,
            TokenKind::LParen => TokenKindView::LParen,
            TokenKind::RParen => TokenKindView::RParen,
            TokenKind::Comma => TokenKindView::Comma,
            TokenKind::ColonEq => TokenKindView::ColonEq,
            TokenKind::Colon => TokenKindView::Colon,
            TokenKind::Dot => TokenKindView::Dot,
            TokenKind::Eq => TokenKindView::Eq,
            TokenKind::Ne => TokenKindView::Ne,
            TokenKind::Lt => TokenKindView::Lt,
            TokenKind::Le => TokenKindView::Le,
            TokenKind::Gt => TokenKindView::Gt,
            TokenKind::Ge => TokenKindView::Ge,
            TokenKind::Plus => TokenKindView::Plus,
            TokenKind::Minus => TokenKindView::Minus,
            TokenKind::Star => TokenKindView::Star,
            TokenKind::Slash => TokenKindView::Slash,
            TokenKind::Percent => TokenKindView::Percent,
        }
    }
}

impl View for Token {
    type V = TokenView;

    open(crate) spec fn view(&self) -> TokenView {
        TokenView { kind: self.kind@, span: self.span }
    }
}

pub open spec fn tokens_view(s: Seq<Token>) -> Seq<TokenView> {
    s.map_values(|t: Token| t@)
}

impl LexError {
    pub open(crate) spec fn spec_kind(self) -> LexErrorKind {
        self.kind
    }

    pub open(crate) spec fn spec_position(self) -> Position {
        self.position
    }
}

// ---------------------------------------------------------------------------
// The token language
// ---------------------------------------------------------------------------
/// Spelling of each keyword.
pub open spec fn keyword_text(k: Keyword) -> Seq<char> {
    match k {
        Keyword::Select => "select"@,
        Keyword::Insert => "insert"@,
        Keyword::Filter => "filter"@,
        Keyword::Order => "order"@,
        Keyword::By => "by"@,
        Keyword::Limit => "limit"@,
        Keyword::Offset => "offset"@,
        Keyword::Asc => "asc"@,
        Keyword::Desc => "desc"@,
        Keyword::True => "true"@,
        Keyword::False => "false"@,
        Keyword::Null => "null"@,
    }
}

/// The keyword spelled by `w`, if any.
pub open spec fn keyword_of(w: Seq<char>) -> Option<Keyword> {
    if w == "select"@ {
        Some(Keyword::Select)
    } else if w == "insert"@ {
        Some(Keyword::Insert)
    } else if w == "filter"@ {
        Some(Keyword::Filter)
    } else if w == "order"@ {
        Some(Keyword::Order)
    } else if w == "by"@ {
        Some(Keyword::By)
    } else if w == "limit"@ {
        Some(Keyword::Limit)
    } else if w == "offset"@ {
        Some(Keyword::Offset)
    } else if w == "asc"@ {
        Some(Keyword::Asc)
    } else if w == "desc"@ {
        Some(Keyword::Desc)
    } else if w == "true"@ {
        Some(Keyword::True)
    } else if w == "false"@ {
        Some(Keyword::False)
    } else if w == "null"@ {
        Some(Keyword::Null)
    } else {
        None
    }
}

/// Every keyword is read back from its own spelling: the word that spells a
/// keyword is recognised as that keyword and as no other.
pub proof fn law_keyword_spelling_round_trip(k: Keyword)
    ensures
        keyword_of(keyword_text(k)) == Some(k),
{
    reveal_strlit("select");
    reveal_strlit("insert");
    reveal_strlit("filter");
    reveal_strlit("order");
    reveal_strlit("by");
    reveal_strlit("limit");
    reveal_strlit("offset");
    reveal_strlit("asc");
    reveal_strlit("desc");
    reveal_strlit("true");
    reveal_strlit("false");
    reveal_strlit("null");
    match k {
        Keyword::Select => {},
        Keyword::Insert => {
            assert("insert"@[0] != "select"@[0]);
        },
        Keyword::Filter => {
            assert("filter"@[0] != "select"@[0]);
            assert("filter"@[0] != "insert"@[0]);
        },
        Keyword::Order => {
            assert("order"@.len() != "select"@.len());
            assert("order"@.len() != "insert"@.len());
            assert("order"@.len() != "filter"@.len());
        },
        Keyword::By => {
            assert("by"@.len() != "select"@.len());
            assert("by"@.len() != "insert"@.len());
            assert("by"@.len() != "filter"@.len());
            assert("by"@.len() != "order"@.len());
        },
        Keyword::Limit => {
            assert("limit"@.len() != "select"@.len());
            assert("limit"@.len() != "insert"@.len());
            assert("limit"@.len() != "filter"@.len());
            assert("limit"@[0] != "order"@[0]);
            assert("limit"@.len() != "by"@.len());
        },
        Keyword::Offset => {
            assert("offset"@[0] != "select"@[0]);
            assert("offset"@[0] != "insert"@[0]);
            assert("offset"@[0] != "filter"@[0]);
            assert("offset"@.len() != "order"@.len());
            assert("offset"@.len() != "by"@.len());
            assert("offset"@.len() != "limit"@.len());
        },
        Keyword::Asc => {
            assert("asc"@.len() != "select"@.len());
            assert("asc"@.len() != "insert"@.len());
            assert("asc"@.len() != "filter"@.len());
            assert("asc"@.len() != "order"@.len());
            assert("asc"@.len() != "by"@.len());
            assert("asc"@.len() != "limit"@.len());
            assert("asc"@.len() != "offset"@.len());
        },
        Keyword::Desc => {
            assert("desc"@.len() != "select"@.len());
            assert("desc"@.len() != "insert"@.len());
            assert("desc"@.len() != "filter"@.len());
            assert("desc"@.len() != "order"@.len());
            assert("desc"@.len() != "by"@.len());
            assert("desc"@.len() != "limit"@.len());
            assert("desc"@.len() != "offset"@.len());
            assert("desc"@.len() != "asc"@.len());
        },
        Keyword::True => {
            assert("true"@.len() != "select"@.len());
            assert("true"@.len() != "insert"@.len());
            assert("true"@.len() != "filter"@.len());
            assert("true"@.len() != "order"@.len());
            assert("true"@.len() != "by"@.len());
            assert("true"@.len() != "limit"@.len());
            assert("true"@.len() != "offset"@.len());
            assert("true"@.len() != "asc"@.len());
            assert("true"@[0] != "desc"@[0]);
        },
        Keyword::False => {
            assert("false"@.len() != "select"@.len());
            assert("false"@.len() != "insert"@.len());
            assert("false"@.len() != "filter"@.len());
            assert("false"@[0] != "order"@[0]);
            assert("false"@.len() != "by"@.len());
            assert("false"@[0] != "limit"@[0]);
            assert("false"@.len() != "offset"@.len());
            assert("false"@.len() != "asc"@.len());
            assert("false"@.len() != "desc"@.len());
            assert("false"@.len() != "true"@.len());
        },
        Keyword::Null => {
            assert("null"@.len() != "select"@.len());
            assert("null"@.len() != "insert"@.len());
            assert("null"@.len() != "filter"@.len());
            assert("null"@.len() != "order"@.len());
            assert("null"@.len() != "by"@.len());
            assert("null"@.len() != "limit"@.len());
            assert("null"@.len() != "offset"@.len());
            assert("null"@.len() != "asc"@.len());
            assert("null"@[0] != "desc"@[0]);
            assert("null"@[0] != "true"@[0]);
            assert("null"@.len() != "false"@.len());
        },
    }
}

/// The token kind of the word `w`: a keyword, or an identifier.
pub open spec fn word_kind(w: Seq<char>) -> TokenKindView {
    match keyword_of(w) {
        Some(k) => TokenKindView::Keyword(k),
        None => TokenKindView::Ident(w),
    }
}

/// Index of the first `"` at or after `i`, or `s.len()` when there is none.
pub open spec fn quote_end(s: Seq<char>, i: int) -> int
    decreases s.len() - i,
{
    if i < 0 || i >= s.len() {
        s.len() as int
    } else if s[i] == '"' {
        i
    } else {
        quote_end(s, i + 1)
    }
}

pub proof fn lemma_quote_end(s: Seq<char>, i: int)
    requires
        0 <= i <= s.len(),
    ensures
        i <= quote_end(s, i) <= s.len(),
        quote_end(s, i) < s.len() ==> s[quote_end(s, i)] == '"',
    decreases s.len() - i,
{
    if i < s.len() && s[i] != '"' {
        lemma_quote_end(s, i + 1);
    }
}

/// A token that is one or two fixed characters.
pub open spec fn punct(c: char, next: Option<char>) -> Option<(TokenKindView, int)> {
    if c == '{' {
        Some((TokenKindView::LBrace, 1))
    } else if c == '}' {
        Some((TokenKindView::RBrace, 1))
    } else if c == '[' {
        Some((TokenKindView::LBracket, 1))
    } else if c == ']' {
        Some((TokenKindView::RBracket, 1))
    } else if c == '(' {
        Some((TokenKindView::LParen, 1))
    } else if c == ')' {
        Some((TokenKindView::RParen, 1))
    } else if c == ',' {
        Some((TokenKindView::Comma, 1))
    } else if c == ':' {
        if next == Some('=') {
            Some((TokenKindView::ColonEq, 2))
        } else {
            Some((TokenKindView::Colon, 1))
        }
    } else if c == '=' {
        Some((TokenKindView::Eq, 1))
    } else if c == '!' {
        if next == Some('=') {
            Some((TokenKindView::Ne, 2))
        } else {
            None
        }
    } else if c == '<' {
        if next == Some('=') {
            Some((TokenKindView::Le, 2))
        } else {
            Some((TokenKindView::Lt, 1))
        }
    } else if c == '>' {
        if next == Some('=') {
            Some((TokenKindView::Ge, 2))
        } else {
            Some((TokenKindView::Gt, 1))
        }
    } else if c == '+' {
        Some((TokenKindView::Plus, 1))
    } else if c == '-' {
        Some((TokenKindView::Minus, 1))
    } else if c == '*' {
        Some((TokenKindView::Star, 1))
    } else if c == '/' {
        Some((TokenKindView::Slash, 1))
    } else if c == '%' {
        Some((TokenKindView::Percent, 1))
    } else {
        None
    }
}

pub open spec fn char_after(s: Seq<char>, j: int) -> Option<char> {
    if 0 <= j + 1 < s.len() {
        Some(s[j + 1])
    } else {
        None
    }
}

pub open(crate) spec fn unexpected_char(s: Seq<char>, j: int) -> LexError {
    LexError { kind: LexErrorKind::UnexpectedChar(s[j]), position: pos_at(s, j) }
}

/// The token that starts at the non-blank index `j`, with its end, or the
/// lexical error found there.
pub open(crate) spec fn scan_at(s: Seq<char>, j: int) -> Result<(TokenKindView, int), LexError> {
    let c = s[j];
    if c == '"' {
        let q = quote_end(s, j + 1);
        if q < s.len() {
            Ok((TokenKindView::String(s.subrange(j + 1, q)), q + 1))
        } else {
            Err(LexError { kind: LexErrorKind::UnterminatedString, position: pos_at(s, j) })
        }
    } else if is_digit(c) {
        let d = digits_end(s, j);
        if d < s.len() && s[d] == '.' {
            if d + 1 < s.len() && is_digit(s[d + 1]) {
                let e = digits_end(s, d + 1);
                Ok((TokenKindView::Float(s.subrange(j, e)), e))
            } else {
                Err(unexpected_char(s, d))
            }
        } else {
            Ok((TokenKindView::Int(s.subrange(j, d)), d))
        }
    } else if c == '.' {
        if j + 1 < s.len() && is_digit(s[j + 1]) {
            Err(unexpected_char(s, j + 1))
        } else {
            Ok((TokenKindView::Dot, j + 1))
        }
    } else if is_ident_start(c) {
        let e = ident_end(s, j + 1);
        Ok((word_kind(s.subrange(j, e)), e))
    } else {
        match punct(c, char_after(s, j)) {
            Some((kind, width)) => Ok((kind, j + width)),
            None => Err(unexpected_char(s, j)),
        }
    }
}

pub proof fn lemma_scan_advances(s: Seq<char>, j: int)
    requires
        0 <= j < s.len(),
    ensures
        scan_at(s, j) matches Ok((_, e)) ==> j < e <= s.len(),
{
    lemma_quote_end(s, j + 1);
    lemma_digits_end(s, j);
    let d = digits_end(s, j);
    if d + 1 <= s.len() {
        lemma_digits_end(s, d + 1);
    }
    lemma_ident_end(s, j + 1);
}

/// The tokens of `s` from index `i` on, or the first lexical error.
pub open(crate) spec fn lex_from(s: Seq<char>, i: int) -> Result<Seq<TokenView>, LexError>
    decreases s.len() - i,
{
    if i < 0 || i > s.len() {
        Ok(seq![])
    } else {
        let j = skip_blank(s, i);
        if j >= s.len() {
            Ok(seq![])
        } else {
            proof {
                lemma_skip_blank(s, i);
                lemma_scan_advances(s, j);
            }
            match scan_at(s, j) {
                Err(e) => Err(e),
                Ok((kind, end)) => match lex_from(s, end) {
                    Ok(rest) => Ok(
                        seq![TokenView { kind, span: Span { start: pos_at(s, j), end: pos_at(s, end) } }]
                            + rest,
                    ),
                    Err(e) => Err(e),
                },
            }
        }
    }
}

/// Every token covers at least one character.
pub proof fn lemma_lex_count(s: Seq<char>, i: int)
    requires
        0 <= i <= s.len(),
    ensures
        lex_from(s, i) matches Ok(ts) ==> ts.len() <= s.len() - i,
    decreases s.len() - i,
{
    lemma_skip_blank(s, i);
    let j = skip_blank(s, i);
    if j < s.len() {
        lemma_scan_advances(s, j);
        if let Ok((_, end)) = scan_at(s, j) {
            lemma_lex_count(s, end);
        }
    }
}

/// The tokens of a whole source text.
pub open(crate) spec fn lex_spec(s: Seq<char>) -> Result<Seq<TokenView>, LexError> {
    lex_from(s, 0)
}

/// The spans of `ts`, in order.
pub open spec fn spans_of(ts: Seq<TokenView>) -> Seq<Span> {
    ts.map_values(|t: TokenView| t.span)
}

proof fn lemma_lex_placed(s: Seq<char>, i: int)
    requires
        0 <= i <= s.len(),
    ensures
        lex_from(s, i) matches Ok(ts) ==> spans_placed(s, spans_of(ts), i),
    decreases s.len() - i,
{
    lemma_skip_blank(s, i);
    lemma_skip_blank_run(s, i);
    let j = skip_blank(s, i);
    if j < s.len() {
        lemma_scan_advances(s, j);
        if let Ok((kind, end)) = scan_at(s, j) {
            lemma_lex_placed(s, end);
            if let Ok(rest) = lex_from(s, end) {
                let ts = seq![TokenView { kind, span: Span { start: pos_at(s, j), end: pos_at(s, end) } }]
                    + rest;
                assert(spans_of(ts).drop_first() =~= spans_of(rest));
                assert(spans_of(ts)[0] == Span { start: pos_at(s, j), end: pos_at(s, end) });
            }
        }
    }
}

/// The tokens of a source text lie in order in it: each after blanks, each
/// at least one character long, with only blanks after the last, and each
/// position is the byte offset, line and column of a character index.
pub proof fn law_lex_spans(s: Seq<char>)
    ensures
        lex_spec(s) matches Ok(ts) ==> spans_placed(s, spans_of(ts), 0),
{
    lemma_lex_placed(s, 0);
}

/// In byte offsets, every token is non-empty and lies within the text, and
/// each ends at or before the next begins.
pub proof fn law_lex_span_bytes(s: Seq<char>, k: int)
    requires
        byte_len(s) <= usize::MAX,
    ensures
        lex_spec(s) matches Ok(ts) ==> (0 <= k < ts.len() ==> {
            &&& ts[k].span.spec_start().spec_byte() < ts[k].span.spec_end().spec_byte() <= byte_len(s)
            &&& k + 1 < ts.len() ==> ts[k].span.spec_end().spec_byte() <= ts[k
                + 1].span.spec_start().spec_byte()
        }),
{
    lemma_lex_placed(s, 0);
    if let Ok(ts) = lex_spec(s) {
        if 0 <= k < ts.len() {
            law_placed_bytes(s, spans_of(ts), 0, k);
            assert(spans_of(ts)[k] == ts[k].span);
            if k + 1 < ts.len() {
                assert(spans_of(ts)[k + 1] == ts[k + 1].span);
            }
        }
    }
}

proof fn lemma_ident_end_whole(s: Seq<char>, i: int)
    requires
        0 <= i <= s.len(),
        forall|k: int| 0 <= k < s.len() ==> is_ident_continue(#[trigger] s[k]),
    ensures
        ident_end(s, i) == s.len(),
    decreases s.len() - i,
{
    if i < s.len() {
        lemma_ident_end_whole(s, i + 1);
    }
}

/// A word of identifier characters that starts with a letter lexes as one
/// token spanning all of it.
proof fn lemma_word_lexes(s: Seq<char>)
    requires
        s.len() > 0,
        is_alpha(s[0]),
        forall|k: int| 0 <= k < s.len() ==> is_ident_continue(#[trigger] s[k]),
    ensures
        lex_spec(s) == Ok::<Seq<TokenView>, LexError>(
            seq![TokenView { kind: word_kind(s), span: Span { start: pos_at(s, 0), end: pos_at(s, s.len() as int) } }],
        ),
{
    lemma_ident_end_whole(s, 1);
    assert(skip_blank(s, 0) == 0);
    assert(skip_blank(s, s.len() as int) == s.len());
    assert(lex_from(s, s.len() as int) == Ok::<Seq<TokenView>, LexError>(seq![]));
    assert(s.subrange(0, s.len() as int) =~= s);
    assert(seq![TokenView { kind: word_kind(s), span: Span { start: pos_at(s, 0), end: pos_at(s, s.len() as int) } }] + Seq::<TokenView>::empty() =~= seq![TokenView { kind: word_kind(s), span: Span { start: pos_at(s, 0), end: pos_at(s, s.len() as int) } }]);
}

/// Lexing a keyword's spelling gives exactly that keyword, as one token
/// spanning the whole text.
pub proof fn law_keyword_text_lexes_as_keyword(k: Keyword)
    ensures
        lex_spec(keyword_text(k)) matches Ok(ts) && ts.len() == 1 && ts[0].kind
            == TokenKindView::Keyword(k) && ts[0].span.spec_start() == pos_at(keyword_text(k), 0)
            && ts[0].span.spec_end() == pos_at(keyword_text(k), keyword_text(k).len() as int),
        pos_at(keyword_text(k), 0).spec_byte() == 0,
        pos_at(keyword_text(k), keyword_text(k).len() as int).spec_byte() == keyword_text(k).len(),
{
    law_keyword_spelling_round_trip(k);
    assert(keyword_text(k).take(0) =~= Seq::<char>::empty());
    assert(keyword_text(k).take(keyword_text(k).len() as int) =~= keyword_text(k));
    reveal_strlit("select");
    reveal_strlit("insert");
    reveal_strlit("filter");
    reveal_strlit("order");
    reveal_strlit("by");
    reveal_strlit("limit");
    reveal_strlit("offset");
    reveal_strlit("asc");
    reveal_strlit("desc");
    reveal_strlit("true");
    reveal_strlit("false");
    reveal_strlit("null");
    match k {
        Keyword::Select => {
            let s = "select"@;
            assert(s[0] == 's');
            assert(s[1] == 'e');
            assert(s[2] == 'l');
            assert(s[3] == 'e');
            assert(s[4] == 'c');
            assert(s[5] == 't');
            assert forall|i: int| 0 <= i < s.len() implies is_ident_continue(#[trigger] s[i]) by { if i == 0 {} else if i == 1 {} else if i == 2 {} else if i == 3 {} else if i == 4 {} else if i == 5 {} }
            lemma_word_lexes(s);
            crate::text::lemma_byte_len_ident(s);
        },
        Keyword::Insert => {
            let s = "insert"@;
            assert(s[0] == 'i');
            assert(s[1] == 'n');
            assert(s[2] == 's');
            assert(s[3] == 'e');
            assert(s[4] == 'r');
            assert(s[5] == 't');
            assert forall|i: int| 0 <= i < s.len() implies is_ident_continue(#[trigger] s[i]) by { if i == 0 {} else if i == 1 {} else if i == 2 {} else if i == 3 {} else if i == 4 {} else if i == 5 {} }
            lemma_word_lexes(s);
            crate::text::lemma_byte_len_ident(s);
        },
        Keyword::Filter => {
            let s = "filter"@;
            assert(s[0] == 'f');
            assert(s[1] == 'i');
            assert(s[2] == 'l');
            assert(s[3] == 't');
            assert(s[4] == 'e');
            assert(s[5] == 'r');
            assert forall|i: int| 0 <= i < s.len() implies is_ident_continue(#[trigger] s[i]) by { if i == 0 {} else if i == 1 {} else if i == 2 {} else if i == 3 {} else if i == 4 {} else if i == 5 {} }
            lemma_word_lexes(s);
            crate::text::lemma_byte_len_ident(s);
        },
        Keyword::Order => {
            let s = "order"@;
            assert(s[0] == 'o');
            assert(s[1] == 'r');
            assert(s[2] == 'd');
            assert(s[3] == 'e');
            assert(s[4] == 'r');
            assert forall|i: int| 0 <= i < s.len() implies is_ident_continue(#[trigger] s[i]) by { if i == 0 {} else if i == 1 {} else if i == 2 {} else if i == 3 {} else if i == 4 {} }
            lemma_word_lexes(s);
            crate::text::lemma_byte_len_ident(s);
        },
        Keyword::By => {
            let s = "by"@;
            assert(s[0] == 'b');
            assert(s[1] == 'y');
            assert forall|i: int| 0 <= i < s.len() implies is_ident_continue(#[trigger] s[i]) by { if i == 0 {} else if i == 1 {} }
            lemma_word_lexes(s);
            crate::text::lemma_byte_len_ident(s);
        },
        Keyword::Limit => {
            let s = "limit"@;
            assert(s[0] == 'l');
            assert(s[1] == 'i');
            assert(s[2] == 'm');
            assert(s[3] == 'i');
            assert(s[4] == 't');
            assert forall|i: int| 0 <= i < s.len() implies is_ident_continue(#[trigger] s[i]) by { if i == 0 {} else if i == 1 {} else if i == 2 {} else if i == 3 {} else if i == 4 {} }
            lemma_word_lexes(s);
            crate::text::lemma_byte_len_ident(s);
        },
        Keyword::Offset => {
            let s = "offset"@;
            assert(s[0] == 'o');
            assert(s[1] == 'f');
            assert(s[2] == 'f');
            assert(s[3] == 's');
            assert(s[4] == 'e');
            assert(s[5] == 't');
            assert forall|i: int| 0 <= i < s.len() implies is_ident_continue(#[trigger] s[i]) by { if i == 0 {} else if i == 1 {} else if i == 2 {} else if i == 3 {} else if i == 4 {} else if i == 5 {} }
            lemma_word_lexes(s);
            crate::text::lemma_byte_len_ident(s);
        },
        Keyword::Asc => {
            let s = "asc"@;
            assert(s[0] == 'a');
            assert(s[1] == 's');
            assert(s[2] == 'c');
            assert forall|i: int| 0 <= i < s.len() implies is_ident_continue(#[trigger] s[i]) by { if i == 0 {} else if i == 1 {} else if i == 2 {} }
            lemma_word_lexes(s);
            crate::text::lemma_byte_len_ident(s);
        },
        Keyword::Desc => {
            let s = "desc"@;
            assert(s[0] == 'd');
            assert(s[1] == 'e');
            assert(s[2] == 's');
            assert(s[3] == 'c');
            assert forall|i: int| 0 <= i < s.len() implies is_ident_continue(#[trigger] s[i]) by { if i == 0 {} else if i == 1 {} else if i == 2 {} else if i == 3 {} }
            lemma_word_lexes(s);
            crate::text::lemma_byte_len_ident(s);
        },
        Keyword::True => {
            let s = "true"@;
            assert(s[0] == 't');
            assert(s[1] == 'r');
            assert(s[2] == 'u');
            assert(s[3] == 'e');
            assert forall|i: int| 0 <= i < s.len() implies is_ident_continue(#[trigger] s[i]) by { if i == 0 {} else if i == 1 {} else if i == 2 {} else if i == 3 {} }
            lemma_word_lexes(s);
            crate::text::lemma_byte_len_ident(s);
        },
        Keyword::False => {
            let s = "false"@;
            assert(s[0] == 'f');
            assert(s[1] == 'a');
            assert(s[2] == 'l');
            assert(s[3] == 's');
            assert(s[4] == 'e');
            assert forall|i: int| 0 <= i < s.len() implies is_ident_continue(#[trigger] s[i]) by { if i == 0 {} else if i == 1 {} else if i == 2 {} else if i == 3 {} else if i == 4 {} }
            lemma_word_lexes(s);
            crate::text::lemma_byte_len_ident(s);
        },
        Keyword::Null => {
            let s = "null"@;
            assert(s[0] == 'n');
            assert(s[1] == 'u');
            assert(s[2] == 'l');
            assert(s[3] == 'l');
            assert forall|i: int| 0 <= i < s.len() implies is_ident_continue(#[trigger] s[i]) by { if i == 0 {} else if i == 1 {} else if i == 2 {} else if i == 3 {} }
            lemma_word_lexes(s);
            crate::text::lemma_byte_len_ident(s);
        },
    }
}

pub open spec fn lex_view(r: Result<Vec<Token>, LexError>) -> Result<Seq<TokenView>, LexError> {
    match r {
        Ok(ts) => Ok(tokens_view(ts@)),
        Err(e) => Err(e),
    }
}

/// `done` followed by the outcome `rest`.
pub open spec fn after_tokens(
    done: Seq<TokenView>,
    rest: Result<Seq<TokenView>, LexError>,
) -> Result<Seq<TokenView>, LexError> {
    match rest {
        Ok(r) => Ok(done + r),
        Err(e) => Err(e),
    }
}

// ---------------------------------------------------------------------------
// Lexer
// ---------------------------------------------------------------------------
fn keyword_for(word: &str) -> (r: Option<Keyword>)
    ensures
        r == keyword_of(word@),
{
    if str_equal(word, "select") {
        Some(Keyword::Select)
    } else if str_equal(word, "insert") {
        Some(Keyword::Insert)
    } else if str_equal(word, "filter") {
        Some(Keyword::Filter)
    } else if str_equal(word, "order") {
        Some(Keyword::Order)
    } else if str_equal(word, "by") {
        Some(Keyword::By)
    } else if str_equal(word, "limit") {
        Some(Keyword::Limit)
    } else if str_equal(word, "offset") {
        Some(Keyword::Offset)
    } else if str_equal(word, "asc") {
        Some(Keyword::Asc)
    } else if str_equal(word, "desc") {
        Some(Keyword::Desc)
    } else if str_equal(word, "true") {
        Some(Keyword::True)
    } else if str_equal(word, "false") {
        Some(Keyword::False)
    } else if str_equal(word, "null") {
        Some(Keyword::Null)
    } else {
        None
    }
}

fn punct_at(c: char, next: Option<char>) -> (r: Option<(TokenKind, usize)>)
    ensures
        match (r, punct(c, next)) {
            (Some((k, w)), Some((v, n))) => k@ == v && w == n,
            (None, None) => true,
            _ => false,
        },
{
    let followed_by_eq = match next {
        Some(n) => n == '=',
        None => false,
    };
    if c == '{' {
        Some((TokenKind::LBrace, 1))
    } else if c == '}' {
        Some((TokenKind::RBrace, 1))
    } else if c == '[' {
        Some((TokenKind::LBracket, 1))
    } else if c == ']' {
        Some((TokenKind::RBracket, 1))
    } else if c == '(' {
        Some((TokenKind::LParen, 1))
    } else if c == ')' {
        Some((TokenKind::RParen, 1))
    } else if c == ',' {
        Some((TokenKind::Comma, 1))
    } else if c == ':' {
        if followed_by_eq {
            Some((TokenKind::ColonEq, 2))
        } else {
            Some((TokenKind::Colon, 1))
        }
    } else if c == '=' {
        Some((TokenKind::Eq, 1))
    } else if c == '!' {
        if followed_by_eq {
            Some((TokenKind::Ne, 2))
        } else {
            None
        }
    } else if c == '<' {
        if followed_by_eq {
            Some((TokenKind::Le, 2))
        } else {
            Some((TokenKind::Lt, 1))
        }
    } else if c == '>' {
        if followed_by_eq {
            Some((TokenKind::Ge, 2))
        } else {
            Some((TokenKind::Gt, 1))
        }
    } else if c == '+' {
        Some((TokenKind::Plus, 1))
    } else if c == '-' {
        Some((TokenKind::Minus, 1))
    } else if c == '*' {
        Some((TokenKind::Star, 1))
    } else if c == '/' {
        Some((TokenKind::Slash, 1))
    } else if c == '%' {
        Some((TokenKind::Percent, 1))
    } else {
        None
    }
}

/// Index of the first `"` at or after `i`, or `chars.len()`.
fn quote_end_exec(chars: &Vec<char>, i: usize) -> (r: usize)
    requires
        i <= chars.len(),
    ensures
        r == quote_end(chars@, i as int),
{
    let mut k = i;
    while k < chars.len() && chars[k] != '"'
        invariant
            i <= k <= chars.len(),
            quote_end(chars@, i as int) == quote_end(chars@, k as int),
        decreases chars.len() - k,
    {
        k += 1;
    }
    k
}

/// Either a scanned token (kind and end) or the error position index and
/// error kind.
enum Scanned {
    Token(TokenKind, usize),
    Error(LexErrorKind, usize),
}

/// The token at the non-blank index `j`.
fn scan(chars: &Vec<char>, j: usize) -> (r: Scanned)
    requires
        j < chars.len() < usize::MAX,
    ensures
        match (r, scan_at(chars@, j as int)) {
            (Scanned::Token(k, e), Ok((v, n))) => k@ == v && e == n,
            (Scanned::Error(k, at), Err(err)) => j <= at < chars.len() && err == LexError {
                kind: k,
                position: pos_at(chars@, at as int),
            },
            _ => false,
        },
{
    let ghost s = chars@;
    proof {
        lemma_scan_advances(s, j as int);
    }
    let c = chars[j];
    if c == '"' {
        proof {
            lemma_quote_end(s, j + 1);
        }
        let q = quote_end_exec(chars, j + 1);
        if q < chars.len() {
            Scanned::Token(TokenKind::String(string_of(chars, j + 1, q)), q + 1)
        } else {
            Scanned::Error(LexErrorKind::UnterminatedString, j)
        }
    } else if digit_char(c) {
        proof {
            lemma_digits_end(s, j as int);
        }
        let d = digits_end_exec(chars, j);
        if d < chars.len() && chars[d] == '.' {
            if d + 1 < chars.len() && digit_char(chars[d + 1]) {
                proof {
                    lemma_digits_end(s, d + 1);
                }
                let e = digits_end_exec(chars, d + 1);
                Scanned::Token(TokenKind::Float(string_of(chars, j, e)), e)
            } else {
                Scanned::Error(LexErrorKind::UnexpectedChar('.'), d)
            }
        } else {
            Scanned::Token(TokenKind::Int(string_of(chars, j, d)), d)
        }
    } else if c == '.' {
        if j + 1 < chars.len() && digit_char(chars[j + 1]) {
            Scanned::Error(LexErrorKind::UnexpectedChar(chars[j + 1]), j + 1)
        } else {
            Scanned::Token(TokenKind::Dot, j + 1)
        }
    } else if ident_start_char(c) {
        proof {
            lemma_ident_end(s, j + 1);
        }
        let e = ident_end_exec(chars, j + 1);
        let word = string_of(chars, j, e);
        match keyword_for(word.as_str()) {
            Some(k) => Scanned::Token(TokenKind::Keyword(k), e),
            None => Scanned::Token(TokenKind::Ident(word), e),
        }
    } else {
        let next = if j + 1 < chars.len() {
            Some(chars[j + 1])
        } else {
            None
        };
        match punct_at(c, next) {
            Some((kind, width)) => Scanned::Token(kind, j + width),
            None => Scanned::Error(LexErrorKind::UnexpectedChar(c), j),
        }
    }
}

/// Tokenizes query source, attaching byte, line and column spans; fails at
/// the first lexical error.
pub fn lex(input: &str) -> (r: Result<Vec<Token>, LexError>)
    requires
        input@.len() < usize::MAX,
    ensures
        lex_view(r) == lex_spec(input@),
        r matches Ok(ts) ==> ts@.len() <= input@.len(),
{
    proof {
        lemma_lex_count(input@, 0);
    }
    let chars = source_chars(input);
    let ghost s = input@;
    let mut tokens: Vec<Token> = Vec::new();
    let mut i: usize = 0;
    let mut position: (usize, usize, usize) = (0, 1, 1);
    proof {
        assert(s.take(0) =~= Seq::<char>::empty());
        assert(tokens_view(tokens@) =~= seq![]);
        assert(after_tokens(tokens_view(tokens@), lex_from(s, 0)) =~= lex_from(s, 0));
    }
    while i < chars.len()
        invariant
            chars@ == s,
            s == input@,
            s.len() < usize::MAX,
            crate::text::byte_len(s) <= usize::MAX,
            i <= chars.len(),
            position.0 == byte_at(s, i as int),
            position.1 == line_at(s, i as int),
            position.2 == column_at(s, i as int),
            lex_spec(s) == after_tokens(tokens_view(tokens@), lex_from(s, i as int)),
            lex_from(s, 0) matches Ok(ts) ==> ts.len() <= s.len(),
        decreases chars.len() - i,
    {
        let j = skip_blank_exec(&chars, i);
        proof {
            lemma_skip_blank(s, i as int);
        }
        let start = advance_position(&chars, i, j, position.0, position.1, position.2);
        if j >= chars.len() {
            proof {
                assert(lex_from(s, i as int) == Ok::<Seq<TokenView>, LexError>(seq![]));
                assert(tokens_view(tokens@) + seq![] =~= tokens_view(tokens@));
                assert(tokens_view(tokens@).len() == tokens@.len());
            }
            return Ok(tokens);
        }
        proof {
            lemma_scan_advances(s, j as int);
        }
        match scan(&chars, j) {
            Scanned::Error(kind, at) => {
                let here = advance_position(&chars, j, at, start.0, start.1, start.2);
                return Err(
                    LexError {
                        kind,
                        position: Position { byte: here.0, line: here.1, column: here.2 },
                    },
                );
            },
            Scanned::Token(kind, end) => {
                let finish = advance_position(&chars, j, end, start.0, start.1, start.2);
                let token = Token {
                    kind,
                    span: Span {
                        start: Position { byte: start.0, line: start.1, column: start.2 },
                        end: Position { byte: finish.0, line: finish.1, column: finish.2 },
                    },
                };
                let ghost before = tokens@;
                tokens.push(token);
                proof {
                    assert(tokens_view(tokens@) =~= tokens_view(before).push(token@));
                    match lex_from(s, end as int) {
                        Ok(rest) => {
                            assert(tokens_view(before) + (seq![token@] + rest) =~= tokens_view(
                                tokens@,
                            ) + rest);
                        },
                        Err(e) => {},
                    }
                }
                i = end;
                position = finish;
            },
        }
    }
    proof {
        assert(lex_from(s, i as int) == Ok::<Seq<TokenView>, LexError>(seq![]));
        assert(tokens_view(tokens@) + seq![] =~= tokens_view(tokens@));
        assert(tokens_view(tokens@).len() == tokens@.len());
    }
    Ok(tokens)
}

// ---------------------------------------------------------------------------
// Accessors
// ---------------------------------------------------------------------------
impl Token {
    pub fn kind(&self) -> (r: &TokenKind)
        ensures
            r@ == self@.kind,
    {
        &self.kind
    }

    pub fn span(&self) -> (r: Span)
        ensures
            r == self@.span,
    {
        self.span
    }
}

impl Keyword {
    /// The keyword's spelling in query source.
    pub fn as_str(&self) -> (r: &'static str)
        ensures
            r@ == keyword_text(*self),
    {
        match self {
            Keyword::Select => "select",
            Keyword::Insert => "insert",
            Keyword::Filter => "filter",
            Keyword::Order => "order",
            Keyword::By => "by",
            Keyword::Limit => "limit",
            Keyword::Offset => "offset",
            Keyword::Asc => "asc",
            Keyword::Desc => "desc",
            Keyword::True => "true",
            Keyword::False => "false",
            Keyword::Null => "null",
        }
    }
}

impl LexError {
    pub fn kind(&self) -> (r: &LexErrorKind)
        ensures
            *r == self.spec_kind(),
    {
        &self.kind
    }

    pub fn position(&self) -> (r: Position)
        ensures
            r == self.spec_position(),
    {
        self.position
    }
}

} // verus!
