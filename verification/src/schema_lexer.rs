//! Lexer for `.geli` schema source.
//!
//! Blanks (`[ \t\r\n\f]`) separate tokens. A token is one of `{`, `}`, `:`
//! or a word `[A-Za-z_][A-Za-z0-9_]*`; the longest word is taken, and a
//! word that spells a reserved word is that keyword. Any other character
//! is an error at its position. Every token carries the byte offset, the
//! one-based line and the one-based column of its start and end.
use vstd::prelude::*;
use crate::text::{
    advance_position, byte_at, byte_len, column_at, ident_end, ident_end_exec, ident_start_char, is_alpha, is_blank,
    is_ident_continue, is_ident_start,
    lemma_ident_end, lemma_byte_at_mono, lemma_skip_blank, lemma_skip_blank_run, line_at, skip_blank, skip_blank_exec, source_chars,
    str_equal, string_of,
};

verus! {

/// Source position: byte offset plus one-based line and column.
#[derive(Debug, Clone, Copy, PartialEq, Eq, Structural)]
pub struct Position {
    pub(crate) byte: usize,
    pub(crate) line: usize,
    pub(crate) column: usize,
}

/// Half-open source span.
#[derive(Debug, Clone, Copy, PartialEq, Eq, Structural)]
pub struct Span {
    pub(crate) start: Position,
    pub(crate) end: Position,
}

/// Reserved words of the schema language.
#[derive(Debug, Clone, Copy, PartialEq, Eq, Structural)]
pub enum Keyword {
    Type,
    Property,
    Link,
    Required,
    Multi,
    Unique,
    Str,
    Int64,
    Float64,
    Bool,
    Uuid,
    DateTime,
}

/// Token categories.
#[derive(Debug, Clone, PartialEq, Eq)]
pub enum TokenKind {
    Keyword(Keyword),
    Ident(String),
    LBrace,
    RBrace,
    Colon,
}

/// A token with its source span.
#[derive(Debug, Clone, PartialEq, Eq)]
pub struct Token {
    pub(crate) kind: TokenKind,
    pub(crate) span: Span,
}

/// Lexer error category.
#[derive(Debug, Clone, Copy, PartialEq, Eq, Structural)]
pub enum LexErrorKind {
    UnexpectedChar(char),
}

/// Lexer error with its source position.
#[derive(Debug, Clone, Copy, PartialEq, Eq, Structural)]
pub struct LexError {
    pub(crate) kind: LexErrorKind,
    pub(crate) position: Position,
}

/// Mathematical value of a token kind.
pub ghost enum TokenKindView {
    Keyword(Keyword),
    Ident(Seq<char>),
    LBrace,
    RBrace,
    Colon,
}

/// Mathematical value of a token.
pub ghost struct TokenView {
    pub kind: TokenKindView,
    pub span: Span,
}

impl View for TokenKind {
    type V = TokenKindView;

    open spec fn view(&self) -> TokenKindView {
        match self {
            TokenKind::Keyword(k) => TokenKindView::Keyword(*k),
            TokenKind::Ident(s) => TokenKindView::Ident(s@),
            TokenKind::LBrace => TokenKindView::LBrace,
            TokenKind::RBrace => TokenKindView::RBrace,
            TokenKind::Colon => TokenKindView::Colon,
        }
    }
}

impl View for Token {
    type V = TokenView;

    open(crate) spec fn view(&self) -> TokenView {
        TokenView { kind: self.kind@, span: self.span }
    }
}

pub open spec fn tokens_view(s: Seq<Token>) -> Seq<TokenView> {
    s.map_values(|t: Token| t@)
}

impl Position {
    pub open(crate) spec fn spec_byte(self) -> usize {
        self.byte
    }

    pub open(crate) spec fn spec_line(self) -> usize {
        self.line
    }

    pub open(crate) spec fn spec_column(self) -> usize {
        self.column
    }
}

impl Span {
    pub open(crate) spec fn spec_start(self) -> Position {
        self.start
    }

    pub open(crate) spec fn spec_end(self) -> Position {
        self.end
    }
}

impl LexError {
    pub open(crate) spec fn spec_kind(self) -> LexErrorKind {
        self.kind
    }

    pub open(crate) spec fn spec_position(self) -> Position {
        self.position
    }
}

// ---------------------------------------------------------------------------
// The token language
// ---------------------------------------------------------------------------
/// The position of character index `j` of `s`.
pub open(crate) spec fn pos_at(s: Seq<char>, j: int) -> Position {
    Position {
        byte: byte_at(s, j) as usize,
        line: line_at(s, j) as usize,
        column: column_at(s, j) as usize,
    }
}

/// `spans` lie in order in `s` from character index `i` on: each begins
/// after a run of blanks, covers at least one character, and only blanks
/// follow the last. Every position is `pos_at` of a character index, so its
/// byte offset, line and column are those of that index.
pub open(crate) spec fn spans_placed(s: Seq<char>, spans: Seq<Span>, i: int) -> bool
    decreases spans.len(),
{
    if spans.len() == 0 {
        forall|k: int| i <= k < s.len() ==> is_blank(#[trigger] s[k])
    } else {
        exists|j: int, e: int|
            #![trigger pos_at(s, j), pos_at(s, e)]
            {
                &&& i <= j < e <= s.len()
                &&& forall|k: int| i <= k < j ==> is_blank(#[trigger] s[k])
                &&& spans[0] == Span { start: pos_at(s, j), end: pos_at(s, e) }
                &&& spans_placed(s, spans.drop_first(), e)
            }
    }
}

/// The character indices of the `k`-th span, with the spans after it
/// placed from its end.
proof fn lemma_placed_at(s: Seq<char>, spans: Seq<Span>, i: int, k: int) -> (r: (int, int))
    requires
        spans_placed(s, spans, i),
        0 <= k < spans.len(),
    ensures
        i <= r.0 < r.1 <= s.len(),
        spans[k] == (Span { start: pos_at(s, r.0), end: pos_at(s, r.1) }),
        spans_placed(s, spans.skip(k + 1), r.1),
    decreases k,
{
    let (j, e) = choose|j: int, e: int|
        #![trigger pos_at(s, j), pos_at(s, e)]
        {
            &&& i <= j < e <= s.len()
            &&& forall|k: int| i <= k < j ==> is_blank(#[trigger] s[k])
            &&& spans[0] == Span { start: pos_at(s, j), end: pos_at(s, e) }
            &&& spans_placed(s, spans.drop_first(), e)
        };
    if k == 0 {
        assert(spans.skip(1) =~= spans.drop_first());
        (j, e)
    } else {
        let r = lemma_placed_at(s, spans.drop_first(), e, k - 1);
        assert(spans.drop_first().skip(k) =~= spans.skip(k + 1));
        r
    }
}

/// In byte offsets, placed spans are non-empty, lie within the text and
/// do not overlap: each ends at or before the next begins.
pub proof fn law_placed_bytes(s: Seq<char>, spans: Seq<Span>, i: int, k: int)
    requires
        spans_placed(s, spans, i),
        0 <= i,
        0 <= k < spans.len(),
        byte_len(s) <= usize::MAX,
    ensures
        spans[k].spec_start().spec_byte() < spans[k].spec_end().spec_byte() <= byte_len(s),
        k + 1 < spans.len() ==> spans[k].spec_end().spec_byte() <= spans[k
            + 1].spec_start().spec_byte(),
{
    let (j, e) = lemma_placed_at(s, spans, i, k);
    lemma_byte_at_mono(s, j, e);
    if k + 1 < spans.len() {
        let (j2, e2) = lemma_placed_at(s, spans.skip(k + 1), e, 0);
        assert(spans.skip(k + 1)[0] == spans[k + 1]);
        lemma_byte_at_mono(s, e, j2);
    }
}

/// Spelling of each keyword.
pub open spec fn keyword_text(k: Keyword) -> Seq<char> {
    match k {
        Keyword::Type => "type"@,
        Keyword::Property => "property"@,
        Keyword::Link => "link"@,
        Keyword::Required => "required"@,
        Keyword::Multi => "multi"@,
        Keyword::Unique => "unique"@,
        Keyword::Str => "str"@,
        Keyword::Int64 => "int64"@,
        Keyword::Float64 => "float64"@,
        Keyword::Bool => "bool"@,
        Keyword::Uuid => "uuid"@,
        Keyword::DateTime => "datetime"@,
    }
}

/// The keyword spelled by `w`, if any.
pub open spec fn keyword_of(w: Seq<char>) -> Option<Keyword> {
    if w == "type"@ {
        Some(Keyword::Type)
    } else if w == "property"@ {
        Some(Keyword::Property)
    } else if w == "link"@ {
        Some(Keyword::Link)
    } else if w == "required"@ {
        Some(Keyword::Required)
    } else if w == "multi"@ {
        Some(Keyword::Multi)
    } else if w == "unique"@ {
        Some(Keyword::Unique)
    } else if w == "str"@ {
        Some(Keyword::Str)
    } else if w == "int64"@ {
        Some(Keyword::Int64)
    } else if w == "float64"@ {
        Some(Keyword::Float64)
    } else if w == "bool"@ {
        Some(Keyword::Bool)
    } else if w == "uuid"@ {
        Some(Keyword::Uuid)
    } else if w == "datetime"@ {
        Some(Keyword::DateTime)
    } else {
        None
    }
}

/// Every keyword is read back from its own spelling: the word that spells a
/// keyword is recognised as that keyword and as no other.
pub proof fn law_keyword_spelling_round_trip(k: Keyword)
    ensures
        keyword_of(keyword_text(k)) == Some(k),
{
    reveal_strlit("type");
    reveal_strlit("property");
    reveal_strlit("link");
    reveal_strlit("required");
    reveal_strlit("multi");
    reveal_strlit("unique");
    reveal_strlit("str");
    reveal_strlit("int64");
    reveal_strlit("float64");
    reveal_strlit("bool");
    reveal_strlit("uuid");
    reveal_strlit("datetime");
    match k {
        Keyword::Type => {},
        Keyword::Property => {
            assert("property"@.len() != "type"@.len());
        },
        Keyword::Link => {
            assert("link"@[0] != "type"@[0]);
            assert("link"@.len() != "property"@.len());
        },
        Keyword::Required => {
            assert("required"@.len() != "type"@.len());
            assert("required"@[0] != "property"@[0]);
            assert("required"@.len() != "link"@.len());
        },
        Keyword::Multi => {
            assert("multi"@.len() != "type"@.len());
            assert("multi"@.len() != "property"@.len());
            assert("multi"@.len() != "link"@.len());
            assert("multi"@.len() != "required"@.len());
        },
        Keyword::Unique => {
            assert("unique"@.len() != "type"@.len());
            assert("unique"@.len() != "property"@.len());
            assert("unique"@.len() != "link"@.len());
            assert("unique"@.len() != "required"@.len());
            assert("unique"@.len() != "multi"@.len());
        },
        Keyword::Str => {
            assert("str"@.len() != "type"@.len());
            assert("str"@.len() != "property"@.len());
            assert("str"@.len() != "link"@.len());
            assert("str"@.len() != "required"@.len());
            assert("str"@.len() != "multi"@.len());
            assert("str"@.len() != "unique"@.len());
        },
        Keyword::Int64 => {
            assert("int64"@.len() != "type"@.len());
            assert("int64"@.len() != "property"@.len());
            assert("int64"@.len() != "link"@.len());
            assert("int64"@.len() != "required"@.len());
            assert("int64"@[0] != "multi"@[0]);
            assert("int64"@.len() != "unique"@.len());
            assert("int64"@.len() != "str"@.len());
        },
        Keyword::Float64 => {
            assert("float64"@.len() != "type"@.len());
            assert("float64"@.len() != "property"@.len());
            assert("float64"@.len() != "link"@.len());
            assert("float64"@.len() != "required"@.len());
            assert("float64"@.len() != "multi"@.len());
            assert("float64"@.len() != "unique"@.len());
            assert("float64"@.len() != "str"@.len());
            assert("float64"@.len() != "int64"@.len());
        },
        Keyword::Bool => {
            assert("bool"@[0] != "type"@[0]);
            assert("bool"@.len() != "property"@.len());
            assert("bool"@[0] != "link"@[0]);
            assert("bool"@.len() != "required"@.len());
            assert("bool"@.len() != "multi"@.len());
            assert("bool"@.len() != "unique"@.len());
            assert("bool"@.len() != "str"@.len());
            assert("bool"@.len() != "int64"@.len());
            assert("bool"@.len() != "float64"@.len());
        },
        Keyword::Uuid => {
            assert("uuid"@[0] != "type"@[0]);
            assert("uuid"@.len() != "property"@.len());
            assert("uuid"@[0] != "link"@[0]);
            assert("uuid"@.len() != "required"@.len());
            assert("uuid"@.len() != "multi"@.len());
            assert("uuid"@.len() != "unique"@.len());
            assert("uuid"@.len() != "str"@.len());
            assert("uuid"@.len() != "int64"@.len());
            assert("uuid"@.len() != "float64"@.len());
            assert("uuid"@[0] != "bool"@[0]);
        },
        Keyword::DateTime => {
            assert("datetime"@.len() != "type"@.len());
            assert("datetime"@[0] != "property"@[0]);
            assert("datetime"@.len() != "link"@.len());
            assert("datetime"@[0] != "required"@[0]);
            assert("datetime"@.len() != "multi"@.len());
            assert("datetime"@.len() != "unique"@.len());
            assert("datetime"@.len() != "str"@.len());
            assert("datetime"@.len() != "int64"@.len());
            assert("datetime"@.len() != "float64"@.len());
            assert("datetime"@.len() != "bool"@.len());
            assert("datetime"@.len() != "uuid"@.len());
        },
    }
}

/// The token kind of the word `w`: a keyword, or an identifier.
pub open spec fn word_kind(w: Seq<char>) -> TokenKindView {
    match keyword_of(w) {
        Some(k) => TokenKindView::Keyword(k),
        None => TokenKindView::Ident(w),
    }
}

/// End of the token that starts at `j`, or `j` when no token starts there.
pub open spec fn token_end(s: Seq<char>, j: int) -> int {
    let c = s[j];
    if c == '{' || c == '}' || c == ':' {
        j + 1
    } else if is_ident_start(c) {
        ident_end(s, j + 1)
    } else {
        j
    }
}

/// The token spanning `s[j..end]`.
pub open(crate) spec fn token_at(s: Seq<char>, j: int, end: int) -> TokenView {
    let c = s[j];
    TokenView {
        kind: if c == '{' {
            TokenKindView::LBrace
        } else if c == '}' {
            TokenKindView::RBrace
        } else if c == ':' {
            TokenKindView::Colon
        } else {
            word_kind(s.subrange(j, end))
        },
        span: Span { start: pos_at(s, j), end: pos_at(s, end) },
    }
}

/// The tokens of `s` from index `i` on, or the first lexical error.
pub open(crate) spec fn lex_from(s: Seq<char>, i: int) -> Result<Seq<TokenView>, LexError>
    decreases s.len() - i,
{
    if i < 0 || i > s.len() {
        Ok(seq![])
    } else {
        let j = skip_blank(s, i);
        if j >= s.len() {
            Ok(seq![])
        } else {
            let end = token_end(s, j);
            if end <= j {
                Err(
                    LexError {
                        kind: LexErrorKind::UnexpectedChar(s[j]),
                        position: pos_at(s, j),
                    },
                )
            } else {
                proof {
                    lemma_skip_blank(s, i);
                    lemma_ident_end(s, j + 1);
                }
                match lex_from(s, end) {
                    Ok(rest) => Ok(seq![token_at(s, j, end)] + rest),
                    Err(e) => Err(e),
                }
            }
        }
    }
}

/// Every token covers at least one character.
pub proof fn lemma_lex_count(s: Seq<char>, i: int)
    requires
        0 <= i <= s.len(),
    ensures
        lex_from(s, i) matches Ok(ts) ==> ts.len() <= s.len() - i,
    decreases s.len() - i,
{
    lemma_skip_blank(s, i);
    let j = skip_blank(s, i);
    if j < s.len() {
        lemma_ident_end(s, j + 1);
        let end = token_end(s, j);
        if end > j {
            lemma_lex_count(s, end);
        }
    }
}

proof fn lemma_ident_end_whole(s: Seq<char>, i: int)
    requires
        0 <= i <= s.len(),
        forall|k: int| 0 <= k < s.len() ==> is_ident_continue(#[trigger] s[k]),
    ensures
        ident_end(s, i) == s.len(),
    decreases s.len() - i,
{
    if i < s.len() {
        lemma_ident_end_whole(s, i + 1);
    }
}

/// A word of identifier characters that starts with a letter lexes as one
/// token spanning all of it.
proof fn lemma_word_lexes(s: Seq<char>)
    requires
        s.len() > 0,
        is_alpha(s[0]),
        forall|k: int| 0 <= k < s.len() ==> is_ident_continue(#[trigger] s[k]),
    ensures
        lex_spec(s) == Ok::<Seq<TokenView>, LexError>(
            seq![TokenView { kind: word_kind(s), span: Span { start: pos_at(s, 0), end: pos_at(s, s.len() as int) } }],
        ),
{
    lemma_ident_end_whole(s, 1);
    assert(skip_blank(s, 0) == 0);
    assert(skip_blank(s, s.len() as int) == s.len());
    assert(lex_from(s, s.len() as int) == Ok::<Seq<TokenView>, LexError>(seq![]));
    assert(s.subrange(0, s.len() as int) =~= s);
    assert(seq![TokenView { kind: word_kind(s), span: Span { start: pos_at(s, 0), end: pos_at(s, s.len() as int) } }] + Seq::<TokenView>::empty() =~= seq![TokenView { kind: word_kind(s), span: Span { start: pos_at(s, 0), end: pos_at(s, s.len() as int) } }]);
}

/// Lexing a keyword's spelling gives exactly that keyword, as one token
/// spanning the whole text.
pub proof fn law_keyword_text_lexes_as_keyword(k: Keyword)
    ensures
        lex_spec(keyword_text(k)) matches Ok(ts) && ts.len() == 1 && ts[0].kind
            == TokenKindView::Keyword(k) && ts[0].span.spec_start() == pos_at(keyword_text(k), 0)
            && ts[0].span.spec_end() == pos_at(keyword_text(k), keyword_text(k).len() as int),
        pos_at(keyword_text(k), 0).spec_byte() == 0,
        pos_at(keyword_text(k), keyword_text(k).len() as int).spec_byte() == keyword_text(k).len(),
{
    law_keyword_spelling_round_trip(k);
    assert(keyword_text(k).take(0) =~= Seq::<char>::empty());
    assert(keyword_text(k).take(keyword_text(k).len() as int) =~= keyword_text(k));
    reveal_strlit("type");
    reveal_strlit("property");
    reveal_strlit("link");
    reveal_strlit("required");
    reveal_strlit("multi");
    reveal_strlit("unique");
    reveal_strlit("str");
    reveal_strlit("int64");
    reveal_strlit("float64");
    reveal_strlit("bool");
    reveal_strlit("uuid");
    reveal_strlit("datetime");
    match k {
        Keyword::Type => {
            let s = "type"@;
            assert(s[0] == 't');
            assert(s[1] == 'y');
            assert(s[2] == 'p');
            assert(s[3] == 'e');
            assert forall|i: int| 0 <= i < s.len() implies is_ident_continue(#[trigger] s[i]) by { if i == 0 {} else if i == 1 {} else if i == 2 {} else if i == 3 {} }
            lemma_word_lexes(s);
            crate::text::lemma_byte_len_ident(s);
        },
        Keyword::Property => {
            let s = "property"@;
            assert(s[0] == 'p');
            assert(s[1] == 'r');
            assert(s[2] == 'o');
            assert(s[3] == 'p');
            assert(s[4] == 'e');
            assert(s[5] == 'r');
            assert(s[6] == 't');
            assert(s[7] == 'y');
            assert forall|i: int| 0 <= i < s.len() implies is_ident_continue(#[trigger] s[i]) by { if i == 0 {} else if i == 1 {} else if i == 2 {} else if i == 3 {} else if i == 4 {} else if i == 5 {} else if i == 6 {} else if i == 7 {} }
            lemma_word_lexes(s);
            crate::text::lemma_byte_len_ident(s);
        },
        Keyword::Link => {
            let s = "link"@;
            assert(s[0] == 'l');
            assert(s[1] == 'i');
            assert(s[2] == 'n');
            assert(s[3] == 'k');
            assert forall|i: int| 0 <= i < s.len() implies is_ident_continue(#[trigger] s[i]) by { if i == 0 {} else if i == 1 {} else if i == 2 {} else if i == 3 {} }
            lemma_word_lexes(s);
            crate::text::lemma_byte_len_ident(s);
        },
        Keyword::Required => {
            let s = "required"@;
            assert(s[0] == 'r');
            assert(s[1] == 'e');
            assert(s[2] == 'q');
            assert(s[3] == 'u');
            assert(s[4] == 'i');
            assert(s[5] == 'r');
            assert(s[6] == 'e');
            assert(s[7] == 'd');
            assert forall|i: int| 0 <= i < s.len() implies is_ident_continue(#[trigger] s[i]) by { if i == 0 {} else if i == 1 {} else if i == 2 {} else if i == 3 {} else if i == 4 {} else if i == 5 {} else if i == 6 {} else if i == 7 {} }
            lemma_word_lexes(s);
            crate::text::lemma_byte_len_ident(s);
        },
        Keyword::Multi => {
            let s = "multi"@;
            assert(s[0] == 'm');
            assert(s[1] == 'u');
            assert(s[2] == 'l');
            assert(s[3] == 't');
            assert(s[4] == 'i');
            assert forall|i: int| 0 <= i < s.len() implies is_ident_continue(#[trigger] s[i]) by { if i == 0 {} else if i == 1 {} else if i == 2 {} else if i == 3 {} else if i == 4 {} }
            lemma_word_lexes(s);
            crate::text::lemma_byte_len_ident(s);
        },
        Keyword::Unique => {
            let s = "unique"@;
            assert(s[0] == 'u');
            assert(s[1] == 'n');
            assert(s[2] == 'i');
            assert(s[3] == 'q');
            assert(s[4] == 'u');
            assert(s[5] == 'e');
            assert forall|i: int| 0 <= i < s.len() implies is_ident_continue(#[trigger] s[i]) by { if i == 0 {} else if i == 1 {} else if i == 2 {} else if i == 3 {} else if i == 4 {} else if i == 5 {} }
            lemma_word_lexes(s);
            crate::text::lemma_byte_len_ident(s);
        },
        Keyword::Str => {
            let s = "str"@;
            assert(s[0] == 's');
            assert(s[1] == 't');
            assert(s[2] == 'r');
            assert forall|i: int| 0 <= i < s.len() implies is_ident_continue(#[trigger] s[i]) by { if i == 0 {} else if i == 1 {} else if i == 2 {} }
            lemma_word_lexes(s);
            crate::text::lemma_byte_len_ident(s);
        },
        Keyword::Int64 => {
            let s = "int64"@;
            assert(s[0] == 'i');
            assert(s[1] == 'n');
            assert(s[2] == 't');
            assert(s[3] == '6');
            assert(s[4] == '4');
            assert forall|i: int| 0 <= i < s.len() implies is_ident_continue(#[trigger] s[i]) by { if i == 0 {} else if i == 1 {} else if i == 2 {} else if i == 3 {} else if i == 4 {} }
            lemma_word_lexes(s);
            crate::text::lemma_byte_len_ident(s);
        },
        Keyword::Float64 => {
            let s = "float64"@;
            assert(s[0] == 'f');
            assert(s[1] == 'l');
            assert(s[2] == 'o');
            assert(s[3] == 'a');
            assert(s[4] == 't');
            assert(s[5] == '6');
            assert(s[6] == '4');
            assert forall|i: int| 0 <= i < s.len() implies is_ident_continue(#[trigger] s[i]) by { if i == 0 {} else if i == 1 {} else if i == 2 {} else if i == 3 {} else if i == 4 {} else if i == 5 {} else if i == 6 {} }
            lemma_word_lexes(s);
            crate::text::lemma_byte_len_ident(s);
        },
        Keyword::Bool => {
            let s = "bool"@;
            assert(s[0] == 'b');
            assert(s[1] == 'o');
            assert(s[2] == 'o');
            assert(s[3] == 'l');
            assert forall|i: int| 0 <= i < s.len() implies is_ident_continue(#[trigger] s[i]) by { if i == 0 {} else if i == 1 {} else if i == 2 {} else if i == 3 {} }
            lemma_word_lexes(s);
            crate::text::lemma_byte_len_ident(s);
        },
        Keyword::Uuid => {
            let s = "uuid"@;
            assert(s[0] == 'u');
            assert(s[1] == 'u');
            assert(s[2] == 'i');
            assert(s[3] == 'd');
            assert forall|i: int| 0 <= i < s.len() implies is_ident_continue(#[trigger] s[i]) by { if i == 0 {} else if i == 1 {} else if i == 2 {} else if i == 3 {} }
            lemma_word_lexes(s);
            crate::text::lemma_byte_len_ident(s);
        },
        Keyword::DateTime => {
            let s = "datetime"@;
            assert(s[0] == 'd');
            assert(s[1] == 'a');
            assert(s[2] == 't');
            assert(s[3] == 'e');
            assert(s[4] == 't');
            assert(s[5] == 'i');
            assert(s[6] == 'm');
            assert(s[7] == 'e');
            assert forall|i: int| 0 <= i < s.len() implies is_ident_continue(#[trigger] s[i]) by { if i == 0 {} else if i == 1 {} else if i == 2 {} else if i == 3 {} else if i == 4 {} else if i == 5 {} else if i == 6 {} else if i == 7 {} }
            lemma_word_lexes(s);
            crate::text::lemma_byte_len_ident(s);
        },
    }
}

/// The tokens of a whole source text.
pub open(crate) spec fn lex_spec(s: Seq<char>) -> Result<Seq<TokenView>, LexError> {
    lex_from(s, 0)
}

/// The spans of `ts`, in order.
pub open spec fn spans_of(ts: Seq<TokenView>) -> Seq<Span> {
    ts.map_values(|t: TokenView| t.span)
}

proof fn lemma_lex_placed(s: Seq<char>, i: int)
    requires
        0 <= i <= s.len(),
    ensures
        lex_from(s, i) matches Ok(ts) ==> spans_placed(s, spans_of(ts), i),
    decreases s.len() - i,
{
    lemma_skip_blank(s, i);
    lemma_skip_blank_run(s, i);
    let j = skip_blank(s, i);
    if j < s.len() {
        lemma_ident_end(s, j + 1);
        let end = token_end(s, j);
        if end > j {
            lemma_lex_placed(s, end);
            if let Ok(rest) = lex_from(s, end) {
                let ts = seq![token_at(s, j, end)] + rest;
                assert(spans_of(ts).drop_first() =~= spans_of(rest));
                assert(spans_of(ts)[0] == Span { start: pos_at(s, j), end: pos_at(s, end) });
            }
        }
    }
}

/// The tokens of a source text lie in order in it: each after blanks, each
/// at least one character long, with only blanks after the last, and each
/// position is the byte offset, line and column of a character index.
pub proof fn law_lex_spans(s: Seq<char>)
    ensures
        lex_spec(s) matches Ok(ts) ==> spans_placed(s, spans_of(ts), 0),
{
    lemma_lex_placed(s, 0);
}

/// In byte offsets, every token is non-empty and lies within the text, and
/// each ends at or before the next begins.
pub proof fn law_lex_span_bytes(s: Seq<char>, k: int)
    requires
        byte_len(s) <= usize::MAX,
    ensures
        lex_spec(s) matches Ok(ts) ==> (0 <= k < ts.len() ==> {
            &&& ts[k].span.spec_start().spec_byte() < ts[k].span.spec_end().spec_byte() <= byte_len(s)
            &&& k + 1 < ts.len() ==> ts[k].span.spec_end().spec_byte() <= ts[k
                + 1].span.spec_start().spec_byte()
        }),
{
    lemma_lex_placed(s, 0);
    if let Ok(ts) = lex_spec(s) {
        if 0 <= k < ts.len() {
            law_placed_bytes(s, spans_of(ts), 0, k);
            assert(spans_of(ts)[k] == ts[k].span);
            if k + 1 < ts.len() {
                assert(spans_of(ts)[k + 1] == ts[k + 1].span);
            }
        }
    }
}

pub open spec fn lex_view(r: Result<Vec<Token>, LexError>) -> Result<Seq<TokenView>, LexError> {
    match r {
        Ok(ts) => Ok(tokens_view(ts@)),
        Err(e) => Err(e),
    }
}

/// `done` followed by the outcome `rest`.
pub open spec fn after_tokens(
    done: Seq<TokenView>,
    rest: Result<Seq<TokenView>, LexError>,
) -> Result<Seq<TokenView>, LexError> {
    match rest {
        Ok(r) => Ok(done + r),
        Err(e) => Err(e),
    }
}

// ---------------------------------------------------------------------------
// Lexer
// ---------------------------------------------------------------------------
fn keyword_for(word: &str) -> (r: Option<Keyword>)
    ensures
        r == keyword_of(word@),
{
    if str_equal(word, "type") {
        Some(Keyword::Type)
    } else if str_equal(word, "property") {
        Some(Keyword::Property)
    } else if str_equal(word, "link") {
        Some(Keyword::Link)
    } else if str_equal(word, "required") {
        Some(Keyword::Required)
    } else if str_equal(word, "multi") {
        Some(Keyword::Multi)
    } else if str_equal(word, "unique") {
        Some(Keyword::Unique)
    } else if str_equal(word, "str") {
        Some(Keyword::Str)
    } else if str_equal(word, "int64") {
        Some(Keyword::Int64)
    } else if str_equal(word, "float64") {
        Some(Keyword::Float64)
    } else if str_equal(word, "bool") {
        Some(Keyword::Bool)
    } else if str_equal(word, "uuid") {
        Some(Keyword::Uuid)
    } else if str_equal(word, "datetime") {
        Some(Keyword::DateTime)
    } else {
        None
    }
}

/// Tokenizes schema source, attaching byte, line and column spans; fails at
/// the first character that starts no token.
pub fn lex(input: &str) -> (r: Result<Vec<Token>, LexError>)
    requires
        input@.len() < usize::MAX,
    ensures
        lex_view(r) == lex_spec(input@),
        r matches Ok(ts) ==> ts@.len() <= input@.len(),
{
    proof {
        lemma_lex_count(input@, 0);
    }
    let chars = source_chars(input);
    let ghost s = input@;
    let mut tokens: Vec<Token> = Vec::new();
    let mut i: usize = 0;
    let mut position: (usize, usize, usize) = (0, 1, 1);
    proof {
        assert(s.take(0) =~= Seq::<char>::empty());
        assert(tokens_view(tokens@) =~= seq![]);
        assert(after_tokens(tokens_view(tokens@), lex_from(s, 0)) =~= lex_from(s, 0));
    }
    while i < chars.len()
        invariant
            chars@ == s,
            s == input@,
            s.len() < usize::MAX,
            crate::text::byte_len(s) <= usize::MAX,
            i <= chars.len(),
            position.0 == byte_at(s, i as int),
            position.1 == line_at(s, i as int),
            position.2 == column_at(s, i as int),
            lex_spec(s) == after_tokens(tokens_view(tokens@), lex_from(s, i as int)),
            lex_from(s, 0) matches Ok(ts) ==> ts.len() <= s.len(),
        decreases chars.len() - i,
    {
        let j = skip_blank_exec(&chars, i);
        proof {
            lemma_skip_blank(s, i as int);
        }
        let start = advance_position(&chars, i, j, position.0, position.1, position.2);
        if j >= chars.len() {
            proof {
                assert(lex_from(s, i as int) == Ok::<Seq<TokenView>, LexError>(seq![]));
                assert(tokens_view(tokens@) + seq![] =~= tokens_view(tokens@));
                assert(tokens_view(tokens@).len() == tokens@.len());
            }
            return Ok(tokens);
        }
        let c = chars[j];
        let end: usize = if c == '{' || c == '}' || c == ':' {
            j + 1
        } else if ident_start_char(c) {
            proof {
                lemma_ident_end(s, j + 1);
            }
            ident_end_exec(&chars, j + 1)
        } else {
            j
        };
        assert(end == token_end(s, j as int));
        if end <= j {
            return Err(
                LexError {
                    kind: LexErrorKind::UnexpectedChar(c),
                    position: Position { byte: start.0, line: start.1, column: start.2 },
                },
            );
        }
        let kind = if c == '{' {
            TokenKind::LBrace
        } else if c == '}' {
            TokenKind::RBrace
        } else if c == ':' {
            TokenKind::Colon
        } else {
            let word = string_of(&chars, j, end);
            match keyword_for(word.as_str()) {
                Some(k) => TokenKind::Keyword(k),
                None => TokenKind::Ident(word),
            }
        };
        let finish = advance_position(&chars, j, end, start.0, start.1, start.2);
        let token = Token {
            kind,
            span: Span {
                start: Position { byte: start.0, line: start.1, column: start.2 },
                end: Position { byte: finish.0, line: finish.1, column: finish.2 },
            },
        };
        let ghost before = tokens@;
        proof {
            assert(token@ == token_at(s, j as int, end as int));
        }
        tokens.push(token);
        proof {
            assert(tokens_view(tokens@) =~= tokens_view(before).push(token@));
            match lex_from(s, end as int) {
                Ok(rest) => {
                    assert(tokens_view(before) + (seq![token@] + rest) =~= tokens_view(tokens@)
                        + rest);
                },
                Err(e) => {},
            }
        }
        i = end;
        position = finish;
    }
    proof {
        assert(lex_from(s, i as int) == Ok::<Seq<TokenView>, LexError>(seq![]));
        assert(tokens_view(tokens@) + seq![] =~= tokens_view(tokens@));
        assert(tokens_view(tokens@).len() == tokens@.len());
    }
    Ok(tokens)
}

// ---------------------------------------------------------------------------
// Accessors
// ---------------------------------------------------------------------------
impl Token {
    pub fn kind(&self) -> (r: &TokenKind)
        ensures
            r@ == self@.kind,
    {
        &self.kind
    }

    pub fn span(&self) -> (r: Span)
        ensures
            r == self@.span,
    {
        self.span
    }
}

impl Keyword {
    /// The keyword's spelling in schema source.
    pub fn as_str(&self) -> (r: &'static str)
        ensures
            r@ == keyword_text(*self),
    {
        match self {
            Keyword::Type => "type",
            Keyword::Property => "property",
            Keyword::Link => "link",
            Keyword::Required => "required",
            Keyword::Multi => "multi",
            Keyword::Unique => "unique",
            Keyword::Str => "str",
            Keyword::Int64 => "int64",
            Keyword::Float64 => "float64",
            Keyword::Bool => "bool",
            Keyword::Uuid => "uuid",
            Keyword::DateTime => "datetime",
        }
    }
}

impl Span {
    pub fn start(&self) -> (r: Position)
        ensures
            r == self.spec_start(),
    {
        self.start
    }

    pub fn end(&self) -> (r: Position)
        ensures
            r == self.spec_end(),
    {
        self.end
    }
}

impl Position {
    pub fn byte(&self) -> (r: usize)
        ensures
            r == self.spec_byte(),
    {
        self.byte
    }

    pub fn line(&self) -> (r: usize)
        ensures
            r == self.spec_line(),
    {
        self.line
    }

    pub fn column(&self) -> (r: usize)
        ensures
            r == self.spec_column(),
    {
        self.column
    }
}

impl LexError {
    pub fn kind(&self) -> (r: &LexErrorKind)
        ensures
            *r == self.spec_kind(),
    {
        &self.kind
    }

    pub fn position(&self) -> (r: Position)
        ensures
            r == self.spec_position(),
    {
        self.position
    }
}

} // verus!
