//! Parser for `.geli` schema source.
//!
//! A schema is a sequence of `type Name { fields }` declarations. A field is
//! `[modifiers] [property] name: scalar` or `[modifiers] link name: Target`,
//! where the modifiers `required`, `multi` and `unique` may each appear once,
//! in any order. `required multi` is no cardinality, `multi` only applies to
//! links and `unique` only to scalar fields. The parser checks the syntax;
//! catalog rules are checked by [`SchemaCatalog::try_new`].
use vstd::prelude::*;
use crate::schema::{
    Cardinality, Field, LinkField, ObjectType, ScalarField, ScalarType, SchemaCatalog, SchemaError,
    SingleCardinality, Uniqueness, reported_error, valid_catalog,
};
use crate::schema_lexer::{
    Keyword, LexError, Span, Token, TokenKind, TokenKindView, TokenView, keyword_text, lex,
    lex_spec, tokens_view,
};

verus! {

/// Parser error category.
#[derive(Debug, Clone, PartialEq, Eq)]
pub enum ParseErrorKind {
    Lex(LexError),
    UnexpectedEof { expected: &'static str },
    UnexpectedToken { expected: &'static str },
    DuplicateModifier { modifier: &'static str },
    IncompatibleModifiers { message: &'static str },
    InvalidCatalog(SchemaError),
}

/// Parser error with an optional source span.
#[derive(Debug, Clone, PartialEq, Eq)]
pub struct ParseError {
    pub(crate) kind: ParseErrorKind,
    pub(crate) span: Option<Span>,
}

/// The modifiers seen before a field declaration.
#[derive(Clone, Copy, Structural, PartialEq, Eq)]
pub struct ModifierSet {
    pub required: bool,
    pub multi: bool,
    pub unique: bool,
}

/// Mathematical value of a parse error category.
pub ghost enum ParseErrorKindView {
    Lex(LexError),
    UnexpectedEof(Seq<char>),
    UnexpectedToken(Seq<char>),
    DuplicateModifier(Seq<char>),
    IncompatibleModifiers(Seq<char>),
    InvalidCatalog(SchemaError),
}

/// Mathematical value of a parse error.
pub ghost struct ParseErrorView {
    pub kind: ParseErrorKindView,
    pub span: Option<Span>,
}

impl View for ParseErrorKind {
    type V = ParseErrorKindView;

    open spec fn view(&self) -> ParseErrorKindView {
        match self {
            ParseErrorKind::Lex(e) => ParseErrorKindView::Lex(*e),
            ParseErrorKind::UnexpectedEof { expected } => ParseErrorKindView::UnexpectedEof(
                expected@,
            ),
            ParseErrorKind::UnexpectedToken { expected } => ParseErrorKindView::UnexpectedToken(
                expected@,
            ),
            ParseErrorKind::DuplicateModifier { modifier } => ParseErrorKindView::DuplicateModifier(
                modifier@,
            ),
            ParseErrorKind::IncompatibleModifiers { message } =>
                ParseErrorKindView::IncompatibleModifiers(message@),
            ParseErrorKind::InvalidCatalog(e) => ParseErrorKindView::InvalidCatalog(*e),
        }
    }
}

impl View for ParseError {
    type V = ParseErrorView;

    open(crate) spec fn view(&self) -> ParseErrorView {
        ParseErrorView { kind: self.kind@, span: self.span }
    }
}

/// A declared field as written in schema source.
pub ghost enum FieldDeclKind {
    Scalar(ScalarType, SingleCardinality, Uniqueness),
    Link(Seq<char>, Cardinality),
}

pub ghost struct FieldDecl {
    pub name: Seq<char>,
    pub kind: FieldDeclKind,
}

/// An object type declaration as written in schema source.
pub ghost struct TypeDecl {
    pub name: Seq<char>,
    pub fields: Seq<FieldDecl>,
}

/// The declaration that a schema field stands for.
pub open(crate) spec fn decl_of(f: Field) -> FieldDecl {
    match f {
        Field::Scalar(s) => FieldDecl {
            name: s.spec_name(),
            kind: FieldDeclKind::Scalar(s.spec_scalar_type(), s.spec_cardinality(), s.spec_uniqueness()),
        },
        Field::Link(l) => FieldDecl {
            name: l.spec_name(),
            kind: FieldDeclKind::Link(l.spec_target(), l.spec_cardinality()),
        },
    }
}

pub open(crate) spec fn decls_of(fields: Seq<Field>) -> Seq<FieldDecl> {
    fields.map_values(|f: Field| decl_of(f))
}

pub open(crate) spec fn type_decl_of(t: ObjectType) -> TypeDecl {
    TypeDecl { name: t.spec_name(), fields: decls_of(t.spec_declared()) }
}

pub open(crate) spec fn type_decls_of(types: Seq<ObjectType>) -> Seq<TypeDecl> {
    types.map_values(|t: ObjectType| type_decl_of(t))
}

// ---------------------------------------------------------------------------
// The grammar, over token sequences
// ---------------------------------------------------------------------------
pub open spec fn kind_at(ts: Seq<TokenView>, i: int) -> Option<TokenKindView> {
    if 0 <= i < ts.len() {
        Some(ts[i].kind)
    } else {
        None
    }
}

pub open spec fn span_at(ts: Seq<TokenView>, i: int) -> Option<Span> {
    if 0 <= i < ts.len() {
        Some(ts[i].span)
    } else {
        None
    }
}

/// The error for finding something other than `expected` at `i`.
pub open spec fn unexpected(ts: Seq<TokenView>, i: int, expected: Seq<char>) -> ParseErrorView {
    if 0 <= i < ts.len() {
        ParseErrorView {
            kind: ParseErrorKindView::UnexpectedToken(expected),
            span: Some(ts[i].span),
        }
    } else {
        ParseErrorView { kind: ParseErrorKindView::UnexpectedEof(expected), span: None }
    }
}

/// Consumes the token `want`, spelled `text` in messages.
pub open spec fn expect_spec(ts: Seq<TokenView>, i: int, want: TokenKindView, text: Seq<char>) -> Result<
    int,
    ParseErrorView,
> {
    if kind_at(ts, i) == Some(want) {
        Ok(i + 1)
    } else {
        Err(unexpected(ts, i, text))
    }
}

pub open spec fn ident_spec(ts: Seq<TokenView>, i: int) -> Result<(Seq<char>, int), ParseErrorView> {
    match kind_at(ts, i) {
        Some(TokenKindView::Ident(name)) => Ok((name, i + 1)),
        _ => Err(unexpected(ts, i, "IDENT"@)),
    }
}

pub open spec fn scalar_type_of(k: Keyword) -> Option<ScalarType> {
    match k {
        Keyword::Str => Some(ScalarType::Str),
        Keyword::Int64 => Some(ScalarType::Int64),
        Keyword::Float64 => Some(ScalarType::Float64),
        Keyword::Bool => Some(ScalarType::Bool),
        Keyword::Uuid => Some(ScalarType::Uuid),
        Keyword::DateTime => Some(ScalarType::DateTime),
        _ => None,
    }
}

pub open spec fn scalar_type_spec(ts: Seq<TokenView>, i: int) -> Result<
    (ScalarType, int),
    ParseErrorView,
> {
    match kind_at(ts, i) {
        Some(TokenKindView::Keyword(k)) => match scalar_type_of(k) {
            Some(t) => Ok((t, i + 1)),
            None => Err(unexpected(ts, i, "scalar type"@)),
        },
        _ => Err(unexpected(ts, i, "scalar type"@)),
    }
}

pub open spec fn duplicate(ts: Seq<TokenView>, i: int, modifier: Seq<char>) -> ParseErrorView {
    ParseErrorView {
        kind: ParseErrorKindView::DuplicateModifier(modifier),
        span: Some(ts[i].span),
    }
}

/// Reads the modifiers starting at `i`, on top of those already in `m`.
pub open spec fn modifiers_spec(ts: Seq<TokenView>, i: int, m: ModifierSet) -> Result<
    (ModifierSet, int),
    ParseErrorView,
>
    decreases ts.len() - i,
{
    if i < 0 || i >= ts.len() {
        Ok((m, i))
    } else {
        match ts[i].kind {
            TokenKindView::Keyword(Keyword::Required) => if m.required {
                Err(duplicate(ts, i, "required"@))
            } else {
                modifiers_spec(ts, i + 1, ModifierSet { required: true, ..m })
            },
            TokenKindView::Keyword(Keyword::Multi) => if m.multi {
                Err(duplicate(ts, i, "multi"@))
            } else {
                modifiers_spec(ts, i + 1, ModifierSet { multi: true, ..m })
            },
            TokenKindView::Keyword(Keyword::Unique) => if m.unique {
                Err(duplicate(ts, i, "unique"@))
            } else {
                modifiers_spec(ts, i + 1, ModifierSet { unique: true, ..m })
            },
            _ => Ok((m, i)),
        }
    }
}

pub open spec fn incompatible(ts: Seq<TokenView>, i: int, message: Seq<char>) -> ParseErrorView {
    ParseErrorView {
        kind: ParseErrorKindView::IncompatibleModifiers(message),
        span: span_at(ts, i),
    }
}

/// `name: scalar` at `i`, with modifiers `m`.
pub open spec fn scalar_field_spec(ts: Seq<TokenView>, i: int, m: ModifierSet) -> Result<
    (FieldDecl, int),
    ParseErrorView,
> {
    if m.multi {
        Err(incompatible(ts, i, "`multi` is only valid on link fields"@))
    } else {
        match ident_spec(ts, i) {
            Err(e) => Err(e),
            Ok((name, j)) => match expect_spec(ts, j, TokenKindView::Colon, ":"@) {
                Err(e) => Err(e),
                Ok(k) => match scalar_type_spec(ts, k) {
                    Err(e) => Err(e),
                    Ok((t, n)) => Ok(
                        (
                            FieldDecl {
                                name,
                                kind: FieldDeclKind::Scalar(
                                    t,
                                    if m.required {
                                        SingleCardinality::Required
                                    } else {
                                        SingleCardinality::Optional
                                    },
                                    if m.unique {
                                        Uniqueness::Unique
                                    } else {
                                        Uniqueness::NotUnique
                                    },
                                ),
                            },
                            n,
                        ),
                    ),
                },
            },
        }
    }
}

/// `link name: Target` at `i`, with modifiers `m`.
pub open spec fn link_field_spec(ts: Seq<TokenView>, i: int, m: ModifierSet) -> Result<
    (FieldDecl, int),
    ParseErrorView,
> {
    if m.unique {
        Err(incompatible(ts, i, "`unique` is only valid on scalar fields"@))
    } else {
        match expect_spec(ts, i, TokenKindView::Keyword(Keyword::Link), "link"@) {
            Err(e) => Err(e),
            Ok(j) => match ident_spec(ts, j) {
                Err(e) => Err(e),
                Ok((name, k)) => match expect_spec(ts, k, TokenKindView::Colon, ":"@) {
                    Err(e) => Err(e),
                    Ok(l) => match ident_spec(ts, l) {
                        Err(e) => Err(e),
                        Ok((target, n)) => Ok(
                            (
                                FieldDecl {
                                    name,
                                    kind: FieldDeclKind::Link(
                                        target,
                                        if m.multi {
                                            Cardinality::Many
                                        } else if m.required {
                                            Cardinality::Required
                                        } else {
                                            Cardinality::Optional
                                        },
                                    ),
                                },
                                n,
                            ),
                        ),
                    },
                },
            },
        }
    }
}

pub open spec fn no_modifiers() -> ModifierSet {
    ModifierSet { required: false, multi: false, unique: false }
}

/// One field declaration at `i`.
pub open spec fn field_spec(ts: Seq<TokenView>, i: int) -> Result<(FieldDecl, int), ParseErrorView> {
    match modifiers_spec(ts, i, no_modifiers()) {
        Err(e) => Err(e),
        Ok((m, j)) => if m.required && m.multi {
            Err(incompatible(ts, j, "`required multi` is not a valid cardinality"@))
        } else {
            match kind_at(ts, j) {
                Some(TokenKindView::Keyword(Keyword::Link)) => link_field_spec(ts, j, m),
                Some(TokenKindView::Keyword(Keyword::Property)) => scalar_field_spec(ts, j + 1, m),
                Some(_) => scalar_field_spec(ts, j, m),
                None => Err(
                    ParseErrorView {
                        kind: ParseErrorKindView::UnexpectedEof("field declaration"@),
                        span: None,
                    },
                ),
            }
        },
    }
}

pub proof fn lemma_modifiers_advance(ts: Seq<TokenView>, i: int, m: ModifierSet)
    requires
        0 <= i,
    ensures
        modifiers_spec(ts, i, m) matches Ok((_, j)) ==> i <= j,
    decreases ts.len() - i,
{
    if 0 <= i < ts.len() {
        lemma_modifiers_advance(ts, i + 1, ModifierSet { required: true, ..m });
        lemma_modifiers_advance(ts, i + 1, ModifierSet { multi: true, ..m });
        lemma_modifiers_advance(ts, i + 1, ModifierSet { unique: true, ..m });
    }
}

pub proof fn lemma_field_advances(ts: Seq<TokenView>, i: int)
    requires
        0 <= i,
    ensures
        field_spec(ts, i) matches Ok((_, j)) ==> i < j <= ts.len(),
{
    lemma_modifiers_advance(ts, i, no_modifiers());
}

/// Every parsed field agrees with the modifiers written before it as
/// `modifiers_map` says.
pub proof fn law_field_modifiers(ts: Seq<TokenView>, i: int)
    ensures
        field_spec(ts, i) matches Ok((d, _)) ==> modifiers_spec(ts, i, no_modifiers()) matches Ok(
            (m, _),
        ) && modifiers_map(m, d),
{
}

/// Field declarations up to and including the closing `}`.
pub open spec fn fields_spec(ts: Seq<TokenView>, i: int) -> Result<
    (Seq<FieldDecl>, int),
    ParseErrorView,
>
    decreases ts.len() - i,
{
    if i < 0 {
        Ok((seq![], i))
    } else if kind_at(ts, i) == Some(TokenKindView::RBrace) {
        Ok((seq![], i + 1))
    } else if i >= ts.len() {
        Err(ParseErrorView { kind: ParseErrorKindView::UnexpectedEof("}"@), span: None })
    } else {
        proof {
            lemma_field_advances(ts, i);
        }
        match field_spec(ts, i) {
            Err(e) => Err(e),
            Ok((f, j)) => match fields_spec(ts, j) {
                Err(e) => Err(e),
                Ok((rest, n)) => Ok((seq![f] + rest, n)),
            },
        }
    }
}

/// One `type Name { ... }` declaration at `i`.
pub open spec fn type_spec(ts: Seq<TokenView>, i: int) -> Result<(TypeDecl, int), ParseErrorView> {
    match expect_spec(ts, i, TokenKindView::Keyword(Keyword::Type), "type"@) {
        Err(e) => Err(e),
        Ok(j) => match ident_spec(ts, j) {
            Err(e) => Err(e),
            Ok((name, k)) => match expect_spec(ts, k, TokenKindView::LBrace, "{"@) {
                Err(e) => Err(e),
                Ok(l) => match fields_spec(ts, l) {
                    Err(e) => Err(e),
                    Ok((fields, n)) => Ok((TypeDecl { name, fields }, n)),
                },
            },
        },
    }
}

pub proof fn lemma_fields_advance(ts: Seq<TokenView>, i: int)
    requires
        0 <= i,
    ensures
        fields_spec(ts, i) matches Ok((_, j)) ==> i < j <= ts.len(),
    decreases ts.len() - i,
{
    if kind_at(ts, i) != Some(TokenKindView::RBrace) && i < ts.len() {
        lemma_field_advances(ts, i);
        if let Ok((_, j)) = field_spec(ts, i) {
            lemma_fields_advance(ts, j);
        }
    }
}

/// The declarations from `i` to the end of the tokens.
pub open spec fn types_spec(ts: Seq<TokenView>, i: int) -> Result<Seq<TypeDecl>, ParseErrorView>
    decreases ts.len() - i,
{
    if i < 0 || i >= ts.len() {
        Ok(seq![])
    } else {
        proof {
            lemma_fields_advance(ts, i + 3);
        }
        match type_spec(ts, i) {
            Err(e) => Err(e),
            Ok((t, j)) => match types_spec(ts, j) {
                Err(e) => Err(e),
                Ok(rest) => Ok(seq![t] + rest),
            },
        }
    }
}

/// What `parse_schema` gives for a source text, as far as syntax decides
/// it: the lexical or syntax error, or the declarations.
pub open spec fn schema_decls(s: Seq<char>) -> Result<Seq<TypeDecl>, ParseErrorView> {
    match lex_spec(s) {
        Err(e) => Err(ParseErrorView { kind: ParseErrorKindView::Lex(e), span: None }),
        Ok(ts) => types_spec(ts, 0),
    }
}

/// How the modifiers `m` written before a field map onto the field `d`
/// parsed there: a link is many with `multi`, otherwise required with
/// `required`, otherwise optional, and never `unique`; a scalar is required
/// exactly with `required`, unique exactly with `unique`, and never `multi`;
/// `required multi` gives no field.
pub open spec fn modifiers_map(m: ModifierSet, d: FieldDecl) -> bool {
    &&& !(m.required && m.multi)
    &&& match d.kind {
        FieldDeclKind::Link(_, c) => !m.unique && c == (if m.multi {
            Cardinality::Many
        } else if m.required {
            Cardinality::Required
        } else {
            Cardinality::Optional
        }),
        FieldDeclKind::Scalar(_, c, u) => !m.multi && (c == SingleCardinality::Required <==> m.required)
            && (u == Uniqueness::Unique <==> m.unique),
    }
}

/// `fs` are written one after another from token `i`, each field at its
/// own position with the modifiers written there, and the `}` at `end - 1`
/// closes them.
pub open spec fn fields_in_order(ts: Seq<TokenView>, i: int, fs: Seq<FieldDecl>, end: int) -> bool
    decreases fs.len(),
{
    if fs.len() == 0 {
        kind_at(ts, i) == Some(TokenKindView::RBrace) && end == i + 1
    } else {
        &&& field_spec(ts, i) matches Ok((d, j)) && d == fs[0] && i < j && fields_in_order(
            ts,
            j,
            fs.drop_first(),
            end,
        )
        &&& modifiers_spec(ts, i, no_modifiers()) matches Ok((m, _)) && modifiers_map(m, fs[0])
    }
}

/// `ds` are written one after another from token `i` to the end of the
/// tokens, each as `type Name { fields }`.
pub open spec fn types_in_order(ts: Seq<TokenView>, i: int, ds: Seq<TypeDecl>) -> bool
    decreases ds.len(),
{
    if ds.len() == 0 {
        i >= ts.len()
    } else {
        &&& kind_at(ts, i) == Some(TokenKindView::Keyword(Keyword::Type))
        &&& kind_at(ts, i + 1) == Some(TokenKindView::Ident(ds[0].name))
        &&& kind_at(ts, i + 2) == Some(TokenKindView::LBrace)
        &&& fields_spec(ts, i + 3) matches Ok((fs, j)) && fs == ds[0].fields && i + 3 < j && fields_in_order(
            ts,
            i + 3,
            fs,
            j,
        ) && types_in_order(ts, j, ds.drop_first())
    }
}

proof fn lemma_fields_in_order(ts: Seq<TokenView>, i: int)
    requires
        0 <= i,
    ensures
        fields_spec(ts, i) matches Ok((fs, end)) ==> fields_in_order(ts, i, fs, end),
    decreases ts.len() - i,
{
    if kind_at(ts, i) != Some(TokenKindView::RBrace) && i < ts.len() {
        lemma_field_advances(ts, i);
        law_field_modifiers(ts, i);
        if let Ok((f, j)) = field_spec(ts, i) {
            lemma_fields_in_order(ts, j);
            if let Ok((rest, n)) = fields_spec(ts, j) {
                let fs = seq![f] + rest;
                assert(fs[0] == f);
                assert(fs.drop_first() =~= rest);
            }
        }
    }
}

proof fn lemma_types_in_order(ts: Seq<TokenView>, i: int)
    requires
        0 <= i,
    ensures
        types_spec(ts, i) matches Ok(ds) ==> types_in_order(ts, i, ds),
    decreases ts.len() - i,
{
    if i < ts.len() {
        lemma_fields_advance(ts, i + 3);
        lemma_fields_in_order(ts, i + 3);
        if let Ok((t, j)) = type_spec(ts, i) {
            lemma_types_in_order(ts, j);
            if let Ok(rest) = types_spec(ts, j) {
                let ds = seq![t] + rest;
                assert(ds[0] == t);
                assert(ds.drop_first() =~= rest);
            }
        }
    }
}

/// The declarations of a schema come in source order: each is the next
/// `type Name { ... }` of the tokens, its fields in the order written, and
/// each field's cardinality and uniqueness follow from the modifiers written
/// before it as `modifiers_map` says. `parse_schema`'s catalog lists exactly
/// these declarations, in this order.
pub proof fn law_schema_source_order(s: Seq<char>)
    ensures
        schema_decls(s) matches Ok(ds) ==> lex_spec(s) matches Ok(ts) && types_in_order(ts, 0, ds),
{
    if let Ok(ts) = lex_spec(s) {
        lemma_types_in_order(ts, 0);
    }
}

/// A parse error points into the tokens or nowhere: a lexical error, an
/// unexpected end and an invalid catalog carry no span; any span an error
/// carries is the span of one of the tokens; an unexpected token carries
/// its span.
pub open spec fn error_span_ok(ts: Seq<TokenView>, e: ParseErrorView) -> bool {
    &&& (e.kind is Lex || e.kind is UnexpectedEof || e.kind is InvalidCatalog) ==> e.span is None
    &&& e.kind is UnexpectedToken ==> e.span is Some
    &&& e.span matches Some(sp) ==> exists|k: int| 0 <= k < ts.len() && #[trigger] ts[k].span == sp
}

proof fn lemma_unexpected_span(ts: Seq<TokenView>, i: int, expected: Seq<char>)
    ensures
        error_span_ok(ts, unexpected(ts, i, expected)),
{
    if 0 <= i < ts.len() {
        assert(ts[i].span == ts[i].span);
    }
}

proof fn lemma_modifiers_span(ts: Seq<TokenView>, i: int, m: ModifierSet)
    ensures
        modifiers_spec(ts, i, m) matches Err(e) ==> error_span_ok(ts, e),
    decreases ts.len() - i,
{
    if 0 <= i < ts.len() {
        assert(ts[i].span == ts[i].span);
        lemma_modifiers_span(ts, i + 1, ModifierSet { required: true, ..m });
        lemma_modifiers_span(ts, i + 1, ModifierSet { multi: true, ..m });
        lemma_modifiers_span(ts, i + 1, ModifierSet { unique: true, ..m });
    }
}

proof fn lemma_field_span(ts: Seq<TokenView>, i: int)
    ensures
        field_spec(ts, i) matches Err(e) ==> error_span_ok(ts, e),
{
    lemma_modifiers_span(ts, i, no_modifiers());
    if let Ok((m, j)) = modifiers_spec(ts, i, no_modifiers()) {
        if 0 <= j < ts.len() {
            assert(ts[j].span == ts[j].span);
        }
        if 0 <= j + 1 < ts.len() {
            assert(ts[j + 1].span == ts[j + 1].span);
        }
        lemma_unexpected_spans(ts);
    }
}

proof fn lemma_unexpected_spans(ts: Seq<TokenView>)
    ensures
        forall|i: int, x: Seq<char>| error_span_ok(ts, #[trigger] unexpected(ts, i, x)),
{
    assert forall|i: int, x: Seq<char>| error_span_ok(ts, #[trigger] unexpected(ts, i, x)) by {
        lemma_unexpected_span(ts, i, x);
    }
}

proof fn lemma_fields_span(ts: Seq<TokenView>, i: int)
    ensures
        fields_spec(ts, i) matches Err(e) ==> error_span_ok(ts, e),
    decreases ts.len() - i,
{
    if i >= 0 && kind_at(ts, i) != Some(TokenKindView::RBrace) && i < ts.len() {
        lemma_field_advances(ts, i);
        lemma_field_span(ts, i);
        if let Ok((_, j)) = field_spec(ts, i) {
            lemma_fields_span(ts, j);
        }
    }
}

proof fn lemma_types_span(ts: Seq<TokenView>, i: int)
    ensures
        types_spec(ts, i) matches Err(e) ==> error_span_ok(ts, e),
    decreases ts.len() - i,
{
    if 0 <= i < ts.len() {
        lemma_fields_advance(ts, i + 3);
        lemma_unexpected_spans(ts);
        if let Ok(j) = expect_spec(ts, i, TokenKindView::Keyword(Keyword::Type), "type"@) {
            if let Ok((_, k)) = ident_spec(ts, j) {
                if let Ok(l) = expect_spec(ts, k, TokenKindView::LBrace, "{"@) {
                    lemma_fields_span(ts, l);
                }
            }
        }
        if let Ok((_, j)) = type_spec(ts, i) {
            lemma_types_span(ts, j);
        }
    }
}

/// Schema parse errors carry spans as `error_span_ok` says: a lexical error
/// has none, an unexpected token has its own, and any other span is that
/// of a token of the source.
pub proof fn law_schema_error_spans(s: Seq<char>)
    ensures
        schema_decls(s) matches Err(e) ==> match lex_spec(s) {
            Err(le) => e.kind == ParseErrorKindView::Lex(le) && e.span is None,
            Ok(ts) => error_span_ok(ts, e),
        },
{
    if let Ok(ts) = lex_spec(s) {
        lemma_types_span(ts, 0);
    }
}

// ---------------------------------------------------------------------------
// Parser
// ---------------------------------------------------------------------------
fn error(kind: ParseErrorKind, span: Option<Span>) -> (r: ParseError)
    ensures
        r@ == (ParseErrorView { kind: kind@, span }),
{
    ParseError { kind, span }
}

fn token_span(tokens: &Vec<Token>, i: usize) -> (r: Option<Span>)
    ensures
        r == span_at(tokens_view(tokens@), i as int),
{
    if i < tokens.len() {
        Some(tokens[i].span())
    } else {
        None
    }
}

/// The error for finding something other than `expected` at `i`.
fn unexpected_at(tokens: &Vec<Token>, i: usize, expected: &'static str) -> (r: ParseError)
    ensures
        r@ == unexpected(tokens_view(tokens@), i as int, expected@),
{
    if i < tokens.len() {
        error(ParseErrorKind::UnexpectedToken { expected }, Some(tokens[i].span()))
    } else {
        error(ParseErrorKind::UnexpectedEof { expected }, None)
    }
}

pub open(crate) spec fn int_result(r: Result<usize, ParseError>) -> Result<int, ParseErrorView> {
    match r {
        Ok(n) => Ok(n as int),
        Err(e) => Err(e@),
    }
}

fn expect_keyword(tokens: &Vec<Token>, i: usize, expected: Keyword) -> (r: Result<usize, ParseError>)
    requires
        i < usize::MAX,
    ensures
        int_result(r) == expect_spec(
            tokens_view(tokens@),
            i as int,
            TokenKindView::Keyword(expected),
            keyword_text(expected),
        ),
{
    if i < tokens.len() {
        if let TokenKind::Keyword(k) = tokens[i].kind() {
            if *k == expected {
                return Ok(i + 1);
            }
        }
    }
    Err(unexpected_at(tokens, i, expected.as_str()))
}

fn expect_lbrace(tokens: &Vec<Token>, i: usize) -> (r: Result<usize, ParseError>)
    requires
        i < usize::MAX,
    ensures
        int_result(r) == expect_spec(tokens_view(tokens@), i as int, TokenKindView::LBrace, "{"@),
{
    if i < tokens.len() {
        if let TokenKind::LBrace = tokens[i].kind() {
            return Ok(i + 1);
        }
    }
    Err(unexpected_at(tokens, i, "{"))
}

fn expect_colon(tokens: &Vec<Token>, i: usize) -> (r: Result<usize, ParseError>)
    requires
        i < usize::MAX,
    ensures
        int_result(r) == expect_spec(tokens_view(tokens@), i as int, TokenKindView::Colon, ":"@),
{
    if i < tokens.len() {
        if let TokenKind::Colon = tokens[i].kind() {
            return Ok(i + 1);
        }
    }
    Err(unexpected_at(tokens, i, ":"))
}

fn is_rbrace(tokens: &Vec<Token>, i: usize) -> (r: bool)
    ensures
        r == (kind_at(tokens_view(tokens@), i as int) == Some(TokenKindView::RBrace)),
{
    if i < tokens.len() {
        if let TokenKind::RBrace = tokens[i].kind() {
            return true;
        }
    }
    false
}

fn expect_ident(tokens: &Vec<Token>, i: usize) -> (r: Result<(String, usize), ParseError>)
    requires
        i < usize::MAX,
    ensures
        match (r, ident_spec(tokens_view(tokens@), i as int)) {
            (Ok((name, n)), Ok((v, m))) => name@ == v && n == m,
            (Err(e), Err(v)) => e@ == v,
            _ => false,
        },
{
    if i < tokens.len() {
        if let TokenKind::Ident(value) = tokens[i].kind() {
            return Ok((value.clone(), i + 1));
        }
    }
    Err(unexpected_at(tokens, i, "IDENT"))
}

fn expect_scalar_type(tokens: &Vec<Token>, i: usize) -> (r: Result<(ScalarType, usize), ParseError>)
    requires
        i < usize::MAX,
    ensures
        match (r, scalar_type_spec(tokens_view(tokens@), i as int)) {
            (Ok((t, n)), Ok((v, m))) => t == v && n == m,
            (Err(e), Err(v)) => e@ == v,
            _ => false,
        },
{
    if i < tokens.len() {
        if let TokenKind::Keyword(k) = tokens[i].kind() {
            let scalar_type = match k {
                Keyword::Str => Some(ScalarType::Str),
                Keyword::Int64 => Some(ScalarType::Int64),
                Keyword::Float64 => Some(ScalarType::Float64),
                Keyword::Bool => Some(ScalarType::Bool),
                Keyword::Uuid => Some(ScalarType::Uuid),
                Keyword::DateTime => Some(ScalarType::DateTime),
                _ => None,
            };
            if let Some(t) = scalar_type {
                return Ok((t, i + 1));
            }
        }
    }
    Err(unexpected_at(tokens, i, "scalar type"))
}

fn reject_duplicate_modifier(already_seen: bool, modifier: &'static str, span: Span) -> (r: Result<
    (),
    ParseError,
>)
    ensures
        r is Ok <==> !already_seen,
        r matches Err(e) ==> e@ == (ParseErrorView {
            kind: ParseErrorKindView::DuplicateModifier(modifier@),
            span: Some(span),
        }),
{
    if already_seen {
        return Err(error(ParseErrorKind::DuplicateModifier { modifier }, Some(span)));
    }
    Ok(())
}

fn parse_modifier_set(tokens: &Vec<Token>, i: usize) -> (r: Result<(ModifierSet, usize), ParseError>)
    requires
        tokens@.len() < usize::MAX,
        i <= tokens@.len(),
    ensures
        match (r, modifiers_spec(tokens_view(tokens@), i as int, no_modifiers())) {
            (Ok((m, n)), Ok((v, k))) => m == v && n == k,
            (Err(e), Err(v)) => e@ == v,
            _ => false,
        },
{
    let ghost ts = tokens_view(tokens@);
    let mut modifiers = ModifierSet { required: false, multi: false, unique: false };
    let mut j = i;
    while j < tokens.len()
        invariant
            i <= j <= tokens@.len() < usize::MAX,
            ts == tokens_view(tokens@),
            modifiers_spec(ts, i as int, no_modifiers()) == modifiers_spec(ts, j as int, modifiers),
        decreases tokens.len() - j,
    {
        let token = &tokens[j];
        assert(ts[j as int] == token@);
        match token.kind() {
            TokenKind::Keyword(Keyword::Required) => {
                reject_duplicate_modifier(modifiers.required, "required", token.span())?;
                modifiers.required = true;
            },
            TokenKind::Keyword(Keyword::Multi) => {
                reject_duplicate_modifier(modifiers.multi, "multi", token.span())?;
                modifiers.multi = true;
            },
            TokenKind::Keyword(Keyword::Unique) => {
                reject_duplicate_modifier(modifiers.unique, "unique", token.span())?;
                modifiers.unique = true;
            },
            _ => {
                return Ok((modifiers, j));
            },
        }
        j += 1;
    }
    Ok((modifiers, j))
}

pub open(crate) spec fn field_result(r: Result<(Field, usize), ParseError>) -> Result<
    (FieldDecl, int),
    ParseErrorView,
> {
    match r {
        Ok((f, n)) => Ok((decl_of(f), n as int)),
        Err(e) => Err(e@),
    }
}

fn parse_scalar_field(tokens: &Vec<Token>, i: usize, modifiers: ModifierSet) -> (r: Result<
    (Field, usize),
    ParseError,
>)
    requires
        tokens@.len() < usize::MAX,
        i <= tokens@.len(),
    ensures
        field_result(r) == scalar_field_spec(tokens_view(tokens@), i as int, modifiers),
        r matches Ok((Field::Scalar(s), _)) ==> !s.spec_is_implicit(),
        r matches Ok((f, _)) ==> f is Scalar,
{
    if modifiers.multi {
        return Err(
            error(
                ParseErrorKind::IncompatibleModifiers {
                    message: "`multi` is only valid on link fields",
                },
                token_span(tokens, i),
            ),
        );
    }
    let (name, j) = expect_ident(tokens, i)?;
    let k = expect_colon(tokens, j)?;
    let (scalar_type, n) = expect_scalar_type(tokens, k)?;
    let cardinality = if modifiers.required {
        SingleCardinality::Required
    } else {
        SingleCardinality::Optional
    };
    let uniqueness = if modifiers.unique {
        Uniqueness::Unique
    } else {
        Uniqueness::NotUnique
    };
    Ok(
        (
            Field::Scalar(
                ScalarField::with_uniqueness(name.as_str(), scalar_type, cardinality, uniqueness),
            ),
            n,
        ),
    )
}

fn parse_link_field(tokens: &Vec<Token>, i: usize, modifiers: ModifierSet) -> (r: Result<
    (Field, usize),
    ParseError,
>)
    requires
        tokens@.len() < usize::MAX,
        i <= tokens@.len(),
    ensures
        field_result(r) == link_field_spec(tokens_view(tokens@), i as int, modifiers),
        r matches Ok((f, _)) ==> f is Link,
{
    if modifiers.unique {
        return Err(
            error(
                ParseErrorKind::IncompatibleModifiers {
                    message: "`unique` is only valid on scalar fields",
                },
                token_span(tokens, i),
            ),
        );
    }
    let j = expect_keyword(tokens, i, Keyword::Link)?;
    let (name, k) = expect_ident(tokens, j)?;
    let l = expect_colon(tokens, k)?;
    let (target_type_name, n) = expect_ident(tokens, l)?;
    let cardinality = if modifiers.multi {
        Cardinality::Many
    } else if modifiers.required {
        Cardinality::Required
    } else {
        Cardinality::Optional
    };
    Ok((Field::Link(LinkField::new(name.as_str(), target_type_name.as_str(), cardinality)), n))
}

fn parse_field_decl(tokens: &Vec<Token>, i: usize) -> (r: Result<(Field, usize), ParseError>)
    requires
        tokens@.len() < usize::MAX,
        i <= tokens@.len(),
    ensures
        field_result(r) == field_spec(tokens_view(tokens@), i as int),
        r matches Ok((Field::Scalar(s), _)) ==> !s.spec_is_implicit(),
{
    let (modifiers, j) = parse_modifier_set(tokens, i)?;
    proof {
        lemma_modifiers_advance(tokens_view(tokens@), i as int, no_modifiers());
    }
    if modifiers.required && modifiers.multi {
        return Err(
            error(
                ParseErrorKind::IncompatibleModifiers {
                    message: "`required multi` is not a valid cardinality",
                },
                token_span(tokens, j),
            ),
        );
    }
    if j < tokens.len() {
        match tokens[j].kind() {
            TokenKind::Keyword(Keyword::Link) => parse_link_field(tokens, j, modifiers),
            TokenKind::Keyword(Keyword::Property) => parse_scalar_field(tokens, j + 1, modifiers),
            _ => parse_scalar_field(tokens, j, modifiers),
        }
    } else {
        Err(error(ParseErrorKind::UnexpectedEof { expected: "field declaration" }, None))
    }
}

/// Field declarations from `i` through the closing `}`.
fn parse_fields(tokens: &Vec<Token>, i: usize) -> (r: Result<(Vec<Field>, usize), ParseError>)
    requires
        tokens@.len() < usize::MAX,
        i <= tokens@.len(),
    ensures
        match (r, fields_spec(tokens_view(tokens@), i as int)) {
            (Ok((fs, n)), Ok((v, m))) => decls_of(fs@) == v && n == m && fs@.len() < usize::MAX,
            (Err(e), Err(v)) => e@ == v,
            _ => false,
        },
{
    let ghost ts = tokens_view(tokens@);
    let mut fields: Vec<Field> = Vec::new();
    let mut cursor = i;
    proof {
        assert(decls_of(fields@) =~= seq![]);
        if let Ok((rest, n)) = fields_spec(ts, i as int) {
            assert(decls_of(fields@) + rest =~= rest);
        }
    }
    while !is_rbrace(tokens, cursor)
        invariant
            ts == tokens_view(tokens@),
            tokens@.len() < usize::MAX,
            i <= cursor <= tokens@.len(),
            fields@.len() <= cursor - i,
            fields_spec(ts, i as int) == match fields_spec(ts, cursor as int) {
                Ok((rest, n)) => Ok((decls_of(fields@) + rest, n)),
                Err(e) => Err(e),
            },
        decreases tokens.len() - cursor,
    {
        if cursor >= tokens.len() {
            proof {
                assert(fields_spec(ts, cursor as int) == Err::<(Seq<FieldDecl>, int), ParseErrorView>(
                    ParseErrorView { kind: ParseErrorKindView::UnexpectedEof("}"@), span: None },
                ));
            }
            return Err(error(ParseErrorKind::UnexpectedEof { expected: "}" }, None));
        }
        let (field, next) = match parse_field_decl(tokens, cursor) {
            Ok(parsed) => parsed,
            Err(e) => {
                proof {
                    assert(fields_spec(ts, cursor as int) == Err::<(Seq<FieldDecl>, int), ParseErrorView>(
                        e@,
                    ));
                }
                return Err(e);
            },
        };
        proof {
            lemma_field_advances(ts, cursor as int);
            assert(decls_of(fields@.push(field)) =~= decls_of(fields@).push(decl_of(field)));
            match fields_spec(ts, next as int) {
                Ok((rest, n)) => {
                    assert(decls_of(fields@) + (seq![decl_of(field)] + rest) =~= decls_of(
                        fields@.push(field),
                    ) + rest);
                },
                Err(e) => {},
            }
        }
        fields.push(field);
        cursor = next;
    }
    proof {
        assert(decls_of(fields@) + seq![] =~= decls_of(fields@));
    }
    Ok((fields, cursor + 1))
}

fn parse_type_decl(tokens: &Vec<Token>, i: usize) -> (r: Result<(ObjectType, usize), ParseError>)
    requires
        tokens@.len() < usize::MAX,
        i <= tokens@.len(),
    ensures
        match (r, type_spec(tokens_view(tokens@), i as int)) {
            (Ok((t, n)), Ok((v, m))) => type_decl_of(t) == v && n == m,
            (Err(e), Err(v)) => e@ == v,
            _ => false,
        },
{
    let j = expect_keyword(tokens, i, Keyword::Type)?;
    let (name, k) = expect_ident(tokens, j)?;
    let l = expect_lbrace(tokens, k)?;
    let (fields, n) = parse_fields(tokens, l)?;
    let object_type = ObjectType::new(name.as_str(), fields);
    Ok((object_type, n))
}

/// What a parsed catalog, or its rejection, says about the declarations.
pub open(crate) spec fn schema_result_matches(
    r: Result<SchemaCatalog, ParseError>,
    decls: Result<Seq<TypeDecl>, ParseErrorView>,
) -> bool {
    match decls {
        Err(v) => r matches Err(e) && e@ == v,
        Ok(ds) => match r {
            Ok(c) => type_decls_of(c.spec_types()) == ds,
            Err(e) => exists|types: Seq<ObjectType>|
                #![auto]
                type_decls_of(types) == ds && !valid_catalog(types) && e@.span is None
                    && (e@.kind matches ParseErrorKindView::InvalidCatalog(se) && reported_error(
                    types,
                    se,
                )),
        },
    }
}

/// Parses schema source into a validated catalog. Syntax errors come
/// first; a syntactically valid source whose declarations break a catalog
/// rule gives `InvalidCatalog` with the catalog's error.
pub fn parse_schema(input: &str) -> (r: Result<SchemaCatalog, ParseError>)
    requires
        input@.len() < usize::MAX,
    ensures
        schema_result_matches(r, schema_decls(input@)),
{
    let tokens = match lex(input) {
        Ok(tokens) => tokens,
        Err(e) => {
            return Err(error(ParseErrorKind::Lex(e), None));
        },
    };
    let ghost ts = tokens_view(tokens@);
    assert(tokens@.len() == ts.len());
    let mut object_types: Vec<ObjectType> = Vec::new();
    let mut cursor: usize = 0;
    proof {
        assert(type_decls_of(object_types@) =~= seq![]);
        if let Ok(rest) = types_spec(ts, 0) {
            assert(type_decls_of(object_types@) + rest =~= rest);
        }
    }
    while cursor < tokens.len()
        invariant
            ts == tokens_view(tokens@),
            lex_spec(input@) == Ok::<Seq<TokenView>, LexError>(ts),
            tokens@.len() < usize::MAX,
            cursor <= tokens@.len(),
            types_spec(ts, 0) == match types_spec(ts, cursor as int) {
                Ok(rest) => Ok(type_decls_of(object_types@) + rest),
                Err(e) => Err(e),
            },
        decreases tokens.len() - cursor,
    {
        let (object_type, next) = match parse_type_decl(&tokens, cursor) {
            Ok(parsed) => parsed,
            Err(e) => {
                proof {
                    lemma_fields_advance(ts, cursor + 3);
                    assert(types_spec(ts, cursor as int) == Err::<Seq<TypeDecl>, ParseErrorView>(e@));
                }
                return Err(e);
            },
        };
        proof {
            lemma_fields_advance(ts, cursor + 3);
            assert(type_decls_of(object_types@.push(object_type)) =~= type_decls_of(object_types@).push(
                type_decl_of(object_type),
            ));
            match types_spec(ts, next as int) {
                Ok(rest) => {
                    assert(type_decls_of(object_types@) + (seq![type_decl_of(object_type)] + rest)
                        =~= type_decls_of(object_types@.push(object_type)) + rest);
                },
                Err(e) => {},
            }
        }
        object_types.push(object_type);
        cursor = next;
    }
    proof {
        assert(type_decls_of(object_types@) + seq![] =~= type_decls_of(object_types@));
    }
    let ghost types = object_types@;
    match SchemaCatalog::try_new(object_types) {
        Ok(catalog) => Ok(catalog),
        Err(e) => {
            let r = error(ParseErrorKind::InvalidCatalog(e), None);
            proof {
                assert(type_decls_of(types) == type_decls_of(types));
            }
            Err(r)
        },
    }
}

impl ParseError {
    pub fn kind(&self) -> (r: &ParseErrorKind)
        ensures
            r@ == self@.kind,
    {
        &self.kind
    }

    pub fn span(&self) -> (r: Option<Span>)
        ensures
            r == self@.span,
    {
        self.span
    }
}

} // verus!
