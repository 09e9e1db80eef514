//! Token classifier: `RawSpan` → `Vec<FlatPageToken>`. Syntax only, fail
//! fast on the first syntax error. The shapes shared with the page parser
//! (`{{ e.f }}`, `{% if … %}`) live here too.

use vstd::prelude::*;
use crate::fragment::lexer::{RawSpan, SpanKind};
use crate::fragment::token::{FlatPageToken, TokenV};
use crate::text::{chars_of, find_char_exec, find_char_from, lemma_find_char_from, parse_i64_range, parse_i64_spec, str_eq};

verus! {

/// Syntax error produced by `parse_tokens`.
#[derive(Debug, PartialEq, Eq)]
pub enum PageParseError {
    /// Token received differs from the one expected at this point.
    UnexpectedToken { expected: &'static str, got: SpanKind },
    /// The spans ran out while a token was required.
    UnexpectedEof,
    /// Unknown keyword, `if` operand without `.`, or an integer literal
    /// that does not parse.
    InvalidBlockSequence,
}

/// Value of a syntax error, with `expected` as characters.
pub enum SyntaxErrV {
    Unexpected { expected: Seq<char>, got: SpanKind },
    Eof,
    Invalid,
}

impl View for PageParseError {
    type V = SyntaxErrV;

    open spec fn view(&self) -> SyntaxErrV {
        match *self {
            PageParseError::UnexpectedToken { expected, got } => SyntaxErrV::Unexpected {
                expected: expected@,
                got,
            },
            PageParseError::UnexpectedEof => SyntaxErrV::Eof,
            PageParseError::InvalidBlockSequence => SyntaxErrV::Invalid,
        }
    }
}

/// Views of a list of spans.
pub type SpansV = Seq<(Seq<char>, SpanKind)>;

/// The span at `i` is an identifier: its text.
pub open spec fn ident_at(sp: SpansV, i: int, expected: Seq<char>) -> Result<Seq<char>, SyntaxErrV> {
    if i < 0 || i >= sp.len() {
        Err(SyntaxErrV::Eof)
    } else if sp[i].1 == SpanKind::Ident {
        Ok(sp[i].0)
    } else {
        Err(SyntaxErrV::Unexpected { expected, got: sp[i].1 })
    }
}

/// The span at `i` has kind `k`.
pub open spec fn kind_at(sp: SpansV, i: int, k: SpanKind, expected: Seq<char>) -> Result<
    (),
    SyntaxErrV,
> {
    if i < 0 || i >= sp.len() {
        Err(SyntaxErrV::Eof)
    } else if sp[i].1 == k {
        Ok(())
    } else {
        Err(SyntaxErrV::Unexpected { expected, got: sp[i].1 })
    }
}

/// `raw` cut at its first `.`.
pub open spec fn split_dotted_spec(raw: Seq<char>) -> Option<(Seq<char>, Seq<char>)> {
    match find_char_from(raw, '.', 0) {
        Some(d) => Some((raw.take(d), raw.skip(d + 1))),
        None => None,
    }
}

/// `Ident(entity) Punct Ident(field) ExprClose` starting at `i`.
pub open spec fn expr_spec(sp: SpansV, i: int) -> Result<(TokenV, int), SyntaxErrV> {
    match ident_at(sp, i, "Ident(entity)"@) {
        Err(e) => Err(e),
        Ok(entity) => match kind_at(sp, i + 1, SpanKind::Punct, "Punct('.')"@) {
            Err(e) => Err(e),
            Ok(_) => match ident_at(sp, i + 2, "Ident(field)"@) {
                Err(e) => Err(e),
                Ok(field) => match kind_at(sp, i + 3, SpanKind::ExprClose, "ExprClose('}}')"@) {
                    Err(e) => Err(e),
                    Ok(_) => Ok((TokenV::Field { entity, field }, i + 4)),
                },
            },
        },
    }
}

/// `Ident(literal) BlockClose` after `==`/`!=`: the literal's value.
pub open spec fn literal_tail_spec(sp: SpansV, i: int) -> Result<i64, SyntaxErrV> {
    match ident_at(sp, i, "Ident(integer literal)"@) {
        Err(e) => Err(e),
        Ok(raw) => match parse_i64_spec(raw) {
            None => Err(SyntaxErrV::Invalid),
            Some(v) => match kind_at(sp, i + 1, SpanKind::BlockClose, "BlockClose('%}')"@) {
                Err(e) => Err(e),
                Ok(_) => Ok(v),
            },
        },
    }
}

/// The operands of `{% if … %}` after the keyword, starting at `i`.
pub open spec fn if_spec(sp: SpansV, i: int) -> Result<(TokenV, int), SyntaxErrV> {
    match ident_at(sp, i, "Ident(entity.field)"@) {
        Err(e) => Err(e),
        Ok(raw) => match split_dotted_spec(raw) {
            None => Err(SyntaxErrV::Invalid),
            Some((entity, field)) => if i + 1 >= sp.len() {
                Err(SyntaxErrV::Eof)
            } else if sp[i + 1].1 == SpanKind::BlockClose {
                Ok((TokenV::IfBool { entity, field }, i + 2))
            } else if sp[i + 1].1 == SpanKind::Ident && sp[i + 1].0 == "=="@ {
                match literal_tail_spec(sp, i + 2) {
                    Err(e) => Err(e),
                    Ok(literal) => Ok((TokenV::IfEq { entity, field, literal }, i + 4)),
                }
            } else if sp[i + 1].1 == SpanKind::Ident && sp[i + 1].0 == "!="@ {
                match literal_tail_spec(sp, i + 2) {
                    Err(e) => Err(e),
                    Ok(literal) => Ok((TokenV::IfNeq { entity, field, literal }, i + 4)),
                }
            } else {
                Err(
                    SyntaxErrV::Unexpected {
                        expected: "BlockClose('%}') | Ident(\"==\") | Ident(\"!=\")"@,
                        got: sp[i + 1].1,
                    },
                )
            },
        },
    }
}

/// A keyword-only block `{% kw %}` whose keyword sits at `i - 1`.
pub open spec fn closed_spec(sp: SpansV, i: int, t: TokenV) -> Result<(TokenV, int), SyntaxErrV> {
    match kind_at(sp, i, SpanKind::BlockClose, "BlockClose('%}')"@) {
        Err(e) => Err(e),
        Ok(_) => Ok((t, i + 1)),
    }
}

/// `Ident(arg) BlockClose` starting at `i`: the argument.
pub open spec fn arg_spec(sp: SpansV, i: int, expected: Seq<char>) -> Result<Seq<char>, SyntaxErrV> {
    match ident_at(sp, i, expected) {
        Err(e) => Err(e),
        Ok(a) => match kind_at(sp, i + 1, SpanKind::BlockClose, "BlockClose('%}')"@) {
            Err(e) => Err(e),
            Ok(_) => Ok(a),
        },
    }
}

pub open spec fn fragment_keywords() -> Seq<char> {
    "keyword (if | else | endif | include | asset | script | endscript)"@
}

/// `{% … %}` of the fragment grammar, the keyword at `i`.
pub open spec fn block_spec(sp: SpansV, i: int) -> Result<(TokenV, int), SyntaxErrV> {
    match ident_at(sp, i, fragment_keywords()) {
        Err(e) => Err(e),
        Ok(kw) => if kw == "if"@ {
            if_spec(sp, i + 1)
        } else if kw == "else"@ {
            closed_spec(sp, i + 1, TokenV::Else)
        } else if kw == "endif"@ {
            closed_spec(sp, i + 1, TokenV::EndIf)
        } else if kw == "asset"@ {
            match arg_spec(sp, i + 1, "Ident(key)"@) {
                Err(e) => Err(e),
                Ok(key) => Ok((TokenV::AssetRef(key), i + 3)),
            }
        } else if kw == "script"@ {
            closed_spec(sp, i + 1, TokenV::ScriptStart)
        } else if kw == "endscript"@ {
            closed_spec(sp, i + 1, TokenV::ScriptEnd)
        } else if kw == "include"@ {
            match arg_spec(sp, i + 1, "Ident(path)"@) {
                Err(e) => Err(e),
                Ok(path) => Ok(
                    (
                        TokenV::StaticInclude { original_path: path, rel_from_manifest: path, len: 0 },
                        i + 3,
                    ),
                ),
            }
        } else {
            Err(SyntaxErrV::Invalid)
        },
    }
}

/// The fragment grammar from span `i` to the end.
pub open spec fn parse_from(sp: SpansV, i: int) -> Result<Seq<TokenV>, SyntaxErrV>
    decreases sp.len() - i,
{
    if i < 0 || i >= sp.len() {
        Ok(Seq::empty())
    } else {
        let one: Result<(TokenV, int), SyntaxErrV> = if sp[i].1 == SpanKind::Literal {
            Ok((TokenV::Static(sp[i].0), i + 1))
        } else if sp[i].1 == SpanKind::ExprOpen {
            expr_spec(sp, i + 1)
        } else if sp[i].1 == SpanKind::BlockOpen {
            block_spec(sp, i + 1)
        } else {
            Err(SyntaxErrV::Unexpected { expected: "Literal | ExprOpen | BlockOpen"@, got: sp[i].1 })
        };
        match one {
            Err(e) => Err(e),
            Ok((t, j)) => if i < j {
                match parse_from(sp, j) {
                    Err(e) => Err(e),
                    Ok(rest) => Ok(seq![t] + rest),
                }
            } else {
                Err(SyntaxErrV::Invalid)
            },
        }
    }
}

/// What `parse_tokens` returns for the given spans.
pub open spec fn parse_tokens_spec(sp: SpansV) -> Result<Seq<TokenV>, SyntaxErrV> {
    parse_from(sp, 0)
}

/// The value of a parse result.
pub open spec fn parse_result_view<'src>(r: Result<Vec<FlatPageToken<'src>>, PageParseError>) -> Result<
    Seq<TokenV>,
    SyntaxErrV,
> {
    match r {
        Ok(v) => Ok(v.deep_view()),
        Err(e) => Err(e@),
    }
}

// ---------------------------------------------------------------------------
// Consumption primitives, shared with the page parser
// ---------------------------------------------------------------------------

/// Consumes the span at `i` and returns its slice if it is an `Ident`.
pub(crate) fn expect_ident<'src>(spans: &Vec<RawSpan<'src>>, i: usize, expected: &'static str) -> (r:
    Result<&'src str, PageParseError>)
    ensures
        match r {
            Ok(s) => ident_at(spans.deep_view(), i as int, expected@) == Ok::<
                Seq<char>,
                SyntaxErrV,
            >(s@),
            Err(e) => ident_at(spans.deep_view(), i as int, expected@) == Err::<
                Seq<char>,
                SyntaxErrV,
            >(e@),
        },
        r is Ok ==> i < spans.len(),
{
    if i >= spans.len() {
        return Err(PageParseError::UnexpectedEof);
    }
    let span = spans[i];
    assert(spans.deep_view()[i as int] == span.deep_view());
    if span.kind == SpanKind::Ident {
        Ok(span.slice)
    } else {
        Err(PageParseError::UnexpectedToken { expected, got: span.kind })
    }
}

/// Consumes the span at `i` and checks that it has kind `kind`.
pub(crate) fn expect_kind<'src>(
    spans: &Vec<RawSpan<'src>>,
    i: usize,
    kind: SpanKind,
    expected: &'static str,
) -> (r: Result<(), PageParseError>)
    ensures
        match r {
            Ok(_) => kind_at(spans.deep_view(), i as int, kind, expected@) == Ok::<(), SyntaxErrV>(
                (),
            ),
            Err(e) => kind_at(spans.deep_view(), i as int, kind, expected@) == Err::<
                (),
                SyntaxErrV,
            >(e@),
        },
        r is Ok ==> i < spans.len(),
{
    if i >= spans.len() {
        return Err(PageParseError::UnexpectedEof);
    }
    let span = spans[i];
    assert(spans.deep_view()[i as int] == span.deep_view());
    if span.kind == kind {
        Ok(())
    } else {
        Err(PageParseError::UnexpectedToken { expected, got: span.kind })
    }
}

/// Cuts `"entity.field"` at its first `.`.
pub(crate) fn split_dotted(raw: &str) -> (r: Result<(&str, &str), PageParseError>)
    ensures
        match r {
            Ok((a, b)) => split_dotted_spec(raw@) == Some((a@, b@)),
            Err(e) => split_dotted_spec(raw@) is None && e@ == SyntaxErrV::Invalid,
        },
{
    let cs = chars_of(raw);
    proof {
        lemma_find_char_from(raw@, '.', 0);
    }
    match find_char_exec(cs.as_slice(), '.', 0) {
        Some(d) => {
            let a = raw.substring_char(0, d);
            let b = raw.substring_char(d + 1, cs.len());
            assert(a@ =~= raw@.take(d as int));
            assert(b@ =~= raw@.skip(d + 1));
            Ok((a, b))
        },
        None => Err(PageParseError::InvalidBlockSequence),
    }
}

/// Parses a signed integer literal (`"1"`, `"-1"`, `"0"`) as `str::parse`
/// does.
pub(crate) fn parse_int_literal(raw: &str) -> (r: Result<i64, PageParseError>)
    ensures
        match r {
            Ok(v) => parse_i64_spec(raw@) == Some(v),
            Err(e) => parse_i64_spec(raw@) is None && e@ == SyntaxErrV::Invalid,
        },
{
    let cs = chars_of(raw);
    assert(cs@.subrange(0, cs@.len() as int) =~= raw@);
    match parse_i64_range(cs.as_slice(), 0, cs.len()) {
        Some(v) => Ok(v),
        None => Err(PageParseError::InvalidBlockSequence),
    }
}

/// Consumes `Ident(entity) Punct Ident(field) ExprClose` from `i` and
/// produces `Field`.
pub(crate) fn parse_expr<'src>(spans: &Vec<RawSpan<'src>>, i: usize) -> (r: Result<
    (FlatPageToken<'src>, usize),
    PageParseError,
>)
    requires
        i <= spans@.len(),
    ensures
        match r {
            Ok((t, j)) => expr_spec(spans.deep_view(), i as int) == Ok::<(TokenV, int), SyntaxErrV>(
                (t.deep_view(), j as int),
            ),
            Err(e) => expr_spec(spans.deep_view(), i as int) == Err::<(TokenV, int), SyntaxErrV>(
                e@,
            ),
        },
        r matches Ok((_, j)) ==> i < j <= spans.len(),
{
    let entity = match expect_ident(spans, i, "Ident(entity)") {
        Ok(s) => s,
        Err(e) => return Err(e),
    };
    match expect_kind(spans, i + 1, SpanKind::Punct, "Punct('.')") {
        Ok(_) => {},
        Err(e) => return Err(e),
    }
    let field = match expect_ident(spans, i + 2, "Ident(field)") {
        Ok(s) => s,
        Err(e) => return Err(e),
    };
    match expect_kind(spans, i + 3, SpanKind::ExprClose, "ExprClose('}}')") {
        Ok(_) => {},
        Err(e) => return Err(e),
    }
    Ok((FlatPageToken::Field { entity, field }, i + 4))
}

/// `Ident(literal) BlockClose` from `i`: the literal.
fn parse_literal_tail<'src>(spans: &Vec<RawSpan<'src>>, i: usize) -> (r: Result<i64, PageParseError>)
    requires
        i <= spans@.len(),
    ensures
        match r {
            Ok(v) => literal_tail_spec(spans.deep_view(), i as int) == Ok::<i64, SyntaxErrV>(v),
            Err(e) => literal_tail_spec(spans.deep_view(), i as int) == Err::<i64, SyntaxErrV>(e@),
        },
        r is Ok ==> i + 1 < spans.len(),
{
    let raw = match expect_ident(spans, i, "Ident(integer literal)") {
        Ok(s) => s,
        Err(e) => return Err(e),
    };
    let v = match parse_int_literal(raw) {
        Ok(v) => v,
        Err(e) => return Err(e),
    };
    match expect_kind(spans, i + 1, SpanKind::BlockClose, "BlockClose('%}')") {
        Ok(_) => Ok(v),
        Err(e) => Err(e),
    }
}

/// The operands of `{% if … %}` from `i` (after the keyword).
pub(crate) fn parse_if<'src>(spans: &Vec<RawSpan<'src>>, i: usize) -> (r: Result<
    (FlatPageToken<'src>, usize),
    PageParseError,
>)
    requires
        i <= spans@.len(),
    ensures
        match r {
            Ok((t, j)) => if_spec(spans.deep_view(), i as int) == Ok::<(TokenV, int), SyntaxErrV>(
                (t.deep_view(), j as int),
            ),
            Err(e) => if_spec(spans.deep_view(), i as int) == Err::<(TokenV, int), SyntaxErrV>(
                e@,
            ),
        },
        r matches Ok((_, j)) ==> i < j <= spans.len(),
{
    let raw = match expect_ident(spans, i, "Ident(entity.field)") {
        Ok(s) => s,
        Err(e) => return Err(e),
    };
    let (entity, field) = match split_dotted(raw) {
        Ok(p) => p,
        Err(e) => return Err(e),
    };
    if i + 1 >= spans.len() {
        return Err(PageParseError::UnexpectedEof);
    }
    let span = spans[i + 1];
    assert(spans.deep_view()[i + 1] == span.deep_view());
    if span.kind == SpanKind::BlockClose {
        Ok((FlatPageToken::IfBool { entity, field }, i + 2))
    } else if span.kind == SpanKind::Ident && str_eq(span.slice, "==") {
        match parse_literal_tail(spans, i + 2) {
            Ok(literal) => Ok((FlatPageToken::IfEq { entity, field, literal }, i + 4)),
            Err(e) => Err(e),
        }
    } else if span.kind == SpanKind::Ident && str_eq(span.slice, "!=") {
        match parse_literal_tail(spans, i + 2) {
            Ok(literal) => Ok((FlatPageToken::IfNeq { entity, field, literal }, i + 4)),
            Err(e) => Err(e),
        }
    } else {
        Err(
            PageParseError::UnexpectedToken {
                expected: "BlockClose('%}') | Ident(\"==\") | Ident(\"!=\")",
                got: span.kind,
            },
        )
    }
}

/// Consumes `BlockClose` at `i` and yields `t`.
pub(crate) fn parse_closed<'src>(spans: &Vec<RawSpan<'src>>, i: usize, t: FlatPageToken<'src>) -> (r:
    Result<(FlatPageToken<'src>, usize), PageParseError>)
    requires
        i <= spans@.len(),
    ensures
        match r {
            Ok((u, j)) => closed_spec(spans.deep_view(), i as int, t.deep_view()) == Ok::<
                (TokenV, int),
                SyntaxErrV,
            >((u.deep_view(), j as int)),
            Err(e) => closed_spec(spans.deep_view(), i as int, t.deep_view()) == Err::<
                (TokenV, int),
                SyntaxErrV,
            >(e@),
        },
        r matches Ok((_, j)) ==> i < j <= spans.len(),
{
    match expect_kind(spans, i, SpanKind::BlockClose, "BlockClose('%}')") {
        Ok(_) => Ok((t, i + 1)),
        Err(e) => Err(e),
    }
}

/// Consumes `Ident(arg) BlockClose` from `i` and returns the argument.
pub(crate) fn parse_arg<'src>(spans: &Vec<RawSpan<'src>>, i: usize, expected: &'static str) -> (r:
    Result<&'src str, PageParseError>)
    requires
        i <= spans@.len(),
    ensures
        match r {
            Ok(a) => arg_spec(spans.deep_view(), i as int, expected@) == Ok::<Seq<char>, SyntaxErrV>(
                a@,
            ),
            Err(e) => arg_spec(spans.deep_view(), i as int, expected@) == Err::<
                Seq<char>,
                SyntaxErrV,
            >(e@),
        },
        r is Ok ==> i + 1 < spans.len(),
{
    let a = match expect_ident(spans, i, expected) {
        Ok(s) => s,
        Err(e) => return Err(e),
    };
    match expect_kind(spans, i + 1, SpanKind::BlockClose, "BlockClose('%}')") {
        Ok(_) => Ok(a),
        Err(e) => Err(e),
    }
}

/// Consumes `Ident(keyword) … BlockClose` from `i` (after `BlockOpen`).
fn parse_block<'src>(spans: &Vec<RawSpan<'src>>, i: usize) -> (r: Result<
    (FlatPageToken<'src>, usize),
    PageParseError,
>)
    requires
        i <= spans@.len(),
    ensures
        match r {
            Ok((t, j)) => block_spec(spans.deep_view(), i as int) == Ok::<(TokenV, int), SyntaxErrV>(
                (t.deep_view(), j as int),
            ),
            Err(e) => block_spec(spans.deep_view(), i as int) == Err::<(TokenV, int), SyntaxErrV>(
                e@,
            ),
        },
        r matches Ok((_, j)) ==> i < j <= spans.len(),
{
    let keyword = match expect_ident(
        spans,
        i,
        "keyword (if | else | endif | include | asset | script | endscript)",
    ) {
        Ok(s) => s,
        Err(e) => return Err(e),
    };
    if str_eq(keyword, "if") {
        parse_if(spans, i + 1)
    } else if str_eq(keyword, "else") {
        parse_closed(spans, i + 1, FlatPageToken::Else)
    } else if str_eq(keyword, "endif") {
        parse_closed(spans, i + 1, FlatPageToken::EndIf)
    } else if str_eq(keyword, "asset") {
        match parse_arg(spans, i + 1, "Ident(key)") {
            Ok(key) => Ok((FlatPageToken::AssetRef(key), i + 3)),
            Err(e) => Err(e),
        }
    } else if str_eq(keyword, "script") {
        parse_closed(spans, i + 1, FlatPageToken::ScriptStart)
    } else if str_eq(keyword, "endscript") {
        parse_closed(spans, i + 1, FlatPageToken::ScriptEnd)
    } else if str_eq(keyword, "include") {
        match parse_arg(spans, i + 1, "Ident(path)") {
            Ok(path) => Ok(
                (
                    FlatPageToken::StaticInclude {
                        original_path: path,
                        rel_from_manifest: path,
                        len: 0,
                    },
                    i + 3,
                ),
            ),
            Err(e) => Err(e),
        }
    } else {
        Err(PageParseError::InvalidBlockSequence)
    }
}

/// Turns spans into the fragment AST; the first syntax error stops the
/// parse.
pub fn parse_tokens<'src>(spans: Vec<RawSpan<'src>>) -> (r: Result<
    Vec<FlatPageToken<'src>>,
    PageParseError,
>)
    ensures
        parse_result_view(r) == parse_tokens_spec(spans.deep_view()),
{
    let ghost sp = spans.deep_view();
    let mut ast: Vec<FlatPageToken<'src>> = Vec::new();
    let mut i: usize = 0;
    assert(Seq::<TokenV>::empty() + Seq::<TokenV>::empty() =~= Seq::<TokenV>::empty());
    while i < spans.len()
        invariant
            sp == spans.deep_view(),
            i <= spans@.len(),
            match parse_from(sp, i as int) {
                Ok(rest) => parse_from(sp, 0) == Ok::<Seq<TokenV>, SyntaxErrV>(ast.deep_view() + rest),
                Err(e) => parse_from(sp, 0) == Err::<Seq<TokenV>, SyntaxErrV>(e),
            },
        decreases spans.len() - i,
    {
        let span = spans[i];
        assert(sp[i as int] == span.deep_view());
        let step = if span.kind == SpanKind::Literal {
            Ok((FlatPageToken::Static(span.slice), i + 1))
        } else if span.kind == SpanKind::ExprOpen {
            parse_expr(&spans, i + 1)
        } else if span.kind == SpanKind::BlockOpen {
            parse_block(&spans, i + 1)
        } else {
            Err(
                PageParseError::UnexpectedToken {
                    expected: "Literal | ExprOpen | BlockOpen",
                    got: span.kind,
                },
            )
        };
        match step {
            Err(e) => {
                return Err(e);
            },
            Ok((t, j)) => {
                assert(i < j);
                let ghost old_ast = ast.deep_view();
                ast.push(t);
                assert(ast.deep_view() =~= old_ast.push(t.deep_view()));
                proof {
                    match parse_from(sp, j as int) {
                        Ok(rest) => {
                            assert(old_ast + (seq![t.deep_view()] + rest) =~= ast.deep_view()
                                + rest);
                        },
                        Err(_) => {},
                    }
                }
                i = j;
            },
        }
    }
    assert(parse_from(sp, i as int) == Ok::<Seq<TokenV>, SyntaxErrV>(Seq::empty()));
    assert(ast.deep_view() + Seq::<TokenV>::empty() =~= ast.deep_view());
    Ok(ast)
}

} // verus!
