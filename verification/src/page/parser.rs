//! Page-mode classifier: spans become `PageSourceToken`s. The runtime
//! subset (`{{ e.f }}`, `if`/`else`/`endif`, `asset`, `script`) is shared
//! with the fragment parser; `block`, `endblock`, `static`, `import` and
//! `extends` are the composition operators; any other keyword is kept as
//! `Unsupported` for a precise error later.

use vstd::prelude::*;
use crate::fragment::lexer::{RawSpan, SpanKind, scan, scan_spec};
use crate::fragment::parser::{
    fragment_keywords,
    PageParseError, SpansV, SyntaxErrV, arg_spec, closed_spec, expect_ident, expect_kind, expr_spec,
    ident_at, if_spec, parse_arg, parse_closed, parse_expr, parse_if, block_spec, parse_from,
};
use crate::fragment::token::{FlatPageToken, TokenV};
use crate::page::model::{
    ComposeErrV, ImportRef, PageBlockToken, PageComposeParseError, ParsedPageTemplate, ParsedV,
    StaticPartialRef,
};
use crate::page::token::{PageSourceToken, PageTokV};
use crate::text::str_eq;

verus! {

/// `source` starts with `{% extends`.
pub open spec fn detect_extends_spec(source: Seq<char>) -> bool {
    let sp = scan_spec(source);
    sp.len() >= 1 && sp[0].1 == SpanKind::BlockOpen && sp.len() >= 2 && sp[1].1 == SpanKind::Ident
        && sp[1].0 == "extends"@
}

/// Whether the template opens with `{% extends … %}`: the first span is
/// `{%` and the second the identifier `extends`.
pub fn detect_extends(source: &str) -> (r: bool)
    ensures
        r == detect_extends_spec(source@),
{
    let spans = scan(source);
    assert(spans.deep_view() == scan_spec(source@));
    if spans.len() >= 2 {
        assert(spans.deep_view()[0] == spans[0].deep_view());
        assert(spans.deep_view()[1] == spans[1].deep_view());
        spans[0].kind == SpanKind::BlockOpen && spans[1].kind == SpanKind::Ident && str_eq(
            spans[1].slice,
            "extends",
        )
    } else {
        if spans.len() == 1 {
            assert(spans.deep_view()[0] == spans[0].deep_view());
        }
        false
    }
}

/// A fragment syntax error as a page syntax error.
pub open spec fn lift_err(e: SyntaxErrV) -> ComposeErrV {
    match e {
        SyntaxErrV::Unexpected { expected, got } => ComposeErrV::Unexpected { expected, got },
        SyntaxErrV::Eof => ComposeErrV::Eof,
        SyntaxErrV::Invalid => ComposeErrV::Invalid,
    }
}

fn lift(e: PageParseError) -> (r: PageComposeParseError)
    ensures
        r@ == lift_err(e@),
{
    match e {
        PageParseError::UnexpectedToken { expected, got } => PageComposeParseError::UnexpectedToken {
            expected,
            got,
        },
        PageParseError::UnexpectedEof => PageComposeParseError::UnexpectedEof,
        PageParseError::InvalidBlockSequence => PageComposeParseError::InvalidBlockSequence,
    }
}

/// What a page block yields: a token, or the `extends` target.
pub enum PageOutcome {
    Token(PageTokV),
    Extends(Seq<char>),
}

pub open spec fn page_keywords() -> Seq<char> {
    "keyword (if | else | endif | block | endblock | static | extends | import | asset | script | endscript)"@
}

/// First `BlockClose` at or after `j`.
pub open spec fn find_block_close(sp: SpansV, j: int) -> Option<int>
    decreases sp.len() - j,
{
    if j < 0 || j >= sp.len() {
        None
    } else if sp[j].1 == SpanKind::BlockClose {
        Some(j)
    } else {
        find_block_close(sp, j + 1)
    }
}

/// An unsupported keyword at `i - 1`: everything up to `%}` is skipped,
/// the first span kept as `tail`.
pub open spec fn unsupported_spec(sp: SpansV, i: int, keyword: Seq<char>) -> Result<
    (PageOutcome, int),
    ComposeErrV,
> {
    match find_block_close(sp, i) {
        None => Err(ComposeErrV::Eof),
        Some(c) => Ok(
            (
                PageOutcome::Token(
                    PageTokV::Unsupported {
                        keyword,
                        tail: if c > i {
                            sp[i].0
                        } else {
                            ""@
                        },
                    },
                ),
                c + 1,
            ),
        ),
    }
}

pub open spec fn runtime_outcome(r: Result<(TokenV, int), SyntaxErrV>) -> Result<
    (PageOutcome, int),
    ComposeErrV,
> {
    match r {
        Ok((t, j)) => Ok((PageOutcome::Token(PageTokV::Runtime(t)), j)),
        Err(e) => Err(lift_err(e)),
    }
}

/// The keywords of the page grammar that take one argument.
pub enum ArgKeyword {
    Block,
    Static,
    Extends,
    Import,
    Asset,
}

pub open spec fn arg_keyword_outcome(k: ArgKeyword, a: Seq<char>) -> PageOutcome {
    match k {
        ArgKeyword::Block => PageOutcome::Token(PageTokV::BlockOpen(a)),
        ArgKeyword::Static => PageOutcome::Token(PageTokV::Static(a)),
        ArgKeyword::Extends => PageOutcome::Extends(a),
        ArgKeyword::Import => PageOutcome::Token(PageTokV::Import(a)),
        ArgKeyword::Asset => PageOutcome::Token(PageTokV::Runtime(TokenV::AssetRef(a))),
    }
}

pub open spec fn arg_outcome(r: Result<Seq<char>, SyntaxErrV>, i: int, k: ArgKeyword) -> Result<
    (PageOutcome, int),
    ComposeErrV,
> {
    match r {
        Ok(a) => Ok((arg_keyword_outcome(k, a), i + 2)),
        Err(e) => Err(lift_err(e)),
    }
}

/// `{% … %}` of the page grammar, the keyword at `i`.
pub open spec fn page_block_spec(sp: SpansV, i: int) -> Result<(PageOutcome, int), ComposeErrV> {
    match ident_at(sp, i, page_keywords()) {
        Err(e) => Err(lift_err(e)),
        Ok(kw) => if kw == "if"@ {
            runtime_outcome(if_spec(sp, i + 1))
        } else if kw == "else"@ {
            runtime_outcome(closed_spec(sp, i + 1, TokenV::Else))
        } else if kw == "endif"@ {
            runtime_outcome(closed_spec(sp, i + 1, TokenV::EndIf))
        } else if kw == "block"@ {
            arg_outcome(
                arg_spec(sp, i + 1, "Ident(name)"@),
                i + 1,
                ArgKeyword::Block,
            )
        } else if kw == "endblock"@ {
            match kind_close(sp, i + 1) {
                Err(e) => Err(lift_err(e)),
                Ok(_) => Ok((PageOutcome::Token(PageTokV::BlockEnd), i + 2)),
            }
        } else if kw == "static"@ {
            arg_outcome(
                arg_spec(sp, i + 1, "Ident(path)"@),
                i + 1,
                ArgKeyword::Static,
            )
        } else if kw == "extends"@ {
            arg_outcome(arg_spec(sp, i + 1, "Ident(path)"@), i + 1, ArgKeyword::Extends)
        } else if kw == "import"@ {
            arg_outcome(
                arg_spec(sp, i + 1, "Ident(path)"@),
                i + 1,
                ArgKeyword::Import,
            )
        } else if kw == "include"@ {
            Err(ComposeErrV::Invalid)
        } else if kw == "asset"@ {
            arg_outcome(
                arg_spec(sp, i + 1, "Ident(key)"@),
                i + 1,
                ArgKeyword::Asset,
            )
        } else if kw == "script"@ {
            runtime_outcome(closed_spec(sp, i + 1, TokenV::ScriptStart))
        } else if kw == "endscript"@ {
            runtime_outcome(closed_spec(sp, i + 1, TokenV::ScriptEnd))
        } else {
            unsupported_spec(sp, i + 1, kw)
        },
    }
}

/// `%}` at `i`.
pub open spec fn kind_close(sp: SpansV, i: int) -> Result<(), SyntaxErrV> {
    crate::fragment::parser::kind_at(sp, i, SpanKind::BlockClose, "BlockClose('%}')"@)
}

/// The page grammar from span `i` to the end: the `extends` target and
/// the tokens. `extends` is accepted only as the very first span.
pub open spec fn page_parse_from(sp: SpansV, i: int) -> Result<
    (Option<Seq<char>>, Seq<PageTokV>),
    ComposeErrV,
>
    decreases sp.len() - i,
{
    if i < 0 || i >= sp.len() {
        Ok((None, Seq::empty()))
    } else {
        let one: Result<(PageOutcome, int), ComposeErrV> = if sp[i].1 == SpanKind::Literal {
            Ok((PageOutcome::Token(PageTokV::Runtime(TokenV::Static(sp[i].0))), i + 1))
        } else if sp[i].1 == SpanKind::ExprOpen {
            runtime_outcome(expr_spec(sp, i + 1))
        } else if sp[i].1 == SpanKind::BlockOpen {
            page_block_spec(sp, i + 1)
        } else {
            Err(ComposeErrV::Unexpected { expected: "Literal | ExprOpen | BlockOpen"@, got: sp[i].1 })
        };
        match one {
            Err(e) => Err(e),
            Ok((o, j)) => if i < j <= sp.len() {
                match o {
                    PageOutcome::Extends(p) => if i != 0 {
                        Err(ComposeErrV::ExtendsNotFirst)
                    } else {
                        match page_parse_from(sp, j) {
                            Err(e) => Err(e),
                            Ok((_, rest)) => Ok((Some(p), rest)),
                        }
                    },
                    PageOutcome::Token(t) => match page_parse_from(sp, j) {
                        Err(e) => Err(e),
                        Ok((ext, rest)) => Ok((ext, seq![t] + rest)),
                    },
                }
            } else {
                Err(ComposeErrV::Invalid)
            },
        }
    }
}

/// What `parse_page_tokens` returns for the given spans.
pub open spec fn parse_page_spec(sp: SpansV) -> Result<ParsedV, ComposeErrV> {
    match page_parse_from(sp, 0) {
        Ok((extends, tokens)) => Ok(ParsedV { extends, tokens }),
        Err(e) => Err(e),
    }
}

pub open spec fn page_result_view<'src>(r: Result<ParsedPageTemplate<'src>, PageComposeParseError>) -> Result<
    ParsedV,
    ComposeErrV,
> {
    match r {
        Ok(p) => Ok(p.deep_view()),
        Err(e) => Err(e@),
    }
}

/// Exec outcome of a page block.
enum BlockOutcome<'src> {
    Token(PageSourceToken<'src>),
    Extends(&'src str),
}

spec fn outcome_view<'src>(o: BlockOutcome<'src>) -> PageOutcome {
    match o {
        BlockOutcome::Token(t) => PageOutcome::Token(t.deep_view()),
        BlockOutcome::Extends(p) => PageOutcome::Extends(p@),
    }
}

fn runtime_step<'src>(r: Result<(FlatPageToken<'src>, usize), PageParseError>) -> (o: Result<
    (BlockOutcome<'src>, usize),
    PageComposeParseError,
>)
    ensures
        match (o, r) {
            (Ok((b, j)), Ok((t, k))) => outcome_view(b) == PageOutcome::Token(
                PageTokV::Runtime(t.deep_view()),
            ) && j == k,
            (Err(e), Err(f)) => e@ == lift_err(f@),
            _ => false,
        },
{
    match r {
        Ok((t, j)) => Ok((BlockOutcome::Token(PageSourceToken::Runtime(t)), j)),
        Err(e) => Err(lift(e)),
    }
}

/// Skips an unsupported block up to its `%}`, keeping the first span.
fn skip_unsupported<'src>(spans: &Vec<RawSpan<'src>>, i: usize, keyword: &'src str) -> (r: Result<
    (BlockOutcome<'src>, usize),
    PageComposeParseError,
>)
    requires
        i <= spans.len(),
    ensures
        match (r, unsupported_spec(spans.deep_view(), i as int, keyword@)) {
            (Ok((b, j)), Ok((o, k))) => outcome_view(b) == o && j == k && i < j <= spans.len(),
            (Err(e), Err(f)) => e@ == f,
            _ => false,
        },
{
    let ghost sp = spans.deep_view();
    let mut j = i;
    while j < spans.len()
        invariant
            sp == spans.deep_view(),
            i <= j <= spans.len(),
            find_block_close(sp, i as int) == find_block_close(sp, j as int),
        decreases spans.len() - j,
    {
        assert(sp[j as int] == spans[j as int].deep_view());
        if spans[j].kind == SpanKind::BlockClose {
            let tail: &'src str = if j > i {
                assert(sp[i as int] == spans[i as int].deep_view());
                spans[i].slice
            } else {
                ""
            };
            return Ok((BlockOutcome::Token(PageSourceToken::Unsupported { keyword, tail }), j + 1));
        }
        j += 1;
    }
    Err(PageComposeParseError::UnexpectedEof)
}

fn arg_step<'src>(
    spans: &Vec<RawSpan<'src>>,
    i: usize,
    expected: &'static str,
) -> (r: Result<(&'src str, usize), PageComposeParseError>)
    requires
        i <= spans.len(),
    ensures
        match r {
            Ok((a, j)) => arg_spec(spans.deep_view(), i as int, expected@) == Ok::<
                Seq<char>,
                SyntaxErrV,
            >(a@) && j == i + 2 && j <= spans.len(),
            Err(e) => arg_spec(spans.deep_view(), i as int, expected@) is Err && e@ == lift_err(
                arg_spec(spans.deep_view(), i as int, expected@)->Err_0,
            ),
        },
{
    match parse_arg(spans, i, expected) {
        Ok(a) => Ok((a, i + 2)),
        Err(e) => Err(lift(e)),
    }
}

/// `{% … %}` of the page grammar, from the keyword at `i`.
fn parse_page_block<'src>(spans: &Vec<RawSpan<'src>>, i: usize) -> (r: Result<
    (BlockOutcome<'src>, usize),
    PageComposeParseError,
>)
    requires
        i <= spans.len(),
    ensures
        match (r, page_block_spec(spans.deep_view(), i as int)) {
            (Ok((b, j)), Ok((o, k))) => outcome_view(b) == o && j == k && i < j <= spans.len(),
            (Err(e), Err(f)) => e@ == f,
            _ => false,
        },
{
    let keyword = match expect_ident(
        spans,
        i,
        "keyword (if | else | endif | block | endblock | static | extends | import | asset | script | endscript)",
    ) {
        Ok(k) => k,
        Err(e) => return Err(lift(e)),
    };
    if str_eq(keyword, "if") {
        runtime_step(parse_if(spans, i + 1))
    } else if str_eq(keyword, "else") {
        runtime_step(parse_closed(spans, i + 1, FlatPageToken::Else))
    } else if str_eq(keyword, "endif") {
        runtime_step(parse_closed(spans, i + 1, FlatPageToken::EndIf))
    } else if str_eq(keyword, "block") {
        match arg_step(spans, i + 1, "Ident(name)") {
            Ok((name, j)) => Ok(
                (BlockOutcome::Token(PageSourceToken::Block(PageBlockToken::BlockOpen { name })), j),
            ),
            Err(e) => Err(e),
        }
    } else if str_eq(keyword, "endblock") {
        match expect_kind(spans, i + 1, SpanKind::BlockClose, "BlockClose('%}')") {
            Ok(_) => Ok((BlockOutcome::Token(PageSourceToken::Block(PageBlockToken::BlockEnd)), i + 2)),
            Err(e) => Err(lift(e)),
        }
    } else if str_eq(keyword, "static") {
        match arg_step(spans, i + 1, "Ident(path)") {
            Ok((original_path, j)) => Ok(
                (BlockOutcome::Token(PageSourceToken::Static(StaticPartialRef { original_path })), j),
            ),
            Err(e) => Err(e),
        }
    } else if str_eq(keyword, "extends") {
        match arg_step(spans, i + 1, "Ident(path)") {
            Ok((path, j)) => Ok((BlockOutcome::Extends(path), j)),
            Err(e) => Err(e),
        }
    } else if str_eq(keyword, "import") {
        match arg_step(spans, i + 1, "Ident(path)") {
            Ok((original_path, j)) => Ok(
                (BlockOutcome::Token(PageSourceToken::Import(ImportRef { original_path })), j),
            ),
            Err(e) => Err(e),
        }
    } else if str_eq(keyword, "include") {
        Err(PageComposeParseError::InvalidBlockSequence)
    } else if str_eq(keyword, "asset") {
        match arg_step(spans, i + 1, "Ident(key)") {
            Ok((key, j)) => Ok(
                (BlockOutcome::Token(PageSourceToken::Runtime(FlatPageToken::AssetRef(key))), j),
            ),
            Err(e) => Err(e),
        }
    } else if str_eq(keyword, "script") {
        runtime_step(parse_closed(spans, i + 1, FlatPageToken::ScriptStart))
    } else if str_eq(keyword, "endscript") {
        runtime_step(parse_closed(spans, i + 1, FlatPageToken::ScriptEnd))
    } else {
        skip_unsupported(spans, i + 1, keyword)
    }
}

/// Classifies the spans of a page template. `{% extends path %}` is
/// accepted only as the very first span and is returned apart from the
/// tokens; the first syntax error stops the parse.
pub fn parse_page_tokens<'src>(spans: Vec<RawSpan<'src>>) -> (r: Result<
    ParsedPageTemplate<'src>,
    PageComposeParseError,
>)
    ensures
        page_result_view(r) == parse_page_spec(spans.deep_view()),
{
    let ghost sp = spans.deep_view();
    let mut tokens: Vec<PageSourceToken<'src>> = Vec::new();
    let mut extends: Option<&'src str> = None;
    let mut i: usize = 0;
    while i < spans.len()
        invariant
            sp == spans.deep_view(),
            i <= spans.len(),
            i == 0 ==> extends is None && tokens@.len() == 0,
            match page_parse_from(sp, i as int) {
                Ok((ext, rest)) => page_parse_from(sp, 0) == Ok::<
                    (Option<Seq<char>>, Seq<PageTokV>),
                    ComposeErrV,
                >(
                    (
                        if i == 0 {
                            ext
                        } else {
                            match extends {
                                Some(e) => Some(e@),
                                None => None,
                            }
                        },
                        tokens.deep_view() + rest,
                    ),
                ) && (i > 0 ==> ext is None),
                Err(e) => page_parse_from(sp, 0) == Err::<
                    (Option<Seq<char>>, Seq<PageTokV>),
                    ComposeErrV,
                >(e),
            },
        decreases spans.len() - i,
    {
        let span = spans[i];
        assert(sp[i as int] == span.deep_view());
        let step: Result<(BlockOutcome<'src>, usize), PageComposeParseError> = if span.kind
            == SpanKind::Literal {
            Ok((BlockOutcome::Token(PageSourceToken::Runtime(FlatPageToken::Static(span.slice))), i + 1))
        } else if span.kind == SpanKind::ExprOpen {
            runtime_step(parse_expr(&spans, i + 1))
        } else if span.kind == SpanKind::BlockOpen {
            parse_page_block(&spans, i + 1)
        } else {
            Err(
                PageComposeParseError::UnexpectedToken {
                    expected: "Literal | ExprOpen | BlockOpen",
                    got: span.kind,
                },
            )
        };
        match step {
            Err(e) => {
                return Err(e);
            },
            Ok((BlockOutcome::Extends(p), j)) => {
                if i != 0 {
                    return Err(PageComposeParseError::ExtendsNotFirst);
                }
                extends = Some(p);
                proof {
                    assert(tokens.deep_view() =~= Seq::<PageTokV>::empty());
                    match page_parse_from(sp, j as int) {
                        Ok((ext2, rest)) => {
                            assert(Seq::<PageTokV>::empty() + rest =~= rest);
                            if j > 0 {
                                lemma_no_late_extends(sp, j as int);
                            }
                        },
                        Err(_) => {},
                    }
                }
                i = j;
            },
            Ok((BlockOutcome::Token(t), j)) => {
                let ghost old_toks = tokens.deep_view();
                tokens.push(t);
                assert(tokens.deep_view() =~= old_toks.push(t.deep_view()));
                proof {
                    match page_parse_from(sp, j as int) {
                        Ok((ext2, rest)) => {
                            assert(old_toks + (seq![t.deep_view()] + rest) =~= tokens.deep_view()
                                + rest);
                            lemma_no_late_extends(sp, j as int);
                        },
                        Err(_) => {},
                    }
                }
                i = j;
            },
        }
    }
    assert(tokens.deep_view() + Seq::<PageTokV>::empty() =~= tokens.deep_view());
    Ok(ParsedPageTemplate { extends, tokens })
}

/// A parse that starts after the first span never yields an `extends`.
proof fn lemma_no_late_extends(sp: SpansV, i: int)
    requires
        i > 0,
    ensures
        page_parse_from(sp, i) matches Ok((ext, _)) ==> ext is None,
    decreases sp.len() - i,
{
    if i < sp.len() {
        let one: Result<(PageOutcome, int), ComposeErrV> = if sp[i].1 == SpanKind::Literal {
            Ok((PageOutcome::Token(PageTokV::Runtime(TokenV::Static(sp[i].0))), i + 1))
        } else if sp[i].1 == SpanKind::ExprOpen {
            runtime_outcome(expr_spec(sp, i + 1))
        } else if sp[i].1 == SpanKind::BlockOpen {
            page_block_spec(sp, i + 1)
        } else {
            Err(ComposeErrV::Unexpected { expected: "Literal | ExprOpen | BlockOpen"@, got: sp[i].1 })
        };
        match one {
            Ok((_, j)) => if i < j <= sp.len() {
                lemma_no_late_extends(sp, j);
            },
            Err(_) => {},
        }
    }
}

/// The outcome of the first construct of a parse, and where the rest starts.
spec fn head_outcome(sp: SpansV) -> Result<(PageOutcome, int), ComposeErrV> {
    if sp[0].1 == SpanKind::Literal {
        Ok((PageOutcome::Token(PageTokV::Runtime(TokenV::Static(sp[0].0))), 1))
    } else if sp[0].1 == SpanKind::ExprOpen {
        runtime_outcome(expr_spec(sp, 1))
    } else if sp[0].1 == SpanKind::BlockOpen {
        page_block_spec(sp, 1)
    } else {
        Err(ComposeErrV::Unexpected { expected: "Literal | ExprOpen | BlockOpen"@, got: sp[0].1 })
    }
}

/// A block yields `extends` only when its keyword is `extends`.
proof fn lemma_block_extends_keyword(sp: SpansV, i: int)
    requires
        page_block_spec(sp, i) matches Ok((PageOutcome::Extends(_), _)),
    ensures
        0 <= i < sp.len(),
        sp[i].1 == SpanKind::Ident,
        sp[i].0 == "extends"@,
{
}

/// A template is a page exactly when it opens with `{% extends %}`: on a
/// template that parses, the parsed parent is present exactly when
/// `detect_extends` says so.
pub proof fn detect_extends_agrees_with_parse(source: Seq<char>)
    requires
        parse_page_spec(scan_spec(source)) is Ok,
    ensures
        (parse_page_spec(scan_spec(source))->Ok_0.extends is Some) == detect_extends_spec(source),
{
    let sp = scan_spec(source);
    if sp.len() > 0 {
        let one = head_outcome(sp);
        assert(one is Ok);
        let (o, j) = one->Ok_0;
        assert(0 < j <= sp.len());
        match o {
            PageOutcome::Extends(_) => {
                assert(sp[0].1 == SpanKind::BlockOpen);
                lemma_block_extends_keyword(sp, 1);
                assert(page_parse_from(sp, 0)->Ok_0.0 is Some);
            },
            PageOutcome::Token(_) => {
                lemma_no_late_extends(sp, j);
                assert(page_parse_from(sp, j) is Ok);
                assert(page_parse_from(sp, 0)->Ok_0.0 == page_parse_from(sp, j)->Ok_0.0);
                if detect_extends_spec(source) {
                    assert(sp[0].1 == SpanKind::BlockOpen);
                    assert(ident_at(sp, 1, page_keywords()) == Ok::<Seq<char>, SyntaxErrV>("extends"@));
                    reveal_strlit("extends");
                    reveal_strlit("if");
                    reveal_strlit("else");
                    reveal_strlit("endif");
                    reveal_strlit("block");
                    reveal_strlit("endblock");
                    reveal_strlit("static");
                    assert("extends"@.len() == 7);
                    assert("if"@.len() == 2);
                    assert("else"@.len() == 4);
                    assert("endif"@.len() == 5);
                    assert("block"@.len() == 5);
                    assert("endblock"@.len() == 8);
                    assert("static"@.len() == 6);
                    assert(page_block_spec(sp, 1) == arg_outcome(
                        arg_spec(sp, 2, "Ident(path)"@),
                        2,
                        ArgKeyword::Extends,
                    ));
                    assert(false);
                }
            },
        }
    }
}

/// `ts` holds no static inclusion (which the page grammar spells
/// `{% static %}` instead).
pub open spec fn no_static_include(ts: Seq<TokenV>) -> bool {
    forall|k: int| 0 <= k < ts.len() ==> !(#[trigger] ts[k] is StaticInclude)
}

proof fn lemma_block_agrees(sp: SpansV, i: int)
    requires
        block_spec(sp, i) is Ok,
        !(block_spec(sp, i)->Ok_0.0 is StaticInclude),
    ensures
        page_block_spec(sp, i) == Ok::<(PageOutcome, int), ComposeErrV>(
            (
                PageOutcome::Token(PageTokV::Runtime(block_spec(sp, i)->Ok_0.0)),
                block_spec(sp, i)->Ok_0.1,
            ),
        ),
        block_spec(sp, i)->Ok_0.1 <= sp.len(),
{
    reveal_strlit("if");
    reveal_strlit("else");
    reveal_strlit("endif");
    reveal_strlit("block");
    reveal_strlit("endblock");
    reveal_strlit("static");
    reveal_strlit("extends");
    reveal_strlit("import");
    reveal_strlit("include");
    reveal_strlit("asset");
    reveal_strlit("script");
    reveal_strlit("endscript");
    let kw = ident_at(sp, i, fragment_keywords())->Ok_0;
    assert(ident_at(sp, i, page_keywords()) == Ok::<Seq<char>, SyntaxErrV>(kw));
    let goal = Ok::<(PageOutcome, int), ComposeErrV>(
        (
            PageOutcome::Token(PageTokV::Runtime(block_spec(sp, i)->Ok_0.0)),
            block_spec(sp, i)->Ok_0.1,
        ),
    );
    if kw == "if"@ {
        assert(page_block_spec(sp, i) == runtime_outcome(if_spec(sp, i + 1)));
        assert(page_block_spec(sp, i) == goal);
    } else if kw == "else"@ {
        assert(page_block_spec(sp, i) == goal);
    } else if kw == "endif"@ {
        assert(page_block_spec(sp, i) == goal);
    } else if kw == "asset"@ {
        assert("asset"@[0] != "block"@[0] && "asset"@[0] != "static"@[0] && "asset"@[0]
            != "endblock"@[0] && "asset"@[0] != "extends"@[0] && "asset"@[0] != "import"@[0]
            && "asset"@[0] != "include"@[0]);
        let a = arg_spec(sp, i + 1, "Ident(key)"@)->Ok_0;
        assert(arg_spec(sp, i + 1, "Ident(key)"@) == Ok::<Seq<char>, SyntaxErrV>(a));
        assert(block_spec(sp, i) == Ok::<(TokenV, int), SyntaxErrV>((TokenV::AssetRef(a), i + 3)));
        assert(page_block_spec(sp, i) == goal);
    } else if kw == "script"@ {
        assert("script"@[0] != "block"@[0] && "script"@[1] != "static"@[1] && "script"@[0]
            != "endblock"@[0] && "script"@[0] != "extends"@[0] && "script"@[0] != "import"@[0]
            && "script"@[0] != "include"@[0]);
        assert(page_block_spec(sp, i) == goal);
    } else if kw == "endscript"@ {
        assert("endscript"@[0] != "block"@[0] && "endscript"@[0] != "static"@[0] && "endscript"@[3]
            != "endblock"@[3] && "endscript"@[1] != "extends"@[1] && "endscript"@[0] != "import"@[0]
            && "endscript"@[0] != "include"@[0]);
        assert(page_block_spec(sp, i) == goal);
    } else {
        assert(kw == "include"@);
    }
}

proof fn lemma_runtime_agrees(sp: SpansV, i: int)
    requires
        parse_from(sp, i) is Ok,
        no_static_include(parse_from(sp, i)->Ok_0),
    ensures
        page_parse_from(sp, i) == Ok::<(Option<Seq<char>>, Seq<PageTokV>), ComposeErrV>(
            (None, parse_from(sp, i)->Ok_0.map_values(|t: TokenV| PageTokV::Runtime(t))),
        ),
    decreases sp.len() - i,
{
    if i < 0 || i >= sp.len() {
        assert(parse_from(sp, i)->Ok_0.map_values(|t: TokenV| PageTokV::Runtime(t)) =~= Seq::<
            PageTokV,
        >::empty());
    } else {
        let one: Result<(TokenV, int), SyntaxErrV> = if sp[i].1 == SpanKind::Literal {
            Ok((TokenV::Static(sp[i].0), i + 1))
        } else if sp[i].1 == SpanKind::ExprOpen {
            expr_spec(sp, i + 1)
        } else if sp[i].1 == SpanKind::BlockOpen {
            block_spec(sp, i + 1)
        } else {
            Err(SyntaxErrV::Unexpected { expected: "Literal | ExprOpen | BlockOpen"@, got: sp[i].1 })
        };
        let (t, j) = one->Ok_0;
        let ts = parse_from(sp, i)->Ok_0;
        let rest = parse_from(sp, j)->Ok_0;
        assert(ts == seq![t] + rest);
        assert(ts[0] == t);
        assert forall|k: int| 0 <= k < rest.len() implies !(#[trigger] rest[k] is StaticInclude) by {
            assert(ts[k + 1] == rest[k]);
        }
        if sp[i].1 == SpanKind::BlockOpen {
            lemma_block_agrees(sp, i + 1);
        }
        lemma_runtime_agrees(sp, j);
        assert(ts.map_values(|t: TokenV| PageTokV::Runtime(t)) =~= seq![PageTokV::Runtime(t)]
            + rest.map_values(|t: TokenV| PageTokV::Runtime(t)));
    }
}

/// On a template that uses only the runtime grammar (no composition
/// operator, no `include`), the page parser yields what the fragment
/// parser yields, each token wrapped as `Runtime`, and no `extends`.
pub proof fn page_parser_agrees_with_fragment_parser(sp: SpansV)
    requires
        parse_from(sp, 0) is Ok,
        no_static_include(parse_from(sp, 0)->Ok_0),
    ensures
        parse_page_spec(sp) == Ok::<ParsedV, ComposeErrV>(
            ParsedV {
                extends: None,
                tokens: parse_from(sp, 0)->Ok_0.map_values(|t: TokenV| PageTokV::Runtime(t)),
            },
        ),
{
    lemma_runtime_agrees(sp, 0);
}

/// The same on a template source: when the fragment parser accepts the
/// spans that `scan` cuts from `source` and they hold no `include`, parsing
/// those spans as a page gives back the fragment tokens, each wrapped as
/// `Runtime`, and no `extends`.
pub proof fn page_parse_of_scanned_runtime_source(source: Seq<char>)
    requires
        parse_from(scan_spec(source), 0) is Ok,
        no_static_include(parse_from(scan_spec(source), 0)->Ok_0),
    ensures
        parse_page_spec(scan_spec(source)) == Ok::<ParsedV, ComposeErrV>(
            ParsedV {
                extends: None,
                tokens: parse_from(scan_spec(source), 0)->Ok_0.map_values(
                    |t: TokenV| PageTokV::Runtime(t),
                ),
            },
        ),
{
    page_parser_agrees_with_fragment_parser(scan_spec(source));
}

} // verus!
