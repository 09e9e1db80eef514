#![allow(unused_imports)]
use marius_forge::fragment::lexer::scan;
use marius_forge::fragment::parser::parse_tokens;
use marius_forge::fragment::token::FlatPageToken;
use marius_forge::page::blocks::collect_blocks;
use marius_forge::page::importer::collect_top_level_imports;
use marius_forge::page::linker::{BlockSubstitution, LinkPlan, collect_static_refs, link, link_chain};
use marius_forge::page::lowering::lower;
use marius_forge::page::model::{
    ImportRef, NamedBlockRange, PageArena, PageBlockToken, PageComposeParseError, PageImportError,
    PageLinkError, PageValidationError, ParsedPageTemplate, StaticPartialRef, TemplateId,
};
use marius_forge::page::parser::{detect_extends, parse_page_tokens};
use marius_forge::page::token::PageSourceToken;

#[test]
fn no_block_delimiter_returns_false() {
    assert!(!detect_extends("<div>hello {{ entity.field }}</div>"));
}

#[test]
fn extends_at_head_returns_true() {
    assert!(detect_extends(r#"{% extends "base.marius" %}"#));
}

#[test]
fn if_at_head_returns_false() {
    assert!(!detect_extends("{% if entity.active %}yes{% endif %}"));
}

#[test]
fn extends_after_leading_text_returns_false() {
    assert!(!detect_extends(
        r#"<p>intro</p>{% extends "base.marius" %}"#
    ));
}

#[test]
fn empty_source_returns_false() {
    assert!(!detect_extends(""));
}

fn strip_runtime_envelope(tokens: Vec<PageSourceToken<'_>>) -> Vec<FlatPageToken<'_>> {
    tokens
        .into_iter()
        .map(|t| match t {
            PageSourceToken::Runtime(inner) => inner,
            other => panic!(
                "fixture de non-régression 4.3 attend uniquement Runtime, obtenu {other:?}"
            ),
        })
        .collect()
}

#[test]
fn runtime_subset_matches_parse_tokens_static_only() {
    let src = "<div>plain html</div>";

    let expected = parse_tokens(scan(src)).expect("parse_tokens (référence) doit réussir");
    let actual =
        parse_page_tokens(scan(src)).expect("parse_page_tokens (classifieur) doit réussir");

    assert_eq!(strip_runtime_envelope(actual.tokens), expected);
}

#[test]
fn runtime_subset_matches_parse_tokens_field_only() {
    let src = "{{ user.name }}";

    let expected = parse_tokens(scan(src)).expect("parse_tokens (référence) doit réussir");
    let actual =
        parse_page_tokens(scan(src)).expect("parse_page_tokens (classifieur) doit réussir");

    assert_eq!(strip_runtime_envelope(actual.tokens), expected);
}

#[test]
fn runtime_subset_matches_parse_tokens_if_endif() {
    let src = "{% if user.active %}yes{% endif %}";

    let expected = parse_tokens(scan(src)).expect("parse_tokens (référence) doit réussir");
    let actual =
        parse_page_tokens(scan(src)).expect("parse_page_tokens (classifieur) doit réussir");

    assert_eq!(strip_runtime_envelope(actual.tokens), expected);
}

#[test]
fn composition_keyword_out_of_scope_fails_explicitly() {
    let src = r#"{% include fragment.html %}"#;
    let result = parse_page_tokens(scan(src));
    assert_eq!(result, Err(PageComposeParseError::InvalidBlockSequence));
}

#[test]
fn single_top_level_block_produces_block_open_and_block_end() {
    let src = "{% block header %}content{% endblock %}";

    let actual = parse_page_tokens(scan(src))
        .expect("parse_page_tokens doit réussir sur un bloc bien formé");

    assert_eq!(
        actual.tokens,
        vec![
            PageSourceToken::Block(PageBlockToken::BlockOpen { name: "header" }),
            PageSourceToken::Runtime(FlatPageToken::Static("content")),
            PageSourceToken::Block(PageBlockToken::BlockEnd),
        ]
    );
}

#[test]
fn nested_blocks_parse_succeeds() {
    let src = "{% block outer %}{% block inner %}x{% endblock %}{% endblock %}";

    let actual = parse_page_tokens(scan(src))
        .expect("parse_page_tokens doit réussir sur des blocs imbriqués");

    assert_eq!(
        actual.tokens,
        vec![
            PageSourceToken::Block(PageBlockToken::BlockOpen { name: "outer" }),
            PageSourceToken::Block(PageBlockToken::BlockOpen { name: "inner" }),
            PageSourceToken::Runtime(FlatPageToken::Static("x")),
            PageSourceToken::Block(PageBlockToken::BlockEnd),
            PageSourceToken::Block(PageBlockToken::BlockEnd),
        ]
    );
}

#[test]
fn static_path_parses_without_touching_filesystem() {
    let src = "before{% static this/path/does/not/exist.html %}after";

    let actual = parse_page_tokens(scan(src))
        .expect("parse_page_tokens doit réussir sans vérifier l'existence du fichier");

    assert_eq!(
        actual.tokens,
        vec![
            PageSourceToken::Runtime(FlatPageToken::Static("before")),
            PageSourceToken::Static(StaticPartialRef {
                original_path: "this/path/does/not/exist.html",
            }),
            PageSourceToken::Runtime(FlatPageToken::Static("after")),
        ]
    );
}

#[test]
fn extends_at_head_is_captured_and_absent_from_tokens() {
    let src = "{% extends base.marius %}content";

    let actual = parse_page_tokens(scan(src))
        .expect("parse_page_tokens doit réussir avec extends en tête");

    assert_eq!(actual.extends, Some("base.marius"));
    assert_eq!(
        actual.tokens,
        vec![PageSourceToken::Runtime(FlatPageToken::Static("content"))]
    );
}

#[test]
fn extends_after_a_static_token_fails_with_extends_not_first() {
    let src = "leading text{% extends base.marius %}";

    let result = parse_page_tokens(scan(src));

    assert_eq!(result, Err(PageComposeParseError::ExtendsNotFirst));
}

#[test]
fn absent_extends_on_parent_file_succeeds_with_none() {
    let src = "{% block header %}content{% endblock %}";

    let actual =
        parse_page_tokens(scan(src)).expect("parse_page_tokens doit réussir sans extends");

    assert_eq!(actual.extends, None);
}

#[test]
fn unsupported_catch_all_captures_arbitrary_keywords() {
    let keywords = ["for", "join", "where", "filter", "group", "frobnicate"];

    for keyword in keywords {
        let src = format!("{{% {keyword} arg %}}");
        let actual = parse_page_tokens(scan(&src)).unwrap_or_else(|e| {
            panic!("mot-clé {keyword:?} doit être capturé, pas rejeté (erreur : {e:?})")
        });

        assert_eq!(
            actual.tokens.len(),
            1,
            "mot-clé {keyword:?} : un seul token attendu dans le flux"
        );
        match actual.tokens[0] {
            PageSourceToken::Unsupported {
                keyword: got_keyword,
                ..
            } => assert_eq!(got_keyword, keyword, "keyword capturé incorrect"),
            other => panic!("mot-clé {keyword:?} : attendu Unsupported, obtenu {other:?}"),
        }
    }
}
