#![allow(unused_imports)]
use marius_forge::fragment::lexer::scan;
use marius_forge::fragment::parser::parse_tokens;
use marius_forge::fragment::token::FlatPageToken;
use marius_forge::page::blocks::collect_blocks;
use marius_forge::page::importer::collect_top_level_imports;
use marius_forge::page::linker::{BlockSubstitution, LinkPlan, collect_static_refs, link, link_chain};
use marius_forge::page::lowering::lower;
use marius_forge::page::model::{
    ImportRef, NamedBlockRange, PageArena, PageBlockToken, PageComposeParseError, PageImportError,
    PageLinkError, PageValidationError, ParsedPageTemplate, StaticPartialRef, TemplateId,
};
use marius_forge::page::parser::{detect_extends, parse_page_tokens};
use marius_forge::page::token::PageSourceToken;

#[test]
fn two_top_level_blocks_produce_exact_ranges() {
    let template = TemplateId(0);
    let tokens = vec![
        PageSourceToken::Block(PageBlockToken::BlockOpen { name: "a" }),
        PageSourceToken::Runtime(FlatPageToken::Static("x")),
        PageSourceToken::Block(PageBlockToken::BlockEnd),
        PageSourceToken::Block(PageBlockToken::BlockOpen { name: "b" }),
        PageSourceToken::Runtime(FlatPageToken::Static("y")),
        PageSourceToken::Block(PageBlockToken::BlockEnd),
    ];

    let ranges = collect_blocks(template, &tokens).expect("chemin heureux attendu");

    assert_eq!(
        ranges,
        vec![
            NamedBlockRange {
                name: "a",
                template,
                start: 1,
                end: 2,
                parent_index: None,
            },
            NamedBlockRange {
                name: "b",
                template,
                start: 4,
                end: 5,
                parent_index: None,
            },
        ]
    );
}

#[test]
fn single_level_nesting_attaches_child_via_parent_index() {
    let template = TemplateId(0);
    let tokens = vec![
        PageSourceToken::Block(PageBlockToken::BlockOpen { name: "outer" }),
        PageSourceToken::Block(PageBlockToken::BlockOpen { name: "inner" }),
        PageSourceToken::Runtime(FlatPageToken::Static("x")),
        PageSourceToken::Block(PageBlockToken::BlockEnd),
        PageSourceToken::Block(PageBlockToken::BlockEnd),
    ];

    let ranges = collect_blocks(template, &tokens).expect("imbrication admise, chemin heureux");

    assert_eq!(
        ranges,
        vec![
            NamedBlockRange {
                name: "outer",
                template,
                start: 1,
                end: 4,
                parent_index: None,
            },
            NamedBlockRange {
                name: "inner",
                template,
                start: 2,
                end: 3,
                parent_index: Some(0),
            },
        ]
    );
}

#[test]
fn three_level_nesting_each_child_points_to_its_direct_parent() {
    let template = TemplateId(0);
    let tokens = vec![
        PageSourceToken::Block(PageBlockToken::BlockOpen { name: "main_nav" }),
        PageSourceToken::Block(PageBlockToken::BlockOpen {
            name: "current_tab",
        }),
        PageSourceToken::Block(PageBlockToken::BlockOpen { name: "tab_icon" }),
        PageSourceToken::Runtime(FlatPageToken::Static("x")),
        PageSourceToken::Block(PageBlockToken::BlockEnd),
        PageSourceToken::Block(PageBlockToken::BlockEnd),
        PageSourceToken::Block(PageBlockToken::BlockEnd),
    ];

    let ranges = collect_blocks(template, &tokens).expect("imbrication admise, chemin heureux");

    assert_eq!(ranges.len(), 3);
    assert_eq!(ranges[0].name, "main_nav");
    assert_eq!(ranges[0].parent_index, None);
    assert_eq!(ranges[1].name, "current_tab");
    assert_eq!(ranges[1].parent_index, Some(0));
    assert_eq!(ranges[2].name, "tab_icon");
    assert_eq!(ranges[2].parent_index, Some(1));
}

#[test]
fn two_siblings_under_same_parent_share_parent_index() {
    let template = TemplateId(0);
    let tokens = vec![
        PageSourceToken::Block(PageBlockToken::BlockOpen { name: "outer" }),
        PageSourceToken::Block(PageBlockToken::BlockOpen { name: "first" }),
        PageSourceToken::Block(PageBlockToken::BlockEnd),
        PageSourceToken::Block(PageBlockToken::BlockOpen { name: "second" }),
        PageSourceToken::Block(PageBlockToken::BlockEnd),
        PageSourceToken::Block(PageBlockToken::BlockEnd),
    ];

    let ranges = collect_blocks(template, &tokens).expect("imbrication admise, chemin heureux");

    assert_eq!(ranges.len(), 3);
    assert_eq!(ranges[1].name, "first");
    assert_eq!(ranges[1].parent_index, Some(0));
    assert_eq!(ranges[2].name, "second");
    assert_eq!(ranges[2].parent_index, Some(0));
}

#[test]
fn for_keyword_produces_for_loop_detected() {
    let template = TemplateId(0);
    let tokens = vec![PageSourceToken::Unsupported {
        keyword: "for",
        tail: " item in items",
    }];

    let result = collect_blocks(template, &tokens);

    assert_eq!(result, Err(vec![PageValidationError::ForLoopDetected]));
}

#[test]
fn relational_keywords_produce_relational_keyword_error() {
    let template = TemplateId(0);

    for keyword in ["join", "where", "filter", "group"] {
        let tokens = vec![PageSourceToken::Unsupported { keyword, tail: "" }];

        let result = collect_blocks(template, &tokens);

        assert_eq!(
            result,
            Err(vec![PageValidationError::RelationalKeyword { keyword }]),
            "mot-clé {keyword:?} : erreur RelationalKeyword attendue"
        );
    }
}

#[test]
fn arbitrary_unsupported_keyword_also_produces_relational_keyword_error() {
    let template = TemplateId(0);
    let tokens = vec![PageSourceToken::Unsupported {
        keyword: "frobnicate",
        tail: " arg",
    }];

    let result = collect_blocks(template, &tokens);

    assert_eq!(
        result,
        Err(vec![PageValidationError::RelationalKeyword {
            keyword: "frobnicate"
        }])
    );
}

#[test]
fn two_unsupported_keywords_in_same_stream_accumulate_both_errors() {
    let template = TemplateId(0);
    let tokens = vec![
        PageSourceToken::Unsupported {
            keyword: "for",
            tail: "",
        },
        PageSourceToken::Unsupported {
            keyword: "where",
            tail: "",
        },
    ];

    let result = collect_blocks(template, &tokens);

    assert_eq!(
        result,
        Err(vec![
            PageValidationError::ForLoopDetected,
            PageValidationError::RelationalKeyword { keyword: "where" },
        ])
    );
}
