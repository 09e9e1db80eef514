#![allow(unused_imports)]
use marius_forge::fragment::lexer::scan;
use marius_forge::fragment::parser::parse_tokens;
use marius_forge::fragment::token::FlatPageToken;
use marius_forge::page::blocks::collect_blocks;
use marius_forge::page::importer::collect_top_level_imports;
use marius_forge::page::linker::{BlockSubstitution, LinkPlan, collect_static_refs, link, link_chain};
use marius_forge::page::lowering::lower;
use marius_forge::page::model::{
    ImportRef, NamedBlockRange, PageArena, PageBlockToken, PageComposeParseError, PageImportError,
    PageLinkError, PageValidationError, ParsedPageTemplate, StaticPartialRef, TemplateId,
};
use marius_forge::page::parser::{detect_extends, parse_page_tokens};
use marius_forge::page::token::PageSourceToken;

fn range(name: &str, template: TemplateId, start: usize, end: usize) -> NamedBlockRange<'_> {
    NamedBlockRange {
        name,
        template,
        start,
        end,
        parent_index: None,
    }
}

#[test]
fn child_override_replaces_parent_range() {
    let parent_template = TemplateId(0);
    let child_template = TemplateId(1);
    let parent_blocks = vec![range("title", parent_template, 0, 3)];
    let child_blocks = vec![range("title", child_template, 10, 20)];

    let plan = link(&parent_blocks, &child_blocks, &[], |_| true).expect("pas d'orphelin");

    assert_eq!(
        plan,
        LinkPlan {
            substitutions: vec![BlockSubstitution {
                name: "title",
                source: range("title", child_template, 10, 20),
            }],
        }
    );
}

#[test]
fn parent_range_kept_when_no_override() {
    let parent_template = TemplateId(0);
    let parent_blocks = vec![range("footer", parent_template, 5, 8)];
    let child_blocks: Vec<NamedBlockRange<'_>> = Vec::new();

    let plan = link(&parent_blocks, &child_blocks, &[], |_| true).expect("pas d'orphelin");

    assert_eq!(
        plan,
        LinkPlan {
            substitutions: vec![BlockSubstitution {
                name: "footer",
                source: range("footer", parent_template, 5, 8),
            }],
        }
    );
}

#[test]
fn child_block_without_parent_match_is_orphan() {
    let parent_template = TemplateId(0);
    let child_template = TemplateId(1);
    let parent_blocks = vec![range("title", parent_template, 0, 3)];
    let child_blocks = vec![range("sidebar", child_template, 0, 3)];

    let result = link(&parent_blocks, &child_blocks, &[], |_| true);

    assert_eq!(
        result,
        Err(vec![PageLinkError::OrphanBlock {
            name: "sidebar",
            template: child_template,
        }])
    );
}

#[test]
fn substitutions_len_always_equals_parent_blocks_len() {
    let parent_template = TemplateId(0);
    let child_template = TemplateId(1);
    let parent_blocks = vec![
        range("a", parent_template, 0, 1),
        range("b", parent_template, 2, 3),
        range("c", parent_template, 4, 5),
    ];
    let child_blocks = vec![range("b", child_template, 10, 11)];

    let plan = link(&parent_blocks, &child_blocks, &[], |_| true).expect("pas d'orphelin");

    assert_eq!(plan.substitutions.len(), parent_blocks.len());
}

#[test]
fn missing_static_file_produces_static_file_not_found() {
    let parent_blocks: Vec<NamedBlockRange<'_>> = Vec::new();
    let child_blocks: Vec<NamedBlockRange<'_>> = Vec::new();
    let static_refs = vec![StaticPartialRef {
        original_path: "nav.html",
    }];

    let result = link(&parent_blocks, &child_blocks, &static_refs, |_| false);

    assert_eq!(
        result,
        Err(vec![PageLinkError::StaticFileNotFound { path: "nav.html" }])
    );
}

#[test]
fn existing_static_file_produces_no_error() {
    let parent_blocks: Vec<NamedBlockRange<'_>> = Vec::new();
    let child_blocks: Vec<NamedBlockRange<'_>> = Vec::new();
    let static_refs = vec![StaticPartialRef {
        original_path: "nav.html",
    }];

    let result = link(&parent_blocks, &child_blocks, &static_refs, |_| true);

    assert!(result.is_ok());
    assert!(result.unwrap().substitutions.is_empty());
}

#[test]
fn orphan_block_and_missing_static_file_accumulate_both_errors() {
    let parent_template = TemplateId(0);
    let child_template = TemplateId(1);
    let parent_blocks = vec![range("title", parent_template, 0, 3)];
    let child_blocks = vec![range("sidebar", child_template, 0, 3)];
    let static_refs = vec![StaticPartialRef {
        original_path: "missing.css",
    }];

    let result = link(&parent_blocks, &child_blocks, &static_refs, |_| false);

    assert_eq!(
        result,
        Err(vec![
            PageLinkError::OrphanBlock {
                name: "sidebar",
                template: child_template,
            },
            PageLinkError::StaticFileNotFound {
                path: "missing.css"
            },
        ])
    );
}

#[test]
fn duplicated_static_path_yields_two_entries_not_one() {
    let tokens = vec![
        PageSourceToken::Static(StaticPartialRef {
            original_path: "nav.html",
        }),
        PageSourceToken::Runtime(FlatPageToken::Static("between")),
        PageSourceToken::Static(StaticPartialRef {
            original_path: "nav.html",
        }),
    ];

    let refs = collect_static_refs(&tokens);

    assert_eq!(
        refs,
        vec![
            StaticPartialRef {
                original_path: "nav.html"
            },
            StaticPartialRef {
                original_path: "nav.html"
            },
        ]
    );
}

#[test]
fn three_level_chain_nearest_override_wins_per_block() {
    let leaf = TemplateId(0);
    let mid = TemplateId(1);
    let root = TemplateId(2);

    let leaf_blocks = vec![range("title", leaf, 0, 5)];
    let mid_blocks = vec![range("sidebar", mid, 0, 5)];
    let root_blocks = vec![
        range("title", root, 0, 3),
        range("sidebar", root, 4, 6),
        range("footer", root, 7, 9),
    ];

    let plan = link_chain(&[&leaf_blocks, &mid_blocks, &root_blocks], &[], |_| true)
        .expect("aucun orphelin : title et sidebar existent tous deux dans le Root");

    assert_eq!(plan.substitutions.len(), 3);
    assert_eq!(plan.substitutions[0].name, "title");
    assert_eq!(plan.substitutions[0].source.template, leaf);
    assert_eq!(plan.substitutions[1].name, "sidebar");
    assert_eq!(plan.substitutions[1].source.template, mid);
    assert_eq!(plan.substitutions[2].name, "footer");
    assert_eq!(
        plan.substitutions[2].source.template, root,
        "footer non redéfini par personne : fallback sur le Root lui-même"
    );
}

#[test]
fn orphan_declared_by_intermediate_level_names_that_level() {
    let leaf = TemplateId(0);
    let mid = TemplateId(1);
    let root = TemplateId(2);

    let leaf_blocks: Vec<NamedBlockRange<'_>> = Vec::new();
    let mid_blocks = vec![range("extra_unused", mid, 0, 5)];
    let root_blocks = vec![range("title", root, 0, 3)];

    let result = link_chain(&[&leaf_blocks, &mid_blocks, &root_blocks], &[], |_| true);

    assert_eq!(
        result,
        Err(vec![PageLinkError::OrphanBlock {
            name: "extra_unused",
            template: mid,
        }])
    );
}

#[test]
fn two_level_chain_matches_historical_link_behavior() {
    let parent = TemplateId(0);
    let child = TemplateId(1);
    let parent_blocks = vec![range("title", parent, 0, 3)];
    let child_blocks = vec![range("title", child, 10, 20)];

    let via_link_chain =
        link_chain(&[&child_blocks, &parent_blocks], &[], |_| true).expect("pas d'orphelin");
    let via_link =
        link(&parent_blocks, &child_blocks, &[], |_| true).expect("pas d'orphelin");

    assert_eq!(via_link_chain, via_link);
    assert_eq!(
        via_link_chain,
        LinkPlan {
            substitutions: vec![BlockSubstitution {
                name: "title",
                source: range("title", child, 10, 20),
            }],
        }
    );
}
