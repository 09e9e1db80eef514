#![allow(unused_imports)]
use marius_forge::fragment::lexer::scan;
use marius_forge::fragment::parser::parse_tokens;
use marius_forge::fragment::token::FlatPageToken;
use marius_forge::page::blocks::collect_blocks;
use marius_forge::page::importer::collect_top_level_imports;
use marius_forge::page::linker::{BlockSubstitution, LinkPlan, collect_static_refs, link, link_chain};
use marius_forge::page::lowering::lower;
use marius_forge::page::model::{
    ImportRef, NamedBlockRange, PageArena, PageBlockToken, PageComposeParseError, PageImportError,
    PageLinkError, PageValidationError, ParsedPageTemplate, StaticPartialRef, TemplateId,
};
use marius_forge::page::parser::{detect_extends, parse_page_tokens};
use marius_forge::page::token::PageSourceToken;

#[test]
fn runtime_tokens_pass_through_and_static_becomes_static_include_with_len_zero() {
    let plan = LinkPlan {
        substitutions: Vec::new(),
    };
    let arena = PageArena::default();

    let tokens = vec![
        PageSourceToken::Runtime(FlatPageToken::Static("before")),
        PageSourceToken::Runtime(FlatPageToken::Field {
            entity: "user",
            field: "name",
        }),
        PageSourceToken::Static(StaticPartialRef {
            original_path: "nav.html",
        }),
        PageSourceToken::Runtime(FlatPageToken::IfBool {
            entity: "user",
            field: "active",
        }),
        PageSourceToken::Runtime(FlatPageToken::EndIf),
    ];

    let result = lower(&tokens, &plan, &arena);

    assert_eq!(
        result,
        vec![
            FlatPageToken::Static("before"),
            FlatPageToken::Field {
                entity: "user",
                field: "name",
            },
            FlatPageToken::StaticInclude {
                original_path: "nav.html",
                rel_from_manifest: "nav.html",
                len: 0,
            },
            FlatPageToken::IfBool {
                entity: "user",
                field: "active",
            },
            FlatPageToken::EndIf,
        ]
    );
}

#[test]
fn overridden_block_uses_child_content_untouched_block_keeps_parent_content() {
    let parent_tokens = vec![
        PageSourceToken::Runtime(FlatPageToken::Static("<html>")),
        PageSourceToken::Block(PageBlockToken::BlockOpen { name: "title" }),
        PageSourceToken::Runtime(FlatPageToken::Static("Default Title")),
        PageSourceToken::Block(PageBlockToken::BlockEnd),
        PageSourceToken::Runtime(FlatPageToken::Static("<body>")),
        PageSourceToken::Block(PageBlockToken::BlockOpen { name: "footer" }),
        PageSourceToken::Runtime(FlatPageToken::Static("Default Footer")),
        PageSourceToken::Block(PageBlockToken::BlockEnd),
        PageSourceToken::Runtime(FlatPageToken::Static("</body></html>")),
    ];

    let child_tokens = vec![
        PageSourceToken::Block(PageBlockToken::BlockOpen { name: "title" }),
        PageSourceToken::Runtime(FlatPageToken::Static("Child Title")),
        PageSourceToken::Block(PageBlockToken::BlockEnd),
    ];

    let mut arena = PageArena::default();
    let parent_id = arena.admit_template(ParsedPageTemplate {
        extends: None,
        tokens: parent_tokens.clone(),
    });
    let child_id = arena.admit_template(ParsedPageTemplate {
        extends: Some("parent.marius"),
        tokens: child_tokens.clone(),
    });

    let parent_blocks =
        collect_blocks(parent_id, &parent_tokens).expect("parent blocks bien formés");
    let child_blocks =
        collect_blocks(child_id, &child_tokens).expect("child blocks bien formés");

    let plan = link(&parent_blocks, &child_blocks, &[], |_| true)
        .expect("linking réussit : aucun bloc orphelin, aucune référence static");

    let result = lower(&parent_tokens, &plan, &arena);

    assert_eq!(
        result,
        vec![
            FlatPageToken::Static("<html>"),
            FlatPageToken::Static("Child Title"),
            FlatPageToken::Static("<body>"),
            FlatPageToken::Static("Default Footer"),
            FlatPageToken::Static("</body></html>"),
        ]
    );
}

#[test]
fn leaf_override_of_nested_slot_survives_through_intermediate_rewrite() {
    let root_tokens = vec![
        PageSourceToken::Runtime(FlatPageToken::Static("<nav>")),
        PageSourceToken::Block(PageBlockToken::BlockOpen { name: "main_nav" }),
        PageSourceToken::Runtime(FlatPageToken::Static("DefaultNav")),
        PageSourceToken::Block(PageBlockToken::BlockOpen {
            name: "current_tab",
        }),
        PageSourceToken::Runtime(FlatPageToken::Static("DefaultTab")),
        PageSourceToken::Block(PageBlockToken::BlockEnd),
        PageSourceToken::Block(PageBlockToken::BlockEnd),
        PageSourceToken::Runtime(FlatPageToken::Static("</nav>")),
    ];
    let mid_tokens = vec![
        PageSourceToken::Block(PageBlockToken::BlockOpen { name: "main_nav" }),
        PageSourceToken::Runtime(FlatPageToken::Static("MidNav")),
        PageSourceToken::Block(PageBlockToken::BlockOpen {
            name: "current_tab",
        }),
        PageSourceToken::Runtime(FlatPageToken::Static("MidTab")),
        PageSourceToken::Block(PageBlockToken::BlockEnd),
        PageSourceToken::Block(PageBlockToken::BlockEnd),
    ];
    let leaf_tokens = vec![
        PageSourceToken::Block(PageBlockToken::BlockOpen {
            name: "current_tab",
        }),
        PageSourceToken::Runtime(FlatPageToken::Static("LeafTab")),
        PageSourceToken::Block(PageBlockToken::BlockEnd),
    ];

    let mut arena = PageArena::default();
    let root_id = arena.admit_template(ParsedPageTemplate {
        extends: None,
        tokens: root_tokens.clone(),
    });
    let mid_id = arena.admit_template(ParsedPageTemplate {
        extends: Some("root.marius"),
        tokens: mid_tokens.clone(),
    });
    let leaf_id = arena.admit_template(ParsedPageTemplate {
        extends: Some("mid.marius"),
        tokens: leaf_tokens.clone(),
    });

    let root_blocks = collect_blocks(root_id, &root_tokens).expect("root blocks bien formés");
    let mid_blocks = collect_blocks(mid_id, &mid_tokens).expect("mid blocks bien formés");
    let leaf_blocks = collect_blocks(leaf_id, &leaf_tokens).expect("leaf blocks bien formés");

    let plan = link_chain(&[&leaf_blocks, &mid_blocks, &root_blocks], &[], |_| true)
        .expect("linking réussit : aucun bloc orphelin");

    let result = lower(&root_tokens, &plan, &arena);

    assert_eq!(
        result,
        vec![
            FlatPageToken::Static("<nav>"),
            FlatPageToken::Static("MidNav"),
            FlatPageToken::Static("LeafTab"),
            FlatPageToken::Static("</nav>"),
        ]
    );
}

#[test]
fn nested_root_block_keeps_default_content_when_nothing_overrides_it() {
    let root_tokens = vec![
        PageSourceToken::Block(PageBlockToken::BlockOpen { name: "main_nav" }),
        PageSourceToken::Runtime(FlatPageToken::Static("Nav-")),
        PageSourceToken::Block(PageBlockToken::BlockOpen {
            name: "current_tab",
        }),
        PageSourceToken::Runtime(FlatPageToken::Static("Tab")),
        PageSourceToken::Block(PageBlockToken::BlockEnd),
        PageSourceToken::Block(PageBlockToken::BlockEnd),
    ];
    let leaf_tokens: Vec<PageSourceToken<'_>> = Vec::new();

    let mut arena = PageArena::default();
    let root_id = arena.admit_template(ParsedPageTemplate {
        extends: None,
        tokens: root_tokens.clone(),
    });
    let leaf_id = arena.admit_template(ParsedPageTemplate {
        extends: Some("root.marius"),
        tokens: leaf_tokens.clone(),
    });

    let root_blocks = collect_blocks(root_id, &root_tokens).expect("root blocks bien formés");
    let leaf_blocks = collect_blocks(leaf_id, &leaf_tokens).expect("leaf blocks bien formés");

    let plan = link_chain(&[&leaf_blocks, &root_blocks], &[], |_| true)
        .expect("linking réussit : aucun bloc orphelin");

    let result = lower(&root_tokens, &plan, &arena);

    assert_eq!(
        result,
        vec![FlatPageToken::Static("Nav-"), FlatPageToken::Static("Tab")]
    );
}
