#![allow(unused_imports)]
use marius_forge::fragment::lexer::scan;
use marius_forge::fragment::parser::parse_tokens;
use marius_forge::fragment::token::FlatPageToken;
use marius_forge::page::blocks::collect_blocks;
use marius_forge::page::importer::collect_top_level_imports;
use marius_forge::page::linker::{BlockSubstitution, LinkPlan, collect_static_refs, link, link_chain};
use marius_forge::page::lowering::lower;
use marius_forge::page::model::{
    ImportRef, NamedBlockRange, PageArena, PageBlockToken, PageComposeParseError, PageImportError,
    PageLinkError, PageValidationError, ParsedPageTemplate, StaticPartialRef, TemplateId,
};
use marius_forge::page::parser::{detect_extends, parse_page_tokens};
use marius_forge::page::token::PageSourceToken;

#[test]
fn top_level_imports_are_collected_in_order() {
    let tokens = vec![
        PageSourceToken::Import(ImportRef {
            original_path: "head.marius",
        }),
        PageSourceToken::Block(PageBlockToken::BlockOpen { name: "main_nav" }),
        PageSourceToken::Runtime(FlatPageToken::Static("nav content")),
        PageSourceToken::Block(PageBlockToken::BlockEnd),
        PageSourceToken::Import(ImportRef {
            original_path: "footer.marius",
        }),
    ];

    let imports = collect_top_level_imports(&tokens).expect("aucun import mal placé");

    assert_eq!(
        imports,
        vec![
            ImportRef {
                original_path: "head.marius"
            },
            ImportRef {
                original_path: "footer.marius"
            },
        ]
    );
}

#[test]
fn import_inside_open_block_is_rejected() {
    let tokens = vec![
        PageSourceToken::Block(PageBlockToken::BlockOpen { name: "main_head" }),
        PageSourceToken::Import(ImportRef {
            original_path: "head.marius",
        }),
        PageSourceToken::Block(PageBlockToken::BlockEnd),
    ];

    let result = collect_top_level_imports(&tokens);

    assert_eq!(
        result,
        Err(vec![PageImportError::ImportInsideBlock {
            path: "head.marius",
            block_name: "main_head",
        }])
    );
}

#[test]
fn multiple_misplaced_imports_accumulate_all_errors() {
    let tokens = vec![
        PageSourceToken::Block(PageBlockToken::BlockOpen { name: "main_head" }),
        PageSourceToken::Import(ImportRef {
            original_path: "head.marius",
        }),
        PageSourceToken::Block(PageBlockToken::BlockEnd),
        PageSourceToken::Block(PageBlockToken::BlockOpen { name: "main_footer" }),
        PageSourceToken::Import(ImportRef {
            original_path: "footer.marius",
        }),
        PageSourceToken::Block(PageBlockToken::BlockEnd),
    ];

    let result = collect_top_level_imports(&tokens);

    assert_eq!(
        result,
        Err(vec![
            PageImportError::ImportInsideBlock {
                path: "head.marius",
                block_name: "main_head",
            },
            PageImportError::ImportInsideBlock {
                path: "footer.marius",
                block_name: "main_footer",
            },
        ])
    );
}

#[test]
fn no_imports_yields_empty_list() {
    let tokens = vec![PageSourceToken::Runtime(FlatPageToken::Static("plain"))];

    let imports = collect_top_level_imports(&tokens).expect("aucun import à valider");

    assert!(imports.is_empty());
}
