use marius_forge::fragment::script_hoisting::{HoistError, hoist_and_dedupe_scripts, splice_hoisted_scripts};
use marius_forge::fragment::token::FlatPageToken;

#[test]
fn hoist_removes_block_entirely_and_dedupes_identical_repeats() {
    let tokens = vec![
        FlatPageToken::Static("<p>1</p>"),
        FlatPageToken::ScriptStart,
        FlatPageToken::Static("<script src=\""),
        FlatPageToken::AssetRef("map.js"),
        FlatPageToken::Static("\" type=\"module\"></script>"),
        FlatPageToken::ScriptEnd,
        FlatPageToken::ScriptStart,
        FlatPageToken::Static("<script src=\""),
        FlatPageToken::AssetRef("map.js"),
        FlatPageToken::Static("\" type=\"module\"></script>"),
        FlatPageToken::ScriptEnd,
        FlatPageToken::Static("<p>2</p>"),
    ];

    let (output, blocks) = hoist_and_dedupe_scripts(tokens).unwrap();

    assert_eq!(blocks.len(), 1);
    assert_eq!(
        blocks[0],
        vec![
            FlatPageToken::Static("<script src=\""),
            FlatPageToken::AssetRef("map.js"),
            FlatPageToken::Static("\" type=\"module\"></script>"),
        ]
    );
    assert_eq!(
        output,
        vec![
            FlatPageToken::Static("<p>1</p>"),
            FlatPageToken::Static("<p>2</p>"),
        ]
    );
}

#[test]
fn hoist_keeps_distinct_blocks_on_same_asset_as_separate_entries() {
    let tokens = vec![
        FlatPageToken::ScriptStart,
        FlatPageToken::Static("<script src=\""),
        FlatPageToken::AssetRef("map.js"),
        FlatPageToken::Static("\" type=\"module\"></script>"),
        FlatPageToken::ScriptEnd,
        FlatPageToken::ScriptStart,
        FlatPageToken::Static("<script src=\""),
        FlatPageToken::AssetRef("map.js"),
        FlatPageToken::Static("\" type=\"module\" id=\"map-loader\"></script>"),
        FlatPageToken::ScriptEnd,
    ];

    let (_, blocks) = hoist_and_dedupe_scripts(tokens).unwrap();

    assert_eq!(
        blocks.len(),
        2,
        "deux tags distincts, aucun attribut ne doit disparaître"
    );
}

#[test]
fn hoist_preserves_first_occurrence_order_across_distinct_blocks() {
    let tokens = vec![
        FlatPageToken::ScriptStart,
        FlatPageToken::AssetRef("b.js"),
        FlatPageToken::ScriptEnd,
        FlatPageToken::ScriptStart,
        FlatPageToken::AssetRef("a.js"),
        FlatPageToken::ScriptEnd,
    ];

    let (_, blocks) = hoist_and_dedupe_scripts(tokens).unwrap();

    assert_eq!(
        blocks,
        vec![
            vec![FlatPageToken::AssetRef("b.js")],
            vec![FlatPageToken::AssetRef("a.js")]
        ]
    );
}

#[test]
fn hoist_unconditional_script_outside_any_if_is_captured() {
    let tokens = vec![
        FlatPageToken::IfBool {
            entity: "record",
            field: "is_published",
        },
        FlatPageToken::Static("<p>x</p>"),
        FlatPageToken::EndIf,
        FlatPageToken::ScriptStart,
        FlatPageToken::AssetRef("nav.js"),
        FlatPageToken::ScriptEnd,
    ];

    let (output, blocks) = hoist_and_dedupe_scripts(tokens).unwrap();

    assert_eq!(blocks, vec![vec![FlatPageToken::AssetRef("nav.js")]]);
    assert_eq!(
        output,
        vec![
            FlatPageToken::IfBool {
                entity: "record",
                field: "is_published"
            },
            FlatPageToken::Static("<p>x</p>"),
            FlatPageToken::EndIf,
        ]
    );
}

#[test]
fn hoist_conditional_script_is_a_hard_error() {
    let tokens = vec![
        FlatPageToken::IfBool {
            entity: "record",
            field: "is_published",
        },
        FlatPageToken::ScriptStart,
        FlatPageToken::AssetRef("extra.js"),
        FlatPageToken::ScriptEnd,
        FlatPageToken::EndIf,
    ];

    assert_eq!(
        hoist_and_dedupe_scripts(tokens),
        Err(HoistError::ConditionalScript)
    );
}

#[test]
fn hoist_unterminated_script_block_is_an_error() {
    let tokens = vec![FlatPageToken::ScriptStart, FlatPageToken::AssetRef("x.js")];
    assert_eq!(
        hoist_and_dedupe_scripts(tokens),
        Err(HoistError::UnbalancedScriptBlock)
    );
}

#[test]
fn hoist_end_script_without_start_is_an_error() {
    let tokens = vec![FlatPageToken::ScriptEnd];
    assert_eq!(
        hoist_and_dedupe_scripts(tokens),
        Err(HoistError::UnbalancedScriptBlock)
    );
}

#[test]
fn splice_inserts_hoisted_blocks_verbatim_in_order() {
    let tokens = vec![
        FlatPageToken::Static("<head>"),
        FlatPageToken::Static("</head>"),
    ];
    let blocks = vec![
        vec![FlatPageToken::AssetRef("main.js")],
        vec![FlatPageToken::AssetRef("more.js")],
    ];

    let result = splice_hoisted_scripts(tokens, &blocks, 1);

    assert_eq!(
        result,
        vec![
            FlatPageToken::Static("<head>"),
            FlatPageToken::AssetRef("main.js"),
            FlatPageToken::AssetRef("more.js"),
            FlatPageToken::Static("</head>"),
        ]
    );
}

#[test]
fn splice_with_no_hoisted_blocks_leaves_stream_unchanged() {
    let tokens = vec![FlatPageToken::Static("<head></head>")];
    let result = splice_hoisted_scripts(tokens.clone(), &[], 0);
    assert_eq!(result, tokens);
}

#[test]
fn hoist_then_splice_end_to_end() {
    let nav_block = vec![
        FlatPageToken::ScriptStart,
        FlatPageToken::Static("<script src=\""),
        FlatPageToken::AssetRef("nav.js"),
        FlatPageToken::Static("\" type=\"module\"></script>"),
        FlatPageToken::ScriptEnd,
    ];

    let mut tokens = vec![
        FlatPageToken::Static("<head>"),
        FlatPageToken::Static("</head>"),
    ];
    tokens.push(FlatPageToken::Static("<body>"));
    tokens.extend(nav_block.clone());
    tokens.push(FlatPageToken::Static("<hr>"));
    tokens.extend(nav_block);
    tokens.push(FlatPageToken::Static("</body>"));

    let (mut output, blocks) = hoist_and_dedupe_scripts(tokens).unwrap();
    assert_eq!(blocks.len(), 1);

    let head_close = output
        .iter()
        .position(|t| matches!(t, FlatPageToken::Static(s) if *s == "</head>"))
        .unwrap();
    output = splice_hoisted_scripts(output, &blocks, head_close);

    assert_eq!(
        output,
        vec![
            FlatPageToken::Static("<head>"),
            FlatPageToken::Static("<script src=\""),
            FlatPageToken::AssetRef("nav.js"),
            FlatPageToken::Static("\" type=\"module\"></script>"),
            FlatPageToken::Static("</head>"),
            FlatPageToken::Static("<body>"),
            FlatPageToken::Static("<hr>"),
            FlatPageToken::Static("</body>"),
        ]
    );
}

#[test]
fn hoist_conditional_script_inside_if_eq_is_a_hard_error() {
    let tokens = vec![
        FlatPageToken::IfEq {
            entity: "record",
            field: "document_id",
            literal: 1,
        },
        FlatPageToken::ScriptStart,
        FlatPageToken::AssetRef("extra.js"),
        FlatPageToken::ScriptEnd,
        FlatPageToken::EndIf,
    ];

    assert_eq!(
        hoist_and_dedupe_scripts(tokens),
        Err(HoistError::ConditionalScript)
    );
}

#[test]
fn if_bool_and_if_eq_are_equivalent_for_conditional_script_detection() {
    let if_bool_tokens = vec![
        FlatPageToken::IfBool {
            entity: "record",
            field: "is_published",
        },
        FlatPageToken::ScriptStart,
        FlatPageToken::AssetRef("x.js"),
        FlatPageToken::ScriptEnd,
        FlatPageToken::EndIf,
    ];
    let if_eq_tokens = vec![
        FlatPageToken::IfEq {
            entity: "record",
            field: "document_id",
            literal: 1,
        },
        FlatPageToken::ScriptStart,
        FlatPageToken::AssetRef("x.js"),
        FlatPageToken::ScriptEnd,
        FlatPageToken::EndIf,
    ];

    assert_eq!(
        hoist_and_dedupe_scripts(if_bool_tokens),
        hoist_and_dedupe_scripts(if_eq_tokens),
        "IfBool et IfEq doivent produire exactement le même résultat \
         (ici, la même erreur) pour un script conditionnel"
    );
}

#[test]
fn hoist_conditional_script_inside_if_neq_is_a_hard_error() {
    let tokens = vec![
        FlatPageToken::IfNeq {
            entity: "record",
            field: "document_id",
            literal: 1,
        },
        FlatPageToken::ScriptStart,
        FlatPageToken::AssetRef("extra.js"),
        FlatPageToken::ScriptEnd,
        FlatPageToken::EndIf,
    ];

    assert_eq!(
        hoist_and_dedupe_scripts(tokens),
        Err(HoistError::ConditionalScript)
    );
}

#[test]
fn if_eq_without_script_leaves_depth_unaffected() {
    let tokens = vec![
        FlatPageToken::IfEq {
            entity: "record",
            field: "document_id",
            literal: 1,
        },
        FlatPageToken::Static("<p>A</p>"),
        FlatPageToken::EndIf,
        FlatPageToken::ScriptStart,
        FlatPageToken::AssetRef("after.js"),
        FlatPageToken::ScriptEnd,
    ];

    let (output, blocks) = hoist_and_dedupe_scripts(tokens).unwrap();

    assert_eq!(blocks, vec![vec![FlatPageToken::AssetRef("after.js")]]);
    assert_eq!(
        output,
        vec![
            FlatPageToken::IfEq {
                entity: "record",
                field: "document_id",
                literal: 1,
            },
            FlatPageToken::Static("<p>A</p>"),
            FlatPageToken::EndIf,
        ]
    );
}

#[test]
fn if_bool_without_script_is_unaffected_by_this_fix() {
    let tokens = vec![
        FlatPageToken::IfBool {
            entity: "record",
            field: "is_published",
        },
        FlatPageToken::Static("<p>x</p>"),
        FlatPageToken::EndIf,
    ];

    let (output, blocks) = hoist_and_dedupe_scripts(tokens).unwrap();

    assert!(blocks.is_empty());
    assert_eq!(
        output,
        vec![
            FlatPageToken::IfBool {
                entity: "record",
                field: "is_published"
            },
            FlatPageToken::Static("<p>x</p>"),
            FlatPageToken::EndIf,
        ]
    );
}

#[test]
fn sequential_if_eq_blocks_each_close_depth_independently() {
    let tokens = vec![
        FlatPageToken::IfEq {
            entity: "record",
            field: "document_id",
            literal: 1,
        },
        FlatPageToken::Static("A"),
        FlatPageToken::EndIf,
        FlatPageToken::IfEq {
            entity: "record",
            field: "document_id",
            literal: 2,
        },
        FlatPageToken::Static("B"),
        FlatPageToken::EndIf,
        FlatPageToken::ScriptStart,
        FlatPageToken::AssetRef("seq.js"),
        FlatPageToken::ScriptEnd,
    ];

    let (_, blocks) = hoist_and_dedupe_scripts(tokens).unwrap();
    assert_eq!(blocks, vec![vec![FlatPageToken::AssetRef("seq.js")]]);
}

#[test]
fn script_inside_else_branch_of_if_eq_is_also_rejected() {
    let tokens = vec![
        FlatPageToken::IfEq {
            entity: "record",
            field: "document_id",
            literal: 1,
        },
        FlatPageToken::Static("A"),
        FlatPageToken::Else,
        FlatPageToken::ScriptStart,
        FlatPageToken::AssetRef("in-else.js"),
        FlatPageToken::ScriptEnd,
        FlatPageToken::EndIf,
    ];

    assert_eq!(
        hoist_and_dedupe_scripts(tokens),
        Err(HoistError::ConditionalScript)
    );
}

#[test]
fn script_inside_else_branch_of_if_bool_is_also_rejected() {
    let tokens = vec![
        FlatPageToken::IfBool {
            entity: "record",
            field: "is_published",
        },
        FlatPageToken::Static("A"),
        FlatPageToken::Else,
        FlatPageToken::ScriptStart,
        FlatPageToken::AssetRef("in-else.js"),
        FlatPageToken::ScriptEnd,
        FlatPageToken::EndIf,
    ];

    assert_eq!(
        hoist_and_dedupe_scripts(tokens),
        Err(HoistError::ConditionalScript)
    );
}

#[test]
fn else_branch_without_script_leaves_depth_correctly_closed() {
    let tokens = vec![
        FlatPageToken::IfBool {
            entity: "record",
            field: "is_published",
        },
        FlatPageToken::Static("A"),
        FlatPageToken::Else,
        FlatPageToken::Static("B"),
        FlatPageToken::EndIf,
        FlatPageToken::ScriptStart,
        FlatPageToken::AssetRef("after.js"),
        FlatPageToken::ScriptEnd,
    ];

    let (_, blocks) = hoist_and_dedupe_scripts(tokens).unwrap();
    assert_eq!(blocks, vec![vec![FlatPageToken::AssetRef("after.js")]]);
}
