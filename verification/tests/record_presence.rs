use marius_forge::fragment::codegen::generate_aot_snippet;
use marius_forge::fragment::resolver::{ResolverError, resolve_and_measure};
use marius_forge::fragment::validator::validate_ast;
use marius_forge::page::parser::parse_page_tokens;
use marius_forge::page::token::PageSourceToken;
use marius_forge::fragment::record_presence::{eliminate_recordless_conditions, has_record};
use marius_forge::fragment::token::FlatPageToken;
use marius_forge::schema::{FieldKind, FieldSpec, SchemaIndex};

fn empty_schema() -> SchemaIndex<'static> {
    SchemaIndex {
        fixed: &[],
        varlena: &[],
    }
}

fn record_field() -> FieldSpec {
    FieldSpec {
        name: "document_id".to_string(),
        kind: FieldKind::I32,
        attnum: 1,
    }
}

#[test]
fn has_record_is_false_for_fully_empty_schema() {
    assert!(!has_record(&empty_schema()));
}

#[test]
fn has_record_is_true_with_at_least_one_fixed_field() {
    let fixed = vec![record_field()];
    let schema = SchemaIndex {
        fixed: &fixed,
        varlena: &[],
    };
    assert!(has_record(&schema));
}

#[test]
fn with_record_if_bool_and_else_is_untouched() {
    let fixed = vec![FieldSpec {
        name: "is_readable".to_string(),
        kind: FieldKind::Bool,
        attnum: 1,
    }];
    let schema = SchemaIndex {
        fixed: &fixed,
        varlena: &[],
    };
    let tokens = vec![
        FlatPageToken::IfBool {
            entity: "record",
            field: "is_readable",
        },
        FlatPageToken::Static("A"),
        FlatPageToken::Else,
        FlatPageToken::Static("B"),
        FlatPageToken::EndIf,
    ];

    let result = eliminate_recordless_conditions(tokens.clone(), &schema);

    assert_eq!(result, tokens, "unité avec record : flux inchangé");
}

#[test]
fn with_record_if_eq_and_else_is_untouched() {
    let fixed = vec![record_field()];
    let schema = SchemaIndex {
        fixed: &fixed,
        varlena: &[],
    };
    let tokens = vec![
        FlatPageToken::IfEq {
            entity: "record",
            field: "document_id",
            literal: 1,
        },
        FlatPageToken::Static("A"),
        FlatPageToken::Else,
        FlatPageToken::Static("B"),
        FlatPageToken::EndIf,
    ];

    let result = eliminate_recordless_conditions(tokens.clone(), &schema);

    assert_eq!(result, tokens, "unité avec record : flux inchangé");
}

#[test]
fn with_record_if_neq_and_else_is_untouched() {
    let fixed = vec![record_field()];
    let schema = SchemaIndex {
        fixed: &fixed,
        varlena: &[],
    };
    let tokens = vec![
        FlatPageToken::IfNeq {
            entity: "record",
            field: "document_id",
            literal: 1,
        },
        FlatPageToken::Static("A"),
        FlatPageToken::Else,
        FlatPageToken::Static("B"),
        FlatPageToken::EndIf,
    ];

    let result = eliminate_recordless_conditions(tokens.clone(), &schema);

    assert_eq!(result, tokens, "unité avec record : flux inchangé");
}

#[test]
fn without_record_if_bool_without_else_yields_nothing() {
    let schema = empty_schema();
    let tokens = vec![
        FlatPageToken::Static("before"),
        FlatPageToken::IfBool {
            entity: "record",
            field: "is_readable",
        },
        FlatPageToken::Static("CURRENT"),
        FlatPageToken::EndIf,
        FlatPageToken::Static("after"),
    ];

    let result = eliminate_recordless_conditions(tokens, &schema);

    assert_eq!(
        result,
        vec![
            FlatPageToken::Static("before"),
            FlatPageToken::Static("after"),
        ]
    );
}

#[test]
fn without_record_if_bool_with_else_keeps_else_branch_only() {
    let schema = empty_schema();
    let tokens = vec![
        FlatPageToken::IfBool {
            entity: "record",
            field: "is_readable",
        },
        FlatPageToken::Static("A"),
        FlatPageToken::Else,
        FlatPageToken::Static("B"),
        FlatPageToken::EndIf,
    ];

    let result = eliminate_recordless_conditions(tokens, &schema);

    assert_eq!(result, vec![FlatPageToken::Static("B")]);
}

#[test]
fn without_record_if_eq_without_else_yields_nothing() {
    let schema = empty_schema();
    let tokens = vec![
        FlatPageToken::IfEq {
            entity: "record",
            field: "document_id",
            literal: 1,
        },
        FlatPageToken::Static("CURRENT"),
        FlatPageToken::EndIf,
    ];

    let result = eliminate_recordless_conditions(tokens, &schema);

    assert_eq!(result, Vec::<FlatPageToken<'_>>::new());
}

#[test]
fn without_record_if_eq_with_else_keeps_else_branch_only() {
    let schema = empty_schema();
    let tokens = vec![
        FlatPageToken::IfEq {
            entity: "record",
            field: "document_id",
            literal: 1,
        },
        FlatPageToken::Static("<div class=\"current\">Content 1</div>"),
        FlatPageToken::Else,
        FlatPageToken::Static("<a href=\"/content/1\">Content 1</a>"),
        FlatPageToken::EndIf,
    ];

    let result = eliminate_recordless_conditions(tokens, &schema);

    assert_eq!(
        result,
        vec![FlatPageToken::Static(
            "<a href=\"/content/1\">Content 1</a>"
        )]
    );
}

#[test]
fn without_record_if_neq_without_else_yields_nothing() {
    let schema = empty_schema();
    let tokens = vec![
        FlatPageToken::IfNeq {
            entity: "record",
            field: "document_id",
            literal: 1,
        },
        FlatPageToken::Static("CURRENT"),
        FlatPageToken::EndIf,
    ];

    let result = eliminate_recordless_conditions(tokens, &schema);

    assert_eq!(
        result,
        Vec::<FlatPageToken<'_>>::new(),
        "IfNeq sans record doit être éliminé à FAUX, pas à vrai"
    );
}

#[test]
fn without_record_if_neq_with_else_keeps_else_branch_only() {
    let schema = empty_schema();
    let tokens = vec![
        FlatPageToken::IfNeq {
            entity: "record",
            field: "document_id",
            literal: 1,
        },
        FlatPageToken::Static("A"),
        FlatPageToken::Else,
        FlatPageToken::Static("B"),
        FlatPageToken::EndIf,
    ];

    let result = eliminate_recordless_conditions(tokens, &schema);

    assert_eq!(result, vec![FlatPageToken::Static("B")]);
}

#[test]
fn without_record_eliminated_branch_drops_all_inner_tokens() {
    let schema = empty_schema();
    let tokens = vec![
        FlatPageToken::IfEq {
            entity: "record",
            field: "document_id",
            literal: 1,
        },
        FlatPageToken::Static("<use href=\""),
        FlatPageToken::AssetRef("sprites/utils.svg"),
        FlatPageToken::Static("\">"),
        FlatPageToken::EndIf,
    ];

    let result = eliminate_recordless_conditions(tokens, &schema);

    assert_eq!(result, Vec::<FlatPageToken<'_>>::new());
}

#[test]
fn without_record_multiple_sequential_blocks_each_resolved_independently() {
    let schema = empty_schema();
    let tokens = vec![
        FlatPageToken::IfEq {
            entity: "record",
            field: "document_id",
            literal: 1,
        },
        FlatPageToken::Static("current-1"),
        FlatPageToken::Else,
        FlatPageToken::Static("link-1"),
        FlatPageToken::EndIf,
        FlatPageToken::IfEq {
            entity: "record",
            field: "document_id",
            literal: 2,
        },
        FlatPageToken::Static("current-2"),
        FlatPageToken::Else,
        FlatPageToken::Static("link-2"),
        FlatPageToken::EndIf,
    ];

    let result = eliminate_recordless_conditions(tokens, &schema);

    assert_eq!(
        result,
        vec![
            FlatPageToken::Static("link-1"),
            FlatPageToken::Static("link-2"),
        ]
    );
}

#[test]
fn without_record_no_conditions_is_unaffected() {
    let schema = empty_schema();
    let tokens = vec![FlatPageToken::Static("<p>plain</p>")];

    let result = eliminate_recordless_conditions(tokens.clone(), &schema);

    assert_eq!(result, tokens);
}

#[test]
fn unknown_field_still_rejected_when_record_exists_but_field_is_absent() {

    let fixed = vec![FieldSpec {
        name: "title".to_string(),
        kind: FieldKind::I32,
        attnum: 1,
    }];
    let schema = SchemaIndex {
        fixed: &fixed,
        varlena: &[],
    };

    let tokens = vec![
        FlatPageToken::IfEq {
            entity: "record",
            field: "document_id", // absent de CE schéma (seul "title" y figure)
            literal: 1,
        },
        FlatPageToken::Static("A"),
        FlatPageToken::Else,
        FlatPageToken::Static("B"),
        FlatPageToken::EndIf,
    ];

    validate_ast(&tokens).expect("structure valide, indépendamment du schéma");

    let mut after_elimination = eliminate_recordless_conditions(tokens.clone(), &schema);
    assert_eq!(
        after_elimination, tokens,
        "unité avec record : cette passe ne doit rien éliminer"
    );

    let result = resolve_and_measure(
        &mut after_elimination,
        &schema,
        |_| unreachable!("aucun StaticInclude dans ce test"),
        |_| unreachable!("aucun AssetRef dans ce test"),
        0,
    );

    assert_eq!(
        result,
        Err(vec![ResolverError::UnknownField {
            entity: "record",
            field: "document_id",
        }]),
        "un champ réellement absent d'un schéma non vide doit toujours \
         produire UnknownField — cette passe ne doit jamais masquer cette \
         erreur pour une unité qui possède un record"
    );
}

#[test]
fn offline_pipeline_end_to_end_keeps_only_else_branch_and_never_mentions_record() {

    let src = "<li>{% if record.document_id == 1 %}\
               <div class=\"current\">Content 1</div>\
               {% else %}\
               <a href=\"/content/1\">Content 1</a>\
               {% endif %}</li>";

    let parsed = parse_page_tokens(marius_forge::fragment::lexer::scan(src))
        .expect("navigation.marius doit continuer à parser sans erreur");

    let tokens: Vec<FlatPageToken<'_>> = parsed
        .tokens
        .into_iter()
        .map(|t| match t {
            PageSourceToken::Runtime(flat) => flat,
            other => panic!("fixture attend uniquement Runtime, obtenu {other:?}"),
        })
        .collect();

    validate_ast(&tokens).expect("structure if/else/endif valide");

    let schema = SchemaIndex {
        fixed: &[],
        varlena: &[],
    };
    let mut tokens = eliminate_recordless_conditions(tokens, &schema);

    assert!(
        !tokens.iter().any(|t| matches!(
            t,
            FlatPageToken::IfEq { .. } | FlatPageToken::Else | FlatPageToken::EndIf
        )),
        "plus aucun marqueur conditionnel ne doit subsister après élimination : {tokens:?}"
    );

    let metrics = marius_forge::fragment::resolver::resolve_and_measure(
        &mut tokens,
        &schema,
        |_| unreachable!("aucun StaticInclude dans cette fixture"),
        |_| unreachable!("aucun AssetRef dans cette fixture"),
        0,
    )
    .expect(
        "resolve_and_measure ne doit produire aucune erreur : \
         record.document_id n'existe plus dans le flux à ce stade",
    );
    let expected_len = "<li><a href=\"/content/1\">Content 1</a></li>".len();
    assert_eq!(metrics.total_static_bytes, expected_len);

    let rust_code =
        generate_aot_snippet(&tokens, &schema, |_| unreachable!("aucun AssetRef ici"), "");

    assert!(
        !rust_code.contains("record"),
        "le code généré ne doit plus jamais mentionner `record` pour une \
         unité sans record :\n{rust_code}"
    );
    assert!(
        !rust_code.contains("current"),
        "la branche if (current) a été éliminée, elle ne doit apparaître \
         nulle part dans le code généré :\n{rust_code}"
    );
    assert!(
        rust_code.contains("/content/1"),
        "la branche else (lien) doit être intégralement conservée :\n{rust_code}"
    );

    println!("=== Rust généré pour offline.offline (sans record) ===\n{rust_code}");
}
