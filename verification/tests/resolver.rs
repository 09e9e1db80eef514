use marius_forge::fragment::resolver::{AssetLookup, ResolverError, TemplateMetrics, resolve_and_measure};
use marius_forge::fragment::token::FlatPageToken;
use marius_forge::schema::{EscapePolicy, FieldKind, FieldSpec, SchemaIndex, VarlenField};

fn make_include(path: &str) -> FlatPageToken<'_> {
    FlatPageToken::StaticInclude {
        original_path: path,
        rel_from_manifest: path,
        len: 0,
    }
}

#[test]
fn test_resolve_success() {
    let mut tokens = vec![FlatPageToken::Static("<html>"), make_include("a.html")];

    let schema = SchemaIndex {
        fixed: &[],
        varlena: &[],
    };
    let result = resolve_and_measure(
        &mut tokens,
        &schema,
        |path| match path {
            "a.html" => Ok(10),
            other => Err(format!("unknown : {other}")),
        },
        |_| unreachable!("aucun AssetRef dans ce test"),
        0,
    );

    assert_eq!(
        result,
        Ok(TemplateMetrics {
            total_static_bytes: 16,
            total_dynamic_bytes: 0,
            include_count: 1
        }),
    );

    match &tokens[1] {
        FlatPageToken::StaticInclude {
            len,
            original_path,
            rel_from_manifest,
        } => {
            assert_eq!(*len, 10, "len doit être muté de 0 à 10");
            assert_eq!(*original_path, "a.html", "original_path inchangé");
            assert_eq!(*rel_from_manifest, "a.html", "rel_from_manifest inchangé");
        }
        _ => panic!("tokens[1] doit être un StaticInclude"),
    }
}

#[test]
fn test_resolve_partial_error() {
    let mut tokens = vec![
        FlatPageToken::Static("<html>"),
        make_include("a.html"),
        make_include("missing.html"),
    ];

    let schema = SchemaIndex {
        fixed: &[],
        varlena: &[],
    };
    let result = resolve_and_measure(
        &mut tokens,
        &schema,
        |path| match path {
            "a.html" => Ok(10),
            other => Err(format!("introuvable : {other}")),
        },
        |_| unreachable!("aucun AssetRef dans ce test"),
        0,
    );

    let errors = result.expect_err("doit retourner Err pour un fichier manquant");
    assert_eq!(errors.len(), 1, "exactement 1 IoError attendu");

    match &errors[0] {
        ResolverError::IoError { path, details } => {
            assert_eq!(*path, "missing.html");
            assert!(
                details.contains("missing.html"),
                "details doit identifier le fichier : {details:?}",
            );
        }
        ResolverError::UnknownField { entity, field } => {
            panic!("UnknownField inattendu dans ce test : {entity}.{field}");
        }
        ResolverError::UnboundedField { entity, field } => {
            panic!("UnboundedField inattendu dans ce test : {entity}.{field}");
        }
        ResolverError::AssetNotFound { key, .. } => {
            panic!("AssetNotFound inattendu dans ce test : {key}");
        }
    }

    match &tokens[1] {
        FlatPageToken::StaticInclude { len, .. } => {
            assert_eq!(
                *len, 10,
                "la mutation de a.html doit survivre à l'erreur partielle"
            );
        }
        _ => panic!("tokens[1] doit rester un StaticInclude"),
    }
}

#[test]
fn test_resolve_no_includes() {
    let mut tokens = vec![
        FlatPageToken::Static("<p>"),
        FlatPageToken::Field {
            entity: "user",
            field: "name",
        },
        FlatPageToken::Static("</p>"),
    ];

    let fixed = vec![FieldSpec {
        name: "name".to_string(),
        kind: FieldKind::I32,
        attnum: 1,
    }];
    let schema = SchemaIndex {
        fixed: &fixed,
        varlena: &[],
    };

    assert_eq!(
        resolve_and_measure(
            &mut tokens,
            &schema,
            |_| unreachable!("get_file_size ne doit pas être appelé sans StaticInclude"),
            |_| unreachable!("aucun AssetRef dans ce test"),
            0,
        ),
        Ok(TemplateMetrics {
            total_static_bytes: 7,
            total_dynamic_bytes: FieldKind::I32.max_display_width(),
            include_count: 0,
        }),
    );
}

fn unbounded_field(name: &str) -> VarlenField {
    VarlenField {
        name: name.to_string(),
        ref_schema: "test".to_string(),
        ref_table: "joined".to_string(),
        max_len: None,
        escape_policy: EscapePolicy::Escaped,
        is_segment: false,
        nullable: true,
        max_escaped_len_override: None,
    }
}

fn bounded_field(name: &str, max_len: usize) -> VarlenField {
    VarlenField {
        name: name.to_string(),
        ref_schema: "test".to_string(),
        ref_table: "joined".to_string(),
        max_len: Some(max_len),
        escape_policy: EscapePolicy::Escaped,
        is_segment: false,
        nullable: true,
        max_escaped_len_override: None,
    }
}

#[test]
fn unbounded_field_referenced_fails_resolution() {
    let mut tokens = vec![FlatPageToken::Field {
        entity: "record",
        field: "description",
    }];
    let varlena = vec![unbounded_field("description")];
    let schema = SchemaIndex {
        fixed: &[],
        varlena: &varlena,
    };

    let result = resolve_and_measure(
        &mut tokens,
        &schema,
        |_| unreachable!("aucun StaticInclude dans ce test"),
        |_| unreachable!("aucun AssetRef dans ce test"),
        0,
    );

    assert_eq!(
        result,
        Err(vec![ResolverError::UnboundedField {
            entity: "record",
            field: "description"
        }]),
    );
}

#[test]
fn bounded_field_referenced_contributes_normally() {
    let mut tokens = vec![FlatPageToken::Field {
        entity: "record",
        field: "headline",
    }];
    let varlena = vec![bounded_field("headline", 100)];
    let schema = SchemaIndex {
        fixed: &[],
        varlena: &varlena,
    };

    let metrics = resolve_and_measure(
        &mut tokens,
        &schema,
        |_| unreachable!("aucun StaticInclude dans ce test"),
        |_| unreachable!("aucun AssetRef dans ce test"),
        0,
    )
    .expect("champ borné référencé : résolution attendue en succès");

    assert_eq!(
        metrics.total_dynamic_bytes,
        100 * VarlenField::HTML_ESCAPE_FACTOR
    );
    assert_eq!(metrics.total_static_bytes, 0);
}

#[test]
fn unbounded_field_not_referenced_is_cold() {
    let mut tokens = vec![FlatPageToken::Static("<article></article>")];
    let varlena = vec![unbounded_field("description")];
    let schema = SchemaIndex {
        fixed: &[],
        varlena: &varlena,
    };

    let metrics = resolve_and_measure(
        &mut tokens,
        &schema,
        |_| unreachable!("aucun StaticInclude dans ce test"),
        |_| unreachable!("aucun AssetRef dans ce test"),
        0,
    )
    .expect("champ Cold non référencé : résolution attendue en succès");

    assert_eq!(
        metrics.total_dynamic_bytes, 0,
        "champ Cold ne doit jamais contribuer"
    );
    assert_eq!(metrics.total_static_bytes, 19); // "<article></article>".len()
}

#[test]
fn asset_ref_found_contributes_static_bytes() {
    let mut tokens = vec![
        FlatPageToken::Static("<link href=\""),
        FlatPageToken::AssetRef("main.css"),
        FlatPageToken::Static("\">"),
    ];
    let schema = SchemaIndex {
        fixed: &[],
        varlena: &[],
    };

    let metrics = resolve_and_measure(
        &mut tokens,
        &schema,
        |_| unreachable!("aucun StaticInclude dans ce test"),
        |key| {
            assert_eq!(key, "main.css");
            AssetLookup::Found(20)
        },
        0,
    )
    .expect("clé présente : résolution attendue en succès");

    assert_eq!(metrics.total_static_bytes, 12 + 20 + 2);
    assert_eq!(
        metrics.total_dynamic_bytes, 0,
        "un asset résolu ne doit jamais contribuer à total_dynamic_bytes"
    );
}

#[test]
fn asset_not_found_carries_supplied_suggestion_unchanged() {
    let mut tokens = vec![FlatPageToken::AssetRef("util.svg")];
    let schema = SchemaIndex {
        fixed: &[],
        varlena: &[],
    };

    let result = resolve_and_measure(
        &mut tokens,
        &schema,
        |_| unreachable!("aucun StaticInclude dans ce test"),
        |key| {
            assert_eq!(key, "util.svg");
            AssetLookup::NotFound {
                suggestion: Some("vouliez-vous dire 'utils.svg' ?".to_string()),
            }
        },
        0,
    );

    let errors = result.expect_err("clé absente : Err attendu");
    assert_eq!(errors.len(), 1);
    match &errors[0] {
        ResolverError::AssetNotFound { key, suggestion } => {
            assert_eq!(*key, "util.svg");
            assert_eq!(
                suggestion.as_deref(),
                Some("vouliez-vous dire 'utils.svg' ?"),
                "la suggestion doit traverser resolve_and_measure sans altération"
            );
        }
        other => panic!("AssetNotFound attendu, obtenu : {other:?}"),
    }
}

#[test]
fn asset_not_found_without_suggestion_stays_none() {
    let mut tokens = vec![FlatPageToken::AssetRef("silos/195v.svg")];
    let schema = SchemaIndex {
        fixed: &[],
        varlena: &[],
    };

    let result = resolve_and_measure(
        &mut tokens,
        &schema,
        |_| unreachable!("aucun StaticInclude dans ce test"),
        |_| AssetLookup::NotFound { suggestion: None },
        0,
    );

    let errors = result.expect_err("clé absente : Err attendu");
    match &errors[0] {
        ResolverError::AssetNotFound { key, suggestion } => {
            assert_eq!(*key, "silos/195v.svg");
            assert_eq!(
                *suggestion, None,
                "aucun candidat plausible : None attendu, pas un texte générique"
            );
        }
        other => panic!("AssetNotFound attendu, obtenu : {other:?}"),
    }
}
