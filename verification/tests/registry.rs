use marius_forge::db::introspect::{
    avg_width_pressure, classify_description, column_from_row, entity_capacity,
    escaped_limit_exceeded, max_len_from_typmod, primary_key_from_columns, varlena_field,
};
use marius_forge::db::mapping::PrimaryKey;
use marius_forge::db::registry::{RegistryRow, group_component_rows, parse_component_id};
use marius_forge::schema::EscapePolicy;

fn row(id: &str, join: Option<(&str, &str, &str)>) -> RegistryRow {
    RegistryRow {
        component_id: id.to_string(),
        intent_density: 32,
        rls_guard_bitmask: Some(3),
        ref_schema: join.map(|j| j.0.to_string()),
        ref_table: join.map(|j| j.1.to_string()),
        fk_column: join.map(|j| j.2.to_string()),
    }
}

#[test]
fn component_id_splits_at_first_dot() {
    assert_eq!(
        parse_component_id("content.core").unwrap(),
        ("content".to_string(), "core".to_string())
    );
    assert_eq!(
        parse_component_id("a.b.c").unwrap(),
        ("a".to_string(), "b.c".to_string())
    );
}

#[test]
fn component_id_without_both_parts_is_rejected() {
    for id in ["core", ".core", "content.", ""] {
        let err = parse_component_id(id).unwrap_err();
        assert_eq!(err.message, format!("component_id invalide : «{id}» — attendu «schema.table»"));
    }
}

#[test]
fn rows_are_grouped_per_component_with_joins_in_order() {
    let rows = vec![
        row("commerce.product_core", None),
        row("content.core", Some(("content", "identity", "document_id"))),
        row("content.core", Some(("content", "body", "document_id"))),
    ];
    let configs = group_component_rows(&rows).unwrap();
    assert_eq!(configs.len(), 2);
    assert_eq!(configs[0].schema, "commerce");
    assert_eq!(configs[0].table, "product_core");
    assert!(configs[0].varlena_join.is_empty());
    assert_eq!(configs[1].schema, "content");
    assert_eq!(configs[1].table, "core");
    assert_eq!(configs[1].intent_density, 32);
    assert_eq!(configs[1].rls_guard_bitmask, Some(3));
    let tables: Vec<&str> = configs[1].varlena_join.iter().map(|j| j.table.as_str()).collect();
    assert_eq!(tables, vec!["identity", "body"]);
    assert_eq!(configs[1].varlena_join[0].fk_col, "document_id");
}

#[test]
fn partially_null_join_is_a_registry_error() {
    let mut bad = row("content.core", Some(("content", "body", "document_id")));
    bad.fk_column = None;
    let err = group_component_rows(&[row("a.b", None), bad]).unwrap_err();
    assert_eq!(
        err.message,
        "meta.component_varlena_join incohérente pour «content.core» — ref_schema/ref_table/fk_column partiellement NULL"
    );
}

#[test]
fn invalid_component_id_stops_grouping() {
    let err = group_component_rows(&[row("nodot", None)]).unwrap_err();
    assert!(err.message.contains("nodot"));
}

#[test]
fn description_tags_decide_escaping_and_segmentation() {
    assert_eq!(classify_description("  marius:pre_escaped "), (EscapePolicy::PreEscaped, false));
    assert_eq!(classify_description("marius:raw"), (EscapePolicy::Raw, false));
    assert_eq!(classify_description("marius:large_content"), (EscapePolicy::Raw, true));
    assert_eq!(classify_description("Titre de l'article"), (EscapePolicy::Escaped, false));
    assert_eq!(classify_description(""), (EscapePolicy::Escaped, false));
}

#[test]
fn varchar_typmod_gives_the_bound() {
    assert_eq!(max_len_from_typmod(104), Some(100));
    assert_eq!(max_len_from_typmod(5), Some(1));
    assert_eq!(max_len_from_typmod(4), None);
    assert_eq!(max_len_from_typmod(-1), None);
}

#[test]
fn escaped_bound_over_64_kib_is_reported() {
    assert_eq!(escaped_limit_exceeded(10_000, EscapePolicy::Escaped), None);
    assert_eq!(escaped_limit_exceeded(10_923, EscapePolicy::Escaped), Some(65_538));
    assert_eq!(escaped_limit_exceeded(65_536, EscapePolicy::Raw), None);
    assert_eq!(escaped_limit_exceeded(65_537, EscapePolicy::PreEscaped), Some(65_537));
    assert_eq!(escaped_limit_exceeded(usize::MAX, EscapePolicy::Escaped), Some(usize::MAX));
}

#[test]
fn average_width_above_four_fifths_is_pressure() {
    assert!(!avg_width_pressure(80, 100));
    assert!(avg_width_pressure(81, 100));
    assert!(!avg_width_pressure(0, 0));
}

#[test]
fn entity_capacity_rounds_words_to_a_power_of_two() {
    assert_eq!(entity_capacity(0), Some(64));
    assert_eq!(entity_capacity(64), Some(64));
    assert_eq!(entity_capacity(65), Some(128));
    assert_eq!(entity_capacity(200), Some(256));
    assert_eq!(entity_capacity(1_000), Some(1_024));
    assert_eq!(entity_capacity(1_025), Some(2_048));
    assert_eq!(entity_capacity(usize::MAX / 2 + 1), Some(usize::MAX / 2 + 1));
    assert_eq!(entity_capacity(usize::MAX / 2 + 2), None);
    assert_eq!(entity_capacity(usize::MAX), None);
}

#[test]
fn column_from_row_reads_the_sentinel() {
    let c = column_from_row(3, "parent_id".to_string(), "integer".to_string(), false, "lien ; marius:sentinel=-1");
    assert_eq!(c.attnum, 3);
    assert_eq!(c.name, "parent_id");
    assert_eq!(c.sql_type, "integer");
    assert!(!c.is_notnull);
    assert_eq!(c.sentinel.as_deref(), Some("-1"));
}

#[test]
fn primary_key_shape_follows_column_count() {
    assert!(matches!(primary_key_from_columns(vec!["id".to_string()]), PrimaryKey::Single(ref n) if n == "id"));
    assert!(matches!(primary_key_from_columns(vec![]), PrimaryKey::Composite));
    assert!(matches!(
        primary_key_from_columns(vec!["a".to_string(), "b".to_string()]),
        PrimaryKey::Composite
    ));
}

#[test]
fn varlena_field_records_its_provenance() {
    let v = varlena_field("slug".to_string(), "content", "identity", Some(80), EscapePolicy::Escaped, false);
    assert_eq!(v.name, "slug");
    assert_eq!(v.ref_schema, "content");
    assert_eq!(v.ref_table, "identity");
    assert_eq!(v.max_len, Some(80));
    assert!(v.nullable);
    assert_eq!(v.max_escaped_len_override, None);
    assert_eq!(v.max_escaped_len(), Some(480));
}

#[test]
fn primary_key_notice_explains_composite_treatment() {
    use_notice();
}

fn use_notice() {
    assert_eq!(
        marius_forge::db::introspect::pk_notice("content", "core", 0).as_deref(),
        Some("DB-Forge [content.core] : aucune PK trouvée — traité comme Composite.")
    );
    assert_eq!(marius_forge::db::introspect::pk_notice("content", "core", 1), None);
    assert_eq!(
        marius_forge::db::introspect::pk_notice("geo", "pair", 2).as_deref(),
        Some("DB-Forge [geo.pair] : PK composite (2 colonnes) — Collector ignoré.")
    );
}
