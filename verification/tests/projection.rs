use marius_forge::db::fields::build_field_specs;
use marius_forge::db::mapping::{Column, PrimaryKey};
use marius_forge::db::projection::{no_fixed_column_warning, pk_is_resolvable, write_projection_stub};
use marius_forge::fragment::resolver::TemplateMetrics;
use marius_forge::schema::{EscapePolicy, FieldKind, VarlenField};

fn col(attnum: i16, name: &str, sql_type: &str, is_notnull: bool) -> Column {
    Column {
        attnum,
        name: name.to_string(),
        sql_type: sql_type.to_string(),
        is_notnull,
        sentinel: None,
    }
}

fn joined(name: &str, table: &str, is_segment: bool) -> VarlenField {
    VarlenField {
        name: name.to_string(),
        ref_schema: "content".to_string(),
        ref_table: table.to_string(),
        max_len: Some(100),
        escape_policy: if is_segment { EscapePolicy::Raw } else { EscapePolicy::Escaped },
        is_segment,
        nullable: true,
        max_escaped_len_override: None,
    }
}

const RENDER_COMMENT: &str = "    // Nesting inévitable, cosmétique : composition indépendante d'un
    // bloc {% if %} du template et du if let Some(s) systématique émis
    // pour tout champ varlena — fusionner algorithmiquement les deux
    // ajouterait de la complexité réelle à l'émetteur pour un gain
    // purement esthétique (session du 23/07/2026).
    #[allow(clippy::collapsible_if)]
";

#[test]
fn projection_stub_without_template_or_varlena_is_exact() {
    let columns = vec![col(1, "id", "int8", true), col(2, "label", "text", false)];
    let mut out = String::new();
    write_projection_stub(
        &mut out,
        "content",
        "tag",
        &columns,
        &PrimaryKey::Single("id".to_string()),
        &[],
        &[],
        None,
    );
    let expected = String::from(
        "pub struct ContentTagProjection;

pub const CONTENT_TAG_STATIC_CAP:  usize = 0;
pub const CONTENT_TAG_DYNAMIC_CAP: usize = 0;
pub const CONTENT_TAG_TOTAL_CAP:   usize = 0;

static CONTENT_TAG_STORE: marius_projection::StoreRegistry<ContentTagProjection> = marius_projection::StoreRegistry::new();

// Phase 2 AOT : _pool ignoré — lecture via StoreRegistry<PackfileReader>.
// RLS         : voir 09_rls/01_policies.sql
impl crate::projection::Projection for ContentTagProjection {
    type Record = ContentTagStorageRow;
    type VarlenOwned = ();

    async fn fetch_batch(
        _pool: &sqlx::PgPool,
        ids:   &[i64],
    ) -> Result<Vec<(Self::Record, Self::VarlenOwned)>, sqlx::Error> {
        let reader = CONTENT_TAG_STORE.load();

        let mut batch = Vec::with_capacity(ids.len());
        for &id in ids {
            if let Some((record, _vrefs)) = reader.lookup(id) {
                batch.push((*record, ()));
            }
        }
        Ok(batch)
    }

    async fn fetch_from_pg(
        pool: &sqlx::PgPool,
        ids:  &[i64],
    ) -> Result<Vec<(Self::Record, Self::VarlenOwned)>, sqlx::Error> {
        let rows = sqlx::query_as::<_, ContentTagRow>(
            \"SELECT id FROM content.tag WHERE content.tag.id = ANY($1) ORDER BY content.tag.id ASC\",
        )
        .bind(ids)
        .fetch_all(pool)
        .await?;
        Ok(rows.into_iter().map(|r| (ContentTagStorageRow::from(r), ())).collect())
    }

",
    ) + RENDER_COMMENT
        + "    fn render(record: &Self::Record, _varlena: &(), buf: &mut String) {
        let _ = (record, buf);
    }

    #[inline(always)]
    fn record_id(record: &Self::Record) -> i64 {
        record.id
    }

    fn packfile_path() -> ::std::path::PathBuf {
        let root = std::env::var(\"MARIUS_ARTIFACTS_DIR\")
            .unwrap_or_else(|_| \"artifacts\".to_string());
        ::std::path::PathBuf::from(format!(\"{root}/content_tag_pack.bin\"))
    }

    fn store_path() -> ::std::path::PathBuf {
        let root = std::env::var(\"MARIUS_ARTIFACTS_DIR\")
            .unwrap_or_else(|_| \"artifacts\".to_string());
        ::std::path::PathBuf::from(format!(\"{root}/content_tag_store.bin\"))
    }

    fn store_registry() -> &'static marius_projection::StoreRegistry<Self> {
        &CONTENT_TAG_STORE
    }

}

impl ContentTagProjection {
    pub fn cold_start_store() -> ::std::io::Result<()> {
        CONTENT_TAG_STORE.cold_start(&ContentTagProjection::store_path())
    }
}

";
    assert_eq!(out, expected);
}

#[test]
fn projection_stub_with_joins_qualifies_and_joins_on_the_key() {
    let columns = vec![
        col(1, "document_id", "int4", true),
        col(2, "lsn", "pg_lsn", false),
        col(3, "is_public", "bool", false),
    ];
    let varlena = vec![joined("slug", "identity", false), joined("content", "body", false)];
    let joins = [("content", "identity", "document_id"), ("content", "body", "document_id")];
    let metrics = TemplateMetrics { total_static_bytes: 40, total_dynamic_bytes: 2, include_count: 0 };
    let mut out = String::new();
    write_projection_stub(
        &mut out,
        "content",
        "core",
        &columns,
        &PrimaryKey::Single("document_id".to_string()),
        &varlena,
        &joins,
        Some(("out.push_str(\"x\");\r\nout.push_str(\"y\");\n", &metrics)),
    );
    assert!(out.contains("pub const CONTENT_CORE_STATIC_CAP:  usize = 40;\n"));
    assert!(out.contains("pub const CONTENT_CORE_DYNAMIC_CAP: usize = 2;\n"));
    assert!(out.contains("pub const CONTENT_CORE_TOTAL_CAP:   usize = 42;\n"));
    assert!(out.contains("    type VarlenOwned = ContentCoreVarlenOwned;\n"));
    assert!(out.contains(
        "\"SELECT content.core.document_id, (content.core.lsn - '0/0'::pg_lsn)::int8 AS lsn, content.core.is_public, identity.slug, body.content FROM content.core LEFT JOIN content.identity ON content.core.document_id = content.identity.document_id LEFT JOIN content.body ON content.core.document_id = content.body.document_id WHERE content.core.document_id = ANY($1) ORDER BY content.core.document_id ASC\",\n"
    ));
    assert!(out.contains("                    slug: _vrefs.get(0).map(str::to_owned),\n"));
    assert!(out.contains("                    content: _vrefs.get(1).map(str::to_owned),\n"));
    assert!(out.contains("                lsn: lsn.map(|v| v as u64).unwrap_or(0),\n"));
    assert!(out.contains("                is_public: (is_public.unwrap_or(false)) as u8,\n"));
    assert!(out.contains("                _pad: [0u8; 3],\n"));
    assert!(out.contains(
        "    fn render(record: &Self::Record, varlena: &ContentCoreVarlenOwned, buf: &mut String) {\n        buf.reserve(CONTENT_CORE_TOTAL_CAP);\n    out.push_str(\"x\");\n    out.push_str(\"y\");\n    }\n"
    ));
    assert!(!out.contains("render_segments"));
    assert!(out.contains("        record.document_id as i64\n"));
    assert!(out.contains("    fn varlena_field_count() -> u16 { 2 }\n"));
    assert!(out.contains("        match owned.content.as_deref() {\n"));
}

#[test]
fn projection_stub_of_segmented_component_renders_segments() {
    let columns = vec![col(1, "id", "int8", true)];
    let varlena = vec![joined("summary", "body", false), joined("content", "body", true)];
    let joins = [("content", "body", "id")];
    let metrics = TemplateMetrics { total_static_bytes: 10, total_dynamic_bytes: 600, include_count: 1 };
    let mut out = String::new();
    write_projection_stub(
        &mut out,
        "content",
        "page",
        &columns,
        &PrimaryKey::Single("id".to_string()),
        &varlena,
        &joins,
        Some(("segments.push(x);", &metrics)),
    );
    assert!(out.contains("    fn render(record: &Self::Record, _varlena: &ContentPageVarlenOwned, buf: &mut String) {\n        let _ = (record, buf);\n        unreachable!(\"ContentPageProjection::render() ne devrait jamais être appelée"));
    assert!(out.contains("    const MAX_SEGMENTS: usize = 3;\n"));
    assert!(out.contains("        buf.reserve(CONTENT_PAGE_TOTAL_CAP);\n    segments.push(x);\n    }\n"));
    assert!(out.contains("        record.id\n"));
}

#[test]
fn table_without_fixed_columns_is_warned_and_refused() {
    let columns = vec![col(1, "label", "text", true)];
    assert_eq!(
        no_fixed_column_warning("content", "note", &columns),
        Some("cargo:warning=DB-Forge [content.note] : aucune colonne fixed-length — stub incomplet généré.".to_string())
    );
    assert!(!pk_is_resolvable(&columns, &PrimaryKey::Composite));
    let fixed = vec![col(1, "label", "text", true), col(2, "id", "int8", true)];
    assert_eq!(no_fixed_column_warning("content", "note", &fixed), None);
    assert!(pk_is_resolvable(&fixed, &PrimaryKey::Single("id".to_string())));
    assert!(!pk_is_resolvable(&fixed, &PrimaryKey::Single("label".to_string())));
    assert!(!pk_is_resolvable(&fixed, &PrimaryKey::Single("missing".to_string())));
    let uuid_key = vec![col(1, "id", "uuid", true)];
    assert!(!pk_is_resolvable(&uuid_key, &PrimaryKey::Single("id".to_string())));
}

#[test]
fn composite_key_uses_first_fixed_column_and_placeholder_where() {
    let columns = vec![col(1, "label", "text", true), col(2, "rank", "int2", true), col(3, "n", "int4", true)];
    let mut out = String::new();
    write_projection_stub(&mut out, "geo", "pair", &columns, &PrimaryKey::Composite, &[], &[], None);
    assert!(out.contains("\"SELECT rank, n FROM geo.pair WHERE 1=1 /* PK composite: adapter */\",\n"));
    assert!(out.contains("        record.rank as i64\n"));
}

#[test]
fn field_specs_keep_fixed_columns_with_a_kind() {
    let columns = vec![
        col(1, "id", "int8", true),
        col(2, "label", "text", false),
        col(3, "uid", "uuid", true),
        col(4, "score", "real", false),
        col(5, "on", "boolean", true),
    ];
    let specs = build_field_specs(&columns);
    let got: Vec<(String, FieldKind, i16)> = specs.iter().map(|f| (f.name.clone(), f.kind, f.attnum)).collect();
    assert_eq!(
        got,
        vec![
            ("id".to_string(), FieldKind::I64, 1),
            ("score".to_string(), FieldKind::F32, 4),
            ("on".to_string(), FieldKind::Bool, 5),
        ]
    );
}
