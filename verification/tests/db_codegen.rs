use marius_forge::db::codegen::{
    build_nullable_expr, write_from_impl, write_row_struct, write_section_header,
    write_varlen_owned_struct,
};
use marius_forge::db::mapping::{Column, PrimaryKey, is_known_type};
use marius_forge::db::storage::write_store_struct;
use marius_forge::schema::{EscapePolicy, VarlenField};

fn col(attnum: i16, name: &str, sql_type: &str, is_notnull: bool) -> Column {
    Column {
        attnum,
        name: name.to_string(),
        sql_type: sql_type.to_string(),
        is_notnull,
        sentinel: None,
    }
}

fn sample_columns() -> Vec<Column> {
    vec![col(1, "id", "int8", true), col(2, "label", "text", false), col(3, "flag", "bool", false)]
}

fn slug_field(is_segment: bool) -> VarlenField {
    VarlenField {
        name: "slug".to_string(),
        ref_schema: "content".to_string(),
        ref_table: "identity".to_string(),
        max_len: Some(100),
        escape_policy: EscapePolicy::Escaped,
        is_segment,
        nullable: true,
        max_escaped_len_override: None,
    }
}

#[test]
fn section_header_is_exact() {
    let bar = "=".repeat(60);
    let mut out = String::new();
    write_section_header(&mut out, "content", "core", &PrimaryKey::Single("document_id".to_string()));
    assert_eq!(out, format!("// {bar}\n// content.core · PK=document_id\n// {bar}\n\n"));
    let mut out = String::new();
    write_section_header(&mut out, "geo", "pair", &PrimaryKey::Composite);
    assert_eq!(out, format!("// {bar}\n// geo.pair · PK composite — Collector N/A\n// {bar}\n\n"));
}

#[test]
fn store_struct_lays_out_fixed_columns_and_asserts_size() {
    let mut out = String::new();
    write_store_struct(&mut out, "content", "core", &sample_columns());
    assert!(out.contains("#[repr(C)]\n"));
    assert!(out.contains("pub struct ContentCoreStorageRow {\n"));
    assert!(out.contains(&format!("    pub id: i64,{}  // attnum=1, 8B\n", " ".repeat(18))));
    assert!(out.contains("    // VARLENA exclu : label (text) → VarlenOwned\n"));
    assert!(out.contains(&format!("    pub flag: u8,{}  // attnum=3, 1B [sentinel]\n", " ".repeat(16))));
    assert!(out.contains("    pub _pad: [u8; 7], // Tail padding explicite pour alignement Pod\n"));
    assert!(out.contains("// Layout fixed-length : 9B données → 16B padded (align=8B)\n"));
    assert!(out.contains("// + 24B header heap PostgreSQL (MAXALIGN(23 + ceil(3/8)))\n"));
    assert!(out.contains("    std::mem::size_of::<ContentCoreStorageRow>() == 16,\n"));
    assert!(out.contains("    std::mem::align_of::<ContentCoreStorageRow>() == 8,\n"));
}

#[test]
fn store_struct_places_fields_at_their_alignment() {
    let columns = vec![col(1, "flag", "bool", true), col(2, "id", "int8", true)];
    let mut out = String::new();
    write_store_struct(&mut out, "a", "b", &columns);
    assert!(out.contains("// Layout fixed-length : 16B données → 16B padded (align=8B)\n"));
    assert!(!out.contains("_pad"));
}

#[test]
fn row_struct_decodes_own_and_joined_columns() {
    let mut out = String::new();
    write_row_struct(&mut out, "content", "core", &sample_columns(), &[slug_field(false)]);
    assert!(out.contains("#[derive(Debug, sqlx::FromRow)]\npub struct ContentCoreRow {\n"));
    assert!(out.contains("    pub id: i64,\n"));
    assert!(out.contains("    pub label: Option<String>,  // varlena NULLABLE table principale\n"));
    assert!(out.contains("    pub flag: Option<bool>,  // NULLABLE → sentinel dans StorageRow\n"));
    assert!(out.contains("    pub slug: Option<String>,  // varlena JOIN VARCHAR(100) — → as_deref()\n"));
    assert!(out.ends_with("}\n\n"));
}

#[test]
fn from_impl_converts_nullable_and_pads() {
    let mut out = String::new();
    write_from_impl(&mut out, "content", "core", &sample_columns());
    assert_eq!(
        out,
        "impl From<ContentCoreRow> for ContentCoreStorageRow {\n    fn from(r: ContentCoreRow) -> Self {\n        Self {\n            id: r.id,\n            flag: (r.flag.unwrap_or(false)) as u8,\n            _pad: [0u8; 7],\n        }\n    }\n}\n\n"
    );
}

#[test]
fn varlen_owned_struct_without_varlena_is_a_comment() {
    let mut out = String::new();
    write_varlen_owned_struct(&mut out, "content", "core", &[]);
    assert_eq!(out, "// content.core : aucun champ varlena — type VarlenOwned = () dans le trait.\n\n");
}

#[test]
fn varlen_owned_struct_documents_each_field() {
    let mut out = String::new();
    write_varlen_owned_struct(&mut out, "content", "core", &[slug_field(true)]);
    assert!(out.contains("pub struct ContentCoreVarlenOwned {\n"));
    assert!(out.contains("    /// VARCHAR(100) — escape HTML, facteur 6.\n"));
    assert!(out.contains("    /// Segment autonome (marius:large_content)"));
    assert!(out.contains("    pub slug: Option<String>,\n"));
}

#[test]
fn nullable_expr_uses_column_sentinel_before_type_default() {
    let mut c = col(1, "parent_id", "int4", false);
    assert_eq!(build_nullable_expr(&c, "r."), "r.parent_id.unwrap_or(0)");
    c.sentinel = Some("-1".to_string());
    assert_eq!(build_nullable_expr(&c, "r."), "r.parent_id.unwrap_or(-1)");
}

#[test]
fn known_types_are_recognised_after_normalisation() {
    assert!(is_known_type("INT8"));
    assert!(is_known_type(" character varying(20) "));
    assert!(!is_known_type("money"));
}
