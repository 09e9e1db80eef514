//! Source text of the generated types of a component: section header,
//! `{Name}Row` (sqlx decoding), `{Name}StorageRow` (`repr(C)` storage),
//! `{Name}VarlenOwned` (owned varlena values) and the `From` conversion.

use vstd::prelude::*;
use crate::db::mapping::{Column, MappingV, PrimaryKey, map_type, map_type_spec};
use crate::db::naming::{pascal_spec, to_pascal};
use crate::db::validate::{ceil_div, header_bytes};
use crate::schema::{EscapePolicy, VarlenField};
use crate::text::{decimal, decimal_int, push_i64, push_str, push_usize, replace_all, replace_spec, str_eq};

verus! {

/// `s` followed by a newline.
pub open spec fn ln(s: Seq<char>) -> Seq<char> {
    s + "\n"@
}

/// Appends `s` and a newline.
pub fn push_ln(out: &mut String, s: &str)
    ensures
        final(out)@ == old(out)@ + ln(s@),
{
    push_str(out, s);
    push_str(out, "\n");
}

/// `n` copies of `c`.
pub open spec fn repeat(c: char, n: nat) -> Seq<char> {
    Seq::new(n, |_i: int| c)
}

pub fn push_repeat(out: &mut String, c: char, n: usize)
    ensures
        final(out)@ == old(out)@ + repeat(c, n as nat),
{
    let mut k: usize = 0;
    while k < n
        invariant
            k <= n,
            out@ == old(out)@ + repeat(c, k as nat),
        decreases n - k,
    {
        crate::text::push_char(out, c);
        assert(repeat(c, (k + 1) as nat) =~= repeat(c, k as nat).push(c));
        k += 1;
    }
}

/// The type-name stem of a component: `schema_table` in PascalCase.
pub open spec fn type_stem(schema: Seq<char>, table: Seq<char>) -> Seq<char> {
    pascal_spec(schema + "_"@ + table)
}

pub fn component_stem(schema: &str, table: &str) -> (r: String)
    ensures
        r@ == type_stem(schema@, table@),
{
    let mut id = String::new();
    push_str(&mut id, schema);
    push_str(&mut id, "_");
    push_str(&mut id, table);
    to_pascal(id.as_str())
}

// ---------------------------------------------------------------------------
// Section header
// ---------------------------------------------------------------------------

pub open spec fn pk_info(pk: PrimaryKey) -> Seq<char> {
    match pk {
        PrimaryKey::Single(col) => "PK="@ + col@,
        PrimaryKey::Composite => "PK composite — Collector N/A"@,
    }
}

pub open spec fn section_header_spec(schema: Seq<char>, table: Seq<char>, pk: PrimaryKey) -> Seq<char> {
    ln("// "@ + repeat('=', 60)) + ln("// "@ + schema + "."@ + table + " · "@ + pk_info(pk)) + ln(
        "// "@ + repeat('=', 60) + "\n"@,
    )
}

/// Writes the banner that opens the section of a component.
pub fn write_section_header(out: &mut String, schema: &str, table: &str, pk: &PrimaryKey)
    ensures
        final(out)@ == old(out)@ + section_header_spec(schema@, table@, *pk),
{
    push_str(out, "// ");
    push_repeat(out, '=', 60);
    push_str(out, "\n// ");
    push_str(out, schema);
    push_str(out, ".");
    push_str(out, table);
    push_str(out, " · ");
    match pk {
        PrimaryKey::Single(col) => {
            push_str(out, "PK=");
            push_str(out, col.as_str());
        },
        PrimaryKey::Composite => {
            push_str(out, "PK composite — Collector N/A");
        },
    }
    push_str(out, "\n// ");
    push_repeat(out, '=', 60);
    push_str(out, "\n\n");
    proof {
        reveal_strlit("\n// ");
        reveal_strlit("\n");
        reveal_strlit("\n\n");
        reveal_strlit("// ");
    }
    assert(out@ =~= old(out)@ + section_header_spec(schema@, table@, *pk));
}

// ---------------------------------------------------------------------------
// Storage expressions
// ---------------------------------------------------------------------------

/// The conversion of a nullable column: the mapping's template with the
/// field (after `prefix`) and the sentinel (the column's, else the type's).
pub open spec fn nullable_expr_spec(col: Column, prefix: Seq<char>) -> Seq<char> {
    let m = map_type_spec(col.sql_type@);
    let sentinel = match col.sentinel {
        Some(s) => s@,
        None => m.default_sentinel,
    };
    replace_spec(replace_spec(m.from_expr, "{field}"@, prefix + col.name@), "{sentinel}"@, sentinel)
}

/// Builds the conversion of a nullable column into its storage value.
pub fn build_nullable_expr(col: &Column, prefix: &str) -> (r: String)
    ensures
        r@ == nullable_expr_spec(*col, prefix@),
{
    let m = map_type(col.sql_type.as_str());
    let mut field = String::new();
    push_str(&mut field, prefix);
    push_str(&mut field, col.name.as_str());
    let sentinel: &str = match &col.sentinel {
        Some(s) => s.as_str(),
        None => m.default_sentinel,
    };
    proof {
        reveal_strlit("{field}");
        reveal_strlit("{sentinel}");
    }
    let a = replace_all(m.from_expr, "{field}", field.as_str());
    replace_all(a.as_str(), "{sentinel}", sentinel)
}

/// The storage value of a fixed-length column read from `prefix + name`.
pub open spec fn storage_expr_spec(col: Column, prefix: Seq<char>) -> Seq<char> {
    let m = map_type_spec(col.sql_type@);
    let f = prefix + col.name@;
    let base = if col.is_notnull {
        if col.sql_type@ == "pg_lsn"@ {
            f + " as u64"@
        } else if m.row_type == "chrono::DateTime<chrono::Utc>"@ {
            f + ".timestamp_micros()"@
        } else if m.row_type == "chrono::NaiveDateTime"@ {
            f + ".and_utc().timestamp_micros()"@
        } else if m.row_type == "chrono::NaiveDate"@ {
            f + ".num_days_from_ce()"@
        } else {
            f
        }
    } else {
        nullable_expr_spec(col, prefix)
    };
    if m.row_type == "bool"@ {
        "("@ + base + ") as u8"@
    } else {
        base
    }
}

fn storage_expr(col: &Column, prefix: &str) -> (r: String)
    ensures
        r@ == storage_expr_spec(*col, prefix@),
{
    let m = map_type(col.sql_type.as_str());
    let mut base = String::new();
    if col.is_notnull {
        push_str(&mut base, prefix);
        push_str(&mut base, col.name.as_str());
        if str_eq(col.sql_type.as_str(), "pg_lsn") {
            push_str(&mut base, " as u64");
        } else if str_eq(m.row_type, "chrono::DateTime<chrono::Utc>") {
            push_str(&mut base, ".timestamp_micros()");
        } else if str_eq(m.row_type, "chrono::NaiveDateTime") {
            push_str(&mut base, ".and_utc().timestamp_micros()");
        } else if str_eq(m.row_type, "chrono::NaiveDate") {
            push_str(&mut base, ".num_days_from_ce()");
        }
    } else {
        base = build_nullable_expr(col, prefix);
    }
    if str_eq(m.row_type, "bool") {
        let mut e = String::new();
        push_str(&mut e, "(");
        push_str(&mut e, base.as_str());
        push_str(&mut e, ") as u8");
        e
    } else {
        base
    }
}

/// One field initialiser: shorthand when the value is the name itself.
pub open spec fn init_line(indent: Seq<char>, name: Seq<char>, expr: Seq<char>) -> Seq<char> {
    if name == expr {
        ln(indent + name + ","@)
    } else {
        ln(indent + name + ": "@ + expr + ","@)
    }
}

/// The initialisers of the fixed-length columns.
pub open spec fn storage_inits(indent: Seq<char>, prefix: Seq<char>, columns: Seq<Column>) -> Seq<char>
    decreases columns.len(),
{
    if columns.len() == 0 {
        Seq::empty()
    } else {
        let col = columns.last();
        storage_inits(indent, prefix, columns.drop_last()) + if map_type_spec(col.sql_type@).is_fixed {
            init_line(indent, col.name@, storage_expr_spec(col, prefix))
        } else {
            Seq::empty()
        }
    }
}

/// Sum of the sizes of the fixed-length columns.
pub open spec fn fixed_bytes(columns: Seq<Column>) -> int {
    crate::db::validate::payload_bytes(columns)
}

/// Tail padding of a packed layout: up to the largest alignment.
pub open spec fn tail_pad(columns: Seq<Column>) -> int {
    crate::db::validate::padded_payload(columns) - fixed_bytes(columns)
}

pub open spec fn pad_init(indent: Seq<char>, columns: Seq<Column>) -> Seq<char> {
    if tail_pad(columns) > 0 {
        ln(indent + "_pad: [0u8; "@ + decimal(tail_pad(columns) as nat) + "],"@)
    } else {
        Seq::empty()
    }
}

/// Writes the field initialisers of the fixed-length columns, then the
/// tail padding if any.
pub(crate) fn push_storage_inits(out: &mut String, indent: &str, prefix: &str, columns: &[Column])
    requires
        columns@.len() <= usize::MAX / 64,
    ensures
        final(out)@ == old(out)@ + storage_inits(indent@, prefix@, columns@) + pad_init(
            indent@,
            columns@,
        ),
{
    let mut layout: usize = 0;
    let mut max_align: usize = 1;
    let mut i: usize = 0;
    assert(columns@.take(0) =~= Seq::<Column>::empty());
    while i < columns.len()
        invariant
            columns@.len() <= usize::MAX / 64,
            i <= columns@.len(),
            out@ == old(out)@ + storage_inits(indent@, prefix@, columns@.take(i as int)),
            layout == crate::db::validate::payload_bytes(columns@.take(i as int)),
            max_align == crate::db::validate::max_alignment(columns@.take(i as int)),
            layout <= 16 * i,
            1 <= max_align <= 16,
        decreases columns.len() - i,
    {
        let col = &columns[i];
        proof {
            assert(columns@.take(i + 1).drop_last() =~= columns@.take(i as int));
            assert(columns@.take(i + 1).last() == columns@[i as int]);
            crate::db::mapping::fixed_layout_is_sane(col.sql_type@);
        }
        let m = map_type(col.sql_type.as_str());
        if m.is_fixed {
            layout = layout + m.size_bytes;
            if m.alignment > max_align {
                max_align = m.alignment;
            }
            let e = storage_expr(col, prefix);
            push_str(out, indent);
            push_str(out, col.name.as_str());
            if str_eq(col.name.as_str(), e.as_str()) {
                push_str(out, ",\n");
            } else {
                push_str(out, ": ");
                push_str(out, e.as_str());
                push_str(out, ",\n");
            }
            proof {
                reveal_strlit(",\n");
                reveal_strlit(",");
                reveal_strlit("\n");
            }
        }
        i += 1;
        assert(out@ =~= old(out)@ + storage_inits(indent@, prefix@, columns@.take(i as int)));
    }
    assert(columns@.take(i as int) =~= columns@);
    let q = (layout + max_align - 1) / max_align;
    proof {
        let a: int = (layout + max_align - 1) as int;
        let b: int = max_align as int;
        let qq: int = q as int;
        assert(qq * b <= a && qq * b >= a - b + 1) by (nonlinear_arith)
            requires
                qq == a / b,
                b >= 1,
                a >= 0,
        ;
    }
    let padded = q * max_align;
    assert(padded as int == crate::db::validate::padded_payload(columns@));
    assert(layout as int == fixed_bytes(columns@));
    assert(padded - layout == tail_pad(columns@));
    let ghost before = out@;
    if padded > layout {
        let pad = padded - layout;
        push_str(out, indent);
        push_str(out, "_pad: [0u8; ");
        push_usize(out, pad);
        push_str(out, "],\n");
        proof {
            reveal_strlit("],\n");
            reveal_strlit("],");
            reveal_strlit("\n");
            assert(out@ =~= before + pad_init(indent@, columns@));
        }
    } else {
        assert(pad_init(indent@, columns@) =~= Seq::<char>::empty());
        assert(out@ =~= before + pad_init(indent@, columns@));
    }
    assert(out@ =~= old(out)@ + storage_inits(indent@, prefix@, columns@) + pad_init(indent@, columns@));
}

// ---------------------------------------------------------------------------
// From<Row> for StorageRow
// ---------------------------------------------------------------------------

pub open spec fn from_impl_spec(schema: Seq<char>, table: Seq<char>, columns: Seq<Column>) -> Seq<char> {
    let name = type_stem(schema, table);
    ln("impl From<"@ + name + "Row> for "@ + name + "StorageRow {"@) + ln(
        "    fn from(r: "@ + name + "Row) -> Self {"@,
    ) + ln("        Self {"@) + storage_inits("            "@, "r."@, columns) + pad_init(
        "            "@,
        columns,
    ) + ln("        }"@) + ln("    }"@) + ln("}\n"@)
}

/// Writes `impl From<{Name}Row> for {Name}StorageRow`: every fixed-length
/// column converted to its storage value (NULL to its sentinel, booleans to
/// `u8`), then the tail padding.
pub fn write_from_impl(out: &mut String, schema: &str, table: &str, columns: &[Column])
    requires
        columns@.len() <= usize::MAX / 64,
    ensures
        final(out)@ == old(out)@ + from_impl_spec(schema@, table@, columns@),
{
    let name = component_stem(schema, table);
    push_str(out, "impl From<");
    push_str(out, name.as_str());
    push_str(out, "Row> for ");
    push_str(out, name.as_str());
    push_str(out, "StorageRow {\n    fn from(r: ");
    push_str(out, name.as_str());
    push_str(out, "Row) -> Self {\n        Self {\n");
    let ghost mid = out@;
    push_storage_inits(out, "            ", "r.", columns);
    push_str(out, "        }\n    }\n}\n\n");
    proof {
        reveal_strlit("StorageRow {\n    fn from(r: ");
        reveal_strlit("StorageRow {");
        reveal_strlit("    fn from(r: ");
        reveal_strlit("Row) -> Self {\n        Self {\n");
        reveal_strlit("Row) -> Self {");
        reveal_strlit("        Self {");
        reveal_strlit("        }\n    }\n}\n\n");
        reveal_strlit("        }");
        reveal_strlit("    }");
        reveal_strlit("}\n");
        reveal_strlit("\n");
    }
    assert(out@ =~= old(out)@ + from_impl_spec(schema@, table@, columns@));
}

// ---------------------------------------------------------------------------
// {Name}Row
// ---------------------------------------------------------------------------

pub open spec fn row_doc(schema: Seq<char>, table: Seq<char>) -> Seq<char> {
    "/// Struct de désérialisation sqlx pour "@ + schema + "."@ + table
        + ".\n/// Types natifs Rust + Option<T> pour nullable. NON repr(C).\n/// Varlena JOIN : Option<String> (allocation sqlx, durée éphémère).\n/// Transformer en StorageRow (From impl) + VarlenOwned avant usage.\n"@
}

pub open spec fn row_column_line(col: Column) -> Seq<char> {
    let m = map_type_spec(col.sql_type@);
    if m.is_fixed {
        if col.is_notnull {
            ln("    pub "@ + col.name@ + ": "@ + m.row_type + ","@)
        } else {
            ln("    pub "@ + col.name@ + ": Option<"@ + m.row_type
                + ">,  // NULLABLE → sentinel dans StorageRow"@)
        }
    } else if m.row_type.len() >= 2 && m.row_type.take(2) == "/*"@ {
        ln("    // EXCLU Phase 1 : "@ + col.name@ + " ("@ + col.sql_type@ + ") — "@ + m.row_type)
    } else if col.is_notnull {
        ln("    pub "@ + col.name@ + ": "@ + m.row_type + ",  // varlena table principale"@)
    } else {
        ln("    pub "@ + col.name@ + ": Option<"@ + m.row_type
            + ">,  // varlena NULLABLE table principale"@)
    }
}

pub open spec fn row_columns(columns: Seq<Column>) -> Seq<char>
    decreases columns.len(),
{
    if columns.len() == 0 {
        Seq::empty()
    } else {
        row_columns(columns.drop_last()) + row_column_line(columns.last())
    }
}

pub open spec fn row_varlena_line(v: VarlenField) -> Seq<char> {
    let bound = match v.max_len {
        Some(n) => "VARCHAR("@ + decimal(n as nat) + ")"@,
        None => "TEXT non borné"@,
    };
    ln("    pub "@ + v.name@ + ": Option<String>,  // varlena JOIN "@ + bound + " — → as_deref()"@)
}

pub open spec fn row_varlena(varlena: Seq<VarlenField>) -> Seq<char>
    decreases varlena.len(),
{
    if varlena.len() == 0 {
        Seq::empty()
    } else {
        row_varlena(varlena.drop_last()) + row_varlena_line(varlena.last())
    }
}

pub open spec fn row_struct_spec(
    schema: Seq<char>,
    table: Seq<char>,
    columns: Seq<Column>,
    varlena: Seq<VarlenField>,
) -> Seq<char> {
    row_doc(schema, table) + ln("#[derive(Debug, sqlx::FromRow)]"@) + ln(
        "pub struct "@ + type_stem(schema, table) + "Row {"@,
    ) + row_columns(columns) + row_varlena(varlena) + ln("}\n"@)
}

fn push_row_column(out: &mut String, col: &Column)
    ensures
        final(out)@ == old(out)@ + row_column_line(*col),
{
    let m = map_type(col.sql_type.as_str());
    let rt: &str = m.row_type;
    let rtc = crate::text::chars_of(rt);
    let starts_comment = rtc.len() >= 2 && rtc[0] == '/' && rtc[1] == '*';
    proof {
        reveal_strlit("/*");
        if rt@.len() >= 2 {
            if starts_comment {
                assert(rt@.take(2) =~= "/*"@);
            } else {
                assert(rt@.take(2)[0] != '/' || rt@.take(2)[1] != '*');
            }
        }
    }
    if m.is_fixed {
        push_str(out, "    pub ");
        push_str(out, col.name.as_str());
        if col.is_notnull {
            push_str(out, ": ");
            push_str(out, rt);
            push_str(out, ",\n");
        } else {
            push_str(out, ": Option<");
            push_str(out, rt);
            push_str(out, ">,  // NULLABLE → sentinel dans StorageRow\n");
        }
    } else if starts_comment {
        push_str(out, "    // EXCLU Phase 1 : ");
        push_str(out, col.name.as_str());
        push_str(out, " (");
        push_str(out, col.sql_type.as_str());
        push_str(out, ") — ");
        push_str(out, rt);
        push_str(out, "\n");
    } else if col.is_notnull {
        push_str(out, "    pub ");
        push_str(out, col.name.as_str());
        push_str(out, ": ");
        push_str(out, rt);
        push_str(out, ",  // varlena table principale\n");
    } else {
        push_str(out, "    pub ");
        push_str(out, col.name.as_str());
        push_str(out, ": Option<");
        push_str(out, rt);
        push_str(out, ">,  // varlena NULLABLE table principale\n");
    }
    proof {
        reveal_strlit(",\n");
        reveal_strlit(",");
        reveal_strlit("\n");
        reveal_strlit(">,  // NULLABLE → sentinel dans StorageRow\n");
        reveal_strlit(">,  // NULLABLE → sentinel dans StorageRow");
        reveal_strlit(",  // varlena table principale\n");
        reveal_strlit(",  // varlena table principale");
        reveal_strlit(">,  // varlena NULLABLE table principale\n");
        reveal_strlit(">,  // varlena NULLABLE table principale");
    }
    assert(out@ =~= old(out)@ + row_column_line(*col));
}

fn push_row_varlena(out: &mut String, v: &VarlenField)
    ensures
        final(out)@ == old(out)@ + row_varlena_line(*v),
{
    push_str(out, "    pub ");
    push_str(out, v.name.as_str());
    push_str(out, ": Option<String>,  // varlena JOIN ");
    match v.max_len {
        Some(n) => {
            push_str(out, "VARCHAR(");
            push_usize(out, n);
            push_str(out, ")");
        },
        None => {
            push_str(out, "TEXT non borné");
        },
    }
    push_str(out, " — → as_deref()\n");
    proof {
        reveal_strlit(" — → as_deref()\n");
        reveal_strlit(" — → as_deref()");
        reveal_strlit("\n");
    }
    assert(out@ =~= old(out)@ + row_varlena_line(*v));
}

/// Writes `{Name}Row`, the sqlx decoding struct: fixed-length columns as
/// their row type (`Option` when nullable), excluded types as comments,
/// own varlena columns as strings, joined varlena fields as `Option<String>`.
pub fn write_row_struct(
    out: &mut String,
    schema: &str,
    table: &str,
    columns: &[Column],
    varlena: &[VarlenField],
)
    ensures
        final(out)@ == old(out)@ + row_struct_spec(schema@, table@, columns@, varlena@),
{
    let name = component_stem(schema, table);
    push_str(out, "/// Struct de désérialisation sqlx pour ");
    push_str(out, schema);
    push_str(out, ".");
    push_str(out, table);
    push_str(
        out,
        ".\n/// Types natifs Rust + Option<T> pour nullable. NON repr(C).\n/// Varlena JOIN : Option<String> (allocation sqlx, durée éphémère).\n/// Transformer en StorageRow (From impl) + VarlenOwned avant usage.\n",
    );
    push_str(out, "#[derive(Debug, sqlx::FromRow)]\npub struct ");
    push_str(out, name.as_str());
    push_str(out, "Row {\n");
    let ghost head = out@;
    let mut i: usize = 0;
    assert(columns@.take(0) =~= Seq::<Column>::empty());
    while i < columns.len()
        invariant
            i <= columns@.len(),
            out@ == head + row_columns(columns@.take(i as int)),
        decreases columns.len() - i,
    {
        push_row_column(out, &columns[i]);
        assert(columns@.take(i + 1).drop_last() =~= columns@.take(i as int));
        i += 1;
    }
    assert(columns@.take(i as int) =~= columns@);
    let ghost mid = out@;
    let mut k: usize = 0;
    assert(varlena@.take(0) =~= Seq::<VarlenField>::empty());
    while k < varlena.len()
        invariant
            k <= varlena@.len(),
            out@ == mid + row_varlena(varlena@.take(k as int)),
        decreases varlena.len() - k,
    {
        push_row_varlena(out, &varlena[k]);
        assert(varlena@.take(k + 1).drop_last() =~= varlena@.take(k as int));
        k += 1;
    }
    assert(varlena@.take(k as int) =~= varlena@);
    push_str(out, "}\n\n");
    proof {
        reveal_strlit("#[derive(Debug, sqlx::FromRow)]\npub struct ");
        reveal_strlit("#[derive(Debug, sqlx::FromRow)]");
        reveal_strlit("pub struct ");
        reveal_strlit("Row {\n");
        reveal_strlit("Row {");
        reveal_strlit("}\n\n");
        reveal_strlit("}\n");
        reveal_strlit("\n");
    }
    assert(out@ =~= old(out)@ + row_struct_spec(schema@, table@, columns@, varlena@));
}

// ---------------------------------------------------------------------------
// {Name}VarlenOwned
// ---------------------------------------------------------------------------

pub open spec fn varlen_doc(schema: Seq<char>, table: Seq<char>) -> Seq<char> {
    "/// Données varlena possédées pour "@ + schema + "."@ + table
        + ".\n/// Send + 'static : traversée tokio::spawn et rayon::par_iter.\n/// render() reconstruit les &str localement via as_deref() — zéro copie.\n"@
}

pub open spec fn varlen_field_lines(v: VarlenField) -> Seq<char> {
    let bound = match v.max_len {
        Some(n) => "VARCHAR("@ + decimal(n as nat) + ")"@,
        None => "TEXT (non borné — Cold sauf si référencé)"@,
    };
    let escape = match v.escape_policy {
        EscapePolicy::Escaped => "escape HTML, facteur 6"@,
        EscapePolicy::PreEscaped => "pré-échappé (échappé quand même), facteur 1"@,
        EscapePolicy::Raw => "brut — HTML pré-rendu, jamais échappé, facteur 1"@,
    };
    ln("    /// "@ + bound + " — "@ + escape + "."@) + if v.is_segment {
        ln(
            "    /// Segment autonome (marius:large_content) — jamais concaténé dans buf, ne dimensionne jamais la capacité totale du composant."@,
        )
    } else {
        Seq::empty()
    } + ln("    pub "@ + v.name@ + ": Option<String>,"@)
}

pub open spec fn varlen_fields(varlena: Seq<VarlenField>) -> Seq<char>
    decreases varlena.len(),
{
    if varlena.len() == 0 {
        Seq::empty()
    } else {
        varlen_fields(varlena.drop_last()) + varlen_field_lines(varlena.last())
    }
}

pub open spec fn varlen_owned_spec(schema: Seq<char>, table: Seq<char>, varlena: Seq<VarlenField>) -> Seq<
    char,
> {
    if varlena.len() == 0 {
        ln("// "@ + schema + "."@ + table
            + " : aucun champ varlena — type VarlenOwned = () dans le trait.\n"@)
    } else {
        varlen_doc(schema, table) + ln("#[derive(Debug, Default)]"@) + ln(
            "pub struct "@ + type_stem(schema, table) + "VarlenOwned {"@,
        ) + varlen_fields(varlena) + ln("}\n"@)
    }
}

#[verifier::rlimit(40)]
fn push_varlen_field(out: &mut String, v: &VarlenField)
    ensures
        final(out)@ == old(out)@ + varlen_field_lines(*v),
{
    push_str(out, "    /// ");
    match v.max_len {
        Some(n) => {
            push_str(out, "VARCHAR(");
            push_usize(out, n);
            push_str(out, ")");
        },
        None => {
            push_str(out, "TEXT (non borné — Cold sauf si référencé)");
        },
    }
    push_str(out, " — ");
    match v.escape_policy {
        EscapePolicy::Escaped => {
            push_str(out, "escape HTML, facteur 6");
        },
        EscapePolicy::PreEscaped => {
            push_str(out, "pré-échappé (échappé quand même), facteur 1");
        },
        EscapePolicy::Raw => {
            push_str(out, "brut — HTML pré-rendu, jamais échappé, facteur 1");
        },
    }
    push_str(out, ".\n");
    if v.is_segment {
        push_str(
            out,
            "    /// Segment autonome (marius:large_content) — jamais concaténé dans buf, ne dimensionne jamais la capacité totale du composant.\n",
        );
    }
    push_str(out, "    pub ");
    push_str(out, v.name.as_str());
    push_str(out, ": Option<String>,\n");
    proof {
        reveal_strlit(".\n");
        reveal_strlit(".");
        reveal_strlit("\n");
        reveal_strlit("    /// Segment autonome (marius:large_content) — jamais concaténé dans buf, ne dimensionne jamais la capacité totale du composant.\n");
        reveal_strlit("    /// Segment autonome (marius:large_content) — jamais concaténé dans buf, ne dimensionne jamais la capacité totale du composant.");
        reveal_strlit(": Option<String>,\n");
        reveal_strlit(": Option<String>,");
    }
    assert(out@ =~= old(out)@ + varlen_field_lines(*v));
}

/// Writes `{Name}VarlenOwned`, one `Option<String>` per joined varlena
/// field with its bound and escaping in a comment; with no varlena field,
/// a comment saying the type is `()`.
pub fn write_varlen_owned_struct(out: &mut String, schema: &str, table: &str, varlena: &[VarlenField])
    ensures
        final(out)@ == old(out)@ + varlen_owned_spec(schema@, table@, varlena@),
{
    if varlena.len() == 0 {
        push_str(out, "// ");
        push_str(out, schema);
        push_str(out, ".");
        push_str(out, table);
        push_str(out, " : aucun champ varlena — type VarlenOwned = () dans le trait.\n\n");
        proof {
            reveal_strlit(" : aucun champ varlena — type VarlenOwned = () dans le trait.\n\n");
            reveal_strlit(" : aucun champ varlena — type VarlenOwned = () dans le trait.\n");
            reveal_strlit("\n");
        }
        assert(out@ =~= old(out)@ + varlen_owned_spec(schema@, table@, varlena@));
        return;
    }
    let name = component_stem(schema, table);
    push_str(out, "/// Données varlena possédées pour ");
    push_str(out, schema);
    push_str(out, ".");
    push_str(out, table);
    push_str(
        out,
        ".\n/// Send + 'static : traversée tokio::spawn et rayon::par_iter.\n/// render() reconstruit les &str localement via as_deref() — zéro copie.\n",
    );
    push_str(out, "#[derive(Debug, Default)]\npub struct ");
    push_str(out, name.as_str());
    push_str(out, "VarlenOwned {\n");
    let ghost head = out@;
    let mut k: usize = 0;
    assert(varlena@.take(0) =~= Seq::<VarlenField>::empty());
    while k < varlena.len()
        invariant
            k <= varlena@.len(),
            out@ == head + varlen_fields(varlena@.take(k as int)),
        decreases varlena.len() - k,
    {
        push_varlen_field(out, &varlena[k]);
        assert(varlena@.take(k + 1).drop_last() =~= varlena@.take(k as int));
        k += 1;
    }
    assert(varlena@.take(k as int) =~= varlena@);
    push_str(out, "}\n\n");
    proof {
        reveal_strlit("#[derive(Debug, Default)]\npub struct ");
        reveal_strlit("#[derive(Debug, Default)]");
        reveal_strlit("pub struct ");
        reveal_strlit("VarlenOwned {\n");
        reveal_strlit("VarlenOwned {");
        reveal_strlit("}\n\n");
        reveal_strlit("}\n");
        reveal_strlit("\n");
    }
    assert(out@ =~= old(out)@ + varlen_owned_spec(schema@, table@, varlena@));
}

} // verus!
