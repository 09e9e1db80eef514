//! PostgreSQL type to Rust layout: the row type, the storage type, the
//! conversion between them, the sentinel of a NULL, and the size and
//! alignment of the fixed-length types.

use vstd::prelude::*;
use crate::schema::{ascii_type_key, before_paren, field_kind_for_key, lemma_ascii_type_key_ignores_case, normalize_sql_type, same_up_to_ascii_case, sql_type_key};
use crate::text::{ascii_lower, ascii_lower_char, find_char_from, is_ascii_seq, lemma_find_char_from};
use crate::text::str_eq;

verus! {

/// A column of a table, as introspected.
#[derive(Debug)]
pub struct Column {
    pub attnum: i16,
    pub name: String,
    pub sql_type: String,
    pub is_notnull: bool,
    /// Value stored for NULL, from the `marius:sentinel=` comment tag.
    pub sentinel: Option<String>,
}

/// The primary key of a table.
#[derive(Debug)]
pub enum PrimaryKey {
    Single(String),
    Composite,
}

/// How a PostgreSQL type is laid out in the generated code.
#[derive(Debug, Clone)]
pub struct TypeMapping {
    pub row_type: &'static str,
    pub store_type: &'static str,
    pub from_expr: &'static str,
    pub default_sentinel: &'static str,
    pub is_fixed: bool,
    pub size_bytes: usize,
    pub alignment: usize,
    pub select_cast: Option<&'static str>,
}

/// Value of a type mapping.
pub struct MappingV {
    pub row_type: Seq<char>,
    pub store_type: Seq<char>,
    pub from_expr: Seq<char>,
    pub default_sentinel: Seq<char>,
    pub is_fixed: bool,
    pub size_bytes: usize,
    pub alignment: usize,
    pub select_cast: Option<Seq<char>>,
}

impl View for TypeMapping {
    type V = MappingV;

    open spec fn view(&self) -> MappingV {
        MappingV {
            row_type: self.row_type@,
            store_type: self.store_type@,
            from_expr: self.from_expr@,
            default_sentinel: self.default_sentinel@,
            is_fixed: self.is_fixed,
            size_bytes: self.size_bytes,
            alignment: self.alignment,
            select_cast: match self.select_cast {
                Some(c) => Some(c@),
                None => None,
            },
        }
    }
}

/// The families of PostgreSQL types the generator knows.
pub enum SqlFamily {
    Int8,
    Int4,
    Int2,
    Bool,
    Uuid,
    TimestampTz,
    Timestamp,
    Date,
    Float4,
    Float8,
    Varlena,
    PgLsn,
    Geometry,
    Unknown,
}

/// The family of a normalised type name.
pub open spec fn family_of(t: Seq<char>) -> SqlFamily {
    if t == "int8"@ || t == "bigint"@ {
        SqlFamily::Int8
    } else if t == "int4"@ || t == "integer"@ || t == "int"@ || t == "serial"@ {
        SqlFamily::Int4
    } else if t == "int2"@ || t == "smallint"@ {
        SqlFamily::Int2
    } else if t == "bool"@ || t == "boolean"@ {
        SqlFamily::Bool
    } else if t == "uuid"@ {
        SqlFamily::Uuid
    } else if t == "timestamptz"@ || t == "timestamp with time zone"@ {
        SqlFamily::TimestampTz
    } else if t == "timestamp"@ || t == "timestamp without time zone"@ {
        SqlFamily::Timestamp
    } else if t == "date"@ {
        SqlFamily::Date
    } else if t == "float4"@ || t == "real"@ {
        SqlFamily::Float4
    } else if t == "float8"@ || t == "double precision"@ {
        SqlFamily::Float8
    } else if t == "text"@ || t == "varchar"@ || t == "character varying"@ || t == "jsonb"@ || t
        == "json"@ || t == "bytea"@ || t == "ltree"@ {
        SqlFamily::Varlena
    } else if t == "pg_lsn"@ {
        SqlFamily::PgLsn
    } else if t == "geometry"@ {
        SqlFamily::Geometry
    } else {
        SqlFamily::Unknown
    }
}

/// A fixed-length mapping whose row and storage types coincide.
pub open spec fn plain(ty: Seq<char>, sentinel: Seq<char>, size: usize) -> MappingV {
    MappingV {
        row_type: ty,
        store_type: ty,
        from_expr: "{field}.unwrap_or({sentinel})"@,
        default_sentinel: sentinel,
        is_fixed: true,
        size_bytes: size,
        alignment: size,
        select_cast: None,
    }
}

/// A mapping excluded from the storage row.
pub open spec fn excluded(row_type: Seq<char>, store: Seq<char>, from: Seq<char>) -> MappingV {
    MappingV {
        row_type,
        store_type: store,
        from_expr: from,
        default_sentinel: ""@,
        is_fixed: false,
        size_bytes: 0,
        alignment: 0,
        select_cast: None,
    }
}

/// The mapping of each family.
pub open spec fn mapping_of(f: SqlFamily) -> MappingV {
    match f {
        SqlFamily::Int8 => plain("i64"@, "-1"@, 8),
        SqlFamily::Int4 => plain("i32"@, "0"@, 4),
        SqlFamily::Int2 => plain("i16"@, "0"@, 2),
        SqlFamily::Bool => plain("bool"@, "false"@, 1),
        SqlFamily::Uuid => MappingV { alignment: 1, ..plain("[u8; 16]"@, "[0u8; 16]"@, 16) },
        SqlFamily::TimestampTz => MappingV {
            row_type: "chrono::DateTime<chrono::Utc>"@,
            store_type: "i64"@,
            from_expr: "{field}.map(|dt| dt.timestamp_micros()).unwrap_or({sentinel})"@,
            default_sentinel: "0"@,
            is_fixed: true,
            size_bytes: 8,
            alignment: 8,
            select_cast: None,
        },
        SqlFamily::Timestamp => MappingV {
            row_type: "chrono::NaiveDateTime"@,
            store_type: "i64"@,
            from_expr: "{field}.map(|dt| dt.and_utc().timestamp_micros()).unwrap_or({sentinel})"@,
            default_sentinel: "0"@,
            is_fixed: true,
            size_bytes: 8,
            alignment: 8,
            select_cast: None,
        },
        SqlFamily::Date => MappingV {
            row_type: "chrono::NaiveDate"@,
            store_type: "i32"@,
            from_expr: "{field}.map(|d| d.num_days_from_ce()).unwrap_or({sentinel})"@,
            default_sentinel: "0"@,
            is_fixed: true,
            size_bytes: 4,
            alignment: 4,
            select_cast: None,
        },
        SqlFamily::Float4 => plain("f32"@, "0.0"@, 4),
        SqlFamily::Float8 => plain("f64"@, "0.0"@, 8),
        SqlFamily::Varlena => excluded(
            "String"@,
            "/* VARLENA — exclu du StorageRow repr(C) */"@,
            "/* VARLENA — non transféré dans StorageRow */"@,
        ),
        SqlFamily::PgLsn => MappingV {
            row_type: "i64"@,
            store_type: "u64"@,
            from_expr: "{field}.map(|v| v as u64).unwrap_or({sentinel})"@,
            default_sentinel: "0"@,
            is_fixed: true,
            size_bytes: 8,
            alignment: 8,
            select_cast: Some("({} - '0/0'::pg_lsn)::int8"@),
        },
        SqlFamily::Geometry => excluded(
            "Vec<u8>"@,
            "/* VARLENA — exclu du StorageRow repr(C) */"@,
            "/* VARLENA — non transféré dans StorageRow */"@,
        ),
        SqlFamily::Unknown => excluded("/* INCONNU */"@, "/* INCONNU */"@, "/* INCONNU */"@),
    }
}

/// The mapping of a type as `format_type` writes it (the modifier in
/// brackets, surrounding blanks and case do not matter).
#[verifier::opaque]
pub open spec fn map_type_spec(sql_type: Seq<char>) -> MappingV {
    mapping_of(family_of(sql_type_key(sql_type)))
}

fn family_exec(t: &str) -> (r: SqlFamily)
    ensures
        r == family_of(t@),
{
    if str_eq(t, "int8") || str_eq(t, "bigint") {
        SqlFamily::Int8
    } else if str_eq(t, "int4") || str_eq(t, "integer") || str_eq(t, "int") || str_eq(t, "serial") {
        SqlFamily::Int4
    } else if str_eq(t, "int2") || str_eq(t, "smallint") {
        SqlFamily::Int2
    } else if str_eq(t, "bool") || str_eq(t, "boolean") {
        SqlFamily::Bool
    } else if str_eq(t, "uuid") {
        SqlFamily::Uuid
    } else if str_eq(t, "timestamptz") || str_eq(t, "timestamp with time zone") {
        SqlFamily::TimestampTz
    } else if str_eq(t, "timestamp") || str_eq(t, "timestamp without time zone") {
        SqlFamily::Timestamp
    } else if str_eq(t, "date") {
        SqlFamily::Date
    } else if str_eq(t, "float4") || str_eq(t, "real") {
        SqlFamily::Float4
    } else if str_eq(t, "float8") || str_eq(t, "double precision") {
        SqlFamily::Float8
    } else if str_eq(t, "text") || str_eq(t, "varchar") || str_eq(t, "character varying") || str_eq(
        t,
        "jsonb",
    ) || str_eq(t, "json") || str_eq(t, "bytea") || str_eq(t, "ltree") {
        SqlFamily::Varlena
    } else if str_eq(t, "pg_lsn") {
        SqlFamily::PgLsn
    } else if str_eq(t, "geometry") {
        SqlFamily::Geometry
    } else {
        SqlFamily::Unknown
    }
}

fn plain_exec(ty: &'static str, sentinel: &'static str, size: usize) -> (r: TypeMapping)
    ensures
        r@ == plain(ty@, sentinel@, size),
{
    TypeMapping {
        row_type: ty,
        store_type: ty,
        from_expr: "{field}.unwrap_or({sentinel})",
        default_sentinel: sentinel,
        is_fixed: true,
        size_bytes: size,
        alignment: size,
        select_cast: None,
    }
}

fn excluded_exec(row_type: &'static str, store: &'static str, from: &'static str) -> (r: TypeMapping)
    ensures
        r@ == excluded(row_type@, store@, from@),
{
    TypeMapping {
        row_type,
        store_type: store,
        from_expr: from,
        default_sentinel: "",
        is_fixed: false,
        size_bytes: 0,
        alignment: 0,
        select_cast: None,
    }
}

/// Maps a PostgreSQL type (as `format_type` writes it) to its layout; an
/// unknown type maps to a non-fixed placeholder.
pub fn map_type(sql_type: &str) -> (r: TypeMapping)
    ensures
        r@ == map_type_spec(sql_type@),
        is_ascii_seq(sql_type@) ==> r@ == mapping_of(family_of(ascii_type_key(sql_type@))),
{
    proof {
        reveal(map_type_spec);
    }
    let key = normalize_sql_type(sql_type);
    map_type_key(key.as_str())
}

/// The layout of a normalized type key (see `normalize_sql_type`); an
/// unknown key maps to a non-fixed placeholder.
pub fn map_type_key(key: &str) -> (r: TypeMapping)
    ensures
        r@ == mapping_of(family_of(key@)),
{
    match family_exec(key) {
        SqlFamily::Int8 => plain_exec("i64", "-1", 8),
        SqlFamily::Int4 => plain_exec("i32", "0", 4),
        SqlFamily::Int2 => plain_exec("i16", "0", 2),
        SqlFamily::Bool => plain_exec("bool", "false", 1),
        SqlFamily::Uuid => {
            let m = plain_exec("[u8; 16]", "[0u8; 16]", 16);
            TypeMapping { alignment: 1, ..m }
        },
        SqlFamily::TimestampTz => TypeMapping {
            row_type: "chrono::DateTime<chrono::Utc>",
            store_type: "i64",
            from_expr: "{field}.map(|dt| dt.timestamp_micros()).unwrap_or({sentinel})",
            default_sentinel: "0",
            is_fixed: true,
            size_bytes: 8,
            alignment: 8,
            select_cast: None,
        },
        SqlFamily::Timestamp => TypeMapping {
            row_type: "chrono::NaiveDateTime",
            store_type: "i64",
            from_expr: "{field}.map(|dt| dt.and_utc().timestamp_micros()).unwrap_or({sentinel})",
            default_sentinel: "0",
            is_fixed: true,
            size_bytes: 8,
            alignment: 8,
            select_cast: None,
        },
        SqlFamily::Date => TypeMapping {
            row_type: "chrono::NaiveDate",
            store_type: "i32",
            from_expr: "{field}.map(|d| d.num_days_from_ce()).unwrap_or({sentinel})",
            default_sentinel: "0",
            is_fixed: true,
            size_bytes: 4,
            alignment: 4,
            select_cast: None,
        },
        SqlFamily::Float4 => plain_exec("f32", "0.0", 4),
        SqlFamily::Float8 => plain_exec("f64", "0.0", 8),
        SqlFamily::Varlena => excluded_exec(
            "String",
            "/* VARLENA — exclu du StorageRow repr(C) */",
            "/* VARLENA — non transféré dans StorageRow */",
        ),
        SqlFamily::PgLsn => TypeMapping {
            row_type: "i64",
            store_type: "u64",
            from_expr: "{field}.map(|v| v as u64).unwrap_or({sentinel})",
            default_sentinel: "0",
            is_fixed: true,
            size_bytes: 8,
            alignment: 8,
            select_cast: Some("({} - '0/0'::pg_lsn)::int8"),
        },
        SqlFamily::Geometry => excluded_exec(
            "Vec<u8>",
            "/* VARLENA — exclu du StorageRow repr(C) */",
            "/* VARLENA — non transféré dans StorageRow */",
        ),
        SqlFamily::Unknown => excluded_exec("/* INCONNU */", "/* INCONNU */", "/* INCONNU */"),
    }
}

/// The type is one the generator knows (an unknown one is reported as a
/// build warning by the caller).
pub fn is_known_type(sql_type: &str) -> (r: bool)
    ensures
        r == !(family_of(sql_type_key(sql_type@)) is Unknown),
{
    let key = normalize_sql_type(sql_type);
    match family_exec(key.as_str()) {
        SqlFamily::Unknown => false,
        _ => true,
    }
}

/// The alignment of a fixed type is at most 8 and divides its size; a
/// type is fixed exactly when its size is positive.
pub proof fn fixed_layout_is_sane(sql_type: Seq<char>)
    ensures
        map_type_spec(sql_type).is_fixed == (map_type_spec(sql_type).size_bytes > 0),
        map_type_spec(sql_type).is_fixed ==> 1 <= map_type_spec(sql_type).alignment <= 8
            && map_type_spec(sql_type).size_bytes % map_type_spec(sql_type).alignment == 0
            && map_type_spec(sql_type).size_bytes <= 16,
        !map_type_spec(sql_type).is_fixed ==> map_type_spec(sql_type).size_bytes == 0
            && map_type_spec(sql_type).alignment == 0,
{
    reveal(map_type_spec);
}

/// A type modifier in brackets after the name (`varchar(255)`,
/// `numeric(10, 2)`) changes neither the key nor the mapping or the field
/// kind of the type.
pub proof fn map_type_ignores_modifier(s: Seq<char>, p: Seq<char>)
    ensures
        sql_type_key(s + seq!['('] + p + seq![')']) == sql_type_key(s),
        ascii_type_key(s + seq!['('] + p + seq![')']) == ascii_type_key(s),
        map_type_spec(s + seq!['('] + p + seq![')']) == map_type_spec(s),
        field_kind_for_key(sql_type_key(s + seq!['('] + p + seq![')'])) == field_kind_for_key(
            sql_type_key(s),
        ),
{
    let t = s + seq!['('] + p + seq![')'];
    lemma_find_char_from(s, '(', 0);
    lemma_find_char_from(t, '(', 0);
    assert(t[s.len() as int] == '(');
    assert(forall|k: int| 0 <= k < s.len() ==> t[k] == s[k]);
    match find_char_from(s, '(', 0) {
        Some(i) => {
            assert(find_char_from(t, '(', 0) == Some(i));
            assert(t.take(i) =~= s.take(i));
        },
        None => {
            assert(find_char_from(t, '(', 0) == Some(s.len() as int));
            assert(t.take(s.len() as int) =~= s);
        },
    }
    assert(before_paren(t) == before_paren(s));
    reveal(map_type_spec);
}

/// ASCII type names that differ only in the case of their letters
/// (`INTEGER`, `Integer`, `integer`) have the same mapping and the same
/// field kind: what `map_type` and `FieldKind::from_sql_type` return for
/// them agrees field by field.
pub proof fn map_type_ignores_ascii_case(s: Seq<char>, t: Seq<char>)
    requires
        is_ascii_seq(s),
        is_ascii_seq(t),
        ascii_lower(s) == ascii_lower(t),
    ensures
        ascii_type_key(s) == ascii_type_key(t),
        mapping_of(family_of(ascii_type_key(s))) == mapping_of(family_of(ascii_type_key(t))),
        field_kind_for_key(ascii_type_key(s)) == field_kind_for_key(ascii_type_key(t)),
{
    assert(s.len() == ascii_lower(s).len() && t.len() == ascii_lower(t).len());
    assert forall|k: int| 0 <= k < s.len() implies ascii_lower_char(#[trigger] s[k])
        == ascii_lower_char(t[k]) by {
        assert(ascii_lower(s)[k] == ascii_lower_char(s[k]));
        assert(ascii_lower(t)[k] == ascii_lower_char(t[k]));
        assert(ascii_lower(s)[k] == ascii_lower(t)[k]);
    }
    lemma_ascii_type_key_ignores_case(s, t);
}

/// Each type name the generator knows maps to its own Rust row type (and,
/// for the fixed-length ones, its storage type and size): the two
/// timestamp families stay apart (`timestamp` and `timestamp without time
/// zone` are naive date-times, `timestamptz` and `timestamp with time zone`
/// UTC date-times, converted differently), the varlena types are not
/// fixed, and `map_type` of any name reads the mapping of its key.
pub proof fn each_type_name_has_its_row_type()
    ensures
        forall|s: Seq<char>| #[trigger] map_type_spec(s) == mapping_of(family_of(sql_type_key(s))),
        mapping_of(family_of("int8"@)).row_type == "i64"@,
        mapping_of(family_of("int8"@)).store_type == "i64"@ && mapping_of(family_of("int8"@)).size_bytes == 8 && mapping_of(family_of("int8"@)).is_fixed,
        mapping_of(family_of("bigint"@)).row_type == "i64"@,
        mapping_of(family_of("bigint"@)).store_type == "i64"@ && mapping_of(family_of("bigint"@)).size_bytes == 8 && mapping_of(family_of("bigint"@)).is_fixed,
        mapping_of(family_of("int4"@)).row_type == "i32"@,
        mapping_of(family_of("int4"@)).store_type == "i32"@ && mapping_of(family_of("int4"@)).size_bytes == 4 && mapping_of(family_of("int4"@)).is_fixed,
        mapping_of(family_of("integer"@)).row_type == "i32"@,
        mapping_of(family_of("integer"@)).store_type == "i32"@ && mapping_of(family_of("integer"@)).size_bytes == 4 && mapping_of(family_of("integer"@)).is_fixed,
        mapping_of(family_of("int"@)).row_type == "i32"@,
        mapping_of(family_of("int"@)).store_type == "i32"@ && mapping_of(family_of("int"@)).size_bytes == 4 && mapping_of(family_of("int"@)).is_fixed,
        mapping_of(family_of("serial"@)).row_type == "i32"@,
        mapping_of(family_of("serial"@)).store_type == "i32"@ && mapping_of(family_of("serial"@)).size_bytes == 4 && mapping_of(family_of("serial"@)).is_fixed,
        mapping_of(family_of("int2"@)).row_type == "i16"@,
        mapping_of(family_of("int2"@)).store_type == "i16"@ && mapping_of(family_of("int2"@)).size_bytes == 2 && mapping_of(family_of("int2"@)).is_fixed,
        mapping_of(family_of("smallint"@)).row_type == "i16"@,
        mapping_of(family_of("smallint"@)).store_type == "i16"@ && mapping_of(family_of("smallint"@)).size_bytes == 2 && mapping_of(family_of("smallint"@)).is_fixed,
        mapping_of(family_of("bool"@)).row_type == "bool"@,
        mapping_of(family_of("bool"@)).store_type == "bool"@ && mapping_of(family_of("bool"@)).size_bytes == 1 && mapping_of(family_of("bool"@)).is_fixed,
        mapping_of(family_of("boolean"@)).row_type == "bool"@,
        mapping_of(family_of("boolean"@)).store_type == "bool"@ && mapping_of(family_of("boolean"@)).size_bytes == 1 && mapping_of(family_of("boolean"@)).is_fixed,
        mapping_of(family_of("uuid"@)).row_type == "[u8; 16]"@,
        mapping_of(family_of("uuid"@)).store_type == "[u8; 16]"@ && mapping_of(family_of("uuid"@)).size_bytes == 16 && mapping_of(family_of("uuid"@)).is_fixed,
        mapping_of(family_of("timestamptz"@)).row_type == "chrono::DateTime<chrono::Utc>"@,
        mapping_of(family_of("timestamptz"@)).store_type == "i64"@ && mapping_of(family_of("timestamptz"@)).size_bytes == 8 && mapping_of(family_of("timestamptz"@)).is_fixed,
        mapping_of(family_of("timestamp with time zone"@)).row_type == "chrono::DateTime<chrono::Utc>"@,
        mapping_of(family_of("timestamp with time zone"@)).store_type == "i64"@ && mapping_of(family_of("timestamp with time zone"@)).size_bytes == 8 && mapping_of(family_of("timestamp with time zone"@)).is_fixed,
        mapping_of(family_of("timestamp"@)).row_type == "chrono::NaiveDateTime"@,
        mapping_of(family_of("timestamp"@)).store_type == "i64"@ && mapping_of(family_of("timestamp"@)).size_bytes == 8 && mapping_of(family_of("timestamp"@)).is_fixed,
        mapping_of(family_of("timestamp without time zone"@)).row_type == "chrono::NaiveDateTime"@,
        mapping_of(family_of("timestamp without time zone"@)).store_type == "i64"@ && mapping_of(family_of("timestamp without time zone"@)).size_bytes == 8 && mapping_of(family_of("timestamp without time zone"@)).is_fixed,
        mapping_of(family_of("date"@)).row_type == "chrono::NaiveDate"@,
        mapping_of(family_of("date"@)).store_type == "i32"@ && mapping_of(family_of("date"@)).size_bytes == 4 && mapping_of(family_of("date"@)).is_fixed,
        mapping_of(family_of("float4"@)).row_type == "f32"@,
        mapping_of(family_of("float4"@)).store_type == "f32"@ && mapping_of(family_of("float4"@)).size_bytes == 4 && mapping_of(family_of("float4"@)).is_fixed,
        mapping_of(family_of("real"@)).row_type == "f32"@,
        mapping_of(family_of("real"@)).store_type == "f32"@ && mapping_of(family_of("real"@)).size_bytes == 4 && mapping_of(family_of("real"@)).is_fixed,
        mapping_of(family_of("float8"@)).row_type == "f64"@,
        mapping_of(family_of("float8"@)).store_type == "f64"@ && mapping_of(family_of("float8"@)).size_bytes == 8 && mapping_of(family_of("float8"@)).is_fixed,
        mapping_of(family_of("double precision"@)).row_type == "f64"@,
        mapping_of(family_of("double precision"@)).store_type == "f64"@ && mapping_of(family_of("double precision"@)).size_bytes == 8 && mapping_of(family_of("double precision"@)).is_fixed,
        mapping_of(family_of("text"@)).row_type == "String"@,
        !mapping_of(family_of("text"@)).is_fixed,
        mapping_of(family_of("varchar"@)).row_type == "String"@,
        !mapping_of(family_of("varchar"@)).is_fixed,
        mapping_of(family_of("character varying"@)).row_type == "String"@,
        !mapping_of(family_of("character varying"@)).is_fixed,
        mapping_of(family_of("jsonb"@)).row_type == "String"@,
        !mapping_of(family_of("jsonb"@)).is_fixed,
        mapping_of(family_of("json"@)).row_type == "String"@,
        !mapping_of(family_of("json"@)).is_fixed,
        mapping_of(family_of("bytea"@)).row_type == "String"@,
        !mapping_of(family_of("bytea"@)).is_fixed,
        mapping_of(family_of("ltree"@)).row_type == "String"@,
        !mapping_of(family_of("ltree"@)).is_fixed,
        mapping_of(family_of("pg_lsn"@)).row_type == "i64"@,
        mapping_of(family_of("pg_lsn"@)).store_type == "u64"@ && mapping_of(family_of("pg_lsn"@)).size_bytes == 8 && mapping_of(family_of("pg_lsn"@)).is_fixed,
        mapping_of(family_of("geometry"@)).row_type == "Vec<u8>"@,
        !mapping_of(family_of("geometry"@)).is_fixed,
        mapping_of(family_of("timestamptz"@)).from_expr == "{field}.map(|dt| dt.timestamp_micros()).unwrap_or({sentinel})"@,
        mapping_of(family_of("timestamp with time zone"@)).from_expr == "{field}.map(|dt| dt.timestamp_micros()).unwrap_or({sentinel})"@,
        mapping_of(family_of("timestamp"@)).from_expr == "{field}.map(|dt| dt.and_utc().timestamp_micros()).unwrap_or({sentinel})"@,
        mapping_of(family_of("timestamp without time zone"@)).from_expr == "{field}.map(|dt| dt.and_utc().timestamp_micros()).unwrap_or({sentinel})"@,
{
    reveal(map_type_spec);
    reveal_strlit("int8");
    reveal_strlit("bigint");
    reveal_strlit("int4");
    reveal_strlit("integer");
    reveal_strlit("int");
    reveal_strlit("serial");
    reveal_strlit("int2");
    reveal_strlit("smallint");
    reveal_strlit("bool");
    reveal_strlit("boolean");
    reveal_strlit("uuid");
    reveal_strlit("timestamptz");
    reveal_strlit("timestamp with time zone");
    reveal_strlit("timestamp");
    reveal_strlit("timestamp without time zone");
    reveal_strlit("date");
    reveal_strlit("float4");
    reveal_strlit("real");
    reveal_strlit("float8");
    reveal_strlit("double precision");
    reveal_strlit("text");
    reveal_strlit("varchar");
    reveal_strlit("character varying");
    reveal_strlit("jsonb");
    reveal_strlit("json");
    reveal_strlit("bytea");
    reveal_strlit("ltree");
    reveal_strlit("pg_lsn");
    reveal_strlit("geometry");
    assert("int8"@.len() == 4);
    assert("bigint"@.len() == 6);
    assert("int4"@.len() == 4);
    assert("integer"@.len() == 7);
    assert("int"@.len() == 3);
    assert("serial"@.len() == 6);
    assert("int2"@.len() == 4);
    assert("smallint"@.len() == 8);
    assert("bool"@.len() == 4);
    assert("boolean"@.len() == 7);
    assert("uuid"@.len() == 4);
    assert("timestamptz"@.len() == 11);
    assert("timestamp with time zone"@.len() == 24);
    assert("timestamp"@.len() == 9);
    assert("timestamp without time zone"@.len() == 27);
    assert("date"@.len() == 4);
    assert("float4"@.len() == 6);
    assert("real"@.len() == 4);
    assert("float8"@.len() == 6);
    assert("double precision"@.len() == 16);
    assert("text"@.len() == 4);
    assert("varchar"@.len() == 7);
    assert("character varying"@.len() == 17);
    assert("jsonb"@.len() == 5);
    assert("json"@.len() == 4);
    assert("bytea"@.len() == 5);
    assert("ltree"@.len() == 5);
    assert("pg_lsn"@.len() == 6);
    assert("geometry"@.len() == 8);
    assert("int8"@[3] != "int4"@[3]);
    assert("int8"@[3] != "int2"@[3]);
    assert("int8"@[0] != "bool"@[0]);
    assert("int8"@[0] != "uuid"@[0]);
    assert("int8"@[0] != "date"@[0]);
    assert("int8"@[0] != "real"@[0]);
    assert("int8"@[0] != "text"@[0]);
    assert("int8"@[0] != "json"@[0]);
    assert("bigint"@[0] != "serial"@[0]);
    assert("bigint"@[0] != "float4"@[0]);
    assert("bigint"@[0] != "float8"@[0]);
    assert("bigint"@[0] != "pg_lsn"@[0]);
    assert("int4"@[3] != "int2"@[3]);
    assert("int4"@[0] != "bool"@[0]);
    assert("int4"@[0] != "uuid"@[0]);
    assert("int4"@[0] != "date"@[0]);
    assert("int4"@[0] != "real"@[0]);
    assert("int4"@[0] != "text"@[0]);
    assert("int4"@[0] != "json"@[0]);
    assert("integer"@[0] != "boolean"@[0]);
    assert("integer"@[0] != "varchar"@[0]);
    assert("serial"@[0] != "float4"@[0]);
    assert("serial"@[0] != "float8"@[0]);
    assert("serial"@[0] != "pg_lsn"@[0]);
    assert("int2"@[0] != "bool"@[0]);
    assert("int2"@[0] != "uuid"@[0]);
    assert("int2"@[0] != "date"@[0]);
    assert("int2"@[0] != "real"@[0]);
    assert("int2"@[0] != "text"@[0]);
    assert("int2"@[0] != "json"@[0]);
    assert("smallint"@[0] != "geometry"@[0]);
    assert("bool"@[0] != "uuid"@[0]);
    assert("bool"@[0] != "date"@[0]);
    assert("bool"@[0] != "real"@[0]);
    assert("bool"@[0] != "text"@[0]);
    assert("bool"@[0] != "json"@[0]);
    assert("boolean"@[0] != "varchar"@[0]);
    assert("uuid"@[0] != "date"@[0]);
    assert("uuid"@[0] != "real"@[0]);
    assert("uuid"@[0] != "text"@[0]);
    assert("uuid"@[0] != "json"@[0]);
    assert("date"@[0] != "real"@[0]);
    assert("date"@[0] != "text"@[0]);
    assert("date"@[0] != "json"@[0]);
    assert("float4"@[5] != "float8"@[5]);
    assert("float4"@[0] != "pg_lsn"@[0]);
    assert("real"@[0] != "text"@[0]);
    assert("real"@[0] != "json"@[0]);
    assert("float8"@[0] != "pg_lsn"@[0]);
    assert("text"@[0] != "json"@[0]);
    assert("jsonb"@[0] != "bytea"@[0]);
    assert("jsonb"@[0] != "ltree"@[0]);
    assert("bytea"@[0] != "ltree"@[0]);
}

} // verus!
