//! DDL to Rust layout: categories of fixed-length fields, varlena fields and
//! their escaping policy, and the schema index handed to resolution and
//! code generation.

use vstd::prelude::*;
use crate::text::{ascii_lower, ascii_lower_char, chars_of, find_char_exec, find_char_from, is_ascii_seq, is_unicode_ws, lemma_find_char_from, lemma_ws_prefix_len_bounds, lemma_ws_suffix_len_bounds, lower_text, str_eq, to_lowercase, trim_bounds, trim_spec, ws_prefix_len, ws_suffix_len};

verus! {

/// Category of a fixed-length field, used to bound its textual width.
///
/// - `I64`: `TIMESTAMPTZ`, `TIMESTAMP`, `BIGINT`
/// - `I32`: `INTEGER`, `INT`, `SERIAL`, `DATE`
/// - `I16`: `SMALLINT`
/// - `Bool`: `BOOLEAN`
/// - `F32`: `REAL`
/// - `F64`: `DOUBLE PRECISION`
#[derive(Debug, Clone, Copy, PartialEq, Eq, Structural)]
pub enum FieldKind {
    /// `-9223372036854775808` (20 chars)
    I64,
    /// `-2147483648` (11 chars)
    I32,
    /// `-32768` (6 chars)
    I16,
    /// `false` (5 chars)
    Bool,
    /// worst-case 32-bit float rendering (about 14 chars)
    F32,
    /// worst-case 64-bit float rendering (about 24 chars)
    F64,
}

/// Worst-case display width of each kind, in bytes.
pub open spec fn display_width(k: FieldKind) -> nat {
    match k {
        FieldKind::I64 => 20,
        FieldKind::I32 => 11,
        FieldKind::I16 => 6,
        FieldKind::Bool => 5,
        FieldKind::F32 => 14,
        FieldKind::F64 => 24,
    }
}

/// The part of a SQL type name before its first `(` (the whole name when
/// there is none): `character varying(255)` gives `character varying`.
pub open spec fn before_paren(s: Seq<char>) -> Seq<char> {
    match find_char_from(s, '(', 0) {
        Some(i) => s.take(i),
        None => s,
    }
}

/// The key a SQL type name is matched on: the part before `(`, trimmed,
/// lower-cased.
pub open spec fn sql_type_key(s: Seq<char>) -> Seq<char> {
    lower_text(trim_spec(before_paren(s)))
}

/// The key of an ASCII SQL type name: the part before `(`, trimmed, with
/// `A`..`Z` lowered. It is what `sql_type_key` gives on ASCII names.
pub open spec fn ascii_type_key(s: Seq<char>) -> Seq<char> {
    ascii_lower(trim_spec(before_paren(s)))
}

/// `x` and `y` differ at most in the case of ASCII letters.
pub open spec fn same_up_to_ascii_case(x: Seq<char>, y: Seq<char>) -> bool {
    &&& x.len() == y.len()
    &&& forall|k: int| 0 <= k < x.len() ==> ascii_lower_char(#[trigger] x[k]) == ascii_lower_char(y[k])
}

/// Lowering ASCII letters never makes a letter out of `(` or a blank.
proof fn lemma_lowering_keeps_non_letters(a: char, b: char)
    requires
        ascii_lower_char(a) == ascii_lower_char(b),
    ensures
        (a == '(') == (b == '('),
        is_unicode_ws(a) == is_unicode_ws(b),
{
}

proof fn lemma_find_paren_same(x: Seq<char>, y: Seq<char>, from: int)
    requires
        x.len() == y.len(),
        forall|k: int| 0 <= k < x.len() ==> (x[k] == '(') == (y[k] == '('),
    ensures
        find_char_from(x, '(', from) == find_char_from(y, '(', from),
    decreases x.len() - from,
{
    if 0 <= from < x.len() && x[from] != '(' {
        lemma_find_paren_same(x, y, from + 1);
    }
}

proof fn lemma_ws_prefix_same(x: Seq<char>, y: Seq<char>)
    requires
        x.len() == y.len(),
        forall|k: int| 0 <= k < x.len() ==> is_unicode_ws(x[k]) == is_unicode_ws(y[k]),
    ensures
        ws_prefix_len(x) == ws_prefix_len(y),
    decreases x.len(),
{
    if x.len() > 0 {
        assert(is_unicode_ws(x[0]) == is_unicode_ws(y[0]));
        lemma_ws_prefix_same(x.drop_first(), y.drop_first());
    }
}

proof fn lemma_ws_suffix_same(x: Seq<char>, y: Seq<char>)
    requires
        x.len() == y.len(),
        forall|k: int| 0 <= k < x.len() ==> is_unicode_ws(x[k]) == is_unicode_ws(y[k]),
    ensures
        ws_suffix_len(x) == ws_suffix_len(y),
    decreases x.len(),
{
    if x.len() > 0 {
        assert(is_unicode_ws(x[x.len() - 1]) == is_unicode_ws(y[y.len() - 1]));
        lemma_ws_suffix_same(x.drop_last(), y.drop_last());
    }
}

/// Names that differ only in the case of ASCII letters have the same ASCII
/// type key.
pub proof fn lemma_ascii_type_key_ignores_case(x: Seq<char>, y: Seq<char>)
    requires
        same_up_to_ascii_case(x, y),
    ensures
        ascii_type_key(x) == ascii_type_key(y),
{
    assert forall|k: int| 0 <= k < x.len() implies (x[k] == '(') == (y[k] == '(') && is_unicode_ws(
        x[k],
    ) == is_unicode_ws(y[k]) by {
        lemma_lowering_keeps_non_letters(x[k], y[k]);
    }
    lemma_find_paren_same(x, y, 0);
    lemma_find_char_from(x, '(', 0);
    let bx = before_paren(x);
    let by_ = before_paren(y);
    assert(bx.len() == by_.len());
    assert(forall|k: int| 0 <= k < bx.len() ==> bx[k] == x[k] && by_[k] == y[k]);
    lemma_ws_prefix_same(bx, by_);
    lemma_ws_prefix_len_bounds(bx);
    let p = ws_prefix_len(bx);
    let fx = bx.skip(p);
    let fy = by_.skip(p);
    assert(forall|k: int| 0 <= k < fx.len() ==> fx[k] == x[p + k] && fy[k] == y[p + k]);
    lemma_ws_suffix_same(fx, fy);
    lemma_ws_suffix_len_bounds(fx);
    let q = ws_suffix_len(fx);
    assert(trim_spec(bx) == fx.take(fx.len() - q));
    assert(trim_spec(by_) == fy.take(fy.len() - q));
    assert(ascii_lower(trim_spec(bx)) =~= ascii_lower(trim_spec(by_)));
}

/// `FieldKind` for a normalized SQL type key.
pub open spec fn field_kind_for_key(t: Seq<char>) -> Option<FieldKind> {
    if t == "int8"@ || t == "bigint"@ || t == "timestamptz"@ || t == "timestamp with time zone"@
        || t == "timestamp"@ || t == "timestamp without time zone"@ {
        Some(FieldKind::I64)
    } else if t == "int4"@ || t == "integer"@ || t == "int"@ || t == "serial"@ || t == "date"@ {
        Some(FieldKind::I32)
    } else if t == "int2"@ || t == "smallint"@ {
        Some(FieldKind::I16)
    } else if t == "bool"@ || t == "boolean"@ {
        Some(FieldKind::Bool)
    } else if t == "float4"@ || t == "real"@ {
        Some(FieldKind::F32)
    } else if t == "float8"@ || t == "double precision"@ {
        Some(FieldKind::F64)
    } else {
        None
    }
}

/// The normalized key of `sql_type` (see `sql_type_key`).
pub fn normalize_sql_type(sql_type: &str) -> (r: String)
    ensures
        r@ == sql_type_key(sql_type@),
        is_ascii_seq(sql_type@) ==> r@ == ascii_type_key(sql_type@),
{
    let cs = chars_of(sql_type);
    let end = match find_char_exec(cs.as_slice(), '(', 0) {
        Some(i) => i,
        None => cs.len(),
    };
    proof {
        lemma_find_char_from(sql_type@, '(', 0);
        if end == cs@.len() {
            assert(cs@.subrange(0, end as int) =~= sql_type@);
        } else {
            assert(cs@.subrange(0, end as int) =~= sql_type@.take(end as int));
        }
    }
    let (a, b) = trim_bounds(cs.as_slice(), 0, end);
    let trimmed = sql_type.substring_char(a, b);
    proof {
        if is_ascii_seq(sql_type@) {
            assert forall|k: int| 0 <= k < trimmed@.len() implies crate::text::is_ascii_char(
                #[trigger] trimmed@[k],
            ) by {
                assert(trimmed@[k] == sql_type@[a + k]);
            }
        }
    }
    to_lowercase(trimmed)
}

impl FieldKind {
    /// Maximal display width of the field, in bytes.
    pub fn max_display_width(self) -> (r: usize)
        ensures
            r == display_width(self),
    {
        match self {
            FieldKind::I64 => 20,
            FieldKind::I32 => 11,
            FieldKind::I16 => 6,
            FieldKind::Bool => 5,
            FieldKind::F32 => 14,
            FieldKind::F64 => 24,
        }
    }

    /// `FieldKind` of a SQL type as printed by `format_type()`; `None` for
    /// varlena and unknown types.
    pub fn from_sql_type(sql_type: &str) -> (r: Option<Self>)
        ensures
            r == field_kind_for_key(sql_type_key(sql_type@)),
            is_ascii_seq(sql_type@) ==> r == field_kind_for_key(ascii_type_key(sql_type@)),
    {
        let key = normalize_sql_type(sql_type);
        field_kind_from_key(key.as_str())
    }
}

/// `FieldKind` of a normalized type key (see `normalize_sql_type`); `None`
/// for varlena and unknown types.
pub fn field_kind_from_key(key: &str) -> (r: Option<FieldKind>)
    ensures
        r == field_kind_for_key(key@),
{
    let t = key;
    proof {
        reveal_strlit("int8");
        reveal_strlit("bigint");
        reveal_strlit("timestamptz");
        reveal_strlit("timestamp with time zone");
        reveal_strlit("timestamp");
        reveal_strlit("timestamp without time zone");
        reveal_strlit("int4");
        reveal_strlit("integer");
        reveal_strlit("int");
        reveal_strlit("serial");
        reveal_strlit("date");
        reveal_strlit("int2");
        reveal_strlit("smallint");
        reveal_strlit("bool");
        reveal_strlit("boolean");
        reveal_strlit("float4");
        reveal_strlit("real");
        reveal_strlit("float8");
        reveal_strlit("double precision");
    }
    if str_eq(t, "int8") || str_eq(t, "bigint") || str_eq(t, "timestamptz") || str_eq(
        t,
        "timestamp with time zone",
    ) || str_eq(t, "timestamp") || str_eq(t, "timestamp without time zone") {
        Some(FieldKind::I64)
    } else if str_eq(t, "int4") || str_eq(t, "integer") || str_eq(t, "int") || str_eq(
        t,
        "serial",
    ) || str_eq(t, "date") {
        Some(FieldKind::I32)
    } else if str_eq(t, "int2") || str_eq(t, "smallint") {
        Some(FieldKind::I16)
    } else if str_eq(t, "bool") || str_eq(t, "boolean") {
        Some(FieldKind::Bool)
    } else if str_eq(t, "float4") || str_eq(t, "real") {
        Some(FieldKind::F32)
    } else if str_eq(t, "float8") || str_eq(t, "double precision") {
        Some(FieldKind::F64)
    } else {
        None
    }
}

/// A fixed-length field of the storage row, in `attnum` order.
#[derive(Debug, Clone)]
pub struct FieldSpec {
    /// Column name (`attname`).
    pub name: String,
    /// Category of the type (decides `max_display_width`).
    pub kind: FieldKind,
    /// Physical attribute number (`pg_attribute.attnum`), positive.
    pub attnum: i16,
}

/// Escaping policy of a varlena field at run time.
#[derive(Debug, Clone, Copy, PartialEq, Eq, Structural)]
pub enum EscapePolicy {
    /// Arbitrary text, escaped at run time, capacity factor 6.
    Escaped,
    /// Content declared free of special characters: still escaped at run
    /// time, capacity factor 1.
    PreEscaped,
    /// HTML already built, injected as is, capacity factor 1.
    Raw,
}

/// A varlena field of a joined table.
#[derive(Debug, Clone)]
pub struct VarlenField {
    /// Column name in the joined table.
    pub name: String,
    /// Schema of the joined table this field comes from.
    pub ref_schema: String,
    /// Joined table this field comes from.
    pub ref_table: String,
    /// Upper bound in bytes, when the schema gives one.
    pub max_len: Option<usize>,
    /// Escaping policy.
    pub escape_policy: EscapePolicy,
    /// Large content rendered as a borrowed segment of its own.
    pub is_segment: bool,
    /// Whether the column is nullable.
    pub nullable: bool,
    /// Manual override of `max_escaped_len`.
    pub max_escaped_len_override: Option<usize>,
}

/// Worst-case escaped length of a varlena field, when it is known:
/// segments contribute 0 (when bounded), then the override, then
/// `max_len` times the policy's factor.
pub open spec fn escaped_len_spec(v: VarlenField) -> Option<int> {
    if v.is_segment {
        match v.max_len {
            Some(_) => Some(0),
            None => None,
        }
    } else {
        match v.max_escaped_len_override {
            Some(o) => Some(o as int),
            None => match v.max_len {
                Some(n) => Some(
                    match v.escape_policy {
                        EscapePolicy::Escaped => n * 6,
                        _ => n as int,
                    },
                ),
                None => None,
            },
        }
    }
}

/// The escaped length of `v` fits in a `usize` (the computation does not
/// overflow).
pub open spec fn escaped_len_fits(v: VarlenField) -> bool {
    match escaped_len_spec(v) {
        Some(n) => n <= usize::MAX,
        None => true,
    }
}

impl VarlenField {
    /// Worst-case HTML escape factor (`"` becomes `&quot;`).
    pub const HTML_ESCAPE_FACTOR: usize = 6;

    /// Maximal length after HTML escaping, in bytes, when it is known.
    /// Priority: `is_segment`, then `max_escaped_len_override`, then
    /// `escape_policy`.
    pub fn max_escaped_len(&self) -> (r: Option<usize>)
        requires
            escaped_len_fits(*self),
        ensures
            match r {
                Some(n) => escaped_len_spec(*self) == Some(n as int),
                None => escaped_len_spec(*self) is None,
            },
    {
        if self.is_segment {
            return match self.max_len {
                Some(_) => Some(0),
                None => None,
            };
        }
        if let Some(override_len) = self.max_escaped_len_override {
            return Some(override_len);
        }
        match self.max_len {
            Some(n) => Some(
                match self.escape_policy {
                    EscapePolicy::Escaped => n * Self::HTML_ESCAPE_FACTOR,
                    EscapePolicy::PreEscaped | EscapePolicy::Raw => n,
                },
            ),
            None => None,
        }
    }
}

/// Index of the first fixed field named `name`.
pub open spec fn find_fixed_spec(fixed: Seq<FieldSpec>, name: Seq<char>) -> Option<int>
    decreases fixed.len(),
{
    if fixed.len() == 0 {
        None
    } else if fixed[0].name@ == name {
        Some(0)
    } else {
        match find_fixed_spec(fixed.drop_first(), name) {
            Some(i) => Some(i + 1),
            None => None,
        }
    }
}

/// Index of the first varlena field named `name`.
pub open spec fn find_varlena_spec(varlena: Seq<VarlenField>, name: Seq<char>) -> Option<int>
    decreases varlena.len(),
{
    if varlena.len() == 0 {
        None
    } else if varlena[0].name@ == name {
        Some(0)
    } else {
        match find_varlena_spec(varlena.drop_first(), name) {
            Some(i) => Some(i + 1),
            None => None,
        }
    }
}

pub proof fn lemma_find_fixed(fixed: Seq<FieldSpec>, name: Seq<char>)
    ensures
        match find_fixed_spec(fixed, name) {
            Some(i) => 0 <= i < fixed.len() && fixed[i].name@ == name && forall|j: int|
                0 <= j < i ==> fixed[j].name@ != name,
            None => forall|j: int| 0 <= j < fixed.len() ==> fixed[j].name@ != name,
        },
    decreases fixed.len(),
{
    if fixed.len() > 0 && fixed[0].name@ != name {
        lemma_find_fixed(fixed.drop_first(), name);
        assert forall|j: int| 1 <= j < fixed.len() implies fixed[j] == fixed.drop_first()[j
            - 1] by {}
    }
}

pub proof fn lemma_find_varlena(varlena: Seq<VarlenField>, name: Seq<char>)
    ensures
        match find_varlena_spec(varlena, name) {
            Some(i) => 0 <= i < varlena.len() && varlena[i].name@ == name && forall|j: int|
                0 <= j < i ==> varlena[j].name@ != name,
            None => forall|j: int| 0 <= j < varlena.len() ==> varlena[j].name@ != name,
        },
    decreases varlena.len(),
{
    if varlena.len() > 0 && varlena[0].name@ != name {
        lemma_find_varlena(varlena.drop_first(), name);
        assert forall|j: int| 1 <= j < varlena.len() implies varlena[j]
            == varlena.drop_first()[j - 1] by {}
    }
}

/// Schema index handed to resolution and code generation: the fixed-length
/// fields of the storage row and the varlena fields of the joined tables.
pub struct SchemaIndex<'a> {
    /// Fixed-length fields, in `attnum` order.
    pub fixed: &'a [FieldSpec],
    /// Varlena fields of the joined tables.
    pub varlena: &'a [VarlenField],
}

impl<'a> SchemaIndex<'a> {
    /// First fixed-length field named `name`.
    pub fn find_fixed(&self, name: &str) -> (r: Option<&'a FieldSpec>)
        ensures
            match find_fixed_spec(self.fixed@, name@) {
                Some(i) => r == Some(&self.fixed@[i]),
                None => r is None,
            },
    {
        let fixed: &'a [FieldSpec] = self.fixed;
        let mut i: usize = 0;
        while i < fixed.len()
            invariant
                fixed@ == self.fixed@,
                i <= fixed@.len(),
                forall|j: int| 0 <= j < i ==> fixed@[j].name@ != name@,
            decreases fixed.len() - i,
        {
            if str_eq(fixed[i].name.as_str(), name) {
                proof {
                    lemma_find_fixed(fixed@, name@);
                }
                return Some(&fixed[i]);
            }
            i += 1;
        }
        proof {
            lemma_find_fixed(fixed@, name@);
        }
        None
    }

    /// First varlena field named `name`.
    pub fn find_varlena(&self, name: &str) -> (r: Option<&'a VarlenField>)
        ensures
            match find_varlena_spec(self.varlena@, name@) {
                Some(i) => r == Some(&self.varlena@[i]),
                None => r is None,
            },
    {
        let varlena: &'a [VarlenField] = self.varlena;
        let mut i: usize = 0;
        while i < varlena.len()
            invariant
                varlena@ == self.varlena@,
                i <= varlena@.len(),
                forall|j: int| 0 <= j < i ==> varlena@[j].name@ != name@,
            decreases varlena.len() - i,
        {
            if str_eq(varlena[i].name.as_str(), name) {
                proof {
                    lemma_find_varlena(varlena@, name@);
                }
                return Some(&varlena[i]);
            }
            i += 1;
        }
        proof {
            lemma_find_varlena(varlena@, name@);
        }
        None
    }
}

} // verus!
