//! Naming and capacity helpers shared by the fragment and page pipelines:
//! path to Rust identifier, path for `include_str!`, static capacity of the
//! generated `<article><dl>` markup.

use vstd::prelude::*;
use crate::fragment::resolver::byte_len;
use crate::schema::{FieldSpec, VarlenField};
use crate::text::{ascii_alnum, ascii_upper_char, ascii_digit, chars_of, is_ascii_alnum, is_ascii_digit, joined_with_one_sep, path_join, plain_join_operands, push_char};

verus! {

/// One character of a constant identifier: upper-cased if alphanumeric,
/// `_` otherwise.
pub open spec fn ident_char(c: char) -> char {
    if is_ascii_alnum(c) {
        ascii_upper_char(c)
    } else {
        '_'
    }
}

/// The constant identifier of `path`: every character mapped by
/// `ident_char`, with `_` in front when the first one is a digit.
pub open spec fn static_const_ident_spec(path: Seq<char>) -> Seq<char> {
    let body = path.map_values(|c: char| ident_char(c));
    if body.len() > 0 && is_ascii_digit(body[0]) {
        seq!['_'] + body
    } else {
        body
    }
}

/// A valid constant identifier: only `A-Z`, `0-9` and `_`, not starting
/// with a digit.
pub open spec fn is_screaming_ident(s: Seq<char>) -> bool {
    &&& forall|i: int|
        0 <= i < s.len() ==> (('A' <= #[trigger] s[i] && s[i] <= 'Z') || is_ascii_digit(s[i])
            || s[i] == '_')
    &&& (s.len() > 0 ==> !is_ascii_digit(s[0]))
}

fn ident_char_exec(c: char) -> (r: char)
    ensures
        r == ident_char(c),
{
    if ascii_alnum(c) {
        if 'a' <= c && c <= 'z' {
            let b: u8 = (c as u8) - 32;
            b as char
        } else {
            c
        }
    } else {
        '_'
    }
}

/// Converts a file path into a constant identifier: every character that
/// is not ASCII alphanumeric becomes `_`, letters are upper-cased, and a
/// leading digit gets a `_` in front (`partials/nav.html` →
/// `PARTIALS_NAV_HTML`).
pub fn static_const_ident(path: &str) -> (r: String)
    ensures
        r@ == static_const_ident_spec(path@),
{
    let cs = chars_of(path);
    let mut out = String::new();
    let starts_with_digit = cs.len() > 0 && ascii_digit(ident_char_exec(cs[0]));
    if starts_with_digit {
        push_char(&mut out, '_');
    }
    let ghost prefix = out@;
    let mut i: usize = 0;
    while i < cs.len()
        invariant
            cs@ == path@,
            i <= cs@.len(),
            out@ == prefix + path@.take(i as int).map_values(|c: char| ident_char(c)),
        decreases cs.len() - i,
    {
        let c = ident_char_exec(cs[i]);
        push_char(&mut out, c);
        assert(path@.take(i + 1).map_values(|c: char| ident_char(c)) =~= path@.take(
            i as int,
        ).map_values(|c: char| ident_char(c)).push(ident_char(path@[i as int])));
        i += 1;
    }
    assert(path@.take(i as int) =~= path@);
    proof {
        let body = path@.map_values(|c: char| ident_char(c));
        if starts_with_digit {
            assert(prefix =~= seq!['_']);
        } else {
            assert(prefix =~= Seq::<char>::empty());
            assert(out@ =~= body);
        }
    }
    out
}

/// The path to put in `include_str!()` for a template of the manifest
/// directory: `manifest_dir` joined with `rel_from_manifest` by the
/// platform's path rules. On plain operands the result is the directory,
/// one separator and the relative path; on others (an absolute relative
/// path, which replaces the directory, or a drive or network prefix) the
/// platform decides and nothing more is stated.
pub fn relative_path_for_include_str(manifest_dir: &str, rel_from_manifest: &str) -> (r: String)
    ensures
        plain_join_operands(manifest_dir@, rel_from_manifest@) ==> joined_with_one_sep(
            r@,
            manifest_dir@,
            rel_from_manifest@,
        ),
{
    path_join(manifest_dir, rel_from_manifest)
}

/// Markup bytes of one `<dt>name</dt><dd></dd>` entry.
pub open spec fn entry_bytes(name: Seq<char>) -> int {
    4 + byte_len(name) + 9 + 5
}

pub open spec fn fields_bytes(fields: Seq<FieldSpec>) -> int
    decreases fields.len(),
{
    if fields.len() == 0 {
        0
    } else {
        fields_bytes(fields.drop_last()) + entry_bytes(fields.last().name@)
    }
}

pub open spec fn varlena_bytes(varlena: Seq<VarlenField>) -> int
    decreases varlena.len(),
{
    if varlena.len() == 0 {
        0
    } else {
        varlena_bytes(varlena.drop_last()) + entry_bytes(varlena.last().name@)
    }
}

/// Static bytes of the generated `<article class="{schema}-{table}"
/// data-id="…"><dl>…</dl></article>` markup: the opening tag (16 + schema
/// + 1 + table + 11), `"><dl>` (6), 18 plus the name per field, and
/// `</dl></article>` (15).
pub open spec fn static_capacity_spec(
    schema: Seq<char>,
    table: Seq<char>,
    fields: Seq<FieldSpec>,
    varlena: Seq<VarlenField>,
) -> int {
    16 + byte_len(schema) + 1 + byte_len(table) + 11 + 6 + fields_bytes(fields) + varlena_bytes(
        varlena,
    ) + 15
}

proof fn lemma_fields_bytes_mono(fields: Seq<FieldSpec>, k: int)
    requires
        0 <= k <= fields.len(),
    ensures
        fields_bytes(fields.take(k)) <= fields_bytes(fields),
    decreases fields.len() - k,
{
    if k < fields.len() {
        lemma_fields_bytes_mono(fields, k + 1);
        assert(fields.take(k + 1).drop_last() =~= fields.take(k));
    } else {
        assert(fields.take(k) =~= fields);
    }
}

proof fn lemma_varlena_bytes_mono(varlena: Seq<VarlenField>, k: int)
    requires
        0 <= k <= varlena.len(),
    ensures
        varlena_bytes(varlena.take(k)) <= varlena_bytes(varlena),
    decreases varlena.len() - k,
{
    if k < varlena.len() {
        lemma_varlena_bytes_mono(varlena, k + 1);
        assert(varlena.take(k + 1).drop_last() =~= varlena.take(k));
    } else {
        assert(varlena.take(k) =~= varlena);
    }
}

/// Static bytes of the generated markup around the dynamic values (the
/// values themselves are not counted).
pub fn static_capacity(
    schema: &str,
    table: &str,
    fields: &[FieldSpec],
    varlena: &[VarlenField],
) -> (r: usize)
    requires
        static_capacity_spec(schema@, table@, fields@, varlena@) <= usize::MAX,
    ensures
        r == static_capacity_spec(schema@, table@, fields@, varlena@),
{
    proof {
        lemma_fields_bytes_nonneg(fields@);
        lemma_varlena_bytes_nonneg(varlena@);
    }
    let open_tag = 16 + schema.len() + 1 + table.len() + 11;
    let after_id: usize = 6;
    let mut cap = open_tag + after_id;
    let ghost base = cap as int;
    let mut i: usize = 0;
    assert(fields@.take(0) =~= Seq::<FieldSpec>::empty());
    while i < fields.len()
        invariant
            i <= fields@.len(),
            base == 16 + byte_len(schema@) + 1 + byte_len(table@) + 11 + 6,
            cap == base + fields_bytes(fields@.take(i as int)),
            static_capacity_spec(schema@, table@, fields@, varlena@) <= usize::MAX,
        decreases fields.len() - i,
    {
        proof {
            assert(fields@.take(i + 1).drop_last() =~= fields@.take(i as int));
            lemma_fields_bytes_mono(fields@, i + 1);
            assert(varlena_bytes(varlena@) >= 0) by {
                lemma_varlena_bytes_nonneg(varlena@);
            }
        }
        cap = cap + 4 + fields[i].name.as_str().len() + 9 + 5;
        i += 1;
    }
    assert(fields@.take(i as int) =~= fields@);
    let mut j: usize = 0;
    assert(varlena@.take(0) =~= Seq::<VarlenField>::empty());
    while j < varlena.len()
        invariant
            j <= varlena@.len(),
            cap == base + fields_bytes(fields@) + varlena_bytes(varlena@.take(j as int)),
            base == 16 + byte_len(schema@) + 1 + byte_len(table@) + 11 + 6,
            static_capacity_spec(schema@, table@, fields@, varlena@) <= usize::MAX,
        decreases varlena.len() - j,
    {
        proof {
            assert(varlena@.take(j + 1).drop_last() =~= varlena@.take(j as int));
            lemma_varlena_bytes_mono(varlena@, j + 1);
        }
        cap = cap + 4 + varlena[j].name.as_str().len() + 9 + 5;
        j += 1;
    }
    assert(varlena@.take(j as int) =~= varlena@);
    cap + 15
}

proof fn lemma_fields_bytes_nonneg(fields: Seq<FieldSpec>)
    ensures
        fields_bytes(fields) >= 0,
    decreases fields.len(),
{
    if fields.len() > 0 {
        lemma_fields_bytes_nonneg(fields.drop_last());
    }
}

proof fn lemma_varlena_bytes_nonneg(varlena: Seq<VarlenField>)
    ensures
        varlena_bytes(varlena) >= 0,
    decreases varlena.len(),
{
    if varlena.len() > 0 {
        lemma_varlena_bytes_nonneg(varlena.drop_last());
    }
}

/// Every identifier produced for a path is a valid constant identifier.
pub proof fn static_const_ident_is_valid(path: Seq<char>)
    ensures
        is_screaming_ident(static_const_ident_spec(path)),
{
    let body = path.map_values(|c: char| ident_char(c));
    let r = static_const_ident_spec(path);
    assert forall|i: int| 0 <= i < body.len() implies (('A' <= #[trigger] body[i] && body[i] <= 'Z')
        || is_ascii_digit(body[i]) || body[i] == '_') by {
        let c = path[i];
        if is_ascii_alnum(c) && 'a' <= c && c <= 'z' {
            assert(ascii_upper_char(c) as int == c as int - 32);
        }
    }
    if body.len() > 0 && is_ascii_digit(body[0]) {
        assert forall|i: int| 0 <= i < r.len() implies (('A' <= #[trigger] r[i] && r[i] <= 'Z')
            || is_ascii_digit(r[i]) || r[i] == '_') by {
            if i > 0 {
                assert(r[i] == body[i - 1]);
            }
        }
    }
}

} // verus!
