//! Ahead-of-time code generation: a resolved fragment AST becomes the
//! Rust statements of a `render()` body, plus the header of the generated
//! file.

use vstd::prelude::*;
use crate::fragment::token::{FlatPageToken, TokenV};
use crate::fragment::resolver::byte_len;
use crate::schema::{EscapePolicy, SchemaIndex, VarlenField, find_varlena_spec, lemma_find_varlena};
use crate::text::{
    char_debug, decimal_int, lemma_seq_lt_irreflexive, lemma_seq_lt_total,
    lemma_seq_lt_transitive, push_i64, push_str, seq_lt, debug_char_text, debug_str_text, str_debug,
    str_eq, str_lt,
};

verus! {

pub open spec fn file_header_text() -> Seq<char> {
    "// GÉNÉRÉ PAR DB-FORGE + FRAGMENT-FORGE — NE PAS MODIFIER MANUELLEMENT\n// Régénérer via : cargo build (relit pg_attribute + pg_description)\n\nuse std::path::PathBuf;\n// Import du trait Projection dans le scope du fichier généré.\n// Requis pour que fetch_batch() et render() soient résolus sur les types\n// de projection générés, aussi bien dans le code appelant que dans les tests.\n#[allow(unused_imports)]\nuse crate::projection::Projection as _;\n\n/// Échappe les caractères HTML dangereux dans `s` et pousse le résultat dans `buf`.\n///\n/// Zéro allocation : opère directement sur buf (déjà réservé par render()).\n/// Ordre des branches : '&' en premier pour éviter le double-escape de '&amp;'.\n#[inline(always)]\nfn marius_html_escape(s: &str, buf: &mut String) {\n    for ch in s.chars() {\n        match ch {\n            '&'  => buf.push_str(\"&amp;\"),\n            '<'  => buf.push_str(\"&lt;\"),\n            '>'  => buf.push_str(\"&gt;\"),\n            '\"' => buf.push_str(\"&quot;\"),\n            '\\'' => buf.push_str(\"&#39;\"),\n            _    => buf.push(ch),\n        }\n    }\n}\n\n"@
}

/// Header of the generated schema file: the imports it needs and the
/// inline `marius_html_escape` (escapes `&`, `<`, `>`, `"` and `'`).
pub fn generated_file_header() -> (r: &'static str)
    ensures
        r@ == file_header_text(),
{
    "// GÉNÉRÉ PAR DB-FORGE + FRAGMENT-FORGE — NE PAS MODIFIER MANUELLEMENT\n// Régénérer via : cargo build (relit pg_attribute + pg_description)\n\nuse std::path::PathBuf;\n// Import du trait Projection dans le scope du fichier généré.\n// Requis pour que fetch_batch() et render() soient résolus sur les types\n// de projection générés, aussi bien dans le code appelant que dans les tests.\n#[allow(unused_imports)]\nuse crate::projection::Projection as _;\n\n/// Échappe les caractères HTML dangereux dans `s` et pousse le résultat dans `buf`.\n///\n/// Zéro allocation : opère directement sur buf (déjà réservé par render()).\n/// Ordre des branches : '&' en premier pour éviter le double-escape de '&amp;'.\n#[inline(always)]\nfn marius_html_escape(s: &str, buf: &mut String) {\n    for ch in s.chars() {\n        match ch {\n            '&'  => buf.push_str(\"&amp;\"),\n            '<'  => buf.push_str(\"&lt;\"),\n            '>'  => buf.push_str(\"&gt;\"),\n            '\"' => buf.push_str(\"&quot;\"),\n            '\\'' => buf.push_str(\"&#39;\"),\n            _    => buf.push(ch),\n        }\n    }\n}\n\n"
}

// ---------------------------------------------------------------------------
// Varlena reference declarations
// ---------------------------------------------------------------------------

/// The names are in strictly increasing order (hence distinct).
pub open spec fn strictly_sorted(names: Seq<Seq<char>>) -> bool {
    forall|i: int, j: int| 0 <= i < j < names.len() ==> seq_lt(#[trigger] names[i], #[trigger] names[j])
}

/// `name` is interpolated by a `Field` token of `ts` and is a varlena field
/// of the schema.
pub open spec fn is_varlena_ref(schema: SchemaIndex<'_>, ts: Seq<TokenV>, name: Seq<char>) -> bool {
    exists|k: int|
        0 <= k < ts.len() && (#[trigger] ts[k] matches TokenV::Field { field, .. } && field == name)
            && find_varlena_spec(schema.varlena@, name) is Some
}

/// The varlena names of `ts`: sorted, without duplicates.
pub open spec fn varlena_names_ok(schema: SchemaIndex<'_>, ts: Seq<TokenV>, names: Seq<Seq<char>>) -> bool {
    &&& strictly_sorted(names)
    &&& forall|n: Seq<char>| #[trigger] names.contains(n) <==> is_varlena_ref(schema, ts, n)
}

/// `let {name}_ref: Option<&str> = varlena.{name}.as_deref();`
pub open spec fn decl_line(name: Seq<char>) -> Seq<char> {
    "let "@ + name + "_ref: Option<&str> = varlena."@ + name + ".as_deref();\n"@
}

pub open spec fn decl_lines(names: Seq<Seq<char>>) -> Seq<char>
    decreases names.len(),
{
    if names.len() == 0 {
        Seq::empty()
    } else {
        decl_lines(names.drop_last()) + decl_line(names.last())
    }
}

/// Inserts `n` into the strictly sorted `v` (nothing if present).
fn insert_sorted<'a>(v: &mut Vec<&'a str>, n: &'a str)
    requires
        strictly_sorted(old(v).deep_view()),
    ensures
        strictly_sorted(final(v).deep_view()),
        forall|x: Seq<char>|
            #[trigger] final(v).deep_view().contains(x) <==> (old(v).deep_view().contains(x) || x
                == n@),
{
    let ghost ov = v.deep_view();
    let mut p: usize = 0;
    let mut stop = false;
    while p < v.len() && !stop
        invariant
            v.deep_view() == ov,
            p <= v.len(),
            strictly_sorted(ov),
            forall|k: int| 0 <= k < p ==> seq_lt(#[trigger] ov[k], n@),
            stop ==> p < ov.len() && seq_lt(n@, ov[p as int]),
        decreases v.len() - p + (if stop { 0int } else { 1int }),
    {
        if str_eq(v[p], n) {
            proof {
                assert(ov[p as int] == n@);
                assert forall|x: Seq<char>| #[trigger] ov.contains(x) <==> (ov.contains(x) || x
                    == n@) by {
                    if x == n@ {
                        assert(ov[p as int] == x);
                    }
                }
            }
            return;
        }
        if str_lt(v[p], n) {
            p += 1;
        } else {
            proof {
                lemma_seq_lt_total(ov[p as int], n@);
            }
            stop = true;
        }
    }
    v.insert(p, n);
    proof {
        let nv = v.deep_view();
        assert(nv =~= ov.take(p as int).push(n@) + ov.skip(p as int));
        assert forall|i: int, j: int| 0 <= i < j < nv.len() implies seq_lt(
            #[trigger] nv[i],
            #[trigger] nv[j],
        ) by {
            if j < p {
                assert(nv[i] == ov[i] && nv[j] == ov[j]);
            } else if j == p {
                assert(nv[i] == ov[i]);
            } else if i == p {
                assert(nv[j] == ov[j - 1]);
                if j - 1 > p {
                    lemma_seq_lt_transitive(n@, ov[p as int], ov[j - 1]);
                }
            } else if i < p {
                assert(nv[i] == ov[i] && nv[j] == ov[j - 1]);
                if j - 1 >= p {
                    if j - 1 > p {
                        lemma_seq_lt_transitive(n@, ov[p as int], ov[j - 1]);
                    }
                    lemma_seq_lt_transitive(ov[i], n@, ov[j - 1]);
                }
            } else {
                assert(nv[i] == ov[i - 1] && nv[j] == ov[j - 1]);
            }
        }
        assert forall|x: Seq<char>| #[trigger] nv.contains(x) <==> (ov.contains(x) || x == n@) by {
            if nv.contains(x) {
                let k = choose|k: int| 0 <= k < nv.len() && nv[k] == x;
                if k < p {
                    assert(ov[k] == x);
                } else if k > p {
                    assert(ov[k - 1] == x);
                }
            }
            if ov.contains(x) {
                let k = choose|k: int| 0 <= k < ov.len() && ov[k] == x;
                if k < p {
                    assert(nv[k] == x);
                } else {
                    assert(nv[k + 1] == x);
                }
            }
            if x == n@ {
                assert(nv[p as int] == x);
            }
        }
    }
}

/// The varlena fields interpolated by `tokens`, sorted and de-duplicated.
fn varlena_names<'src>(tokens: &[FlatPageToken<'src>], schema: &SchemaIndex<'_>) -> (r: Vec<&'src str>)
    ensures
        varlena_names_ok(*schema, tokens.deep_view(), r.deep_view()),
{
    let ghost ts = tokens.deep_view();
    let mut names: Vec<&'src str> = Vec::new();
    let mut i: usize = 0;
    while i < tokens.len()
        invariant
            ts == tokens.deep_view(),
            i <= tokens.len(),
            strictly_sorted(names.deep_view()),
            forall|n: Seq<char>|
                #[trigger] names.deep_view().contains(n) <==> is_varlena_ref(
                    *schema,
                    ts.take(i as int),
                    n,
                ),
        decreases tokens.len() - i,
    {
        let t = tokens[i];
        let ghost before = names.deep_view();
        assert(ts.take(i + 1)[i as int] == t.deep_view());
        match t {
            FlatPageToken::Field { field, .. } => {
                proof {
                    lemma_find_varlena(schema.varlena@, field@);
                }
                if schema.find_varlena(field).is_some() {
                    insert_sorted(&mut names, field);
                }
            },
            _ => {},
        }
        proof {
            assert forall|n: Seq<char>| #[trigger]
                names.deep_view().contains(n) <==> is_varlena_ref(*schema, ts.take(i + 1), n) by {
                if is_varlena_ref(*schema, ts.take(i + 1), n) {
                    let k = choose|k: int|
                        0 <= k < ts.take(i + 1).len() && (#[trigger] ts.take(i + 1)[k] matches TokenV::Field {
                            field,
                            ..
                        } && field == n) && find_varlena_spec(schema.varlena@, n) is Some;
                    if k < i {
                        assert(ts.take(i as int)[k] == ts.take(i + 1)[k]);
                        assert(is_varlena_ref(*schema, ts.take(i as int), n));
                    }
                }
                if is_varlena_ref(*schema, ts.take(i as int), n) {
                    let k = choose|k: int|
                        0 <= k < ts.take(i as int).len() && (#[trigger] ts.take(i as int)[k] matches TokenV::Field {
                            field,
                            ..
                        } && field == n) && find_varlena_spec(schema.varlena@, n) is Some;
                    assert(ts.take(i + 1)[k] == ts.take(i as int)[k]);
                }
            }
        }
        i += 1;
    }
    assert(ts.take(i as int) =~= ts);
    names
}

fn push_decls(out: &mut String, names: &Vec<&str>)
    ensures
        final(out)@ == old(out)@ + decl_lines(names.deep_view()),
{
    let ghost nv = names.deep_view();
    let mut i: usize = 0;
    assert(nv.take(0) =~= Seq::<Seq<char>>::empty());
    while i < names.len()
        invariant
            nv == names.deep_view(),
            i <= names.len(),
            out@ == old(out)@ + decl_lines(nv.take(i as int)),
        decreases names.len() - i,
    {
        let name = names[i];
        push_str(out, "let ");
        push_str(out, name);
        push_str(out, "_ref: Option<&str> = varlena.");
        push_str(out, name);
        push_str(out, ".as_deref();\n");
        assert(nv.take(i + 1).drop_last() =~= nv.take(i as int));
        assert(nv.take(i + 1).last() == name@);
        i += 1;
    }
    assert(nv.take(i as int) =~= nv);
}

// ---------------------------------------------------------------------------
// Token emission
// ---------------------------------------------------------------------------

/// `n` spaces.
pub open spec fn spaces(n: nat) -> Seq<char> {
    Seq::new(n, |_i: int| ' ')
}

/// The indentation at depth `d`: four spaces per level.
pub open spec fn indent(d: nat) -> Seq<char> {
    spaces(4 * d)
}

/// `d - 1`, or 0.
pub open spec fn dec(d: nat) -> nat {
    if d > 0 {
        (d - 1) as nat
    } else {
        0
    }
}

/// The line of a `Static` token: one character with `push`, otherwise
/// `push_str`, the text as a Rust literal.
pub open spec fn static_line(ind: Seq<char>, s: Seq<char>) -> Seq<char> {
    if byte_len(s) == 1 {
        ind + "buf.push("@ + debug_char_text(s[0]) + ");\n"@
    } else {
        ind + "buf.push_str("@ + debug_str_text(s) + ");\n"@
    }
}

/// The line of a varlena field that is not a segment.
pub open spec fn varlena_line(ind: Seq<char>, field: Seq<char>, v: VarlenField) -> Seq<char> {
    if v.escape_policy == EscapePolicy::Raw {
        ind + "if let Some(s) = "@ + field + "_ref { buf.push_str(s); }\n"@
    } else {
        ind + "if let Some(s) = "@ + field + "_ref { marius_html_escape(s, buf); }\n"@
    }
}

/// The lines of a segment field: close the buffered run, push the value
/// as borrowed, reopen a run.
pub open spec fn segment_lines(ind: Seq<char>, field: Seq<char>) -> Seq<char> {
    ind + "segments.push(marius_projection::Segment::Buffered { start: seg_start, end: buf.len() });\n"@
        + ind + "if let Some(s) = "@ + field
        + "_ref { segments.push(marius_projection::Segment::Borrowed(s)); }\n"@ + ind
        + "seg_start = buf.len();\n"@
}

/// The line of a fixed-length field: formatted from the record.
pub open spec fn fixed_line(ind: Seq<char>, field: Seq<char>) -> Seq<char> {
    ind + "::std::fmt::Write::write_fmt(buf, format_args!(\"{}\", record."@ + field + ")).ok();\n"@
}

/// The opening line of a condition.
pub open spec fn if_line(ind: Seq<char>, t: TokenV) -> Seq<char> {
    match t {
        TokenV::IfBool { field, .. } => ind + "if record."@ + field + " != 0 {\n"@,
        TokenV::IfEq { field, literal, .. } => ind + "if record."@ + field + " == "@ + decimal_int(
            literal as int,
        ) + " {\n"@,
        TokenV::IfNeq { field, literal, .. } => ind + "if record."@ + field + " != "@ + decimal_int(
            literal as int,
        ) + " {\n"@,
        _ => Seq::empty(),
    }
}

/// The code emitted for one token at depth `d` and the depth after it.
/// `segmented` selects the segmented body (nested indentation and segment
/// fields); `url` is the resolved URL of an asset.
pub open spec fn emit_token(
    segmented: bool,
    schema: SchemaIndex<'_>,
    d: nat,
    t: TokenV,
    url: Seq<char>,
    modules: Seq<char>,
) -> (Seq<char>, nat) {
    let ind = if segmented {
        indent(d)
    } else if d > 0 {
        spaces(4)
    } else {
        Seq::empty()
    };
    match t {
        TokenV::Static(s) => (static_line(ind, s), d),
        TokenV::Field { field, .. } => match find_varlena_spec(schema.varlena@, field) {
            Some(j) => if segmented && schema.varlena@[j].is_segment {
                (segment_lines(ind, field), d)
            } else {
                (varlena_line(ind, field, schema.varlena@[j]), d)
            },
            None => (fixed_line(ind, field), d),
        },
        TokenV::IfBool { .. } | TokenV::IfEq { .. } | TokenV::IfNeq { .. } => (
            if_line(ind, t),
            if segmented {
                d + 1
            } else {
                1
            },
        ),
        TokenV::Else => (
            if segmented {
                indent(dec(d))
            } else {
                Seq::empty()
            } + "} else {\n"@,
            d,
        ),
        TokenV::EndIf => if segmented {
            (indent(dec(d)) + "}\n"@, dec(d))
        } else {
            ("}\n"@, 0)
        },
        TokenV::StaticInclude { rel_from_manifest, .. } => (
            ind + "buf.push_str(include_str!("@ + debug_str_text(rel_from_manifest) + "));\n"@,
            d,
        ),
        TokenV::AssetRef(_) => (ind + "buf.push_str("@ + debug_str_text(url) + ");\n"@, d),
        TokenV::ModulesPlaceholder => (modules, d),
        _ => (Seq::empty(), d),
    }
}

/// A `!=` condition is emitted as the negation of the `==` condition on the
/// same field and literal: the two lines open the same block at the same
/// indentation, test `record.<field>` against the literal, and differ only
/// in the operator; both open one level of nesting. A boolean condition
/// opens the same block and tests the field against 0.
pub proof fn inequality_condition_negates_equality(
    segmented: bool,
    schema: SchemaIndex<'_>,
    d: nat,
    entity: Seq<char>,
    field: Seq<char>,
    literal: i64,
    url: Seq<char>,
    modules: Seq<char>,
)
    ensures
        ({
            let (eq_line, eq_depth) = emit_token(
                segmented,
                schema,
                d,
                TokenV::IfEq { entity, field, literal },
                url,
                modules,
            );
            let (ne_line, ne_depth) = emit_token(
                segmented,
                schema,
                d,
                TokenV::IfNeq { entity, field, literal },
                url,
                modules,
            );
            let (bool_line, bool_depth) = emit_token(
                segmented,
                schema,
                d,
                TokenV::IfBool { entity, field },
                url,
                modules,
            );
            &&& eq_depth == ne_depth
            &&& eq_depth == bool_depth
            &&& eq_depth == if segmented { d + 1 } else { 1 }
            &&& exists|ind: Seq<char>|
                {
                    &&& eq_line == ind + "if record."@ + field + " == "@ + decimal_int(literal as int)
                        + " {\n"@
                    &&& ne_line == ind + "if record."@ + field + " != "@ + decimal_int(literal as int)
                        + " {\n"@
                    &&& bool_line == ind + "if record."@ + field + " != 0 {\n"@
                }
        }),
{
    let ind = if segmented {
        indent(d)
    } else if d > 0 {
        spaces(4)
    } else {
        Seq::empty()
    };
    let (eq_line, _) = emit_token(segmented, schema, d, TokenV::IfEq { entity, field, literal }, url, modules);
    let (ne_line, _) = emit_token(segmented, schema, d, TokenV::IfNeq { entity, field, literal }, url, modules);
    assert(eq_line == ind + "if record."@ + field + " == "@ + decimal_int(literal as int) + " {\n"@);
    assert(ne_line == ind + "if record."@ + field + " != "@ + decimal_int(literal as int) + " {\n"@);
    let (bool_line, _) = emit_token(segmented, schema, d, TokenV::IfBool { entity, field }, url, modules);
    assert(bool_line == ind + "if record."@ + field + " != 0 {\n"@);
}

/// The code emitted for `ts` from depth 0, the `k`-th token with the
/// `k`-th URL.
pub open spec fn emit_tokens(
    segmented: bool,
    schema: SchemaIndex<'_>,
    ts: Seq<TokenV>,
    urls: Seq<Seq<char>>,
    modules: Seq<char>,
) -> (Seq<char>, nat)
    decreases ts.len(),
{
    if ts.len() == 0 {
        (Seq::empty(), 0)
    } else {
        let (code, d) = emit_tokens(segmented, schema, ts.drop_last(), urls, modules);
        let (line, d2) = emit_token(segmented, schema, d, ts.last(), urls[ts.len() - 1], modules);
        (code + line, d2)
    }
}

/// The URLs answered by `resolve_asset_url` for the assets of `tokens`
/// (entries of other tokens are unused).
pub open spec fn urls_answer<'src, 'r, F>(
    resolve_asset_url: F,
    tokens: Seq<FlatPageToken<'src>>,
    urls: Seq<&'r str>,
) -> bool where F: Fn(&str) -> &'r str {
    &&& urls.len() == tokens.len()
    &&& forall|k: int|
        0 <= k < tokens.len() ==> (#[trigger] tokens[k] matches FlatPageToken::AssetRef(key)
            ==> call_ensures(resolve_asset_url, (key,), urls[k]))
}

pub open spec fn url_views<'r>(urls: Seq<&'r str>) -> Seq<Seq<char>> {
    urls.map_values(|u: &'r str| u@)
}

fn push_indent(out: &mut String, segmented: bool, d: usize)
    ensures
        final(out)@ == old(out)@ + (if segmented {
            indent(d as nat)
        } else if d > 0 {
            spaces(4)
        } else {
            Seq::<char>::empty()
        }),
{
    let levels = if segmented {
        d
    } else if d > 0 {
        1
    } else {
        0
    };
    let mut k: usize = 0;
    while k < levels
        invariant
            k <= levels,
            levels == (if segmented {
                d
            } else if d > 0 {
                1
            } else {
                0
            }),
            out@ == old(out)@ + spaces(4 * k as nat),
        decreases levels - k,
    {
        push_str(out, "    ");
        proof {
            reveal_strlit("    ");
        }
        assert(spaces(4 * (k + 1) as nat) =~= spaces(4 * k as nat) + "    "@);
        k += 1;
    }
}

fn push_static(out: &mut String, segmented: bool, d: usize, s: &str)
    ensures
        final(out)@ == old(out)@ + static_line(
            if segmented {
                indent(d as nat)
            } else if d > 0 {
                spaces(4)
            } else {
                Seq::<char>::empty()
            },
            s@,
        ),
{
    push_indent(out, segmented, d);
    if s.len() == 1 {
        proof {
            if s@.len() == 0 {
                assert(vstd::utf8::encode_utf8(s@) =~= Seq::<u8>::empty());
            }
        }
        let c = s.get_char(0);
        push_str(out, "buf.push(");
        let dbg = char_debug(c);
        push_str(out, dbg.as_str());
        push_str(out, ");\n");
    } else {
        push_str(out, "buf.push_str(");
        let dbg = str_debug(s);
        push_str(out, dbg.as_str());
        push_str(out, ");\n");
    }
}

/// Emits the code of a `Field` token at depth `d`.
fn emit_field(out: &mut String, segmented: bool, schema: &SchemaIndex<'_>, d: usize, field: &str)
    ensures
        final(out)@ == old(out)@ + emit_token(
            segmented,
            *schema,
            d as nat,
            TokenV::Field { entity: Seq::empty(), field: field@ },
            Seq::empty(),
            Seq::empty(),
        ).0,
{
    proof {
        lemma_find_varlena(schema.varlena@, field@);
    }
    match schema.find_varlena(field) {
        Some(v) => {
            if segmented && v.is_segment {
                push_indent(out, segmented, d);
                push_str(
                    out,
                    "segments.push(marius_projection::Segment::Buffered { start: seg_start, end: buf.len() });\n",
                );
                push_indent(out, segmented, d);
                push_str(out, "if let Some(s) = ");
                push_str(out, field);
                push_str(out, "_ref { segments.push(marius_projection::Segment::Borrowed(s)); }\n");
                push_indent(out, segmented, d);
                push_str(out, "seg_start = buf.len();\n");
            } else {
                push_indent(out, segmented, d);
                push_str(out, "if let Some(s) = ");
                push_str(out, field);
                match v.escape_policy {
                    EscapePolicy::Raw => {
                        push_str(out, "_ref { buf.push_str(s); }\n");
                    },
                    _ => {
                        push_str(out, "_ref { marius_html_escape(s, buf); }\n");
                    },
                }
            }
        },
        None => {
            push_indent(out, segmented, d);
            push_str(out, "::std::fmt::Write::write_fmt(buf, format_args!(\"{}\", record.");
            push_str(out, field);
            push_str(out, ")).ok();\n");
        },
    }
}

/// Emits the opening of a condition at depth `d`.
fn emit_cond<'src>(out: &mut String, segmented: bool, d: usize, t: FlatPageToken<'src>) -> (nd: usize)
    requires
        d < usize::MAX,
        t is IfBool || t is IfEq || t is IfNeq,
    ensures
        final(out)@ == old(out)@ + if_line(
            if segmented {
                indent(d as nat)
            } else if d > 0 {
                spaces(4)
            } else {
                Seq::<char>::empty()
            },
            t.deep_view(),
        ),
        nd == (if segmented {
            d + 1
        } else {
            1
        }),
{
    push_indent(out, segmented, d);
    push_str(out, "if record.");
    match t {
        FlatPageToken::IfBool { field, .. } => {
            push_str(out, field);
            push_str(out, " != 0 {\n");
        },
        FlatPageToken::IfEq { field, literal, .. } => {
            push_str(out, field);
            push_str(out, " == ");
            push_i64(out, literal);
            push_str(out, " {\n");
        },
        FlatPageToken::IfNeq { field, literal, .. } => {
            push_str(out, field);
            push_str(out, " != ");
            push_i64(out, literal);
            push_str(out, " {\n");
        },
        _ => {},
    }
    if segmented {
        d + 1
    } else {
        1
    }
}

/// Emits `else` or `endif` at depth `d`.
fn emit_branch_end<'src>(out: &mut String, segmented: bool, d: usize, is_else: bool) -> (nd: usize)
    ensures
        is_else ==> final(out)@ == old(out)@ + (if segmented {
            indent(dec(d as nat))
        } else {
            Seq::<char>::empty()
        } + "} else {\n"@) && nd == d,
        !is_else ==> (if segmented {
            final(out)@ == old(out)@ + (indent(dec(d as nat)) + "}\n"@) && nd == dec(d as nat)
        } else {
            final(out)@ == old(out)@ + "}\n"@ && nd == 0
        }),
{
    let up = if d > 0 {
        d - 1
    } else {
        0
    };
    if segmented {
        push_indent(out, true, up);
    }
    if is_else {
        push_str(out, "} else {\n");
        d
    } else {
        push_str(out, "}\n");
        if segmented {
            up
        } else {
            0
        }
    }
}

/// Emits a `push_str` of a Rust literal, optionally wrapped in
/// `include_str!`.
fn emit_literal_push(out: &mut String, segmented: bool, d: usize, text: &str, embed_file: bool)
    ensures
        final(out)@ == old(out)@ + (if segmented {
            indent(d as nat)
        } else if d > 0 {
            spaces(4)
        } else {
            Seq::<char>::empty()
        }) + if embed_file {
            "buf.push_str(include_str!("@ + debug_str_text(text@) + "));\n"@
        } else {
            "buf.push_str("@ + debug_str_text(text@) + ");\n"@
        },
{
    push_indent(out, segmented, d);
    let dbg = str_debug(text);
    if embed_file {
        push_str(out, "buf.push_str(include_str!(");
        push_str(out, dbg.as_str());
        push_str(out, "));\n");
    } else {
        push_str(out, "buf.push_str(");
        push_str(out, dbg.as_str());
        push_str(out, ");\n");
    }
}

/// Emits the code of one token at depth `d`; returns the new depth.
fn emit_one<'src>(
    out: &mut String,
    segmented: bool,
    schema: &SchemaIndex<'_>,
    d: usize,
    t: FlatPageToken<'src>,
    url: &str,
    modules_snippet: &str,
) -> (nd: usize)
    requires
        d < usize::MAX,
    ensures
        nd <= d + 1,
        final(out)@ == old(out)@ + emit_token(segmented, *schema, d as nat, t.deep_view(), url@, modules_snippet@).0,
        nd == emit_token(segmented, *schema, d as nat, t.deep_view(), url@, modules_snippet@).1,
{
    let ghost start = out@;
    let nd = match t {
        FlatPageToken::Static(s) => {
            push_static(out, segmented, d, s);
            d
        },
        FlatPageToken::Field { field, .. } => {
            emit_field(out, segmented, schema, d, field);
            d
        },
        FlatPageToken::IfBool { .. } | FlatPageToken::IfEq { .. } | FlatPageToken::IfNeq { .. } => {
            emit_cond(out, segmented, d, t)
        },
        FlatPageToken::Else => emit_branch_end(out, segmented, d, true),
        FlatPageToken::EndIf => emit_branch_end(out, segmented, d, false),
        FlatPageToken::StaticInclude { rel_from_manifest, .. } => {
            emit_literal_push(out, segmented, d, rel_from_manifest, true);
            d
        },
        FlatPageToken::AssetRef(_) => {
            emit_literal_push(out, segmented, d, url, false);
            d
        },
        FlatPageToken::ModulesPlaceholder => {
            push_str(out, modules_snippet);
            d
        },
        _ => d,
    };
    nd
}

/// Emits the body of every token; the assets are resolved through
/// `resolve_asset_url`, once each, in token order.
fn emit_body<'src, 'r, F>(
    out: &mut String,
    segmented: bool,
    tokens: &[FlatPageToken<'src>],
    schema: &SchemaIndex<'_>,
    resolve_asset_url: &F,
    modules_snippet: &str,
) -> (urls: Ghost<Seq<&'r str>>) where F: Fn(&str) -> &'r str
    requires
        forall|p: &str| #[trigger] resolve_asset_url.requires((p,)),
    ensures
        urls_answer(*resolve_asset_url, tokens@, urls@),
        final(out)@ == old(out)@ + emit_tokens(
            segmented,
            *schema,
            tokens.deep_view(),
            url_views(urls@),
            modules_snippet@,
        ).0,
{
    let ghost ts = tokens.deep_view();
    let ghost mut us: Seq<&'r str> = Seq::empty();
    let ghost start = out@;
    let mut d: usize = 0;
    let mut i: usize = 0;
    assert(ts.take(0) =~= Seq::<TokenV>::empty());
    while i < tokens.len()
        invariant
            ts == tokens.deep_view(),
            i <= tokens.len(),
            d <= i,
            us.len() == i,
            forall|p: &str| #[trigger] resolve_asset_url.requires((p,)),
            forall|k: int|
                0 <= k < i ==> (#[trigger] tokens@[k] matches FlatPageToken::AssetRef(key)
                    ==> call_ensures(*resolve_asset_url, (key,), us[k])),
            ({
                let (code, dd) = emit_tokens(segmented, *schema, ts.take(i as int), url_views(us), modules_snippet@);
                &&& out@ == start + code
                &&& dd == d
            }),
        decreases tokens.len() - i,
    {
        let t = tokens[i];
        let url: &'r str = match t {
            FlatPageToken::AssetRef(key) => resolve_asset_url(key),
            _ => "",
        };
        let ghost old_us = us;
        proof {
            us = us.push(url);
            lemma_emit_prefix_urls(segmented, *schema, ts.take(i as int), url_views(old_us), url_views(us), modules_snippet@);
            assert(ts.take(i + 1).drop_last() =~= ts.take(i as int));
            assert(ts.take(i + 1).last() == t.deep_view());
            assert(url_views(us)[i as int] == url@);
        }
        let ghost before = out@;
        d = emit_one(out, segmented, schema, d, t, url, modules_snippet);
        proof {
            assert(out@ =~= start + emit_tokens(segmented, *schema, ts.take(i + 1), url_views(us), modules_snippet@).0);
        }
        i += 1;
    }
    proof {
        assert(ts.take(i as int) =~= ts);
        assert(urls_answer(*resolve_asset_url, tokens@, us));
    }
    Ghost(us)
}

/// The emission over `ts` reads only the first `ts.len()` URLs.
proof fn lemma_emit_prefix_urls(
    segmented: bool,
    schema: SchemaIndex<'_>,
    ts: Seq<TokenV>,
    a: Seq<Seq<char>>,
    b: Seq<Seq<char>>,
    modules: Seq<char>,
)
    requires
        ts.len() <= a.len(),
        ts.len() <= b.len(),
        forall|k: int| 0 <= k < ts.len() ==> a[k] == b[k],
    ensures
        emit_tokens(segmented, schema, ts, a, modules) == emit_tokens(segmented, schema, ts, b, modules),
    decreases ts.len(),
{
    if ts.len() > 0 {
        lemma_emit_prefix_urls(segmented, schema, ts.drop_last(), a, b, modules);
    }
}

/// The `render()` body of a fragment: the varlena reference declarations
/// (sorted, without duplicates), then the code of every token, assets
/// resolved by `resolve_asset_url` and the modules placeholder replaced by
/// `modules_snippet` verbatim. Emits no `buf.reserve`.
pub fn generate_aot_snippet<'src, 'r, F>(
    tokens: &[FlatPageToken<'src>],
    schema: &SchemaIndex<'_>,
    resolve_asset_url: F,
    modules_snippet: &str,
) -> (r: String) where F: Fn(&str) -> &'r str
    requires
        forall|p: &str| #[trigger] resolve_asset_url.requires((p,)),
    ensures
        exists|names: Seq<Seq<char>>, urls: Seq<&'r str>|
            #![trigger varlena_names_ok(*schema, tokens.deep_view(), names), urls_answer(resolve_asset_url, tokens@, urls)]
            {
                &&& varlena_names_ok(*schema, tokens.deep_view(), names)
                &&& urls_answer(resolve_asset_url, tokens@, urls)
                &&& r@ == decl_lines(names) + emit_tokens(
                    false,
                    *schema,
                    tokens.deep_view(),
                    url_views(urls),
                    modules_snippet@,
                ).0
            },
{
    let mut out = String::new();
    let names = varlena_names(tokens, schema);
    push_decls(&mut out, &names);
    let urls = emit_body(&mut out, false, tokens, schema, &resolve_asset_url, modules_snippet);
    proof {
        assert(out@ =~= decl_lines(names.deep_view()) + emit_tokens(
            false,
            *schema,
            tokens.deep_view(),
            url_views(urls@),
            modules_snippet@,
        ).0);
    }
    out
}

/// The opening of the first buffered run.
pub open spec fn seg_open() -> Seq<char> {
    "let mut seg_start: usize = buf.len();\n"@
}

/// The closing of the last buffered run.
pub open spec fn seg_close() -> Seq<char> {
    "segments.push(marius_projection::Segment::Buffered { start: seg_start, end: buf.len() });\n"@
}

/// The `render_segments()` body of a component with segment fields: as
/// `generate_aot_snippet`, except that a segment field closes the current
/// buffered run, pushes its value as borrowed and reopens a run; blocks
/// nest their indentation, and the last run is always closed.
pub fn generate_segmented_snippet<'src, 'r, F>(
    tokens: &[FlatPageToken<'src>],
    schema: &SchemaIndex<'_>,
    resolve_asset_url: F,
    modules_snippet: &str,
) -> (r: String) where F: Fn(&str) -> &'r str
    requires
        forall|p: &str| #[trigger] resolve_asset_url.requires((p,)),
    ensures
        exists|names: Seq<Seq<char>>, urls: Seq<&'r str>|
            #![trigger varlena_names_ok(*schema, tokens.deep_view(), names), urls_answer(resolve_asset_url, tokens@, urls)]
            {
                &&& varlena_names_ok(*schema, tokens.deep_view(), names)
                &&& urls_answer(resolve_asset_url, tokens@, urls)
                &&& r@ == decl_lines(names) + seg_open() + emit_tokens(
                    true,
                    *schema,
                    tokens.deep_view(),
                    url_views(urls),
                    modules_snippet@,
                ).0 + seg_close()
            },
{
    let mut out = String::new();
    let names = varlena_names(tokens, schema);
    push_decls(&mut out, &names);
    push_str(&mut out, "let mut seg_start: usize = buf.len();\n");
    let urls = emit_body(&mut out, true, tokens, schema, &resolve_asset_url, modules_snippet);
    push_str(
        &mut out,
        "segments.push(marius_projection::Segment::Buffered { start: seg_start, end: buf.len() });\n",
    );
    proof {
        assert(out@ =~= decl_lines(names.deep_view()) + seg_open() + emit_tokens(
            true,
            *schema,
            tokens.deep_view(),
            url_views(urls@),
            modules_snippet@,
        ).0 + seg_close());
    }
    out
}

} // verus!
