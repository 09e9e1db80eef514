//! Source text of the `Projection` implementation of a component: its
//! capacity constants, the store registry, the two fetch paths (store and
//! PostgreSQL), `render`/`render_segments`, and the accessors the batch
//! renderer needs.

use vstd::prelude::*;
use crate::db::codegen::{component_stem, ln, pad_init, push_ln, push_storage_inits, storage_inits, type_stem};
use crate::db::mapping::{Column, PrimaryKey, map_type, map_type_spec};
use crate::db::naming::to_screaming;
use crate::db::validate::find_column;
use crate::fragment::resolver::TemplateMetrics;
use crate::schema::{FieldKind, VarlenField, field_kind_for_key, sql_type_key};
use crate::text::{
    chars_of, decimal, find_char_exec, find_char_from, push_char, push_str, push_usize, replace_all,
    replace_spec, upper_text, str_eq,
};

verus! {

// ---------------------------------------------------------------------------
// SELECT / FROM / WHERE
// ---------------------------------------------------------------------------

pub open spec fn opt_str(q: Option<&str>) -> Option<Seq<char>> {
    match q {
        Some(s) => Some(s@),
        None => None,
    }
}

/// The SELECT expression of a fixed-length column: its name (qualified by
/// `q` when given), cast and aliased back to the name when the type needs a
/// cast to decode.
pub open spec fn select_expr_spec(col: Column, q: Option<Seq<char>>) -> Seq<char> {
    let qualified = match q {
        Some(q) => q + "."@ + col.name@,
        None => col.name@,
    };
    match map_type_spec(col.sql_type@).select_cast {
        Some(t) => replace_spec(t, "{}"@, qualified) + " AS "@ + col.name@,
        None => qualified,
    }
}

/// The SELECT expressions of the fixed-length columns, in order.
pub open spec fn select_items(columns: Seq<Column>, q: Option<Seq<char>>) -> Seq<Seq<char>>
    decreases columns.len(),
{
    if columns.len() == 0 {
        Seq::empty()
    } else {
        let prev = select_items(columns.drop_last(), q);
        if map_type_spec(columns.last().sql_type@).is_fixed {
            prev.push(select_expr_spec(columns.last(), q))
        } else {
            prev
        }
    }
}

/// `table.name` of every joined varlena field.
pub open spec fn varlena_items(varlena: Seq<VarlenField>) -> Seq<Seq<char>>
    decreases varlena.len(),
{
    if varlena.len() == 0 {
        Seq::empty()
    } else {
        varlena_items(varlena.drop_last()).push(varlena.last().ref_table@ + "."@ + varlena.last().name@)
    }
}

/// `items` joined with `sep` (`[T]::join`).
pub open spec fn join_spec(items: Seq<Seq<char>>, sep: Seq<char>) -> Seq<char>
    decreases items.len(),
{
    if items.len() == 0 {
        Seq::empty()
    } else if items.len() == 1 {
        items[0]
    } else {
        join_spec(items.drop_last(), sep) + sep + items.last()
    }
}

pub proof fn lemma_join_push(items: Seq<Seq<char>>, sep: Seq<char>, x: Seq<char>)
    ensures
        join_spec(items.push(x), sep) == if items.len() == 0 {
            x
        } else {
            join_spec(items, sep) + sep + x
        },
{
    assert(items.push(x).drop_last() =~= items);
}

/// One `LEFT JOIN` per joined table: the child's key column references the
/// component's primary key.
pub open spec fn join_clause(j: (&str, &str, &str), schema: Seq<char>, table: Seq<char>, pk_col: Seq<char>) -> Seq<char> {
    "LEFT JOIN "@ + j.0@ + "."@ + j.1@ + " ON "@ + schema + "."@ + table + "."@ + pk_col + " = "@ + j.0@
        + "."@ + j.1@ + "."@ + j.2@
}

pub open spec fn join_items(joins: Seq<(&str, &str, &str)>, schema: Seq<char>, table: Seq<char>, pk_col: Seq<char>) -> Seq<
    Seq<char>,
>
    decreases joins.len(),
{
    if joins.len() == 0 {
        Seq::empty()
    } else {
        join_items(joins.drop_last(), schema, table, pk_col).push(
            join_clause(joins.last(), schema, table, pk_col),
        )
    }
}

/// Name of the first fixed-length column.
pub open spec fn first_fixed_name(columns: Seq<Column>) -> Option<Seq<char>>
    decreases columns.len(),
{
    if columns.len() == 0 {
        None
    } else if map_type_spec(columns[0].sql_type@).is_fixed {
        Some(columns[0].name@)
    } else {
        first_fixed_name(columns.drop_first())
    }
}

/// The key column the joins and `record_id` use: the primary key, or for a
/// composite key the first fixed-length column (`id` when there is none).
pub open spec fn pk_col_spec(columns: Seq<Column>, pk: PrimaryKey) -> Seq<char> {
    match pk {
        PrimaryKey::Single(c) => c@,
        PrimaryKey::Composite => match first_fixed_name(columns) {
            Some(n) => n,
            None => "id"@,
        },
    }
}

pub open spec fn select_spec(
    schema: Seq<char>,
    table: Seq<char>,
    columns: Seq<Column>,
    varlena: Seq<VarlenField>,
    joins: Seq<(&str, &str, &str)>,
) -> Seq<char> {
    if joins.len() > 0 {
        join_spec(select_items(columns, Some(schema + "."@ + table)) + varlena_items(varlena), ", "@)
    } else {
        join_spec(select_items(columns, None), ", "@)
    }
}

pub open spec fn from_spec(
    schema: Seq<char>,
    table: Seq<char>,
    columns: Seq<Column>,
    pk: PrimaryKey,
    joins: Seq<(&str, &str, &str)>,
) -> Seq<char> {
    if joins.len() > 0 {
        schema + "."@ + table + " "@ + join_spec(
            join_items(joins, schema, table, pk_col_spec(columns, pk)),
            " "@,
        )
    } else {
        schema + "."@ + table
    }
}

pub open spec fn where_spec(schema: Seq<char>, table: Seq<char>, pk: PrimaryKey) -> Seq<char> {
    match pk {
        PrimaryKey::Single(c) => "WHERE "@ + schema + "."@ + table + "."@ + c@ + " = ANY($1) ORDER BY "@
            + schema + "."@ + table + "."@ + c@ + " ASC"@,
        PrimaryKey::Composite => "WHERE 1=1 /* PK composite: adapter */"@,
    }
}

/// The SELECT expression of one fixed-length column.
fn select_expr_for(col: &Column, qualifier: Option<&str>) -> (r: String)
    ensures
        r@ == select_expr_spec(*col, opt_str(qualifier)),
{
    let mut qualified = String::new();
    match qualifier {
        Some(q) => {
            push_str(&mut qualified, q);
            push_str(&mut qualified, ".");
        },
        None => {},
    }
    push_str(&mut qualified, col.name.as_str());
    let m = map_type(col.sql_type.as_str());
    match m.select_cast {
        Some(t) => {
            proof {
                reveal_strlit("{}");
            }
            let mut r = replace_all(t, "{}", qualified.as_str());
            push_str(&mut r, " AS ");
            push_str(&mut r, col.name.as_str());
            r
        },
        None => qualified,
    }
}

/// Appends `x` to a `sep`-joined list that holds `items`.
fn join_push(acc: &mut String, nonempty: bool, sep: &str, x: &str, Ghost(items): Ghost<Seq<Seq<char>>>)
    requires
        old(acc)@ == join_spec(items, sep@),
        nonempty == (items.len() > 0),
    ensures
        final(acc)@ == join_spec(items.push(x@), sep@),
{
    proof {
        lemma_join_push(items, sep@, x@);
    }
    if nonempty {
        push_str(acc, sep);
        push_str(acc, x);
    } else {
        assert(items.len() == 0);
        assert(join_spec(items, sep@) =~= Seq::<char>::empty());
        push_str(acc, x);
        assert(acc@ =~= x@);
    }
}

/// The SELECT list: fixed-length columns (qualified and followed by the
/// joined varlena fields when there are joins).
fn select_clause(schema: &str, table: &str, columns: &[Column], varlena: &[VarlenField], joined: bool) -> (r: String)
    ensures
        joined ==> r@ == join_spec(select_items(columns@, Some(schema@ + "."@ + table@)) + varlena_items(varlena@), ", "@),
        !joined ==> r@ == join_spec(select_items(columns@, None), ", "@),
{
    let mut qual = String::new();
    push_str(&mut qual, schema);
    push_str(&mut qual, ".");
    push_str(&mut qual, table);
    let ghost q: Option<Seq<char>> = if joined { Some(schema@ + "."@ + table@) } else { None };
    let mut acc = String::new();
    let mut nonempty = false;
    let mut i: usize = 0;
    assert(columns@.take(0) =~= Seq::<Column>::empty());
    while i < columns.len()
        invariant
            i <= columns@.len(),
            qual@ == schema@ + "."@ + table@,
            q == if joined { Some(schema@ + "."@ + table@) } else { None::<Seq<char>> },
            acc@ == join_spec(select_items(columns@.take(i as int), q), ", "@),
            nonempty == (select_items(columns@.take(i as int), q).len() > 0),
        decreases columns.len() - i,
    {
        let col = &columns[i];
        assert(columns@.take(i + 1).drop_last() =~= columns@.take(i as int));
        assert(columns@.take(i + 1).last() == columns@[i as int]);
        let m = map_type(col.sql_type.as_str());
        if m.is_fixed {
            let e = if joined {
                select_expr_for(col, Some(qual.as_str()))
            } else {
                select_expr_for(col, None)
            };
            join_push(&mut acc, nonempty, ", ", e.as_str(), Ghost(select_items(columns@.take(i as int), q)));
            nonempty = true;
        }
        i += 1;
    }
    assert(columns@.take(i as int) =~= columns@);
    if joined {
        let ghost base = select_items(columns@, q);
        let mut k: usize = 0;
        assert(varlena@.take(0) =~= Seq::<VarlenField>::empty());
        assert(base + varlena_items(varlena@.take(0)) =~= base);
        while k < varlena.len()
            invariant
                k <= varlena@.len(),
                acc@ == join_spec(base + varlena_items(varlena@.take(k as int)), ", "@),
                nonempty == ((base + varlena_items(varlena@.take(k as int))).len() > 0),
            decreases varlena.len() - k,
        {
            let v = &varlena[k];
            let mut item = String::new();
            push_str(&mut item, v.ref_table.as_str());
            push_str(&mut item, ".");
            push_str(&mut item, v.name.as_str());
            let ghost items = base + varlena_items(varlena@.take(k as int));
            join_push(&mut acc, nonempty, ", ", item.as_str(), Ghost(items));
            nonempty = true;
            assert(varlena@.take(k + 1).drop_last() =~= varlena@.take(k as int));
            assert(varlena@.take(k + 1).last() == varlena@[k as int]);
            assert(items.push(item@) =~= base + varlena_items(varlena@.take(k + 1)));
            k += 1;
        }
        assert(varlena@.take(k as int) =~= varlena@);
    }
    acc
}


/// The key column the joins and `record_id` use.
fn pk_col_name(columns: &[Column], pk: &PrimaryKey) -> (r: String)
    ensures
        r@ == pk_col_spec(columns@, *pk),
{
    match pk {
        PrimaryKey::Single(c) => {
            let mut r = String::new();
            push_str(&mut r, c.as_str());
            r
        },
        PrimaryKey::Composite => {
            let mut i: usize = 0;
            assert(columns@.skip(0) =~= columns@);
            while i < columns.len()
                invariant
                    i <= columns@.len(),
                    *pk is Composite,
                    first_fixed_name(columns@) == first_fixed_name(columns@.skip(i as int)),
                decreases columns.len() - i,
            {
                assert(columns@.skip(i as int)[0] == columns@[i as int]);
                assert(columns@.skip(i as int).drop_first() =~= columns@.skip(i + 1));
                let m = map_type(columns[i].sql_type.as_str());
                if m.is_fixed {
                    let mut r = String::new();
                    push_str(&mut r, columns[i].name.as_str());
                    assert(first_fixed_name(columns@.skip(i as int)) == Some(columns@[i as int].name@));
                    return r;
                }
                i += 1;
            }
            assert(columns@.skip(i as int).len() == 0);
            let mut r = String::new();
            push_str(&mut r, "id");
            r
        },
    }
}

/// The FROM clause: the component's table, then one `LEFT JOIN` per
/// joined table.
fn from_clause(schema: &str, table: &str, pk_col: &str, joins: &[(&str, &str, &str)]) -> (r: String)
    ensures
        joins@.len() > 0 ==> r@ == schema@ + "."@ + table@ + " "@ + join_spec(
            join_items(joins@, schema@, table@, pk_col@),
            " "@,
        ),
        joins@.len() == 0 ==> r@ == schema@ + "."@ + table@,
{
    let mut acc = String::new();
    let mut nonempty = false;
    let mut i: usize = 0;
    assert(joins@.take(0) =~= Seq::<(&str, &str, &str)>::empty());
    while i < joins.len()
        invariant
            i <= joins@.len(),
            acc@ == join_spec(join_items(joins@.take(i as int), schema@, table@, pk_col@), " "@),
            nonempty == (i > 0),
            join_items(joins@.take(i as int), schema@, table@, pk_col@).len() == i,
        decreases joins.len() - i,
    {
        let (vs, vt, fk) = joins[i];
        let mut c = String::new();
        push_str(&mut c, "LEFT JOIN ");
        push_str(&mut c, vs);
        push_str(&mut c, ".");
        push_str(&mut c, vt);
        push_str(&mut c, " ON ");
        push_str(&mut c, schema);
        push_str(&mut c, ".");
        push_str(&mut c, table);
        push_str(&mut c, ".");
        push_str(&mut c, pk_col);
        push_str(&mut c, " = ");
        push_str(&mut c, vs);
        push_str(&mut c, ".");
        push_str(&mut c, vt);
        push_str(&mut c, ".");
        push_str(&mut c, fk);
        assert(joins@.take(i + 1).drop_last() =~= joins@.take(i as int));
        assert(joins@.take(i + 1).last() == joins@[i as int]);
        assert(c@ =~= join_clause(joins@[i as int], schema@, table@, pk_col@));
        join_push(&mut acc, nonempty, " ", c.as_str(), Ghost(join_items(joins@.take(i as int), schema@, table@, pk_col@)));
        nonempty = true;
        i += 1;
    }
    assert(joins@.take(i as int) =~= joins@);
    let mut r = String::new();
    push_str(&mut r, schema);
    push_str(&mut r, ".");
    push_str(&mut r, table);
    if joins.len() > 0 {
        push_str(&mut r, " ");
        push_str(&mut r, acc.as_str());
    }
    r
}

fn where_clause(schema: &str, table: &str, pk: &PrimaryKey) -> (r: String)
    ensures
        r@ == where_spec(schema@, table@, *pk),
{
    let mut r = String::new();
    match pk {
        PrimaryKey::Single(c) => {
            push_str(&mut r, "WHERE ");
            push_str(&mut r, schema);
            push_str(&mut r, ".");
            push_str(&mut r, table);
            push_str(&mut r, ".");
            push_str(&mut r, c.as_str());
            push_str(&mut r, " = ANY($1) ORDER BY ");
            push_str(&mut r, schema);
            push_str(&mut r, ".");
            push_str(&mut r, table);
            push_str(&mut r, ".");
            push_str(&mut r, c.as_str());
            push_str(&mut r, " ASC");
        },
        PrimaryKey::Composite => {
            push_str(&mut r, "WHERE 1=1 /* PK composite: adapter */");
        },
    }
    r
}


// ---------------------------------------------------------------------------
// Text of the stub
// ---------------------------------------------------------------------------

pub open spec fn caps_spec(scr: Seq<char>, st: nat, dy: nat) -> Seq<char> {
    "pub const "@ + scr + "_STATIC_CAP:  usize = "@ + decimal(st) + ";\n"@ + "pub const "@ + scr
        + "_DYNAMIC_CAP: usize = "@ + decimal(dy) + ";\n"@ + "pub const "@ + scr
        + "_TOTAL_CAP:   usize = "@ + decimal(st + dy) + ";\n"@
}

/// Static bytes of the resolved template (0 without one).
pub open spec fn render_static(render: Option<(&str, &TemplateMetrics)>) -> nat {
    match render {
        Some((_, m)) => m.total_static_bytes as nat,
        None => 0,
    }
}

/// Dynamic bytes of the resolved template (0 without one).
pub open spec fn render_dynamic(render: Option<(&str, &TemplateMetrics)>) -> nat {
    match render {
        Some((_, m)) => m.total_dynamic_bytes as nat,
        None => 0,
    }
}

/// The generated body of `render` (empty without a template).
pub open spec fn render_body(render: Option<(&str, &TemplateMetrics)>) -> Seq<char> {
    match render {
        Some((b, _)) => b@,
        None => Seq::empty(),
    }
}

pub open spec fn store_decl(scr: Seq<char>, proj: Seq<char>) -> Seq<char> {
    ln(
        "static "@ + scr + "_STORE: marius_projection::StoreRegistry<"@ + proj
            + "> = marius_projection::StoreRegistry::new();"@,
    ) + "\n"@
}

pub open spec fn impl_open(stem: Seq<char>, proj: Seq<char>, no_varlena: bool) -> Seq<char> {
    let vo = if no_varlena {
        "()"@
    } else {
        stem + "VarlenOwned"@
    };
    ln("// Phase 2 AOT : _pool ignoré — lecture via StoreRegistry<PackfileReader>."@) + ln(
        "// RLS         : voir 09_rls/01_policies.sql"@,
    ) + ln("impl crate::projection::Projection for "@ + proj + " {"@) + ln(
        "    type Record = "@ + stem + "StorageRow;"@,
    ) + ln("    type VarlenOwned = "@ + vo + ";"@) + "\n"@
}

pub open spec fn head_spec(stem: Seq<char>, scr: Seq<char>, no_varlena: bool, st: nat, dy: nat) -> Seq<char> {
    let proj = stem + "Projection"@;
    ln("pub struct "@ + proj + ";"@) + "\n"@ + ln(caps_spec(scr, st, dy)) + store_decl(scr, proj)
        + impl_open(stem, proj, no_varlena)
}

fn push_caps(out: &mut String, scr: &str, st: usize, dy: usize)
    requires
        st + dy <= usize::MAX,
    ensures
        final(out)@ == old(out)@ + ln(caps_spec(scr@, st as nat, dy as nat)),
{
    push_str(out, "pub const ");
    push_str(out, scr);
    push_str(out, "_STATIC_CAP:  usize = ");
    push_usize(out, st);
    push_str(out, ";\n");
    push_str(out, "pub const ");
    push_str(out, scr);
    push_str(out, "_DYNAMIC_CAP: usize = ");
    push_usize(out, dy);
    push_str(out, ";\n");
    push_str(out, "pub const ");
    push_str(out, scr);
    push_str(out, "_TOTAL_CAP:   usize = ");
    push_usize(out, st + dy);
    push_str(out, ";\n");
    push_str(out, "\n");
    assert(out@ =~= old(out)@ + ln(caps_spec(scr@, st as nat, dy as nat)));
}

#[verifier::rlimit(40)]
fn push_impl_open(out: &mut String, stem: &str, no_varlena: bool)
    ensures
        final(out)@ == old(out)@ + impl_open(stem@, stem@ + "Projection"@, no_varlena),
{
    push_ln(out, "// Phase 2 AOT : _pool ignoré — lecture via StoreRegistry<PackfileReader>.");
    push_ln(out, "// RLS         : voir 09_rls/01_policies.sql");
    push_str(out, "impl crate::projection::Projection for ");
    push_str(out, stem);
    push_str(out, "Projection");
    push_ln(out, " {");
    push_str(out, "    type Record = ");
    push_str(out, stem);
    push_ln(out, "StorageRow;");
    push_str(out, "    type VarlenOwned = ");
    if no_varlena {
        push_str(out, "()");
    } else {
        push_str(out, stem);
        push_str(out, "VarlenOwned");
    }
    push_ln(out, ";");
    push_str(out, "\n");
    assert(out@ =~= old(out)@ + impl_open(stem@, stem@ + "Projection"@, no_varlena));
}

#[verifier::rlimit(40)]
fn push_head(out: &mut String, stem: &str, scr: &str, no_varlena: bool, st: usize, dy: usize)
    requires
        st + dy <= usize::MAX,
    ensures
        final(out)@ == old(out)@ + head_spec(stem@, scr@, no_varlena, st as nat, dy as nat),
{
    let ghost proj = stem@ + "Projection"@;
    push_str(out, "pub struct ");
    push_str(out, stem);
    push_str(out, "Projection");
    push_ln(out, ";");
    push_str(out, "\n");
    let ghost a = out@;
    assert(a =~= old(out)@ + ln("pub struct "@ + proj + ";"@) + "\n"@);
    push_caps(out, scr, st, dy);
    let ghost b = out@;
    push_str(out, "static ");
    push_str(out, scr);
    push_str(out, "_STORE: marius_projection::StoreRegistry<");
    push_str(out, stem);
    push_str(out, "Projection");
    push_ln(out, "> = marius_projection::StoreRegistry::new();");
    push_str(out, "\n");
    assert(out@ =~= b + store_decl(scr@, proj));
    let ghost c = out@;
    push_impl_open(out, stem, no_varlena);
    assert(out@ =~= old(out)@ + head_spec(stem@, scr@, no_varlena, st as nat, dy as nat));
}

pub open spec fn fetch_sig() -> Seq<char> {
    ln("    ) -> Result<Vec<(Self::Record, Self::VarlenOwned)>, sqlx::Error> {"@)
}

pub open spec fn todo_line(schema: Seq<char>, table: Seq<char>) -> Seq<char> {
    ln("        todo!(\"DB-Forge: aucune colonne fixed-length pour "@ + schema + "."@ + table + "\")"@)
}

/// One owned value per joined varlena field, taken from the store's views.
pub open spec fn vref_lines(varlena: Seq<VarlenField>) -> Seq<char>
    decreases varlena.len(),
{
    if varlena.len() == 0 {
        Seq::empty()
    } else {
        vref_lines(varlena.drop_last()) + ln(
            "                    "@ + varlena.last().name@ + ": _vrefs.get("@ + decimal(
                (varlena.len() - 1) as nat,
            ) + ").map(str::to_owned),"@,
        )
    }
}

/// What one id found in the store adds to the batch.
pub open spec fn batch_entry(stem: Seq<char>, varlena: Seq<VarlenField>) -> Seq<char> {
    if varlena.len() == 0 {
        ln("                batch.push((*record, ()));"@)
    } else {
        ln("                let owned = "@ + stem + "VarlenOwned {"@) + vref_lines(varlena) + ln(
            "                };"@,
        ) + ln("                batch.push((*record, owned));"@)
    }
}

pub open spec fn batch_body(stem: Seq<char>, scr: Seq<char>, varlena: Seq<VarlenField>) -> Seq<char> {
    ln("        let reader = "@ + scr + "_STORE.load();"@) + "\n"@ + ln(
        "        let mut batch = Vec::with_capacity(ids.len());"@,
    ) + ln("        for &id in ids {"@) + ln("            if let Some((record, _vrefs)) = reader.lookup(id) {"@)
        + batch_entry(stem, varlena) + ln("            }"@) + ln("        }"@) + ln("        Ok(batch)"@)
}

pub open spec fn fetch_batch_spec(
    schema: Seq<char>,
    table: Seq<char>,
    stem: Seq<char>,
    scr: Seq<char>,
    columns: Seq<Column>,
    varlena: Seq<VarlenField>,
) -> Seq<char> {
    ln("    async fn fetch_batch("@) + ln("        _pool: &sqlx::PgPool,"@) + ln("        ids:   &[i64],"@)
        + fetch_sig() + if first_fixed_name(columns) is None {
        todo_line(schema, table)
    } else {
        batch_body(stem, scr, varlena)
    } + ln("    }"@) + "\n"@
}

fn push_todo(out: &mut String, schema: &str, table: &str)
    ensures
        final(out)@ == old(out)@ + todo_line(schema@, table@),
{
    push_str(out, "        todo!(\"DB-Forge: aucune colonne fixed-length pour ");
    push_str(out, schema);
    push_str(out, ".");
    push_str(out, table);
    push_ln(out, "\")");
    assert(out@ =~= old(out)@ + todo_line(schema@, table@));
}

fn push_vref_lines(out: &mut String, varlena: &[VarlenField])
    ensures
        final(out)@ == old(out)@ + vref_lines(varlena@),
{
    let mut k: usize = 0;
    assert(varlena@.take(0) =~= Seq::<VarlenField>::empty());
    while k < varlena.len()
        invariant
            k <= varlena@.len(),
            out@ == old(out)@ + vref_lines(varlena@.take(k as int)),
        decreases varlena.len() - k,
    {
        push_str(out, "                    ");
        push_str(out, varlena[k].name.as_str());
        push_str(out, ": _vrefs.get(");
        push_usize(out, k);
        push_ln(out, ").map(str::to_owned),");
        assert(varlena@.take(k + 1).drop_last() =~= varlena@.take(k as int));
        assert(varlena@.take(k + 1).last() == varlena@[k as int]);
        assert(out@ =~= old(out)@ + vref_lines(varlena@.take(k + 1)));
        k += 1;
    }
    assert(varlena@.take(k as int) =~= varlena@);
}

fn push_batch_entry(out: &mut String, stem: &str, varlena: &[VarlenField])
    ensures
        final(out)@ == old(out)@ + batch_entry(stem@, varlena@),
{
    if varlena.len() == 0 {
        push_ln(out, "                batch.push((*record, ()));");
    } else {
        push_str(out, "                let owned = ");
        push_str(out, stem);
        push_ln(out, "VarlenOwned {");
        push_vref_lines(out, varlena);
        push_ln(out, "                };");
        push_ln(out, "                batch.push((*record, owned));");
    }
    assert(out@ =~= old(out)@ + batch_entry(stem@, varlena@));
}

fn push_batch_body(out: &mut String, stem: &str, scr: &str, varlena: &[VarlenField])
    ensures
        final(out)@ == old(out)@ + batch_body(stem@, scr@, varlena@),
{
    push_str(out, "        let reader = ");
    push_str(out, scr);
    push_ln(out, "_STORE.load();");
    push_str(out, "\n");
    push_ln(out, "        let mut batch = Vec::with_capacity(ids.len());");
    push_ln(out, "        for &id in ids {");
    push_ln(out, "            if let Some((record, _vrefs)) = reader.lookup(id) {");
    push_batch_entry(out, stem, varlena);
    push_ln(out, "            }");
    push_ln(out, "        }");
    push_ln(out, "        Ok(batch)");
    assert(out@ =~= old(out)@ + batch_body(stem@, scr@, varlena@));
}

fn push_fetch_batch(
    out: &mut String,
    schema: &str,
    table: &str,
    stem: &str,
    scr: &str,
    has_fixed: bool,
    columns: &[Column],
    varlena: &[VarlenField],
)
    requires
        has_fixed == (first_fixed_name(columns@) is Some),
    ensures
        final(out)@ == old(out)@ + fetch_batch_spec(schema@, table@, stem@, scr@, columns@, varlena@),
{
    push_ln(out, "    async fn fetch_batch(");
    push_ln(out, "        _pool: &sqlx::PgPool,");
    push_ln(out, "        ids:   &[i64],");
    push_ln(out, "    ) -> Result<Vec<(Self::Record, Self::VarlenOwned)>, sqlx::Error> {");
    if has_fixed {
        push_batch_body(out, stem, scr, varlena);
    } else {
        push_todo(out, schema, table);
    }
    push_ln(out, "    }");
    push_str(out, "\n");
    assert(out@ =~= old(out)@ + fetch_batch_spec(schema@, table@, stem@, scr@, columns@, varlena@));
}


/// Pattern bindings of the fixed-length columns.
pub open spec fn fixed_bindings(columns: Seq<Column>) -> Seq<char>
    decreases columns.len(),
{
    if columns.len() == 0 {
        Seq::empty()
    } else {
        fixed_bindings(columns.drop_last()) + if map_type_spec(columns.last().sql_type@).is_fixed {
            ln("                "@ + columns.last().name@ + ","@)
        } else {
            Seq::empty()
        }
    }
}

/// Bindings (or shorthand fields) of the joined varlena fields.
pub open spec fn var_bindings(varlena: Seq<VarlenField>) -> Seq<char>
    decreases varlena.len(),
{
    if varlena.len() == 0 {
        Seq::empty()
    } else {
        var_bindings(varlena.drop_last()) + ln("                "@ + varlena.last().name@ + ","@)
    }
}

pub open spec fn destructure_part(stem: Seq<char>, columns: Seq<Column>, varlena: Seq<VarlenField>) -> Seq<char> {
    ln("        Ok(rows.into_iter().map(|r| {"@) + ln("            let "@ + stem + "Row {"@) + fixed_bindings(columns)
        + var_bindings(varlena) + ln("                .."@) + ln("            } = r;"@)
}

pub open spec fn owned_part(stem: Seq<char>, varlena: Seq<VarlenField>) -> Seq<char> {
    ln("            let owned = "@ + stem + "VarlenOwned {"@) + var_bindings(varlena) + ln("            };"@)
}

pub open spec fn storage_part(stem: Seq<char>, columns: Seq<Column>) -> Seq<char> {
    ln("            let storage = "@ + stem + "StorageRow {"@) + storage_inits("                "@, ""@, columns)
        + pad_init("                "@, columns) + ln("            };"@)
}

/// Conversion of the decoded rows: through `From` without varlena, else by
/// destructuring each row into its storage row and its owned varlena.
pub open spec fn pg_map_body(stem: Seq<char>, columns: Seq<Column>, varlena: Seq<VarlenField>) -> Seq<char> {
    if varlena.len() == 0 {
        ln("        Ok(rows.into_iter().map(|r| ("@ + stem + "StorageRow::from(r), ())).collect())"@)
    } else {
        destructure_part(stem, columns, varlena) + owned_part(stem, varlena) + storage_part(stem, columns)
            + ln("            (storage, owned)"@) + ln("        }).collect())"@)
    }
}

pub open spec fn sql_line(select: Seq<char>, from: Seq<char>, where_: Seq<char>) -> Seq<char> {
    ln("            \"SELECT "@ + select + " FROM "@ + from + " "@ + where_ + "\","@)
}

pub open spec fn pg_body(
    stem: Seq<char>,
    select: Seq<char>,
    from: Seq<char>,
    where_: Seq<char>,
    columns: Seq<Column>,
    varlena: Seq<VarlenField>,
) -> Seq<char> {
    ln("        let rows = sqlx::query_as::<_, "@ + stem + "Row>("@) + sql_line(select, from, where_) + ln(
        "        )"@,
    ) + ln("        .bind(ids)"@) + ln("        .fetch_all(pool)"@) + ln("        .await?;"@) + pg_map_body(
        stem,
        columns,
        varlena,
    )
}

pub open spec fn fetch_pg_spec(
    schema: Seq<char>,
    table: Seq<char>,
    stem: Seq<char>,
    select: Seq<char>,
    from: Seq<char>,
    where_: Seq<char>,
    columns: Seq<Column>,
    varlena: Seq<VarlenField>,
) -> Seq<char> {
    ln("    async fn fetch_from_pg("@) + ln("        pool: &sqlx::PgPool,"@) + ln("        ids:  &[i64],"@)
        + fetch_sig() + if first_fixed_name(columns) is None {
        todo_line(schema, table)
    } else {
        pg_body(stem, select, from, where_, columns, varlena)
    } + ln("    }"@) + "\n"@
}

fn push_fixed_bindings(out: &mut String, columns: &[Column])
    ensures
        final(out)@ == old(out)@ + fixed_bindings(columns@),
{
    let mut i: usize = 0;
    assert(columns@.take(0) =~= Seq::<Column>::empty());
    while i < columns.len()
        invariant
            i <= columns@.len(),
            out@ == old(out)@ + fixed_bindings(columns@.take(i as int)),
        decreases columns.len() - i,
    {
        assert(columns@.take(i + 1).drop_last() =~= columns@.take(i as int));
        assert(columns@.take(i + 1).last() == columns@[i as int]);
        let m = map_type(columns[i].sql_type.as_str());
        if m.is_fixed {
            push_str(out, "                ");
            push_str(out, columns[i].name.as_str());
            push_ln(out, ",");
        }
        assert(out@ =~= old(out)@ + fixed_bindings(columns@.take(i + 1)));
        i += 1;
    }
    assert(columns@.take(i as int) =~= columns@);
}

fn push_var_bindings(out: &mut String, varlena: &[VarlenField])
    ensures
        final(out)@ == old(out)@ + var_bindings(varlena@),
{
    let mut k: usize = 0;
    assert(varlena@.take(0) =~= Seq::<VarlenField>::empty());
    while k < varlena.len()
        invariant
            k <= varlena@.len(),
            out@ == old(out)@ + var_bindings(varlena@.take(k as int)),
        decreases varlena.len() - k,
    {
        push_str(out, "                ");
        push_str(out, varlena[k].name.as_str());
        push_ln(out, ",");
        assert(varlena@.take(k + 1).drop_last() =~= varlena@.take(k as int));
        assert(varlena@.take(k + 1).last() == varlena@[k as int]);
        assert(out@ =~= old(out)@ + var_bindings(varlena@.take(k + 1)));
        k += 1;
    }
    assert(varlena@.take(k as int) =~= varlena@);
}

fn push_destructure_part(out: &mut String, stem: &str, columns: &[Column], varlena: &[VarlenField])
    ensures
        final(out)@ == old(out)@ + destructure_part(stem@, columns@, varlena@),
{
    push_ln(out, "        Ok(rows.into_iter().map(|r| {");
    push_str(out, "            let ");
    push_str(out, stem);
    push_ln(out, "Row {");
    let ghost a = out@;
    push_fixed_bindings(out, columns);
    push_var_bindings(out, varlena);
    push_ln(out, "                ..");
    push_ln(out, "            } = r;");
    assert(out@ =~= old(out)@ + destructure_part(stem@, columns@, varlena@));
}

fn push_owned_part(out: &mut String, stem: &str, varlena: &[VarlenField])
    ensures
        final(out)@ == old(out)@ + owned_part(stem@, varlena@),
{
    push_str(out, "            let owned = ");
    push_str(out, stem);
    push_ln(out, "VarlenOwned {");
    push_var_bindings(out, varlena);
    push_ln(out, "            };");
    assert(out@ =~= old(out)@ + owned_part(stem@, varlena@));
}

fn push_storage_part(out: &mut String, stem: &str, columns: &[Column])
    requires
        columns@.len() <= usize::MAX / 64,
    ensures
        final(out)@ == old(out)@ + storage_part(stem@, columns@),
{
    push_str(out, "            let storage = ");
    push_str(out, stem);
    push_ln(out, "StorageRow {");
    push_storage_inits(out, "                ", "", columns);
    push_ln(out, "            };");
    assert(out@ =~= old(out)@ + storage_part(stem@, columns@));
}

fn push_pg_map_body(out: &mut String, stem: &str, columns: &[Column], varlena: &[VarlenField])
    requires
        columns@.len() <= usize::MAX / 64,
    ensures
        final(out)@ == old(out)@ + pg_map_body(stem@, columns@, varlena@),
{
    if varlena.len() == 0 {
        push_str(out, "        Ok(rows.into_iter().map(|r| (");
        push_str(out, stem);
        push_ln(out, "StorageRow::from(r), ())).collect())");
        assert(out@ =~= old(out)@ + pg_map_body(stem@, columns@, varlena@));
    } else {
        push_destructure_part(out, stem, columns, varlena);
        push_owned_part(out, stem, varlena);
        push_storage_part(out, stem, columns);
        push_ln(out, "            (storage, owned)");
        push_ln(out, "        }).collect())");
        assert(out@ =~= old(out)@ + pg_map_body(stem@, columns@, varlena@));
    }
}

#[verifier::rlimit(100)]
#[verifier::spinoff_prover]
fn push_fetch_pg(
    out: &mut String,
    schema: &str,
    table: &str,
    stem: &str,
    select: &str,
    from: &str,
    where_: &str,
    has_fixed: bool,
    columns: &[Column],
    varlena: &[VarlenField],
)
    requires
        has_fixed == (first_fixed_name(columns@) is Some),
        columns@.len() <= usize::MAX / 64,
    ensures
        final(out)@ == old(out)@ + fetch_pg_spec(
            schema@,
            table@,
            stem@,
            select@,
            from@,
            where_@,
            columns@,
            varlena@,
        ),
{
    push_ln(out, "    async fn fetch_from_pg(");
    push_ln(out, "        pool: &sqlx::PgPool,");
    push_ln(out, "        ids:  &[i64],");
    push_ln(out, "    ) -> Result<Vec<(Self::Record, Self::VarlenOwned)>, sqlx::Error> {");
    let ghost a = out@;
    if has_fixed {
        push_str(out, "        let rows = sqlx::query_as::<_, ");
        push_str(out, stem);
        push_ln(out, "Row>(");
        push_str(out, "            \"SELECT ");
        push_str(out, select);
        push_str(out, " FROM ");
        push_str(out, from);
        push_str(out, " ");
        push_str(out, where_);
        push_ln(out, "\",");
        push_ln(out, "        )");
        push_ln(out, "        .bind(ids)");
        push_ln(out, "        .fetch_all(pool)");
        push_ln(out, "        .await?;");
        let ghost b = out@;
        push_pg_map_body(out, stem, columns, varlena);
        assert(out@ =~= a + pg_body(stem@, select@, from@, where_@, columns@, varlena@));
    } else {
        push_todo(out, schema, table);
    }
    push_ln(out, "    }");
    push_str(out, "\n");
    assert(out@ =~= old(out)@ + fetch_pg_spec(
        schema@,
        table@,
        stem@,
        select@,
        from@,
        where_@,
        columns@,
        varlena@,
    ));
}


// ---------------------------------------------------------------------------
// render / render_segments
// ---------------------------------------------------------------------------

/// A line without the `\r` of a `\r\n` ending.
pub open spec fn strip_cr(line: Seq<char>) -> Seq<char> {
    if line.len() > 0 && line.last() == '\r' {
        line.drop_last()
    } else {
        line
    }
}

/// The lines of `s` from index `from` (as `str::lines` splits them: at
/// `\n` or `\r\n`, the last ending optional), each indented by four spaces
/// and ended by a newline.
pub open spec fn indented_from(s: Seq<char>, from: int) -> Seq<char>
    decreases s.len() - from,
{
    if from < 0 || from >= s.len() {
        Seq::empty()
    } else {
        match find_char_from(s, '\n', from) {
            Some(i) => if from <= i < s.len() {
                ln("    "@ + strip_cr(s.subrange(from, i))) + indented_from(s, i + 1)
            } else {
                Seq::empty()
            },
            None => ln("    "@ + s.subrange(from, s.len() as int)),
        }
    }
}

/// Appends `cs[from..to]`.
fn push_range(out: &mut String, cs: &[char], from: usize, to: usize)
    requires
        from <= to <= cs@.len(),
    ensures
        final(out)@ == old(out)@ + cs@.subrange(from as int, to as int),
{
    let mut i = from;
    while i < to
        invariant
            from <= i <= to <= cs@.len(),
            out@ == old(out)@ + cs@.subrange(from as int, i as int),
        decreases to - i,
    {
        push_char(out, cs[i]);
        assert(cs@.subrange(from as int, i + 1) =~= cs@.subrange(from as int, i as int).push(cs@[i as int]));
        i += 1;
    }
}

/// Writes every line of `body`, indented by four spaces.
fn push_indented_lines(out: &mut String, body: &str)
    ensures
        final(out)@ == old(out)@ + indented_from(body@, 0),
{
    let cs = chars_of(body);
    let mut pos: usize = 0;
    while pos < cs.len()
        invariant
            cs@ == body@,
            pos <= cs@.len(),
            old(out)@ + indented_from(body@, 0) == out@ + indented_from(body@, pos as int),
        decreases cs.len() - pos,
    {
        let ghost before = out@;
        match find_char_exec(cs.as_slice(), '\n', pos) {
            Some(i) => {
                let mut end = i;
                if i > pos && cs[i - 1] == '\r' {
                    end = i - 1;
                }
                assert(strip_cr(body@.subrange(pos as int, i as int)) =~= body@.subrange(pos as int, end as int));
                push_str(out, "    ");
                push_range(out, cs.as_slice(), pos, end);
                push_str(out, "\n");
                assert(out@ =~= before + ln("    "@ + strip_cr(body@.subrange(pos as int, i as int))));
                pos = i + 1;
            },
            None => {
                push_str(out, "    ");
                push_range(out, cs.as_slice(), pos, cs.len());
                push_str(out, "\n");
                assert(out@ =~= before + ln("    "@ + body@.subrange(pos as int, body@.len() as int)));
                pos = cs.len();
            },
        }
    }
}

/// Number of fields rendered as segments of their own.
pub open spec fn segment_count(varlena: Seq<VarlenField>) -> nat
    decreases varlena.len(),
{
    if varlena.len() == 0 {
        0
    } else {
        segment_count(varlena.drop_last()) + if varlena.last().is_segment {
            1nat
        } else {
            0nat
        }
    }
}

fn count_segments(varlena: &[VarlenField]) -> (r: usize)
    ensures
        r == segment_count(varlena@),
        r <= varlena@.len(),
{
    let mut n: usize = 0;
    let mut k: usize = 0;
    assert(varlena@.take(0) =~= Seq::<VarlenField>::empty());
    while k < varlena.len()
        invariant
            k <= varlena@.len(),
            n == segment_count(varlena@.take(k as int)),
            n <= k,
        decreases varlena.len() - k,
    {
        assert(varlena@.take(k + 1).drop_last() =~= varlena@.take(k as int));
        assert(varlena@.take(k + 1).last() == varlena@[k as int]);
        if varlena[k].is_segment {
            n += 1;
        }
        k += 1;
    }
    assert(varlena@.take(k as int) =~= varlena@);
    n
}

/// The varlena parameter of `render`: named only when a real body reads it.
pub open spec fn varlena_param(stem: Seq<char>, varlena: Seq<VarlenField>, is_real: bool) -> Seq<char> {
    if varlena.len() == 0 {
        "_varlena: &()"@
    } else if segment_count(varlena) > 0 {
        "_varlena: &"@ + stem + "VarlenOwned"@
    } else if is_real {
        "varlena: &"@ + stem + "VarlenOwned"@
    } else {
        "_varlena: &"@ + stem + "VarlenOwned"@
    }
}

pub open spec fn render_comment() -> Seq<char> {
    ln("    // Nesting inévitable, cosmétique : composition indépendante d'un"@) + ln(
        "    // bloc {% if %} du template et du if let Some(s) systématique émis"@,
    ) + ln("    // pour tout champ varlena — fusionner algorithmiquement les deux"@) + ln(
        "    // ajouterait de la complexité réelle à l'émetteur pour un gain"@,
    ) + ln("    // purement esthétique (session du 23/07/2026)."@) + ln("    #[allow(clippy::collapsible_if)]"@)
}

/// The body of `render`: unreachable for a segmented component, empty
/// without a template, else the reservation and the generated body.
pub open spec fn render_inner(stem: Seq<char>, scr: Seq<char>, segmented: bool, body: Seq<char>) -> Seq<char> {
    if segmented {
        ln("        let _ = (record, buf);"@) + ln(
            "        unreachable!(\""@ + stem
                + "Projection::render() ne devrait jamais être appelée — composant segmenté, BatchRenderer appelle toujours render_segments().\");"@,
        )
    } else if body.len() == 0 {
        ln("        let _ = (record, buf);"@)
    } else {
        ln("        buf.reserve("@ + scr + "_TOTAL_CAP);"@) + indented_from(body, 0)
    }
}

pub open spec fn render_fn_spec(
    stem: Seq<char>,
    scr: Seq<char>,
    varlena: Seq<VarlenField>,
    is_real: bool,
    body: Seq<char>,
) -> Seq<char> {
    render_comment() + ln(
        "    fn render(record: &Self::Record, "@ + varlena_param(stem, varlena, is_real) + ", buf: &mut String) {"@,
    ) + render_inner(stem, scr, segment_count(varlena) > 0, body) + ln("    }"@) + "\n"@
}

/// `render_segments` of a segmented component (nothing otherwise).
pub open spec fn segments_spec(stem: Seq<char>, scr: Seq<char>, count: nat, body: Seq<char>) -> Seq<char> {
    if count > 0 {
        ln("    const MAX_SEGMENTS: usize = "@ + decimal(2 * count + 1) + ";"@) + "\n"@ + ln(
            "    #[allow(clippy::collapsible_if)]"@,
        ) + ln(
            "    fn render_segments<'seg>(record: &Self::Record, varlena: &'seg "@ + stem
                + "VarlenOwned, buf: &mut String, segments: &mut Vec<marius_projection::Segment<'seg>>) {"@,
        ) + ln("        buf.reserve("@ + scr + "_TOTAL_CAP);"@) + indented_from(body, 0) + ln("    }"@) + "\n"@
    } else {
        Seq::empty()
    }
}

fn push_render_comment(out: &mut String)
    ensures
        final(out)@ == old(out)@ + render_comment(),
{
    push_ln(out, "    // Nesting inévitable, cosmétique : composition indépendante d'un");
    push_ln(out, "    // bloc {% if %} du template et du if let Some(s) systématique émis");
    push_ln(out, "    // pour tout champ varlena — fusionner algorithmiquement les deux");
    push_ln(out, "    // ajouterait de la complexité réelle à l'émetteur pour un gain");
    push_ln(out, "    // purement esthétique (session du 23/07/2026).");
    push_ln(out, "    #[allow(clippy::collapsible_if)]");
    assert(out@ =~= old(out)@ + render_comment());
}

fn push_render_inner(out: &mut String, stem: &str, scr: &str, segments: usize, body: &str, body_empty: bool)
    requires
        body_empty == (body@.len() == 0),
    ensures
        final(out)@ == old(out)@ + render_inner(stem@, scr@, segments > 0, body@),
{
    if segments > 0 {
        push_ln(out, "        let _ = (record, buf);");
        push_str(out, "        unreachable!(\"");
        push_str(out, stem);
        push_ln(
            out,
            "Projection::render() ne devrait jamais être appelée — composant segmenté, BatchRenderer appelle toujours render_segments().\");",
        );
    } else if body_empty {
        push_ln(out, "        let _ = (record, buf);");
    } else {
        push_str(out, "        buf.reserve(");
        push_str(out, scr);
        push_ln(out, "_TOTAL_CAP);");
        push_indented_lines(out, body);
    }
    assert(out@ =~= old(out)@ + render_inner(stem@, scr@, segments > 0, body@));
}


fn push_render(
    out: &mut String,
    stem: &str,
    scr: &str,
    varlena: &[VarlenField],
    segments: usize,
    is_real: bool,
    body: &str,
    body_empty: bool,
)
    requires
        segments == segment_count(varlena@),
        body_empty == (body@.len() == 0),
    ensures
        final(out)@ == old(out)@ + render_fn_spec(stem@, scr@, varlena@, is_real, body@),
{
    push_render_comment(out);
    let ghost a = out@;
    push_str(out, "    fn render(record: &Self::Record, ");
    if varlena.len() == 0 {
        push_str(out, "_varlena: &()");
    } else if segments > 0 {
        push_str(out, "_varlena: &");
        push_str(out, stem);
        push_str(out, "VarlenOwned");
    } else if is_real {
        push_str(out, "varlena: &");
        push_str(out, stem);
        push_str(out, "VarlenOwned");
    } else {
        push_str(out, "_varlena: &");
        push_str(out, stem);
        push_str(out, "VarlenOwned");
    }
    push_ln(out, ", buf: &mut String) {");
    assert(out@ =~= a + ln(
        "    fn render(record: &Self::Record, "@ + varlena_param(stem@, varlena@, is_real) + ", buf: &mut String) {"@,
    ));
    push_render_inner(out, stem, scr, segments, body, body_empty);
    push_ln(out, "    }");
    push_str(out, "\n");
    assert(out@ =~= old(out)@ + render_fn_spec(stem@, scr@, varlena@, is_real, body@));
}

fn push_segments(out: &mut String, stem: &str, scr: &str, segments: usize, body: &str)
    requires
        2 * segments + 1 <= usize::MAX,
    ensures
        final(out)@ == old(out)@ + segments_spec(stem@, scr@, segments as nat, body@),
{
    if segments > 0 {
        push_str(out, "    const MAX_SEGMENTS: usize = ");
        push_usize(out, 2 * segments + 1);
        push_ln(out, ";");
        push_str(out, "\n");
        push_ln(out, "    #[allow(clippy::collapsible_if)]");
        push_str(out, "    fn render_segments<'seg>(record: &Self::Record, varlena: &'seg ");
        push_str(out, stem);
        push_ln(out, "VarlenOwned, buf: &mut String, segments: &mut Vec<marius_projection::Segment<'seg>>) {");
        push_str(out, "        buf.reserve(");
        push_str(out, scr);
        push_ln(out, "_TOTAL_CAP);");
        push_indented_lines(out, body);
        push_ln(out, "    }");
        push_str(out, "\n");
    }
    assert(out@ =~= old(out)@ + segments_spec(stem@, scr@, segments as nat, body@));
}


// ---------------------------------------------------------------------------
// record_id, paths, registry, varlena encoding
// ---------------------------------------------------------------------------

/// Storage type of the first column named `name`.
pub open spec fn store_type_of(columns: Seq<Column>, name: Seq<char>) -> Seq<char> {
    match find_column(columns, name) {
        Some(k) => map_type_spec(columns[k].sql_type@).store_type,
        None => Seq::empty(),
    }
}

/// `record_id`: the key field, cast to `i64` unless it is stored as one.
pub open spec fn record_id_spec(columns: Seq<Column>, pk_col: Seq<char>) -> Seq<char> {
    let expr = if store_type_of(columns, pk_col) == "i64"@ {
        "record."@ + pk_col
    } else {
        "record."@ + pk_col + " as i64"@
    };
    ln("    #[inline(always)]"@) + ln("    fn record_id(record: &Self::Record) -> i64 {"@) + ln("        "@ + expr)
        + ln("    }"@) + "\n"@
}

proof fn lemma_find_column_none(own: Seq<Column>, name: Seq<char>)
    requires
        forall|j: int| 0 <= j < own.len() ==> own[j].name@ != name,
    ensures
        find_column(own, name) is None,
    decreases own.len(),
{
    if own.len() > 0 {
        lemma_find_column_none(own.drop_last(), name);
    }
}

proof fn lemma_find_column_at(own: Seq<Column>, name: Seq<char>, i: int)
    requires
        0 <= i < own.len(),
        own[i].name@ == name,
        forall|j: int| 0 <= j < i ==> own[j].name@ != name,
    ensures
        find_column(own, name) == Some(i),
    decreases own.len(),
{
    if own.len() - 1 > i {
        lemma_find_column_at(own.drop_last(), name, i);
    } else {
        lemma_find_column_none(own.drop_last(), name);
    }
}

/// Index of the first column named `name`, which exists.
fn first_column_named(columns: &[Column], name: &str) -> (r: usize)
    requires
        exists|k: int| 0 <= k < columns@.len() && #[trigger] columns@[k].name@ == name@,
    ensures
        find_column(columns@, name@) == Some(r as int),
        r < columns@.len(),
{
    let mut i: usize = 0;
    while i < columns.len()
        invariant
            i <= columns@.len(),
            forall|j: int| 0 <= j < i ==> columns@[j].name@ != name@,
        decreases columns.len() - i,
    {
        if str_eq(columns[i].name.as_str(), name) {
            proof {
                lemma_find_column_at(columns@, name@, i as int);
            }
            return i;
        }
        i += 1;
    }
    assert(false);
    0
}

fn push_record_id(out: &mut String, columns: &[Column], pk_col: &str)
    requires
        exists|k: int| 0 <= k < columns@.len() && #[trigger] columns@[k].name@ == pk_col@,
    ensures
        final(out)@ == old(out)@ + record_id_spec(columns@, pk_col@),
{
    let k = first_column_named(columns, pk_col);
    let m = map_type(columns[k].sql_type.as_str());
    push_ln(out, "    #[inline(always)]");
    push_ln(out, "    fn record_id(record: &Self::Record) -> i64 {");
    push_str(out, "        ");
    push_str(out, "record.");
    push_str(out, pk_col);
    if str_eq(m.store_type, "i64") {
        push_str(out, "\n");
    } else {
        push_ln(out, " as i64");
    }
    push_ln(out, "    }");
    push_str(out, "\n");
    assert(out@ =~= old(out)@ + record_id_spec(columns@, pk_col@));
}

/// A path accessor: `$MARIUS_ARTIFACTS_DIR` (default `artifacts`) joined
/// with `{schema}_{table}{suffix}`.
pub open spec fn path_fn(fname: Seq<char>, schema: Seq<char>, table: Seq<char>, suffix: Seq<char>) -> Seq<char> {
    ln("    fn "@ + fname + "() -> ::std::path::PathBuf {"@) + ln(
        "        let root = std::env::var(\"MARIUS_ARTIFACTS_DIR\")"@,
    ) + ln("            .unwrap_or_else(|_| \"artifacts\".to_string());"@) + ln(
        "        ::std::path::PathBuf::from(format!(\"{root}/"@ + schema + "_"@ + table + suffix,
    ) + ln("    }"@) + "\n"@
}

pub open spec fn accessors_spec(schema: Seq<char>, table: Seq<char>, scr: Seq<char>) -> Seq<char> {
    path_fn("packfile_path"@, schema, table, "_pack.bin\"))"@) + path_fn(
        "store_path"@,
        schema,
        table,
        "_store.bin\"))"@,
    ) + ln("    fn store_registry() -> &'static marius_projection::StoreRegistry<Self> {"@) + ln(
        "        &"@ + scr + "_STORE"@,
    ) + ln("    }"@) + "\n"@
}

fn push_path_fn(out: &mut String, fname: &str, schema: &str, table: &str, suffix: &str)
    ensures
        final(out)@ == old(out)@ + path_fn(fname@, schema@, table@, suffix@),
{
    push_str(out, "    fn ");
    push_str(out, fname);
    push_ln(out, "() -> ::std::path::PathBuf {");
    push_ln(out, "        let root = std::env::var(\"MARIUS_ARTIFACTS_DIR\")");
    push_ln(out, "            .unwrap_or_else(|_| \"artifacts\".to_string());");
    push_str(out, "        ::std::path::PathBuf::from(format!(\"{root}/");
    push_str(out, schema);
    push_str(out, "_");
    push_str(out, table);
    push_ln(out, suffix);
    push_ln(out, "    }");
    push_str(out, "\n");
    assert(out@ =~= old(out)@ + path_fn(fname@, schema@, table@, suffix@));
}

fn push_accessors(out: &mut String, schema: &str, table: &str, scr: &str)
    ensures
        final(out)@ == old(out)@ + accessors_spec(schema@, table@, scr@),
{
    push_path_fn(out, "packfile_path", schema, table, "_pack.bin\"))");
    push_path_fn(out, "store_path", schema, table, "_store.bin\"))");
    push_ln(out, "    fn store_registry() -> &'static marius_projection::StoreRegistry<Self> {");
    push_str(out, "        &");
    push_str(out, scr);
    push_ln(out, "_STORE");
    push_ln(out, "    }");
    push_str(out, "\n");
    assert(out@ =~= old(out)@ + accessors_spec(schema@, table@, scr@));
}

/// One `match` per field: non-empty text goes to the heap with its slot,
/// NULL or empty text gets the sentinel slot.
pub open spec fn encode_field(v: VarlenField) -> Seq<char> {
    ln("        match owned."@ + v.name@ + ".as_deref() {"@) + ln("            Some(s) if !s.is_empty() => {"@)
        + ln("                let offset = heap.len() as u32;"@) + ln("                let len    = s.len() as u32;"@)
        + ln("                heap.extend_from_slice(s.as_bytes());"@) + ln(
        "                toc.push(marius_projection::VarlenSlot { offset, len });"@,
    ) + ln("            }"@) + ln(
        "            _ => toc.push(marius_projection::VarlenSlot { offset: u32::MAX, len: 0 }),"@,
    ) + ln("        }"@)
}

pub open spec fn encode_fields(varlena: Seq<VarlenField>) -> Seq<char>
    decreases varlena.len(),
{
    if varlena.len() == 0 {
        Seq::empty()
    } else {
        encode_fields(varlena.drop_last()) + encode_field(varlena.last())
    }
}

/// `varlena_field_count` and `encode_varlena`, for a component with varlena
/// fields only.
pub open spec fn encode_spec(varlena: Seq<VarlenField>) -> Seq<char> {
    if varlena.len() == 0 {
        Seq::empty()
    } else {
        ln("    #[inline(always)]"@) + ln("    fn varlena_field_count() -> u16 { "@ + decimal(varlena.len()) + " }"@)
            + "\n"@ + ln("    fn encode_varlena("@) + ln("        owned: &Self::VarlenOwned,"@) + ln(
            "        heap:  &mut Vec<u8>,"@,
        ) + ln("        toc:   &mut Vec<marius_projection::VarlenSlot>,"@) + ln("    ) {"@) + encode_fields(
            varlena,
        ) + ln("    }"@)
    }
}

fn push_encode_field(out: &mut String, v: &VarlenField)
    ensures
        final(out)@ == old(out)@ + encode_field(*v),
{
    push_str(out, "        match owned.");
    push_str(out, v.name.as_str());
    push_ln(out, ".as_deref() {");
    push_ln(out, "            Some(s) if !s.is_empty() => {");
    push_ln(out, "                let offset = heap.len() as u32;");
    push_ln(out, "                let len    = s.len() as u32;");
    push_ln(out, "                heap.extend_from_slice(s.as_bytes());");
    push_ln(out, "                toc.push(marius_projection::VarlenSlot { offset, len });");
    push_ln(out, "            }");
    push_ln(out, "            _ => toc.push(marius_projection::VarlenSlot { offset: u32::MAX, len: 0 }),");
    push_ln(out, "        }");
    assert(out@ =~= old(out)@ + encode_field(*v));
}

fn push_encode(out: &mut String, varlena: &[VarlenField])
    ensures
        final(out)@ == old(out)@ + encode_spec(varlena@),
{
    if varlena.len() == 0 {
        assert(out@ =~= old(out)@ + encode_spec(varlena@));
        return;
    }
    push_ln(out, "    #[inline(always)]");
    push_str(out, "    fn varlena_field_count() -> u16 { ");
    push_usize(out, varlena.len());
    push_ln(out, " }");
    push_str(out, "\n");
    push_ln(out, "    fn encode_varlena(");
    push_ln(out, "        owned: &Self::VarlenOwned,");
    push_ln(out, "        heap:  &mut Vec<u8>,");
    push_ln(out, "        toc:   &mut Vec<marius_projection::VarlenSlot>,");
    push_ln(out, "    ) {");
    let ghost start = out@;
    let mut k: usize = 0;
    assert(varlena@.take(0) =~= Seq::<VarlenField>::empty());
    while k < varlena.len()
        invariant
            k <= varlena@.len(),
            out@ == start + encode_fields(varlena@.take(k as int)),
        decreases varlena.len() - k,
    {
        push_encode_field(out, &varlena[k]);
        assert(varlena@.take(k + 1).drop_last() =~= varlena@.take(k as int));
        assert(varlena@.take(k + 1).last() == varlena@[k as int]);
        k += 1;
    }
    assert(varlena@.take(k as int) =~= varlena@);
    push_ln(out, "    }");
    assert(out@ =~= old(out)@ + encode_spec(varlena@));
}

/// The end of the trait impl, then `cold_start_store`, which mounts the
/// store at start-up.
pub open spec fn tail_spec(stem: Seq<char>, scr: Seq<char>) -> Seq<char> {
    let proj = stem + "Projection"@;
    ln("}\n"@) + ln("impl "@ + proj + " {"@) + ln("    pub fn cold_start_store() -> ::std::io::Result<()> {"@)
        + ln("        "@ + scr + "_STORE.cold_start(&"@ + proj + "::store_path())"@) + ln("    }"@) + ln(
        "}\n"@,
    )
}

fn push_tail(out: &mut String, stem: &str, scr: &str)
    ensures
        final(out)@ == old(out)@ + tail_spec(stem@, scr@),
{
    push_ln(out, "}\n");
    push_str(out, "impl ");
    push_str(out, stem);
    push_str(out, "Projection");
    push_ln(out, " {");
    push_ln(out, "    pub fn cold_start_store() -> ::std::io::Result<()> {");
    push_str(out, "        ");
    push_str(out, scr);
    push_str(out, "_STORE.cold_start(&");
    push_str(out, stem);
    push_str(out, "Projection");
    push_ln(out, "::store_path())");
    push_ln(out, "    }");
    push_ln(out, "}\n");
    assert(out@ =~= old(out)@ + tail_spec(stem@, scr@));
}


// ---------------------------------------------------------------------------
// The whole stub
// ---------------------------------------------------------------------------

/// The key column is a fixed-length column whose type has a `FieldKind`
/// (it is among the field specs the renderer knows).
pub open spec fn pk_resolvable(columns: Seq<Column>, pk: PrimaryKey) -> bool {
    exists|k: int|
        #![trigger columns[k]]
        0 <= k < columns.len() && columns[k].name@ == pk_col_spec(columns, pk) && map_type_spec(
            columns[k].sql_type@,
        ).is_fixed && field_kind_for_key(sql_type_key(columns[k].sql_type@)) is Some
}

pub open spec fn projection_stub_spec(
    schema: Seq<char>,
    table: Seq<char>,
    columns: Seq<Column>,
    pk: PrimaryKey,
    varlena: Seq<VarlenField>,
    joins: Seq<(&str, &str, &str)>,
    render: Option<(&str, &TemplateMetrics)>,
) -> Seq<char> {
    let stem = type_stem(schema, table);
    let scr = upper_text(schema + "_"@ + table);
    let body = render_body(render);
    head_spec(stem, scr, varlena.len() == 0, render_static(render), render_dynamic(render))
        + fetch_batch_spec(schema, table, stem, scr, columns, varlena) + fetch_pg_spec(
        schema,
        table,
        stem,
        select_spec(schema, table, columns, varlena, joins),
        from_spec(schema, table, columns, pk, joins),
        where_spec(schema, table, pk),
        columns,
        varlena,
    ) + render_fn_spec(stem, scr, varlena, render is Some, body) + segments_spec(
        stem,
        scr,
        segment_count(varlena),
        body,
    ) + record_id_spec(columns, pk_col_spec(columns, pk)) + accessors_spec(schema, table, scr)
        + encode_spec(varlena) + tail_spec(stem, scr)
}

/// Writes the `Projection` implementation of a component:
///
/// 1. `pub struct {Name}Projection;` and its capacity constants (the
///    template's static and dynamic bytes and their sum; 0 without a
///    template), then the component's `StoreRegistry`;
/// 2. `fetch_batch`, which reads the store, and `fetch_from_pg`, whose
///    query selects the fixed-length columns (qualified, followed by the
///    joined varlena fields and one `LEFT JOIN` per joined table when there
///    are joins) by primary key;
/// 3. `render` (and `render_segments` for a segmented component) around the
///    generated body, `record_id`, the artefact paths, the registry
///    accessor, the varlena encoding, and `cold_start_store`.
///
/// `varlena_join` holds one `(schema, table, key column)` per joined table.
/// The joins reference the component's primary key, so they need a
/// single-column key; and the key column must be a fixed-length column of a
/// type the renderer knows.
///
/// Without any fixed-length column the stub is incomplete (its fetches are
/// `todo!()`); the build warning that says so is returned, for the build
/// script to print.
pub fn write_projection_stub(
    out: &mut String,
    schema: &str,
    table: &str,
    columns: &[Column],
    pk: &PrimaryKey,
    varlena: &[VarlenField],
    varlena_join: &[(&str, &str, &str)],
    render: Option<(&str, &TemplateMetrics)>,
)
    requires
        !(varlena_join@.len() > 0 && *pk is Composite),
        pk_resolvable(columns@, *pk),
        render_static(render) + render_dynamic(render) <= usize::MAX,
        columns@.len() <= usize::MAX / 64,
        varlena@.len() <= usize::MAX / 64,
    ensures
        final(out)@ == old(out)@ + projection_stub_spec(
            schema@,
            table@,
            columns@,
            *pk,
            varlena@,
            varlena_join@,
            render,
        ),
{
    let stem = component_stem(schema, table);
    let mut id = String::new();
    push_str(&mut id, schema);
    push_str(&mut id, "_");
    push_str(&mut id, table);
    let scr = to_screaming(id.as_str());
    let pk_col = pk_col_name(columns, pk);
    let has_fixed = any_fixed(columns);
    let joined = varlena_join.len() > 0;
    let select = select_clause(schema, table, columns, varlena, joined);
    let from = from_clause(schema, table, pk_col.as_str(), varlena_join);
    let where_ = where_clause(schema, table, pk);
    let (st, dy, body, is_real): (usize, usize, &str, bool) = match render {
        Some((b, m)) => (m.total_static_bytes, m.total_dynamic_bytes, b, true),
        None => (0, 0, "", false),
    };
    proof {
        reveal_strlit("");
    }
    let body_empty = chars_of(body).len() == 0;
    let segments = count_segments(varlena);
    proof {
        let k = choose|k: int|
            #![trigger columns@[k]]
            0 <= k < columns@.len() && columns@[k].name@ == pk_col_spec(columns@, *pk) && map_type_spec(
                columns@[k].sql_type@,
            ).is_fixed && field_kind_for_key(sql_type_key(columns@[k].sql_type@)) is Some;
        assert(columns@[k].name@ == pk_col@);
    }
    push_head(out, stem.as_str(), scr.as_str(), varlena.len() == 0, st, dy);
    let ghost a = out@;
    push_fetch_batch(out, schema, table, stem.as_str(), scr.as_str(), has_fixed, columns, varlena);
    let ghost b = out@;
    push_fetch_pg(
        out,
        schema,
        table,
        stem.as_str(),
        select.as_str(),
        from.as_str(),
        where_.as_str(),
        has_fixed,
        columns,
        varlena,
    );
    let ghost c = out@;
    push_render(out, stem.as_str(), scr.as_str(), varlena, segments, is_real, body, body_empty);
    let ghost d = out@;
    push_segments(out, stem.as_str(), scr.as_str(), segments, body);
    let ghost e = out@;
    push_record_id(out, columns, pk_col.as_str());
    let ghost f = out@;
    push_accessors(out, schema, table, scr.as_str());
    let ghost g = out@;
    push_encode(out, varlena);
    let ghost h = out@;
    push_tail(out, stem.as_str(), scr.as_str());
    proof {
        assert(id@ =~= schema@ + "_"@ + table@);
        let stem_v = type_stem(schema@, table@);
        let scr_v = upper_text(schema@ + "_"@ + table@);
        let body_v = render_body(render);
        lemma_append_chain(
            old(out)@,
            head_spec(stem_v, scr_v, varlena@.len() == 0, render_static(render), render_dynamic(render)),
            fetch_batch_spec(schema@, table@, stem_v, scr_v, columns@, varlena@),
            fetch_pg_spec(
                schema@,
                table@,
                stem_v,
                select_spec(schema@, table@, columns@, varlena@, varlena_join@),
                from_spec(schema@, table@, columns@, *pk, varlena_join@),
                where_spec(schema@, table@, *pk),
                columns@,
                varlena@,
            ),
            render_fn_spec(stem_v, scr_v, varlena@, render is Some, body_v),
            segments_spec(stem_v, scr_v, segment_count(varlena@), body_v),
            record_id_spec(columns@, pk_col_spec(columns@, *pk)),
            accessors_spec(schema@, table@, scr_v),
            encode_spec(varlena@),
            tail_spec(stem_v, scr_v),
        );
    }
}

/// The build warning for a table without any fixed-length column.
pub open spec fn no_fixed_warning(schema: Seq<char>, table: Seq<char>) -> Seq<char> {
    "cargo:warning=DB-Forge ["@ + schema + "."@ + table
        + "] : aucune colonne fixed-length — stub incomplet généré."@
}

/// The build warning written before a projection is generated for a table
/// without any fixed-length column; `None` when the table has one. (Such a
/// table has no key field, so `write_projection_stub` refuses it.)
pub fn no_fixed_column_warning(schema: &str, table: &str, columns: &[Column]) -> (r: Option<String>)
    ensures
        match r {
            Some(w) => first_fixed_name(columns@) is None && w@ == no_fixed_warning(schema@, table@),
            None => first_fixed_name(columns@) is Some,
        },
{
    if any_fixed(columns) {
        None
    } else {
        let mut w = String::new();
        push_str(&mut w, "cargo:warning=DB-Forge [");
        push_str(&mut w, schema);
        push_str(&mut w, ".");
        push_str(&mut w, table);
        push_str(&mut w, "] : aucune colonne fixed-length — stub incomplet généré.");
        Some(w)
    }
}

/// Whether the key column (`pk_col_spec`) is a fixed-length column with a
/// field kind, as `write_projection_stub` requires.
pub fn pk_is_resolvable(columns: &[Column], pk: &PrimaryKey) -> (r: bool)
    ensures
        r == pk_resolvable(columns@, *pk),
{
    let name = pk_col_name(columns, pk);
    let mut i: usize = 0;
    while i < columns.len()
        invariant
            i <= columns@.len(),
            name@ == pk_col_spec(columns@, *pk),
            forall|k: int|
                #![trigger columns@[k]]
                0 <= k < i ==> !(columns@[k].name@ == pk_col_spec(columns@, *pk) && map_type_spec(
                    columns@[k].sql_type@,
                ).is_fixed && field_kind_for_key(sql_type_key(columns@[k].sql_type@)) is Some),
        decreases columns.len() - i,
    {
        let c = &columns[i];
        if str_eq(c.name.as_str(), name.as_str()) {
            let m = map_type(c.sql_type.as_str());
            if m.is_fixed {
                if FieldKind::from_sql_type(c.sql_type.as_str()).is_some() {
                    return true;
                }
            }
        }
        i += 1;
    }
    false
}

/// Nine appends in a row append their concatenation.
proof fn lemma_append_chain(
    s: Seq<char>,
    p1: Seq<char>,
    p2: Seq<char>,
    p3: Seq<char>,
    p4: Seq<char>,
    p5: Seq<char>,
    p6: Seq<char>,
    p7: Seq<char>,
    p8: Seq<char>,
    p9: Seq<char>,
)
    ensures
        s + p1 + p2 + p3 + p4 + p5 + p6 + p7 + p8 + p9 == s + (p1 + p2 + p3 + p4 + p5 + p6 + p7 + p8 + p9),
{
    assert(s + p1 + p2 + p3 + p4 + p5 + p6 + p7 + p8 + p9 =~= s + (p1 + p2 + p3 + p4 + p5 + p6 + p7 + p8 + p9));
}

/// Whether some column is fixed-length.
fn any_fixed(columns: &[Column]) -> (r: bool)
    ensures
        r == (first_fixed_name(columns@) is Some),
{
    let mut i: usize = 0;
    assert(columns@.skip(0) =~= columns@);
    while i < columns.len()
        invariant
            i <= columns@.len(),
            first_fixed_name(columns@) == first_fixed_name(columns@.skip(i as int)),
        decreases columns.len() - i,
    {
        assert(columns@.skip(i as int)[0] == columns@[i as int]);
        assert(columns@.skip(i as int).drop_first() =~= columns@.skip(i + 1));
        let m = map_type(columns[i].sql_type.as_str());
        if m.is_fixed {
            return true;
        }
        i += 1;
    }
    assert(columns@.skip(i as int).len() == 0);
    false
}

} // verus!
