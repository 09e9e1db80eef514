//! Validation of a component before generation: the layout computed from
//! its columns must match the density recorded in the registry, and no
//! two fields of the generated projection may share a name.

use vstd::prelude::*;
use crate::db::mapping::{Column, map_type, map_type_spec};
use crate::schema::VarlenField;
use crate::text::{decimal, decimal_int, push_i64, push_str, push_usize, str_eq};

verus! {

/// `a / b` rounded up.
pub open spec fn ceil_div(a: int, b: int) -> int {
    (a + b - 1) / b
}

/// Bytes of the fixed-length columns.
pub open spec fn payload_bytes(columns: Seq<Column>) -> int
    decreases columns.len(),
{
    if columns.len() == 0 {
        0
    } else {
        let m = map_type_spec(columns.last().sql_type@);
        payload_bytes(columns.drop_last()) + if m.is_fixed {
            m.size_bytes as int
        } else {
            0
        }
    }
}

/// Largest alignment among the fixed-length columns (at least 1).
pub open spec fn max_alignment(columns: Seq<Column>) -> int
    decreases columns.len(),
{
    if columns.len() == 0 {
        1
    } else {
        let m = map_type_spec(columns.last().sql_type@);
        let prev = max_alignment(columns.drop_last());
        if m.is_fixed && m.alignment > prev {
            m.alignment as int
        } else {
            prev
        }
    }
}

/// Tuple header: 23 bytes and the null bitmap (one bit per column),
/// rounded up to 8.
pub open spec fn header_bytes(n: int) -> int {
    ceil_div(23 + ceil_div(n, 8), 8) * 8
}

/// Payload rounded up to the largest alignment.
pub open spec fn padded_payload(columns: Seq<Column>) -> int {
    ceil_div(payload_bytes(columns), max_alignment(columns)) * max_alignment(columns)
}

/// The row size computed from the columns.
pub open spec fn computed_total(columns: Seq<Column>) -> int {
    header_bytes(columns.len() as int) + padded_payload(columns)
}

/// The message of a layout that diverges from the registry.
pub open spec fn layout_message(total: int, header: int, padded: int, density: i16) -> Seq<char> {
    "layout diverge du registre. Calculé="@ + decimal(total as nat) + "B (header="@ + decimal(
        header as nat,
    ) + "B + payload="@ + decimal(padded as nat) + "B), Enregistré="@ + decimal_int(density as int)
        + "B. Relancer meta.f_generate_dod_template et mettre à jour meta.containment_intent."@
}

proof fn lemma_layout_bounds(columns: Seq<Column>)
    ensures
        0 <= payload_bytes(columns) <= 16 * columns.len(),
        1 <= max_alignment(columns) <= 16,
    decreases columns.len(),
{
    if columns.len() > 0 {
        lemma_layout_bounds(columns.drop_last());
        crate::db::mapping::fixed_layout_is_sane(columns.last().sql_type@);
    }
}

proof fn lemma_round_up(a: int, b: int)
    requires
        a >= 0,
        b >= 1,
    ensures
        ceil_div(a, b) * b % b == 0,
        a <= ceil_div(a, b) * b < a + b,
{
    let q = (a + b - 1) / b;
    assert(q * b <= a + b - 1 && a + b - 1 < q * b + b) by (nonlinear_arith)
        requires
            q == (a + b - 1) / b,
            b >= 1,
            a >= 0,
    ;
    assert((q * b) % b == 0) by (nonlinear_arith)
        requires
            b >= 1,
    ;
}

/// The row size that `validate_layout` compares with the registry is the
/// tuple header followed by the fixed-length payload padded to the largest
/// fixed alignment: the part after the header is the least multiple of
/// that alignment holding the payload, and the header is the least
/// multiple of 8 holding 23 bytes and one bit per column.
pub proof fn layout_total_is_header_and_aligned_payload(columns: Seq<Column>)
    ensures
        ({
            let a = max_alignment(columns);
            let p = computed_total(columns) - header_bytes(columns.len() as int);
            &&& p % a == 0
            &&& payload_bytes(columns) <= p < payload_bytes(columns) + a
        }),
        ({
            let n = columns.len() as int;
            let h = header_bytes(n);
            &&& h % 8 == 0
            &&& 8 * (h - 23) >= n
            &&& h - 8 < 23 + (n + 7) / 8
        }),
{
    lemma_layout_bounds(columns);
    lemma_round_up(payload_bytes(columns), max_alignment(columns));
    let n = columns.len() as int;
    lemma_round_up(n, 8);
    lemma_round_up(23 + ceil_div(n, 8), 8);
}

/// Checks that the row size computed from `columns` (header with null
/// bitmap, fixed-length payload padded to the largest alignment) equals
/// the density recorded in the registry; otherwise the error says both.
pub fn validate_layout(columns: &[Column], intent_density: i16) -> (r: Result<(), String>)
    requires
        columns@.len() <= usize::MAX / 64,
    ensures
        r is Ok <==> computed_total(columns@) == intent_density as usize,
        r matches Err(msg) ==> msg@ == layout_message(
            computed_total(columns@),
            header_bytes(columns@.len() as int),
            padded_payload(columns@),
            intent_density,
        ),
{
    let n_total = columns.len();
    let bitmap = (n_total + 7) / 8;
    let header = (23 + bitmap + 7) / 8 * 8;
    let mut payload: usize = 0;
    let mut max_align: usize = 1;
    let mut i: usize = 0;
    assert(columns@.take(0) =~= Seq::<Column>::empty());
    while i < n_total
        invariant
            n_total == columns@.len(),
            n_total <= usize::MAX / 64,
            i <= n_total,
            payload == payload_bytes(columns@.take(i as int)),
            max_align == max_alignment(columns@.take(i as int)),
            payload <= 16 * i,
            1 <= max_align <= 16,
        decreases n_total - i,
    {
        let m = map_type(columns[i].sql_type.as_str());
        proof {
            assert(columns@.take(i + 1).drop_last() =~= columns@.take(i as int));
            assert(columns@.take(i + 1).last() == columns@[i as int]);
            crate::db::mapping::fixed_layout_is_sane(columns@[i as int].sql_type@);
        }
        if m.is_fixed {
            payload = payload + m.size_bytes;
            if m.alignment > max_align {
                max_align = m.alignment;
            }
        }
        i += 1;
    }
    assert(columns@.take(i as int) =~= columns@);
    let q = (payload + max_align - 1) / max_align;
    proof {
        let a: int = (payload + max_align - 1) as int;
        let b: int = max_align as int;
        let qq: int = q as int;
        assert(qq * b <= a) by (nonlinear_arith)
            requires
                qq == a / b,
                b >= 1,
                a >= 0,
        ;
    }
    let padded = q * max_align;
    let total = header + padded;
    if total != intent_density as usize {
        let mut msg = String::new();
        push_str(&mut msg, "layout diverge du registre. Calculé=");
        push_usize(&mut msg, total);
        push_str(&mut msg, "B (header=");
        push_usize(&mut msg, header);
        push_str(&mut msg, "B + payload=");
        push_usize(&mut msg, padded);
        push_str(&mut msg, "B), Enregistré=");
        push_i64(&mut msg, intent_density as i64);
        push_str(
            &mut msg,
            "B. Relancer meta.f_generate_dod_template et mettre à jour meta.containment_intent.",
        );
        return Err(msg);
    }
    Ok(())
}

/// First own column named `name`.
pub open spec fn find_column(own: Seq<Column>, name: Seq<char>) -> Option<int>
    decreases own.len(),
{
    if own.len() == 0 {
        None
    } else {
        match find_column(own.drop_last(), name) {
            Some(k) => Some(k),
            None => if own.last().name@ == name {
                Some(own.len() - 1)
            } else {
                None
            },
        }
    }
}

/// First varlena field (from `k`) that an own column shadows, with that
/// column.
pub open spec fn own_collision(own: Seq<Column>, varlena: Seq<VarlenField>, k: int) -> Option<
    (int, int),
>
    decreases varlena.len() - k,
{
    if k < 0 || k >= varlena.len() {
        None
    } else {
        match find_column(own, varlena[k].name@) {
            Some(c) => Some((k, c)),
            None => own_collision(own, varlena, k + 1),
        }
    }
}

/// First `j >= from` whose field has the name of field `i`.
pub open spec fn same_name_from(varlena: Seq<VarlenField>, i: int, from: int) -> Option<int>
    decreases varlena.len() - from,
{
    if from < 0 || from >= varlena.len() {
        None
    } else if varlena[from].name@ == varlena[i].name@ {
        Some(from)
    } else {
        same_name_from(varlena, i, from + 1)
    }
}

/// First pair `i < j` (in order of `i`, then `j`) of varlena fields with
/// the same name.
pub open spec fn duplicate_pair(varlena: Seq<VarlenField>, i: int) -> Option<(int, int)>
    decreases varlena.len() - i,
{
    if i < 0 || i >= varlena.len() {
        None
    } else {
        match same_name_from(varlena, i, i + 1) {
            Some(j) => Some((i, j)),
            None => duplicate_pair(varlena, i + 1),
        }
    }
}

pub open spec fn own_collision_message(component_id: Seq<char>, v: VarlenField, col: Column) -> Seq<
    char,
> {
    "collision de nom sur «"@ + v.name@ + "» : colonne propre de "@ + component_id
        + " (type SQL «"@ + col.sql_type@ + "») en conflit avec le champ varlena joint depuis "@
        + v.ref_schema@ + "."@ + v.ref_table@
        + ". Renommer l'une des deux colonnes dans le schéma SQL — aucune désambiguïsation automatique n'est effectuée par le générateur."@
}

pub open spec fn slot_collision_message(component_id: Seq<char>, a: VarlenField, b: VarlenField) -> Seq<
    char,
> {
    "collision de nom sur «"@ + a.name@ + "» dans "@ + component_id
        + " : présent à la fois dans le join "@ + a.ref_schema@ + "."@ + a.ref_table@
        + " et dans le join "@ + b.ref_schema@ + "."@ + b.ref_table@
        + ". Renommer l'une des deux colonnes dans le schéma SQL — aucune désambiguïsation automatique n'est effectuée par le générateur."@
}

/// What `check_no_name_collision` returns.
pub open spec fn collision_spec(component_id: Seq<char>, own: Seq<Column>, varlena: Seq<VarlenField>) -> Result<
    (),
    Seq<char>,
> {
    match own_collision(own, varlena, 0) {
        Some((k, c)) => Err(own_collision_message(component_id, varlena[k], own[c])),
        None => match duplicate_pair(varlena, 0) {
            Some((a, b)) => Err(slot_collision_message(component_id, varlena[a], varlena[b])),
            None => Ok(()),
        },
    }
}

fn find_column_exec(own: &[Column], name: &str) -> (r: Option<usize>)
    ensures
        match r {
            Some(k) => find_column(own@, name@) == Some(k as int) && k < own@.len(),
            None => find_column(own@, name@) is None,
        },
{
    let mut k: usize = 0;
    assert(own@.take(0) =~= Seq::<Column>::empty());
    while k < own.len()
        invariant
            k <= own@.len(),
            find_column(own@.take(k as int), name@) is None,
        decreases own.len() - k,
    {
        assert(own@.take(k + 1).drop_last() =~= own@.take(k as int));
        if str_eq(own[k].name.as_str(), name) {
            proof {
                lemma_find_column_extend(own@, name@, k as int + 1);
            }
            return Some(k);
        }
        k += 1;
    }
    assert(own@.take(k as int) =~= own@);
    None
}

proof fn lemma_find_column_extend(own: Seq<Column>, name: Seq<char>, k: int)
    requires
        0 < k <= own.len(),
        find_column(own.take(k), name) is Some,
    ensures
        find_column(own, name) == find_column(own.take(k), name),
    decreases own.len() - k,
{
    if k < own.len() {
        assert(own.take(k + 1).drop_last() =~= own.take(k));
        lemma_find_column_extend(own, name, k + 1);
    } else {
        assert(own.take(k) =~= own);
    }
}

fn push_join(msg: &mut String, v: &VarlenField)
    ensures
        final(msg)@ == old(msg)@ + v.ref_schema@ + "."@ + v.ref_table@,
{
    push_str(msg, v.ref_schema.as_str());
    push_str(msg, ".");
    push_str(msg, v.ref_table.as_str());
}

/// Checks that no varlena field shares its name with an own column of
/// the component, nor with another varlena field; the first collision
/// found is reported, naming the column and both sources.
pub fn check_no_name_collision(
    component_id: &str,
    own_columns: &[Column],
    varlena: &[VarlenField],
) -> (r: Result<(), String>)
    ensures
        match r {
            Ok(_) => collision_spec(component_id@, own_columns@, varlena@) is Ok,
            Err(m) => collision_spec(component_id@, own_columns@, varlena@) == Err::<(), Seq<char>>(
                m@,
            ),
        },
{
    let mut k: usize = 0;
    while k < varlena.len()
        invariant
            k <= varlena@.len(),
            own_collision(own_columns@, varlena@, 0) == own_collision(own_columns@, varlena@, k as int),
        decreases varlena.len() - k,
    {
        let v = &varlena[k];
        match find_column_exec(own_columns, v.name.as_str()) {
            Some(c) => {
                let col = &own_columns[c];
                let mut msg = String::new();
                push_str(&mut msg, "collision de nom sur «");
                push_str(&mut msg, v.name.as_str());
                push_str(&mut msg, "» : colonne propre de ");
                push_str(&mut msg, component_id);
                push_str(&mut msg, " (type SQL «");
                push_str(&mut msg, col.sql_type.as_str());
                push_str(&mut msg, "») en conflit avec le champ varlena joint depuis ");
                push_join(&mut msg, v);
                push_str(
                    &mut msg,
                    ". Renommer l'une des deux colonnes dans le schéma SQL — aucune désambiguïsation automatique n'est effectuée par le générateur.",
                );
                return Err(msg);
            },
            None => {},
        }
        k += 1;
    }
    let mut i: usize = 0;
    while i < varlena.len()
        invariant
            i <= varlena@.len(),
            own_collision(own_columns@, varlena@, 0) is None,
            duplicate_pair(varlena@, 0) == duplicate_pair(varlena@, i as int),
        decreases varlena.len() - i,
    {
        let mut j: usize = i + 1;
        while j < varlena.len()
            invariant
                i < j <= varlena@.len(),
                own_collision(own_columns@, varlena@, 0) is None,
                duplicate_pair(varlena@, 0) == duplicate_pair(varlena@, i as int),
                same_name_from(varlena@, i as int, i + 1) == same_name_from(varlena@, i as int, j as int),
            decreases varlena.len() - j,
        {
            if str_eq(varlena[i].name.as_str(), varlena[j].name.as_str()) {
                assert(same_name_from(varlena@, i as int, j as int) == Some(j as int));
                assert(duplicate_pair(varlena@, i as int) == Some((i as int, j as int)));
                let a = &varlena[i];
                let b = &varlena[j];
                let mut msg = String::new();
                push_str(&mut msg, "collision de nom sur «");
                push_str(&mut msg, a.name.as_str());
                push_str(&mut msg, "» dans ");
                push_str(&mut msg, component_id);
                push_str(&mut msg, " : présent à la fois dans le join ");
                push_join(&mut msg, a);
                push_str(&mut msg, " et dans le join ");
                push_join(&mut msg, b);
                push_str(
                    &mut msg,
                    ". Renommer l'une des deux colonnes dans le schéma SQL — aucune désambiguïsation automatique n'est effectuée par le générateur.",
                );
                return Err(msg);
            }
            j += 1;
        }
        assert(duplicate_pair(varlena@, i as int) == duplicate_pair(varlena@, i + 1));
        i += 1;
    }
    Ok(())
}

} // verus!
