//! Source text of `{Name}StorageRow`: the `repr(C)` struct of the
//! fixed-length columns, its simulated layout, and the compile-time
//! assertions that tie it to the DDL.

use vstd::prelude::*;
use crate::db::codegen::{component_stem, ln, push_repeat, repeat, type_stem};
use crate::db::mapping::{Column, map_type, map_type_spec};
use crate::db::validate::{ceil_div, header_bytes, max_alignment};
use crate::fragment::resolver::byte_len;
use crate::text::{decimal, decimal_int, push_i64, push_str, push_usize, str_eq};

verus! {

pub open spec fn storage_doc(schema: Seq<char>, table: Seq<char>) -> Seq<char> {
    "/// Struct de stockage en mémoire contiguë pour "@ + schema + "."@ + table
        + ".\n/// #[repr(C)] : layout C déterministe des champs fixed-length.\n///\n/// L'ordre des champs suit attnum ASC, conformément à l'ordre des attributs\n/// PostgreSQL. Le layout de cette struct n'inclut ni le header du heap tuple,\n/// ni le null bitmap PostgreSQL : StorageRow représente uniquement les valeurs\n/// fixed-length extraites du tuple.\n/// Champs fixed-length uniquement. Nullable → sentinel (0 ou -1 selon type).\n/// Varlena exclues : portées par VarlenOwned.\n///\n/// AVERTISSEMENT NULLABLE : sentinel domain-specific (Phase 3 : pg_description).\n"@
}

/// The line of one column in the storage struct.
pub open spec fn storage_field_line(col: Column) -> Seq<char> {
    let m = map_type_spec(col.sql_type@);
    if m.is_fixed {
        let emit_type = if m.store_type == "bool"@ {
            "u8"@
        } else {
            m.store_type
        };
        let pad = if byte_len(col.name@) < 20 {
            repeat(' ', (20 - byte_len(col.name@)) as nat)
        } else {
            Seq::empty()
        };
        let marker = if col.is_notnull {
            ""@
        } else {
            " [sentinel]"@
        };
        ln("    pub "@ + col.name@ + ": "@ + emit_type + ","@ + pad + "  // attnum="@ + decimal_int(
            col.attnum as int,
        ) + ", "@ + decimal(m.size_bytes as nat) + "B"@ + marker)
    } else {
        ln("    // VARLENA exclu : "@ + col.name@ + " ("@ + col.sql_type@ + ") → VarlenOwned"@)
    }
}

pub open spec fn storage_fields(columns: Seq<Column>) -> Seq<char>
    decreases columns.len(),
{
    if columns.len() == 0 {
        Seq::empty()
    } else {
        storage_fields(columns.drop_last()) + storage_field_line(columns.last())
    }
}

/// Bytes of the fixed-length fields placed as `repr(C)` places them (each
/// at the next multiple of its alignment).
pub open spec fn repr_c_bytes(columns: Seq<Column>) -> int
    decreases columns.len(),
{
    if columns.len() == 0 {
        0
    } else {
        let prev = repr_c_bytes(columns.drop_last());
        let m = map_type_spec(columns.last().sql_type@);
        if m.is_fixed {
            ceil_div(prev, m.alignment as int) * m.alignment + m.size_bytes
        } else {
            prev
        }
    }
}

/// Size of the struct: the fields' bytes rounded up to the largest
/// alignment.
pub open spec fn repr_c_size(columns: Seq<Column>) -> int {
    ceil_div(repr_c_bytes(columns), max_alignment(columns)) * max_alignment(columns)
}

pub open spec fn storage_head(schema: Seq<char>, table: Seq<char>) -> Seq<char> {
    storage_doc(schema, table) + ln("#[repr(C)]"@) + ln(
        "#[derive(Debug, Clone, Copy, Default, bytemuck::Pod, bytemuck::Zeroable)]"@,
    ) + ln("pub struct "@ + type_stem(schema, table) + "StorageRow {"@)
}

pub open spec fn storage_pad(layout: int, padded: int) -> Seq<char> {
    if padded > layout {
        ln("    pub _pad: [u8; "@ + decimal((padded - layout) as nat)
            + "], // Tail padding explicite pour alignement Pod"@)
    } else {
        Seq::empty()
    }
}

pub open spec fn storage_layout_comment(layout: int, padded: int, align: int, n: nat) -> Seq<char> {
    ln("}"@) + ln("// Layout fixed-length : "@ + decimal(layout as nat) + "B données → "@ + decimal(
        padded as nat,
    ) + "B padded (align="@ + decimal(align as nat) + "B)"@) + ln("// + "@ + decimal(
        header_bytes(n as int) as nat,
    ) + "B header heap PostgreSQL (MAXALIGN(23 + ceil("@ + decimal(n) + "/8)))"@) + ln(""@)
}

pub open spec fn storage_size_assert(schema: Seq<char>, table: Seq<char>, padded: int) -> Seq<char> {
    ln(
        "const _: () = assert!(\n    std::mem::size_of::<"@ + type_stem(schema, table)
            + "StorageRow>() == "@ + decimal(padded as nat) + ",\n    \"DB-Forge ["@ + schema + "."@
            + table + "]: size_of diverge du DDL — reconstruire après ALTER TABLE\",\n);"@,
    )
}

pub open spec fn storage_align_assert(schema: Seq<char>, table: Seq<char>, align: int) -> Seq<char> {
    ln(
        "const _: () = assert!(\n    std::mem::align_of::<"@ + type_stem(schema, table)
            + "StorageRow>() == "@ + decimal(align as nat) + ",\n    \"DB-Forge ["@ + schema + "."@
            + table + "]: align_of diverge du DDL — vérifier les types colonnes\",\n);"@,
    ) + ln(""@)
}

pub open spec fn storage_tail(
    schema: Seq<char>,
    table: Seq<char>,
    layout: int,
    padded: int,
    align: int,
    n: nat,
) -> Seq<char> {
    storage_pad(layout, padded) + storage_layout_comment(layout, padded, align, n)
        + storage_size_assert(schema, table, padded) + storage_align_assert(schema, table, align)
}

pub open spec fn store_struct_spec(schema: Seq<char>, table: Seq<char>, columns: Seq<Column>) -> Seq<
    char,
> {
    storage_head(schema, table) + storage_fields(columns) + storage_tail(
        schema,
        table,
        repr_c_bytes(columns),
        repr_c_size(columns),
        max_alignment(columns),
        columns.len(),
    )
}

fn push_storage_field(out: &mut String, col: &Column)
    ensures
        final(out)@ == old(out)@ + storage_field_line(*col),
{
    let m = map_type(col.sql_type.as_str());
    if m.is_fixed {
        let emit_type: &str = if str_eq(m.store_type, "bool") {
            "u8"
        } else {
            m.store_type
        };
        push_str(out, "    pub ");
        push_str(out, col.name.as_str());
        push_str(out, ": ");
        push_str(out, emit_type);
        push_str(out, ",");
        let nl = col.name.as_str().len();
        if nl < 20 {
            push_repeat(out, ' ', 20 - nl);
        }
        push_str(out, "  // attnum=");
        push_i64(out, col.attnum as i64);
        push_str(out, ", ");
        push_usize(out, m.size_bytes);
        push_str(out, "B");
        if !col.is_notnull {
            push_str(out, " [sentinel]");
        }
        push_str(out, "\n");
        proof {
            reveal_strlit("");
            reveal_strlit("\n");
        }
        assert(out@ =~= old(out)@ + storage_field_line(*col));
    } else {
        push_str(out, "    // VARLENA exclu : ");
        push_str(out, col.name.as_str());
        push_str(out, " (");
        push_str(out, col.sql_type.as_str());
        push_str(out, ") → VarlenOwned\n");
        proof {
            reveal_strlit(") → VarlenOwned\n");
            reveal_strlit(") → VarlenOwned");
            reveal_strlit("\n");
        }
        assert(out@ =~= old(out)@ + storage_field_line(*col));
    }
}

proof fn lemma_repr_c_bound(columns: Seq<Column>)
    ensures
        0 <= repr_c_bytes(columns) <= 32 * columns.len(),
        1 <= max_alignment(columns) <= 16,
    decreases columns.len(),
{
    if columns.len() > 0 {
        let p = columns.drop_last();
        lemma_repr_c_bound(p);
        crate::db::mapping::fixed_layout_is_sane(columns.last().sql_type@);
        let m = map_type_spec(columns.last().sql_type@);
        if m.is_fixed {
            let prev = repr_c_bytes(p);
            let b = m.alignment as int;
            let q = ceil_div(prev, b);
            assert(q * b <= prev + b - 1) by (nonlinear_arith)
                requires
                    q == (prev + b - 1) / b,
                    b >= 1,
                    prev >= 0,
            ;
            assert(q * b >= 0) by (nonlinear_arith)
                requires
                    q == (prev + b - 1) / b,
                    b >= 1,
                    prev >= 0,
            ;
        }
    }
}

/// `ceil(a / b) * b` for a positive `b`.
fn round_up(a: usize, b: usize) -> (r: usize)
    requires
        b >= 1,
        a + b <= usize::MAX,
    ensures
        r == ceil_div(a as int, b as int) * b,
        a <= r <= a + b - 1,
{
    let q = (a + b - 1) / b;
    proof {
        let aa: int = (a + b - 1) as int;
        let bb: int = b as int;
        let qq: int = q as int;
        assert(qq * bb <= aa && qq * bb >= aa - bb + 1) by (nonlinear_arith)
            requires
                qq == aa / bb,
                bb >= 1,
                aa >= 0,
        ;
    }
    q * b
}

fn push_storage_head(out: &mut String, schema: &str, table: &str)
    ensures
        final(out)@ == old(out)@ + storage_head(schema@, table@),
{
    let name = component_stem(schema, table);
    push_str(out, "/// Struct de stockage en mémoire contiguë pour ");
    push_str(out, schema);
    push_str(out, ".");
    push_str(out, table);
    push_str(
        out,
        ".\n/// #[repr(C)] : layout C déterministe des champs fixed-length.\n///\n/// L'ordre des champs suit attnum ASC, conformément à l'ordre des attributs\n/// PostgreSQL. Le layout de cette struct n'inclut ni le header du heap tuple,\n/// ni le null bitmap PostgreSQL : StorageRow représente uniquement les valeurs\n/// fixed-length extraites du tuple.\n/// Champs fixed-length uniquement. Nullable → sentinel (0 ou -1 selon type).\n/// Varlena exclues : portées par VarlenOwned.\n///\n/// AVERTISSEMENT NULLABLE : sentinel domain-specific (Phase 3 : pg_description).\n",
    );
    push_str(out, "#[repr(C)]\n#[derive(Debug, Clone, Copy, Default, bytemuck::Pod, bytemuck::Zeroable)]\npub struct ");
    push_str(out, name.as_str());
    push_str(out, "StorageRow {\n");
    proof {
        reveal_strlit("#[repr(C)]\n#[derive(Debug, Clone, Copy, Default, bytemuck::Pod, bytemuck::Zeroable)]\npub struct ");
        reveal_strlit("#[repr(C)]");
        reveal_strlit("#[derive(Debug, Clone, Copy, Default, bytemuck::Pod, bytemuck::Zeroable)]");
        reveal_strlit("pub struct ");
        reveal_strlit("StorageRow {\n");
        reveal_strlit("StorageRow {");
        reveal_strlit("\n");
    }
    assert(out@ =~= old(out)@ + storage_head(schema@, table@));
}

fn push_storage_pad(out: &mut String, layout: usize, padded: usize)
    ensures
        final(out)@ == old(out)@ + storage_pad(layout as int, padded as int),
{
    if padded > layout {
        push_str(out, "    pub _pad: [u8; ");
        push_usize(out, padded - layout);
        push_str(out, "], // Tail padding explicite pour alignement Pod\n");
        proof {
            reveal_strlit("], // Tail padding explicite pour alignement Pod\n");
            reveal_strlit("], // Tail padding explicite pour alignement Pod");
            reveal_strlit("\n");
        }
        assert(out@ =~= old(out)@ + storage_pad(layout as int, padded as int));
    } else {
        assert(out@ =~= old(out)@ + storage_pad(layout as int, padded as int));
    }
}

fn push_storage_layout_comment(out: &mut String, layout: usize, padded: usize, align: usize, n: usize)
    requires
        n <= usize::MAX / 64,
    ensures
        final(out)@ == old(out)@ + storage_layout_comment(layout as int, padded as int, align as int, n as nat),
{
    let bitmap = (n + 7) / 8;
    let header = (23 + bitmap + 7) / 8 * 8;
    push_str(out, "}\n// Layout fixed-length : ");
    push_usize(out, layout);
    push_str(out, "B données → ");
    push_usize(out, padded);
    push_str(out, "B padded (align=");
    push_usize(out, align);
    push_str(out, "B)\n// + ");
    push_usize(out, header);
    push_str(out, "B header heap PostgreSQL (MAXALIGN(23 + ceil(");
    push_usize(out, n);
    push_str(out, "/8)))\n\n");
    proof {
        reveal_strlit("}\n// Layout fixed-length : ");
        reveal_strlit("}");
        reveal_strlit("// Layout fixed-length : ");
        reveal_strlit("B)\n// + ");
        reveal_strlit("B)");
        reveal_strlit("// + ");
        reveal_strlit("/8)))\n\n");
        reveal_strlit("/8)))");
        reveal_strlit("");
        reveal_strlit("\n");
        assert(header as int == header_bytes(n as int));
    }
    assert(out@ =~= old(out)@ + storage_layout_comment(layout as int, padded as int, align as int, n as nat));
}

fn push_storage_assert(out: &mut String, schema: &str, table: &str, value: usize, size: bool)
    ensures
        size ==> final(out)@ == old(out)@ + storage_size_assert(schema@, table@, value as int),
        !size ==> final(out)@ == old(out)@ + storage_align_assert(schema@, table@, value as int),
{
    let name = component_stem(schema, table);
    if size {
        push_str(out, "const _: () = assert!(\n    std::mem::size_of::<");
    } else {
        push_str(out, "const _: () = assert!(\n    std::mem::align_of::<");
    }
    push_str(out, name.as_str());
    push_str(out, "StorageRow>() == ");
    push_usize(out, value);
    push_str(out, ",\n    \"DB-Forge [");
    push_str(out, schema);
    push_str(out, ".");
    push_str(out, table);
    if size {
        push_str(out, "]: size_of diverge du DDL — reconstruire après ALTER TABLE\",\n);\n");
    } else {
        push_str(out, "]: align_of diverge du DDL — vérifier les types colonnes\",\n);\n\n");
    }
    proof {
        reveal_strlit("]: size_of diverge du DDL — reconstruire après ALTER TABLE\",\n);\n");
        reveal_strlit("]: size_of diverge du DDL — reconstruire après ALTER TABLE\",\n);");
        reveal_strlit("]: align_of diverge du DDL — vérifier les types colonnes\",\n);\n\n");
        reveal_strlit("]: align_of diverge du DDL — vérifier les types colonnes\",\n);");
        reveal_strlit("");
        reveal_strlit("\n");
    }
    if size {
        assert(out@ =~= old(out)@ + storage_size_assert(schema@, table@, value as int));
    } else {
        assert(out@ =~= old(out)@ + storage_align_assert(schema@, table@, value as int));
    }
}

fn push_storage_tail(
    out: &mut String,
    schema: &str,
    table: &str,
    layout: usize,
    padded: usize,
    align: usize,
    n: usize,
)
    requires
        n <= usize::MAX / 64,
    ensures
        final(out)@ == old(out)@ + storage_tail(
            schema@,
            table@,
            layout as int,
            padded as int,
            align as int,
            n as nat,
        ),
{
    push_storage_pad(out, layout, padded);
    push_storage_layout_comment(out, layout, padded, align, n);
    push_storage_assert(out, schema, table, padded, true);
    push_storage_assert(out, schema, table, align, false);
    assert(out@ =~= old(out)@ + storage_tail(schema@, table@, layout as int, padded as int, align as int, n as nat));
}

/// Writes `{Name}StorageRow`: a `repr(C)`, `bytemuck::Pod` struct of the
/// fixed-length columns in attnum order (booleans as `u8`), explicit tail
/// padding, the layout in a comment, and compile-time assertions on its
/// size and alignment.
pub fn write_store_struct(out: &mut String, schema: &str, table: &str, columns: &[Column])
    requires
        columns@.len() <= usize::MAX / 64,
    ensures
        final(out)@ == old(out)@ + store_struct_spec(schema@, table@, columns@),
{
    push_storage_head(out, schema, table);
    let ghost head = out@;
    let mut layout: usize = 0;
    let mut max_align: usize = 1;
    let mut i: usize = 0;
    assert(columns@.take(0) =~= Seq::<Column>::empty());
    while i < columns.len()
        invariant
            columns@.len() <= usize::MAX / 64,
            i <= columns@.len(),
            out@ == head + storage_fields(columns@.take(i as int)),
            layout == repr_c_bytes(columns@.take(i as int)),
            max_align == max_alignment(columns@.take(i as int)),
            layout <= 32 * i,
            1 <= max_align <= 16,
        decreases columns.len() - i,
    {
        let col = &columns[i];
        proof {
            assert(columns@.take(i + 1).drop_last() =~= columns@.take(i as int));
            assert(columns@.take(i + 1).last() == columns@[i as int]);
            crate::db::mapping::fixed_layout_is_sane(col.sql_type@);
            lemma_repr_c_bound(columns@.take(i + 1));
        }
        push_storage_field(out, col);
        let m = map_type(col.sql_type.as_str());
        if m.is_fixed {
            if m.alignment > max_align {
                max_align = m.alignment;
            }
            layout = round_up(layout, m.alignment) + m.size_bytes;
        }
        i += 1;
    }
    assert(columns@.take(i as int) =~= columns@);
    let padded = round_up(layout, max_align);
    push_storage_tail(out, schema, table, layout, padded, max_align, columns.len());
}

} // verus!
