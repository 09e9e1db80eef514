//! The field specs of a component, shared by the projection generator and
//! the build's schema index.

use vstd::prelude::*;
use crate::db::mapping::{Column, map_type, map_type_spec};
use crate::schema::{FieldKind, FieldSpec, field_kind_for_key, sql_type_key};
use crate::text::push_str;

verus! {

/// Value of a field spec: name, kind, attribute number.
pub open spec fn field_spec_view(f: FieldSpec) -> (Seq<char>, FieldKind, i16) {
    (f.name@, f.kind, f.attnum)
}

/// The fixed-length columns whose type has a `FieldKind`, in order.
pub open spec fn field_specs_spec(columns: Seq<Column>) -> Seq<(Seq<char>, FieldKind, i16)>
    decreases columns.len(),
{
    if columns.len() == 0 {
        Seq::empty()
    } else {
        let prev = field_specs_spec(columns.drop_last());
        let c = columns.last();
        if map_type_spec(c.sql_type@).is_fixed {
            match field_kind_for_key(sql_type_key(c.sql_type@)) {
                Some(kind) => prev.push((c.name@, kind, c.attnum)),
                None => prev,
            }
        } else {
            prev
        }
    }
}

/// Builds the field specs of the fixed-length columns: name, `FieldKind`
/// and attribute number; a fixed-length column whose type has no
/// `FieldKind` is left out.
pub fn build_field_specs(columns: &[Column]) -> (r: Vec<FieldSpec>)
    ensures
        r@.map_values(|f: FieldSpec| field_spec_view(f)) == field_specs_spec(columns@),
{
    let mut r: Vec<FieldSpec> = Vec::new();
    let mut i: usize = 0;
    assert(columns@.take(0) =~= Seq::<Column>::empty());
    assert(r@.map_values(|f: FieldSpec| field_spec_view(f)) =~= Seq::<(Seq<char>, FieldKind, i16)>::empty());
    while i < columns.len()
        invariant
            i <= columns@.len(),
            r@.map_values(|f: FieldSpec| field_spec_view(f)) == field_specs_spec(columns@.take(i as int)),
        decreases columns.len() - i,
    {
        let c = &columns[i];
        assert(columns@.take(i + 1).drop_last() =~= columns@.take(i as int));
        assert(columns@.take(i + 1).last() == columns@[i as int]);
        let m = map_type(c.sql_type.as_str());
        if m.is_fixed {
            match FieldKind::from_sql_type(c.sql_type.as_str()) {
                Some(kind) => {
                    let ghost before = r@;
                    let mut name = String::new();
                    push_str(&mut name, c.name.as_str());
                    r.push(FieldSpec { name, kind, attnum: c.attnum });
                    assert(r@.map_values(|f: FieldSpec| field_spec_view(f)) =~= before.map_values(
                        |f: FieldSpec| field_spec_view(f),
                    ).push((c.name@, kind, c.attnum)));
                },
                None => {},
            }
        }
        i += 1;
    }
    assert(columns@.take(i as int) =~= columns@);
    r
}

} // verus!
