//! The component registry (`meta.containment_intent` joined with
//! `meta.component_varlena_join`): its rows, already read, are grouped into
//! one configuration per component, joins in slot order.

use vstd::prelude::*;
use crate::text::{chars_of, find_char_exec, find_char_from, lemma_find_char_from, push_str};

verus! {

/// One component to generate.
#[derive(Debug)]
pub struct ComponentConfig {
    pub schema: String,
    pub table: String,
    pub intent_density: i16,
    pub rls_guard_bitmask: Option<i32>,
    pub varlena_join: Vec<VarlenJoin>,
}

/// A varlena join of a component, in slot order.
#[derive(Debug)]
pub struct VarlenJoin {
    pub schema: String,
    pub table: String,
    pub fk_col: String,
}

/// One row of the registry query, as read from the database.
#[derive(Debug)]
pub struct RegistryRow {
    pub component_id: String,
    pub intent_density: i16,
    pub rls_guard_bitmask: Option<i32>,
    pub ref_schema: Option<String>,
    pub ref_table: Option<String>,
    pub fk_column: Option<String>,
}

/// An inconsistency of the registry.
#[derive(Debug, PartialEq, Eq)]
pub struct RegistryError {
    pub message: String,
}

pub struct JoinV {
    pub schema: Seq<char>,
    pub table: Seq<char>,
    pub fk_col: Seq<char>,
}

pub struct ConfigV {
    pub schema: Seq<char>,
    pub table: Seq<char>,
    pub intent_density: i16,
    pub rls_guard_bitmask: Option<i32>,
    pub joins: Seq<JoinV>,
}

impl View for VarlenJoin {
    type V = JoinV;

    open spec fn view(&self) -> JoinV {
        JoinV { schema: self.schema@, table: self.table@, fk_col: self.fk_col@ }
    }
}

impl View for ComponentConfig {
    type V = ConfigV;

    open spec fn view(&self) -> ConfigV {
        ConfigV {
            schema: self.schema@,
            table: self.table@,
            intent_density: self.intent_density,
            rls_guard_bitmask: self.rls_guard_bitmask,
            joins: self.varlena_join@.map_values(|j: VarlenJoin| j@),
        }
    }
}

/// `schema.table` cut at its first `.`, both parts non-empty.
pub open spec fn component_id_parts(id: Seq<char>) -> Option<(Seq<char>, Seq<char>)> {
    match find_char_from(id, '.', 0) {
        Some(d) => if d > 0 && d + 1 < id.len() {
            Some((id.take(d), id.skip(d + 1)))
        } else {
            None
        },
        None => None,
    }
}

pub open spec fn invalid_id_message(id: Seq<char>) -> Seq<char> {
    "component_id invalide : «"@ + id + "» — attendu «schema.table»"@
}

pub open spec fn partial_join_message(id: Seq<char>) -> Seq<char> {
    "meta.component_varlena_join incohérente pour «"@ + id
        + "» — ref_schema/ref_table/fk_column partiellement NULL"@
}

/// Splits `schema.table` at its first `.`; both parts must be non-empty.
pub fn parse_component_id(id: &str) -> (r: Result<(String, String), RegistryError>)
    ensures
        match r {
            Ok((s, t)) => component_id_parts(id@) == Some((s@, t@)),
            Err(e) => component_id_parts(id@) is None && e.message@ == invalid_id_message(id@),
        },
{
    let cs = chars_of(id);
    proof {
        lemma_find_char_from(id@, '.', 0);
    }
    match find_char_exec(cs.as_slice(), '.', 0) {
        Some(d) => {
            if d > 0 && d + 1 < cs.len() {
                let s = id.substring_char(0, d);
                let t = id.substring_char(d + 1, cs.len());
                assert(s@ =~= id@.take(d as int));
                assert(t@ =~= id@.skip(d + 1));
                let mut so = String::new();
                push_str(&mut so, s);
                let mut to = String::new();
                push_str(&mut to, t);
                return Ok((so, to));
            }
        },
        None => {},
    }
    let mut m = String::new();
    push_str(&mut m, "component_id invalide : «");
    push_str(&mut m, id);
    push_str(&mut m, "» — attendu «schema.table»");
    Err(RegistryError { message: m })
}

/// The join a row carries: all three parts, or none.
pub open spec fn row_join(
    s: Option<String>,
    t: Option<String>,
    f: Option<String>,
) -> Option<Option<JoinV>> {
    match (s, t, f) {
        (Some(s), Some(t), Some(f)) => Some(Some(JoinV { schema: s@, table: t@, fk_col: f@ })),
        (None, None, None) => Some(None),
        _ => None,
    }
}

/// State of the grouping: configurations so far and the id of the last.
pub struct GroupState {
    pub configs: Seq<ConfigV>,
    pub current: Option<Seq<char>>,
}

/// The grouping after one more row; `Err` with the message of the first
/// inconsistency.
pub open spec fn group_step(st: GroupState, row: RegistryRow) -> Result<GroupState, Seq<char>> {
    let id = row.component_id@;
    match row_join(row.ref_schema, row.ref_table, row.fk_column) {
        None => Err(partial_join_message(id)),
        Some(join) => if st.current == Some(id) && st.configs.len() > 0 {
            let last = st.configs.last();
            Ok(
                GroupState {
                    configs: st.configs.update(
                        st.configs.len() - 1,
                        ConfigV {
                            joins: match join {
                                Some(j) => last.joins.push(j),
                                None => last.joins,
                            },
                            ..last
                        },
                    ),
                    ..st
                },
            )
        } else {
            match component_id_parts(id) {
                None => Err(invalid_id_message(id)),
                Some((schema, table)) => Ok(
                    GroupState {
                        configs: st.configs.push(
                            ConfigV {
                                schema,
                                table,
                                intent_density: row.intent_density,
                                rls_guard_bitmask: row.rls_guard_bitmask,
                                joins: match join {
                                    Some(j) => seq![j],
                                    None => Seq::empty(),
                                },
                            },
                        ),
                        current: Some(id),
                    },
                ),
            }
        },
    }
}

pub open spec fn group_prefix(rows: Seq<RegistryRow>) -> Result<GroupState, Seq<char>>
    decreases rows.len(),
{
    if rows.len() == 0 {
        Ok(GroupState { configs: Seq::empty(), current: None })
    } else {
        match group_prefix(rows.drop_last()) {
            Err(e) => Err(e),
            Ok(st) => group_step(st, rows.last()),
        }
    }
}

fn clone_string(s: &String) -> (r: String)
    ensures
        r@ == s@,
{
    let mut r = String::new();
    push_str(&mut r, s.as_str());
    r
}

/// Groups the registry rows (ordered by component, then join slot) into
/// one configuration per component. A row whose join is partially NULL,
/// or whose component id is not `schema.table`, stops the grouping.
pub fn group_component_rows(rows: &[RegistryRow]) -> (r: Result<Vec<ComponentConfig>, RegistryError>)
    ensures
        match r {
            Ok(v) => group_prefix(rows@) matches Ok(st) && v@.map_values(|c: ComponentConfig| c@)
                == st.configs,
            Err(e) => group_prefix(rows@) == Err::<GroupState, Seq<char>>(e.message@),
        },
{
    let mut configs: Vec<ComponentConfig> = Vec::new();
    let mut current: Option<String> = None;
    let mut i: usize = 0;
    assert(rows@.take(0) =~= Seq::<RegistryRow>::empty());
    assert(configs@.map_values(|c: ComponentConfig| c@) =~= Seq::<ConfigV>::empty());
    while i < rows.len()
        invariant
            i <= rows@.len(),
            group_prefix(rows@.take(i as int)) matches Ok(st) && st.configs == configs@.map_values(
                |c: ComponentConfig| c@,
            ) && st.current == (match current {
                Some(c) => Some(c@),
                None => None::<Seq<char>>,
            }),
            current is Some ==> configs@.len() > 0,
        decreases rows.len() - i,
    {
        let row = &rows[i];
        let ghost before = configs@.map_values(|c: ComponentConfig| c@);
        proof {
            assert(rows@.take(i + 1).drop_last() =~= rows@.take(i as int));
            assert(rows@.take(i + 1).last() == rows@[i as int]);
        }
        let join: Option<VarlenJoin> = match (&row.ref_schema, &row.ref_table, &row.fk_column) {
            (Some(s), Some(t), Some(f)) => Some(
                VarlenJoin { schema: clone_string(s), table: clone_string(t), fk_col: clone_string(f) },
            ),
            (None, None, None) => None,
            _ => {
                let mut m = String::new();
                push_str(&mut m, "meta.component_varlena_join incohérente pour «");
                push_str(&mut m, row.component_id.as_str());
                push_str(&mut m, "» — ref_schema/ref_table/fk_column partiellement NULL");
                proof {
                    lemma_group_error_sticks(rows@, i + 1);
                }
                return Err(RegistryError { message: m });
            },
        };
        let same = match &current {
            Some(c) => crate::text::str_eq(c.as_str(), row.component_id.as_str()),
            None => false,
        };
        if same {
            let mut last = configs.pop().unwrap();
            match join {
                Some(j) => {
                    let ghost lj = last.varlena_join@.map_values(|j: VarlenJoin| j@);
                    last.varlena_join.push(j);
                    assert(last.varlena_join@.map_values(|j: VarlenJoin| j@) =~= lj.push(j@));
                },
                None => {},
            }
            configs.push(last);
            assert(configs@.map_values(|c: ComponentConfig| c@) =~= before.update(
                before.len() - 1,
                last@,
            ));
        } else {
            match parse_component_id(row.component_id.as_str()) {
                Ok((schema, table)) => {
                    let mut cfg = ComponentConfig {
                        schema,
                        table,
                        intent_density: row.intent_density,
                        rls_guard_bitmask: row.rls_guard_bitmask,
                        varlena_join: Vec::new(),
                    };
                    match join {
                        Some(j) => {
                            cfg.varlena_join.push(j);
                            assert(cfg.varlena_join@.map_values(|j: VarlenJoin| j@) =~= seq![j@]);
                        },
                        None => {
                            assert(cfg.varlena_join@.map_values(|j: VarlenJoin| j@) =~= Seq::<
                                JoinV,
                            >::empty());
                        },
                    }
                    configs.push(cfg);
                    assert(configs@.map_values(|c: ComponentConfig| c@) =~= before.push(cfg@));
                    current = Some(clone_string(&row.component_id));
                },
                Err(e) => {
                    proof {
                        lemma_group_error_sticks(rows@, i + 1);
                    }
                    return Err(e);
                },
            }
        }
        i += 1;
    }
    assert(rows@.take(i as int) =~= rows@);
    Ok(configs)
}

/// Once the grouping has failed, the rest of the rows changes nothing.
proof fn lemma_group_error_sticks(rows: Seq<RegistryRow>, k: int)
    requires
        0 <= k <= rows.len(),
        group_prefix(rows.take(k)) is Err,
    ensures
        group_prefix(rows) == group_prefix(rows.take(k)),
    decreases rows.len() - k,
{
    if k < rows.len() {
        assert(rows.take(k + 1).drop_last() =~= rows.take(k));
        lemma_group_error_sticks(rows, k + 1);
    } else {
        assert(rows.take(k) =~= rows);
    }
}

} // verus!
