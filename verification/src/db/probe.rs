//! The introspection of one varlena column as a sequence of decisions:
//! from its type modifier and comment, then from the `CHECK` constraint
//! read when the type gives no bound, then from the observed average
//! width. Each step says what to read next; the caller does the reading.

use vstd::prelude::*;
use crate::db::introspect::{
    MAX_ESCAPED_BYTES, avg_width_pressure, check_limit_spec, classify_description, classify_spec,
    escaped_limit_exceeded, max_len_from_typmod, parse_check_length_limit, varlena_field,
};
use crate::schema::{EscapePolicy, VarlenField};
use crate::text::{decimal, decimal_int, push_i64, push_str, push_usize};

verus! {

/// A varlena column being introspected.
#[derive(Debug)]
pub struct VarlenaProbe {
    pub schema: String,
    pub table: String,
    pub name: String,
    pub escape_policy: EscapePolicy,
    pub is_segment: bool,
    pub max_len: Option<usize>,
}

/// What the introspection of a column needs next.
#[derive(Debug, PartialEq, Eq)]
pub enum VarlenaNext {
    /// The text of the column's `CHECK` constraint on its length, if any.
    ReadCheck,
    /// The column's average width in `pg_stats`, if any (the bound is
    /// given).
    ReadStats(usize),
    /// Nothing more: the field is complete.
    Done,
    /// The column is refused, with this message.
    Refuse(String),
}

pub enum NextV {
    ReadCheck,
    ReadStats(usize),
    Done,
    Refuse(Seq<char>),
}

impl View for VarlenaNext {
    type V = NextV;

    open spec fn view(&self) -> NextV {
        match self {
            VarlenaNext::ReadCheck => NextV::ReadCheck,
            VarlenaNext::ReadStats(n) => NextV::ReadStats(*n),
            VarlenaNext::Done => NextV::Done,
            VarlenaNext::Refuse(m) => NextV::Refuse(m@),
        }
    }
}

/// `DB-Forge [schema.table.name]: `
pub open spec fn probe_tag(p: VarlenaProbe) -> Seq<char> {
    "DB-Forge ["@ + p.schema@ + "."@ + p.table@ + "."@ + p.name@ + "]: "@
}

/// Bytes of a value of `n` characters once escaped by `policy`.
pub open spec fn escaped_bytes(n: usize, policy: EscapePolicy) -> int {
    if policy == EscapePolicy::Escaped {
        n * VarlenField::HTML_ESCAPE_FACTOR
    } else {
        n as int
    }
}

/// `x`, capped at `usize::MAX`.
pub open spec fn capped(x: int) -> usize {
    if x > usize::MAX {
        usize::MAX
    } else {
        x as usize
    }
}

pub open spec fn refuse_message(p: VarlenaProbe, escaped: usize) -> Seq<char> {
    probe_tag(p) + "max_escaped_len ("@ + decimal(escaped as nat)
        + "B) > 64 KB. Réduire la contrainte VARCHAR/CHECK, ou tagger la colonne 'marius:large_content' si le contenu doit légitimement dépasser cette borne (projection segmentée)."@
}

/// Once the bound is settled: nothing to check without one; a bounded
/// field that is not a segment and whose escaped bound exceeds 64 KB is
/// refused; otherwise the average width is read.
pub open spec fn next_after_bound(p: VarlenaProbe) -> NextV {
    match p.max_len {
        None => NextV::Done,
        Some(n) => if !p.is_segment && escaped_bytes(n, p.escape_policy) > MAX_ESCAPED_BYTES {
            NextV::Refuse(refuse_message(p, capped(escaped_bytes(n, p.escape_policy))))
        } else {
            NextV::ReadStats(n)
        },
    }
}

pub open spec fn unparsable_warning(p: VarlenaProbe, consrc: Seq<char>) -> Seq<char> {
    "cargo:warning="@ + probe_tag(p) + "CHECK trouvé mais longueur non parsable : `"@ + consrc
        + "`. Traité comme non borné (max_len=None) — voir ADR-007."@
}

pub open spec fn unbounded_warning(p: VarlenaProbe) -> Seq<char> {
    "cargo:warning="@ + probe_tag(p)
        + "TEXT sans contrainte de longueur — champ non borné (Cold sauf si référencé par un template, alors erreur de compilation)."@
}

pub open spec fn pressure_warning(p: VarlenaProbe, avg_width: i32, n: usize) -> Seq<char> {
    "cargo:warning="@ + probe_tag(p) + "avg_width observé ("@ + decimal_int(avg_width as int)
        + "B) > 80% de max_len ("@ + decimal(n as nat) + "B). Pression sur DYNAMIC_CAP."@
}

fn push_tag(out: &mut String, p: &VarlenaProbe)
    ensures
        final(out)@ == old(out)@ + probe_tag(*p),
{
    push_str(out, "DB-Forge [");
    push_str(out, p.schema.as_str());
    push_str(out, ".");
    push_str(out, p.table.as_str());
    push_str(out, ".");
    push_str(out, p.name.as_str());
    push_str(out, "]: ");
    assert(out@ =~= old(out)@ + probe_tag(*p));
}

fn next_after_bound_exec(p: &VarlenaProbe) -> (r: VarlenaNext)
    ensures
        r@ == next_after_bound(*p),
{
    match p.max_len {
        None => VarlenaNext::Done,
        Some(n) => {
            if !p.is_segment {
                match escaped_limit_exceeded(n, p.escape_policy) {
                    Some(escaped) => {
                        let mut m = String::new();
                        push_tag(&mut m, p);
                        push_str(&mut m, "max_escaped_len (");
                        push_usize(&mut m, escaped);
                        push_str(
                            &mut m,
                            "B) > 64 KB. Réduire la contrainte VARCHAR/CHECK, ou tagger la colonne 'marius:large_content' si le contenu doit légitimement dépasser cette borne (projection segmentée).",
                        );
                        assert(m@ =~= refuse_message(*p, capped(escaped_bytes(n, p.escape_policy))));
                        return VarlenaNext::Refuse(m);
                    },
                    None => {},
                }
            }
            VarlenaNext::ReadStats(n)
        },
    }
}

/// Starts the introspection of column `name` of `schema.table`: escaping
/// and segmentation from the comment, the bound from a `varchar(N)` type
/// modifier; without one, the `CHECK` constraint is read next.
pub fn probe_start(schema: &str, table: &str, name: String, typmod: i32, description: &str) -> (r: (
    VarlenaProbe,
    VarlenaNext,
))
    ensures
        r.0.schema@ == schema@,
        r.0.table@ == table@,
        r.0.name@ == name@,
        (r.0.escape_policy, r.0.is_segment) == classify_spec(description@),
        typmod > 4 ==> r.0.max_len == Some((typmod - 4) as usize) && r.1@ == next_after_bound(r.0),
        typmod <= 4 ==> r.0.max_len is None && r.1 is ReadCheck,
{
    let (escape_policy, is_segment) = classify_description(description);
    let mut s = String::new();
    push_str(&mut s, schema);
    let mut t = String::new();
    push_str(&mut t, table);
    let max_len = max_len_from_typmod(typmod);
    let probe = VarlenaProbe { schema: s, table: t, name, escape_policy, is_segment, max_len };
    let next = match probe.max_len {
        Some(_) => next_after_bound_exec(&probe),
        None => VarlenaNext::ReadCheck,
    };
    (probe, next)
}

/// Takes the text of the column's `CHECK` constraint (`None` when there
/// is none): its bound, if it can be read, becomes the field's; otherwise
/// the field stays unbounded, with a build warning.
pub fn probe_after_check(probe: &mut VarlenaProbe, consrc: Option<&str>) -> (r: (Option<String>, VarlenaNext))
    requires
        old(probe).max_len is None,
    ensures
        final(probe).schema == old(probe).schema,
        final(probe).table == old(probe).table,
        final(probe).name == old(probe).name,
        final(probe).escape_policy == old(probe).escape_policy,
        final(probe).is_segment == old(probe).is_segment,
        final(probe).max_len == match consrc {
            Some(c) => check_limit_spec(c@),
            None => None,
        },
        match consrc {
            Some(c) => match check_limit_spec(c@) {
                Some(_) => r.0 is None,
                None => r.0 matches Some(w) && w@ == unparsable_warning(*old(probe), c@),
            },
            None => r.0 matches Some(w) && w@ == unbounded_warning(*old(probe)),
        },
        r.1@ == next_after_bound(*final(probe)),
{
    let warning = match consrc {
        Some(c) => {
            let bound = parse_check_length_limit(c);
            probe.max_len = bound;
            match bound {
                Some(_) => None,
                None => {
                    let mut w = String::new();
                    push_str(&mut w, "cargo:warning=");
                    push_tag(&mut w, probe);
                    push_str(&mut w, "CHECK trouvé mais longueur non parsable : `");
                    push_str(&mut w, c);
                    push_str(&mut w, "`. Traité comme non borné (max_len=None) — voir ADR-007.");
                    assert(w@ =~= unparsable_warning(*old(probe), c@));
                    Some(w)
                },
            }
        },
        None => {
            let mut w = String::new();
            push_str(&mut w, "cargo:warning=");
            push_tag(&mut w, probe);
            push_str(
                &mut w,
                "TEXT sans contrainte de longueur — champ non borné (Cold sauf si référencé par un template, alors erreur de compilation).",
            );
            assert(w@ =~= unbounded_warning(*old(probe)));
            Some(w)
        },
    };
    let next = next_after_bound_exec(probe);
    (warning, next)
}

/// Takes the column's observed average width (`None` without statistics):
/// above 80% of the bound, a build warning.
pub fn probe_after_stats(probe: &VarlenaProbe, avg_width: Option<i32>) -> (r: Option<String>)
    requires
        probe.max_len is Some,
    ensures
        match avg_width {
            Some(a) => if (a as usize) as int > (probe.max_len->Some_0 * 8) / 10 {
                r matches Some(w) && w@ == pressure_warning(*probe, a, probe.max_len->Some_0)
            } else {
                r is None
            },
            None => r is None,
        },
{
    let n = match probe.max_len {
        Some(n) => n,
        None => 0,
    };
    match avg_width {
        Some(a) => {
            if avg_width_pressure(a, n) {
                let mut w = String::new();
                push_str(&mut w, "cargo:warning=");
                push_tag(&mut w, probe);
                push_str(&mut w, "avg_width observé (");
                push_i64(&mut w, a as i64);
                push_str(&mut w, "B) > 80% de max_len (");
                push_usize(&mut w, n);
                push_str(&mut w, "B). Pression sur DYNAMIC_CAP.");
                assert(w@ =~= pressure_warning(*probe, a, n));
                Some(w)
            } else {
                None
            }
        },
        None => None,
    }
}

/// The introspected field (nullable, no override of the escaped length).
pub fn probe_finish(probe: VarlenaProbe) -> (r: VarlenField)
    ensures
        r.name@ == probe.name@,
        r.ref_schema@ == probe.schema@,
        r.ref_table@ == probe.table@,
        r.max_len == probe.max_len,
        r.escape_policy == probe.escape_policy,
        r.is_segment == probe.is_segment,
        r.nullable,
        r.max_escaped_len_override is None,
{
    varlena_field(
        probe.name,
        probe.schema.as_str(),
        probe.table.as_str(),
        probe.max_len,
        probe.escape_policy,
        probe.is_segment,
    )
}

} // verus!
