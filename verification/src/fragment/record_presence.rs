//! Elimination of `record.*` conditions for a compilation unit without a
//! record. Without a record every condition (`IfBool`, `IfEq`, `IfNeq`) is
//! statically false: its `if` branch goes, its `else` branch (if any)
//! stays, and the markers themselves disappear. With a record the pass is
//! the identity.

use vstd::prelude::*;
use crate::fragment::token::{FlatPageToken, TokenV, is_if_open};
use crate::fragment::validator::{IfStateV, semantic_errors, validate_prefix, validate_step};
use crate::schema::SchemaIndex;

verus! {

/// The compilation unit has a record: the schema holds at least one field.
pub open spec fn has_record_spec(schema: SchemaIndex<'_>) -> bool {
    schema.fixed@.len() > 0 || schema.varlena@.len() > 0
}

/// True if the schema holds at least one field, fixed or varlena.
pub fn has_record(schema: &SchemaIndex<'_>) -> (b: bool)
    ensures
        b == has_record_spec(*schema),
{
    schema.fixed.len() != 0 || schema.varlena.len() != 0
}

/// Where the elimination stands relative to the current condition.
pub enum ElimMode {
    /// Outside any condition.
    Out,
    /// In the `if` branch of a condition: dropped.
    SkipIf,
    /// In the `else` branch: kept.
    KeepElse,
}

/// One token of the elimination: the next mode and the kept tokens.
pub open spec fn elim_step(st: (ElimMode, Seq<TokenV>), t: TokenV) -> (ElimMode, Seq<TokenV>) {
    let (mode, out) = st;
    match mode {
        ElimMode::Out => if is_if_open(t) {
            (ElimMode::SkipIf, out)
        } else {
            (ElimMode::Out, out.push(t))
        },
        ElimMode::SkipIf => if t is Else {
            (ElimMode::KeepElse, out)
        } else if t is EndIf {
            (ElimMode::Out, out)
        } else {
            (ElimMode::SkipIf, out)
        },
        ElimMode::KeepElse => if t is Else {
            (ElimMode::KeepElse, out)
        } else if t is EndIf {
            (ElimMode::Out, out)
        } else {
            (ElimMode::KeepElse, out.push(t))
        },
    }
}

/// The elimination run over `ts` from the start.
pub open spec fn elim_prefix(ts: Seq<TokenV>) -> (ElimMode, Seq<TokenV>)
    decreases ts.len(),
{
    if ts.len() == 0 {
        (ElimMode::Out, Seq::empty())
    } else {
        elim_step(elim_prefix(ts.drop_last()), ts.last())
    }
}

/// What remains of `ts` in a unit without a record.
pub open spec fn recordless_spec(ts: Seq<TokenV>) -> Seq<TokenV> {
    elim_prefix(ts).1
}

/// Removes the `record.*` conditions of a unit without a record (the `if`
/// branch goes, the `else` branch stays); with a record, returns `tokens`
/// unchanged. On a stream that did not pass `validate_ast`, it stops at the
/// end of the stream without failing.
pub fn eliminate_recordless_conditions<'src>(
    tokens: Vec<FlatPageToken<'src>>,
    schema: &SchemaIndex<'_>,
) -> (r: Vec<FlatPageToken<'src>>)
    ensures
        has_record_spec(*schema) ==> r@ == tokens@,
        !has_record_spec(*schema) ==> r.deep_view() == recordless_spec(tokens.deep_view()),
{
    if has_record(schema) {
        return tokens;
    }
    let ghost ts = tokens.deep_view();
    let mut output: Vec<FlatPageToken<'src>> = Vec::new();
    let mut skipping = false;
    let mut keeping = false;
    let mut i: usize = 0;
    assert(ts.take(0) =~= Seq::<TokenV>::empty());
    assert(output.deep_view() =~= Seq::<TokenV>::empty());
    while i < tokens.len()
        invariant
            ts == tokens.deep_view(),
            i <= tokens.len(),
            !(skipping && keeping),
            elim_prefix(ts.take(i as int)) == (
            if skipping {
                ElimMode::SkipIf
            } else if keeping {
                ElimMode::KeepElse
            } else {
                ElimMode::Out
            },
            output.deep_view(),
        ),
        decreases tokens.len() - i,
    {
        let t = tokens[i];
        assert(ts.take(i + 1).drop_last() =~= ts.take(i as int));
        assert(ts.take(i + 1).last() == t.deep_view());
        let ghost before = output.deep_view();
        let inside = skipping || keeping;
        if !inside {
            match t {
                FlatPageToken::IfBool { .. }
                | FlatPageToken::IfEq { .. }
                | FlatPageToken::IfNeq { .. } => {
                    skipping = true;
                },
                _ => {
                    output.push(t);
                    assert(output.deep_view() =~= before.push(t.deep_view()));
                },
            }
        } else {
            match t {
                FlatPageToken::Else => {
                    skipping = false;
                    keeping = true;
                },
                FlatPageToken::EndIf => {
                    skipping = false;
                    keeping = false;
                },
                _ => {
                    if keeping {
                        output.push(t);
                        assert(output.deep_view() =~= before.push(t.deep_view()));
                    }
                },
            }
        }
        i = i + 1;
    }
    assert(ts.take(i as int) =~= ts);
    output
}

/// A conditional marker: an opener, `else` or `endif`.
pub open spec fn is_cond_marker(t: TokenV) -> bool {
    is_if_open(t) || t is Else || t is EndIf
}

/// The errors of a prefix walk never shrink as the walk goes on.
pub proof fn lemma_errors_grow(ts: Seq<TokenV>, k: int)
    requires
        0 <= k <= ts.len(),
    ensures
        validate_prefix(ts.take(k)).errors.len() <= validate_prefix(ts).errors.len(),
    decreases ts.len() - k,
{
    if k < ts.len() {
        lemma_errors_grow(ts, k + 1);
        let p = ts.take(k + 1);
        assert(p.drop_last() =~= ts.take(k));
    } else {
        assert(ts.take(k) =~= ts);
    }
}

/// Without errors so far, the validator state and the elimination mode
/// agree, and nothing kept is a conditional marker.
proof fn lemma_modes_agree(ts: Seq<TokenV>)
    requires
        validate_prefix(ts).errors.len() == 0,
    ensures
        match (validate_prefix(ts).cond, elim_prefix(ts).0) {
            (IfStateV::Closed, ElimMode::Out) => true,
            (IfStateV::Open { .. }, ElimMode::SkipIf) => true,
            (IfStateV::InElse { .. }, ElimMode::KeepElse) => true,
            _ => false,
        },
        forall|j: int|
            0 <= j < elim_prefix(ts).1.len() ==> !is_cond_marker(#[trigger] elim_prefix(ts).1[j]),
    decreases ts.len(),
{
    if ts.len() > 0 {
        let p = ts.drop_last();
        lemma_errors_grow(ts, ts.len() - 1);
        assert(ts.take(ts.len() - 1) =~= p);
        lemma_modes_agree(p);
        let st = validate_prefix(p);
        let t = ts.last();
        assert(validate_prefix(ts) == validate_step(st, t));
    }
}

/// A unit without a record whose template passed validation keeps no
/// conditional marker: every `if`, `else` and `endif` is gone.
pub proof fn recordless_output_has_no_conditions(ts: Seq<TokenV>)
    requires
        semantic_errors(ts).len() == 0,
    ensures
        forall|j: int|
            0 <= j < recordless_spec(ts).len() ==> !is_cond_marker(#[trigger] recordless_spec(ts)[j]),
{
    lemma_modes_agree(ts);
}

/// A template without any conditional marker comes out of the
/// elimination unchanged.
pub proof fn recordless_is_identity_without_conditions(ts: Seq<TokenV>)
    requires
        forall|j: int| 0 <= j < ts.len() ==> !is_cond_marker(#[trigger] ts[j]),
    ensures
        recordless_spec(ts) == ts,
    decreases ts.len(),
{
    if ts.len() > 0 {
        let p = ts.drop_last();
        assert forall|j: int| 0 <= j < p.len() implies !is_cond_marker(#[trigger] p[j]) by {
            assert(p[j] == ts[j]);
        }
        recordless_is_identity_without_conditions(p);
        lemma_out_mode_without_conditions(p);
        assert(!is_cond_marker(ts[ts.len() - 1]));
        assert(p.push(ts.last()) =~= ts);
    }
}

proof fn lemma_out_mode_without_conditions(ts: Seq<TokenV>)
    requires
        forall|j: int| 0 <= j < ts.len() ==> !is_cond_marker(#[trigger] ts[j]),
    ensures
        elim_prefix(ts).0 is Out,
    decreases ts.len(),
{
    if ts.len() > 0 {
        let p = ts.drop_last();
        assert forall|j: int| 0 <= j < p.len() implies !is_cond_marker(#[trigger] p[j]) by {
            assert(p[j] == ts[j]);
        }
        lemma_out_mode_without_conditions(p);
        assert(!is_cond_marker(ts[ts.len() - 1]));
    }
}

} // verus!
