//! Hoisting and de-duplication of the `{% script %}…{% endscript %}`
//! blocks of a linearised page, and their re-injection at a position chosen
//! by the build. Run once per compilation target that is a page; a
//! fragment compiled on its own never goes through this pass.

use vstd::prelude::*;
use crate::fragment::token::{FlatPageToken, TokenV, is_if_open, tokens_eq};

verus! {

/// Error of the hoisting pass.
#[derive(Debug, Clone, Copy, PartialEq, Eq, Structural)]
pub enum HoistError {
    /// A script block inside an open conditional block: its inclusion
    /// would depend on run-time data.
    ConditionalScript,
    /// `{% endscript %}` without an open `{% script %}`, or end of input
    /// with a block still open.
    UnbalancedScriptBlock,
}

/// The description of a hoisting error.
pub open spec fn hoist_message(e: HoistError) -> Seq<char> {
    match e {
        HoistError::ConditionalScript => "hoisting : un bloc {% script %}...{% endscript %} à l'intérieur d'un bloc {% if %} n'est pas supporté (portée conditionnelle non résolvable à la compilation) — voir doc de HoistError::ConditionalScript"@,
        HoistError::UnbalancedScriptBlock => "hoisting : bloc {% script %}/{% endscript %} déséquilibré (devrait avoir été détecté par validate_ast en amont)"@,
    }
}

impl HoistError {
    /// Human-readable description of the error (its `Display`).
    pub fn message(&self) -> (r: &'static str)
        ensures
            r@ == hoist_message(*self),
    {
        match self {
            HoistError::ConditionalScript => "hoisting : un bloc {% script %}...{% endscript %} à l'intérieur d'un bloc {% if %} n'est pas supporté (portée conditionnelle non résolvable à la compilation) — voir doc de HoistError::ConditionalScript",
            HoistError::UnbalancedScriptBlock => "hoisting : bloc {% script %}/{% endscript %} déséquilibré (devrait avoir été détecté par validate_ast en amont)",
        }
    }
}

/// State of the hoisting pass after a prefix of the tokens.
pub struct HoistState {
    /// Number of conditional blocks open.
    pub depth: nat,
    /// The block being captured, if inside `{% script %}`.
    pub capturing: Option<Seq<TokenV>>,
    /// Tokens kept in the page.
    pub output: Seq<TokenV>,
    /// Distinct blocks captured, in order of first appearance.
    pub blocks: Seq<Seq<TokenV>>,
    /// The error that stopped the pass, if any.
    pub failed: Option<HoistError>,
}

/// One token of the hoisting pass.
pub open spec fn hoist_step(st: HoistState, t: TokenV) -> HoistState {
    if st.failed is Some {
        st
    } else {
        match st.capturing {
            Some(b) => if t is ScriptEnd {
                HoistState {
                    capturing: None,
                    blocks: if st.blocks.contains(b) {
                        st.blocks
                    } else {
                        st.blocks.push(b)
                    },
                    ..st
                }
            } else {
                HoistState { capturing: Some(b.push(t)), ..st }
            },
            None => if is_if_open(t) {
                HoistState { depth: st.depth + 1, output: st.output.push(t), ..st }
            } else if t is EndIf {
                HoistState {
                    depth: if st.depth > 0 {
                        (st.depth - 1) as nat
                    } else {
                        0
                    },
                    output: st.output.push(t),
                    ..st
                }
            } else if t is ScriptStart {
                if st.depth > 0 {
                    HoistState { failed: Some(HoistError::ConditionalScript), ..st }
                } else {
                    HoistState { capturing: Some(Seq::empty()), ..st }
                }
            } else if t is ScriptEnd {
                HoistState { failed: Some(HoistError::UnbalancedScriptBlock), ..st }
            } else {
                HoistState { output: st.output.push(t), ..st }
            },
        }
    }
}

/// The hoisting pass over `ts` from the start.
pub open spec fn hoist_prefix(ts: Seq<TokenV>) -> HoistState
    decreases ts.len(),
{
    if ts.len() == 0 {
        HoistState {
            depth: 0,
            capturing: None,
            output: Seq::empty(),
            blocks: Seq::empty(),
            failed: None,
        }
    } else {
        hoist_step(hoist_prefix(ts.drop_last()), ts.last())
    }
}

/// What `hoist_and_dedupe_scripts` returns for `ts`.
pub open spec fn hoist_spec(ts: Seq<TokenV>) -> Result<(Seq<TokenV>, Seq<Seq<TokenV>>), HoistError> {
    let st = hoist_prefix(ts);
    match st.failed {
        Some(e) => Err(e),
        None => match st.capturing {
            Some(_) => Err(HoistError::UnbalancedScriptBlock),
            None => Ok((st.output, st.blocks)),
        },
    }
}

/// Value of a hoisting result.
pub open spec fn hoist_result_view<'src>(
    r: Result<(Vec<FlatPageToken<'src>>, Vec<Vec<FlatPageToken<'src>>>), HoistError>,
) -> Result<(Seq<TokenV>, Seq<Seq<TokenV>>), HoistError> {
    match r {
        Ok((o, b)) => Ok((o.deep_view(), b.deep_view())),
        Err(e) => Err(e),
    }
}

/// `block` is among `blocks`.
fn contains_block<'src>(blocks: &Vec<Vec<FlatPageToken<'src>>>, block: &Vec<FlatPageToken<'src>>) -> (r:
    bool)
    ensures
        r == blocks.deep_view().contains(block.deep_view()),
{
    let mut i: usize = 0;
    while i < blocks.len()
        invariant
            i <= blocks.len(),
            forall|k: int| 0 <= k < i ==> blocks.deep_view()[k] != block.deep_view(),
        decreases blocks.len() - i,
    {
        if tokens_eq(blocks[i].as_slice(), block.as_slice()) {
            assert(blocks.deep_view()[i as int] == block.deep_view());
            return true;
        }
        i += 1;
    }
    false
}

/// Extracts, de-duplicates (by content) and removes the unconditional
/// script blocks of a linearised page. Returns the page without them and
/// the distinct blocks in order of first appearance.
pub fn hoist_and_dedupe_scripts<'src>(tokens: Vec<FlatPageToken<'src>>) -> (r: Result<
    (Vec<FlatPageToken<'src>>, Vec<Vec<FlatPageToken<'src>>>),
    HoistError,
>)
    ensures
        hoist_result_view(r) == hoist_spec(tokens.deep_view()),
{
    let ghost ts = tokens.deep_view();
    let mut output: Vec<FlatPageToken<'src>> = Vec::new();
    let mut captured_blocks: Vec<Vec<FlatPageToken<'src>>> = Vec::new();
    let mut if_depth: usize = 0;
    let mut capturing = false;
    let mut block: Vec<FlatPageToken<'src>> = Vec::new();
    let mut i: usize = 0;
    assert(ts.take(0) =~= Seq::<TokenV>::empty());
    assert(output.deep_view() =~= Seq::<TokenV>::empty());
    assert(captured_blocks.deep_view() =~= Seq::<Seq<TokenV>>::empty());
    while i < tokens.len()
        invariant
            ts == tokens.deep_view(),
            i <= tokens.len(),
            if_depth <= i,
            ({
                let st = hoist_prefix(ts.take(i as int));
                &&& st.failed is None
                &&& st.depth == if_depth
                &&& st.capturing == (if capturing {
                    Some(block.deep_view())
                } else {
                    None
                })
                &&& st.output == output.deep_view()
                &&& st.blocks == captured_blocks.deep_view()
            }),
        decreases tokens.len() - i,
    {
        let t = tokens[i];
        assert(ts.take(i + 1).drop_last() =~= ts.take(i as int));
        assert(ts.take(i + 1).last() == t.deep_view());
        let ghost out0 = output.deep_view();
        let ghost blk0 = block.deep_view();
        let ghost blocks0 = captured_blocks.deep_view();
        if capturing {
            match t {
                FlatPageToken::ScriptEnd => {
                    capturing = false;
                    let seen = contains_block(&captured_blocks, &block);
                    let done = block;
                    block = Vec::new();
                    if !seen {
                        captured_blocks.push(done);
                        assert(captured_blocks.deep_view() =~= blocks0.push(blk0));
                    }
                },
                _ => {
                    block.push(t);
                    assert(block.deep_view() =~= blk0.push(t.deep_view()));
                },
            }
        } else {
            match t {
                FlatPageToken::IfBool { .. }
                | FlatPageToken::IfEq { .. }
                | FlatPageToken::IfNeq { .. } => {
                    if_depth = if_depth + 1;
                    output.push(t);
                    assert(output.deep_view() =~= out0.push(t.deep_view()));
                },
                FlatPageToken::EndIf => {
                    if if_depth > 0 {
                        if_depth = if_depth - 1;
                    }
                    output.push(t);
                    assert(output.deep_view() =~= out0.push(t.deep_view()));
                },
                FlatPageToken::ScriptStart => {
                    if if_depth > 0 {
                        assert(hoist_prefix(ts.take(i + 1)).failed == Some(
                            HoistError::ConditionalScript,
                        ));
                        proof { lemma_failed_sticks(ts, i + 1); }
                        return Err(HoistError::ConditionalScript);
                    }
                    capturing = true;
                    block = Vec::new();
                    assert(block.deep_view() =~= Seq::<TokenV>::empty());
                },
                FlatPageToken::ScriptEnd => {
                    assert(hoist_prefix(ts.take(i + 1)).failed == Some(
                        HoistError::UnbalancedScriptBlock,
                    ));
                    proof { lemma_failed_sticks(ts, i + 1); }
                    return Err(HoistError::UnbalancedScriptBlock);
                },
                _ => {
                    output.push(t);
                    assert(output.deep_view() =~= out0.push(t.deep_view()));
                },
            }
        }
        i = i + 1;
    }
    assert(ts.take(i as int) =~= ts);
    if capturing {
        return Err(HoistError::UnbalancedScriptBlock);
    }
    Ok((output, captured_blocks))
}

/// Once the pass has failed, the rest of the input changes nothing.
proof fn lemma_failed_sticks(ts: Seq<TokenV>, k: int)
    requires
        0 <= k <= ts.len(),
        hoist_prefix(ts.take(k)).failed is Some,
    ensures
        hoist_prefix(ts) == hoist_prefix(ts.take(k)),
    decreases ts.len() - k,
{
    if k < ts.len() {
        assert(ts.take(k + 1).drop_last() =~= ts.take(k));
        lemma_failed_sticks(ts, k + 1);
    } else {
        assert(ts.take(k) =~= ts);
    }
}

/// `tokens` with the blocks, concatenated in order, inserted at
/// `min(at, tokens.len())`.
pub open spec fn splice_spec(ts: Seq<TokenV>, blocks: Seq<Seq<TokenV>>, at: int) -> Seq<TokenV> {
    let k = if at < ts.len() {
        at
    } else {
        ts.len() as int
    };
    ts.take(k) + blocks.flatten() + ts.skip(k)
}

/// Re-injects the hoisted blocks, concatenated in the order given, at
/// `at_index` (clamped to the end); the token at that position moves
/// after them. With no block, `tokens` comes back unchanged.
pub fn splice_hoisted_scripts<'src>(
    tokens: Vec<FlatPageToken<'src>>,
    hoisted_blocks: &[Vec<FlatPageToken<'src>>],
    at_index: usize,
) -> (r: Vec<FlatPageToken<'src>>)
    ensures
        r.deep_view() == splice_spec(tokens.deep_view(), hoisted_blocks.deep_view(), at_index as int),
        hoisted_blocks@.len() == 0 ==> r@ == tokens@,
{
    if hoisted_blocks.len() == 0 {
        proof {
            assert(hoisted_blocks.deep_view().len() == 0);
            assert(hoisted_blocks.deep_view().flatten() =~= Seq::<TokenV>::empty());
            let k = if (at_index as int) < tokens@.len() {
                at_index as int
            } else {
                tokens@.len() as int
            };
            assert(tokens.deep_view() =~= tokens.deep_view().take(k) + Seq::<TokenV>::empty()
                + tokens.deep_view().skip(k));
        }
        return tokens;
    }
    let ghost ts = tokens.deep_view();
    let ghost bs = hoisted_blocks.deep_view();
    let insert_at = if at_index < tokens.len() {
        at_index
    } else {
        tokens.len()
    };
    let mut out: Vec<FlatPageToken<'src>> = Vec::new();
    let mut i: usize = 0;
    while i < insert_at
        invariant
            insert_at <= tokens.len(),
            ts == tokens.deep_view(),
            i <= insert_at,
            out.deep_view() == ts.take(i as int),
        decreases insert_at - i,
    {
        out.push(tokens[i]);
        assert(ts.take(i + 1) =~= ts.take(i as int).push(tokens[i as int].deep_view()));
        i += 1;
    }
    let mut b: usize = 0;
    assert(bs.take(0).flatten() =~= Seq::<TokenV>::empty());
    assert(out.deep_view() =~= ts.take(insert_at as int) + bs.take(0).flatten());
    while b < hoisted_blocks.len()
        invariant
            bs == hoisted_blocks.deep_view(),
            b <= hoisted_blocks.len(),
            out.deep_view() == ts.take(insert_at as int) + bs.take(b as int).flatten(),
        decreases hoisted_blocks.len() - b,
    {
        let captured = &hoisted_blocks[b];
        let ghost before = out.deep_view();
        let mut j: usize = 0;
        while j < captured.len()
            invariant
                j <= captured.len(),
                out.deep_view() == before + captured.deep_view().take(j as int),
            decreases captured.len() - j,
        {
            let ghost o = out.deep_view();
            out.push(captured[j]);
            assert(out.deep_view() =~= o.push(captured[j as int].deep_view()));
            assert(captured.deep_view().take(j + 1) =~= captured.deep_view().take(j as int).push(
                captured[j as int].deep_view(),
            ));
            assert(before + captured.deep_view().take(j + 1) =~= (before + captured.deep_view().take(
                j as int,
            )).push(captured[j as int].deep_view()));
            j += 1;
        }
        proof {
            assert(captured.deep_view().take(j as int) =~= captured.deep_view());
            assert(bs.take(b + 1) =~= bs.take(b as int).push(bs[b as int]));
            bs.take(b as int).lemma_flatten_push(bs[b as int]);
            assert(bs[b as int] == captured.deep_view());
        }
        b += 1;
    }
    assert(bs.take(b as int) =~= bs);
    let mut k: usize = insert_at;
    let ghost mid = out.deep_view();
    while k < tokens.len()
        invariant
            insert_at <= k <= tokens.len(),
            ts == tokens.deep_view(),
            out.deep_view() == mid + ts.subrange(insert_at as int, k as int),
        decreases tokens.len() - k,
    {
        let ghost o = out.deep_view();
        out.push(tokens[k]);
        assert(out.deep_view() =~= o.push(tokens[k as int].deep_view()));
        assert(mid + ts.subrange(insert_at as int, k + 1) =~= (mid + ts.subrange(insert_at as int, k as int)).push(
            tokens[k as int].deep_view(),
        ));
        assert(ts.subrange(insert_at as int, k + 1) =~= ts.subrange(insert_at as int, k as int).push(
            tokens[k as int].deep_view(),
        ));
        k += 1;
    }
    assert(ts.subrange(insert_at as int, ts.len() as int) =~= ts.skip(insert_at as int));
    out
}

/// A successful hoisting leaves no script marker in the page and captures
/// no block twice.
pub proof fn hoisting_removes_markers_and_duplicates(ts: Seq<TokenV>)
    requires
        hoist_spec(ts) is Ok,
    ensures
        ({
            let (out, blocks) = hoist_spec(ts)->Ok_0;
            &&& forall|j: int|
                0 <= j < out.len() ==> !(#[trigger] out[j] is ScriptStart) && !(out[j] is ScriptEnd)
            &&& forall|a: int, b: int| 0 <= a < b < blocks.len() ==> blocks[a] != blocks[b]
        }),
{
    lemma_hoist_invariant(ts);
}

/// Conditional scripts are detected whatever the kind of the condition
/// around them: two streams that differ only in which condition (`if`,
/// `==`, `!=`) opens a block at some positions fail alike, with the same
/// error.
pub proof fn hoisting_ignores_the_kind_of_condition(ts1: Seq<TokenV>, ts2: Seq<TokenV>)
    requires
        ts1.len() == ts2.len(),
        forall|i: int|
            0 <= i < ts1.len() ==> ts1[i] == ts2[i] || (is_if_open(ts1[i]) && is_if_open(ts2[i])),
    ensures
        hoist_spec(ts1) is Err <==> hoist_spec(ts2) is Err,
        hoist_spec(ts1) is Err ==> hoist_spec(ts1) == hoist_spec(ts2),
{
    lemma_hoist_shape_agrees(ts1, ts2);
}

proof fn lemma_hoist_shape_agrees(ts1: Seq<TokenV>, ts2: Seq<TokenV>)
    requires
        ts1.len() == ts2.len(),
        forall|i: int|
            0 <= i < ts1.len() ==> ts1[i] == ts2[i] || (is_if_open(ts1[i]) && is_if_open(ts2[i])),
    ensures
        hoist_prefix(ts1).failed == hoist_prefix(ts2).failed,
        hoist_prefix(ts1).depth == hoist_prefix(ts2).depth,
        hoist_prefix(ts1).capturing is Some <==> hoist_prefix(ts2).capturing is Some,
    decreases ts1.len(),
{
    if ts1.len() > 0 {
        let p1 = ts1.drop_last();
        let p2 = ts2.drop_last();
        assert forall|i: int| 0 <= i < p1.len() implies p1[i] == p2[i] || (is_if_open(p1[i])
            && is_if_open(p2[i])) by {
            assert(p1[i] == ts1[i] && p2[i] == ts2[i]);
        }
        lemma_hoist_shape_agrees(p1, p2);
        assert(ts1.last() == ts2.last() || (is_if_open(ts1.last()) && is_if_open(ts2.last())));
    }
}

proof fn lemma_hoist_invariant(ts: Seq<TokenV>)
    ensures
        ({
            let st = hoist_prefix(ts);
            &&& forall|j: int|
                0 <= j < st.output.len() ==> !(#[trigger] st.output[j] is ScriptStart)
                    && !(st.output[j] is ScriptEnd)
            &&& forall|a: int, b: int|
                0 <= a < b < st.blocks.len() ==> st.blocks[a] != st.blocks[b]
        }),
    decreases ts.len(),
{
    if ts.len() > 0 {
        lemma_hoist_invariant(ts.drop_last());
        let p = hoist_prefix(ts.drop_last());
        let st = hoist_prefix(ts);
        assert(st == hoist_step(p, ts.last()));
        if p.failed is None && p.capturing is Some && ts.last() is ScriptEnd {
            let b = p.capturing->Some_0;
            if !p.blocks.contains(b) {
                assert forall|x: int, y: int| 0 <= x < y < st.blocks.len() implies st.blocks[x]
                    != st.blocks[y] by {
                    if y == p.blocks.len() {
                        assert(st.blocks[y] == b);
                        assert(st.blocks[x] == p.blocks[x]);
                    }
                }
            }
        }
    }
}

} // verus!
