//! Block collection of one page template: every `{% block %}` becomes a
//! range tagged with its template and linked to its enclosing block;
//! unsupported keywords are reported (all of them, no fail-fast).

use vstd::prelude::*;
use crate::page::model::{
    NamedBlockRange, PageBlockToken, PageValidationError, RangeV, TemplateId, ValidationErrV,
};
use crate::page::token::{PageSourceToken, PageTokV};
use crate::text::str_eq;

verus! {

/// Nesting depth of blocks after `ts`; `None` if some `endblock` closes
/// nothing.
pub open spec fn block_depth(ts: Seq<PageTokV>) -> Option<nat>
    decreases ts.len(),
{
    if ts.len() == 0 {
        Some(0)
    } else {
        match block_depth(ts.drop_last()) {
            None => None,
            Some(d) => match ts.last() {
                PageTokV::BlockOpen(_) => Some(d + 1),
                PageTokV::BlockEnd => if d == 0 {
                    None
                } else {
                    Some((d - 1) as nat)
                },
                _ => Some(d),
            },
        }
    }
}

/// Every `endblock` closes an open block and every block is closed.
pub open spec fn blocks_balanced(ts: Seq<PageTokV>) -> bool {
    block_depth(ts) == Some(0nat)
}

/// State of the block collection.
pub struct BlocksState {
    /// Indices (in `ranges`) of the blocks still open, innermost last.
    pub stack: Seq<int>,
    pub ranges: Seq<RangeV>,
    pub errors: Seq<ValidationErrV>,
}

/// The error an unsupported keyword raises.
pub open spec fn unsupported_error(keyword: Seq<char>) -> ValidationErrV {
    if keyword == "for"@ {
        ValidationErrV::ForLoopDetected
    } else {
        ValidationErrV::RelationalKeyword { keyword }
    }
}

/// The collection after the token at index `k`.
pub open spec fn blocks_step(template: u32, st: BlocksState, k: int, t: PageTokV) -> BlocksState {
    match t {
        PageTokV::BlockOpen(name) => BlocksState {
            stack: st.stack.push(st.ranges.len() as int),
            ranges: st.ranges.push(
                RangeV {
                    name,
                    template,
                    start: (k + 1) as usize,
                    end: (k + 1) as usize,
                    parent_index: if st.stack.len() > 0 {
                        Some(st.stack.last() as usize)
                    } else {
                        None
                    },
                },
            ),
            ..st
        },
        PageTokV::BlockEnd => {
            let idx = st.stack.last();
            BlocksState {
                stack: st.stack.drop_last(),
                ranges: st.ranges.update(idx, RangeV { end: k as usize, ..st.ranges[idx] }),
                ..st
            }
        },
        PageTokV::Unsupported { keyword, .. } => BlocksState {
            errors: st.errors.push(unsupported_error(keyword)),
            ..st
        },
        _ => st,
    }
}

pub open spec fn blocks_prefix(template: u32, ts: Seq<PageTokV>) -> BlocksState
    decreases ts.len(),
{
    if ts.len() == 0 {
        BlocksState { stack: Seq::empty(), ranges: Seq::empty(), errors: Seq::empty() }
    } else {
        blocks_step(template, blocks_prefix(template, ts.drop_last()), ts.len() - 1, ts.last())
    }
}

/// What `collect_blocks` returns.
pub open spec fn collect_blocks_spec(template: u32, ts: Seq<PageTokV>) -> Result<
    Seq<RangeV>,
    Seq<ValidationErrV>,
> {
    let st = blocks_prefix(template, ts);
    if st.errors.len() == 0 {
        Ok(st.ranges)
    } else {
        Err(st.errors)
    }
}

pub open spec fn blocks_result_view<'src>(
    r: Result<Vec<NamedBlockRange<'src>>, Vec<PageValidationError<'src>>>,
) -> Result<Seq<RangeV>, Seq<ValidationErrV>> {
    match r {
        Ok(v) => Ok(v.deep_view()),
        Err(e) => Err(e@.map_values(|x: PageValidationError<'src>| x@)),
    }
}

proof fn lemma_depth_prefix(ts: Seq<PageTokV>, k: int)
    requires
        0 <= k <= ts.len(),
        block_depth(ts) is Some,
    ensures
        block_depth(ts.take(k)) is Some,
    decreases ts.len() - k,
{
    if k < ts.len() {
        lemma_depth_prefix(ts, k + 1);
        assert(ts.take(k + 1).drop_last() =~= ts.take(k));
    } else {
        assert(ts.take(k) =~= ts);
    }
}

/// Every block range is well formed and lies inside the range of its
/// enclosing block, which comes earlier in the list.
pub open spec fn nested_within(ranges: Seq<RangeV>) -> bool {
    forall|i: int|
        0 <= i < ranges.len() ==> {
            &&& (#[trigger] ranges[i]).start <= ranges[i].end
            &&& match ranges[i].parent_index {
                Some(p) => p < i && ranges[p as int].start <= ranges[i].start && ranges[i].end
                    <= ranges[p as int].end,
                None => true,
            }
        }
}

/// One open block, at position `q` of the stack: a valid index, an empty
/// range so far, and the block below it as parent.
spec fn stack_entry_inv(st: BlocksState, q: int) -> bool {
    &&& 0 <= st.stack[q] < st.ranges.len()
    &&& st.ranges[st.stack[q]].end == st.ranges[st.stack[q]].start
    &&& st.ranges[st.stack[q]].parent_index == if q == 0 {
        None
    } else {
        Some(st.stack[q - 1] as usize)
    }
}

/// One range: well formed, started by `n`, ended by `n` once closed, and
/// inside its parent (which comes earlier, starts no later, and once
/// closed ends no earlier, its child then being closed too).
spec fn range_inv(st: BlocksState, n: int, i: int) -> bool {
    &&& st.ranges[i].start <= st.ranges[i].end
    &&& st.ranges[i].start <= n
    &&& (!st.stack.contains(i) ==> st.ranges[i].end <= n)
    &&& match st.ranges[i].parent_index {
        Some(p) => p < i && st.ranges[p as int].start <= st.ranges[i].start && (!st.stack.contains(
            p as int,
        ) ==> !st.stack.contains(i) && st.ranges[i].end <= st.ranges[p as int].end),
        None => true,
    }
}

/// What holds of the collection after `n` tokens.
spec fn blocks_inv(st: BlocksState, n: int) -> bool {
    &&& st.ranges.len() <= n
    &&& forall|a: int, b: int|
        0 <= a < b < st.stack.len() ==> #[trigger] st.stack[a] < #[trigger] st.stack[b]
    &&& forall|q: int| 0 <= q < st.stack.len() ==> #[trigger] stack_entry_inv(st, q)
    &&& forall|i: int| 0 <= i < st.ranges.len() ==> #[trigger] range_inv(st, n, i)
}

proof fn lemma_push_contains(stack: Seq<int>, j: int, i: int)
    requires
        forall|q: int| 0 <= q < stack.len() ==> #[trigger] stack[q] < j,
    ensures
        stack.push(j).contains(i) == (stack.contains(i) || i == j),
{
    let nx = stack.push(j);
    if nx.contains(i) && i != j {
        let q = choose|q: int| 0 <= q < nx.len() && nx[q] == i;
        assert(q < stack.len());
        assert(stack[q] == i);
    }
    if stack.contains(i) {
        let q = choose|q: int| 0 <= q < stack.len() && stack[q] == i;
        assert(nx[q] == i);
    }
    if i == j {
        assert(nx[stack.len() as int] == j);
    }
}

proof fn lemma_pop_contains(stack: Seq<int>, i: int)
    requires
        stack.len() > 0,
        forall|a: int, b: int| 0 <= a < b < stack.len() ==> #[trigger] stack[a] < #[trigger] stack[b],
    ensures
        stack.drop_last().contains(i) == (stack.contains(i) && i != stack.last()),
{
    let nx = stack.drop_last();
    let d = stack.len() as int;
    if nx.contains(i) {
        let q = choose|q: int| 0 <= q < nx.len() && nx[q] == i;
        assert(stack[q] == i);
        assert(stack[q] < stack[d - 1]);
    }
    if stack.contains(i) && i != stack.last() {
        let q = choose|q: int| 0 <= q < stack.len() && stack[q] == i;
        assert(q != d - 1);
        assert(nx[q] == i);
    }
}

proof fn lemma_open_step(template: u32, st: BlocksState, k: int, name: Seq<char>)
    requires
        blocks_inv(st, k),
        0 <= k < usize::MAX,
    ensures
        blocks_inv(blocks_step(template, st, k, PageTokV::BlockOpen(name)), k + 1),
{
    let nx = blocks_step(template, st, k, PageTokV::BlockOpen(name));
    let j = st.ranges.len() as int;
    assert forall|q: int| 0 <= q < st.stack.len() implies #[trigger] st.stack[q] < j by {
        assert(stack_entry_inv(st, q));
    }
    assert forall|i: int| 0 <= i < nx.ranges.len() implies #[trigger] range_inv(nx, k + 1, i) by {
        lemma_push_contains(st.stack, j, i);
        assert(nx.stack == st.stack.push(j));
        if i < j {
            assert(range_inv(st, k, i));
            assert(nx.ranges[i] == st.ranges[i]);
            match st.ranges[i].parent_index {
                Some(p) => {
                    lemma_push_contains(st.stack, j, p as int);
                    assert(nx.ranges[p as int] == st.ranges[p as int]);
                },
                None => {},
            }
        } else {
            assert(nx.ranges[j].start == (k + 1) as usize);
            assert(nx.ranges[j].end == (k + 1) as usize);
            if st.stack.len() > 0 {
                assert(stack_entry_inv(st, st.stack.len() - 1));
                let top = st.stack.last();
                lemma_push_contains(st.stack, j, top);
                assert(nx.ranges[j].parent_index == Some(top as usize));
                assert(range_inv(st, k, top));
                assert(nx.ranges[top] == st.ranges[top]);
            }
        }
    }
    assert forall|q: int| 0 <= q < nx.stack.len() implies #[trigger] stack_entry_inv(nx, q) by {
        if q < st.stack.len() {
            assert(stack_entry_inv(st, q));
        } else if q > 0 {
            assert(stack_entry_inv(st, q - 1));
        }
    }
    assert forall|a: int, b: int| 0 <= a < b < nx.stack.len() implies #[trigger] nx.stack[a]
        < #[trigger] nx.stack[b] by {
        assert(stack_entry_inv(st, a));
        if b < st.stack.len() {
            assert(st.stack[a] < st.stack[b]);
        }
    }
}

proof fn lemma_end_step(template: u32, st: BlocksState, k: int)
    requires
        blocks_inv(st, k),
        st.stack.len() > 0,
        0 <= k < usize::MAX,
    ensures
        blocks_inv(blocks_step(template, st, k, PageTokV::BlockEnd), k + 1),
{
    let nx = blocks_step(template, st, k, PageTokV::BlockEnd);
    let d = st.stack.len() as int;
    let idx = st.stack.last();
    assert(stack_entry_inv(st, d - 1));
    assert forall|i: int| 0 <= i < nx.ranges.len() implies #[trigger] range_inv(nx, k + 1, i) by {
        assert(range_inv(st, k, i));
        lemma_pop_contains(st.stack, i);
        match st.ranges[i].parent_index {
            Some(p) => {
                lemma_pop_contains(st.stack, p as int);
                if p as int == idx && st.stack.contains(i) {
                    let q = choose|q: int| 0 <= q < st.stack.len() && st.stack[q] == i;
                    assert(stack_entry_inv(st, q));
                    if q > 0 {
                        assert(st.stack[q - 1] < st.stack[d - 1]);
                    }
                }
            },
            None => {},
        }
    }
    assert forall|q: int| 0 <= q < nx.stack.len() implies #[trigger] stack_entry_inv(nx, q) by {
        assert(stack_entry_inv(st, q));
        assert(st.stack[q] < st.stack[d - 1]);
    }
    assert forall|a: int, b: int| 0 <= a < b < nx.stack.len() implies #[trigger] nx.stack[a]
        < #[trigger] nx.stack[b] by {
        assert(st.stack[a] < st.stack[b]);
    }
}

proof fn lemma_other_step(template: u32, st: BlocksState, k: int, t: PageTokV)
    requires
        blocks_inv(st, k),
        !(t is BlockOpen),
        !(t is BlockEnd),
    ensures
        blocks_inv(blocks_step(template, st, k, t), k + 1),
{
    let nx = blocks_step(template, st, k, t);
    assert(nx.stack == st.stack && nx.ranges == st.ranges);
    assert forall|i: int| 0 <= i < nx.ranges.len() implies #[trigger] range_inv(nx, k + 1, i) by {
        assert(range_inv(st, k, i));
    }
    assert forall|q: int| 0 <= q < nx.stack.len() implies #[trigger] stack_entry_inv(nx, q) by {
        assert(stack_entry_inv(st, q));
    }
}

proof fn lemma_blocks_inv(template: u32, ts: Seq<PageTokV>)
    requires
        block_depth(ts) is Some,
        ts.len() < usize::MAX,
    ensures
        blocks_inv(blocks_prefix(template, ts), ts.len() as int),
        block_depth(ts) == Some(blocks_prefix(template, ts).stack.len()),
    decreases ts.len(),
{
    if ts.len() > 0 {
        let pre = ts.drop_last();
        let k = ts.len() - 1;
        assert(block_depth(pre) is Some);
        lemma_blocks_inv(template, pre);
        let st = blocks_prefix(template, pre);
        match ts.last() {
            PageTokV::BlockOpen(name) => lemma_open_step(template, st, k, name),
            PageTokV::BlockEnd => lemma_end_step(template, st, k),
            t => lemma_other_step(template, st, k, t),
        }
    }
}

/// A block lies inside the block that encloses it: its range is well
/// formed, and the enclosing range comes earlier, starts no later and ends
/// no earlier.
pub proof fn blocks_nest_within_their_parents(template: u32, ts: Seq<PageTokV>)
    requires
        blocks_balanced(ts),
        ts.len() < usize::MAX,
    ensures
        collect_blocks_spec(template, ts) matches Ok(ranges) ==> nested_within(ranges),
{
    lemma_blocks_inv(template, ts);
    let st = blocks_prefix(template, ts);
    assert(st.stack.len() == 0);
    assert forall|i: int| 0 <= i < st.ranges.len() implies {
        &&& (#[trigger] st.ranges[i]).start <= st.ranges[i].end
        &&& match st.ranges[i].parent_index {
            Some(p) => p < i && st.ranges[p as int].start <= st.ranges[i].start && st.ranges[i].end
                <= st.ranges[p as int].end,
            None => true,
        }
    } by {
        assert(range_inv(st, ts.len() as int, i));
    }
    assert(nested_within(st.ranges));
}

/// Whether the blocks of `tokens` are balanced: every `endblock` closes an
/// open block and every block is closed (what `collect_blocks` asks).
pub fn blocks_are_balanced(tokens: &[PageSourceToken<'_>]) -> (r: bool)
    ensures
        r == blocks_balanced(tokens.deep_view()),
{
    let ghost ts = tokens.deep_view();
    let mut depth: usize = 0;
    let mut broken = false;
    let mut i: usize = 0;
    assert(ts.take(0) =~= Seq::<PageTokV>::empty());
    while i < tokens.len()
        invariant
            ts == tokens.deep_view(),
            i <= tokens.len(),
            depth <= i,
            broken ==> block_depth(ts.take(i as int)) is None,
            !broken ==> block_depth(ts.take(i as int)) == Some(depth as nat),
        decreases tokens.len() - i,
    {
        assert(ts.take(i + 1).drop_last() =~= ts.take(i as int));
        assert(ts.take(i + 1).last() == tokens[i as int].deep_view());
        if !broken {
            match tokens[i] {
                PageSourceToken::Block(PageBlockToken::BlockOpen { .. }) => {
                    depth = depth + 1;
                },
                PageSourceToken::Block(PageBlockToken::BlockEnd) => {
                    if depth == 0 {
                        broken = true;
                    } else {
                        depth = depth - 1;
                    }
                },
                _ => {},
            }
        }
        i += 1;
    }
    assert(ts.take(i as int) =~= ts);
    !broken && depth == 0
}

/// Collects the block ranges of `tokens` (a `BlockOpen` at `i` opens
/// `[i + 1, …)`, its `BlockEnd` at `j` closes it at `j`), with the index
/// of the enclosing range; reports every unsupported keyword (`for` as
/// `ForLoopDetected`, any other as `RelationalKeyword`). The blocks must
/// be balanced.
pub fn collect_blocks<'src>(template: TemplateId, tokens: &[PageSourceToken<'src>]) -> (r: Result<
    Vec<NamedBlockRange<'src>>,
    Vec<PageValidationError<'src>>,
>)
    requires
        blocks_balanced(tokens.deep_view()),
    ensures
        blocks_result_view(r) == collect_blocks_spec(template.0, tokens.deep_view()),
{
    let ghost ts = tokens.deep_view();
    let mut open_stack: Vec<usize> = Vec::new();
    let mut ranges: Vec<NamedBlockRange<'src>> = Vec::new();
    let mut errors: Vec<PageValidationError<'src>> = Vec::new();
    let mut index: usize = 0;
    assert(ts.take(0) =~= Seq::<PageTokV>::empty());
    assert(ranges.deep_view() =~= Seq::<RangeV>::empty());
    assert(errors@.map_values(|x: PageValidationError<'src>| x@) =~= Seq::<ValidationErrV>::empty());
    assert(open_stack@.map_values(|x: usize| x as int) =~= Seq::<int>::empty());
    while index < tokens.len()
        invariant
            ts == tokens.deep_view(),
            index <= tokens.len(),
            blocks_balanced(ts),
            block_depth(ts.take(index as int)) == Some(open_stack@.len()),
            forall|k: int| 0 <= k < open_stack@.len() ==> #[trigger] open_stack@[k] < ranges@.len(),
            ({
                let st = blocks_prefix(template.0, ts.take(index as int));
                &&& st.stack == open_stack@.map_values(|x: usize| x as int)
                &&& st.ranges == ranges.deep_view()
                &&& st.errors == errors@.map_values(|x: PageValidationError<'src>| x@)
            }),
        decreases tokens.len() - index,
    {
        let token = tokens[index];
        proof {
            assert(ts.take(index + 1).drop_last() =~= ts.take(index as int));
            assert(ts.take(index + 1).last() == token.deep_view());
            lemma_depth_prefix(ts, index + 1);
        }
        let ghost st0 = open_stack@.map_values(|x: usize| x as int);
        let ghost r0 = ranges.deep_view();
        let ghost e0 = errors@.map_values(|x: PageValidationError<'src>| x@);
        match token {
            PageSourceToken::Block(PageBlockToken::BlockOpen { name }) => {
                let parent_index = if open_stack.len() > 0 {
                    Some(open_stack[open_stack.len() - 1])
                } else {
                    None
                };
                let range_index = ranges.len();
                ranges.push(
                    NamedBlockRange { name, template, start: index + 1, end: index + 1, parent_index },
                );
                open_stack.push(range_index);
                proof {
                    assert(open_stack@.map_values(|x: usize| x as int) =~= st0.push(
                        range_index as int,
                    ));
                    assert(ranges.deep_view() =~= r0.push(ranges[range_index as int].deep_view()));
                }
            },
            PageSourceToken::Block(PageBlockToken::BlockEnd) => {
                let range_index = open_stack[open_stack.len() - 1];
                open_stack.pop();
                let old_range = ranges[range_index];
                ranges.set(
                    range_index,
                    NamedBlockRange {
                        name: old_range.name,
                        template: old_range.template,
                        start: old_range.start,
                        end: index,
                        parent_index: old_range.parent_index,
                    },
                );
                proof {
                    assert(open_stack@.map_values(|x: usize| x as int) =~= st0.drop_last());
                    assert(ranges.deep_view() =~= r0.update(
                        range_index as int,
                        RangeV { end: index, ..r0[range_index as int] },
                    ));
                }
            },
            PageSourceToken::Unsupported { keyword, .. } => {
                proof {
                    reveal_strlit("for");
                }
                if str_eq(keyword, "for") {
                    errors.push(PageValidationError::ForLoopDetected);
                } else {
                    errors.push(PageValidationError::RelationalKeyword { keyword });
                }
                assert(errors@.map_values(|x: PageValidationError<'src>| x@) =~= e0.push(
                    unsupported_error(keyword@),
                ));
            },
            _ => {},
        }
        index += 1;
    }
    assert(ts.take(index as int) =~= ts);
    if errors.len() == 0 {
        Ok(ranges)
    } else {
        Err(errors)
    }
}

} // verus!
