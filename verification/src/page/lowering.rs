//! Lowering of a linked page: the root's tokens are walked, every block
//! is replaced by the range its substitution names (lowered in turn, so
//! nested slots are filled too), `{% static %}` becomes a static inclusion
//! and runtime tokens pass through. The result is a flat fragment stream.

use vstd::prelude::*;
use crate::fragment::token::{FlatPageToken, TokenV};
use crate::page::linker::LinkPlan;
use crate::page::model::{PageArena, PageBlockToken, ParsedV, RangeV, StaticPartialRef};
use crate::page::token::{PageSourceToken, PageTokV};
use crate::text::str_eq;

verus! {

/// The first substitution named `name`.
pub open spec fn find_sub(plan: Seq<(Seq<char>, RangeV)>, name: Seq<char>) -> Option<RangeV>
    decreases plan.len(),
{
    if plan.len() == 0 {
        None
    } else if plan[0].0 == name {
        Some(plan[0].1)
    } else {
        find_sub(plan.drop_first(), name)
    }
}

/// Index of the `endblock` closing the block opened before `j`, searching
/// `[j, hi)` with `depth` blocks opened since.
pub open spec fn match_end(ts: Seq<PageTokV>, j: int, hi: int, depth: nat) -> Option<int>
    decreases hi - j,
{
    if j < 0 || j >= hi || j >= ts.len() {
        None
    } else {
        match ts[j] {
            PageTokV::BlockOpen(_) => match_end(ts, j + 1, hi, depth + 1),
            PageTokV::BlockEnd => if depth == 0 {
                Some(j)
            } else {
                match_end(ts, j + 1, hi, (depth - 1) as nat)
            },
            _ => match_end(ts, j + 1, hi, depth),
        }
    }
}

/// A token that lowers to one flat token.
pub open spec fn lower_leaf(t: PageTokV) -> Option<TokenV> {
    match t {
        PageTokV::Runtime(f) => Some(f),
        PageTokV::Static(p) => Some(
            TokenV::StaticInclude { original_path: p, rel_from_manifest: p, len: 0 },
        ),
        _ => None,
    }
}

/// The lowering of `ts[i..hi]` with `fuel` levels of substitution; `None`
/// where the lowering cannot proceed (a block without substitution or
/// without `endblock`, a stray `endblock`, an import or unsupported token,
/// a substitution outside its template) or needs more fuel.
pub open spec fn lower_from(
    fuel: nat,
    plan: Seq<(Seq<char>, RangeV)>,
    arena: Seq<ParsedV>,
    ts: Seq<PageTokV>,
    i: int,
    hi: int,
) -> Option<Seq<TokenV>>
    decreases fuel, hi - i,
{
    if i < 0 || hi > ts.len() || i >= hi {
        if 0 <= i && hi <= ts.len() {
            Some(Seq::empty())
        } else {
            None
        }
    } else {
        match ts[i] {
            PageTokV::BlockOpen(name) => match find_sub(plan, name) {
                None => None,
                Some(src) => if src.template >= arena.len() || !(src.start <= src.end
                    <= arena[src.template as int].tokens.len()) {
                    None
                } else {
                    match match_end(ts, i + 1, hi, 0) {
                        None => None,
                        Some(e) => if fuel == 0 || e < i || e >= hi {
                            None
                        } else {
                            match lower_from(
                                (fuel - 1) as nat,
                                plan,
                                arena,
                                arena[src.template as int].tokens,
                                src.start as int,
                                src.end as int,
                            ) {
                                None => None,
                                Some(a) => match lower_from(fuel, plan, arena, ts, e + 1, hi) {
                                    None => None,
                                    Some(b) => Some(a + b),
                                },
                            }
                        },
                    }
                },
            },
            _ => match lower_leaf(ts[i]) {
                None => None,
                Some(f) => match lower_from(fuel, plan, arena, ts, i + 1, hi) {
                    None => None,
                    Some(b) => Some(seq![f] + b),
                },
            },
        }
    }
}

/// More fuel changes nothing once the lowering is defined.
pub proof fn lemma_fuel_monotone(
    f1: nat,
    f2: nat,
    plan: Seq<(Seq<char>, RangeV)>,
    arena: Seq<ParsedV>,
    ts: Seq<PageTokV>,
    i: int,
    hi: int,
)
    requires
        f1 <= f2,
        lower_from(f1, plan, arena, ts, i, hi) is Some,
    ensures
        lower_from(f2, plan, arena, ts, i, hi) == lower_from(f1, plan, arena, ts, i, hi),
    decreases f1, hi - i,
{
    if !(i < 0 || hi > ts.len() || i >= hi) {
        match ts[i] {
            PageTokV::BlockOpen(name) => {
                let src = find_sub(plan, name)->Some_0;
                let e = match_end(ts, i + 1, hi, 0)->Some_0;
                lemma_fuel_monotone(
                    (f1 - 1) as nat,
                    (f2 - 1) as nat,
                    plan,
                    arena,
                    arena[src.template as int].tokens,
                    src.start as int,
                    src.end as int,
                );
                lemma_fuel_monotone(f1, f2, plan, arena, ts, e + 1, hi);
            },
            _ => {
                lemma_fuel_monotone(f1, f2, plan, arena, ts, i + 1, hi);
            },
        }
    }
}

/// The page lowers with some amount of fuel.
pub open spec fn lowers(plan: Seq<(Seq<char>, RangeV)>, arena: Seq<ParsedV>, ts: Seq<PageTokV>) -> bool {
    exists|f: nat| #[trigger] lower_from(f, plan, arena, ts, 0, ts.len() as int) is Some
}

fn find_sub_exec<'src>(plan: &LinkPlan<'src>, name: &str) -> (r: Option<RangeOf<'src>>)
    ensures
        match r {
            Some(x) => find_sub(plan.deep_view(), name@) == Some(x.view_range()),
            None => find_sub(plan.deep_view(), name@) is None,
        },
{
    let ghost pv = plan.deep_view();
    let mut k: usize = 0;
    assert(pv.skip(0) =~= pv);
    while k < plan.substitutions.len()
        invariant
            pv == plan.deep_view(),
            k <= plan.substitutions.len(),
            find_sub(pv, name@) == find_sub(pv.skip(k as int), name@),
        decreases plan.substitutions.len() - k,
    {
        let s = plan.substitutions[k];
        assert(pv.skip(k as int)[0] == s.deep_view());
        assert(pv.skip(k as int).drop_first() =~= pv.skip(k + 1));
        if str_eq(s.name, name) {
            return Some(RangeOf { template: s.source.template.0, start: s.source.start, end: s.source.end, name: s.source.name, parent_index: s.source.parent_index });
        }
        k += 1;
    }
    None
}

/// The parts of a substituted range the lowering reads.
struct RangeOf<'src> {
    name: &'src str,
    template: u32,
    start: usize,
    end: usize,
    parent_index: Option<usize>,
}

impl<'src> RangeOf<'src> {
    spec fn view_range(&self) -> RangeV {
        RangeV {
            name: self.name@,
            template: self.template,
            start: self.start,
            end: self.end,
            parent_index: self.parent_index,
        }
    }
}

fn match_end_exec(tokens: &[PageSourceToken<'_>], open: usize, hi: usize) -> (r: Option<usize>)
    requires
        hi <= tokens.len(),
    ensures
        match r {
            Some(e) => match_end(tokens.deep_view(), open + 1, hi as int, 0) == Some(e as int) && open
                < e < hi,
            None => match_end(tokens.deep_view(), open + 1, hi as int, 0) is None,
        },
{
    let ghost ts = tokens.deep_view();
    let mut depth: usize = 0;
    let mut j: usize = open;
    if j >= hi {
        return None;
    }
    j = j + 1;
    while j < hi
        invariant
            ts == tokens.deep_view(),
            hi <= tokens.len(),
            open < j <= hi,
            depth <= j,
            match_end(ts, open + 1, hi as int, 0) == match_end(ts, j as int, hi as int, depth as nat),
        decreases hi - j,
    {
        assert(ts[j as int] == tokens[j as int].deep_view());
        match tokens[j] {
            PageSourceToken::Block(PageBlockToken::BlockOpen { .. }) => {
                depth = depth + 1;
            },
            PageSourceToken::Block(PageBlockToken::BlockEnd) => {
                if depth == 0 {
                    return Some(j);
                }
                depth = depth - 1;
            },
            _ => {},
        }
        j += 1;
    }
    None
}

/// Lowers `tokens[lo..hi]` with `fuel` levels of substitution.
fn lower_range<'src>(
    tokens: &[PageSourceToken<'src>],
    lo: usize,
    hi: usize,
    plan: &LinkPlan<'src>,
    arena: &PageArena<'src>,
    Ghost(fuel): Ghost<nat>,
) -> (r: Vec<FlatPageToken<'src>>)
    requires
        lower_from(fuel, plan.deep_view(), arena.deep_view(), tokens.deep_view(), lo as int, hi as int) is Some,
    ensures
        r.deep_view() == lower_from(
            fuel,
            plan.deep_view(),
            arena.deep_view(),
            tokens.deep_view(),
            lo as int,
            hi as int,
        )->Some_0,
    decreases fuel,
{
    let ghost ts = tokens.deep_view();
    let ghost pv = plan.deep_view();
    let ghost av = arena.deep_view();
    let mut out: Vec<FlatPageToken<'src>> = Vec::new();
    let mut i = lo;
    proof {
        assert(out.deep_view() + lower_from(fuel, pv, av, ts, lo as int, hi as int)->Some_0
            =~= lower_from(fuel, pv, av, ts, lo as int, hi as int)->Some_0);
    }
    while i < hi
        invariant
            ts == tokens.deep_view(),
            pv == plan.deep_view(),
            av == arena.deep_view(),
            lo <= i,
            hi <= tokens.len(),
            i <= hi || lo >= hi,
            lower_from(fuel, pv, av, ts, i as int, hi as int) is Some,
            lower_from(fuel, pv, av, ts, lo as int, hi as int)->Some_0 == out.deep_view()
                + lower_from(fuel, pv, av, ts, i as int, hi as int)->Some_0,
        decreases hi - i,
    {
        let t = tokens[i];
        assert(ts[i as int] == t.deep_view());
        let ghost rest_before = lower_from(fuel, pv, av, ts, i as int, hi as int)->Some_0;
        match t {
            PageSourceToken::Block(PageBlockToken::BlockOpen { name }) => {
                let src = match find_sub_exec(plan, name) {
                    Some(s) => s,
                    None => {
                        return out;
                    },
                };
                let e = match match_end_exec(tokens, i, hi) {
                    Some(e) => e,
                    None => {
                        return out;
                    },
                };
                let parsed = arena.get(crate::page::model::TemplateId(src.template));
                let inner = lower_range(
                    parsed.tokens.as_slice(),
                    src.start,
                    src.end,
                    plan,
                    arena,
                    Ghost((fuel - 1) as nat),
                );
                let ghost o0 = out.deep_view();
                let mut k: usize = 0;
                while k < inner.len()
                    invariant
                        k <= inner.len(),
                        out.deep_view() == o0 + inner.deep_view().take(k as int),
                    decreases inner.len() - k,
                {
                    let ghost o1 = out.deep_view();
                    out.push(inner[k]);
                    assert(out.deep_view() =~= o1.push(inner[k as int].deep_view()));
                    assert(inner.deep_view().take(k + 1) =~= inner.deep_view().take(k as int).push(
                        inner[k as int].deep_view(),
                    ));
                    k += 1;
                }
                proof {
                    assert(inner.deep_view().take(k as int) =~= inner.deep_view());
                    let b = lower_from(fuel, pv, av, ts, e + 1, hi as int)->Some_0;
                    assert(rest_before == inner.deep_view() + b);
                    assert(o0 + rest_before =~= out.deep_view() + b);
                }
                i = e + 1;
            },
            _ => {
                let f = match t {
                    PageSourceToken::Runtime(flat) => flat,
                    PageSourceToken::Static(StaticPartialRef { original_path }) => FlatPageToken::StaticInclude {
                        original_path,
                        rel_from_manifest: original_path,
                        len: 0,
                    },
                    _ => {
                        return out;
                    },
                };
                let ghost o0 = out.deep_view();
                out.push(f);
                proof {
                    assert(out.deep_view() =~= o0.push(f.deep_view()));
                    let b = lower_from(fuel, pv, av, ts, i + 1, hi as int)->Some_0;
                    assert(rest_before == seq![f.deep_view()] + b);
                    assert(o0 + rest_before =~= out.deep_view() + b);
                }
                i = i + 1;
            },
        }
    }
    proof {
        assert(lower_from(fuel, pv, av, ts, i as int, hi as int)->Some_0 =~= Seq::<TokenV>::empty());
        assert(out.deep_view() + Seq::<TokenV>::empty() =~= out.deep_view());
    }
    out
}

/// `o` put in front of a lowering, when there is one.
pub open spec fn prepend(o: Seq<TokenV>, x: Option<Seq<TokenV>>) -> Option<Seq<TokenV>> {
    match x {
        Some(b) => Some(o + b),
        None => None,
    }
}

/// Lowers `tokens[lo..hi]` with `fuel` levels of substitution, or tells
/// that the lowering does not exist with that fuel.
fn try_lower_range<'src>(
    tokens: &[PageSourceToken<'src>],
    lo: usize,
    hi: usize,
    plan: &LinkPlan<'src>,
    arena: &PageArena<'src>,
    fuel: usize,
) -> (r: Option<Vec<FlatPageToken<'src>>>)
    ensures
        match r {
            Some(v) => lower_from(
                fuel as nat,
                plan.deep_view(),
                arena.deep_view(),
                tokens.deep_view(),
                lo as int,
                hi as int,
            ) == Some(v.deep_view()),
            None => lower_from(
                fuel as nat,
                plan.deep_view(),
                arena.deep_view(),
                tokens.deep_view(),
                lo as int,
                hi as int,
            ) is None,
        },
    decreases fuel,
{
    let ghost ts = tokens.deep_view();
    let ghost pv = plan.deep_view();
    let ghost av = arena.deep_view();
    let ghost fu = fuel as nat;
    if hi > tokens.len() {
        return None;
    }
    let mut out: Vec<FlatPageToken<'src>> = Vec::new();
    let mut i = lo;
    proof {
        match lower_from(fu, pv, av, ts, lo as int, hi as int) {
            Some(b) => {
                assert(out.deep_view() + b =~= b);
            },
            None => {},
        }
    }
    while i < hi
        invariant
            ts == tokens.deep_view(),
            pv == plan.deep_view(),
            av == arena.deep_view(),
            fu == fuel as nat,
            lo <= i,
            hi <= tokens.len(),
            i <= hi || lo >= hi,
            lower_from(fu, pv, av, ts, lo as int, hi as int) == prepend(
                out.deep_view(),
                lower_from(fu, pv, av, ts, i as int, hi as int),
            ),
        decreases hi - i,
    {
        let t = tokens[i];
        assert(ts[i as int] == t.deep_view());
        match t {
            PageSourceToken::Block(PageBlockToken::BlockOpen { name }) => {
                let src = match find_sub_exec(plan, name) {
                    Some(s) => s,
                    None => {
                        return None;
                    },
                };
                if src.template as usize >= arena.template_count() {
                    return None;
                }
                let parsed = arena.get(crate::page::model::TemplateId(src.template));
                if !(src.start <= src.end && src.end <= parsed.tokens.len()) {
                    return None;
                }
                let e = match match_end_exec(tokens, i, hi) {
                    Some(e) => e,
                    None => {
                        return None;
                    },
                };
                if fuel == 0 {
                    return None;
                }
                let inner = match try_lower_range(
                    parsed.tokens.as_slice(),
                    src.start,
                    src.end,
                    plan,
                    arena,
                    fuel - 1,
                ) {
                    Some(v) => v,
                    None => {
                        return None;
                    },
                };
                let ghost o0 = out.deep_view();
                let mut k: usize = 0;
                while k < inner.len()
                    invariant
                        k <= inner.len(),
                        out.deep_view() == o0 + inner.deep_view().take(k as int),
                    decreases inner.len() - k,
                {
                    let ghost o1 = out.deep_view();
                    out.push(inner[k]);
                    assert(out.deep_view() =~= o1.push(inner[k as int].deep_view()));
                    assert(inner.deep_view().take(k + 1) =~= inner.deep_view().take(k as int).push(
                        inner[k as int].deep_view(),
                    ));
                    k += 1;
                }
                proof {
                    assert(inner.deep_view().take(k as int) =~= inner.deep_view());
                    match lower_from(fu, pv, av, ts, e + 1, hi as int) {
                        Some(b) => {
                            assert(o0 + (inner.deep_view() + b) =~= out.deep_view() + b);
                        },
                        None => {},
                    }
                }
                i = e + 1;
            },
            _ => {
                let f = match t {
                    PageSourceToken::Runtime(flat) => flat,
                    PageSourceToken::Static(StaticPartialRef { original_path }) => FlatPageToken::StaticInclude {
                        original_path,
                        rel_from_manifest: original_path,
                        len: 0,
                    },
                    _ => {
                        return None;
                    },
                };
                let ghost o0 = out.deep_view();
                out.push(f);
                proof {
                    assert(out.deep_view() =~= o0.push(f.deep_view()));
                    match lower_from(fu, pv, av, ts, i + 1, hi as int) {
                        Some(b) => {
                            assert(o0 + (seq![f.deep_view()] + b) =~= out.deep_view() + b);
                        },
                        None => {},
                    }
                }
                i = i + 1;
            },
        }
    }
    proof {
        assert(out.deep_view() + Seq::<TokenV>::empty() =~= out.deep_view());
    }
    Some(out)
}

/// Lowers the root's tokens as `lower` does, with at most `fuel` levels of
/// nested substitution: `None` exactly where the page does not lower
/// within them (a block without substitution or `endblock`, a stray
/// `endblock`, an import or unsupported token, a substitution outside its
/// template, or deeper nesting than `fuel`). A `Some` result shows that
/// the page lowers, which `lower` asks for.
pub fn lower_with_fuel<'src>(
    parent_tokens: &[PageSourceToken<'src>],
    plan: &LinkPlan<'src>,
    arena: &PageArena<'src>,
    fuel: usize,
) -> (r: Option<Vec<FlatPageToken<'src>>>)
    ensures
        match r {
            Some(v) => lower_from(
                fuel as nat,
                plan.deep_view(),
                arena.deep_view(),
                parent_tokens.deep_view(),
                0,
                parent_tokens@.len() as int,
            ) == Some(v.deep_view()),
            None => lower_from(
                fuel as nat,
                plan.deep_view(),
                arena.deep_view(),
                parent_tokens.deep_view(),
                0,
                parent_tokens@.len() as int,
            ) is None,
        },
        r is Some ==> lowers(plan.deep_view(), arena.deep_view(), parent_tokens.deep_view()),
{
    let r = try_lower_range(parent_tokens, 0, parent_tokens.len(), plan, arena, fuel);
    assert(parent_tokens@.len() == parent_tokens.deep_view().len());
    r
}

/// Lowers the root's tokens: each block becomes the range its substitution
/// names (itself lowered, so nested slots are filled), `{% static %}`
/// becomes a static inclusion of length 0, runtime tokens pass through.
/// `plan` must come from linking the blocks of this root, and the page
/// must lower (no stray marker, no import or unsupported token left).
pub fn lower<'src>(
    parent_tokens: &[PageSourceToken<'src>],
    plan: &LinkPlan<'src>,
    arena: &PageArena<'src>,
) -> (r: Vec<FlatPageToken<'src>>)
    requires
        lowers(plan.deep_view(), arena.deep_view(), parent_tokens.deep_view()),
    ensures
        forall|f: nat|
            #[trigger] lower_from(
                f,
                plan.deep_view(),
                arena.deep_view(),
                parent_tokens.deep_view(),
                0,
                parent_tokens@.len() as int,
            ) is Some ==> r.deep_view() == lower_from(
                f,
                plan.deep_view(),
                arena.deep_view(),
                parent_tokens.deep_view(),
                0,
                parent_tokens@.len() as int,
            )->Some_0,
{
    let ghost pv = plan.deep_view();
    let ghost av = arena.deep_view();
    let ghost ts = parent_tokens.deep_view();
    let ghost n = ts.len() as int;
    let ghost fuel = choose|f: nat| #[trigger] lower_from(f, pv, av, ts, 0, n) is Some;
    assert(parent_tokens@.len() == ts.len());
    let r = lower_range(parent_tokens, 0, parent_tokens.len(), plan, arena, Ghost(fuel));
    proof {
        assert forall|f: nat| #[trigger] lower_from(f, pv, av, ts, 0, n) is Some implies r.deep_view()
            == lower_from(f, pv, av, ts, 0, n)->Some_0 by {
            if f <= fuel {
                lemma_fuel_monotone(f, fuel, pv, av, ts, 0, n);
            } else {
                lemma_fuel_monotone(fuel, f, pv, av, ts, 0, n);
            }
        }
    }
    r
}

} // verus!
