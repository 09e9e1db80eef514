//! Linking of a template chain: every block slot of the root is bound to
//! the redefinition nearest to the leaf (or to itself), every redefinition
//! without a root slot is an orphan, and every `{% static %}` file must
//! exist.

use vstd::prelude::*;
use crate::page::model::{LinkErrV, NamedBlockRange, PageLinkError, RangeV, StaticPartialRef};
use crate::page::token::{PageSourceToken, PageTokV};
use crate::text::str_eq;

verus! {

/// One root slot and the range that fills it.
#[derive(Debug, Clone, Copy, PartialEq, Eq)]
pub struct BlockSubstitution<'src> {
    pub name: &'src str,
    pub source: NamedBlockRange<'src>,
}

/// The substitutions of a chain, one per root slot, in root order.
#[derive(Debug, Clone, PartialEq, Eq)]
pub struct LinkPlan<'src> {
    pub substitutions: Vec<BlockSubstitution<'src>>,
}

impl<'src> DeepView for BlockSubstitution<'src> {
    type V = (Seq<char>, RangeV);

    open spec fn deep_view(&self) -> (Seq<char>, RangeV) {
        (self.name@, self.source.deep_view())
    }
}

impl<'src> DeepView for LinkPlan<'src> {
    type V = Seq<(Seq<char>, RangeV)>;

    open spec fn deep_view(&self) -> Seq<(Seq<char>, RangeV)> {
        self.substitutions.deep_view()
    }
}

/// First range of `level` named `name`.
pub open spec fn find_in_level(level: Seq<RangeV>, name: Seq<char>) -> Option<RangeV>
    decreases level.len(),
{
    if level.len() == 0 {
        None
    } else if level[0].name == name {
        Some(level[0])
    } else {
        find_in_level(level.drop_first(), name)
    }
}

/// The redefinition of `name` nearest to the leaf among `ancestors` (leaf
/// first).
pub open spec fn find_override(ancestors: Seq<Seq<RangeV>>, name: Seq<char>) -> Option<RangeV>
    decreases ancestors.len(),
{
    if ancestors.len() == 0 {
        None
    } else {
        match find_in_level(ancestors[0], name) {
            Some(r) => Some(r),
            None => find_override(ancestors.drop_first(), name),
        }
    }
}

/// The substitution of one root slot.
pub open spec fn substitution_for(ancestors: Seq<Seq<RangeV>>, root_range: RangeV) -> (Seq<char>, RangeV) {
    (
        root_range.name,
        match find_override(ancestors, root_range.name) {
            Some(r) => r,
            None => root_range,
        },
    )
}

/// `name` is a slot of the root.
pub open spec fn has_root_slot(root: Seq<RangeV>, name: Seq<char>) -> bool {
    exists|k: int| 0 <= k < root.len() && #[trigger] root[k].name == name
}

/// Orphan errors of one level, in order.
pub open spec fn level_orphans(root: Seq<RangeV>, level: Seq<RangeV>) -> Seq<LinkErrV>
    decreases level.len(),
{
    if level.len() == 0 {
        Seq::empty()
    } else {
        let prev = level_orphans(root, level.drop_last());
        let r = level.last();
        if has_root_slot(root, r.name) {
            prev
        } else {
            prev.push(LinkErrV::OrphanBlock { name: r.name, template: r.template })
        }
    }
}

/// Orphan errors of all the ancestors, level by level.
pub open spec fn chain_orphans(root: Seq<RangeV>, ancestors: Seq<Seq<RangeV>>) -> Seq<LinkErrV>
    decreases ancestors.len(),
{
    if ancestors.len() == 0 {
        Seq::empty()
    } else {
        chain_orphans(root, ancestors.drop_last()) + level_orphans(root, ancestors.last())
    }
}

/// Missing static files, given the answers of the existence check.
pub open spec fn static_errors(paths: Seq<Seq<char>>, exists_answers: Seq<bool>) -> Seq<LinkErrV>
    decreases paths.len(),
{
    if paths.len() == 0 {
        Seq::empty()
    } else {
        let prev = static_errors(paths.drop_last(), exists_answers);
        if exists_answers[paths.len() - 1] {
            prev
        } else {
            prev.push(LinkErrV::StaticFileNotFound { path: paths.last() })
        }
    }
}

/// What `link_chain` returns, given the answers of the existence check.
pub open spec fn link_spec(
    chain: Seq<Seq<RangeV>>,
    paths: Seq<Seq<char>>,
    exists_answers: Seq<bool>,
) -> Result<Seq<(Seq<char>, RangeV)>, Seq<LinkErrV>> {
    let root = chain.last();
    let ancestors = chain.drop_last();
    let errors = chain_orphans(root, ancestors) + static_errors(paths, exists_answers);
    if errors.len() == 0 {
        Ok(root.map_values(|r: RangeV| substitution_for(ancestors, r)))
    } else {
        Err(errors)
    }
}

pub open spec fn link_result_view<'src>(r: Result<LinkPlan<'src>, Vec<PageLinkError<'src>>>) -> Result<
    Seq<(Seq<char>, RangeV)>,
    Seq<LinkErrV>,
> {
    match r {
        Ok(p) => Ok(p.deep_view()),
        Err(e) => Err(e@.map_values(|x: PageLinkError<'src>| x@)),
    }
}

/// The paths of the static references.
pub open spec fn ref_paths<'src>(refs: Seq<StaticPartialRef<'src>>) -> Seq<Seq<char>> {
    refs.map_values(|r: StaticPartialRef<'src>| r.original_path@)
}

/// The answers of `file_exists`, one per static reference.
pub open spec fn exists_answer<'src, F>(
    file_exists: F,
    refs: Seq<StaticPartialRef<'src>>,
    answers: Seq<bool>,
) -> bool where F: Fn(&str) -> bool {
    &&& answers.len() == refs.len()
    &&& forall|k: int|
        0 <= k < refs.len() ==> call_ensures(file_exists, (refs[k].original_path,), #[trigger] answers[k])
}

fn find_in_level_exec<'src>(level: &[NamedBlockRange<'src>], name: &str) -> (r: Option<
    NamedBlockRange<'src>,
>)
    ensures
        match r {
            Some(x) => find_in_level(level.deep_view(), name@) == Some(x.deep_view()),
            None => find_in_level(level.deep_view(), name@) is None,
        },
{
    let ghost lv = level.deep_view();
    let mut i: usize = 0;
    assert(lv.skip(0) =~= lv);
    while i < level.len()
        invariant
            lv == level.deep_view(),
            i <= level.len(),
            find_in_level(lv, name@) == find_in_level(lv.skip(i as int), name@),
        decreases level.len() - i,
    {
        assert(lv.skip(i as int)[0] == level[i as int].deep_view());
        assert(lv.skip(i as int).drop_first() =~= lv.skip(i + 1));
        if str_eq(level[i].name, name) {
            return Some(level[i]);
        }
        i += 1;
    }
    None
}

fn find_override_exec<'src>(ancestors: &[&[NamedBlockRange<'src>]], name: &str) -> (r: Option<
    NamedBlockRange<'src>,
>)
    ensures
        match r {
            Some(x) => find_override(ancestors.deep_view(), name@) == Some(x.deep_view()),
            None => find_override(ancestors.deep_view(), name@) is None,
        },
{
    let ghost av = ancestors.deep_view();
    let mut i: usize = 0;
    assert(av.skip(0) =~= av);
    while i < ancestors.len()
        invariant
            av == ancestors.deep_view(),
            i <= ancestors.len(),
            find_override(av, name@) == find_override(av.skip(i as int), name@),
        decreases ancestors.len() - i,
    {
        assert(av.skip(i as int)[0] == ancestors[i as int].deep_view());
        assert(av.skip(i as int).drop_first() =~= av.skip(i + 1));
        match find_in_level_exec(ancestors[i], name) {
            Some(r) => {
                return Some(r);
            },
            None => {},
        }
        i += 1;
    }
    None
}

fn has_slot_exec(root: &[NamedBlockRange<'_>], name: &str) -> (r: bool)
    ensures
        r == has_root_slot(root.deep_view(), name@),
{
    let mut i: usize = 0;
    while i < root.len()
        invariant
            i <= root.len(),
            forall|k: int| 0 <= k < i ==> root.deep_view()[k].name != name@,
        decreases root.len() - i,
    {
        if str_eq(root[i].name, name) {
            assert(root.deep_view()[i as int].name == name@);
            return true;
        }
        i += 1;
    }
    false
}

/// Links a chain of templates, leaf first and root last: each root slot is
/// bound to the redefinition nearest to the leaf, or kept; a redefinition
/// that no root slot declares is an orphan (named with its level); every
/// static reference is checked with `file_exists`, once each, in order.
/// All errors are collected.
pub fn link_chain<'src, F>(
    chain_blocks: &[&[NamedBlockRange<'src>]],
    static_refs: &[StaticPartialRef<'src>],
    file_exists: F,
) -> (r: Result<LinkPlan<'src>, Vec<PageLinkError<'src>>>) where F: Fn(&str) -> bool
    requires
        chain_blocks@.len() > 0,
        forall|p: &str| #[trigger] file_exists.requires((p,)),
    ensures
        exists|answers: Seq<bool>|
            #[trigger] exists_answer(file_exists, static_refs@, answers) && link_result_view(r)
                == link_spec(chain_blocks.deep_view(), ref_paths(static_refs@), answers),
        r matches Ok(plan) ==> plan.substitutions@.len() == chain_blocks@.last()@.len(),
{
    let ghost chain = chain_blocks.deep_view();
    let n = chain_blocks.len();
    let root_blocks: &[NamedBlockRange<'src>] = chain_blocks[n - 1];
    let ghost root = chain.last();
    let ghost anc = chain.drop_last();
    let ancestors = slice_prefix(chain_blocks, n - 1);
    assert(root == root_blocks.deep_view());
    assert(anc == ancestors.deep_view());
    let mut substitutions: Vec<BlockSubstitution<'src>> = Vec::new();
    let mut i: usize = 0;
    while i < root_blocks.len()
        invariant
            root == root_blocks.deep_view(),
            anc == ancestors.deep_view(),
            i <= root_blocks.len(),
            substitutions.deep_view() == root.take(i as int).map_values(
                |r: RangeV| substitution_for(anc, r),
            ),
        decreases root_blocks.len() - i,
    {
        let root_range = root_blocks[i];
        let source = match find_override_exec(ancestors, root_range.name) {
            Some(r) => r,
            None => root_range,
        };
        let ghost s0 = substitutions.deep_view();
        substitutions.push(BlockSubstitution { name: root_range.name, source });
        assert(substitutions.deep_view() =~= s0.push(substitution_for(anc, root[i as int])));
        assert(root.take(i + 1).map_values(|r: RangeV| substitution_for(anc, r)) =~= root.take(
            i as int,
        ).map_values(|r: RangeV| substitution_for(anc, r)).push(substitution_for(anc, root[i as int])));
        i += 1;
    }
    assert(root.take(i as int) =~= root);
    let mut errors: Vec<PageLinkError<'src>> = Vec::new();
    let mut li: usize = 0;
    assert(anc.take(0) =~= Seq::<Seq<RangeV>>::empty());
    assert(errors@.map_values(|x: PageLinkError<'src>| x@) =~= Seq::<LinkErrV>::empty());
    while li < ancestors.len()
        invariant
            root == root_blocks.deep_view(),
            anc == ancestors.deep_view(),
            li <= ancestors.len(),
            errors@.map_values(|x: PageLinkError<'src>| x@) == chain_orphans(root, anc.take(li as int)),
        decreases ancestors.len() - li,
    {
        let level: &[NamedBlockRange<'src>] = ancestors[li];
        let ghost lv = level.deep_view();
        let ghost before = errors@.map_values(|x: PageLinkError<'src>| x@);
        assert(lv == anc[li as int]);
        let mut k: usize = 0;
        assert(lv.take(0) =~= Seq::<RangeV>::empty());
        assert(before + level_orphans(root, lv.take(0)) =~= before);
        while k < level.len()
            invariant
                root == root_blocks.deep_view(),
                lv == level.deep_view(),
                k <= level.len(),
                errors@.map_values(|x: PageLinkError<'src>| x@) == before + level_orphans(
                    root,
                    lv.take(k as int),
                ),
            decreases level.len() - k,
        {
            let range = level[k];
            let ghost e0 = errors@.map_values(|x: PageLinkError<'src>| x@);
            assert(lv.take(k + 1).drop_last() =~= lv.take(k as int));
            assert(lv.take(k + 1).last() == range.deep_view());
            if !has_slot_exec(root_blocks, range.name) {
                errors.push(PageLinkError::OrphanBlock { name: range.name, template: range.template });
                assert(errors@.map_values(|x: PageLinkError<'src>| x@) =~= e0.push(
                    LinkErrV::OrphanBlock { name: range.name@, template: range.template.0 },
                ));
            }
            k += 1;
        }
        assert(lv.take(k as int) =~= lv);
        assert(anc.take(li + 1).drop_last() =~= anc.take(li as int));
        li += 1;
    }
    assert(anc.take(li as int) =~= anc);
    let ghost mid = errors@.map_values(|x: PageLinkError<'src>| x@);
    let ghost paths = ref_paths(static_refs@);
    let ghost mut answers: Seq<bool> = Seq::empty();
    let mut s: usize = 0;
    assert(paths.take(0) =~= Seq::<Seq<char>>::empty());
    assert(mid + static_errors(paths.take(0), answers) =~= mid);
    while s < static_refs.len()
        invariant
            paths == ref_paths(static_refs@),
            s <= static_refs.len(),
            answers.len() == s,
            forall|p: &str| #[trigger] file_exists.requires((p,)),
            forall|k: int|
                0 <= k < s ==> call_ensures(file_exists, (static_refs@[k].original_path,), #[trigger] answers[k]),
            errors@.map_values(|x: PageLinkError<'src>| x@) == mid + static_errors(
                paths.take(s as int),
                answers,
            ),
        decreases static_refs.len() - s,
    {
        let path = static_refs[s].original_path;
        let found = file_exists(path);
        let ghost old_answers = answers;
        let ghost e0 = errors@.map_values(|x: PageLinkError<'src>| x@);
        proof {
            answers = answers.push(found);
            lemma_static_errors_prefix(paths.take(s as int), old_answers, answers);
            assert(paths.take(s + 1).drop_last() =~= paths.take(s as int));
            assert(paths.take(s + 1).last() == path@);
        }
        if !found {
            errors.push(PageLinkError::StaticFileNotFound { path });
            assert(errors@.map_values(|x: PageLinkError<'src>| x@) =~= e0.push(
                LinkErrV::StaticFileNotFound { path: path@ },
            ));
        }
        s += 1;
    }
    proof {
        assert(paths.take(s as int) =~= paths);
        assert(exists_answer(file_exists, static_refs@, answers));
    }
    if errors.len() == 0 {
        Ok(LinkPlan { substitutions })
    } else {
        Err(errors)
    }
}

proof fn lemma_static_errors_prefix(paths: Seq<Seq<char>>, a: Seq<bool>, b: Seq<bool>)
    requires
        paths.len() <= a.len(),
        paths.len() <= b.len(),
        forall|k: int| 0 <= k < paths.len() ==> a[k] == b[k],
    ensures
        static_errors(paths, a) == static_errors(paths, b),
    decreases paths.len(),
{
    if paths.len() > 0 {
        lemma_static_errors_prefix(paths.drop_last(), a, b);
    }
}

/// The first `n` levels of a chain.
fn slice_prefix<'a, 'src>(chain: &'a [&'a [NamedBlockRange<'src>]], n: usize) -> (r: &'a [&'a [NamedBlockRange<'src>]])
    requires
        n <= chain@.len(),
    ensures
        r.deep_view() == chain.deep_view().take(n as int),
{
    let r = vstd::slice::slice_subrange(chain, 0, n);
    assert(r.deep_view() =~= chain.deep_view().take(n as int));
    r
}

/// Links a child to its parent: `link_chain` on `[child, parent]`.
pub fn link<'src, F>(
    parent_blocks: &[NamedBlockRange<'src>],
    child_blocks: &[NamedBlockRange<'src>],
    static_refs: &[StaticPartialRef<'src>],
    file_exists: F,
) -> (r: Result<LinkPlan<'src>, Vec<PageLinkError<'src>>>) where F: Fn(&str) -> bool
    requires
        forall|p: &str| #[trigger] file_exists.requires((p,)),
    ensures
        exists|answers: Seq<bool>|
            #[trigger] exists_answer(file_exists, static_refs@, answers) && link_result_view(r)
                == link_spec(
                seq![child_blocks.deep_view(), parent_blocks.deep_view()],
                ref_paths(static_refs@),
                answers,
            ),
        r matches Ok(plan) ==> plan.substitutions@.len() == parent_blocks@.len(),
{
    let mut chain: Vec<&[NamedBlockRange<'src>]> = Vec::new();
    chain.push(child_blocks);
    chain.push(parent_blocks);
    let sl = chain.as_slice();
    assert(sl.deep_view() =~= seq![child_blocks.deep_view(), parent_blocks.deep_view()]);
    link_chain(sl, static_refs, file_exists)
}

/// The `{% static %}` references of `tokens`, in order (duplicates kept).
pub fn collect_static_refs<'src>(tokens: &[PageSourceToken<'src>]) -> (r: Vec<StaticPartialRef<'src>>)
    ensures
        ref_paths(r@) == static_paths(tokens.deep_view()),
{
    let ghost ts = tokens.deep_view();
    let mut refs: Vec<StaticPartialRef<'src>> = Vec::new();
    let mut i: usize = 0;
    assert(ts.take(0) =~= Seq::<PageTokV>::empty());
    assert(ref_paths(refs@) =~= Seq::<Seq<char>>::empty());
    while i < tokens.len()
        invariant
            ts == tokens.deep_view(),
            i <= tokens.len(),
            ref_paths(refs@) == static_paths(ts.take(i as int)),
        decreases tokens.len() - i,
    {
        let t = tokens[i];
        assert(ts.take(i + 1).drop_last() =~= ts.take(i as int));
        assert(ts.take(i + 1).last() == t.deep_view());
        match t {
            PageSourceToken::Static(r) => {
                let ghost before = ref_paths(refs@);
                refs.push(r);
                assert(ref_paths(refs@) =~= before.push(r.original_path@));
            },
            _ => {},
        }
        i += 1;
    }
    assert(ts.take(i as int) =~= ts);
    refs
}

/// The paths of the `{% static %}` tokens of `ts`, in order.
pub open spec fn static_paths(ts: Seq<PageTokV>) -> Seq<Seq<char>>
    decreases ts.len(),
{
    if ts.len() == 0 {
        Seq::empty()
    } else {
        match ts.last() {
            PageTokV::Static(p) => static_paths(ts.drop_last()).push(p),
            _ => static_paths(ts.drop_last()),
        }
    }
}

} // verus!
