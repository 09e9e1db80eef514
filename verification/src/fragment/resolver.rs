//! Capacity planning: resolution of static inclusions and assets through
//! lookups injected by the build, and the exact measure of the static and
//! dynamic byte counts of a template.

use vstd::prelude::*;
use crate::fragment::token::{FlatPageToken, TokenV};
use crate::schema::{
    FieldKind, SchemaIndex, display_width, escaped_len_fits, escaped_len_spec, find_fixed_spec,
    find_varlena_spec, lemma_find_fixed, lemma_find_varlena,
};

verus! {

/// Metrics of a resolved template.
#[derive(Debug, PartialEq, Eq)]
pub struct TemplateMetrics {
    /// Bytes of every `Static`, resolved `StaticInclude`, asset URL and
    /// module snippet (`PAGE_STATIC_CAP`).
    pub total_static_bytes: usize,
    /// Worst-case display width of every interpolated field.
    pub total_dynamic_bytes: usize,
    /// Number of inclusions resolved.
    pub include_count: usize,
}

/// What the injected asset lookup answers for `{% asset key %}`.
#[derive(Debug, PartialEq, Eq)]
pub enum AssetLookup {
    /// Key found: byte length of the final public URL.
    Found(usize),
    /// Key absent; `suggestion` is a diagnostic already formatted by the
    /// caller.
    NotFound { suggestion: Option<String> },
}

/// Resolution error.
#[derive(Debug, PartialEq, Eq)]
pub enum ResolverError<'src> {
    /// Included file missing or unreadable.
    IoError { path: &'src str, details: String },
    /// A field or condition names a field absent from the schema (for an
    /// integer comparison, absent from its integer fields).
    UnknownField { entity: &'src str, field: &'src str },
    /// A referenced varlena field has no known bound.
    UnboundedField { entity: &'src str, field: &'src str },
    /// `{% asset key %}` whose key the manifest lacks.
    AssetNotFound { key: &'src str, suggestion: Option<String> },
}

/// What an injected lookup answered for one token.
pub enum Lookup {
    /// The token needs no lookup.
    Nothing,
    /// Size of an included file, or the reason it could not be read.
    FileSize(Result<usize, String>),
    /// Answer of the asset manifest.
    Asset(AssetLookup),
}

pub enum AssetLookupV {
    Found(usize),
    NotFound { suggestion: Option<Seq<char>> },
}

pub enum LookupV {
    Nothing,
    FileSize(Result<usize, Seq<char>>),
    Asset(AssetLookupV),
}

pub enum ResolveErrV {
    IoError { path: Seq<char>, details: Seq<char> },
    UnknownField { entity: Seq<char>, field: Seq<char> },
    UnboundedField { entity: Seq<char>, field: Seq<char> },
    AssetNotFound { key: Seq<char>, suggestion: Option<Seq<char>> },
}

pub open spec fn opt_string_view(o: Option<String>) -> Option<Seq<char>> {
    match o {
        Some(s) => Some(s@),
        None => None,
    }
}

impl View for AssetLookup {
    type V = AssetLookupV;

    open spec fn view(&self) -> AssetLookupV {
        match self {
            AssetLookup::Found(n) => AssetLookupV::Found(*n),
            AssetLookup::NotFound { suggestion } => AssetLookupV::NotFound {
                suggestion: opt_string_view(*suggestion),
            },
        }
    }
}

impl View for Lookup {
    type V = LookupV;

    open spec fn view(&self) -> LookupV {
        match self {
            Lookup::Nothing => LookupV::Nothing,
            Lookup::FileSize(Ok(n)) => LookupV::FileSize(Ok(*n)),
            Lookup::FileSize(Err(d)) => LookupV::FileSize(Err(d@)),
            Lookup::Asset(a) => LookupV::Asset(a@),
        }
    }
}

impl<'src> View for ResolverError<'src> {
    type V = ResolveErrV;

    open spec fn view(&self) -> ResolveErrV {
        match self {
            ResolverError::IoError { path, details } => ResolveErrV::IoError {
                path: path@,
                details: details@,
            },
            ResolverError::UnknownField { entity, field } => ResolveErrV::UnknownField {
                entity: entity@,
                field: field@,
            },
            ResolverError::UnboundedField { entity, field } => ResolveErrV::UnboundedField {
                entity: entity@,
                field: field@,
            },
            ResolverError::AssetNotFound { key, suggestion } => ResolveErrV::AssetNotFound {
                key: key@,
                suggestion: opt_string_view(*suggestion),
            },
        }
    }
}

/// `a + b`, capped at `usize::MAX`.
pub open spec fn sat_add(a: usize, b: int) -> usize {
    if a + b > usize::MAX {
        usize::MAX
    } else {
        (a + b) as usize
    }
}

/// Byte length of the UTF-8 encoding of `s`, as `str::len` reports it.
pub open spec fn byte_len(s: Seq<char>) -> usize {
    vstd::utf8::encode_utf8(s).len() as usize
}

/// Every varlena field of the schema has an escaped length that fits.
pub open spec fn schema_fits(schema: SchemaIndex<'_>) -> bool {
    forall|k: int| 0 <= k < schema.varlena@.len() ==> escaped_len_fits(#[trigger] schema.varlena@[k])
}

/// The kind of a field allowed in an integer comparison.
pub open spec fn is_integer_kind(k: FieldKind) -> bool {
    k == FieldKind::I16 || k == FieldKind::I32 || k == FieldKind::I64
}

/// The schema check of a condition on `field`: `None` when it passes. The
/// field must be a fixed field, of an integer kind for `==` and `!=`.
pub open spec fn condition_check(
    schema: SchemaIndex<'_>,
    entity: Seq<char>,
    field: Seq<char>,
    integer: bool,
) -> Option<ResolveErrV> {
    match find_fixed_spec(schema.fixed@, field) {
        None => Some(ResolveErrV::UnknownField { entity, field }),
        Some(i) => if integer && !is_integer_kind(schema.fixed@[i].kind) {
            Some(ResolveErrV::UnknownField { entity, field })
        } else {
            None
        },
    }
}

/// One token of the measure: new metrics, the error it raises (if any) and
/// the token as patched (an inclusion gets its size).
pub open spec fn resolve_step(
    schema: SchemaIndex<'_>,
    modules: usize,
    m: TemplateMetrics,
    t: TokenV,
    l: LookupV,
) -> (TemplateMetrics, Option<ResolveErrV>, TokenV) {
    match t {
        TokenV::Static(s) => (
            TemplateMetrics { total_static_bytes: sat_add(m.total_static_bytes, byte_len(s) as int), ..m },
            None,
            t,
        ),
        TokenV::StaticInclude { original_path, rel_from_manifest, len } => match l {
            LookupV::FileSize(Ok(n)) => (
                TemplateMetrics {
                    total_static_bytes: sat_add(m.total_static_bytes, n as int),
                    include_count: sat_add(m.include_count, 1),
                    ..m
                },
                None,
                TokenV::StaticInclude { original_path, rel_from_manifest, len: n },
            ),
            LookupV::FileSize(Err(d)) => (
                m,
                Some(ResolveErrV::IoError { path: rel_from_manifest, details: d }),
                t,
            ),
            _ => (m, None, t),
        },
        TokenV::Field { entity, field } => match find_fixed_spec(schema.fixed@, field) {
            Some(i) => (
                TemplateMetrics {
                    total_dynamic_bytes: sat_add(
                        m.total_dynamic_bytes,
                        display_width(schema.fixed@[i].kind) as int,
                    ),
                    ..m
                },
                None,
                t,
            ),
            None => match find_varlena_spec(schema.varlena@, field) {
                Some(j) => match escaped_len_spec(schema.varlena@[j]) {
                    Some(n) => (
                        TemplateMetrics {
                            total_dynamic_bytes: sat_add(m.total_dynamic_bytes, n),
                            ..m
                        },
                        None,
                        t,
                    ),
                    None => (m, Some(ResolveErrV::UnboundedField { entity, field }), t),
                },
                None => (m, Some(ResolveErrV::UnknownField { entity, field }), t),
            },
        },
        TokenV::IfBool { entity, field } => (m, condition_check(schema, entity, field, false), t),
        TokenV::IfEq { entity, field, .. } => (m, condition_check(schema, entity, field, true), t),
        TokenV::IfNeq { entity, field, .. } => (m, condition_check(schema, entity, field, true), t),
        TokenV::AssetRef(key) => match l {
            LookupV::Asset(AssetLookupV::Found(n)) => (
                TemplateMetrics { total_static_bytes: sat_add(m.total_static_bytes, n as int), ..m },
                None,
                t,
            ),
            LookupV::Asset(AssetLookupV::NotFound { suggestion }) => (
                m,
                Some(ResolveErrV::AssetNotFound { key, suggestion }),
                t,
            ),
            _ => (m, None, t),
        },
        TokenV::ModulesPlaceholder => (
            TemplateMetrics {
                total_static_bytes: sat_add(m.total_static_bytes, modules as int),
                ..m
            },
            None,
            t,
        ),
        _ => (m, None, t),
    }
}

/// Accumulated state of the measure.
pub struct ResolveAcc {
    pub metrics: TemplateMetrics,
    pub errors: Seq<ResolveErrV>,
    pub patched: Seq<TokenV>,
}

/// The measure run over `ts`, the `k`-th token with the `k`-th lookup.
pub open spec fn resolve_fold(
    schema: SchemaIndex<'_>,
    modules: usize,
    ts: Seq<TokenV>,
    ls: Seq<LookupV>,
) -> ResolveAcc
    decreases ts.len(),
{
    if ts.len() == 0 {
        ResolveAcc {
            metrics: TemplateMetrics { total_static_bytes: 0, total_dynamic_bytes: 0, include_count: 0 },
            errors: Seq::empty(),
            patched: Seq::empty(),
        }
    } else {
        let acc = resolve_fold(schema, modules, ts.drop_last(), ls);
        let (m, e, t) = resolve_step(schema, modules, acc.metrics, ts.last(), ls[ts.len() - 1]);
        ResolveAcc {
            metrics: m,
            errors: match e {
                Some(x) => acc.errors.push(x),
                None => acc.errors,
            },
            patched: acc.patched.push(t),
        }
    }
}

/// The lookup a token needs, answered by the injected functions.
pub open spec fn lookup_answers<'src, F, G>(
    get_file_size: F,
    resolve_asset_len: G,
    t: FlatPageToken<'src>,
    l: Lookup,
) -> bool where F: Fn(&str) -> Result<usize, String>, G: Fn(&str) -> AssetLookup {
    match t {
        FlatPageToken::StaticInclude { rel_from_manifest, .. } => match l {
            Lookup::FileSize(res) => call_ensures(get_file_size, (rel_from_manifest,), res),
            _ => false,
        },
        FlatPageToken::AssetRef(key) => match l {
            Lookup::Asset(a) => call_ensures(resolve_asset_len, (key,), a),
            _ => false,
        },
        _ => l is Nothing,
    }
}

/// Each token got the lookup it needs, answered by the injected functions.
pub open spec fn lookups_answer<'src, F, G>(
    get_file_size: F,
    resolve_asset_len: G,
    ts: Seq<FlatPageToken<'src>>,
    ls: Seq<Lookup>,
) -> bool where F: Fn(&str) -> Result<usize, String>, G: Fn(&str) -> AssetLookup {
    &&& ls.len() == ts.len()
    &&& forall|k: int|
        0 <= k < ls.len() ==> lookup_answers(get_file_size, resolve_asset_len, ts[k], #[trigger] ls[k])
}

/// The lookup matches the kind of token it answers for.
pub open spec fn lookup_fits(t: TokenV, l: LookupV) -> bool {
    match t {
        TokenV::StaticInclude { .. } => l is FileSize,
        TokenV::AssetRef(_) => l is Asset,
        _ => l is Nothing,
    }
}

/// The token patched by the measure is the token itself, except that an
/// inclusion may receive its size.
pub open spec fn patched_from(t: TokenV, p: TokenV) -> bool {
    ||| p == t
    ||| (t matches TokenV::StaticInclude { original_path, rel_from_manifest, .. } && p matches TokenV::StaticInclude {
        original_path: o2,
        rel_from_manifest: r2,
        ..
    } && o2 == original_path && r2 == rel_from_manifest)
}

/// The measure rewrites nothing but the size of the inclusions: token for
/// token, the patched stream is the input, every text slice unchanged.
pub proof fn measure_only_patches_inclusion_sizes(
    schema: SchemaIndex<'_>,
    modules: usize,
    ts: Seq<TokenV>,
    ls: Seq<LookupV>,
)
    ensures
        resolve_fold(schema, modules, ts, ls).patched.len() == ts.len(),
        forall|k: int|
            0 <= k < ts.len() ==> patched_from(ts[k], #[trigger] resolve_fold(schema, modules, ts, ls).patched[k]),
    decreases ts.len(),
{
    if ts.len() > 0 {
        let p = ts.drop_last();
        measure_only_patches_inclusion_sizes(schema, modules, p, ls);
        let acc = resolve_fold(schema, modules, p, ls);
        let fin = resolve_fold(schema, modules, ts, ls);
        assert forall|k: int| 0 <= k < ts.len() implies patched_from(ts[k], #[trigger] fin.patched[k]) by {
            if k < ts.len() - 1 {
                assert(fin.patched[k] == acc.patched[k]);
                assert(ts[k] == p[k]);
            }
        }
    }
}

/// The static bytes a token puts in the rendered page: the text of a
/// `Static`, the size of a resolved inclusion, the length of a found asset
/// URL, the module snippet of the placeholder; nothing for the others.
pub open spec fn static_bytes_of(t: TokenV, l: LookupV, modules: usize) -> int {
    match (t, l) {
        (TokenV::Static(s), _) => byte_len(s) as int,
        (TokenV::StaticInclude { .. }, LookupV::FileSize(Ok(n))) => n as int,
        (TokenV::AssetRef(_), LookupV::Asset(AssetLookupV::Found(n))) => n as int,
        (TokenV::ModulesPlaceholder, _) => modules as int,
        _ => 0,
    }
}

/// The static bytes of every token of `ts`, the `k`-th with the `k`-th
/// lookup.
pub open spec fn static_bytes_sum(ts: Seq<TokenV>, ls: Seq<LookupV>, modules: usize) -> int
    decreases ts.len(),
{
    if ts.len() == 0 {
        0
    } else {
        static_bytes_sum(ts.drop_last(), ls, modules) + static_bytes_of(
            ts.last(),
            ls[ts.len() - 1],
            modules,
        )
    }
}

/// The worst-case display bytes a token adds at run time: the display
/// width of a fixed field, the escaped bound of a bounded varlena field;
/// nothing for the others (an unknown or unbounded field is an error).
pub open spec fn dynamic_bytes_of(schema: SchemaIndex<'_>, t: TokenV) -> int {
    match t {
        TokenV::Field { field, .. } => match find_fixed_spec(schema.fixed@, field) {
            Some(i) => display_width(schema.fixed@[i].kind) as int,
            None => match find_varlena_spec(schema.varlena@, field) {
                Some(j) => match escaped_len_spec(schema.varlena@[j]) {
                    Some(n) => n,
                    None => 0,
                },
                None => 0,
            },
        },
        _ => 0,
    }
}

/// The dynamic bytes of every token of `ts`.
pub open spec fn dynamic_bytes_sum(schema: SchemaIndex<'_>, ts: Seq<TokenV>) -> int
    decreases ts.len(),
{
    if ts.len() == 0 {
        0
    } else {
        dynamic_bytes_sum(schema, ts.drop_last()) + dynamic_bytes_of(schema, ts.last())
    }
}

/// The number of inclusions whose size was found.
pub open spec fn resolved_includes(ts: Seq<TokenV>, ls: Seq<LookupV>) -> int
    decreases ts.len(),
{
    if ts.len() == 0 {
        0
    } else {
        resolved_includes(ts.drop_last(), ls) + if ts.last() is StaticInclude && ls[ts.len()
            - 1] matches LookupV::FileSize(Ok(_)) {
            1int
        } else {
            0int
        }
    }
}

/// `n`, capped at `usize::MAX`.
pub open spec fn capped_usize(n: int) -> int {
    if n > usize::MAX {
        usize::MAX as int
    } else {
        n
    }
}

/// The static capacity measured is the sum of the static bytes of every
/// token (texts, resolved inclusions, found asset URLs, and the module
/// snippet once per placeholder), capped at `usize::MAX`; the dynamic
/// capacity is the sum of the field widths; the inclusion count is the
/// number of inclusions resolved; each capped likewise. Errors on other
/// tokens change none of them.
pub proof fn static_capacity_sums_every_static_part(
    schema: SchemaIndex<'_>,
    modules: usize,
    ts: Seq<TokenV>,
    ls: Seq<LookupV>,
)
    ensures
        resolve_fold(schema, modules, ts, ls).metrics.total_static_bytes == capped_usize(
            static_bytes_sum(ts, ls, modules),
        ),
        resolve_fold(schema, modules, ts, ls).metrics.include_count == capped_usize(
            resolved_includes(ts, ls),
        ),
        resolve_fold(schema, modules, ts, ls).metrics.total_dynamic_bytes == capped_usize(
            dynamic_bytes_sum(schema, ts),
        ),
    decreases ts.len(),
{
    if ts.len() > 0 {
        static_capacity_sums_every_static_part(schema, modules, ts.drop_last(), ls);
        assert(dynamic_bytes_sum(schema, ts.drop_last()) >= 0) by {
            lemma_dynamic_bytes_sum_nonneg(schema, ts.drop_last());
        }
        assert(static_bytes_sum(ts.drop_last(), ls, modules) >= 0) by {
            lemma_static_bytes_sum_nonneg(ts.drop_last(), ls, modules);
        }
        assert(resolved_includes(ts.drop_last(), ls) >= 0) by {
            lemma_resolved_includes_nonneg(ts.drop_last(), ls);
        }
    }
}

proof fn lemma_static_bytes_sum_nonneg(ts: Seq<TokenV>, ls: Seq<LookupV>, modules: usize)
    ensures
        static_bytes_sum(ts, ls, modules) >= 0,
    decreases ts.len(),
{
    if ts.len() > 0 {
        lemma_static_bytes_sum_nonneg(ts.drop_last(), ls, modules);
    }
}

proof fn lemma_dynamic_bytes_sum_nonneg(schema: SchemaIndex<'_>, ts: Seq<TokenV>)
    ensures
        dynamic_bytes_sum(schema, ts) >= 0,
    decreases ts.len(),
{
    if ts.len() > 0 {
        lemma_dynamic_bytes_sum_nonneg(schema, ts.drop_last());
    }
}

proof fn lemma_resolved_includes_nonneg(ts: Seq<TokenV>, ls: Seq<LookupV>)
    ensures
        resolved_includes(ts, ls) >= 0,
    decreases ts.len(),
{
    if ts.len() > 0 {
        lemma_resolved_includes_nonneg(ts.drop_last(), ls);
    }
}

/// Value of the result of a measure.
pub open spec fn resolve_result_view<'src>(
    r: Result<TemplateMetrics, Vec<ResolverError<'src>>>,
) -> Result<TemplateMetrics, Seq<ResolveErrV>> {
    match r {
        Ok(m) => Ok(m),
        Err(e) => Err(e@.map_values(|x: ResolverError<'src>| x@)),
    }
}

/// What a measure ends with: the metrics when nothing failed.
pub open spec fn resolve_outcome(acc: ResolveAcc) -> Result<TemplateMetrics, Seq<ResolveErrV>> {
    if acc.errors.len() == 0 {
        Ok(acc.metrics)
    } else {
        Err(acc.errors)
    }
}

fn metrics_add_static(m: &mut TemplateMetrics, n: usize)
    ensures
        *final(m) == (TemplateMetrics {
            total_static_bytes: sat_add(old(m).total_static_bytes, n as int),
            ..*old(m)
        }),
{
    m.total_static_bytes = m.total_static_bytes.saturating_add(n);
}

fn metrics_add_dynamic(m: &mut TemplateMetrics, n: usize)
    ensures
        *final(m) == (TemplateMetrics {
            total_dynamic_bytes: sat_add(old(m).total_dynamic_bytes, n as int),
            ..*old(m)
        }),
{
    m.total_dynamic_bytes = m.total_dynamic_bytes.saturating_add(n);
}

/// Checks a condition on `field` against the schema.
fn check_condition<'src>(
    schema: &SchemaIndex<'_>,
    entity: &'src str,
    field: &'src str,
    integer: bool,
) -> (r: Option<ResolverError<'src>>)
    ensures
        match r {
            Some(e) => condition_check(*schema, entity@, field@, integer) == Some(e@),
            None => condition_check(*schema, entity@, field@, integer) is None,
        },
{
    match schema.find_fixed(field) {
        None => Some(ResolverError::UnknownField { entity, field }),
        Some(f) => {
            proof {
                lemma_find_fixed(schema.fixed@, field@);
            }
            let k = f.kind;
            let is_int = match k {
                FieldKind::I16 | FieldKind::I32 | FieldKind::I64 => true,
                _ => false,
            };
            if integer && !is_int {
                Some(ResolverError::UnknownField { entity, field })
            } else {
                None
            }
        },
    }
}

/// Measures one token given what the injected lookup answered for it:
/// updates the metrics, records the error it raises, and returns the token
/// patched (an inclusion receives its size).
pub fn measure_token<'src>(
    metrics: &mut TemplateMetrics,
    errors: &mut Vec<ResolverError<'src>>,
    token: FlatPageToken<'src>,
    schema: &SchemaIndex<'_>,
    lookup: Lookup,
    modules_static_bytes: usize,
) -> (patched: FlatPageToken<'src>)
    requires
        schema_fits(*schema),
        lookup_fits(token.deep_view(), lookup@),
    ensures
        ({
            let (m, e, t) = resolve_step(
                *schema,
                modules_static_bytes,
                *old(metrics),
                token.deep_view(),
                lookup@,
            );
            &&& *final(metrics) == m
            &&& patched.deep_view() == t
            &&& final(errors)@.map_values(|x: ResolverError<'src>| x@) == match e {
                Some(x) => old(errors)@.map_values(|x: ResolverError<'src>| x@).push(x),
                None => old(errors)@.map_values(|x: ResolverError<'src>| x@),
            }
        }),
{
    let ghost before = errors@.map_values(|x: ResolverError<'src>| x@);
    match token {
        FlatPageToken::Static(s) => {
            metrics_add_static(metrics, s.len());
            token
        },
        FlatPageToken::StaticInclude { original_path, rel_from_manifest, len } => match lookup {
            Lookup::FileSize(Ok(size)) => {
                metrics_add_static(metrics, size);
                metrics.include_count = metrics.include_count.saturating_add(1);
                FlatPageToken::StaticInclude { original_path, rel_from_manifest, len: size }
            },
            Lookup::FileSize(Err(details)) => {
                errors.push(ResolverError::IoError { path: rel_from_manifest, details });
                assert(errors@.map_values(|x: ResolverError<'src>| x@) =~= before.push(
                    errors@.last()@,
                ));
                token
            },
            _ => token,
        },
        FlatPageToken::Field { entity, field } => {
            proof {
                lemma_find_fixed(schema.fixed@, field@);
                lemma_find_varlena(schema.varlena@, field@);
            }
            match schema.find_fixed(field) {
                Some(f) => {
                    metrics_add_dynamic(metrics, f.kind.max_display_width());
                },
                None => match schema.find_varlena(field) {
                    Some(v) => match v.max_escaped_len() {
                        Some(n) => {
                            metrics_add_dynamic(metrics, n);
                        },
                        None => {
                            errors.push(ResolverError::UnboundedField { entity, field });
                            assert(errors@.map_values(|x: ResolverError<'src>| x@) =~= before.push(
                                errors@.last()@,
                            ));
                        },
                    },
                    None => {
                        errors.push(ResolverError::UnknownField { entity, field });
                        assert(errors@.map_values(|x: ResolverError<'src>| x@) =~= before.push(
                            errors@.last()@,
                        ));
                    },
                },
            }
            token
        },
        FlatPageToken::IfBool { entity, field } => {
            if let Some(e) = check_condition(schema, entity, field, false) {
                errors.push(e);
                assert(errors@.map_values(|x: ResolverError<'src>| x@) =~= before.push(
                    errors@.last()@,
                ));
            }
            token
        },
        FlatPageToken::IfEq { entity, field, .. } | FlatPageToken::IfNeq { entity, field, .. } => {
            if let Some(e) = check_condition(schema, entity, field, true) {
                errors.push(e);
                assert(errors@.map_values(|x: ResolverError<'src>| x@) =~= before.push(
                    errors@.last()@,
                ));
            }
            token
        },
        FlatPageToken::AssetRef(key) => match lookup {
            Lookup::Asset(AssetLookup::Found(n)) => {
                metrics_add_static(metrics, n);
                token
            },
            Lookup::Asset(AssetLookup::NotFound { suggestion }) => {
                errors.push(ResolverError::AssetNotFound { key, suggestion });
                assert(errors@.map_values(|x: ResolverError<'src>| x@) =~= before.push(
                    errors@.last()@,
                ));
                token
            },
            _ => token,
        },
        FlatPageToken::ModulesPlaceholder => {
            metrics_add_static(metrics, modules_static_bytes);
            token
        },
        _ => token,
    }
}

/// Resolves the inclusions (patching their size in place), checks every
/// field against the schema and measures the static and dynamic bytes.
/// Every error is collected before `Err` is returned.
///
/// `get_file_size` and `resolve_asset_len` are injected by the build: the
/// first is asked once per inclusion, the second once per asset, in token
/// order. `modules_static_bytes` is the contribution of the modules
/// placeholder.
pub fn resolve_and_measure<'src, F, G>(
    tokens: &mut Vec<FlatPageToken<'src>>,
    schema: &SchemaIndex<'_>,
    get_file_size: F,
    resolve_asset_len: G,
    modules_static_bytes: usize,
) -> (r: Result<TemplateMetrics, Vec<ResolverError<'src>>>) where
    F: Fn(&str) -> Result<usize, String>,
    G: Fn(&str) -> AssetLookup,

    requires
        schema_fits(*schema),
        forall|p: &str| #[trigger] get_file_size.requires((p,)),
        forall|p: &str| #[trigger] resolve_asset_len.requires((p,)),
    ensures
        exists|ls: Seq<Lookup>|
            {
                &&& #[trigger] lookups_answer(get_file_size, resolve_asset_len, old(tokens)@, ls)
                &&& final(tokens).deep_view() == resolve_fold(
                    *schema,
                    modules_static_bytes,
                    old(tokens).deep_view(),
                    ls.map_values(|l: Lookup| l@),
                ).patched
                &&& resolve_result_view(r) == resolve_outcome(
                    resolve_fold(
                        *schema,
                        modules_static_bytes,
                        old(tokens).deep_view(),
                        ls.map_values(|l: Lookup| l@),
                    ),
                )
            },
{
    let ghost orig = tokens@;
    let ghost ts = tokens.deep_view();
    let ghost mut ls: Seq<Lookup> = Seq::empty();
    let mut metrics = TemplateMetrics { total_static_bytes: 0, total_dynamic_bytes: 0, include_count: 0 };
    let mut errors: Vec<ResolverError<'src>> = Vec::new();
    let n = tokens.len();
    let mut i: usize = 0;
    proof {
        let lv = ls.map_values(|l: Lookup| l@);
        assert(ts.take(0) =~= Seq::<TokenV>::empty());
        assert(errors@.map_values(|x: ResolverError<'src>| x@) =~= Seq::<ResolveErrV>::empty());
        assert(tokens.deep_view().take(0) =~= Seq::<TokenV>::empty());
    }
    while i < n
        invariant
            n == orig.len(),
            ts.len() == n,
            forall|k: int| 0 <= k < n ==> #[trigger] ts[k] == orig[k].deep_view(),
            tokens@.len() == n,
            i <= n,
            ls.len() == i,
            schema_fits(*schema),
            forall|p: &str| #[trigger] get_file_size.requires((p,)),
            forall|p: &str| #[trigger] resolve_asset_len.requires((p,)),
            forall|k: int|
                0 <= k < i ==> lookup_answers(get_file_size, resolve_asset_len, orig[k], #[trigger] ls[k]),
            forall|k: int| i <= k < n ==> tokens@[k] == orig[k],
            ({
                let acc = resolve_fold(
                    *schema,
                    modules_static_bytes,
                    ts.take(i as int),
                    ls.map_values(|l: Lookup| l@),
                );
                &&& acc.metrics == metrics
                &&& acc.errors == errors@.map_values(|x: ResolverError<'src>| x@)
                &&& acc.patched == tokens.deep_view().take(i as int)
            }),
        decreases n - i,
    {
        let t = tokens[i];
        assert(t == orig[i as int]);
        let lookup = match t {
            FlatPageToken::StaticInclude { rel_from_manifest, .. } => Lookup::FileSize(
                get_file_size(rel_from_manifest),
            ),
            FlatPageToken::AssetRef(key) => Lookup::Asset(resolve_asset_len(key)),
            _ => Lookup::Nothing,
        };
        let ghost old_ls = ls;
        let ghost old_tokens = tokens.deep_view();
        proof {
            ls = ls.push(lookup);
        }
        let patched = measure_token(
            &mut metrics,
            &mut errors,
            t,
            schema,
            lookup,
            modules_static_bytes,
        );
        tokens.set(i, patched);
        proof {
            let lv_old = old_ls.map_values(|l: Lookup| l@);
            let lv = ls.map_values(|l: Lookup| l@);
            assert(ts.take(i + 1).drop_last() =~= ts.take(i as int));
            assert(ts.take(i + 1).last() == t.deep_view());
            assert(lv[i as int] == lookup@);
            lemma_fold_prefix_lookups(*schema, modules_static_bytes, ts.take(i as int), lv_old, lv);
            assert(tokens.deep_view().take(i + 1) =~= old_tokens.take(i as int).push(
                patched.deep_view(),
            ));
        }
        i = i + 1;
    }
    proof {
        assert(ts.take(n as int) =~= ts);
        assert(ts =~= old(tokens).deep_view());
        assert(tokens.deep_view().take(n as int) =~= tokens.deep_view());
        assert(lookups_answer(get_file_size, resolve_asset_len, old(tokens)@, ls));
    }
    if errors.len() == 0 {
        Ok(metrics)
    } else {
        Err(errors)
    }
}

/// The fold over `ts` reads only the first `ts.len()` lookups.
proof fn lemma_fold_prefix_lookups(
    schema: SchemaIndex<'_>,
    modules: usize,
    ts: Seq<TokenV>,
    a: Seq<LookupV>,
    b: Seq<LookupV>,
)
    requires
        ts.len() <= a.len(),
        ts.len() <= b.len(),
        forall|k: int| 0 <= k < ts.len() ==> a[k] == b[k],
    ensures
        resolve_fold(schema, modules, ts, a) == resolve_fold(schema, modules, ts, b),
    decreases ts.len(),
{
    if ts.len() > 0 {
        lemma_fold_prefix_lookups(schema, modules, ts.drop_last(), a, b);
    }
}

} // verus!
