//! The alphabet of a fragment template after parsing: `FlatPageToken`.

use vstd::prelude::*;
use crate::text::str_eq;

verus! {

/// Token of a `.marius` template. Every text field is a slice of the
/// template source.
#[derive(Debug, Clone, Copy, PartialEq, Eq)]
pub enum FlatPageToken<'src> {
    /// Verbatim HTML segment.
    Static(&'src str),
    /// Field interpolation: `{{ entity.field }}`.
    Field { entity: &'src str, field: &'src str },
    /// Boolean condition: `{% if entity.field %}`.
    IfBool { entity: &'src str, field: &'src str },
    /// Integer equality condition: `{% if entity.field == N %}`.
    IfEq { entity: &'src str, field: &'src str, literal: i64 },
    /// Integer inequality condition: `{% if entity.field != N %}`.
    IfNeq { entity: &'src str, field: &'src str, literal: i64 },
    /// Branch switch: `{% else %}`.
    Else,
    /// End of a conditional block: `{% endif %}`.
    EndIf,
    /// Reference to a prepared asset: `{% asset key %}`.
    AssetRef(&'src str),
    /// `{% script %}`: opens a captured script region.
    ScriptStart,
    /// `{% endscript %}`: closes it.
    ScriptEnd,
    /// Static inclusion resolved at build time: `{% include path %}`.
    StaticInclude { original_path: &'src str, rel_from_manifest: &'src str, len: usize },
    /// Extension point `<!-- MARIUS_MODULES -->`, injected by the build.
    ModulesPlaceholder,
}

/// The value of a token, with its text fields as character sequences.
pub enum TokenV {
    Static(Seq<char>),
    Field { entity: Seq<char>, field: Seq<char> },
    IfBool { entity: Seq<char>, field: Seq<char> },
    IfEq { entity: Seq<char>, field: Seq<char>, literal: i64 },
    IfNeq { entity: Seq<char>, field: Seq<char>, literal: i64 },
    Else,
    EndIf,
    AssetRef(Seq<char>),
    ScriptStart,
    ScriptEnd,
    StaticInclude { original_path: Seq<char>, rel_from_manifest: Seq<char>, len: usize },
    ModulesPlaceholder,
}

impl<'src> DeepView for FlatPageToken<'src> {
    type V = TokenV;

    open spec fn deep_view(&self) -> TokenV {
        match *self {
            FlatPageToken::Static(s) => TokenV::Static(s@),
            FlatPageToken::Field { entity, field } => TokenV::Field { entity: entity@, field: field@ },
            FlatPageToken::IfBool { entity, field } => TokenV::IfBool {
                entity: entity@,
                field: field@,
            },
            FlatPageToken::IfEq { entity, field, literal } => TokenV::IfEq {
                entity: entity@,
                field: field@,
                literal,
            },
            FlatPageToken::IfNeq { entity, field, literal } => TokenV::IfNeq {
                entity: entity@,
                field: field@,
                literal,
            },
            FlatPageToken::Else => TokenV::Else,
            FlatPageToken::EndIf => TokenV::EndIf,
            FlatPageToken::AssetRef(k) => TokenV::AssetRef(k@),
            FlatPageToken::ScriptStart => TokenV::ScriptStart,
            FlatPageToken::ScriptEnd => TokenV::ScriptEnd,
            FlatPageToken::StaticInclude { original_path, rel_from_manifest, len } =>
                TokenV::StaticInclude {
                original_path: original_path@,
                rel_from_manifest: rel_from_manifest@,
                len,
            },
            FlatPageToken::ModulesPlaceholder => TokenV::ModulesPlaceholder,
        }
    }
}

/// The token opens a conditional block (`IfBool`, `IfEq` or `IfNeq`).
pub open spec fn is_if_open(t: TokenV) -> bool {
    t is IfBool || t is IfEq || t is IfNeq
}

/// Two tokens with the same variant and the same field values (text
/// compared by content).
pub fn token_eq(a: &FlatPageToken<'_>, b: &FlatPageToken<'_>) -> (r: bool)
    ensures
        r == (a.deep_view() == b.deep_view()),
{
    match (*a, *b) {
        (FlatPageToken::Static(x), FlatPageToken::Static(y)) => str_eq(x, y),
        (FlatPageToken::Field { entity: e1, field: f1 }, FlatPageToken::Field { entity: e2, field: f2 })
        | (
            FlatPageToken::IfBool { entity: e1, field: f1 },
            FlatPageToken::IfBool { entity: e2, field: f2 },
        ) => str_eq(e1, e2) && str_eq(f1, f2),
        (
            FlatPageToken::IfEq { entity: e1, field: f1, literal: l1 },
            FlatPageToken::IfEq { entity: e2, field: f2, literal: l2 },
        )
        | (
            FlatPageToken::IfNeq { entity: e1, field: f1, literal: l1 },
            FlatPageToken::IfNeq { entity: e2, field: f2, literal: l2 },
        ) => l1 == l2 && str_eq(e1, e2) && str_eq(f1, f2),
        (FlatPageToken::Else, FlatPageToken::Else) => true,
        (FlatPageToken::EndIf, FlatPageToken::EndIf) => true,
        (FlatPageToken::AssetRef(x), FlatPageToken::AssetRef(y)) => str_eq(x, y),
        (FlatPageToken::ScriptStart, FlatPageToken::ScriptStart) => true,
        (FlatPageToken::ScriptEnd, FlatPageToken::ScriptEnd) => true,
        (
            FlatPageToken::StaticInclude { original_path: o1, rel_from_manifest: r1, len: n1 },
            FlatPageToken::StaticInclude { original_path: o2, rel_from_manifest: r2, len: n2 },
        ) => n1 == n2 && str_eq(o1, o2) && str_eq(r1, r2),
        (FlatPageToken::ModulesPlaceholder, FlatPageToken::ModulesPlaceholder) => true,
        _ => false,
    }
}

/// Two token sequences equal token by token.
pub fn tokens_eq(a: &[FlatPageToken<'_>], b: &[FlatPageToken<'_>]) -> (r: bool)
    ensures
        r == (a.deep_view() == b.deep_view()),
{
    if a.len() != b.len() {
        assert(a.deep_view().len() != b.deep_view().len());
        return false;
    }
    let mut i: usize = 0;
    while i < a.len()
        invariant
            a.len() == b.len(),
            i <= a.len(),
            forall|k: int| 0 <= k < i ==> a.deep_view()[k] == b.deep_view()[k],
        decreases a.len() - i,
    {
        if !token_eq(&a[i], &b[i]) {
            assert(a.deep_view()[i as int] != b.deep_view()[i as int]);
            return false;
        }
        i += 1;
    }
    assert(a.deep_view() =~= b.deep_view());
    true
}

} // verus!
