//! Data model of the page mode: block markers, block ranges tagged with
//! their template, the template arena, and the error types of each phase.

use vstd::prelude::*;
use crate::fragment::lexer::SpanKind;
use crate::page::token::{PageSourceToken, PageTokV};

verus! {

/// Composition markers of a page: `{% block name %}` and `{% endblock %}`.
#[derive(Debug, Clone, Copy, PartialEq, Eq)]
pub enum PageBlockToken<'src> {
    BlockOpen { name: &'src str },
    BlockEnd,
}

/// Identifier of a template admitted in a `PageArena`.
#[derive(Debug, Clone, Copy, PartialEq, Eq, Hash, Structural)]
pub struct TemplateId(pub u32);

/// A named block: the half-open token range `[start, end)` between its
/// markers in `template`, and the index of the enclosing block's range, if
/// any.
#[derive(Debug, Clone, Copy, PartialEq, Eq)]
pub struct NamedBlockRange<'src> {
    pub name: &'src str,
    pub template: TemplateId,
    pub start: usize,
    pub end: usize,
    pub parent_index: Option<usize>,
}

/// Value of a block range.
pub struct RangeV {
    pub name: Seq<char>,
    pub template: u32,
    pub start: usize,
    pub end: usize,
    pub parent_index: Option<usize>,
}

impl<'src> DeepView for NamedBlockRange<'src> {
    type V = RangeV;

    open spec fn deep_view(&self) -> RangeV {
        RangeV {
            name: self.name@,
            template: self.template.0,
            start: self.start,
            end: self.end,
            parent_index: self.parent_index,
        }
    }
}

/// What a child template declares: its parent and its blocks.
#[derive(Debug, Clone)]
pub struct ChildTemplateSpec<'src> {
    pub extends: &'src str,
    pub blocks: Vec<NamedBlockRange<'src>>,
}

/// A parsed page template: its `extends` target, if any, and its tokens.
#[derive(Debug, Clone, PartialEq, Eq)]
pub struct ParsedPageTemplate<'src> {
    pub extends: Option<&'src str>,
    pub tokens: Vec<PageSourceToken<'src>>,
}

/// Value of a parsed template.
pub struct ParsedV {
    pub extends: Option<Seq<char>>,
    pub tokens: Seq<PageTokV>,
}

impl<'src> DeepView for ParsedPageTemplate<'src> {
    type V = ParsedV;

    open spec fn deep_view(&self) -> ParsedV {
        ParsedV {
            extends: match self.extends {
                Some(e) => Some(e@),
                None => None,
            },
            tokens: self.tokens.deep_view(),
        }
    }
}

/// The templates of one page build, each reachable by its `TemplateId`.
#[derive(Debug)]
pub struct PageArena<'src> {
    templates: Vec<ParsedPageTemplate<'src>>,
}

impl<'src> DeepView for PageArena<'src> {
    type V = Seq<ParsedV>;

    closed spec fn deep_view(&self) -> Seq<ParsedV> {
        self.templates.deep_view()
    }
}

impl<'src> Default for PageArena<'src> {
    fn default() -> (r: Self)
        ensures
            r.deep_view() == Seq::<ParsedV>::empty(),
    {
        let r = PageArena { templates: Vec::new() };
        assert(r.templates.deep_view() =~= Seq::<ParsedV>::empty());
        r
    }
}

impl<'src> PageArena<'src> {
    /// Number of admitted templates.
    pub closed spec fn len(&self) -> nat {
        self.templates@.len()
    }

    /// Admits `parsed` and returns its identifier (the admission rank, as a
    /// `u32`).
    pub fn admit_template(&mut self, parsed: ParsedPageTemplate<'src>) -> (id: TemplateId)
        ensures
            id.0 == old(self).deep_view().len() as u32,
            old(self).deep_view().len() <= u32::MAX ==> id.0 == old(self).deep_view().len(),
            final(self).deep_view() == old(self).deep_view().push(parsed.deep_view()),
    {
        let id = TemplateId(self.templates.len() as u32);
        let ghost before = self.templates.deep_view();
        self.templates.push(parsed);
        assert(self.templates.deep_view() =~= before.push(parsed.deep_view()));
        id
    }

    /// Number of admitted templates.
    pub fn template_count(&self) -> (r: usize)
        ensures
            r == self.deep_view().len(),
    {
        self.templates.len()
    }

    /// The template admitted under `id`.
    pub fn get(&self, id: TemplateId) -> (r: &ParsedPageTemplate<'src>)
        requires
            id.0 < self.deep_view().len(),
        ensures
            r.deep_view() == self.deep_view()[id.0 as int],
    {
        &self.templates[id.0 as usize]
    }
}

/// Admitting a template and reading it back by the returned identifier
/// gives the admitted content, whatever was admitted after it; the
/// templates admitted before keep their identifiers, which differ from it.
pub proof fn get_returns_admitted(
    before: Seq<ParsedV>,
    parsed: ParsedV,
    later: Seq<ParsedV>,
    after: Seq<ParsedV>,
    id: u32,
)
    requires
        id == before.len(),
        after == before.push(parsed) + later,
    ensures
        id < after.len(),
        after[id as int] == parsed,
        forall|k: int| 0 <= k < before.len() ==> after[k] == before[k] && k != id,
{
}

/// Syntax error of the page parser.
#[derive(Debug, Clone, Copy, PartialEq, Eq)]
pub enum PageComposeParseError {
    /// `{% extends %}` somewhere else than at the head of the file.
    ExtendsNotFirst,
    /// Token received differs from the one expected.
    UnexpectedToken { expected: &'static str, got: SpanKind },
    /// The spans ran out while a token was required.
    UnexpectedEof,
    /// Unknown or out-of-scope block sequence.
    InvalidBlockSequence,
}

/// Value of a page syntax error.
pub enum ComposeErrV {
    ExtendsNotFirst,
    Unexpected { expected: Seq<char>, got: SpanKind },
    Eof,
    Invalid,
}

impl View for PageComposeParseError {
    type V = ComposeErrV;

    open spec fn view(&self) -> ComposeErrV {
        match *self {
            PageComposeParseError::ExtendsNotFirst => ComposeErrV::ExtendsNotFirst,
            PageComposeParseError::UnexpectedToken { expected, got } => ComposeErrV::Unexpected {
                expected: expected@,
                got,
            },
            PageComposeParseError::UnexpectedEof => ComposeErrV::Eof,
            PageComposeParseError::InvalidBlockSequence => ComposeErrV::Invalid,
        }
    }
}

/// Link error of the page mode.
#[derive(Debug, Clone, Copy, PartialEq, Eq)]
pub enum PageLinkError<'src> {
    /// The parent named by `extends` does not exist.
    ExtendsNotFound { path: &'src str },
    /// A block redefined by a descendant that no root slot declares.
    OrphanBlock { name: &'src str, template: TemplateId },
    /// A `{% static %}` file that does not exist.
    StaticFileNotFound { path: &'src str },
}

/// Value of a link error.
pub enum LinkErrV {
    ExtendsNotFound { path: Seq<char> },
    OrphanBlock { name: Seq<char>, template: u32 },
    StaticFileNotFound { path: Seq<char> },
}

impl<'src> View for PageLinkError<'src> {
    type V = LinkErrV;

    open spec fn view(&self) -> LinkErrV {
        match *self {
            PageLinkError::ExtendsNotFound { path } => LinkErrV::ExtendsNotFound { path: path@ },
            PageLinkError::OrphanBlock { name, template } => LinkErrV::OrphanBlock {
                name: name@,
                template: template.0,
            },
            PageLinkError::StaticFileNotFound { path } => LinkErrV::StaticFileNotFound {
                path: path@,
            },
        }
    }
}

/// Validation error of the page mode.
#[derive(Debug, Clone, Copy, PartialEq, Eq)]
pub enum PageValidationError<'src> {
    NonBoolIfCondition { entity: &'src str, field: &'src str },
    /// `{% for %}`: loops are not supported.
    ForLoopDetected,
    /// Another unsupported keyword.
    RelationalKeyword { keyword: &'src str },
    NestedBlock { name: &'src str },
}

/// Value of a validation error.
pub enum ValidationErrV {
    NonBoolIfCondition { entity: Seq<char>, field: Seq<char> },
    ForLoopDetected,
    RelationalKeyword { keyword: Seq<char> },
    NestedBlock { name: Seq<char> },
}

impl<'src> View for PageValidationError<'src> {
    type V = ValidationErrV;

    open spec fn view(&self) -> ValidationErrV {
        match *self {
            PageValidationError::NonBoolIfCondition { entity, field } =>
                ValidationErrV::NonBoolIfCondition { entity: entity@, field: field@ },
            PageValidationError::ForLoopDetected => ValidationErrV::ForLoopDetected,
            PageValidationError::RelationalKeyword { keyword } => ValidationErrV::RelationalKeyword {
                keyword: keyword@,
            },
            PageValidationError::NestedBlock { name } => ValidationErrV::NestedBlock { name: name@ },
        }
    }
}

/// Reference to a static partial, `{% static path %}`; its size is
/// measured later.
#[derive(Debug, Clone, Copy, PartialEq, Eq)]
pub struct StaticPartialRef<'src> {
    pub original_path: &'src str,
}

/// Reference to an imported fragment, `{% import path %}`.
#[derive(Debug, Clone, Copy, PartialEq, Eq)]
pub struct ImportRef<'src> {
    pub original_path: &'src str,
}

/// Error of the import check.
#[derive(Debug, Clone, Copy, PartialEq, Eq)]
pub enum PageImportError<'src> {
    /// `{% import %}` inside an open block.
    ImportInsideBlock { path: &'src str, block_name: &'src str },
}

} // verus!
