//! The alphabet of a page template: runtime tokens shared with the
//! fragment pipeline, and the composition operators of the page mode.

use vstd::prelude::*;
use crate::fragment::token::{FlatPageToken, TokenV};
use crate::page::model::{ImportRef, PageBlockToken, StaticPartialRef};

verus! {

/// Token of a page template.
#[derive(Debug, Clone, Copy, PartialEq, Eq)]
pub enum PageSourceToken<'src> {
    /// A token of the fragment grammar, lowered as is.
    Runtime(FlatPageToken<'src>),
    /// `{% block name %}` / `{% endblock %}`.
    Block(PageBlockToken<'src>),
    /// `{% static path %}`: a partial inlined at build time.
    Static(StaticPartialRef<'src>),
    /// `{% import path %}`: a fragment spliced in by the build.
    Import(ImportRef<'src>),
    /// Any other keyword, kept to be rejected with a precise error later.
    Unsupported { keyword: &'src str, tail: &'src str },
}

/// Value of a page token.
pub enum PageTokV {
    Runtime(TokenV),
    BlockOpen(Seq<char>),
    BlockEnd,
    Static(Seq<char>),
    Import(Seq<char>),
    Unsupported { keyword: Seq<char>, tail: Seq<char> },
}

impl<'src> DeepView for PageSourceToken<'src> {
    type V = PageTokV;

    open spec fn deep_view(&self) -> PageTokV {
        match *self {
            PageSourceToken::Runtime(t) => PageTokV::Runtime(t.deep_view()),
            PageSourceToken::Block(PageBlockToken::BlockOpen { name }) => PageTokV::BlockOpen(name@),
            PageSourceToken::Block(PageBlockToken::BlockEnd) => PageTokV::BlockEnd,
            PageSourceToken::Static(r) => PageTokV::Static(r.original_path@),
            PageSourceToken::Import(r) => PageTokV::Import(r.original_path@),
            PageSourceToken::Unsupported { keyword, tail } => PageTokV::Unsupported {
                keyword: keyword@,
                tail: tail@,
            },
        }
    }
}

} // verus!
