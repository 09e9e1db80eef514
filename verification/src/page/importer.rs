//! `{% import %}` is allowed at the top level of a template only: the
//! imports outside any block are collected in order, and every import
//! inside a block is reported with the innermost open block.

use vstd::prelude::*;
use crate::page::model::{ImportRef, PageBlockToken, PageImportError};
use crate::page::token::{PageSourceToken, PageTokV};

verus! {

/// Value of an import error: the path and the innermost open block.
pub struct ImportErrV {
    pub path: Seq<char>,
    pub block_name: Seq<char>,
}

impl<'src> View for PageImportError<'src> {
    type V = ImportErrV;

    open spec fn view(&self) -> ImportErrV {
        match *self {
            PageImportError::ImportInsideBlock { path, block_name } => ImportErrV {
                path: path@,
                block_name: block_name@,
            },
        }
    }
}

/// State of the import check: open block names, imports, errors.
pub struct ImportState {
    pub open: Seq<Seq<char>>,
    pub imports: Seq<Seq<char>>,
    pub errors: Seq<ImportErrV>,
}

pub open spec fn imports_step(st: ImportState, t: PageTokV) -> ImportState {
    match t {
        PageTokV::BlockOpen(name) => ImportState { open: st.open.push(name), ..st },
        PageTokV::BlockEnd => ImportState {
            open: if st.open.len() > 0 {
                st.open.drop_last()
            } else {
                st.open
            },
            ..st
        },
        PageTokV::Import(path) => if st.open.len() > 0 {
            ImportState {
                errors: st.errors.push(ImportErrV { path, block_name: st.open.last() }),
                ..st
            }
        } else {
            ImportState { imports: st.imports.push(path), ..st }
        },
        _ => st,
    }
}

pub open spec fn imports_prefix(ts: Seq<PageTokV>) -> ImportState
    decreases ts.len(),
{
    if ts.len() == 0 {
        ImportState { open: Seq::empty(), imports: Seq::empty(), errors: Seq::empty() }
    } else {
        imports_step(imports_prefix(ts.drop_last()), ts.last())
    }
}

/// What `collect_top_level_imports` returns.
pub open spec fn imports_spec(ts: Seq<PageTokV>) -> Result<Seq<Seq<char>>, Seq<ImportErrV>> {
    let st = imports_prefix(ts);
    if st.errors.len() == 0 {
        Ok(st.imports)
    } else {
        Err(st.errors)
    }
}

pub open spec fn imports_result_view<'src>(
    r: Result<Vec<ImportRef<'src>>, Vec<PageImportError<'src>>>,
) -> Result<Seq<Seq<char>>, Seq<ImportErrV>> {
    match r {
        Ok(v) => Ok(v@.map_values(|x: ImportRef<'src>| x.original_path@)),
        Err(e) => Err(e@.map_values(|x: PageImportError<'src>| x@)),
    }
}

/// Collects the top-level imports of `tokens`, in order; every import
/// inside an open block is an error naming that block.
pub fn collect_top_level_imports<'src>(tokens: &[PageSourceToken<'src>]) -> (r: Result<
    Vec<ImportRef<'src>>,
    Vec<PageImportError<'src>>,
>)
    ensures
        imports_result_view(r) == imports_spec(tokens.deep_view()),
{
    let ghost ts = tokens.deep_view();
    let mut open_blocks: Vec<&'src str> = Vec::new();
    let mut imports: Vec<ImportRef<'src>> = Vec::new();
    let mut errors: Vec<PageImportError<'src>> = Vec::new();
    let mut i: usize = 0;
    assert(ts.take(0) =~= Seq::<PageTokV>::empty());
    assert(open_blocks.deep_view() =~= Seq::<Seq<char>>::empty());
    assert(imports@.map_values(|x: ImportRef<'src>| x.original_path@) =~= Seq::<Seq<char>>::empty());
    assert(errors@.map_values(|x: PageImportError<'src>| x@) =~= Seq::<ImportErrV>::empty());
    while i < tokens.len()
        invariant
            ts == tokens.deep_view(),
            i <= tokens.len(),
            ({
                let st = imports_prefix(ts.take(i as int));
                &&& st.open == open_blocks.deep_view()
                &&& st.imports == imports@.map_values(|x: ImportRef<'src>| x.original_path@)
                &&& st.errors == errors@.map_values(|x: PageImportError<'src>| x@)
            }),
        decreases tokens.len() - i,
    {
        let token = tokens[i];
        assert(ts.take(i + 1).drop_last() =~= ts.take(i as int));
        assert(ts.take(i + 1).last() == token.deep_view());
        let ghost o0 = open_blocks.deep_view();
        let ghost i0 = imports@.map_values(|x: ImportRef<'src>| x.original_path@);
        let ghost e0 = errors@.map_values(|x: PageImportError<'src>| x@);
        match token {
            PageSourceToken::Block(PageBlockToken::BlockOpen { name }) => {
                open_blocks.push(name);
                assert(open_blocks.deep_view() =~= o0.push(name@));
            },
            PageSourceToken::Block(PageBlockToken::BlockEnd) => {
                if open_blocks.len() > 0 {
                    open_blocks.pop();
                    assert(open_blocks.deep_view() =~= o0.drop_last());
                }
            },
            PageSourceToken::Import(import_ref) => {
                if open_blocks.len() > 0 {
                    let block_name = open_blocks[open_blocks.len() - 1];
                    errors.push(
                        PageImportError::ImportInsideBlock { path: import_ref.original_path, block_name },
                    );
                    assert(errors@.map_values(|x: PageImportError<'src>| x@) =~= e0.push(
                        ImportErrV { path: import_ref.original_path@, block_name: o0.last() },
                    ));
                } else {
                    imports.push(import_ref);
                    assert(imports@.map_values(|x: ImportRef<'src>| x.original_path@) =~= i0.push(
                        import_ref.original_path@,
                    ));
                }
            },
            _ => {},
        }
        i += 1;
    }
    assert(ts.take(i as int) =~= ts);
    if errors.len() == 0 {
        Ok(imports)
    } else {
        Err(errors)
    }
}

} // verus!
