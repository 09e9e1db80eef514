//! Page pipeline (inheritance with `extends`/`block`):
//! `model` → `token` → `parser` → `blocks` → `linker` → `lowering`, plus
//! the top-level `import` check. `lowering::lower` produces the flat token
//! stream that the fragment resolver and code generator take.

pub mod model;
pub mod token;
pub mod parser;
pub mod blocks;
pub mod importer;
pub mod linker;
pub mod lowering;

pub use blocks::collect_blocks;
pub use importer::collect_top_level_imports;
pub use linker::{BlockSubstitution, LinkPlan, collect_static_refs, link};
pub use lowering::lower;
pub use model::{
    ChildTemplateSpec, NamedBlockRange, PageArena, PageBlockToken, PageComposeParseError,
    PageLinkError, PageValidationError, ParsedPageTemplate, StaticPartialRef, TemplateId,
};
pub use parser::{detect_extends, parse_page_tokens};
pub use token::PageSourceToken;
