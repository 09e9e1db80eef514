//! Ahead-of-time compiler pieces for `.marius` templates and the database
//! layout generator that feeds it.

pub mod text;
pub mod schema;
pub mod fragment;
pub mod naming;
pub mod page;
pub mod db;

pub use db::{
    Column, ComponentConfig, PrimaryKey, TypeMapping, VarlenJoin, build_field_specs,
    check_no_name_collision, map_type, to_pascal, to_screaming, validate_layout, write_from_impl,
    write_projection_stub, write_row_struct, write_section_header, write_store_struct,
    write_varlen_owned_struct,
};
pub use fragment::{
    AssetLookup, FlatPageToken, HoistError, PageParseError, RawSpan, ResolverError, SemanticError,
    SpanKind, StaticMarkerFacts, TemplateMetrics, extract_static_class_tokens,
    extract_static_data_attribute_tokens, extract_static_element_tokens, extract_static_id_tokens,
    extract_static_marker_facts, generate_aot_snippet, generate_segmented_snippet,
    generated_file_header, hoist_and_dedupe_scripts, parse_tokens, resolve_and_measure, scan,
    splice_hoisted_scripts, validate_ast,
};
pub use naming::{relative_path_for_include_str, static_capacity, static_const_ident};
pub use page::{
    BlockSubstitution, ChildTemplateSpec, LinkPlan, NamedBlockRange, PageArena, PageBlockToken,
    PageComposeParseError, PageLinkError, PageSourceToken, PageValidationError, ParsedPageTemplate,
    StaticPartialRef, TemplateId, collect_blocks, collect_static_refs, detect_extends, link, lower,
    parse_page_tokens,
};
pub use schema::{EscapePolicy, FieldKind, FieldSpec, SchemaIndex, VarlenField};
