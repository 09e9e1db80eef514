//! Database layout generator: PostgreSQL catalogue facts (as plain
//! values) become Rust layouts, validated against the registry, and the
//! source of the generated row, storage and projection types.

pub mod mapping;
pub mod naming;
pub mod validate;
pub mod registry;
pub mod introspect;
pub mod codegen;
pub mod storage;
pub mod probe;
pub mod projection;
pub mod fields;

pub use codegen::{write_from_impl, write_row_struct, write_section_header, write_varlen_owned_struct};
pub use fields::build_field_specs;
pub use mapping::{Column, PrimaryKey, TypeMapping, map_type};
pub use naming::{to_pascal, to_screaming};
pub use projection::write_projection_stub;
pub use registry::{ComponentConfig, VarlenJoin};
pub use storage::write_store_struct;
pub use validate::{check_no_name_collision, validate_layout};
