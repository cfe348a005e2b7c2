//! Derives value mappings for fieldless enumerations: a total mapping from
//! each variant to a constant of a representation type, a partial inverse
//! mapping back, and a rendering through the forward mapping.
//!
//! A declaration is first validated into an [`EnumSchema`]; the generators
//! then emit each mapping as a small syntax tree.

pub mod codegen;
pub mod decl;
pub mod parse;
pub mod schema;
pub mod semantics;

pub use codegen::{
    derive_display, derive_into, derive_try_from, generate_forward, generate_inverse,
    generate_render, Arm, ConstInit, ForwardCode, InverseCode, NamedConst, RenderCode,
};
pub use decl::{Annotation, Declaration, Fields, Shape, VariantDecl};
pub use schema::{
    build_schema, extract, parse_sources, ConstValueSource, EnumSchema, ErrorKind, SchemaError, SchemaKind,
    VariantSpec,
};
