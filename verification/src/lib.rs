//! Helpers for attribute-driven code generation: walk a tree of parsed
//! annotations attached to a declaration, descend through namespaced groups,
//! validate keys against an allow-list, and extract configuration values.

pub mod helpers;
pub mod laws;
pub mod meta;
pub mod parse;
pub mod string;
pub mod ty;

pub use helpers::{
    get_macro_attr_value_ident, get_macro_nested_attr_value_ident,
    get_namespace_nested_metas_vec_from_metas, get_namespace_nested_metas_vec_from_nested_metas,
};
pub use meta::{HelperError, Lit, MetaNode, MetaPath, NestedMeta};
pub use parse::parse_attrs_to_metas;
pub use string::string_of;
pub use ty::{get_type_inner_type_ident, GenericArg, Ty, TyArgs, TySegment};
