//! Type metadata for Rust types: namespaces and paths of types, the shapes
//! of sum types (C-like enums, enums with fields, unions), and a registry
//! that compacts them by interning the names and types they refer to.

pub mod form;
pub mod meta_type;
pub mod registry;
pub mod ty;
pub mod utils;

pub use form::{CompactForm, Form, MetaForm};
pub use meta_type::MetaType;
pub use registry::{Registry, UntrackedSymbol};
pub use ty::fields::{NamedField, UnnamedField};
pub use ty::path::{Namespace, NamespaceError, TypePath};
pub use ty::sum::{
    ClikeEnumVariant, EnumVariant, EnumVariantStruct, EnumVariantTupleStruct, EnumVariantUnit,
    TypeDefClikeEnum, TypeDefEnum, TypeDefUnion,
};
