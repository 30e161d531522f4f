use vstd::prelude::*;

use crate::meta_type::MetaType;
use crate::registry::UntrackedSymbol;
use core::any::TypeId;

verus! {

/// The two shapes that type information takes: as written by hand
/// (`MetaForm`), and compacted through a `Registry` (`CompactForm`).
pub trait Form {
    /// How a type that the information refers to is written.
    type Type: PartialEq + Eq + PartialOrd + Ord + Clone + core::fmt::Debug;
    /// How a name is written.
    type String: PartialEq + Eq + PartialOrd + Ord + Clone + core::fmt::Debug;
}

/// Type information as written by hand: names are string slices and
/// types are `MetaType`s.
#[derive(PartialEq, Eq, PartialOrd, Ord, Clone, Copy, Debug)]
pub struct MetaForm;

impl Form for MetaForm {
    type Type = MetaType;
    type String = &'static str;
}

/// Compacted type information: names and types are symbols handed out
/// by a `Registry`.
#[derive(PartialEq, Eq, PartialOrd, Ord, Clone, Copy, Debug)]
pub struct CompactForm;

impl Form for CompactForm {
    type Type = UntrackedSymbol<TypeId>;
    type String = UntrackedSymbol<&'static str>;
}

} // verus!
