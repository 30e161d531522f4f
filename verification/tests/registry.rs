use core::any::TypeId;
use type_metadata::{MetaType, Registry};

#[test]
fn registry_starts_empty() {
    let registry = Registry::new();
    assert_eq!(registry.num_strings(), 0);
    assert_eq!(registry.num_types(), 0);
}

#[test]
fn strings_are_interned_once() {
    let mut registry = Registry::new();
    let a = registry.register_string("a");
    let b = registry.register_string("b");
    let a2 = registry.register_string("a");
    assert_eq!(a.id(), 1);
    assert_eq!(b.id(), 2);
    assert_eq!(a2.id(), 1);
    assert_eq!(a, a2);
    assert_eq!(registry.num_strings(), 2);
    assert_eq!(registry.num_types(), 0);
}

#[test]
fn strings_are_compared_by_text() {
    let owned = String::from("name");
    let leaked: &'static str = Box::leak(owned.into_boxed_str());
    let mut registry = Registry::new();
    let first = registry.register_string("name");
    let second = registry.register_string(leaked);
    assert_eq!(first.id(), second.id());
    assert_eq!(registry.num_strings(), 1);
}

#[test]
fn strings_resolve_to_what_was_registered() {
    let mut registry = Registry::new();
    let x = registry.register_string("x");
    let y = registry.register_string("y");
    assert_eq!(registry.resolve_string(&x), Some("x"));
    assert_eq!(registry.resolve_string(&y), Some("y"));
}

#[test]
fn foreign_symbol_does_not_resolve() {
    let mut big = Registry::new();
    big.register_string("x");
    let y = big.register_string("y");
    let mut small = Registry::new();
    small.register_string("z");
    assert_eq!(small.resolve_string(&y), None);
}

#[test]
fn types_are_interned_once() {
    let mut registry = Registry::new();
    let a = registry.register_type(&MetaType::new::<u8>());
    let b = registry.register_type(&MetaType::new::<u16>());
    let a2 = registry.register_type(&MetaType::new::<u8>());
    assert_eq!(a.id(), 1);
    assert_eq!(b.id(), 2);
    assert_eq!(a2.id(), 1);
    assert_eq!(registry.num_types(), 2);
    assert_eq!(registry.num_strings(), 0);
}

#[test]
fn types_resolve_to_their_type_ids() {
    let mut registry = Registry::new();
    let s = registry.register_type(&MetaType::new::<String>());
    let v = registry.register_type(&MetaType::new::<Vec<bool>>());
    assert_eq!(registry.resolve_type(&s), Some(TypeId::of::<String>()));
    assert_eq!(registry.resolve_type(&v), Some(TypeId::of::<Vec<bool>>()));
}

#[test]
fn meta_type_carries_the_type_id() {
    assert_eq!(MetaType::new::<u64>().type_id(), TypeId::of::<u64>());
    assert_ne!(MetaType::new::<u64>().type_id(), TypeId::of::<i64>());
    let m = MetaType::from_type_id(TypeId::of::<str>());
    assert_eq!(m, MetaType::new::<str>());
}

#[test]
fn symbols_stay_valid_after_more_registrations() {
    let mut registry = Registry::new();
    let first = registry.register_string("first");
    for name in ["a", "b", "first", "c"] {
        registry.register_string(name);
    }
    registry.register_type(&MetaType::new::<u8>());
    assert_eq!(registry.resolve_string(&first), Some("first"));
    assert_eq!(registry.register_string("first"), first);
}
