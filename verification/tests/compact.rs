use type_metadata::{
    ClikeEnumVariant, EnumVariant, EnumVariantStruct, EnumVariantTupleStruct, EnumVariantUnit,
    MetaType, NamedField, Namespace, Registry, TypeDefClikeEnum, TypeDefEnum, TypeDefUnion,
    TypePath, UnnamedField,
};

fn ids<T>(syms: &[type_metadata::UntrackedSymbol<T>]) -> Vec<u32> {
    syms.iter().map(|s| s.id()).collect()
}

#[test]
fn namespace_compacts_to_symbols() {
    let mut registry = Registry::new();
    let ns = Namespace::new(vec!["a", "b", "a"]).unwrap();
    let compact = ns.into_compact(&mut registry);
    assert_eq!(ids(compact.segments()), vec![1, 2, 1]);
    assert_eq!(registry.num_strings(), 2);
    assert_eq!(registry.num_types(), 0);
    let texts: Vec<&str> = compact
        .segments()
        .iter()
        .map(|s| registry.resolve_string(s).unwrap())
        .collect();
    assert_eq!(texts, vec!["a", "b", "a"]);
}

#[test]
fn compaction_is_idempotent() {
    let mut registry = Registry::new();
    let ns = Namespace::new(vec!["x", "y"]).unwrap();
    let first = ns.clone().into_compact(&mut registry);
    let second = ns.into_compact(&mut registry);
    assert_eq!(first, second);
    assert_eq!(registry.num_strings(), 2);
}

#[test]
fn type_path_compacts_name_namespace_and_params() {
    let mut registry = Registry::new();
    registry.register_string("core");
    let ns = Namespace::new(vec!["core", "option"]).unwrap();
    let path = TypePath::new(
        "Option",
        ns,
        vec![MetaType::new::<u32>(), MetaType::new::<bool>(), MetaType::new::<u32>()],
    );
    let compact = path.into_compact(&mut registry);
    assert_eq!(compact.name().id(), 2);
    assert_eq!(ids(compact.namespace().segments()), vec![1, 3]);
    assert_eq!(ids(compact.type_params()), vec![1, 2, 1]);
    assert_eq!(registry.num_strings(), 3);
    assert_eq!(registry.num_types(), 2);
    assert_eq!(registry.resolve_string(compact.name()), Some("Option"));
    assert_eq!(
        registry.resolve_type(&compact.type_params()[1]),
        Some(core::any::TypeId::of::<bool>())
    );
}

#[test]
fn clike_enum_keeps_discriminants() {
    let mut registry = Registry::new();
    let e = TypeDefClikeEnum::new(vec![
        ClikeEnumVariant::new("Monday", 0),
        ClikeEnumVariant::new("Thursday", 42),
        ClikeEnumVariant::new("Monday", 43),
    ]);
    let compact = e.into_compact(&mut registry);
    let vs = compact.variants();
    assert_eq!(vs.len(), 3);
    assert_eq!(vs[0].name().id(), 1);
    assert_eq!(vs[1].name().id(), 2);
    assert_eq!(vs[2].name().id(), 1);
    assert_eq!(vs[0].discriminant(), 0);
    assert_eq!(vs[1].discriminant(), 42);
    assert_eq!(vs[2].discriminant(), 43);
    assert_eq!(registry.num_strings(), 2);
}

#[test]
fn empty_clike_enum_registers_nothing() {
    let mut registry = Registry::new();
    let compact = TypeDefClikeEnum::new(vec![]).into_compact(&mut registry);
    assert!(compact.variants().is_empty());
    assert_eq!(registry.num_strings(), 0);
}

#[test]
fn enum_variant_from_its_kinds() {
    let unit: EnumVariant = EnumVariantUnit::new("Zero").into();
    assert_eq!(unit, EnumVariant::Unit(EnumVariantUnit::new("Zero")));
    let tuple: EnumVariant =
        EnumVariantTupleStruct::new("Add", vec![UnnamedField::new(MetaType::new::<i32>())]).into();
    assert!(matches!(tuple, EnumVariant::TupleStruct(_)));
    let named: EnumVariant = EnumVariantStruct::new(
        "Minus",
        vec![NamedField::new("source", MetaType::new::<i32>())],
    )
    .into();
    assert!(matches!(named, EnumVariant::Struct(_)));
}

#[test]
fn enum_compacts_every_variant_in_order() {
    let mut registry = Registry::new();
    let e = TypeDefEnum::new(vec![
        EnumVariantUnit::new("Zero").into(),
        EnumVariantTupleStruct::new(
            "Add",
            vec![
                UnnamedField::new(MetaType::new::<i32>()),
                UnnamedField::new(MetaType::new::<i64>()),
            ],
        )
        .into(),
        EnumVariantStruct::new(
            "Minus",
            vec![
                NamedField::new("source", MetaType::new::<i64>()),
                NamedField::new("Zero", MetaType::new::<bool>()),
            ],
        )
        .into(),
    ]);
    let compact = e.into_compact(&mut registry);
    let vs = compact.variants();
    assert_eq!(vs.len(), 3);
    match &vs[0] {
        EnumVariant::Unit(u) => assert_eq!(u.name().id(), 1),
        _ => panic!("expected a unit variant"),
    }
    match &vs[1] {
        EnumVariant::TupleStruct(t) => {
            assert_eq!(t.name().id(), 2);
            let tys: Vec<u32> = t.fields().iter().map(|f| f.ty().id()).collect();
            assert_eq!(tys, vec![1, 2]);
        }
        _ => panic!("expected a tuple-struct variant"),
    }
    match &vs[2] {
        EnumVariant::Struct(s) => {
            assert_eq!(s.name().id(), 3);
            let names: Vec<u32> = s.fields().iter().map(|f| f.name().id()).collect();
            let tys: Vec<u32> = s.fields().iter().map(|f| f.ty().id()).collect();
            assert_eq!(names, vec![4, 1]);
            assert_eq!(tys, vec![2, 3]);
        }
        _ => panic!("expected a struct variant"),
    }
    assert_eq!(registry.num_strings(), 4);
    assert_eq!(registry.num_types(), 3);
    assert_eq!(registry.resolve_string(&symbol_of_field_name(&vs[2], 0)), Some("source"));
}

fn symbol_of_field_name(
    v: &EnumVariant<type_metadata::CompactForm>,
    i: usize,
) -> type_metadata::UntrackedSymbol<&'static str> {
    match v {
        EnumVariant::Struct(s) => *s.fields()[i].name(),
        _ => panic!("expected a struct variant"),
    }
}

#[test]
fn variant_compacts_on_its_own() {
    let mut registry = Registry::new();
    let unit = EnumVariantUnit::new("Only").into_compact(&mut registry);
    assert_eq!(unit.name().id(), 1);
    let v: EnumVariant = EnumVariantStruct::new("S", vec![NamedField::new("Only", MetaType::new::<u8>())]).into();
    match v.into_compact(&mut registry) {
        EnumVariant::Struct(s) => {
            assert_eq!(s.name().id(), 2);
            assert_eq!(s.fields()[0].name().id(), 1);
            assert_eq!(s.fields()[0].ty().id(), 1);
        }
        _ => panic!("expected a struct variant"),
    }
}

#[test]
fn union_compacts_its_fields() {
    let mut registry = Registry::new();
    let u = TypeDefUnion::new(vec![
        NamedField::new("inl", MetaType::new::<[i32; 8]>()),
        NamedField::new("ext", MetaType::new::<usize>()),
    ]);
    let compact = u.into_compact(&mut registry);
    let names: Vec<u32> = compact.fields().iter().map(|f| f.name().id()).collect();
    let tys: Vec<u32> = compact.fields().iter().map(|f| f.ty().id()).collect();
    assert_eq!(names, vec![1, 2]);
    assert_eq!(tys, vec![1, 2]);
    assert_eq!(registry.resolve_string(compact.fields()[1].name()), Some("ext"));
}

#[test]
fn fields_compact_on_their_own() {
    let mut registry = Registry::new();
    let named = NamedField::new("f", MetaType::new::<u8>()).into_compact(&mut registry);
    let unnamed = UnnamedField::new(MetaType::new::<u8>()).into_compact(&mut registry);
    assert_eq!(named.name().id(), 1);
    assert_eq!(named.ty().id(), 1);
    assert_eq!(unnamed.ty().id(), 1);
    let other = UnnamedField::new(MetaType::new::<u16>()).into_compact(&mut registry);
    assert_eq!(other.ty().id(), 2);
}

#[test]
fn clike_variant_compacts_on_its_own() {
    let mut registry = Registry::new();
    let v = ClikeEnumVariant::new("Pizza", 7).into_compact(&mut registry);
    assert_eq!(v.name().id(), 1);
    assert_eq!(v.discriminant(), 7);
}
