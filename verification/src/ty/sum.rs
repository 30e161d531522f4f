use vstd::prelude::*;

use crate::form::{CompactForm, Form, MetaForm};
use crate::registry::{
    extends, intern, intern_all, lemma_extends_symbol, lemma_intern_all,
    lemma_intern_all_concat, lemma_intern_all_extends, lemma_intern_all_single,
    lemma_intern_all_step, symbol_for, Registry,
};
use crate::ty::fields::{
    compact_named_fields, compact_unnamed_fields, field_names, lemma_named_fields_stable,
    lemma_unnamed_fields_stable, named_field_type_ids, named_fields_compact_to,
    unnamed_field_type_ids, unnamed_fields_compact_to, NamedField, UnnamedField,
};
use core::any::TypeId;

verus! {

/// Every item of `xs` is in `table`.
pub open spec fn all_in<A>(xs: Seq<A>, table: Seq<A>) -> bool {
    forall|j: int| 0 <= j < xs.len() ==> table.contains(#[trigger] xs[j])
}

/// Items that one table holds, a table that extends it holds too.
pub proof fn lemma_all_in_extends<A>(xs: Seq<A>, small: Seq<A>, big: Seq<A>)
    requires
        all_in(xs, small),
        extends(big, small),
    ensures
        all_in(xs, big),
{
    assert forall|j: int| 0 <= j < xs.len() implies big.contains(#[trigger] xs[j]) by {
        lemma_extends_symbol(big, small, xs[j]);
    }
}

/// A C-like enum type.
///
/// # Example
///
/// ```
/// enum Days {
///     Monday,
///     Tuesday,
///     Wednesday,
///     Thursday = 42, // Also allows to manually set the discriminant!
///     Friday,
///     Saturday,
///     Sunday,
/// }
/// ```
/// or an empty enum (for marker purposes)
/// ```
/// enum JustAMarker {}
/// ```
#[derive(PartialEq, Eq, PartialOrd, Ord, Clone, Debug)]
pub struct TypeDefClikeEnum<F: Form = MetaForm> {
    /// The variants of the C-like enum.
    variants: Vec<ClikeEnumVariant<F>>,
}

/// A C-like enum variant.
///
/// # Example
///
/// ```
/// enum Food {
///     Pizza,
/// //  ^^^^^ this is a C-like enum variant
///     Salad = 1337,
/// //  ^^^^^ this as well
///     Apple,
/// //  ^^^^^ and this
/// }
/// ```
#[derive(PartialEq, Eq, PartialOrd, Ord, Clone, Debug)]
pub struct ClikeEnumVariant<F: Form = MetaForm> {
    /// The name of the variant.
    name: F::String,
    /// The discriminant of the variant.
    ///
    /// # Note
    ///
    /// Even though setting the discriminant is optional
    /// every C-like enum variant has a discriminant specified
    /// upon compile-time.
    discriminant: u64,
}

impl<F: Form> TypeDefClikeEnum<F> {
    /// The variants of the C-like enum.
    pub closed spec fn spec_variants(&self) -> Seq<ClikeEnumVariant<F>> {
        self.variants@
    }

    /// Returns the variants of the C-like enum.
    pub fn variants(&self) -> (r: &Vec<ClikeEnumVariant<F>>)
        ensures
            r@ == self.spec_variants(),
    {
        &self.variants
    }
}

impl<F: Form> ClikeEnumVariant<F> {
    /// The name of the variant.
    pub closed spec fn spec_name(&self) -> F::String {
        self.name
    }

    /// The discriminant of the variant.
    pub closed spec fn spec_discriminant(&self) -> u64 {
        self.discriminant
    }

    /// Returns the name of the variant.
    pub fn name(&self) -> (r: &F::String)
        ensures
            *r == self.spec_name(),
    {
        &self.name
    }

    /// Returns the discriminant of the variant.
    pub fn discriminant(&self) -> (r: u64)
        ensures
            r == self.spec_discriminant(),
    {
        self.discriminant
    }
}

/// The names of a sequence of C-like enum variants.
pub open spec fn clike_variant_names(variants: Seq<ClikeEnumVariant>) -> Seq<Seq<char>> {
    variants.map_values(|v: ClikeEnumVariant| v.spec_name()@)
}

impl ClikeEnumVariant {
    /// `r` is this variant with its name replaced by its symbol in the given
    /// table, and the same discriminant.
    pub open spec fn compacts_to(&self, r: ClikeEnumVariant<CompactForm>, strings: Seq<Seq<char>>) -> bool {
        &&& r.spec_name().num() == symbol_for(strings, self.spec_name()@)
        &&& r.spec_discriminant() == self.spec_discriminant()
    }

    /// Creates a new C-like enum variant.
    pub fn new(name: &'static str, discriminant: u64) -> (r: Self)
        ensures
            r.spec_name() == name,
            r.spec_discriminant() == discriminant,
    {
        Self { name, discriminant }
    }

    /// Compacts this variant using the given registry: its name is interned.
    pub fn into_compact(self, registry: &mut Registry) -> (r: ClikeEnumVariant<CompactForm>)
        requires
            old(registry).wf(),
            old(registry).string_table().len() < u32::MAX,
        ensures
            final(registry).wf(),
            final(registry).string_table() == intern(old(registry).string_table(), self.spec_name()@),
            final(registry).type_table() == old(registry).type_table(),
            self.compacts_to(r, final(registry).string_table()),
    {
        ClikeEnumVariant { name: registry.register_string(self.name), discriminant: self.discriminant }
    }
}

impl TypeDefClikeEnum {
    /// Each variant compacts, in the given table, to the variant at the same
    /// place of `r`.
    pub open spec fn compacts_to(&self, r: TypeDefClikeEnum<CompactForm>, strings: Seq<Seq<char>>) -> bool {
        &&& r.spec_variants().len() == self.spec_variants().len()
        &&& forall|i: int| 0 <= i < self.spec_variants().len() ==>
            #[trigger] self.spec_variants()[i].compacts_to(r.spec_variants()[i], strings)
    }

    /// Creates a new C-like enum from the given variants.
    pub fn new(variants: Vec<ClikeEnumVariant>) -> (r: Self)
        ensures
            r.spec_variants() == variants@,
    {
        Self { variants }
    }

    /// Compacts this C-like enum using the given registry: the names of its
    /// variants are interned in order.
    pub fn into_compact(self, registry: &mut Registry) -> (r: TypeDefClikeEnum<CompactForm>)
        requires
            old(registry).wf(),
            old(registry).string_table().len() + self.spec_variants().len() < u32::MAX,
        ensures
            final(registry).wf(),
            final(registry).string_table() == intern_all(
                old(registry).string_table(),
                clike_variant_names(self.spec_variants()),
            ),
            final(registry).type_table() == old(registry).type_table(),
            self.compacts_to(r, final(registry).string_table()),
    {
        let ghost s0 = registry.string_table();
        let ghost vs = self.variants@;
        let ghost names = clike_variant_names(vs);
        let mut out: Vec<ClikeEnumVariant<CompactForm>> = Vec::new();
        let n = self.variants.len();
        let mut i: usize = 0;
        proof {
            assert(names.take(0) =~= Seq::<Seq<char>>::empty());
        }
        while i < n
            invariant
                n == vs.len(),
                vs == self.variants@,
                names == clike_variant_names(vs),
                i <= n,
                s0.no_duplicates(),
                s0.len() + n < u32::MAX,
                registry.wf(),
                registry.string_table() == intern_all(s0, names.take(i as int)),
                registry.type_table() == old(registry).type_table(),
                out@.len() == i,
                forall|k: int| 0 <= k < i ==> #[trigger] vs[k].compacts_to(out@[k], registry.string_table()),
                forall|k: int| 0 <= k < i ==> registry.string_table().contains(#[trigger] names[k]),
            decreases n - i,
        {
            let ghost s1 = registry.string_table();
            proof {
                lemma_intern_all(s0, names.take(i as int));
            }
            let v = ClikeEnumVariant { name: self.variants[i].name, discriminant: self.variants[i].discriminant };
            assert(v == vs[i as int]);
            let c = v.into_compact(registry);
            proof {
                lemma_intern_all_step(s0, names, i as int);
                lemma_intern_all_single(s1, names[i as int]);
                lemma_intern_all_extends(s1, seq![names[i as int]]);
                assert(seq![names[i as int]][0] == names[i as int]);
                assert forall|k: int| 0 <= k < i implies #[trigger] vs[k].compacts_to(out@[k], registry.string_table()) by {
                    assert(vs[k].compacts_to(out@[k], s1));
                    assert(s1.contains(names[k]));
                    lemma_extends_symbol(registry.string_table(), s1, vs[k].spec_name()@);
                }
                assert forall|k: int| 0 <= k < i implies registry.string_table().contains(#[trigger] names[k]) by {
                    assert(s1.contains(names[k]));
                    lemma_extends_symbol(registry.string_table(), s1, names[k]);
                }
            }
            out.push(c);
            i = i + 1;
        }
        proof {
            assert(names.take(n as int) =~= names);
        }
        TypeDefClikeEnum { variants: out }
    }
}

/// A Rust enum, aka tagged union.
///
/// # Examples
///
/// ```
/// enum MyEnum {
///     RustAllowsForClikeVariants,
///     AndAlsoForTupleStructs(i32, bool),
///     OrStructs {
///         with: i32,
///         named: bool,
///         fields: [u8; 32],
///     },
///     ItIsntPossibleToSetADiscriminantThough,
/// }
/// ```
#[derive(PartialEq, Eq, PartialOrd, Ord, Clone, Debug)]
pub struct TypeDefEnum<F: Form = MetaForm> {
    /// The variants of the enum.
    variants: Vec<EnumVariant<F>>,
}

/// A Rust enum variant.
///
/// This can either be a unit struct, just like in C-like enums,
/// a tuple-struct with unnamed fields,
/// or a struct with named fields.
#[derive(PartialEq, Eq, PartialOrd, Ord, Clone, Debug)]
pub enum EnumVariant<F: Form = MetaForm> {
    /// A unit struct variant.
    Unit(EnumVariantUnit<F>),
    /// A struct variant with named fields.
    Struct(EnumVariantStruct<F>),
    /// A tuple-struct variant with unnamed fields.
    TupleStruct(EnumVariantTupleStruct<F>),
}

/// An unit struct enum variant.
///
/// These are similar to the variants in C-like enums.
///
/// # Example
///
/// ```
/// enum Operation {
///     Zero,
/// //  ^^^^ this is a unit struct enum variant
///     Add(i32, i32),
///     Minus { source: i32 }
/// }
/// ```
#[derive(PartialEq, Eq, PartialOrd, Ord, Clone, Debug)]
pub struct EnumVariantUnit<F: Form = MetaForm> {
    /// The name of the variant.
    name: F::String,
}

/// A struct enum variant with named fields.
///
/// # Example
///
/// ```
/// enum Operation {
///     Zero,
///     Add(i32, i32),
///     Minus { source: i32 }
/// //  ^^^^^^^^^^^^^^^^^^^^^ this is a struct enum variant
/// }
/// ```
#[derive(PartialEq, Eq, PartialOrd, Ord, Clone, Debug)]
pub struct EnumVariantStruct<F: Form = MetaForm> {
    /// The name of the struct variant.
    name: F::String,
    /// The fields of the struct variant.
    fields: Vec<NamedField<F>>,
}

/// A tuple struct enum variant.
///
/// # Example
///
/// ```
/// enum Operation {
///     Zero,
///     Add(i32, i32),
/// //  ^^^^^^^^^^^^^ this is a tuple-struct enum variant
///     Minus {
///         source: i32,
///     }
/// }
/// ```
#[derive(PartialEq, Eq, PartialOrd, Ord, Clone, Debug)]
pub struct EnumVariantTupleStruct<F: Form = MetaForm> {
    /// The name of the variant.
    name: F::String,
    /// The fields of the variant.
    fields: Vec<UnnamedField<F>>,
}

impl<F: Form> TypeDefEnum<F> {
    /// The variants of the enum.
    pub closed spec fn spec_variants(&self) -> Seq<EnumVariant<F>> {
        self.variants@
    }

    /// Returns the variants of the enum.
    pub fn variants(&self) -> (r: &Vec<EnumVariant<F>>)
        ensures
            r@ == self.spec_variants(),
    {
        &self.variants
    }
}

impl<F: Form> EnumVariantUnit<F> {
    /// The name of the variant.
    pub closed spec fn spec_name(&self) -> F::String {
        self.name
    }

    /// Returns the name of the variant.
    pub fn name(&self) -> (r: &F::String)
        ensures
            *r == self.spec_name(),
    {
        &self.name
    }
}

impl<F: Form> EnumVariantStruct<F> {
    /// The name of the variant.
    pub closed spec fn spec_name(&self) -> F::String {
        self.name
    }

    /// The fields of the variant.
    pub closed spec fn spec_fields(&self) -> Seq<NamedField<F>> {
        self.fields@
    }

    /// Returns the name of the variant.
    pub fn name(&self) -> (r: &F::String)
        ensures
            *r == self.spec_name(),
    {
        &self.name
    }

    /// Returns the fields of the variant.
    pub fn fields(&self) -> (r: &Vec<NamedField<F>>)
        ensures
            r@ == self.spec_fields(),
    {
        &self.fields
    }
}

impl<F: Form> EnumVariantTupleStruct<F> {
    /// The name of the variant.
    pub closed spec fn spec_name(&self) -> F::String {
        self.name
    }

    /// The fields of the variant.
    pub closed spec fn spec_fields(&self) -> Seq<UnnamedField<F>> {
        self.fields@
    }

    /// Returns the name of the variant.
    pub fn name(&self) -> (r: &F::String)
        ensures
            *r == self.spec_name(),
    {
        &self.name
    }

    /// Returns the fields of the variant.
    pub fn fields(&self) -> (r: &Vec<UnnamedField<F>>)
        ensures
            r@ == self.spec_fields(),
    {
        &self.fields
    }
}

impl<F: Form> From<EnumVariantUnit<F>> for EnumVariant<F> {
    fn from(v: EnumVariantUnit<F>) -> (r: Self) {
        EnumVariant::Unit(v)
    }
}

impl<F: Form> vstd::std_specs::convert::FromSpecImpl<EnumVariantUnit<F>> for EnumVariant<F> {
    open spec fn obeys_from_spec() -> bool {
        true
    }

    open spec fn from_spec(v: EnumVariantUnit<F>) -> Self {
        EnumVariant::Unit(v)
    }
}

impl<F: Form> From<EnumVariantStruct<F>> for EnumVariant<F> {
    fn from(v: EnumVariantStruct<F>) -> (r: Self) {
        EnumVariant::Struct(v)
    }
}

impl<F: Form> vstd::std_specs::convert::FromSpecImpl<EnumVariantStruct<F>> for EnumVariant<F> {
    open spec fn obeys_from_spec() -> bool {
        true
    }

    open spec fn from_spec(v: EnumVariantStruct<F>) -> Self {
        EnumVariant::Struct(v)
    }
}

impl<F: Form> From<EnumVariantTupleStruct<F>> for EnumVariant<F> {
    fn from(v: EnumVariantTupleStruct<F>) -> (r: Self) {
        EnumVariant::TupleStruct(v)
    }
}

impl<F: Form> vstd::std_specs::convert::FromSpecImpl<EnumVariantTupleStruct<F>> for EnumVariant<F> {
    open spec fn obeys_from_spec() -> bool {
        true
    }

    open spec fn from_spec(v: EnumVariantTupleStruct<F>) -> Self {
        EnumVariant::TupleStruct(v)
    }
}

impl EnumVariantUnit {
    /// The texts that compacting this variant interns: its name.
    pub open spec fn string_texts(&self) -> Seq<Seq<char>> {
        seq![self.spec_name()@]
    }

    /// `r` is this variant with its name replaced by its symbol in the given
    /// table.
    pub open spec fn compacts_to(&self, r: EnumVariantUnit<CompactForm>, strings: Seq<Seq<char>>) -> bool {
        r.spec_name().num() == symbol_for(strings, self.spec_name()@)
    }

    /// Creates a new unit struct variant.
    pub fn new(name: &'static str) -> (r: Self)
        ensures
            r.spec_name() == name,
    {
        Self { name }
    }

    fn compact(&self, registry: &mut Registry) -> (r: EnumVariantUnit<CompactForm>)
        requires
            old(registry).wf(),
            old(registry).string_table().len() + self.string_texts().len() < u32::MAX,
        ensures
            final(registry).wf(),
            final(registry).string_table() == intern_all(old(registry).string_table(), self.string_texts()),
            final(registry).type_table() == old(registry).type_table(),
            self.compacts_to(r, final(registry).string_table()),
    {
        let ghost s0 = registry.string_table();
        let name = registry.register_string(self.name);
        proof {
            lemma_intern_all_single(s0, self.spec_name()@);
        }
        EnumVariantUnit { name }
    }

    /// Compacts this variant using the given registry: its name is interned.
    pub fn into_compact(self, registry: &mut Registry) -> (r: EnumVariantUnit<CompactForm>)
        requires
            old(registry).wf(),
            old(registry).string_table().len() + self.string_texts().len() < u32::MAX,
        ensures
            final(registry).wf(),
            final(registry).string_table() == intern_all(old(registry).string_table(), self.string_texts()),
            final(registry).type_table() == old(registry).type_table(),
            self.compacts_to(r, final(registry).string_table()),
    {
        self.compact(registry)
    }
}

impl EnumVariantStruct {
    /// The texts that compacting this variant interns, in order: its name,
    /// then the names of its fields.
    pub open spec fn string_texts(&self) -> Seq<Seq<char>> {
        seq![self.spec_name()@] + field_names(self.spec_fields())
    }

    /// The type identifiers that compacting this variant interns, in order.
    pub open spec fn type_id_seq(&self) -> Seq<TypeId> {
        named_field_type_ids(self.spec_fields())
    }

    /// `r` is this variant with its name and its fields' names and types
    /// replaced by their symbols in the given tables.
    pub open spec fn compacts_to(
        &self,
        r: EnumVariantStruct<CompactForm>,
        strings: Seq<Seq<char>>,
        types: Seq<TypeId>,
    ) -> bool {
        &&& r.spec_name().num() == symbol_for(strings, self.spec_name()@)
        &&& named_fields_compact_to(self.spec_fields(), r.spec_fields(), strings, types)
    }

    /// Creates a new struct variant from the given fields.
    pub fn new(name: &'static str, fields: Vec<NamedField>) -> (r: Self)
        ensures
            r.spec_name() == name,
            r.spec_fields() == fields@,
    {
        Self { name, fields }
    }

    fn compact(&self, registry: &mut Registry) -> (r: EnumVariantStruct<CompactForm>)
        requires
            old(registry).wf(),
            old(registry).string_table().len() + self.string_texts().len() < u32::MAX,
            old(registry).type_table().len() + self.type_id_seq().len() < u32::MAX,
        ensures
            final(registry).wf(),
            final(registry).string_table() == intern_all(old(registry).string_table(), self.string_texts()),
            final(registry).type_table() == intern_all(old(registry).type_table(), self.type_id_seq()),
            self.compacts_to(r, final(registry).string_table(), final(registry).type_table()),
    {
        let ghost s0 = registry.string_table();
        let name = registry.register_string(self.name);
        let ghost s1 = registry.string_table();
        let fields = compact_named_fields(&self.fields, registry);
        proof {
            let names = field_names(self.spec_fields());
            lemma_intern_all_single(s0, self.spec_name()@);
            lemma_intern_all_concat(s0, seq![self.spec_name()@], names);
            lemma_intern_all_extends(s0, seq![self.spec_name()@]);
            assert(seq![self.spec_name()@][0] == self.spec_name()@);
            lemma_intern_all_extends(s1, names);
            lemma_extends_symbol(registry.string_table(), s1, self.spec_name()@);
        }
        EnumVariantStruct { name, fields }
    }

    /// Compacts this variant using the given registry: its name, then the
    /// names and types of its fields, are interned.
    pub fn into_compact(self, registry: &mut Registry) -> (r: EnumVariantStruct<CompactForm>)
        requires
            old(registry).wf(),
            old(registry).string_table().len() + self.string_texts().len() < u32::MAX,
            old(registry).type_table().len() + self.type_id_seq().len() < u32::MAX,
        ensures
            final(registry).wf(),
            final(registry).string_table() == intern_all(old(registry).string_table(), self.string_texts()),
            final(registry).type_table() == intern_all(old(registry).type_table(), self.type_id_seq()),
            self.compacts_to(r, final(registry).string_table(), final(registry).type_table()),
    {
        self.compact(registry)
    }
}

impl EnumVariantTupleStruct {
    /// The texts that compacting this variant interns: its name.
    pub open spec fn string_texts(&self) -> Seq<Seq<char>> {
        seq![self.spec_name()@]
    }

    /// The type identifiers that compacting this variant interns, in order.
    pub open spec fn type_id_seq(&self) -> Seq<TypeId> {
        unnamed_field_type_ids(self.spec_fields())
    }

    /// `r` is this variant with its name and its fields' types replaced by
    /// their symbols in the given tables.
    pub open spec fn compacts_to(
        &self,
        r: EnumVariantTupleStruct<CompactForm>,
        strings: Seq<Seq<char>>,
        types: Seq<TypeId>,
    ) -> bool {
        &&& r.spec_name().num() == symbol_for(strings, self.spec_name()@)
        &&& unnamed_fields_compact_to(self.spec_fields(), r.spec_fields(), types)
    }

    /// Creates a new tuple struct enum variant from the given fields.
    pub fn new(name: &'static str, fields: Vec<UnnamedField>) -> (r: Self)
        ensures
            r.spec_name() == name,
            r.spec_fields() == fields@,
    {
        Self { name, fields }
    }

    fn compact(&self, registry: &mut Registry) -> (r: EnumVariantTupleStruct<CompactForm>)
        requires
            old(registry).wf(),
            old(registry).string_table().len() + self.string_texts().len() < u32::MAX,
            old(registry).type_table().len() + self.type_id_seq().len() < u32::MAX,
        ensures
            final(registry).wf(),
            final(registry).string_table() == intern_all(old(registry).string_table(), self.string_texts()),
            final(registry).type_table() == intern_all(old(registry).type_table(), self.type_id_seq()),
            self.compacts_to(r, final(registry).string_table(), final(registry).type_table()),
    {
        let ghost s0 = registry.string_table();
        let name = registry.register_string(self.name);
        let fields = compact_unnamed_fields(&self.fields, registry);
        proof {
            lemma_intern_all_single(s0, self.spec_name()@);
        }
        EnumVariantTupleStruct { name, fields }
    }

    /// Compacts this variant using the given registry: its name, then the
    /// types of its fields, are interned.
    pub fn into_compact(self, registry: &mut Registry) -> (r: EnumVariantTupleStruct<CompactForm>)
        requires
            old(registry).wf(),
            old(registry).string_table().len() + self.string_texts().len() < u32::MAX,
            old(registry).type_table().len() + self.type_id_seq().len() < u32::MAX,
        ensures
            final(registry).wf(),
            final(registry).string_table() == intern_all(old(registry).string_table(), self.string_texts()),
            final(registry).type_table() == intern_all(old(registry).type_table(), self.type_id_seq()),
            self.compacts_to(r, final(registry).string_table(), final(registry).type_table()),
    {
        self.compact(registry)
    }
}

impl EnumVariant {
    /// The texts that compacting this variant interns, in order.
    pub open spec fn string_texts(&self) -> Seq<Seq<char>> {
        match self {
            EnumVariant::Unit(v) => v.string_texts(),
            EnumVariant::Struct(v) => v.string_texts(),
            EnumVariant::TupleStruct(v) => v.string_texts(),
        }
    }

    /// The type identifiers that compacting this variant interns, in order.
    pub open spec fn type_id_seq(&self) -> Seq<TypeId> {
        match self {
            EnumVariant::Unit(v) => Seq::empty(),
            EnumVariant::Struct(v) => v.type_id_seq(),
            EnumVariant::TupleStruct(v) => v.type_id_seq(),
        }
    }

    /// `r` is the same kind of variant as this one, and this variant's
    /// content compacts to its content in the given tables.
    pub open spec fn compacts_to(
        &self,
        r: EnumVariant<CompactForm>,
        strings: Seq<Seq<char>>,
        types: Seq<TypeId>,
    ) -> bool {
        match (self, r) {
            (EnumVariant::Unit(a), EnumVariant::Unit(b)) => a.compacts_to(b, strings),
            (EnumVariant::Struct(a), EnumVariant::Struct(b)) => a.compacts_to(b, strings, types),
            (EnumVariant::TupleStruct(a), EnumVariant::TupleStruct(b)) => a.compacts_to(b, strings, types),
            _ => false,
        }
    }

    fn compact(&self, registry: &mut Registry) -> (r: EnumVariant<CompactForm>)
        requires
            old(registry).wf(),
            old(registry).string_table().len() + self.string_texts().len() < u32::MAX,
            old(registry).type_table().len() + self.type_id_seq().len() < u32::MAX,
        ensures
            final(registry).wf(),
            final(registry).string_table() == intern_all(old(registry).string_table(), self.string_texts()),
            final(registry).type_table() == intern_all(old(registry).type_table(), self.type_id_seq()),
            self.compacts_to(r, final(registry).string_table(), final(registry).type_table()),
    {
        match self {
            EnumVariant::Unit(unit) => {
                assert(intern_all(registry.type_table(), Seq::<TypeId>::empty()) == registry.type_table());
                EnumVariant::Unit(unit.compact(registry))
            },
            EnumVariant::Struct(struct_variant) => EnumVariant::Struct(struct_variant.compact(registry)),
            EnumVariant::TupleStruct(tuple_struct) => EnumVariant::TupleStruct(tuple_struct.compact(registry)),
        }
    }

    /// Compacts this variant using the given registry.
    pub fn into_compact(self, registry: &mut Registry) -> (r: EnumVariant<CompactForm>)
        requires
            old(registry).wf(),
            old(registry).string_table().len() + self.string_texts().len() < u32::MAX,
            old(registry).type_table().len() + self.type_id_seq().len() < u32::MAX,
        ensures
            final(registry).wf(),
            final(registry).string_table() == intern_all(old(registry).string_table(), self.string_texts()),
            final(registry).type_table() == intern_all(old(registry).type_table(), self.type_id_seq()),
            self.compacts_to(r, final(registry).string_table(), final(registry).type_table()),
    {
        self.compact(registry)
    }
}

/// A compaction of a variant stays valid in tables that extend those it was
/// made in, where they held all that the variant interns.
pub proof fn lemma_variant_stable(
    v: EnumVariant,
    r: EnumVariant<CompactForm>,
    strings: Seq<Seq<char>>,
    types: Seq<TypeId>,
    strings2: Seq<Seq<char>>,
    types2: Seq<TypeId>,
)
    requires
        v.compacts_to(r, strings, types),
        extends(strings2, strings),
        extends(types2, types),
        all_in(v.string_texts(), strings),
        all_in(v.type_id_seq(), types),
    ensures
        v.compacts_to(r, strings2, types2),
{
    match (v, r) {
        (EnumVariant::Unit(a), EnumVariant::Unit(b)) => {
            assert(v.string_texts()[0] == a.spec_name()@);
            lemma_extends_symbol(strings2, strings, a.spec_name()@);
        },
        (EnumVariant::Struct(a), EnumVariant::Struct(b)) => {
            let texts = v.string_texts();
            assert(texts[0] == a.spec_name()@);
            lemma_extends_symbol(strings2, strings, a.spec_name()@);
            assert forall|i: int| 0 <= i < a.spec_fields().len() implies strings.contains(#[trigger] field_names(a.spec_fields())[i]) by {
                assert(texts[i + 1] == field_names(a.spec_fields())[i]);
            }
            lemma_named_fields_stable(a.spec_fields(), b.spec_fields(), strings, types, strings2, types2);
        },
        (EnumVariant::TupleStruct(a), EnumVariant::TupleStruct(b)) => {
            assert(v.string_texts()[0] == a.spec_name()@);
            lemma_extends_symbol(strings2, strings, a.spec_name()@);
            lemma_unnamed_fields_stable(a.spec_fields(), b.spec_fields(), types, types2);
        },
        _ => {},
    }
}

/// The texts that compacting the given variants interns, in order.
pub open spec fn variant_texts(vs: Seq<EnumVariant>) -> Seq<Seq<char>> {
    vs.map_values(|v: EnumVariant| v.string_texts()).flatten()
}

/// The type identifiers that compacting the given variants interns, in order.
pub open spec fn variant_type_ids(vs: Seq<EnumVariant>) -> Seq<TypeId> {
    vs.map_values(|v: EnumVariant| v.type_id_seq()).flatten()
}

/// The texts of the variants from the `i`-th on are those of the `i`-th
/// followed by those of the variants after it.
proof fn lemma_variant_seqs_skip(vs: Seq<EnumVariant>, i: int)
    requires
        0 <= i < vs.len(),
    ensures
        variant_texts(vs.skip(i)) == vs[i].string_texts() + variant_texts(vs.skip(i + 1)),
        variant_type_ids(vs.skip(i)) == vs[i].type_id_seq() + variant_type_ids(vs.skip(i + 1)),
{
    let a = vs.skip(i).map_values(|v: EnumVariant| v.string_texts());
    assert(a.drop_first() =~= vs.skip(i + 1).map_values(|v: EnumVariant| v.string_texts()));
    assert(a.first() == vs[i].string_texts());
    let b = vs.skip(i).map_values(|v: EnumVariant| v.type_id_seq());
    assert(b.drop_first() =~= vs.skip(i + 1).map_values(|v: EnumVariant| v.type_id_seq()));
    assert(b.first() == vs[i].type_id_seq());
}

/// The texts of the first `i + 1` variants are those of the first `i`
/// followed by those of the `i`-th.
proof fn lemma_variant_seqs_take(vs: Seq<EnumVariant>, i: int)
    requires
        0 <= i < vs.len(),
    ensures
        variant_texts(vs.take(i + 1)) == variant_texts(vs.take(i)) + vs[i].string_texts(),
        variant_type_ids(vs.take(i + 1)) == variant_type_ids(vs.take(i)) + vs[i].type_id_seq(),
{
    let a = vs.take(i).map_values(|v: EnumVariant| v.string_texts());
    assert(vs.take(i + 1).map_values(|v: EnumVariant| v.string_texts()) =~= a.push(vs[i].string_texts()));
    a.lemma_flatten_push(vs[i].string_texts());
    let b = vs.take(i).map_values(|v: EnumVariant| v.type_id_seq());
    assert(vs.take(i + 1).map_values(|v: EnumVariant| v.type_id_seq()) =~= b.push(vs[i].type_id_seq()));
    b.lemma_flatten_push(vs[i].type_id_seq());
}

impl TypeDefEnum {
    /// The texts that compacting this enum interns, in order: those of its
    /// variants, one variant after the other.
    pub open spec fn string_texts(&self) -> Seq<Seq<char>> {
        variant_texts(self.spec_variants())
    }

    /// The type identifiers that compacting this enum interns, in order.
    pub open spec fn type_id_seq(&self) -> Seq<TypeId> {
        variant_type_ids(self.spec_variants())
    }

    /// Each variant compacts, in the given tables, to the variant at the
    /// same place of `r`.
    pub open spec fn compacts_to(
        &self,
        r: TypeDefEnum<CompactForm>,
        strings: Seq<Seq<char>>,
        types: Seq<TypeId>,
    ) -> bool {
        &&& r.spec_variants().len() == self.spec_variants().len()
        &&& forall|i: int| 0 <= i < self.spec_variants().len() ==>
            #[trigger] self.spec_variants()[i].compacts_to(r.spec_variants()[i], strings, types)
    }

    /// Creates a new Rust enum from the given variants.
    pub fn new(variants: Vec<EnumVariant>) -> (r: Self)
        ensures
            r.spec_variants() == variants@,
    {
        Self { variants }
    }

    /// Compacts this enum using the given registry: its variants are
    /// compacted in order.
    pub fn into_compact(self, registry: &mut Registry) -> (r: TypeDefEnum<CompactForm>)
        requires
            old(registry).wf(),
            old(registry).string_table().len() + self.string_texts().len() < u32::MAX,
            old(registry).type_table().len() + self.type_id_seq().len() < u32::MAX,
        ensures
            final(registry).wf(),
            final(registry).string_table() == intern_all(old(registry).string_table(), self.string_texts()),
            final(registry).type_table() == intern_all(old(registry).type_table(), self.type_id_seq()),
            self.compacts_to(r, final(registry).string_table(), final(registry).type_table()),
    {
        let ghost s0 = registry.string_table();
        let ghost t0 = registry.type_table();
        let ghost vs = self.variants@;
        let mut out: Vec<EnumVariant<CompactForm>> = Vec::new();
        let n = self.variants.len();
        let mut i: usize = 0;
        proof {
            assert(vs.take(0) =~= Seq::<EnumVariant>::empty());
            assert(vs.take(0).map_values(|v: EnumVariant| v.string_texts()) =~= Seq::<Seq<Seq<char>>>::empty());
            assert(vs.take(0).map_values(|v: EnumVariant| v.type_id_seq()) =~= Seq::<Seq<TypeId>>::empty());
            assert(variant_texts(vs.take(0)) =~= Seq::<Seq<char>>::empty());
            assert(variant_type_ids(vs.take(0)) =~= Seq::<TypeId>::empty());
            assert(vs.skip(0) =~= vs);
        }
        while i < n
            invariant
                n == vs.len(),
                vs == self.variants@,
                i <= n,
                s0.no_duplicates(),
                t0.no_duplicates(),
                registry.wf(),
                registry.string_table() == intern_all(s0, variant_texts(vs.take(i as int))),
                registry.type_table() == intern_all(t0, variant_type_ids(vs.take(i as int))),
                registry.string_table().len() + variant_texts(vs.skip(i as int)).len() < u32::MAX,
                registry.type_table().len() + variant_type_ids(vs.skip(i as int)).len() < u32::MAX,
                out@.len() == i,
                forall|k: int| 0 <= k < i ==>
                    #[trigger] vs[k].compacts_to(out@[k], registry.string_table(), registry.type_table()),
                forall|k: int| 0 <= k < i ==> all_in(#[trigger] vs[k].string_texts(), registry.string_table()),
                forall|k: int| 0 <= k < i ==> all_in(#[trigger] vs[k].type_id_seq(), registry.type_table()),
            decreases n - i,
        {
            let ghost s1 = registry.string_table();
            let ghost t1 = registry.type_table();
            proof {
                lemma_variant_seqs_skip(vs, i as int);
            }
            let c = self.variants[i].compact(registry);
            proof {
                let v = vs[i as int];
                lemma_variant_seqs_take(vs, i as int);
                lemma_intern_all_concat(s0, variant_texts(vs.take(i as int)), v.string_texts());
                lemma_intern_all_concat(t0, variant_type_ids(vs.take(i as int)), v.type_id_seq());
                lemma_intern_all(s1, v.string_texts());
                lemma_intern_all(t1, v.type_id_seq());
                lemma_intern_all_extends(s1, v.string_texts());
                lemma_intern_all_extends(t1, v.type_id_seq());
                let s2 = registry.string_table();
                let t2 = registry.type_table();
                assert forall|k: int| 0 <= k < i implies #[trigger] vs[k].compacts_to(out@[k], s2, t2) by {
                    assert(vs[k].compacts_to(out@[k], s1, t1));
                    assert(all_in(vs[k].string_texts(), s1));
                    assert(all_in(vs[k].type_id_seq(), t1));
                    lemma_variant_stable(vs[k], out@[k], s1, t1, s2, t2);
                }
                assert forall|k: int| 0 <= k < i implies all_in(#[trigger] vs[k].string_texts(), s2) by {
                    lemma_all_in_extends(vs[k].string_texts(), s1, s2);
                }
                assert forall|k: int| 0 <= k < i implies all_in(#[trigger] vs[k].type_id_seq(), t2) by {
                    lemma_all_in_extends(vs[k].type_id_seq(), t1, t2);
                }
            }
            out.push(c);
            i = i + 1;
        }
        proof {
            assert(vs.take(n as int) =~= vs);
        }
        TypeDefEnum { variants: out }
    }
}

/// A union, aka untagged union, type definition.
///
/// # Example
///
/// ```
/// union SmallVecI32 {
///     inl: [i32; 8],
///     ext: *mut i32,
/// }
/// ```
#[derive(PartialEq, Eq, PartialOrd, Ord, Clone, Debug)]
pub struct TypeDefUnion<F: Form = MetaForm> {
    /// The fields of the union.
    fields: Vec<NamedField<F>>,
}

impl<F: Form> TypeDefUnion<F> {
    /// The fields of the union.
    pub closed spec fn spec_fields(&self) -> Seq<NamedField<F>> {
        self.fields@
    }

    /// Returns the fields of the union.
    pub fn fields(&self) -> (r: &Vec<NamedField<F>>)
        ensures
            r@ == self.spec_fields(),
    {
        &self.fields
    }
}

impl TypeDefUnion {
    /// Creates a new union type definition from the given named fields.
    pub fn new(fields: Vec<NamedField>) -> (r: Self)
        ensures
            r.spec_fields() == fields@,
    {
        Self { fields }
    }

    /// Compacts this union using the given registry: the names and types of
    /// its fields are interned in order.
    pub fn into_compact(self, registry: &mut Registry) -> (r: TypeDefUnion<CompactForm>)
        requires
            old(registry).wf(),
            old(registry).string_table().len() + self.spec_fields().len() < u32::MAX,
            old(registry).type_table().len() + self.spec_fields().len() < u32::MAX,
        ensures
            final(registry).wf(),
            final(registry).string_table() == intern_all(
                old(registry).string_table(),
                field_names(self.spec_fields()),
            ),
            final(registry).type_table() == intern_all(
                old(registry).type_table(),
                named_field_type_ids(self.spec_fields()),
            ),
            named_fields_compact_to(
                self.spec_fields(),
                r.spec_fields(),
                final(registry).string_table(),
                final(registry).type_table(),
            ),
    {
        TypeDefUnion { fields: compact_named_fields(&self.fields, registry) }
    }
}

/// Compacting a C-like enum keeps its variants, in order, each with its
/// discriminant unchanged.
pub proof fn lemma_clike_compaction_keeps_discriminants(
    e: TypeDefClikeEnum,
    r: TypeDefClikeEnum<CompactForm>,
    strings: Seq<Seq<char>>,
)
    requires
        e.compacts_to(r, strings),
    ensures
        r.spec_variants().len() == e.spec_variants().len(),
        forall|i: int| 0 <= i < e.spec_variants().len() ==>
            (#[trigger] r.spec_variants()[i]).spec_discriminant() == e.spec_variants()[i].spec_discriminant(),
{
    assert forall|i: int| 0 <= i < e.spec_variants().len() implies
        (#[trigger] r.spec_variants()[i]).spec_discriminant() == e.spec_variants()[i].spec_discriminant() by {
        assert(e.spec_variants()[i].compacts_to(r.spec_variants()[i], strings));
    }
}

/// Compacting a variant keeps its kind and its fields: a unit variant stays
/// a unit variant, and a struct or tuple-struct variant stays one with as
/// many fields, each field's type replaced by the symbol of that type (and
/// each named field's name by the symbol of that name).
pub proof fn lemma_variant_compaction_keeps_kind(
    v: EnumVariant,
    r: EnumVariant<CompactForm>,
    strings: Seq<Seq<char>>,
    types: Seq<TypeId>,
)
    requires
        v.compacts_to(r, strings, types),
    ensures
        (v is Unit) == (r is Unit),
        (v is Struct) == (r is Struct),
        (v is TupleStruct) == (r is TupleStruct),
        v is Struct ==> ({
            let a = v->Struct_0.spec_fields();
            let b = r->Struct_0.spec_fields();
            &&& b.len() == a.len()
            &&& forall|j: int| 0 <= j < a.len() ==>
                (#[trigger] b[j]).spec_ty().num() == symbol_for(types, a[j].spec_ty().id())
                && b[j].spec_name().num() == symbol_for(strings, a[j].spec_name()@)
        }),
        v is TupleStruct ==> ({
            let a = v->TupleStruct_0.spec_fields();
            let b = r->TupleStruct_0.spec_fields();
            &&& b.len() == a.len()
            &&& forall|j: int| 0 <= j < a.len() ==>
                (#[trigger] b[j]).spec_ty().num() == symbol_for(types, a[j].spec_ty().id())
        }),
{
    match (v, r) {
        (EnumVariant::Struct(a), EnumVariant::Struct(b)) => {
            assert forall|j: int| 0 <= j < a.spec_fields().len() implies
                (#[trigger] b.spec_fields()[j]).spec_ty().num() == symbol_for(types, a.spec_fields()[j].spec_ty().id())
                && b.spec_fields()[j].spec_name().num() == symbol_for(strings, a.spec_fields()[j].spec_name()@) by {
                assert(a.spec_fields()[j].compacts_to(b.spec_fields()[j], strings, types));
            }
        },
        (EnumVariant::TupleStruct(a), EnumVariant::TupleStruct(b)) => {
            assert forall|j: int| 0 <= j < a.spec_fields().len() implies
                (#[trigger] b.spec_fields()[j]).spec_ty().num() == symbol_for(types, a.spec_fields()[j].spec_ty().id()) by {
                assert(a.spec_fields()[j].compacts_to(b.spec_fields()[j], types));
            }
        },
        _ => {},
    }
}

/// Compacting an enum keeps its variants, in order, each of its own kind
/// and with as many fields.
pub proof fn lemma_enum_compaction_keeps_kinds(
    e: TypeDefEnum,
    r: TypeDefEnum<CompactForm>,
    strings: Seq<Seq<char>>,
    types: Seq<TypeId>,
)
    requires
        e.compacts_to(r, strings, types),
    ensures
        r.spec_variants().len() == e.spec_variants().len(),
        forall|i: int| 0 <= i < e.spec_variants().len() ==> {
            let v = e.spec_variants()[i];
            let w = #[trigger] r.spec_variants()[i];
            &&& (v is Unit) == (w is Unit)
            &&& (v is Struct) == (w is Struct)
            &&& (v is TupleStruct) == (w is TupleStruct)
            &&& v is Struct ==> w->Struct_0.spec_fields().len() == v->Struct_0.spec_fields().len()
            &&& v is TupleStruct ==> w->TupleStruct_0.spec_fields().len() == v->TupleStruct_0.spec_fields().len()
        },
{
    assert forall|i: int| 0 <= i < e.spec_variants().len() implies {
        let v = e.spec_variants()[i];
        let w = #[trigger] r.spec_variants()[i];
        &&& (v is Unit) == (w is Unit)
        &&& (v is Struct) == (w is Struct)
        &&& (v is TupleStruct) == (w is TupleStruct)
        &&& v is Struct ==> w->Struct_0.spec_fields().len() == v->Struct_0.spec_fields().len()
        &&& v is TupleStruct ==> w->TupleStruct_0.spec_fields().len() == v->TupleStruct_0.spec_fields().len()
    } by {
        assert(e.spec_variants()[i].compacts_to(r.spec_variants()[i], strings, types));
        lemma_variant_compaction_keeps_kind(e.spec_variants()[i], r.spec_variants()[i], strings, types);
    }
}

} // verus!
