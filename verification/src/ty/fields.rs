use vstd::prelude::*;

use crate::form::{CompactForm, Form, MetaForm};
use crate::meta_type::MetaType;
use crate::registry::{
    extends, intern, intern_all, lemma_extends_symbol, lemma_intern_all,
    lemma_intern_all_extends, lemma_intern_all_single, lemma_intern_all_step, symbol_for, Registry,
};
use core::any::TypeId;

verus! {

/// A field with a name.
#[derive(PartialEq, Eq, PartialOrd, Ord, Clone, Debug)]
pub struct NamedField<F: Form = MetaForm> {
    /// The name of the field.
    name: F::String,
    /// The type of the field.
    ty: F::Type,
}

/// A field without a name.
#[derive(PartialEq, Eq, PartialOrd, Ord, Clone, Debug)]
pub struct UnnamedField<F: Form = MetaForm> {
    /// The type of the field.
    ty: F::Type,
}

impl<F: Form> NamedField<F> {
    /// The name of the field.
    pub closed spec fn spec_name(&self) -> F::String {
        self.name
    }

    /// The type of the field.
    pub closed spec fn spec_ty(&self) -> F::Type {
        self.ty
    }

    /// Returns the name of the field.
    pub fn name(&self) -> (r: &F::String)
        ensures
            *r == self.spec_name(),
    {
        &self.name
    }

    /// Returns the type of the field.
    pub fn ty(&self) -> (r: &F::Type)
        ensures
            *r == self.spec_ty(),
    {
        &self.ty
    }
}

impl<F: Form> UnnamedField<F> {
    /// The type of the field.
    pub closed spec fn spec_ty(&self) -> F::Type {
        self.ty
    }

    /// Returns the type of the field.
    pub fn ty(&self) -> (r: &F::Type)
        ensures
            *r == self.spec_ty(),
    {
        &self.ty
    }
}

/// The names of a sequence of named fields.
pub open spec fn field_names(fields: Seq<NamedField>) -> Seq<Seq<char>> {
    fields.map_values(|f: NamedField| f.spec_name()@)
}

/// The type identifiers of a sequence of named fields.
pub open spec fn named_field_type_ids(fields: Seq<NamedField>) -> Seq<TypeId> {
    fields.map_values(|f: NamedField| f.spec_ty().id())
}

/// The type identifiers of a sequence of unnamed fields.
pub open spec fn unnamed_field_type_ids(fields: Seq<UnnamedField>) -> Seq<TypeId> {
    fields.map_values(|f: UnnamedField| f.spec_ty().id())
}

impl NamedField {
    /// `r` is this field with its name and type replaced by their symbols
    /// in the given tables.
    pub open spec fn compacts_to(
        &self,
        r: NamedField<CompactForm>,
        strings: Seq<Seq<char>>,
        types: Seq<TypeId>,
    ) -> bool {
        &&& r.spec_name().num() == symbol_for(strings, self.spec_name()@)
        &&& r.spec_ty().num() == symbol_for(types, self.spec_ty().id())
    }

    /// Creates a new named field.
    pub fn new(name: &'static str, ty: MetaType) -> (r: Self)
        ensures
            r.spec_name() == name,
            r.spec_ty() == ty,
    {
        Self { name, ty }
    }

    /// Compacts this field using the given registry: its name, then its
    /// type, are interned.
    pub fn into_compact(self, registry: &mut Registry) -> (r: NamedField<CompactForm>)
        requires
            old(registry).wf(),
            old(registry).string_table().len() < u32::MAX,
            old(registry).type_table().len() < u32::MAX,
        ensures
            final(registry).wf(),
            final(registry).string_table() == intern(old(registry).string_table(), self.spec_name()@),
            final(registry).type_table() == intern(old(registry).type_table(), self.spec_ty().id()),
            self.compacts_to(r, final(registry).string_table(), final(registry).type_table()),
    {
        let name = registry.register_string(self.name);
        let ty = registry.register_type(&self.ty);
        NamedField { name, ty }
    }
}

impl UnnamedField {
    /// `r` is this field with its type replaced by its symbol in the given
    /// table.
    pub open spec fn compacts_to(&self, r: UnnamedField<CompactForm>, types: Seq<TypeId>) -> bool {
        r.spec_ty().num() == symbol_for(types, self.spec_ty().id())
    }

    /// Creates a new unnamed field.
    pub fn new(ty: MetaType) -> (r: Self)
        ensures
            r.spec_ty() == ty,
    {
        Self { ty }
    }

    /// Compacts this field using the given registry: its type is interned.
    pub fn into_compact(self, registry: &mut Registry) -> (r: UnnamedField<CompactForm>)
        requires
            old(registry).wf(),
            old(registry).type_table().len() < u32::MAX,
        ensures
            final(registry).wf(),
            final(registry).string_table() == old(registry).string_table(),
            final(registry).type_table() == intern(old(registry).type_table(), self.spec_ty().id()),
            self.compacts_to(r, final(registry).type_table()),
    {
        UnnamedField { ty: registry.register_type(&self.ty) }
    }
}

/// Each named field of `fields` compacts, in the given tables, to the field
/// at the same place of `r`.
pub open spec fn named_fields_compact_to(
    fields: Seq<NamedField>,
    r: Seq<NamedField<CompactForm>>,
    strings: Seq<Seq<char>>,
    types: Seq<TypeId>,
) -> bool {
    &&& r.len() == fields.len()
    &&& forall|i: int| 0 <= i < fields.len() ==> #[trigger] fields[i].compacts_to(r[i], strings, types)
}

/// Each unnamed field of `fields` compacts, in the given table, to the
/// field at the same place of `r`.
pub open spec fn unnamed_fields_compact_to(
    fields: Seq<UnnamedField>,
    r: Seq<UnnamedField<CompactForm>>,
    types: Seq<TypeId>,
) -> bool {
    &&& r.len() == fields.len()
    &&& forall|i: int| 0 <= i < fields.len() ==> #[trigger] fields[i].compacts_to(r[i], types)
}

/// A compaction of named fields stays valid in tables that extend those it
/// was made in.
pub proof fn lemma_named_fields_stable(
    fields: Seq<NamedField>,
    r: Seq<NamedField<CompactForm>>,
    strings: Seq<Seq<char>>,
    types: Seq<TypeId>,
    strings2: Seq<Seq<char>>,
    types2: Seq<TypeId>,
)
    requires
        named_fields_compact_to(fields, r, strings, types),
        extends(strings2, strings),
        extends(types2, types),
        forall|i: int| 0 <= i < fields.len() ==> strings.contains(#[trigger] field_names(fields)[i]),
        forall|i: int| 0 <= i < fields.len() ==> types.contains(#[trigger] named_field_type_ids(fields)[i]),
    ensures
        named_fields_compact_to(fields, r, strings2, types2),
{
    assert forall|i: int| 0 <= i < fields.len() implies #[trigger] fields[i].compacts_to(r[i], strings2, types2) by {
        assert(fields[i].compacts_to(r[i], strings, types));
        assert(strings.contains(field_names(fields)[i]));
        assert(field_names(fields)[i] == fields[i].spec_name()@);
        assert(types.contains(named_field_type_ids(fields)[i]));
        assert(named_field_type_ids(fields)[i] == fields[i].spec_ty().id());
        lemma_extends_symbol(strings2, strings, fields[i].spec_name()@);
        lemma_extends_symbol(types2, types, fields[i].spec_ty().id());
    }
}

/// A compaction of unnamed fields stays valid in a table that extends the
/// one it was made in.
pub proof fn lemma_unnamed_fields_stable(
    fields: Seq<UnnamedField>,
    r: Seq<UnnamedField<CompactForm>>,
    types: Seq<TypeId>,
    types2: Seq<TypeId>,
)
    requires
        unnamed_fields_compact_to(fields, r, types),
        extends(types2, types),
        forall|i: int| 0 <= i < fields.len() ==> types.contains(#[trigger] unnamed_field_type_ids(fields)[i]),
    ensures
        unnamed_fields_compact_to(fields, r, types2),
{
    assert forall|i: int| 0 <= i < fields.len() implies #[trigger] fields[i].compacts_to(r[i], types2) by {
        assert(fields[i].compacts_to(r[i], types));
        assert(types.contains(unnamed_field_type_ids(fields)[i]));
        assert(unnamed_field_type_ids(fields)[i] == fields[i].spec_ty().id());
        lemma_extends_symbol(types2, types, fields[i].spec_ty().id());
    }
}

/// Compacts the given named fields in order.
pub(crate) fn compact_named_fields(fields: &Vec<NamedField>, registry: &mut Registry) -> (r: Vec<NamedField<CompactForm>>)
    requires
        old(registry).wf(),
        old(registry).string_table().len() + fields@.len() < u32::MAX,
        old(registry).type_table().len() + fields@.len() < u32::MAX,
    ensures
        final(registry).wf(),
        final(registry).string_table() == intern_all(old(registry).string_table(), field_names(fields@)),
        final(registry).type_table() == intern_all(old(registry).type_table(), named_field_type_ids(fields@)),
        named_fields_compact_to(fields@, r@, final(registry).string_table(), final(registry).type_table()),
{
    let ghost s0 = registry.string_table();
    let ghost t0 = registry.type_table();
    let ghost names = field_names(fields@);
    let ghost ids = named_field_type_ids(fields@);
    let mut out: Vec<NamedField<CompactForm>> = Vec::new();
    let n = fields.len();
    let mut i: usize = 0;
    proof {
        assert(names.take(0) =~= Seq::<Seq<char>>::empty());
        assert(ids.take(0) =~= Seq::<TypeId>::empty());
    }
    while i < n
        invariant
            n == fields@.len(),
            names == field_names(fields@),
            ids == named_field_type_ids(fields@),
            i <= n,
            s0.no_duplicates(),
            t0.no_duplicates(),
            s0.len() + n < u32::MAX,
            t0.len() + n < u32::MAX,
            registry.wf(),
            registry.string_table() == intern_all(s0, names.take(i as int)),
            registry.type_table() == intern_all(t0, ids.take(i as int)),
            named_fields_compact_to(fields@.take(i as int), out@, registry.string_table(), registry.type_table()),
        decreases n - i,
    {
        let ghost s1 = registry.string_table();
        let ghost t1 = registry.type_table();
        proof {
            lemma_intern_all(s0, names.take(i as int));
            lemma_intern_all(t0, ids.take(i as int));
        }
        let field = NamedField { name: fields[i].name, ty: fields[i].ty };
        assert(field == fields@[i as int]);
        let c = field.into_compact(registry);
        proof {
            lemma_intern_all_step(s0, names, i as int);
            lemma_intern_all_step(t0, ids, i as int);
            lemma_intern_all_single(s1, names[i as int]);
            lemma_intern_all_single(t1, ids[i as int]);
            lemma_intern_all_extends(s1, seq![names[i as int]]);
            lemma_intern_all_extends(t1, seq![ids[i as int]]);
            assert forall|k: int| 0 <= k < i implies s1.contains(#[trigger] field_names(fields@.take(i as int))[k]) by {
                assert(names.take(i as int)[k] == field_names(fields@.take(i as int))[k]);
            }
            assert forall|k: int| 0 <= k < i implies t1.contains(#[trigger] named_field_type_ids(fields@.take(i as int))[k]) by {
                assert(ids.take(i as int)[k] == named_field_type_ids(fields@.take(i as int))[k]);
            }
            lemma_named_fields_stable(
                fields@.take(i as int),
                out@,
                s1,
                t1,
                registry.string_table(),
                registry.type_table(),
            );
        }
        out.push(c);
        proof {
            assert(fields@.take(i + 1) =~= fields@.take(i as int).push(fields@[i as int]));
        }
        i = i + 1;
    }
    proof {
        assert(names.take(n as int) =~= names);
        assert(ids.take(n as int) =~= ids);
        assert(fields@.take(n as int) =~= fields@);
    }
    out
}

/// Compacts the given unnamed fields in order.
pub(crate) fn compact_unnamed_fields(fields: &Vec<UnnamedField>, registry: &mut Registry) -> (r: Vec<UnnamedField<CompactForm>>)
    requires
        old(registry).wf(),
        old(registry).type_table().len() + fields@.len() < u32::MAX,
    ensures
        final(registry).wf(),
        final(registry).string_table() == old(registry).string_table(),
        final(registry).type_table() == intern_all(old(registry).type_table(), unnamed_field_type_ids(fields@)),
        unnamed_fields_compact_to(fields@, r@, final(registry).type_table()),
{
    let ghost t0 = registry.type_table();
    let ghost ids = unnamed_field_type_ids(fields@);
    let mut out: Vec<UnnamedField<CompactForm>> = Vec::new();
    let n = fields.len();
    let mut i: usize = 0;
    proof {
        assert(ids.take(0) =~= Seq::<TypeId>::empty());
    }
    while i < n
        invariant
            n == fields@.len(),
            ids == unnamed_field_type_ids(fields@),
            i <= n,
            t0.no_duplicates(),
            t0.len() + n < u32::MAX,
            registry.wf(),
            registry.string_table() == old(registry).string_table(),
            registry.type_table() == intern_all(t0, ids.take(i as int)),
            unnamed_fields_compact_to(fields@.take(i as int), out@, registry.type_table()),
        decreases n - i,
    {
        let ghost t1 = registry.type_table();
        proof {
            lemma_intern_all(t0, ids.take(i as int));
        }
        let field = UnnamedField { ty: fields[i].ty };
        assert(field == fields@[i as int]);
        let c = field.into_compact(registry);
        proof {
            lemma_intern_all_step(t0, ids, i as int);
            lemma_intern_all_single(t1, ids[i as int]);
            lemma_intern_all_extends(t1, seq![ids[i as int]]);
            assert forall|k: int| 0 <= k < i implies t1.contains(#[trigger] unnamed_field_type_ids(fields@.take(i as int))[k]) by {
                assert(ids.take(i as int)[k] == unnamed_field_type_ids(fields@.take(i as int))[k]);
            }
            lemma_unnamed_fields_stable(fields@.take(i as int), out@, t1, registry.type_table());
        }
        out.push(c);
        proof {
            assert(fields@.take(i + 1) =~= fields@.take(i as int).push(fields@[i as int]));
        }
        i = i + 1;
    }
    proof {
        assert(ids.take(n as int) =~= ids);
        assert(fields@.take(n as int) =~= fields@);
    }
    out
}

} // verus!
