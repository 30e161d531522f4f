use vstd::prelude::*;
use vstd::string::*;

use crate::form::{CompactForm, Form, MetaForm};
use crate::meta_type::MetaType;
use crate::registry::{
    intern_all, lemma_intern_all, lemma_intern_all_concat, lemma_intern_all_single,
    lemma_symbol_stable, nums, symbol_for, symbols_for, texts, type_ids, Registry,
};
use core::any::TypeId;
use crate::utils::{is_rust_identifier, spec_is_rust_identifier};

verus! {

/// `segs` with `p` put in front of its first piece.
pub open spec fn prepend_to_first(p: Seq<char>, segs: Seq<Seq<char>>) -> Seq<Seq<char>>
    recommends
        segs.len() > 0,
{
    segs.update(0, p + segs[0])
}

/// The pieces of `s` between the separators `::`, matched from the left,
/// as `str::split` with the pattern `"::"` gives them.
pub open spec fn split_path(s: Seq<char>) -> Seq<Seq<char>>
    decreases s.len(),
{
    if s.len() < 2 {
        seq![s]
    } else if s[0] == ':' && s[1] == ':' {
        seq![Seq::<char>::empty()] + split_path(s.skip(2))
    } else {
        prepend_to_first(seq![s[0]], split_path(s.skip(1)))
    }
}

/// A path is always split into at least one piece.
pub proof fn lemma_split_path_nonempty(s: Seq<char>)
    ensures
        split_path(s).len() >= 1,
    decreases s.len(),
{
    if s.len() >= 2 {
        if s[0] == ':' && s[1] == ':' {
            lemma_split_path_nonempty(s.skip(2));
        } else {
            lemma_split_path_nonempty(s.skip(1));
        }
    }
}

/// Splitting a path that does not start with the separator puts its first
/// character in front of the first piece of the rest.
proof fn lemma_split_path_char(s: Seq<char>)
    requires
        s.len() >= 1,
        !(s.len() >= 2 && s[0] == ':' && s[1] == ':'),
    ensures
        split_path(s) == prepend_to_first(seq![s[0]], split_path(s.skip(1))),
{
    if s.len() == 1 {
        assert(s.skip(1) =~= Seq::<char>::empty());
        assert(split_path(s.skip(1)) == seq![Seq::<char>::empty()]);
        assert(seq![s[0]] + Seq::<char>::empty() =~= s);
        assert(prepend_to_first(seq![s[0]], split_path(s.skip(1))) =~= seq![s]);
    }
}

/// The pieces of `segs` joined by the separator `::`.
pub open spec fn join_path(segs: Seq<Seq<char>>) -> Seq<char>
    decreases segs.len(),
{
    if segs.len() <= 1 {
        if segs.len() == 1 {
            segs[0]
        } else {
            Seq::empty()
        }
    } else {
        segs[0] + seq![':', ':'] + join_path(segs.drop_first())
    }
}

/// Putting a prefix in front of the first piece puts it in front of the
/// joined path.
proof fn lemma_join_prepend(p: Seq<char>, segs: Seq<Seq<char>>)
    requires
        segs.len() >= 1,
    ensures
        join_path(prepend_to_first(p, segs)) == p + join_path(segs),
{
    let q = prepend_to_first(p, segs);
    assert(q.drop_first() =~= segs.drop_first());
    if segs.len() > 1 {
        assert(p + segs[0] + seq![':', ':'] + join_path(segs.drop_first())
            =~= p + (segs[0] + seq![':', ':'] + join_path(segs.drop_first())));
    }
}

/// Splitting a path at each `::` and joining the pieces with `::` again
/// gives back the path.
pub proof fn lemma_split_join(s: Seq<char>)
    ensures
        join_path(split_path(s)) == s,
    decreases s.len(),
{
    if s.len() >= 2 {
        if s[0] == ':' && s[1] == ':' {
            let rest = split_path(s.skip(2));
            lemma_split_join(s.skip(2));
            lemma_split_path_nonempty(s.skip(2));
            let segs = seq![Seq::<char>::empty()] + rest;
            assert(segs.drop_first() =~= rest);
            assert(segs[0] == Seq::<char>::empty());
            assert(Seq::<char>::empty() + seq![':', ':'] + s.skip(2) =~= s);
        } else {
            lemma_split_join(s.skip(1));
            lemma_split_path_nonempty(s.skip(1));
            lemma_join_prepend(seq![s[0]], split_path(s.skip(1)));
            assert(seq![s[0]] + s.skip(1) =~= s);
        }
    }
}

/// `p` holds no separator `::`.
pub open spec fn no_separator(p: Seq<char>) -> bool {
    forall|j: int| #![trigger p[j]] 0 <= j < p.len() - 1 ==> !(p[j] == ':' && p[j + 1] == ':')
}

/// `segs` are the pieces of a path split at every `::` matched from the
/// left: there is at least one piece, no piece holds the separator, and no
/// piece but the last ends with `:` (else the separator after it would have
/// been matched one character earlier).
pub open spec fn separated(segs: Seq<Seq<char>>) -> bool {
    &&& segs.len() >= 1
    &&& forall|i: int| #![trigger segs[i]] 0 <= i < segs.len() ==> no_separator(segs[i])
    &&& forall|i: int| #![trigger segs[i]] 0 <= i < segs.len() - 1 ==>
        !(segs[i].len() > 0 && segs[i].last() == ':')
}

/// A path without a separator is a single piece.
proof fn lemma_split_path_no_separator(s: Seq<char>)
    requires
        no_separator(s),
    ensures
        split_path(s) == seq![s],
    decreases s.len(),
{
    if s.len() >= 2 {
        assert(s[0] == s[0]);
        let t = s.skip(1);
        assert forall|j: int| #![trigger t[j]] 0 <= j < t.len() - 1 implies !(t[j] == ':' && t[j + 1] == ':') by {
            assert(t[j] == s[j + 1] && t[j + 1] == s[j + 2]);
        }
        lemma_split_path_no_separator(t);
        assert(seq![s[0]] + t =~= s);
        assert(prepend_to_first(seq![s[0]], seq![t]) =~= seq![s]);
    }
}

/// The joined path begins with the first piece, followed by the separator
/// where more pieces follow.
proof fn lemma_join_path_first(segs: Seq<Seq<char>>)
    requires
        segs.len() >= 1,
    ensures
        join_path(segs).len() >= segs[0].len(),
        forall|k: int| 0 <= k < segs[0].len() ==> #[trigger] join_path(segs)[k] == segs[0][k],
        segs.len() >= 2 ==> join_path(segs).len() >= segs[0].len() + 2
            && join_path(segs)[segs[0].len() as int] == ':'
            && join_path(segs)[segs[0].len() as int + 1] == ':',
{
}

/// Splitting cuts at every separator, matched from the left: the pieces of
/// a path are separated.
pub proof fn lemma_split_path_separated(s: Seq<char>)
    ensures
        separated(split_path(s)),
    decreases s.len(),
{
    if s.len() < 2 {
        let x = split_path(s);
        assert(x == seq![s]);
        assert forall|i: int| #![trigger x[i]] 0 <= i < x.len() implies no_separator(x[i]) by {
            assert(x[i] == s);
        }
    } else if s[0] == ':' && s[1] == ':' {
        lemma_split_path_separated(s.skip(2));
        let rest = split_path(s.skip(2));
        let x = split_path(s);
        assert(x == seq![Seq::<char>::empty()] + rest);
        assert forall|i: int| #![trigger x[i]] 0 <= i < x.len() implies no_separator(x[i]) by {
            if i > 0 {
                assert(x[i] == rest[i - 1]);
            }
        }
        assert forall|i: int| #![trigger x[i]] 0 <= i < x.len() - 1 implies !(x[i].len() > 0 && x[i].last() == ':') by {
            if i > 0 {
                assert(x[i] == rest[i - 1]);
            }
        }
    } else {
        let t = s.skip(1);
        lemma_split_path_separated(t);
        lemma_split_join(t);
        let rest = split_path(t);
        lemma_join_path_first(rest);
        lemma_split_path_char(s);
        let x = split_path(s);
        let first = seq![s[0]] + rest[0];
        assert(x == rest.update(0, first));
        assert(no_separator(rest[0]));
        assert forall|j: int| #![trigger first[j]] 0 <= j < first.len() - 1 implies !(first[j] == ':' && first[j + 1] == ':') by {
            if j == 0 {
                assert(first[1] == rest[0][0]);
                assert(join_path(rest)[0] == rest[0][0]);
                assert(t[0] == s[1]);
            } else {
                assert(first[j] == rest[0][j - 1] && first[j + 1] == rest[0][j]);
            }
        }
        assert forall|i: int| #![trigger x[i]] 0 <= i < x.len() implies no_separator(x[i]) by {
            if i > 0 {
                assert(x[i] == rest[i]);
            }
        }
        assert forall|i: int| #![trigger x[i]] 0 <= i < x.len() - 1 implies !(x[i].len() > 0 && x[i].last() == ':') by {
            if i > 0 {
                assert(x[i] == rest[i]);
            } else {
                if rest[0].len() > 0 {
                    assert(first.last() == rest[0].last());
                } else {
                    assert(rest.len() >= 2);
                    assert(join_path(rest)[0] == ':');
                    assert(t[0] == s[1]);
                    assert(first.last() == s[0]);
                }
            }
        }
    }
}

/// Splitting is determined by what it is for: a path has exactly one
/// sequence of separated pieces that joined with `::` give it back, and
/// splitting gives that one.
pub proof fn lemma_split_path_unique(s: Seq<char>, segs: Seq<Seq<char>>)
    requires
        separated(segs),
        join_path(segs) == s,
    ensures
        split_path(s) == segs,
    decreases s.len(),
{
    if segs.len() == 1 {
        assert(no_separator(segs[0]));
        lemma_split_path_no_separator(s);
        assert(seq![s] =~= segs);
    } else {
        let p = segs[0];
        let rest = segs.drop_first();
        assert(no_separator(p));
        assert(s == p + seq![':', ':'] + join_path(rest));
        assert(separated(rest)) by {
            assert forall|i: int| #![trigger rest[i]] 0 <= i < rest.len() implies no_separator(rest[i]) by {
                assert(rest[i] == segs[i + 1]);
            }
            assert forall|i: int| #![trigger rest[i]] 0 <= i < rest.len() - 1 implies !(rest[i].len() > 0 && rest[i].last() == ':') by {
                assert(rest[i] == segs[i + 1]);
            }
        }
        if p.len() == 0 {
            assert(s.skip(2) =~= join_path(rest));
            assert(s[0] == ':' && s[1] == ':');
            lemma_split_path_unique(s.skip(2), rest);
            assert(p =~= Seq::<char>::empty());
            assert(seq![Seq::<char>::empty()] + rest =~= segs);
        } else {
            assert(s[0] == p[0]);
            if p.len() >= 2 {
                assert(s[1] == p[1]);
                assert(!(p[0] == ':' && p[1] == ':'));
            } else {
                assert(p.last() == p[0]);
                assert(!(segs[0].len() > 0 && segs[0].last() == ':'));
            }
            lemma_split_path_char(s);
            let q = p.skip(1);
            let segs2 = seq![q] + rest;
            assert(segs2.drop_first() =~= rest);
            assert(segs2[0] == q);
            assert(join_path(segs2) == q + seq![':', ':'] + join_path(rest));
            assert(s.skip(1) =~= join_path(segs2));
            assert(separated(segs2)) by {
                assert forall|j: int| #![trigger q[j]] 0 <= j < q.len() - 1 implies !(q[j] == ':' && q[j + 1] == ':') by {
                    assert(q[j] == p[j + 1] && q[j + 1] == p[j + 2]);
                }
                assert forall|i: int| #![trigger segs2[i]] 0 <= i < segs2.len() implies no_separator(segs2[i]) by {
                    if i > 0 {
                        assert(segs2[i] == rest[i - 1]);
                    }
                }
                assert forall|i: int| #![trigger segs2[i]] 0 <= i < segs2.len() - 1 implies !(segs2[i].len() > 0 && segs2[i].last() == ':') by {
                    if i > 0 {
                        assert(segs2[i] == rest[i - 1]);
                    } else if q.len() > 0 {
                        assert(q.last() == p.last());
                        assert(!(segs[0].len() > 0 && segs[0].last() == ':'));
                    }
                }
            }
            lemma_split_path_unique(s.skip(1), segs2);
            assert(seq![p[0]] + q =~= p);
            assert(prepend_to_first(seq![s[0]], segs2) =~= segs);
        }
    }
}

/// Splits the given path at each `::`, as `str::split` does.
fn split_module_path(path: &'static str) -> (r: Vec<&'static str>)
    ensures
        texts(r@) == split_path(path@),
{
    let n = path.unicode_len();
    let mut acc: Vec<&'static str> = Vec::new();
    let mut start: usize = 0;
    let mut i: usize = 0;
    proof {
        lemma_split_path_nonempty(path@);
        assert(path@.skip(0) =~= path@);
        assert(path@.subrange(0, 0) =~= Seq::<char>::empty());
        assert(prepend_to_first(Seq::<char>::empty(), split_path(path@)) =~= split_path(path@));
        assert(texts(acc@) + split_path(path@) =~= split_path(path@));
    }
    while i < n
        invariant
            n == path@.len(),
            start <= i <= n,
            split_path(path@) == texts(acc@) + prepend_to_first(
                path@.subrange(start as int, i as int),
                split_path(path@.skip(i as int)),
            ),
        decreases n - i,
    {
        let ghost p = path@.subrange(start as int, i as int);
        let ghost rest = path@.skip(i as int);
        proof {
            lemma_split_path_nonempty(rest);
        }
        if i + 1 < n && path.get_char(i) == ':' && path.get_char(i + 1) == ':' {
            let seg = path.substring_char(start, i);
            let ghost before = texts(acc@);
            acc.push(seg);
            proof {
                assert(rest.skip(2) =~= path@.skip(i + 2));
                let tail = split_path(path@.skip(i + 2));
                lemma_split_path_nonempty(path@.skip(i + 2));
                assert(split_path(rest) == seq![Seq::<char>::empty()] + tail);
                assert(prepend_to_first(p, split_path(rest)) =~= seq![p] + tail);
                assert(texts(acc@) =~= before.push(p));
                assert(path@.subrange((i + 2) as int, (i + 2) as int) =~= Seq::<char>::empty());
                assert(prepend_to_first(Seq::<char>::empty(), tail) =~= tail);
                assert(texts(acc@) + tail =~= before + (seq![p] + tail));
            }
            i = i + 2;
            start = i;
        } else {
            proof {
                assert(rest[0] == path@[i as int]);
                if rest.len() >= 2 {
                    assert(rest[1] == path@[i + 1]);
                }
                lemma_split_path_char(rest);
                assert(rest.skip(1) =~= path@.skip(i + 1));
                let tail = split_path(path@.skip(i + 1));
                lemma_split_path_nonempty(path@.skip(i + 1));
                assert(path@.subrange(start as int, i + 1) =~= p + seq![path@[i as int]]);
                let c = path@[i as int];
                assert(p + (seq![c] + tail[0]) =~= (p + seq![c]) + tail[0]);
                assert(prepend_to_first(p, prepend_to_first(seq![path@[i as int]], tail))
                    =~= prepend_to_first(path@.subrange(start as int, i + 1), tail));
            }
            i = i + 1;
        }
    }
    let seg = path.substring_char(start, n);
    let ghost before = texts(acc@);
    acc.push(seg);
    proof {
        assert(path@.skip(n as int) =~= Seq::<char>::empty());
        let p = path@.subrange(start as int, n as int);
        assert(prepend_to_first(p, seq![Seq::<char>::empty()]) =~= seq![p]);
        assert(texts(acc@) =~= before.push(p));
        assert(texts(acc@) =~= before + seq![p]);
    }
    acc
}

/// Represents the namespace of a type definition.
///
/// This consists of several segments that each have to be a valid Rust identifier.
/// The first segment represents the crate name in which the type has been defined.
///
/// Rust prelude type may have an empty namespace definition.
#[derive(PartialEq, Eq, PartialOrd, Ord, Clone, Debug)]
pub struct Namespace<F: Form = MetaForm> {
    /// The segments of the namespace.
    segments: Vec<F::String>,
}

/// An error that may be encountered upon constructing namespaces.
#[derive(PartialEq, Eq, Clone, Copy, Debug, Structural)]
pub enum NamespaceError {
    /// If the module path does not at least have one segment.
    MissingSegments,
    /// If a segment within a module path is not a proper Rust identifier.
    InvalidIdentifier {
        /// The index of the errorneous segment.
        segment: usize,
    },
}

impl<F: Form> Namespace<F> {
    /// The segments of the namespace.
    pub closed spec fn spec_segments(&self) -> Seq<F::String> {
        self.segments@
    }

    /// Returns the segments of the namespace.
    pub fn segments(&self) -> (r: &Vec<F::String>)
        ensures
            r@ == self.spec_segments(),
    {
        &self.segments
    }
}

impl Namespace {
    /// The texts of the segments.
    pub open spec fn segment_texts(&self) -> Seq<Seq<char>> {
        texts(self.spec_segments())
    }
}

impl Namespace<CompactForm> {
    /// The numbers of the symbols that stand for the segments.
    pub open spec fn segment_nums(&self) -> Seq<int> {
        nums(self.spec_segments())
    }
}

/// What constructing a namespace from segments with the texts `segs` gives:
/// the namespace of those segments where there is at least one and each is a
/// proper Rust identifier; `MissingSegments` where there is none; else
/// `InvalidIdentifier` with the place of the first segment that is not.
pub open spec fn namespace_outcome(segs: Seq<Seq<char>>, r: Result<Namespace, NamespaceError>) -> bool {
    match r {
        Ok(ns) => {
            &&& segs.len() > 0
            &&& forall|i: int| 0 <= i < segs.len() ==> spec_is_rust_identifier(#[trigger] segs[i])
            &&& ns.segment_texts() == segs
        },
        Err(NamespaceError::MissingSegments) => segs.len() == 0,
        Err(NamespaceError::InvalidIdentifier { segment }) => {
            &&& segment < segs.len()
            &&& !spec_is_rust_identifier(segs[segment as int])
            &&& forall|j: int| 0 <= j < segment ==> spec_is_rust_identifier(#[trigger] segs[j])
        },
    }
}

impl Namespace {
    /// Creates a new namespace from the given segments.
    pub fn new(segments: Vec<&'static str>) -> (r: Result<Self, NamespaceError>)
        ensures
            namespace_outcome(texts(segments@), r),
            r matches Ok(ns) ==> ns.spec_segments() == segments@,
    {
        if segments.len() == 0 {
            return Err(NamespaceError::MissingSegments);
        }
        let n = segments.len();
        let mut i: usize = 0;
        while i < n
            invariant
                n == segments@.len(),
                i <= n,
                forall|j: int| 0 <= j < i ==> spec_is_rust_identifier(#[trigger] texts(segments@)[j]),
            decreases n - i,
        {
            if !is_rust_identifier(segments[i]) {
                return Err(NamespaceError::InvalidIdentifier { segment: i });
            }
            i = i + 1;
        }
        Ok(Self { segments })
    }

    /// Creates a new namespace from the given module path.
    ///
    /// # Note
    ///
    /// Module path is generally obtained from the `module_path!` Rust macro.
    pub fn from_module_path(path: &'static str) -> (r: Result<Self, NamespaceError>)
        ensures
            namespace_outcome(split_path(path@), r),
    {
        Self::new(split_module_path(path))
    }

    /// Creates the prelude namespace.
    pub fn prelude() -> (r: Self)
        ensures
            r.spec_segments() == Seq::<&'static str>::empty(),
    {
        Self { segments: Vec::new() }
    }

    /// Compacts this namespace using the given registry.
    pub fn into_compact(self, registry: &mut Registry) -> (r: Namespace<CompactForm>)
        requires
            old(registry).wf(),
            old(registry).string_table().len() + self.spec_segments().len() < u32::MAX,
        ensures
            final(registry).wf(),
            final(registry).string_table() == intern_all(old(registry).string_table(), self.segment_texts()),
            final(registry).type_table() == old(registry).type_table(),
            r.segment_nums() == symbols_for(final(registry).string_table(), self.segment_texts()),
    {
        Namespace { segments: registry.register_strings(&self.segments) }
    }
}

/// A type identifier for custom type definitions.
#[derive(PartialEq, Eq, PartialOrd, Ord, Clone, Debug)]
pub struct TypePath<F: Form = MetaForm> {
    /// The name of the custom type.
    name: F::String,
    /// The namespace in which the custom type has been defined.
    ///
    /// # Note
    ///
    /// For Rust prelude types the root (empty) namespace is used.
    namespace: Namespace<F>,
    /// The generic type parameters of the custom type in use.
    type_params: Vec<F::Type>,
}

impl<F: Form> TypePath<F> {
    /// The name of the custom type.
    pub closed spec fn spec_name(&self) -> F::String {
        self.name
    }

    /// The namespace of the custom type.
    pub closed spec fn spec_namespace(&self) -> Namespace<F> {
        self.namespace
    }

    /// The generic type parameters of the custom type.
    pub closed spec fn spec_type_params(&self) -> Seq<F::Type> {
        self.type_params@
    }

    /// Returns the name of the custom type.
    pub fn name(&self) -> (r: &F::String)
        ensures
            *r == self.spec_name(),
    {
        &self.name
    }

    /// Returns the namespace of the custom type.
    pub fn namespace(&self) -> (r: &Namespace<F>)
        ensures
            *r == self.spec_namespace(),
    {
        &self.namespace
    }

    /// Returns the generic type parameters of the custom type.
    pub fn type_params(&self) -> (r: &Vec<F::Type>)
        ensures
            r@ == self.spec_type_params(),
    {
        &self.type_params
    }
}

impl TypePath {
    /// The texts that compacting this path interns, in order: the name,
    /// then the segments of the namespace.
    pub open spec fn string_texts(&self) -> Seq<Seq<char>> {
        seq![self.spec_name()@] + self.spec_namespace().segment_texts()
    }

    /// The type identifiers that compacting this path interns, in order.
    pub open spec fn type_id_seq(&self) -> Seq<TypeId> {
        type_ids(self.spec_type_params())
    }

    /// Creates a new type identifier to refer to a custom type definition.
    pub fn new(name: &'static str, namespace: Namespace, type_params: Vec<MetaType>) -> (r: Self)
        ensures
            r.spec_name() == name,
            r.spec_namespace() == namespace,
            r.spec_type_params() == type_params@,
    {
        Self { name, namespace, type_params }
    }

    /// Compacts this type path using the given registry: the name, the
    /// segments of the namespace and the type parameters are interned, in
    /// this order, and stand in the result as their symbols.
    pub fn into_compact(self, registry: &mut Registry) -> (r: TypePath<CompactForm>)
        requires
            old(registry).wf(),
            old(registry).string_table().len() + self.string_texts().len() < u32::MAX,
            old(registry).type_table().len() + self.type_id_seq().len() < u32::MAX,
        ensures
            final(registry).wf(),
            final(registry).string_table() == intern_all(old(registry).string_table(), self.string_texts()),
            final(registry).type_table() == intern_all(old(registry).type_table(), self.type_id_seq()),
            r.spec_name().num() == symbol_for(final(registry).string_table(), self.spec_name()@),
            r.spec_namespace().segment_nums() == symbols_for(
                final(registry).string_table(),
                self.spec_namespace().segment_texts(),
            ),
            nums(r.spec_type_params()) == symbols_for(final(registry).type_table(), self.type_id_seq()),
    {
        let ghost strings0 = registry.string_table();
        let name = registry.register_string(self.name);
        let ghost strings1 = registry.string_table();
        let namespace = self.namespace.into_compact(registry);
        let type_params = registry.register_types(&self.type_params);
        proof {
            let ns = self.spec_namespace().segment_texts();
            lemma_intern_all_single(strings0, self.spec_name()@);
            lemma_intern_all_concat(strings0, seq![self.spec_name()@], ns);
            assert(seq![self.spec_name()@] + ns == self.string_texts());
            lemma_intern_all(strings0, seq![self.spec_name()@]);
            assert(seq![self.spec_name()@][0] == self.spec_name()@);
            lemma_symbol_stable(strings1, ns, self.spec_name()@);
        }
        TypePath { name, namespace, type_params }
    }
}

/// A namespace made from a module path holds the pieces of the path
/// between its separators: joined with `::` again, its segments give back
/// the path.
pub proof fn lemma_from_module_path_rejoins(path: Seq<char>, r: Result<Namespace, NamespaceError>)
    requires
        namespace_outcome(split_path(path), r),
        r is Ok,
    ensures
        join_path(r->Ok_0.segment_texts()) == path,
{
    lemma_split_join(path);
}

/// A module path gives the namespace of its pieces exactly where it is
/// made of separated pieces that are all Rust identifiers: for every way of
/// writing the path as such pieces joined by `::`, the namespace is `Ok` and
/// holds those pieces; and every namespace it gives is such a way.
pub proof fn lemma_from_module_path_pieces(
    path: Seq<char>,
    segs: Seq<Seq<char>>,
    r: Result<Namespace, NamespaceError>,
)
    requires
        namespace_outcome(split_path(path), r),
    ensures
        separated(segs) && join_path(segs) == path
            && (forall|i: int| 0 <= i < segs.len() ==> spec_is_rust_identifier(#[trigger] segs[i]))
            ==> r is Ok && r->Ok_0.segment_texts() == segs,
        r is Ok ==> separated(r->Ok_0.segment_texts()) && join_path(r->Ok_0.segment_texts()) == path,
{
    lemma_split_path_separated(path);
    lemma_split_join(path);
    if separated(segs) && join_path(segs) == path {
        lemma_split_path_unique(path, segs);
    }
}

} // verus!
