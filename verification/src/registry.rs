use vstd::prelude::*;

use crate::meta_type::{type_id_eq, MetaType};
use crate::utils::same_text;
use core::any::TypeId;
use core::marker::PhantomData;

verus! {

/// The table that results from interning `x` into `table`: unchanged where
/// `x` is already in it, else with `x` added at its end.
pub open spec fn intern<A>(table: Seq<A>, x: A) -> Seq<A> {
    if table.contains(x) {
        table
    } else {
        table.push(x)
    }
}

/// The table that results from interning the items of `xs` into `table`,
/// one after the other, in order.
pub open spec fn intern_all<A>(table: Seq<A>, xs: Seq<A>) -> Seq<A>
    decreases xs.len(),
{
    if xs.len() == 0 {
        table
    } else {
        intern(intern_all(table, xs.drop_last()), xs.last())
    }
}

/// The texts of a sequence of string slices.
pub open spec fn texts(strs: Seq<&'static str>) -> Seq<Seq<char>> {
    strs.map_values(|s: &'static str| s@)
}

/// The identifiers of a sequence of meta types.
pub open spec fn type_ids(tys: Seq<MetaType>) -> Seq<TypeId> {
    tys.map_values(|t: MetaType| t.id())
}

/// The numbers of a sequence of symbols.
pub open spec fn nums<T>(syms: Seq<UntrackedSymbol<T>>) -> Seq<int> {
    syms.map_values(|s: UntrackedSymbol<T>| s.num())
}

/// The symbol number under which `table` holds `x`: its place, counted from 1.
pub open spec fn symbol_for<A>(table: Seq<A>, x: A) -> int {
    table.index_of(x) + 1
}

/// The symbol numbers under which `table` holds each item of `xs`.
pub open spec fn symbols_for<A>(table: Seq<A>, xs: Seq<A>) -> Seq<int> {
    xs.map_values(|x: A| symbol_for(table, x))
}

/// Where a table without repeated items holds `x`, its place is the one
/// that holds `x`.
pub proof fn lemma_index_of_unique<A>(table: Seq<A>, x: A, i: int)
    requires
        table.no_duplicates(),
        0 <= i < table.len(),
        table[i] == x,
    ensures
        table.index_of(x) == i,
{
    assert(table.contains(x));
    let j = table.index_of(x);
    assert(0 <= j < table.len() && table[j] == x);
}

/// Interning keeps a table free of repeated items, keeps what it held in
/// place, adds at most one item per interned one, and then holds every
/// interned item and nothing else new.
pub proof fn lemma_intern_all<A>(table: Seq<A>, xs: Seq<A>)
    requires
        table.no_duplicates(),
    ensures
        intern_all(table, xs).no_duplicates(),
        table.len() <= intern_all(table, xs).len() <= table.len() + xs.len(),
        forall|i: int| 0 <= i < table.len() ==> #[trigger] intern_all(table, xs)[i] == table[i],
        forall|i: int| 0 <= i < xs.len() ==> intern_all(table, xs).contains(#[trigger] xs[i]),
        forall|y: A| #[trigger] intern_all(table, xs).contains(y) ==> table.contains(y) || xs.contains(y),
    decreases xs.len(),
{
    if xs.len() > 0 {
        let p = xs.drop_last();
        lemma_intern_all(table, p);
        let t = intern_all(table, p);
        let x = xs.last();
        if !t.contains(x) {
            let t2 = t.push(x);
            assert forall|i: int, j: int| 0 <= i < t2.len() && 0 <= j < t2.len() && i != j implies t2[i] != t2[j] by {
                if i < t.len() && j < t.len() {
                } else if i == t.len() {
                    assert(t.contains(t[j]));
                } else {
                    assert(t.contains(t[i]));
                }
            }
            assert(t2[t.len() as int] == x);
        }
        let t2 = intern_all(table, xs);
        assert forall|i: int| 0 <= i < xs.len() implies t2.contains(#[trigger] xs[i]) by {
            if i < xs.len() - 1 {
                assert(xs[i] == p[i]);
                assert(t.contains(p[i]));
                let k = choose|k: int| 0 <= k < t.len() && t[k] == p[i];
                assert(t2[k] == xs[i]);
            } else {
                if t.contains(x) {
                } else {
                    assert(t2[t.len() as int] == x);
                }
            }
        }
        assert forall|y: A| #[trigger] t2.contains(y) implies table.contains(y) || xs.contains(y) by {
            let k = choose|k: int| 0 <= k < t2.len() && t2[k] == y;
            if k < t.len() {
                assert(t.contains(y));
                if p.contains(y) {
                    let m = choose|m: int| 0 <= m < p.len() && p[m] == y;
                    assert(xs[m] == y);
                }
            } else {
                assert(xs[xs.len() - 1] == y);
            }
        }
    }
}

/// Interning two runs of items one after the other is interning their
/// concatenation.
pub proof fn lemma_intern_all_concat<A>(table: Seq<A>, xs: Seq<A>, ys: Seq<A>)
    ensures
        intern_all(table, xs + ys) == intern_all(intern_all(table, xs), ys),
    decreases ys.len(),
{
    if ys.len() == 0 {
        assert(xs + ys =~= xs);
    } else {
        assert((xs + ys).drop_last() =~= xs + ys.drop_last());
        assert((xs + ys).last() == ys.last());
        lemma_intern_all_concat(table, xs, ys.drop_last());
    }
}

/// Interning a single item is interning it.
pub proof fn lemma_intern_all_single<A>(table: Seq<A>, x: A)
    ensures
        intern_all(table, seq![x]) == intern(table, x),
{
    assert(seq![x].drop_last() =~= Seq::<A>::empty());
    assert(intern_all(table, Seq::<A>::empty()) == table);
    assert(seq![x].last() == x);
}

/// Interning one more item extends the interning of those before it.
pub proof fn lemma_intern_all_step<A>(table: Seq<A>, xs: Seq<A>, i: int)
    requires
        0 <= i < xs.len(),
    ensures
        intern_all(table, xs.take(i + 1)) == intern(intern_all(table, xs.take(i)), xs[i]),
{
    assert(xs.take(i + 1).drop_last() =~= xs.take(i));
    assert(xs.take(i + 1).last() == xs[i]);
}

/// A symbol that an interning gave out stays valid in every table that
/// later interning makes of it.
pub proof fn lemma_symbol_stable<A>(table: Seq<A>, xs: Seq<A>, x: A)
    requires
        table.no_duplicates(),
        table.contains(x),
    ensures
        symbol_for(intern_all(table, xs), x) == symbol_for(table, x),
{
    lemma_intern_all(table, xs);
    let i = table.index_of(x);
    lemma_index_of_unique(intern_all(table, xs), x, i);
}

/// Interning one more item leaves the symbols of those already held as
/// they were.
pub proof fn lemma_intern_keeps_symbol<A>(table: Seq<A>, x: A, y: A)
    requires
        table.no_duplicates(),
        table.contains(y),
    ensures
        symbol_for(intern(table, x), y) == symbol_for(table, y),
{
    let i = table.index_of(y);
    if !table.contains(x) {
        lemma_intern_all(table, seq![x]);
        assert(intern_all(table, seq![x]) =~= intern(table, x)) by {
            assert(seq![x].drop_last() =~= Seq::<A>::empty());
        }
        assert(intern(table, x)[i] == y);
        lemma_index_of_unique(intern(table, x), y, i);
    }
}

/// `big` is a table without repeated items that begins with `small`.
pub open spec fn extends<A>(big: Seq<A>, small: Seq<A>) -> bool {
    &&& big.no_duplicates()
    &&& small.len() <= big.len()
    &&& forall|i: int| 0 <= i < small.len() ==> #[trigger] big[i] == small[i]
}

/// Interning into a table without repeated items extends it.
pub proof fn lemma_intern_all_extends<A>(table: Seq<A>, xs: Seq<A>)
    requires
        table.no_duplicates(),
    ensures
        extends(intern_all(table, xs), table),
        forall|i: int| 0 <= i < xs.len() ==> intern_all(table, xs).contains(#[trigger] xs[i]),
{
    lemma_intern_all(table, xs);
}

/// A table that extends another holds all that the other holds, under
/// the same symbols.
pub proof fn lemma_extends_symbol<A>(big: Seq<A>, small: Seq<A>, x: A)
    requires
        extends(big, small),
        small.contains(x),
    ensures
        big.contains(x),
        symbol_for(big, x) == symbol_for(small, x),
{
    let i = choose|i: int| 0 <= i < small.len() && small[i] == x;
    assert(big[i] == x);
    lemma_index_of_unique(big, x, i);
    assert(small.no_duplicates()) by {
        assert forall|a: int, b: int| 0 <= a < small.len() && 0 <= b < small.len() && a != b
            implies small[a] != small[b] by {
            assert(big[a] == small[a] && big[b] == small[b]);
        }
    }
    lemma_index_of_unique(small, x, i);
}

/// Interning items that a table already holds leaves it as it is.
proof fn lemma_intern_all_held<A>(table: Seq<A>, xs: Seq<A>)
    requires
        forall|i: int| 0 <= i < xs.len() ==> table.contains(#[trigger] xs[i]),
    ensures
        intern_all(table, xs) == table,
    decreases xs.len(),
{
    if xs.len() > 0 {
        let p = xs.drop_last();
        assert forall|i: int| 0 <= i < p.len() implies table.contains(#[trigger] p[i]) by {
            assert(p[i] == xs[i]);
        }
        lemma_intern_all_held(table, p);
        assert(table.contains(xs[xs.len() - 1]));
    }
}

/// Compacting is idempotent: interning the same items a second time
/// changes nothing.
pub proof fn lemma_intern_all_idempotent<A>(table: Seq<A>, xs: Seq<A>)
    requires
        table.no_duplicates(),
    ensures
        intern_all(intern_all(table, xs), xs) == intern_all(table, xs),
{
    lemma_intern_all(table, xs);
    lemma_intern_all_held(intern_all(table, xs), xs);
}

/// Compacting is lossless: after interning, the symbol that each interned
/// item gets is a place in the table, counted from 1, and that place holds
/// the item.
pub proof fn lemma_symbols_resolve<A>(table: Seq<A>, xs: Seq<A>)
    requires
        table.no_duplicates(),
    ensures
        forall|i: int| 0 <= i < xs.len() ==> 1 <= #[trigger] symbols_for(intern_all(table, xs), xs)[i]
            <= intern_all(table, xs).len(),
        forall|i: int| 0 <= i < xs.len() ==> intern_all(table, xs)[#[trigger] symbols_for(intern_all(table, xs), xs)[i] - 1]
            == xs[i],
{
    lemma_intern_all(table, xs);
    let t = intern_all(table, xs);
    assert forall|i: int| 0 <= i < xs.len() implies 1 <= #[trigger] symbols_for(t, xs)[i] <= t.len()
        && t[symbols_for(t, xs)[i] - 1] == xs[i] by {
        assert(t.contains(xs[i]));
        let k = choose|k: int| 0 <= k < t.len() && t[k] == xs[i];
        lemma_index_of_unique(t, xs[i], k);
    }
}

/// What a registration hands out resolves to what was registered, and keeps
/// doing so whatever is registered after it: the symbol of `x` in the table
/// made by interning `x` is a place, counted from 1, of every later table,
/// and that place holds `x`.
pub proof fn lemma_register_then_resolve<A>(table: Seq<A>, x: A, later: Seq<A>)
    requires
        table.no_duplicates(),
    ensures
        ({
            let t1 = intern(table, x);
            let t2 = intern_all(t1, later);
            let n = symbol_for(t1, x);
            &&& symbol_for(t2, x) == n
            &&& 1 <= n <= t2.len()
            &&& t2[n - 1] == x
        }),
{
    let t1 = intern(table, x);
    lemma_intern_all_single(table, x);
    lemma_intern_all_extends(table, seq![x]);
    assert(seq![x][0] == x);
    lemma_intern_all_extends(t1, later);
    let t2 = intern_all(t1, later);
    lemma_extends_symbol(t2, t1, x);
    let k = choose|k: int| 0 <= k < t2.len() && t2[k] == x;
    lemma_index_of_unique(t2, x, k);
}

/// Different items that a table holds have different symbols.
pub proof fn lemma_symbols_distinct<A>(table: Seq<A>, x: A, y: A)
    requires
        table.no_duplicates(),
        table.contains(x),
        table.contains(y),
        x != y,
    ensures
        symbol_for(table, x) != symbol_for(table, y),
{
    let i = choose|i: int| 0 <= i < table.len() && table[i] == x;
    let j = choose|j: int| 0 <= j < table.len() && table[j] == y;
    lemma_index_of_unique(table, x, i);
    lemma_index_of_unique(table, y, j);
}

/// An id handed out by a `Registry`: the place, counted from 1, of a string
/// or a type in the registry's tables.
#[derive(PartialEq, Eq, PartialOrd, Ord, Debug)]
pub struct UntrackedSymbol<T> {
    id: u32,
    marker: PhantomData<T>,
}

impl<T> Clone for UntrackedSymbol<T> {
    fn clone(&self) -> (r: Self)
        ensures
            r.num() == self.num(),
    {
        UntrackedSymbol { id: self.id, marker: PhantomData }
    }
}

impl<T> Copy for UntrackedSymbol<T> {}

impl<T> UntrackedSymbol<T> {
    /// The number of the symbol.
    pub closed spec fn num(&self) -> int {
        self.id as int
    }

    /// Returns the number of the symbol.
    pub fn id(&self) -> (r: u32)
        ensures
            r == self.num(),
    {
        self.id
    }
}

/// Interns the strings and types that compacted type information refers
/// to, so that each is stored once and referred to by a symbol.
pub struct Registry {
    strings: Vec<&'static str>,
    types: Vec<TypeId>,
}

impl Registry {
    /// The texts of the interned strings, in the order in which they came.
    pub closed spec fn string_table(&self) -> Seq<Seq<char>> {
        self.strings@.map_values(|s: &'static str| s@)
    }

    /// The interned type identifiers, in the order in which they came.
    pub closed spec fn type_table(&self) -> Seq<TypeId> {
        self.types@
    }

    /// Neither table holds an item twice.
    pub open spec fn wf(&self) -> bool {
        &&& self.string_table().no_duplicates()
        &&& self.type_table().no_duplicates()
    }

    /// Creates an empty registry.
    pub fn new() -> (r: Registry)
        ensures
            r.wf(),
            r.string_table() == Seq::<Seq<char>>::empty(),
            r.type_table() == Seq::<TypeId>::empty(),
    {
        let r = Registry { strings: Vec::new(), types: Vec::new() };
        assert(r.string_table() =~= Seq::<Seq<char>>::empty());
        r
    }

    /// Returns the number of interned strings.
    pub fn num_strings(&self) -> (r: usize)
        ensures
            r == self.string_table().len(),
    {
        self.strings.len()
    }

    /// Returns the number of interned types.
    pub fn num_types(&self) -> (r: usize)
        ensures
            r == self.type_table().len(),
    {
        self.types.len()
    }

    /// Interns the given string and returns its symbol: that of the same
    /// text where it was interned before, else a new one.
    pub fn register_string(&mut self, s: &'static str) -> (r: UntrackedSymbol<&'static str>)
        requires
            old(self).wf(),
            old(self).string_table().len() < u32::MAX,
        ensures
            final(self).wf(),
            final(self).string_table() == intern(old(self).string_table(), s@),
            final(self).type_table() == old(self).type_table(),
            r.num() == symbol_for(final(self).string_table(), s@),
    {
        let n = self.strings.len();
        let mut i: usize = 0;
        while i < n
            invariant
                n == self.strings@.len(),
                self.wf(),
                self.string_table().len() < u32::MAX,
                i <= n,
                forall|k: int| 0 <= k < i ==> self.string_table()[k] != s@,
            decreases n - i,
        {
            if same_text(self.strings[i], s) {
                proof {
                    assert(self.string_table()[i as int] == s@);
                    assert(self.string_table().contains(s@));
                    lemma_index_of_unique(self.string_table(), s@, i as int);
                }
                return UntrackedSymbol { id: (i + 1) as u32, marker: PhantomData };
            }
            i = i + 1;
        }
        let ghost before = self.string_table();
        self.strings.push(s);
        proof {
            assert(!before.contains(s@));
            assert(self.string_table() =~= before.push(s@));
            lemma_intern_all(before, seq![s@]);
            assert(intern_all(before, seq![s@]) =~= intern(before, s@)) by {
                assert(seq![s@].drop_last() =~= Seq::<Seq<char>>::empty());
            }
            lemma_index_of_unique(self.string_table(), s@, n as int);
        }
        UntrackedSymbol { id: (n + 1) as u32, marker: PhantomData }
    }

    /// Interns the identifier of the given type and returns its symbol:
    /// that of the same type where it was interned before, else a new one.
    pub fn register_type(&mut self, ty: &MetaType) -> (r: UntrackedSymbol<TypeId>)
        requires
            old(self).wf(),
            old(self).type_table().len() < u32::MAX,
        ensures
            final(self).wf(),
            final(self).type_table() == intern(old(self).type_table(), ty.id()),
            final(self).string_table() == old(self).string_table(),
            r.num() == symbol_for(final(self).type_table(), ty.id()),
    {
        let id = ty.type_id();
        let n = self.types.len();
        let mut i: usize = 0;
        while i < n
            invariant
                n == self.types@.len(),
                self.wf(),
                self.type_table().len() < u32::MAX,
                i <= n,
                id == ty.id(),
                forall|k: int| 0 <= k < i ==> self.type_table()[k] != id,
            decreases n - i,
        {
            if type_id_eq(&self.types[i], &id) {
                proof {
                    assert(self.type_table().contains(id));
                    lemma_index_of_unique(self.type_table(), id, i as int);
                }
                return UntrackedSymbol { id: (i + 1) as u32, marker: PhantomData };
            }
            i = i + 1;
        }
        let ghost before = self.type_table();
        let ghost strings_before = self.string_table();
        self.types.push(id);
        proof {
            assert(!before.contains(id));
            assert(self.type_table() =~= before.push(id));
            assert(self.string_table() =~= strings_before);
            lemma_intern_all(before, seq![id]);
            assert(intern_all(before, seq![id]) =~= intern(before, id)) by {
                assert(seq![id].drop_last() =~= Seq::<TypeId>::empty());
            }
            lemma_index_of_unique(self.type_table(), id, n as int);
        }
        UntrackedSymbol { id: (n + 1) as u32, marker: PhantomData }
    }

    /// Interns the given strings in order and returns their symbols.
    pub fn register_strings(&mut self, strs: &Vec<&'static str>) -> (r: Vec<UntrackedSymbol<&'static str>>)
        requires
            old(self).wf(),
            old(self).string_table().len() + strs@.len() < u32::MAX,
        ensures
            final(self).wf(),
            final(self).string_table() == intern_all(old(self).string_table(), texts(strs@)),
            final(self).type_table() == old(self).type_table(),
            nums(r@) == symbols_for(final(self).string_table(), texts(strs@)),
    {
        let ghost start = self.string_table();
        let ghost xs = texts(strs@);
        let mut out: Vec<UntrackedSymbol<&'static str>> = Vec::new();
        let n = strs.len();
        let mut i: usize = 0;
        proof {
            assert(xs.take(0) =~= Seq::<Seq<char>>::empty());
        }
        while i < n
            invariant
                n == strs@.len(),
                xs == texts(strs@),
                i <= n,
                start.no_duplicates(),
                start.len() + n < u32::MAX,
                self.wf(),
                self.string_table() == intern_all(start, xs.take(i as int)),
                self.type_table() == old(self).type_table(),
                out@.len() == i,
                forall|k: int| 0 <= k < i ==> #[trigger] out@[k].num() == symbol_for(self.string_table(), xs[k]),
            decreases n - i,
        {
            let ghost before = self.string_table();
            proof {
                lemma_intern_all(start, xs.take(i as int));
            }
            let sym = self.register_string(strs[i]);
            proof {
                lemma_intern_all_step(start, xs, i as int);
                assert forall|k: int| 0 <= k < i implies before.contains(xs[k]) by {
                    assert(xs.take(i as int)[k] == xs[k]);
                }
                assert forall|k: int| 0 <= k < i implies #[trigger] out@[k].num() == symbol_for(self.string_table(), xs[k]) by {
                    lemma_intern_keeps_symbol(before, xs[i as int], xs[k]);
                }
            }
            out.push(sym);
            i = i + 1;
        }
        proof {
            assert(xs.take(n as int) =~= xs);
            assert(nums(out@) =~= symbols_for(self.string_table(), xs));
        }
        out
    }

    /// Interns the identifiers of the given types in order and returns their
    /// symbols.
    pub fn register_types(&mut self, tys: &Vec<MetaType>) -> (r: Vec<UntrackedSymbol<TypeId>>)
        requires
            old(self).wf(),
            old(self).type_table().len() + tys@.len() < u32::MAX,
        ensures
            final(self).wf(),
            final(self).type_table() == intern_all(old(self).type_table(), type_ids(tys@)),
            final(self).string_table() == old(self).string_table(),
            nums(r@) == symbols_for(final(self).type_table(), type_ids(tys@)),
    {
        let ghost start = self.type_table();
        let ghost xs = type_ids(tys@);
        let mut out: Vec<UntrackedSymbol<TypeId>> = Vec::new();
        let n = tys.len();
        let mut i: usize = 0;
        proof {
            assert(xs.take(0) =~= Seq::<TypeId>::empty());
        }
        while i < n
            invariant
                n == tys@.len(),
                xs == type_ids(tys@),
                i <= n,
                start.no_duplicates(),
                start.len() + n < u32::MAX,
                self.wf(),
                self.type_table() == intern_all(start, xs.take(i as int)),
                self.string_table() == old(self).string_table(),
                out@.len() == i,
                forall|k: int| 0 <= k < i ==> #[trigger] out@[k].num() == symbol_for(self.type_table(), xs[k]),
            decreases n - i,
        {
            let ghost before = self.type_table();
            proof {
                lemma_intern_all(start, xs.take(i as int));
            }
            let sym = self.register_type(&tys[i]);
            proof {
                lemma_intern_all_step(start, xs, i as int);
                assert forall|k: int| 0 <= k < i implies before.contains(xs[k]) by {
                    assert(xs.take(i as int)[k] == xs[k]);
                }
                assert forall|k: int| 0 <= k < i implies #[trigger] out@[k].num() == symbol_for(self.type_table(), xs[k]) by {
                    lemma_intern_keeps_symbol(before, xs[i as int], xs[k]);
                }
            }
            out.push(sym);
            i = i + 1;
        }
        proof {
            assert(xs.take(n as int) =~= xs);
            assert(nums(out@) =~= symbols_for(self.type_table(), xs));
        }
        out
    }

    /// Returns the string that the given symbol stands for, if this registry
    /// handed it out.
    pub fn resolve_string(&self, sym: &UntrackedSymbol<&'static str>) -> (r: Option<&'static str>)
        ensures
            match r {
                Some(s) => 1 <= sym.num() <= self.string_table().len()
                    && s@ == self.string_table()[sym.num() - 1],
                None => !(1 <= sym.num() <= self.string_table().len()),
            },
    {
        let id = sym.id;
        if id >= 1 && (id as usize) <= self.strings.len() {
            Some(self.strings[(id - 1) as usize])
        } else {
            None
        }
    }

    /// Returns the identifier of the type that the given symbol stands
    /// for, if this registry handed it out.
    pub fn resolve_type(&self, sym: &UntrackedSymbol<TypeId>) -> (r: Option<TypeId>)
        ensures
            match r {
                Some(t) => 1 <= sym.num() <= self.type_table().len()
                    && t == self.type_table()[sym.num() - 1],
                None => !(1 <= sym.num() <= self.type_table().len()),
            },
    {
        let id = sym.id;
        if id >= 1 && (id as usize) <= self.types.len() {
            Some(self.types[(id - 1) as usize])
        } else {
            None
        }
    }
}

} // verus!
