//! A name-keyed registry that keeps entries in the order of first registration.
use dashmap::DashMap;
use vstd::prelude::*;
use vstd::string::*;

verus! {

/// The first index below `n` at which `pred` holds, if any.
pub open spec fn first_where(n: int, pred: spec_fn(int) -> bool) -> Option<int>
    decreases n,
{
    if n <= 0 {
        None
    } else {
        match first_where(n - 1, pred) {
            Some(k) => Some(k),
            None => if pred(n - 1) { Some(n - 1) } else { None },
        }
    }
}

pub proof fn lemma_first_where(n: int, pred: spec_fn(int) -> bool)
    requires
        n >= 0,
    ensures
        first_where(n, pred) is None <==> (forall|j: int| 0 <= j < n ==> !#[trigger] pred(j)),
        forall|i: int|
            first_where(n, pred) == Some(i) <==> (0 <= i < n && pred(i) && forall|j: int|
                0 <= j < i ==> !#[trigger] pred(j)),
    decreases n,
{
    if n > 0 {
        lemma_first_where(n - 1, pred);
        if first_where(n - 1, pred) is None && !pred(n - 1) {
            assert forall|j: int| 0 <= j < n implies !#[trigger] pred(j) by {
                if j < n - 1 {
                }
            }
        }
        assert forall|i: int|
            first_where(n, pred) == Some(i) <==> (0 <= i < n && pred(i) && forall|j: int|
                0 <= j < i ==> !#[trigger] pred(j)) by {
            if 0 <= i < n && pred(i) && (forall|j: int| 0 <= j < i ==> !#[trigger] pred(j)) {
                if i < n - 1 {
                    assert(first_where(n - 1, pred) == Some(i));
                } else {
                    assert(first_where(n - 1, pred) is None);
                }
            }
        }
    }
}

#[verifier::external_type_specification]
#[verifier::external_body]
#[verifier::reject_recursive_types(K)]
#[verifier::reject_recursive_types(V)]
#[verifier::reject_recursive_types(S)]
pub struct ExDashMap<K, V, S>(DashMap<K, V, S>);

/// A concurrent map from names to positions.
pub type NameIndex = DashMap<String, usize>;

/// What a name index holds: each key's text and the position stored under it.
pub uninterp spec fn index_entries(m: NameIndex) -> Map<Seq<char>, usize>;

/// Relies on `DashMap::new`: a new map holds no entry.
#[verifier::external_body]
fn index_new() -> (r: NameIndex)
    ensures
        index_entries(r).dom() == Set::<Seq<char>>::empty(),
{
    DashMap::new()
}

/// Relies on `DashMap::insert`: afterwards the key maps to the value, and
/// every other key keeps its entry.
#[verifier::external_body]
fn index_insert(m: &mut NameIndex, key: String, value: usize)
    ensures
        index_entries(*final(m)) == index_entries(*old(m)).insert(key@, value),
{
    m.insert(key, value);
}

/// Relies on `DashMap::get`: the value stored under a key equal to `key`, if any.
#[verifier::external_body]
fn index_get(m: &NameIndex, key: &str) -> (r: Option<usize>)
    ensures
        match r {
            Some(v) => index_entries(*m).contains_key(key@) && index_entries(*m)[key@] == v,
            None => !index_entries(*m).contains_key(key@),
        },
{
    m.get(key).map(|entry| *entry.value())
}

pub open spec fn name_views(v: Seq<String>) -> Seq<Seq<char>> {
    v.map_values(|s: String| s@)
}

pub open spec fn distinct_names(names: Seq<Seq<char>>) -> bool {
    forall|i: int, j: int|
        0 <= i < names.len() && 0 <= j < names.len() && i != j ==> names[i] != names[j]
}

/// The position of `name` among `names`.
pub open spec fn name_index(names: Seq<Seq<char>>, name: Seq<char>) -> Option<int> {
    first_where(names.len() as int, |i: int| names[i] == name)
}

/// The names after registering `name`: unchanged when it is there already.
pub open spec fn names_after(names: Seq<Seq<char>>, name: Seq<char>) -> Seq<Seq<char>> {
    match name_index(names, name) {
        Some(_) => names,
        None => names.push(name),
    }
}

/// The entries after registering `item` under `name`: it takes the place of
/// the entry of that name, or comes last.
pub open spec fn items_after<T>(names: Seq<Seq<char>>, items: Seq<T>, name: Seq<char>, item: T) -> Seq<T> {
    match name_index(names, name) {
        Some(k) => items.update(k, item),
        None => items.push(item),
    }
}

/// The registry that results from registering the named entries one by one.
pub open spec fn registered<T>(names: Seq<Seq<char>>, items: Seq<T>) -> (Seq<Seq<char>>, Seq<T>) {
    registered_onto(Seq::<Seq<char>>::empty(), Seq::<T>::empty(), names, items)
}

/// The registry that results from registering the named entries one by one
/// into a registry that holds `base_names` and `base_items`.
pub open spec fn registered_onto<T>(base_names: Seq<Seq<char>>, base_items: Seq<T>, names: Seq<Seq<char>>, items: Seq<T>) -> (Seq<Seq<char>>, Seq<T>)
    decreases names.len(),
{
    if names.len() == 0 {
        (base_names, base_items)
    } else {
        let p = registered_onto(base_names, base_items, names.drop_last(), items.drop_last());
        (names_after(p.0, names.last()), items_after(p.0, p.1, names.last(), items.last()))
    }
}

/// Registering entries under distinct names keeps them all, in order.
pub proof fn lemma_registered_distinct<T>(names: Seq<Seq<char>>, items: Seq<T>)
    requires
        names.len() == items.len(),
        distinct_names(names),
    ensures
        registered(names, items) == (names, items),
    decreases names.len(),
{
    if names.len() > 0 {
        let prev = names.drop_last();
        assert(distinct_names(prev));
        lemma_registered_distinct(prev, items.drop_last());
        let pred = |i: int| prev[i] == names.last();
        lemma_first_where(prev.len() as int, pred);
        assert forall|j: int| 0 <= j < prev.len() implies !#[trigger] pred(j) by {
            assert(names[j] != names[names.len() - 1]);
        }
        assert(prev.push(names.last()) =~= names);
        assert(items.drop_last().push(items.last()) =~= items);
    }
}

/// Entries kept by name, in the order of their first registration; a second
/// registration under a name replaces the entry in place. A name index finds
/// an entry's position.
pub struct Registry<T> {
    index: NameIndex,
    names: Vec<String>,
    items: Vec<T>,
}

impl<T> Registry<T> {
    #[verifier::type_invariant]
    spec fn keyed_by_name(&self) -> bool {
        let names = name_views(self.names@);
        let entries = index_entries(self.index);
        &&& self.names@.len() == self.items@.len()
        &&& distinct_names(names)
        &&& forall|i: int|
            0 <= i < names.len() ==> #[trigger] entries.contains_key(names[i]) && entries[names[i]]
                == i
        &&& forall|k: Seq<char>|
            #[trigger] entries.contains_key(k) ==> entries[k] < names.len() && names[entries[k] as int]
                == k
    }

    /// The names of the entries, in order.
    pub closed spec fn names(&self) -> Seq<Seq<char>> {
        name_views(self.names@)
    }

    /// The entries, in order.
    pub closed spec fn items(&self) -> Seq<T> {
        self.items@
    }

    /// An empty registry.
    pub fn new() -> (r: Self)
        ensures
            r.names() == Seq::<Seq<char>>::empty(),
            r.items() == Seq::<T>::empty(),
    {
        let index = index_new();
        let names: Vec<String> = Vec::new();
        assert(name_views(names@) =~= Seq::<Seq<char>>::empty());
        assert forall|k: Seq<char>| !index_entries(index).contains_key(k) by {
            assert(!index_entries(index).dom().contains(k));
        }
        Registry { index, names, items: Vec::new() }
    }

    /// The number of entries; there is one name per entry.
    pub fn len(&self) -> (r: usize)
        ensures
            r == self.items().len(),
            r == self.names().len(),
    {
        proof {
            use_type_invariant(self);
        }
        self.items.len()
    }

    /// The entry at position `k`.
    pub fn get(&self, k: usize) -> (r: &T)
        requires
            k < self.items().len(),
        ensures
            *r == self.items()[k as int],
    {
        &self.items[k]
    }

    /// The position of the entry registered under `name`.
    pub fn find(&self, name: &str) -> (r: Option<usize>)
        ensures
            match r {
                Some(k) => name_index(self.names(), name@) == Some(k as int) && k < self.items().len(),
                None => name_index(self.names(), name@) is None,
            },
    {
        proof {
            use_type_invariant(self);
        }
        let ghost names = self.names();
        let ghost pred = |i: int| names[i] == name@;
        proof {
            lemma_first_where(names.len() as int, pred);
        }
        let r = index_get(&self.index, name);
        proof {
            match r {
                Some(v) => {
                    assert(pred(v as int));
                    assert forall|j: int| 0 <= j < v implies !#[trigger] pred(j) by {
                        assert(names[j] != names[v as int]);
                    }
                },
                None => {
                    assert forall|j: int| 0 <= j < names.len() implies !#[trigger] pred(j) by {
                        assert(index_entries(self.index).contains_key(names[j]));
                    }
                },
            }
        }
        r
    }

    /// Register `item` under `name`, replacing an entry of that name in place.
    pub fn register(&mut self, name: &str, item: T)
        ensures
            final(self).names() == names_after(old(self).names(), name@),
            final(self).items() == items_after(old(self).names(), old(self).items(), name@, item),
    {
        let ghost pred = |i: int| old(self).names()[i] == name@;
        proof {
            lemma_first_where(old(self).names().len() as int, pred);
        }
        let found = self.find(name);
        let mut taken = Registry::new();
        core::mem::swap(self, &mut taken);
        proof {
            use_type_invariant(&taken);
        }
        let Registry { mut index, mut names, mut items } = taken;
        match found {
            Some(k) => {
                items.set(k, item);
            },
            None => {
                let ghost before = names@;
                let ghost old_entries = index_entries(index);
                let position = names.len();
                index_insert(&mut index, String::from_str(name), position);
                names.push(String::from_str(name));
                items.push(item);
                let ghost nv = name_views(names@);
                let ghost entries = index_entries(index);
                assert(nv =~= name_views(before).push(name@));
                assert forall|a: int, b: int| 0 <= a < nv.len() && 0 <= b < nv.len() && a != b
                    implies nv[a] != nv[b] by {
                    if a == nv.len() - 1 {
                        assert(!pred(b));
                    } else if b == nv.len() - 1 {
                        assert(!pred(a));
                    }
                }
                assert forall|i: int| 0 <= i < nv.len() implies #[trigger] entries.contains_key(nv[i])
                    && entries[nv[i]] == i by {
                    if i < nv.len() - 1 {
                        assert(!pred(i));
                        assert(old_entries.contains_key(nv[i]));
                    }
                }
                assert forall|k: Seq<char>| #[trigger] entries.contains_key(k) implies entries[k]
                    < nv.len() && nv[entries[k] as int] == k by {
                    if k != name@ {
                        assert(old_entries.contains_key(k));
                    }
                }
            },
        }
        *self = Registry { index, names, items };
    }

    /// Register the named entries one by one, in order.
    pub fn register_all(&mut self, names: Vec<String>, items: Vec<T>)
        requires
            names@.len() == items@.len(),
        ensures
            (final(self).names(), final(self).items()) == registered_onto(
                old(self).names(),
                old(self).items(),
                name_views(names@),
                items@,
            ),
    {
        let ghost all_names = name_views(names@);
        let ghost all_items = items@;
        let total = names.len();
        let mut names = names;
        let mut items = items;
        let mut i: usize = 0;
        proof {
            use_type_invariant(&*self);
        }
        assert(all_names.subrange(0, 0) =~= Seq::<Seq<char>>::empty());
        assert(all_items.subrange(0, 0) =~= Seq::<T>::empty());
        assert(names@.subrange(0, names@.len() as int) =~= names@);
        while names.len() > 0
            invariant
                names@.len() == items@.len(),
                all_names.len() == all_items.len(),
                total == all_names.len(),
                i + names@.len() == all_names.len(),
                name_views(names@) == all_names.subrange(i as int, all_names.len() as int),
                items@ == all_items.subrange(i as int, all_items.len() as int),
                (self.names(), self.items()) == registered_onto(
                    old(self).names(),
                    old(self).items(),
                    all_names.subrange(0, i as int),
                    all_items.subrange(0, i as int),
                ),
            decreases names@.len(),
        {
            let ghost nb = names@;
            let ghost ib = items@;
            assert(name_views(nb)[0] == all_names[i as int]);
            assert(name_views(nb)[0] == nb[0]@);
            let name = names.remove(0);
            let item = items.remove(0);
            assert(name_views(names@) =~= name_views(nb).skip(1));
            assert(items@ =~= ib.skip(1));
            assert(name@ == all_names[i as int]);
            assert(item == all_items[i as int]);
            self.register(name.as_str(), item);
            i = i + 1;
            assert(all_names.subrange(0, i as int).drop_last() =~= all_names.subrange(0, i - 1));
            assert(all_items.subrange(0, i as int).drop_last() =~= all_items.subrange(0, i - 1));
            assert(name_views(names@) =~= all_names.subrange(i as int, all_names.len() as int));
            assert(items@ =~= all_items.subrange(i as int, all_items.len() as int));
        }
        assert(all_names.subrange(0, i as int) =~= all_names);
        assert(all_items.subrange(0, i as int) =~= all_items);
    }
}

} // verus!
