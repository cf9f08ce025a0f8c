//! In-memory registries of themes, TUIs and plugins, keyed by id.
//!
//! A registry maps each id to one entry; nothing occurs twice. Entries are found by id,
//! or else by display name, and are removed by id or by display name.
use vstd::prelude::*;

use crate::paths::opt_view as str_opt_view;
use crate::text::{first_index, first_some, first_some_index, lemma_first_index, lemma_first_index_unique, str_eq};

verus! {

/// What a registry needs of its entries: a display name and a way to copy them.
pub trait RegistryEntry: Sized + View {
    /// The display name of an entry, read from its view.
    spec fn name_of(v: Self::V) -> Seq<char>;

    /// The display name of this entry.
    fn display_name(&self) -> (r: &str)
        ensures
            r@ == Self::name_of(self@),
    ;

    /// A copy of this entry.
    fn duplicate(&self) -> (r: Self)
        ensures
            r@ == self@,
    ;

    /// A descriptor-file section describing an entry, as parsed.
    type Desc;

    /// The entry that a section registers, with `~` in paths expanded against `home`.
    spec fn desc_view(d: Self::Desc, home: Option<Seq<char>>) -> Self::V;

    /// The entry that a section registers, with `~` in paths expanded against `home`.
    fn from_desc(d: &Self::Desc, home: Option<&str>) -> (r: Self)
        ensures
            r@ == Self::desc_view(*d, str_opt_view(home)),
    ;
}

/// The registry after registering each `(id, section)` of a descriptor in turn.
pub open spec fn load_desc_spec<E: RegistryEntry>(
    s: Seq<(Seq<char>, E::V)>,
    ds: Seq<(String, E::Desc)>,
    home: Option<Seq<char>>,
) -> Seq<(Seq<char>, E::V)>
    decreases ds.len(),
{
    if ds.len() == 0 {
        s
    } else {
        insert_spec(
            load_desc_spec::<E>(s, ds.drop_last(), home),
            ds.last().0@,
            E::desc_view(ds.last().1, home),
        )
    }
}

/// The view of a list of `(id, entry)` pairs.
pub open spec fn pairs_view<E: View>(v: Seq<(String, E)>) -> Seq<(Seq<char>, E::V)> {
    v.map_values(|p: (String, E)| (p.0@, p.1@))
}

/// The view of an optional entry.
pub open spec fn opt_view<E: View>(o: Option<E>) -> Option<E::V> {
    match o {
        Some(e) => Some(e@),
        None => None,
    }
}

/// No id occurs twice.
pub open spec fn distinct_ids<V>(s: Seq<(Seq<char>, V)>) -> bool {
    forall|i: int, j: int|
        0 <= i < s.len() && 0 <= j < s.len() && i != j ==> #[trigger] s[i].0 != #[trigger] s[j].0
}

/// Whether a pair is registered under `id`.
pub open spec fn has_id<V>(id: Seq<char>) -> spec_fn((Seq<char>, V)) -> bool {
    |p: (Seq<char>, V)| p.0 == id
}

/// Whether a pair's entry has display name `name`.
pub open spec fn has_name<E: RegistryEntry>(name: Seq<char>) -> spec_fn((Seq<char>, E::V)) -> bool {
    |p: (Seq<char>, E::V)| E::name_of(p.1) == name
}

/// Whether a pair survives the removal of `name` (neither its id nor its display name).
pub open spec fn survives<E: RegistryEntry>(name: Seq<char>) -> spec_fn((Seq<char>, E::V)) -> bool {
    |p: (Seq<char>, E::V)| p.0 != name && E::name_of(p.1) != name
}

/// Position of `id`, or the length when it is not registered.
pub open spec fn id_pos<V>(s: Seq<(Seq<char>, V)>, id: Seq<char>) -> int {
    first_index(s, has_id(id))
}

/// The entry registered under `id`.
pub open spec fn id_lookup<V>(s: Seq<(Seq<char>, V)>, id: Seq<char>) -> Option<V> {
    if id_pos(s, id) < s.len() {
        Some(s[id_pos(s, id)].1)
    } else {
        None
    }
}

/// Registering `v` under `id`: it replaces the entry already there, or is added last.
pub open spec fn insert_spec<V>(s: Seq<(Seq<char>, V)>, id: Seq<char>, v: V) -> Seq<(Seq<char>, V)> {
    if id_pos(s, id) < s.len() {
        s.update(id_pos(s, id), (id, v))
    } else {
        s.push((id, v))
    }
}

/// Removing `name`: every pair whose id or display name is `name` goes.
pub open spec fn remove_spec<E: RegistryEntry>(s: Seq<(Seq<char>, E::V)>, name: Seq<char>) -> Seq<
    (Seq<char>, E::V),
> {
    s.filter(survives::<E>(name))
}

/// Looking `name` up: the entry with that id; else the first with that display name.
pub open spec fn lookup_spec<E: RegistryEntry>(s: Seq<(Seq<char>, E::V)>, name: Seq<char>) -> Option<
    E::V,
> {
    if id_pos(s, name) < s.len() {
        Some(s[id_pos(s, name)].1)
    } else if first_index(s, has_name::<E>(name)) < s.len() {
        Some(s[first_index(s, has_name::<E>(name))].1)
    } else {
        None
    }
}

/// The entries, in registration order.
pub open spec fn entries_of<V>(s: Seq<(Seq<char>, V)>) -> Seq<V> {
    s.map_values(|p: (Seq<char>, V)| p.1)
}

/// Registering keeps ids distinct.
pub proof fn lemma_insert_distinct<V>(s: Seq<(Seq<char>, V)>, id: Seq<char>, v: V)
    requires
        distinct_ids(s),
    ensures
        distinct_ids(insert_spec(s, id, v)),
{
    lemma_first_index(s, has_id::<V>(id));
    let k = id_pos(s, id);
    let t = insert_spec(s, id, v);
    if k < s.len() {
        assert forall|i: int, j: int|
            0 <= i < t.len() && 0 <= j < t.len() && i != j implies #[trigger] t[i].0
            != #[trigger] t[j].0 by {
            if i != k && j != k {
                assert(t[i] == s[i] && t[j] == s[j]);
            } else if i == k {
                assert(s[k].0 == id);
                assert(t[j] == s[j]);
            } else {
                assert(s[k].0 == id);
                assert(t[i] == s[i]);
            }
        }
    } else {
        assert forall|i: int, j: int|
            0 <= i < t.len() && 0 <= j < t.len() && i != j implies #[trigger] t[i].0
            != #[trigger] t[j].0 by {
            if i < s.len() && j < s.len() {
                assert(t[i] == s[i] && t[j] == s[j]);
            } else if i == s.len() {
                assert(t[j] == s[j]);
                assert(!has_id::<V>(id)(s[j]));
            } else {
                assert(t[i] == s[i]);
                assert(!has_id::<V>(id)(s[i]));
            }
        }
    }
}

/// What a filter keeps comes from the filtered sequence; if ids were distinct,
/// they stay distinct.
pub proof fn lemma_filter_distinct<V>(s: Seq<(Seq<char>, V)>, keep: spec_fn((Seq<char>, V)) -> bool)
    requires
        distinct_ids(s),
    ensures
        distinct_ids(s.filter(keep)),
        forall|k: int|
            0 <= k < s.filter(keep).len() ==> exists|j: int|
                0 <= j < s.len() && s[j] == #[trigger] s.filter(keep)[k],
    decreases s.len(),
{
    reveal(Seq::filter);
    if s.len() > 0 {
        let d = s.drop_last();
        assert(distinct_ids(d)) by {
            assert forall|i: int, j: int|
                0 <= i < d.len() && 0 <= j < d.len() && i != j implies #[trigger] d[i].0
                != #[trigger] d[j].0 by {
                assert(d[i] == s[i] && d[j] == s[j]);
            }
        }
        lemma_filter_distinct(d, keep);
        let fd = d.filter(keep);
        let f = s.filter(keep);
        if keep(s.last()) {
            assert(f == fd.push(s.last()));
            assert forall|k: int| 0 <= k < fd.len() implies #[trigger] fd[k].0 != s.last().0 by {
                let j = choose|j: int| 0 <= j < d.len() && d[j] == #[trigger] fd[k];
                assert(d[j] == s[j]);
                assert(s[j].0 != s[s.len() - 1].0);
            }
            assert forall|i: int, j: int|
                0 <= i < f.len() && 0 <= j < f.len() && i != j implies #[trigger] f[i].0
                != #[trigger] f[j].0 by {
                if i < fd.len() && j < fd.len() {
                    assert(f[i] == fd[i] && f[j] == fd[j]);
                } else if i == fd.len() {
                    assert(f[j] == fd[j]);
                } else {
                    assert(f[i] == fd[i]);
                }
            }
            assert forall|k: int| 0 <= k < f.len() implies exists|j: int|
                0 <= j < s.len() && s[j] == #[trigger] f[k] by {
                if k < fd.len() {
                    let j = choose|j: int| 0 <= j < d.len() && d[j] == #[trigger] fd[k];
                    assert(s[j] == f[k]);
                } else {
                    assert(s[s.len() - 1] == f[k]);
                }
            }
        } else {
            assert(f == fd);
            assert forall|k: int| 0 <= k < f.len() implies exists|j: int|
                0 <= j < s.len() && s[j] == #[trigger] f[k] by {
                let j = choose|j: int| 0 <= j < d.len() && d[j] == #[trigger] fd[k];
                assert(s[j] == f[k]);
            }
        }
    }
}

/// A registry of entries keyed by id, in registration order.
pub struct Registry<E: RegistryEntry> {
    entries: Vec<(String, E)>,
}

impl<E: RegistryEntry> Registry<E> {
    /// The `(id, entry)` pairs, in registration order.
    pub closed spec fn view(&self) -> Seq<(Seq<char>, E::V)> {
        pairs_view(self.entries@)
    }

    /// No id is registered twice.
    #[verifier::type_invariant]
    spec fn ids_are_distinct(&self) -> bool {
        distinct_ids(self@)
    }

    /// An empty registry.
    pub fn new() -> (r: Self)
        ensures
            r@ == Seq::<(Seq<char>, E::V)>::empty(),
    {
        let r = Registry { entries: Vec::new() };
        assert(r@ =~= Seq::<(Seq<char>, E::V)>::empty());
        r
    }

    /// The number of registered entries.
    pub fn len(&self) -> (r: usize)
        ensures
            r == self@.len(),
    {
        self.entries.len()
    }

    /// The entry at position `i`, in registration order.
    pub fn entry(&self, i: usize) -> (r: &E)
        requires
            i < self@.len(),
        ensures
            r@ == self@[i as int].1,
    {
        &self.entries[i].1
    }

    /// Position of `id`, or the length when it is not registered.
    fn position_of(&self, id: &str) -> (r: usize)
        ensures
            r == id_pos(self@, id@),
            r <= self@.len(),
    {
        let mut i: usize = 0;
        while i < self.entries.len()
            invariant
                i <= self@.len(),
                self@.len() == self.entries@.len(),
                forall|j: int| 0 <= j < i ==> (#[trigger] self@[j]).0 != id@,
            decreases self.entries@.len() - i,
        {
            assert(self@[i as int].0 == self.entries@[i as int].0@);
            if str_eq(self.entries[i].0.as_str(), id) {
                proof {
                    lemma_first_index_unique(self@, has_id::<E::V>(id@), i as int);
                }
                return i;
            }
            i = i + 1;
        }
        proof {
            lemma_first_index_unique(self@, has_id::<E::V>(id@), i as int);
        }
        i
    }

    /// Position of the first entry displayed as `name`, or the length when there is none.
    fn position_of_name(&self, name: &str) -> (r: usize)
        ensures
            r == first_index(self@, has_name::<E>(name@)),
            r <= self@.len(),
    {
        let mut i: usize = 0;
        while i < self.entries.len()
            invariant
                i <= self@.len(),
                self@.len() == self.entries@.len(),
                forall|j: int| 0 <= j < i ==> E::name_of((#[trigger] self@[j]).1) != name@,
            decreases self.entries@.len() - i,
        {
            assert(self@[i as int].1 == self.entries@[i as int].1@);
            if str_eq(self.entries[i].1.display_name(), name) {
                proof {
                    lemma_first_index_unique(self@, has_name::<E>(name@), i as int);
                }
                return i;
            }
            i = i + 1;
        }
        proof {
            lemma_first_index_unique(self@, has_name::<E>(name@), i as int);
        }
        i
    }

    /// All registered entries, in registration order.
    pub fn list(&self) -> (r: Vec<E>)
        ensures
            r@.map_values(|e: E| e@) == entries_of(self@),
    {
        let mut r: Vec<E> = Vec::new();
        let mut i: usize = 0;
        while i < self.entries.len()
            invariant
                i <= self@.len(),
                self@.len() == self.entries@.len(),
                r@.len() == i,
                forall|j: int| 0 <= j < i ==> #[trigger] r@[j]@ == self@[j].1,
            decreases self.entries@.len() - i,
        {
            assert(self@[i as int].1 == self.entries@[i as int].1@);
            r.push(self.entries[i].1.duplicate());
            i = i + 1;
        }
        assert(r@.map_values(|e: E| e@) =~= entries_of(self@));
        r
    }

    /// Look up an entry by id, or else by display name.
    pub fn by_name(&self, name: &str) -> (r: Option<E>)
        ensures
            opt_view(r) == lookup_spec::<E>(self@, name@),
    {
        let k = self.position_of(name);
        if k < self.entries.len() {
            assert(self@[k as int].1 == self.entries@[k as int].1@);
            return Some(self.entries[k].1.duplicate());
        }
        let m = self.position_of_name(name);
        if m < self.entries.len() {
            assert(self@[m as int].1 == self.entries@[m as int].1@);
            Some(self.entries[m].1.duplicate())
        } else {
            None
        }
    }

    /// Register `entry` under `id`, replacing any entry already registered there.
    pub fn insert(&mut self, id: &str, entry: E)
        ensures
            final(self)@ == insert_spec(old(self)@, id@, entry@),
            distinct_ids(final(self)@),
    {
        proof {
            use_type_invariant(&*self);
        }
        let k = self.position_of(id);
        let ghost s = self@;
        let mut v: Vec<(String, E)> = Vec::new();
        std::mem::swap(&mut v, &mut self.entries);
        assert(pairs_view(v@) == s);
        if k < v.len() {
            v.set(k, (String::from_str(id), entry));
        } else {
            v.push((String::from_str(id), entry));
        }
        assert(pairs_view(v@) =~= insert_spec(s, id@, entry@));
        proof {
            lemma_insert_distinct(s, id@, entry@);
        }
        self.entries = v;
    }

    /// Register every `(id, section)` of a parsed descriptor, in the order given, with `~`
    /// in paths expanded against `home`.
    pub fn load_desc(&mut self, sections: &Vec<(String, E::Desc)>, home: Option<&str>)
        ensures
            final(self)@ == load_desc_spec::<E>(old(self)@, sections@, str_opt_view(home)),
            distinct_ids(final(self)@),
    {
        proof {
            use_type_invariant(&*self);
        }
        let ghost start = self@;
        let mut i: usize = 0;
        while i < sections.len()
            invariant
                i <= sections@.len(),
                self@ == load_desc_spec::<E>(start, sections@.take(i as int), str_opt_view(home)),
                distinct_ids(self@),
            decreases sections@.len() - i,
        {
            let entry = E::from_desc(&sections[i].1, home);
            self.insert(sections[i].0.as_str(), entry);
            assert(sections@.take(i + 1).drop_last() =~= sections@.take(i as int));
            i = i + 1;
        }
        assert(sections@.take(sections@.len() as int) =~= sections@);
    }

    /// Register the sections of the first descriptor candidate that was read and parsed
    /// (`parsed` holds one entry per candidate, in search order, `None` where the file was
    /// missing or did not parse) and return its position; with none, nothing changes.
    pub fn load_first_desc(&mut self, parsed: &Vec<Option<Vec<(String, E::Desc)>>>, home: Option<&str>) -> (r: Option<usize>)
        ensures
            first_some_index(parsed@) < parsed@.len() ==> r == Some(first_some_index(parsed@) as usize)
                && final(self)@ == load_desc_spec::<E>(
                old(self)@,
                parsed@[first_some_index(parsed@)].unwrap()@,
                str_opt_view(home),
            ),
            first_some_index(parsed@) == parsed@.len() ==> r is None && final(self)@ == old(self)@,
    {
        let k = first_some(parsed);
        if k < parsed.len() {
            match &parsed[k] {
                Some(sections) => {
                    self.load_desc(sections, home);
                },
                None => {},
            }
            Some(k)
        } else {
            None
        }
    }

    /// Remove every entry whose id or display name is `name`.
    pub fn unregister(&mut self, name: &str)
        ensures
            final(self)@ == remove_spec::<E>(old(self)@, name@),
            distinct_ids(final(self)@),
    {
        proof {
            use_type_invariant(&*self);
        }
        let ghost s = self@;
        let mut v: Vec<(String, E)> = Vec::new();
        std::mem::swap(&mut v, &mut self.entries);
        assert(pairs_view(v@) == s);
        let mut kept: Vec<(String, E)> = Vec::new();
        let ghost mut i: int = 0;
        assert(s.take(0).filter(survives::<E>(name@)) =~= Seq::<(Seq<char>, E::V)>::empty()) by {
            reveal(Seq::filter);
        }
        while v.len() > 0
            invariant
                0 <= i <= s.len(),
                v@.len() == s.len() - i,
                pairs_view(v@) == s.skip(i),
                pairs_view(kept@) == s.take(i).filter(survives::<E>(name@)),
            decreases v@.len(),
        {
            let ghost before = v@;
            let p = v.remove(0);
            assert(s[i] == (p.0@, p.1@)) by {
                assert(s.skip(i)[0] == s[i]);
            }
            let keep = !str_eq(p.0.as_str(), name) && !str_eq(p.1.display_name(), name);
            proof {
                reveal(Seq::filter);
                assert(s.take(i + 1).drop_last() =~= s.take(i));
                assert(s.take(i + 1).last() == s[i]);
            }
            if keep {
                kept.push(p);
            }
            proof {
                assert(pairs_view(kept@) =~= s.take(i + 1).filter(survives::<E>(name@)));
                assert forall|k: int| 0 <= k < v@.len() implies #[trigger] pairs_view(v@)[k] == s.skip(
                    i + 1,
                )[k] by {
                    assert(v@[k] == before[k + 1]);
                    assert(pairs_view(before)[k + 1] == s.skip(i)[k + 1]);
                }
                assert(pairs_view(v@) =~= s.skip(i + 1));
                i = i + 1;
            }
        }
        proof {
            assert(s.take(i) =~= s);
            lemma_filter_distinct(s, survives::<E>(name@));
        }
        self.entries = kept;
    }
}

/// After registering an entry under an id, looking that id up finds it, and every other
/// id still finds what it found before.
pub proof fn registered_entry_is_found<E: RegistryEntry>(
    s: Seq<(Seq<char>, E::V)>,
    id: Seq<char>,
    v: E::V,
    other: Seq<char>,
)
    requires
        distinct_ids(s),
        other != id,
    ensures
        lookup_spec::<E>(insert_spec(s, id, v), id) == Some(v),
        id_lookup(insert_spec(s, id, v), id) == Some(v),
        id_lookup(insert_spec(s, id, v), other) == id_lookup(s, other),
{
    lemma_first_index(s, has_id::<E::V>(id));
    lemma_first_index(s, has_id::<E::V>(other));
    let t = insert_spec(s, id, v);
    let k = id_pos(s, id);
    let ko = id_pos(s, other);
    if k < s.len() {
        lemma_first_index_unique(t, has_id::<E::V>(id), k);
        assert forall|j: int| 0 <= j < ko implies !has_id::<E::V>(other)(#[trigger] t[j]) by {
            if j != k {
                assert(t[j] == s[j]);
            }
        }
        if ko < s.len() {
            assert(t[ko] == s[ko]) by {
                if ko == k {
                    assert(s[k].0 == id);
                }
            }
        } else {
            assert(ko == s.len());
        }
        lemma_first_index_unique(t, has_id::<E::V>(other), ko);
    } else {
        assert forall|j: int| 0 <= j < k implies !has_id::<E::V>(id)(#[trigger] t[j]) by {
            assert(t[j] == s[j]);
        }
        lemma_first_index_unique(t, has_id::<E::V>(id), k);
        if ko < s.len() {
            assert forall|j: int| 0 <= j < ko implies !has_id::<E::V>(other)(#[trigger] t[j]) by {
                assert(t[j] == s[j]);
            }
            assert(t[ko] == s[ko]);
            lemma_first_index_unique(t, has_id::<E::V>(other), ko);
        } else {
            assert forall|j: int| 0 <= j < t.len() implies !has_id::<E::V>(other)(#[trigger] t[j]) by {
                if j < s.len() {
                    assert(t[j] == s[j]);
                }
            }
            lemma_first_index_unique(t, has_id::<E::V>(other), t.len() as int);
        }
    }
}

/// After removing a name, no entry is found under it, neither by id nor by display name,
/// and every entry whose id and display name differ from it is still registered.
pub proof fn unregistered_name_is_gone<E: RegistryEntry>(s: Seq<(Seq<char>, E::V)>, name: Seq<char>)
    ensures
        lookup_spec::<E>(remove_spec::<E>(s, name), name) is None,
        forall|j: int|
            0 <= j < s.len() && (#[trigger] s[j]).0 != name && E::name_of(s[j].1) != name
                ==> remove_spec::<E>(s, name).contains(s[j]),
{
    let t = remove_spec::<E>(s, name);
    assert forall|j: int| 0 <= j < t.len() implies !has_id::<E::V>(name)(#[trigger] t[j]) by {
        s.lemma_filter_pred(survives::<E>(name), j);
        assert(survives::<E>(name)(t[j]));
    }
    lemma_first_index_unique(t, has_id::<E::V>(name), t.len() as int);
    assert forall|j: int| 0 <= j < t.len() implies !has_name::<E>(name)(#[trigger] t[j]) by {
        s.lemma_filter_pred(survives::<E>(name), j);
        assert(survives::<E>(name)(t[j]));
    }
    lemma_first_index_unique(t, has_name::<E>(name), t.len() as int);
    assert forall|j: int|
        0 <= j < s.len() && (#[trigger] s[j]).0 != name && E::name_of(s[j].1) != name implies t.contains(
        s[j],
    ) by {
        assert(survives::<E>(name)(s[j]));
        s.lemma_filter_contains(survives::<E>(name), j);
    }
}

/// Filtering keeps everything when every element passes.
proof fn lemma_filter_all<A>(s: Seq<A>, keep: spec_fn(A) -> bool)
    requires
        forall|i: int| 0 <= i < s.len() ==> keep(#[trigger] s[i]),
    ensures
        s.filter(keep) == s,
    decreases s.len(),
{
    reveal(Seq::filter);
    if s.len() > 0 {
        lemma_filter_all(s.drop_last(), keep);
        assert(keep(s[s.len() - 1]));
        assert(s.drop_last().push(s.last()) =~= s);
    }
}

/// Registering a fresh id and then removing it gives back the registry as it was, provided
/// no entry there is displayed under that id.
pub proof fn register_then_unregister_restores<E: RegistryEntry>(
    s: Seq<(Seq<char>, E::V)>,
    id: Seq<char>,
    v: E::V,
)
    requires
        forall|i: int| 0 <= i < s.len() ==> (#[trigger] s[i]).0 != id && E::name_of(s[i].1) != id,
    ensures
        remove_spec::<E>(insert_spec(s, id, v), id) == s,
{
    assert forall|j: int| 0 <= j < s.len() implies !has_id::<E::V>(id)(#[trigger] s[j]) by {}
    lemma_first_index_unique(s, has_id::<E::V>(id), s.len() as int);
    let t = s.push((id, v));
    assert(insert_spec(s, id, v) == t);
    reveal(Seq::filter);
    assert(t.drop_last() =~= s);
    assert(!survives::<E>(id)(t.last()));
    assert(t.filter(survives::<E>(id)) == s.filter(survives::<E>(id)));
    assert forall|i: int| 0 <= i < s.len() implies survives::<E>(id)(#[trigger] s[i]) by {}
    lemma_filter_all(s, survives::<E>(id));
}

} // verus!
