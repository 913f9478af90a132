//! Association lists keyed by text, read as maps.
use vstd::prelude::*;

verus! {

/// The map an association list stands for; with distinct keys the order of
/// the entries does not matter.
pub open spec fn kv_map<V>(v: Seq<(Seq<char>, V)>) -> Map<Seq<char>, V>
    decreases v.len(),
{
    if v.len() == 0 {
        Map::empty()
    } else {
        kv_map(v.drop_last()).insert(v.last().0, v.last().1)
    }
}

/// No key occurs twice.
pub open spec fn kv_distinct<V>(v: Seq<(Seq<char>, V)>) -> bool {
    forall|i: int, j: int| 0 <= i < j < v.len() ==> v[i].0 != v[j].0
}

/// The keys of an association list.
pub proof fn lemma_kv_dom<V>(v: Seq<(Seq<char>, V)>, k: Seq<char>)
    ensures
        kv_map(v).contains_key(k) <==> exists|i: int| 0 <= i < v.len() && v[i].0 == k,
    decreases v.len(),
{
    if v.len() > 0 {
        let w = v.drop_last();
        lemma_kv_dom(w, k);
        if kv_map(v).contains_key(k) {
            if k == v.last().0 {
                assert(v[v.len() - 1].0 == k);
            } else {
                let i = choose|i: int| 0 <= i < w.len() && w[i].0 == k;
                assert(v[i].0 == k);
            }
        }
        if exists|i: int| 0 <= i < v.len() && v[i].0 == k {
            let i = choose|i: int| 0 <= i < v.len() && v[i].0 == k;
            if i < v.len() - 1 {
                assert(w[i].0 == k);
            }
        }
    }
}

/// With distinct keys, each entry is what the map holds for its key.
pub proof fn lemma_kv_index<V>(v: Seq<(Seq<char>, V)>, i: int)
    requires
        kv_distinct(v),
        0 <= i < v.len(),
    ensures
        kv_map(v).contains_key(v[i].0),
        kv_map(v)[v[i].0] == v[i].1,
    decreases v.len(),
{
    let w = v.drop_last();
    if i < v.len() - 1 {
        assert(kv_distinct(w)) by {
            assert forall|a: int, b: int| 0 <= a < b < w.len() implies w[a].0 != w[b].0 by {
                assert(w[a] == v[a] && w[b] == v[b]);
            }
        }
        assert(w[i] == v[i]);
        lemma_kv_index(w, i);
        assert(v[i].0 != v[v.len() - 1].0);
    }
}

/// Replacing the value of an entry replaces it in the map.
pub proof fn lemma_kv_update<V>(v: Seq<(Seq<char>, V)>, i: int, x: V)
    requires
        kv_distinct(v),
        0 <= i < v.len(),
    ensures
        kv_distinct(v.update(i, (v[i].0, x))),
        kv_map(v.update(i, (v[i].0, x))) == kv_map(v).insert(v[i].0, x),
    decreases v.len(),
{
    let u = v.update(i, (v[i].0, x));
    assert(kv_distinct(u)) by {
        assert forall|a: int, b: int| 0 <= a < b < u.len() implies u[a].0 != u[b].0 by {
            assert(u[a].0 == v[a].0 && u[b].0 == v[b].0);
        }
    }
    let w = v.drop_last();
    assert(kv_distinct(w)) by {
        assert forall|a: int, b: int| 0 <= a < b < w.len() implies w[a].0 != w[b].0 by {
            assert(w[a] == v[a] && w[b] == v[b]);
        }
    }
    if i == v.len() - 1 {
        assert(u.drop_last() =~= w);
        assert(kv_map(u) =~= kv_map(v).insert(v[i].0, x));
    } else {
        lemma_kv_update(w, i, x);
        assert(u.drop_last() =~= w.update(i, (w[i].0, x)));
        assert(v[i].0 != v.last().0);
        assert(kv_map(u) =~= kv_map(v).insert(v[i].0, x));
    }
}

/// Adding an entry with a new key keeps the keys distinct.
pub proof fn lemma_kv_push<V>(v: Seq<(Seq<char>, V)>, k: Seq<char>, x: V)
    requires
        kv_distinct(v),
        !kv_map(v).contains_key(k),
    ensures
        kv_distinct(v.push((k, x))),
        kv_map(v.push((k, x))) == kv_map(v).insert(k, x),
{
    let u = v.push((k, x));
    lemma_kv_dom(v, k);
    assert(kv_distinct(u)) by {
        assert forall|a: int, b: int| 0 <= a < b < u.len() implies u[a].0 != u[b].0 by {
            if b == v.len() {
                assert(u[a] == v[a]);
            } else {
                assert(u[a] == v[a] && u[b] == v[b]);
            }
        }
    }
    assert(u.drop_last() =~= v);
}

/// A map keyed by text, kept as a list of entries with distinct keys.
#[derive(Debug)]
pub struct TextMap<V> {
    entries: Vec<(String, V)>,
}

/// The entries of a text map with their keys read as character sequences.
pub open spec fn text_entries<V>(v: Seq<(String, V)>) -> Seq<(Seq<char>, V)> {
    Seq::new(v.len(), |i: int| (v[i].0@, v[i].1))
}

impl<V> View for TextMap<V> {
    type V = Map<Seq<char>, V>;

    closed spec fn view(&self) -> Map<Seq<char>, V> {
        kv_map(text_entries(self.entries@))
    }
}

impl<V> TextMap<V> {
    #[verifier::type_invariant]
    closed spec fn keys_distinct(&self) -> bool {
        kv_distinct(text_entries(self.entries@))
    }

    /// An empty map.
    pub fn new() -> (r: Self)
        ensures
            r@ == Map::<Seq<char>, V>::empty(),
    {
        let r = TextMap { entries: Vec::new() };
        assert(text_entries(r.entries@) =~= Seq::<(Seq<char>, V)>::empty());
        r
    }

    /// The number of keys.
    pub fn len(&self) -> (r: usize)
        ensures
            r == self@.dom().len(),
    {
        proof {
            use_type_invariant(self);
            lemma_kv_len(text_entries(self.entries@));
        }
        self.entries.len()
    }

    /// The index of a key's entry.
    fn position(&self, key: &str) -> (r: Option<usize>)
        ensures
            r is None <==> !self@.contains_key(key@),
            r matches Some(i) ==> i < self.entries@.len() && self.entries@[i as int].0@ == key@,
    {
        proof {
            use_type_invariant(self);
        }
        let n = self.entries.len();
        let mut i: usize = 0;
        while i < n
            invariant
                n == self.entries@.len(),
                i <= n,
                forall|j: int| 0 <= j < i ==> self.entries@[j].0@ != key@,
            decreases n - i,
        {
            if crate::text::str_eq(self.entries[i].0.as_str(), key) {
                proof {
                    assert(text_entries(self.entries@)[i as int].0 == key@);
                    lemma_kv_dom(text_entries(self.entries@), key@);
                }
                return Some(i);
            }
            i += 1;
        }
        proof {
            lemma_kv_dom(text_entries(self.entries@), key@);
            if self@.contains_key(key@) {
                let j = choose|j: int| 0 <= j < text_entries(self.entries@).len() && text_entries(self.entries@)[j].0 == key@;
                assert(self.entries@[j].0@ == key@);
            }
        }
        None
    }

    /// The value of a key, if the map has it.
    pub fn get(&self, key: &str) -> (r: Option<&V>)
        ensures
            r is None <==> !self@.contains_key(key@),
            r matches Some(v) ==> self@[key@] == *v,
    {
        proof {
            use_type_invariant(self);
        }
        match self.position(key) {
            Some(i) => {
                proof {
                    lemma_kv_index(text_entries(self.entries@), i as int);
                }
                Some(&self.entries[i].1)
            },
            None => None,
        }
    }

    /// Sets the value of a key, adding the key where it is new.
    pub fn insert(&mut self, key: String, value: V)
        ensures
            final(self)@ == old(self)@.insert(key@, value),
    {
        proof {
            use_type_invariant(&*self);
        }
        let ghost before = text_entries(self.entries@);
        let pos = self.position(key.as_str());
        let mut entries: Vec<(String, V)> = Vec::new();
        std::mem::swap(&mut entries, &mut self.entries);
        match pos {
            Some(i) => {
                proof {
                    lemma_kv_update(before, i as int, value);
                }
                entries.set(i, (key, value));
                assert(text_entries(entries@) =~= before.update(i as int, (before[i as int].0, value)));
            },
            None => {
                proof {
                    lemma_kv_push(before, key@, value);
                }
                entries.push((key, value));
                assert(text_entries(entries@) =~= before.push((key@, value)));
            },
        }
        self.entries = entries;
    }
}

/// The number of keys of a list with distinct keys is its length.
pub proof fn lemma_kv_len<V>(v: Seq<(Seq<char>, V)>)
    requires
        kv_distinct(v),
    ensures
        kv_map(v).dom().len() == v.len(),
        kv_map(v).dom().finite(),
    decreases v.len(),
{
    if v.len() > 0 {
        let w = v.drop_last();
        assert(kv_distinct(w)) by {
            assert forall|a: int, b: int| 0 <= a < b < w.len() implies w[a].0 != w[b].0 by {
                assert(w[a] == v[a] && w[b] == v[b]);
            }
        }
        lemma_kv_len(w);
        lemma_kv_dom(w, v.last().0);
        if kv_map(w).contains_key(v.last().0) {
            let i = choose|i: int| 0 <= i < w.len() && w[i].0 == v.last().0;
            assert(v[i].0 == v[v.len() - 1].0);
        }
        assert(kv_map(v).dom() =~= kv_map(w).dom().insert(v.last().0));
    }
}

} // verus!
