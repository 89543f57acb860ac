//! `StrMap`: a map from strings to values that keeps its keys in insertion
//! order, with no key twice. Environment variables, labels and job inputs
//! and outputs are kept in it.
use vstd::prelude::*;
use crate::text::str_eq;

verus! {

/// Values that can be copied, the copy equal to the value copied.
pub trait Duplicate: Sized {
    fn duplicate(&self) -> (r: Self)
        ensures
            r == *self,
    ;
}

impl Duplicate for String {
    fn duplicate(&self) -> (r: String) {
        self.clone()
    }
}

/// The map written by the first `n` key/value pairs, later pairs overriding
/// earlier ones.
pub open spec fn entries_map<V>(ks: Seq<Seq<char>>, vs: Seq<V>, n: nat) -> Map<Seq<char>, V>
    decreases n,
{
    if n == 0 {
        Map::empty()
    } else {
        entries_map(ks, vs, (n - 1) as nat).insert(ks[n - 1], vs[n - 1])
    }
}

pub open spec fn distinct_keys(ks: Seq<Seq<char>>) -> bool {
    forall|i: int, j: int| 0 <= i < ks.len() && 0 <= j < ks.len() && i != j ==> ks[i] != ks[j]
}

proof fn lemma_entries_dom<V>(ks: Seq<Seq<char>>, vs: Seq<V>, n: nat, k: Seq<char>)
    requires
        n <= ks.len(),
    ensures
        entries_map(ks, vs, n).contains_key(k) <==> exists|j: int| 0 <= j < n && ks[j] == k,
    decreases n,
{
    if n > 0 {
        lemma_entries_dom(ks, vs, (n - 1) as nat, k);
        if entries_map(ks, vs, n).contains_key(k) && ks[n - 1] != k {
            let j = choose|j: int| 0 <= j < n - 1 && ks[j] == k;
            assert(0 <= j < n && ks[j] == k);
        }
    }
}

proof fn lemma_entries_value<V>(ks: Seq<Seq<char>>, vs: Seq<V>, n: nat, i: int)
    requires
        n <= ks.len(),
        distinct_keys(ks),
        0 <= i < n,
    ensures
        entries_map(ks, vs, n).contains_key(ks[i]),
        entries_map(ks, vs, n)[ks[i]] == vs[i],
    decreases n,
{
    if i < n - 1 {
        lemma_entries_value(ks, vs, (n - 1) as nat, i);
    }
}

proof fn lemma_entries_update<V>(ks: Seq<Seq<char>>, vs: Seq<V>, n: nat, i: int, v: V)
    requires
        n <= ks.len(),
        n <= vs.len(),
        distinct_keys(ks),
        0 <= i < n,
    ensures
        entries_map(ks, vs.update(i, v), n) == entries_map(ks, vs, n).insert(ks[i], v),
    decreases n,
{
    if i < n - 1 {
        lemma_entries_update(ks, vs, (n - 1) as nat, i, v);
        assert(entries_map(ks, vs.update(i, v), n) =~= entries_map(ks, vs, n).insert(ks[i], v));
    } else {
        assert(entries_map(ks, vs.update(i, v), (n - 1) as nat) == entries_map(ks, vs, (n - 1) as nat))
            by {
            lemma_entries_prefix_same(ks, vs, vs.update(i, v), (n - 1) as nat);
        }
        assert(entries_map(ks, vs.update(i, v), n) =~= entries_map(ks, vs, n).insert(ks[i], v));
    }
}

proof fn lemma_entries_prefix_same<V>(ks: Seq<Seq<char>>, vs: Seq<V>, ws: Seq<V>, n: nat)
    requires
        n <= vs.len(),
        n <= ws.len(),
        forall|j: int| 0 <= j < n ==> vs[j] == ws[j],
    ensures
        entries_map(ks, vs, n) == entries_map(ks, ws, n),
    decreases n,
{
    if n > 0 {
        lemma_entries_prefix_same(ks, vs, ws, (n - 1) as nat);
    }
}

proof fn lemma_entries_keys_prefix<V>(ks: Seq<Seq<char>>, ks2: Seq<Seq<char>>, vs: Seq<V>, n: nat)
    requires
        n <= ks.len(),
        n <= ks2.len(),
        forall|j: int| 0 <= j < n ==> ks[j] == ks2[j],
    ensures
        entries_map(ks, vs, n) == entries_map(ks2, vs, n),
    decreases n,
{
    if n > 0 {
        lemma_entries_keys_prefix(ks, ks2, vs, (n - 1) as nat);
    }
}

/// A string-keyed map whose keys keep the order in which they were first
/// inserted; inserting a key that is present replaces its value in place.
#[derive(Debug)]
pub struct StrMap<V> {
    keys: Vec<String>,
    vals: Vec<V>,
}

impl<V> View for StrMap<V> {
    type V = Map<Seq<char>, V>;

    closed spec fn view(&self) -> Map<Seq<char>, V> {
        entries_map(self.key_seq(), self.vals@, self.keys.len() as nat)
    }
}

impl<V> StrMap<V> {
    #[verifier::type_invariant]
    closed spec fn inv(self) -> bool {
        &&& self.keys.len() == self.vals.len()
        &&& distinct_keys(self.key_seq())
    }

    /// The keys in their order, each once.
    pub closed spec fn key_seq(&self) -> Seq<Seq<char>> {
        self.keys@.map_values(|k: String| k@)
    }

    /// A key is in the map exactly when it is one of its keys in order.
    pub proof fn lemma_keys_in_order(&self)
        ensures
            forall|k: Seq<char>| #[trigger] self@.contains_key(k) <==> self.key_seq().contains(k),
    {
        assert forall|k: Seq<char>| #[trigger] self@.contains_key(k) <==> self.key_seq().contains(k) by {
            lemma_entries_dom(self.key_seq(), self.vals@, self.keys.len() as nat, k);
        }
    }

    /// An empty map.
    pub fn new() -> (r: Self)
        ensures
            r@ == Map::<Seq<char>, V>::empty(),
            r.key_seq() == Seq::<Seq<char>>::empty(),
    {
        let r = StrMap { keys: Vec::new(), vals: Vec::new() };
        assert(r.key_seq() =~= Seq::<Seq<char>>::empty());
        r
    }

    /// The number of entries, together with how the keys in order relate to
    /// the map.
    pub fn len(&self) -> (n: usize)
        ensures
            n == self.key_seq().len(),
            distinct_keys(self.key_seq()),
            forall|k: Seq<char>| #[trigger] self@.contains_key(k) <==> self.key_seq().contains(k),
            forall|i: int| 0 <= i < n ==> #[trigger] self@.contains_key(self.key_seq()[i]),
    {
        proof {
            use_type_invariant(self);
            assert forall|k: Seq<char>| #[trigger] self@.contains_key(k) <==> self.key_seq().contains(k) by {
                lemma_entries_dom(self.key_seq(), self.vals@, self.keys.len() as nat, k);
            }
            assert forall|i: int| 0 <= i < self.keys.len() implies #[trigger] self@.contains_key(self.key_seq()[i]) by {
                lemma_entries_value(self.key_seq(), self.vals@, self.keys.len() as nat, i);
            }
        }
        self.keys.len()
    }

    /// Whether the map has no entries.
    pub fn is_empty(&self) -> (b: bool)
        ensures
            b == (self@ == Map::<Seq<char>, V>::empty()),
            b == (self.key_seq().len() == 0),
    {
        let n = self.len();
        proof {
            if n > 0 {
                assert(self@.contains_key(self.key_seq()[0]));
            } else {
                assert(self@ =~= Map::<Seq<char>, V>::empty());
            }
        }
        n == 0
    }

    /// The key at position `i` in key order.
    pub fn key_at(&self, i: usize) -> (k: &String)
        requires
            i < self.key_seq().len(),
        ensures
            k@ == self.key_seq()[i as int],
            self@.contains_key(k@),
    {
        proof {
            use_type_invariant(self);
            lemma_entries_value(self.key_seq(), self.vals@, self.keys.len() as nat, i as int);
        }
        &self.keys[i]
    }

    /// The value of the key at position `i` in key order.
    pub fn value_at(&self, i: usize) -> (v: &V)
        requires
            i < self.key_seq().len(),
        ensures
            *v == self@[self.key_seq()[i as int]],
    {
        proof {
            use_type_invariant(self);
            lemma_entries_value(self.key_seq(), self.vals@, self.keys.len() as nat, i as int);
        }
        &self.vals[i]
    }

    fn find(&self, k: &str) -> (r: Option<usize>)
        ensures
            match r {
                Some(i) => i < self.keys.len() && self.key_seq()[i as int] == k@,
                None => !self@.contains_key(k@),
            },
    {
        proof {
            use_type_invariant(self);
        }
        let mut i: usize = 0;
        while i < self.keys.len()
            invariant
                i <= self.keys.len(),
                forall|j: int| 0 <= j < i ==> self.key_seq()[j] != k@,
            decreases self.keys.len() - i,
        {
            if str_eq(self.keys[i].as_str(), k) {
                return Some(i);
            }
            i = i + 1;
        }
        proof {
            lemma_entries_dom(self.key_seq(), self.vals@, self.keys.len() as nat, k@);
        }
        None
    }

    /// Whether `k` is a key of the map.
    pub fn contains_key(&self, k: &str) -> (b: bool)
        ensures
            b == self@.contains_key(k@),
    {
        proof {
            use_type_invariant(self);
        }
        match self.find(k) {
            Some(i) => {
                proof {
                    lemma_entries_value(self.key_seq(), self.vals@, self.keys.len() as nat, i as int);
                }
                true
            },
            None => false,
        }
    }

    /// The value of `k`, if `k` is a key.
    pub fn get(&self, k: &str) -> (r: Option<&V>)
        ensures
            match r {
                Some(v) => self@.contains_key(k@) && *v == self@[k@],
                None => !self@.contains_key(k@),
            },
    {
        proof {
            use_type_invariant(self);
        }
        match self.find(k) {
            Some(i) => {
                proof {
                    lemma_entries_value(self.key_seq(), self.vals@, self.keys.len() as nat, i as int);
                }
                Some(&self.vals[i])
            },
            None => None,
        }
    }

    /// Sets the value of `k` to `v`; a new key goes after all present keys.
    pub fn insert(&mut self, k: String, v: V)
        ensures
            final(self)@ == old(self)@.insert(k@, v),
            old(self)@.contains_key(k@) ==> final(self).key_seq() == old(self).key_seq(),
            !old(self)@.contains_key(k@) ==> final(self).key_seq() == old(self).key_seq().push(k@),
    {
        proof {
            use_type_invariant(&*self);
        }
        let found = self.find(k.as_str());
        let mut tmp = StrMap::new();
        core::mem::swap(self, &mut tmp);
        proof {
            use_type_invariant(&tmp);
        }
        let StrMap { mut keys, mut vals } = tmp;
        let ghost ks = keys@.map_values(|s: String| s@);
        let ghost vs = vals@;
        match found {
            Some(i) => {
                proof {
                    lemma_entries_value(ks, vs, keys.len() as nat, i as int);
                    lemma_entries_update(ks, vs, keys.len() as nat, i as int, v);
                }
                vals.set(i, v);
                let r = StrMap { keys, vals };
                assert(r.key_seq() =~= ks);
                *self = r;
            },
            None => {
                let ghost n = keys.len();
                proof {
                    lemma_entries_dom(ks, vs, n as nat, k@);
                    lemma_entries_keys_prefix(ks, ks.push(k@), vs, n as nat);
                    lemma_entries_prefix_same(ks.push(k@), vs, vs.push(v), n as nat);
                }
                keys.push(k);
                vals.push(v);
                assert(keys@.map_values(|s: String| s@) =~= ks.push(k@));
                assert(distinct_keys(ks.push(k@)));
                let r = StrMap { keys, vals };
                *self = r;
            },
        }
    }

    /// Sets every key of `other` to its value there (the keys of `other`
    /// win), in `other`'s key order.
    pub fn extend(&mut self, other: StrMap<V>)
        ensures
            final(self)@ == old(self)@.union_prefer_right(other@),
    {
        proof {
            use_type_invariant(&other);
        }
        let ghost oks = other.key_seq();
        let ghost ovs = other.vals@;
        let ghost start = self@;
        let StrMap { keys, vals } = other;
        let n = keys.len();
        let mut keys = keys;
        let mut vals = vals;
        let mut i: usize = 0;
        while i < n
            invariant
                n == oks.len(),
                n == ovs.len(),
                keys.len() == n - i,
                vals.len() == n - i,
                i <= n,
                forall|j: int| 0 <= j < n - i ==> #[trigger] keys@[j]@ == oks[i + j],
                forall|j: int| 0 <= j < n - i ==> #[trigger] vals@[j] == ovs[i + j],
                self@ == start.union_prefer_right(entries_map(oks, ovs, i as nat)),
            decreases n - i,
        {
            let k = keys.remove(0);
            let v = vals.remove(0);
            assert(k@ == oks[i as int]);
            assert(v == ovs[i as int]);
            self.insert(k, v);
            assert(self@ =~= start.union_prefer_right(entries_map(oks, ovs, (i + 1) as nat)));
            i = i + 1;
        }
    }
}

impl<V: Duplicate> StrMap<V> {
    /// A copy with the same entries in the same order.
    pub fn duplicate(&self) -> (r: Self)
        ensures
            r@ == self@,
            r.key_seq() == self.key_seq(),
    {
        proof {
            use_type_invariant(self);
        }
        let mut keys: Vec<String> = Vec::new();
        let mut vals: Vec<V> = Vec::new();
        let mut i: usize = 0;
        while i < self.keys.len()
            invariant
                i <= self.keys.len(),
                self.keys.len() == self.vals.len(),
                keys.len() == i,
                vals.len() == i,
                forall|j: int| 0 <= j < i ==> #[trigger] keys@[j]@ == self.keys@[j]@,
                forall|j: int| 0 <= j < i ==> #[trigger] vals@[j] == self.vals@[j],
            decreases self.keys.len() - i,
        {
            keys.push(self.keys[i].duplicate());
            vals.push(self.vals[i].duplicate());
            i = i + 1;
        }
        assert(keys@.map_values(|k: String| k@) =~= self.key_seq());
        assert(vals@ =~= self.vals@);
        let r = StrMap { keys, vals };
        r
    }
}

} // verus!
