//! Maps from addresses.
use std::collections::BTreeMap;
use vstd::prelude::*;
use vstd::std_specs::cmp::OrdSpec;
use vstd::std_specs::iter::IteratorSpec;

verus! {

/// A map from addresses to values.
#[derive(Clone, Debug)]
pub struct AddrMap<V> {
    pub map: BTreeMap<usize, V>,
}

impl<V> View for AddrMap<V> {
    type V = Map<usize, V>;

    open spec fn view(&self) -> Map<usize, V> {
        self.map@
    }
}

/// In a rising sequence of references the addresses rise.
proof fn lemma_rising(ks: Seq<&usize>)
    requires
        vstd::std_specs::btree::increasing_seq(ks),
    ensures
        forall|i: int, j: int| 0 <= i < j < ks.len() ==> *ks[i] < *ks[j],
{
    assert(vstd::laws_cmp::obeys_cmp::<&usize>());
    assert forall|i: int, j: int| 0 <= i < j < ks.len() implies *ks[i] < *ks[j] by {
        assert(OrdSpec::cmp_spec(&ks[i], &ks[j]) is Less);
    }
}

impl<V> AddrMap<V> {
    /// The empty map.
    pub fn new() -> (r: Self)
        ensures
            r@ == Map::<usize, V>::empty(),
    {
        AddrMap { map: BTreeMap::new() }
    }

    /// The value for `k`.
    pub fn get(&self, k: usize) -> (r: Option<&V>)
        ensures
            match r {
                Some(v) => self@.contains_key(k) && *v == self@[k],
                None => !self@.contains_key(k),
            },
    {
        self.map.get(&k)
    }

    /// Whether there is a value for `k`.
    pub fn contains_key(&self, k: usize) -> (r: bool)
        ensures
            r == self@.contains_key(k),
    {
        self.map.contains_key(&k)
    }

    /// Sets the value for `k`.
    pub fn insert(&mut self, k: usize, v: V)
        ensures
            final(self)@ == old(self)@.insert(k, v),
    {
        self.map.insert(k, v);
    }

    /// Takes out the value for `k`.
    pub fn remove(&mut self, k: usize) -> (r: Option<V>)
        ensures
            final(self)@ == old(self)@.remove(k),
            match r {
                Some(v) => old(self)@.contains_key(k) && v == old(self)@[k],
                None => !old(self)@.contains_key(k),
            },
    {
        self.map.remove(&k)
    }

    /// The addresses in rising order.
    pub fn keys(&self) -> (r: Vec<usize>)
        ensures
            is_key_list(r@, self@.dom()),
    {
        let mut out: Vec<usize> = Vec::new();
        let all = self.map.keys();
        let ghost ks = IteratorSpec::remaining(&all);
        for k in it: all
            invariant
                it.seq() == ks,
                out@ == ks.unref().take(it.index() as int),
        {
            out.push(*k);
        }
        proof {
            assert(out@ =~= ks.unref());
            assert(ks.unref().to_set() == self@.dom());
            assert forall|k: usize| self@.dom().contains(k) == #[trigger] out@.contains(k) by {
                assert(ks.unref().to_set().contains(k) == ks.unref().contains(k));
            }
            lemma_rising(ks);
        }
        out
    }

    /// The number of addresses.
    pub fn len(&self) -> (r: usize)
        ensures
            self@.dom().finite(),
            r == self@.dom().len(),
    {
        self.map.len()
    }

    /// Takes out everything.
    pub fn clear(&mut self)
        ensures
            final(self)@ == Map::<usize, V>::empty(),
    {
        self.map.clear();
    }
}

/// Whether `s` lists the addresses of `d`, each once, in rising order.
pub open spec fn is_key_list(s: Seq<usize>, d: Set<usize>) -> bool {
    &&& forall|i: int, j: int| 0 <= i < j < s.len() ==> s[i] < s[j]
    &&& forall|k: usize| d.contains(k) == #[trigger] s.contains(k)
}

/// There is only one such list.
pub proof fn law_key_list_unique(s: Seq<usize>, t: Seq<usize>, d: Set<usize>)
    requires
        is_key_list(s, d),
        is_key_list(t, d),
    ensures
        s == t,
    decreases s.len(),
{
    if s.len() == 0 {
        if t.len() > 0 {
            assert(t.contains(t[0]));
            assert(s.contains(t[0]));
        }
        assert(s =~= t);
    } else {
        let m = s.last();
        assert(s.contains(m));
        assert(t.contains(m));
        assert(t.len() > 0);
        let n = t.last();
        assert(t.contains(n));
        assert(s.contains(n));
        let a = choose|a: int| 0 <= a < t.len() && t[a] == m;
        let b = choose|b: int| 0 <= b < s.len() && s[b] == n;
        assert(m <= n && n <= m);
        let e = d.remove(m);
        let s2 = s.drop_last();
        let t2 = t.drop_last();
        assert forall|k: usize| e.contains(k) == #[trigger] s2.contains(k) by {
            if s2.contains(k) {
                let j = choose|j: int| 0 <= j < s2.len() && s2[j] == k;
                assert(s[j] == k && s.contains(k) && k < m);
            }
            if e.contains(k) {
                assert(s.contains(k));
                let j = choose|j: int| 0 <= j < s.len() && s[j] == k;
                assert(s2[j] == k);
            }
        }
        assert forall|k: usize| e.contains(k) == #[trigger] t2.contains(k) by {
            if t2.contains(k) {
                let j = choose|j: int| 0 <= j < t2.len() && t2[j] == k;
                assert(t[j] == k && t.contains(k) && k < n);
            }
            if e.contains(k) {
                assert(t.contains(k));
                let j = choose|j: int| 0 <= j < t.len() && t[j] == k;
                assert(t2[j] == k);
            }
        }
        law_key_list_unique(s2, t2, e);
        assert(s =~= s2.push(m));
        assert(t =~= t2.push(m));
    }
}

} // verus!
