//! Sets of names in alphabetical order.
use crate::text::chars_of;
use vstd::prelude::*;

verus! {

/// Whether `a` comes before `b` in the order of the characters' codes.
pub open spec fn before(a: Seq<char>, b: Seq<char>) -> bool
    decreases a.len(),
{
    if a.len() == 0 {
        b.len() > 0
    } else if b.len() == 0 {
        false
    } else if a[0] == b[0] {
        before(a.skip(1), b.skip(1))
    } else {
        a[0] < b[0]
    }
}

/// Of two different names one comes before the other, and never both.
pub proof fn law_order_total(a: Seq<char>, b: Seq<char>)
    ensures
        a == b <==> !before(a, b) && !before(b, a),
        !(before(a, b) && before(b, a)),
    decreases a.len(),
{
    if a.len() > 0 && b.len() > 0 && a[0] == b[0] {
        law_order_total(a.skip(1), b.skip(1));
        if a.skip(1) == b.skip(1) {
            assert(a =~= seq![a[0]] + a.skip(1));
            assert(b =~= seq![b[0]] + b.skip(1));
        }
    } else if a.len() == 0 && b.len() == 0 {
        assert(a =~= b);
    }
}

/// What comes before a name comes before all that it comes before.
pub proof fn law_order_transitive(a: Seq<char>, b: Seq<char>, c: Seq<char>)
    requires
        before(a, b),
        before(b, c),
    ensures
        before(a, c),
    decreases a.len(),
{
    if a.len() > 0 && a[0] == b[0] && b[0] == c[0] {
        law_order_transitive(a.skip(1), b.skip(1), c.skip(1));
    }
}

/// Whether `a` comes before `b`.
fn comes_before(a: &str, b: &str) -> (r: bool)
    ensures
        r == before(a@, b@),
{
    let x = chars_of(a);
    let y = chars_of(b);
    let mut i: usize = 0;
    assert(x@.skip(0) =~= x@ && y@.skip(0) =~= y@);
    while i < x.len() && i < y.len()
        invariant
            x@ == a@,
            y@ == b@,
            i <= x@.len(),
            i <= y@.len(),
            before(x@, y@) == before(x@.skip(i as int), y@.skip(i as int)),
        decreases x.len() - i,
    {
        let ghost s = x@.skip(i as int);
        let ghost t = y@.skip(i as int);
        assert(s.skip(1) =~= x@.skip(i + 1) && t.skip(1) =~= y@.skip(i + 1));
        if x[i] != y[i] {
            return x[i] < y[i];
        }
        i = i + 1;
    }
    i < y.len()
}

/// A set of names, each once, in alphabetical order.
pub struct NameSet {
    pub list: Vec<String>,
}

impl NameSet {
    /// The names of the set.
    pub open spec fn names(self) -> Set<Seq<char>> {
        Set::new(|n: Seq<char>| self.has(n))
    }

    /// Whether `n` is in the list.
    pub open spec fn has(self, n: Seq<char>) -> bool {
        exists|i: int| 0 <= i < self.list@.len() && (#[trigger] self.list@[i])@ == n
    }

    /// Every name comes before those behind it.
    pub open spec fn sorted(self) -> bool {
        forall|i: int, j: int|
            0 <= i < j < self.list@.len() ==> before(
                (#[trigger] self.list@[i])@,
                (#[trigger] self.list@[j])@,
            )
    }

    /// The empty set.
    pub fn new() -> (r: Self)
        ensures
            r.sorted(),
            r.names() == Set::<Seq<char>>::empty(),
            r.list@.len() == 0,
    {
        let r = NameSet { list: Vec::new() };
        assert(r.names() =~= Set::empty());
        r
    }

    /// Adds a name.
    pub fn insert(&mut self, name: String)
        requires
            old(self).sorted(),
        ensures
            final(self).sorted(),
            final(self).names() == old(self).names().insert(name@),
    {
        let ghost before_list = self.list@;
        let ghost old_self = *self;
        let mut i: usize = 0;
        while i < self.list.len() && comes_before(self.list[i].as_str(), name.as_str())
            invariant
                *self == old_self,
                i <= self.list@.len(),
                forall|k: int| 0 <= k < i ==> before((#[trigger] self.list@[k])@, name@),
            decreases self.list.len() - i,
        {
            i = i + 1;
        }
        if i < self.list.len() && !comes_before(name.as_str(), self.list[i].as_str()) {
            proof {
                law_order_total(name@, self.list@[i as int]@);
                assert(self.has(name@));
                assert(self.names() =~= old_self.names().insert(name@));
            }
            return;
        }
        let ghost n = name@;
        self.list.insert(i, name);
        proof {
            let l = self.list@;
            assert(l =~= before_list.insert(i as int, l[i as int]));
            assert forall|a: int, b: int| 0 <= a < b < l.len() implies before(
                (#[trigger] l[a])@,
                (#[trigger] l[b])@,
            ) by {
                let x = if a < i {
                    a
                } else {
                    a - 1
                };
                let y = if b < i {
                    b
                } else {
                    b - 1
                };
                if a == i {
                    assert(l[b] == before_list[b - 1]);
                    assert(before(n, before_list[i as int]@));
                    if b - 1 > i {
                        assert(before(before_list[i as int]@, before_list[b - 1]@));
                        law_order_transitive(n, before_list[i as int]@, before_list[b - 1]@);
                    }
                } else if b == i {
                    assert(l[a] == before_list[a]);
                } else {
                    assert(l[a] == before_list[x] && l[b] == before_list[y]);
                }
            }
            assert forall|m: Seq<char>| self.has(m) == (old_self.has(m) || m == n) by {
                if old_self.has(m) {
                    let k = choose|k: int|
                        0 <= k < before_list.len() && (#[trigger] before_list[k])@ == m;
                    let k2 = if k < i {
                        k
                    } else {
                        k + 1
                    };
                    assert(l[k2] == before_list[k]);
                }
                if m == n {
                    assert(l[i as int]@ == m);
                }
                if self.has(m) {
                    let k = choose|k: int| 0 <= k < l.len() && (#[trigger] l[k])@ == m;
                    if k != i {
                        let k2 = if k < i {
                            k
                        } else {
                            k - 1
                        };
                        assert(before_list[k2] == l[k]);
                    }
                }
            }
            assert(self.names() =~= old_self.names().insert(n));
        }
    }
}

} // verus!
