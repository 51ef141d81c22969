//! Integers as byte sequences.
use vstd::prelude::*;

verus! {

/// `256` to the power `n`.
pub open spec fn pow256(n: nat) -> nat
    decreases n,
{
    if n == 0 {
        1
    } else {
        256 * pow256((n - 1) as nat)
    }
}

/// The number that `s` spells with its least significant byte first.
pub open spec fn le(s: Seq<u8>) -> nat
    decreases s.len(),
{
    if s.len() == 0 {
        0
    } else {
        s[0] as nat + 256 * le(s.skip(1))
    }
}

/// The number that `s` spells with its most significant byte first.
pub open spec fn be(s: Seq<u8>) -> nat
    decreases s.len(),
{
    if s.len() == 0 {
        0
    } else {
        256 * be(s.drop_last()) + s.last() as nat
    }
}

/// The `n` low bytes of `v`, the least significant first.
pub open spec fn le_bytes(v: nat, n: nat) -> Seq<u8>
    decreases n,
{
    if n == 0 {
        Seq::empty()
    } else {
        seq![(v % 256) as u8] + le_bytes(v / 256, (n - 1) as nat)
    }
}

/// A little-endian number of `n` bytes is below `256` to the power `n`.
pub proof fn lemma_le_bound(s: Seq<u8>)
    ensures
        le(s) < pow256(s.len()),
    decreases s.len(),
{
    if s.len() > 0 {
        lemma_le_bound(s.skip(1));
    }
}

/// A big-endian number of `n` bytes is below `256` to the power `n`.
pub proof fn lemma_be_bound(s: Seq<u8>)
    ensures
        be(s) < pow256(s.len()),
    decreases s.len(),
{
    if s.len() > 0 {
        lemma_be_bound(s.drop_last());
    }
}

/// The powers of `256` that fit the machine's integers.
pub proof fn lemma_pow256_values()
    ensures
        pow256(0) == 1,
        pow256(1) == 0x100,
        pow256(2) == 0x1_0000,
        pow256(3) == 0x100_0000,
        pow256(4) == 0x1_0000_0000,
        pow256(5) == 0x100_0000_0000,
        pow256(6) == 0x1_0000_0000_0000,
        pow256(7) == 0x100_0000_0000_0000,
        pow256(8) == 0x1_0000_0000_0000_0000,
{
    reveal_with_fuel(pow256, 9);
}

proof fn lemma_pow256_monotonic(m: nat, n: nat)
    requires
        m <= n,
    ensures
        pow256(m) <= pow256(n),
        1 <= pow256(m),
    decreases n,
{
    if m < n {
        lemma_pow256_monotonic(m, (n - 1) as nat);
    } else if m > 0 {
        lemma_pow256_monotonic((m - 1) as nat, (n - 1) as nat);
    }
}

/// Writing `n` bytes gives a sequence of length `n`.
pub proof fn lemma_le_bytes_len(v: nat, n: nat)
    ensures
        le_bytes(v, n).len() == n,
    decreases n,
{
    if n > 0 {
        lemma_le_bytes_len(v / 256, (n - 1) as nat);
    }
}

/// Reading back the bytes of `v` gives `v` again, as long as they can hold it.
pub proof fn lemma_le_of_le_bytes(v: nat, n: nat)
    requires
        v < pow256(n),
    ensures
        le(le_bytes(v, n)) == v,
    decreases n,
{
    if n > 0 {
        lemma_le_of_le_bytes(v / 256, (n - 1) as nat);
        lemma_le_bytes_len(v / 256, (n - 1) as nat);
        let s = le_bytes(v, n);
        assert(s.skip(1) =~= le_bytes(v / 256, (n - 1) as nat));
    }
}

/// Writing the number that `s` spells gives `s` again.
pub proof fn lemma_le_bytes_of_le(s: Seq<u8>)
    ensures
        le_bytes(le(s), s.len()) == s,
    decreases s.len(),
{
    if s.len() > 0 {
        lemma_le_bytes_of_le(s.skip(1));
        let v = le(s);
        assert(v % 256 == s[0] as nat && v / 256 == le(s.skip(1)));
        assert(seq![s[0]] + s.skip(1) =~= s);
    } else {
        assert(s =~= Seq::empty());
    }
}

/// The little-endian number of at most eight bytes.
pub fn le_u64(s: &[u8]) -> (v: u64)
    requires
        s@.len() <= 8,
    ensures
        v == le(s@),
{
    let mut v: u64 = 0;
    let mut i: usize = s.len();
    assert(s@.skip(i as int) =~= Seq::empty());
    while i > 0
        invariant
            i <= s.len() <= 8,
            v == le(s@.skip(i as int)),
        decreases i,
    {
        proof {
            let t = s@.skip(i as int);
            lemma_le_bound(t);
            lemma_pow256_values();
            lemma_pow256_monotonic(t.len(), 7);
            assert(s@.skip(i - 1).skip(1) =~= t);
        }
        i = i - 1;
        v = v * 256 + s[i] as u64;
    }
    assert(s@.skip(0) =~= s@);
    v
}

/// The big-endian number of at most eight bytes.
pub fn be_u64(s: &[u8]) -> (v: u64)
    requires
        s@.len() <= 8,
    ensures
        v == be(s@),
{
    let mut v: u64 = 0;
    let mut i: usize = 0;
    assert(s@.take(0) =~= Seq::empty());
    while i < s.len()
        invariant
            i <= s.len() <= 8,
            v == be(s@.take(i as int)),
        decreases s.len() - i,
    {
        proof {
            let t = s@.take(i as int);
            lemma_be_bound(t);
            lemma_pow256_values();
            lemma_pow256_monotonic(t.len(), 7);
            assert(s@.take(i + 1).drop_last() =~= t);
        }
        v = v * 256 + s[i] as u64;
        i = i + 1;
    }
    assert(s@.take(s@.len() as int) =~= s@);
    v
}

/// The `n` low bytes of `v`, the least significant first.
pub fn u64_to_le(v: u64, n: usize) -> (r: Vec<u8>)
    ensures
        r@ == le_bytes(v as nat, n as nat),
{
    let mut r: Vec<u8> = Vec::new();
    let mut rest: u64 = v;
    let mut i: usize = 0;
    while i < n
        invariant
            i <= n,
            r@ + le_bytes(rest as nat, (n - i) as nat) == le_bytes(v as nat, n as nat),
        decreases n - i,
    {
        let ghost before = r@;
        r.push((rest % 256) as u8);
        proof {
            let tail = le_bytes((rest / 256) as nat, (n - i - 1) as nat);
            assert(r@ + tail =~= before + (seq![(rest % 256) as u8] + tail));
        }
        rest = rest / 256;
        i = i + 1;
    }
    assert(r@ + le_bytes(rest as nat, 0) =~= r@);
    r
}

/// What `data` holds in the `len` bytes at `off`, if it reaches that far.
pub open spec fn slice_at(data: Seq<u8>, off: int, len: int) -> Option<Seq<u8>> {
    if 0 <= off && 0 <= len && off + len <= data.len() {
        Some(data.subrange(off, off + len))
    } else {
        None
    }
}

/// The little-endian number in the `len` bytes at `off`, if `data` reaches that far.
pub open spec fn le_at(data: Seq<u8>, off: int, len: int) -> Option<nat> {
    match slice_at(data, off, len) {
        Some(s) => Some(le(s)),
        None => None,
    }
}

/// The big-endian number in the `len` bytes at `off`, if `data` reaches that far.
pub open spec fn be_at(data: Seq<u8>, off: int, len: int) -> Option<nat> {
    match slice_at(data, off, len) {
        Some(s) => Some(be(s)),
        None => None,
    }
}

/// The `len` bytes at `off`, if `data` reaches that far. Offsets into a file are as wide as any sum
/// of the 64-bit fields that they are computed from.
pub fn get_slice(data: &[u8], off: u128, len: u128) -> (r: Option<&[u8]>)
    ensures
        match r {
            Some(s) => slice_at(data@, off as int, len as int) == Some(s@),
            None => slice_at(data@, off as int, len as int) is None,
        },
{
    let n: u128 = data.len() as u128;
    if off <= n && len <= n - off {
        Some(vstd::slice::slice_subrange(data, off as usize, (off + len) as usize))
    } else {
        None
    }
}

/// The little-endian 32-bit number at `off`.
pub fn read_u32_le(data: &[u8], off: u128) -> (r: Option<u32>)
    ensures
        match r {
            Some(v) => le_at(data@, off as int, 4) == Some(v as nat),
            None => le_at(data@, off as int, 4) is None,
        },
{
    match get_slice(data, off, 4) {
        Some(s) => {
            proof {
                lemma_le_bound(s@);
                lemma_pow256_values();
            }
            Some(le_u64(s) as u32)
        },
        None => None,
    }
}

/// The little-endian 64-bit number at `off`.
pub fn read_u64_le(data: &[u8], off: u128) -> (r: Option<u64>)
    ensures
        match r {
            Some(v) => le_at(data@, off as int, 8) == Some(v as nat),
            None => le_at(data@, off as int, 8) is None,
        },
{
    match get_slice(data, off, 8) {
        Some(s) => Some(le_u64(s)),
        None => None,
    }
}

/// The big-endian 32-bit number at `off`.
pub fn read_u32_be(data: &[u8], off: u128) -> (r: Option<u32>)
    ensures
        match r {
            Some(v) => be_at(data@, off as int, 4) == Some(v as nat),
            None => be_at(data@, off as int, 4) is None,
        },
{
    match get_slice(data, off, 4) {
        Some(s) => {
            proof {
                lemma_be_bound(s@);
                lemma_pow256_values();
            }
            Some(be_u64(s) as u32)
        },
        None => None,
    }
}

/// The big-endian 64-bit number at `off`.
pub fn read_u64_be(data: &[u8], off: u128) -> (r: Option<u64>)
    ensures
        match r {
            Some(v) => be_at(data@, off as int, 8) == Some(v as nat),
            None => be_at(data@, off as int, 8) is None,
        },
{
    match get_slice(data, off, 8) {
        Some(s) => Some(be_u64(s)),
        None => None,
    }
}

/// Whether `data` begins with `prefix`.
pub fn starts_with(data: &[u8], prefix: &[u8]) -> (r: bool)
    ensures
        r == prefix@.is_prefix_of(data@),
{
    if data.len() < prefix.len() {
        return false;
    }
    let mut i: usize = 0;
    while i < prefix.len()
        invariant
            i <= prefix@.len() <= data@.len(),
            forall|j: int| 0 <= j < i ==> data@[j] == prefix@[j],
        decreases prefix.len() - i,
    {
        if data[i] != prefix[i] {
            assert(data@.take(prefix@.len() as int)[i as int] == data@[i as int]);
            return false;
        }
        i = i + 1;
    }
    assert(prefix@ =~= data@.take(prefix@.len() as int));
    true
}

/// A copy of bytes.
pub fn copy_bytes(b: &[u8]) -> (r: Vec<u8>)
    ensures
        r@ == b@,
{
    let mut v: Vec<u8> = Vec::new();
    let mut i: usize = 0;
    while i < b.len()
        invariant
            i <= b@.len(),
            v@ == b@.take(i as int),
        decreases b.len() - i,
    {
        v.push(b[i]);
        i = i + 1;
        assert(b@.take(i as int) =~= b@.take(i - 1).push(b@[i - 1]));
    }
    assert(b@.take(i as int) =~= b@);
    v
}

} // verus!
