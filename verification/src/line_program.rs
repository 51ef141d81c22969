//! Line programs that advance the line by the least 64-bit number.
//!
//! An advance of the line below zero is run with its negation, and the least number has none. Such an
//! advance amounts to two: one by the least number but one, and one by minus one. Before a program is run
//! it is written with these in its place.
use crate::bytes;
use crate::bytes::{copy_bytes, read_u32_le, read_u64_le, u64_to_le};
use crate::dwarf;
use crate::dwarf::{ops_of, read_line_offset, Sections};
use crate::text::owned;
use vstd::prelude::*;

verus! {

/// The line after it has gone down by `n`: it stops at zero.
pub open spec fn gone_down(line: nat, n: nat) -> nat {
    if n <= line {
        (line - n) as nat
    } else {
        0
    }
}

/// Going down by the least number but one and then by one is going down by the least number.
pub proof fn law_two_advances_are_one(line: nat)
    ensures
        gone_down(gone_down(line, 0x7fff_ffff_ffff_ffff), 1) == gone_down(line, 0x8000_0000_0000_0000),
{
}

/// The advance by the least number, as it stands in a program.
pub open spec fn least_advance() -> Seq<u8> {
    seq![3u8, 0x80, 0x80, 0x80, 0x80, 0x80, 0x80, 0x80, 0x80, 0x80, 0x7f]
}

/// The two advances that amount to it, as they stand in a program.
pub open spec fn two_advances() -> Seq<u8> {
    seq![3u8, 0x81, 0x80, 0x80, 0x80, 0x80, 0x80, 0x80, 0x80, 0x80, 0x7f, 3, 0x7f]
}

/// The first instruction from `i` on that advances the line by the least number.
pub open spec fn first_least(ops: Seq<Option<i64>>, i: nat) -> Option<nat>
    decreases ops.len() - i,
{
    if i >= ops.len() {
        None
    } else if ops[i as int] == Some(i64::MIN) {
        Some(i)
    } else {
        first_least(ops, i + 1)
    }
}

/// The instructions with two advances in the place of instruction `k`.
pub open spec fn split(ops: Seq<Option<i64>>, k: nat) -> Seq<Option<i64>> {
    ops.take(k as int) + seq![Some(-0x7fff_ffff_ffff_ffffi64), Some(-1i64)] + ops.skip(k as int + 1)
}

/// How many instructions advance the line by the least number.
pub open spec fn least_count(ops: Seq<Option<i64>>) -> nat
    decreases ops.len(),
{
    if ops.len() == 0 {
        0
    } else {
        least_count(ops.drop_last()) + (if ops.last() == Some(i64::MIN) {
            1nat
        } else {
            0nat
        })
    }
}

/// The section with the length of the unit at `at` greater by two. Nothing if there is no length or no
/// greater one.
pub open spec fn lengthened(b: Seq<u8>, at: u64) -> Option<Seq<u8>> {
    match bytes::le_at(b, at as int, 4) {
        Some(n) => if n == 0xffff_ffff {
            match bytes::le_at(b, at + 4, 8) {
                Some(m) => if m + 2 <= u64::MAX {
                    Some(b.take(at + 4) + bytes::le_bytes(m + 2, 8) + b.skip(at + 12))
                } else {
                    None
                },
                None => None,
            }
        } else if n + 2 < 0xffff_fff0 {
            Some(b.take(at as int) + bytes::le_bytes(n + 2, 4) + b.skip(at + 4))
        } else {
            None
        },
        None => None,
    }
}

/// The section with two advances in the place of the one at `p`, in the unit at `at`.
pub open spec fn rewritten(b: Seq<u8>, at: u64, p: nat) -> Option<Seq<u8>> {
    if p + 11 <= b.len() && b.subrange(p as int, p as int + 11) == least_advance() {
        match lengthened(b, at) {
            Some(c) => Some(c.take(p as int) + two_advances() + c.skip(p as int + 11)),
            None => None,
        }
    } else {
        None
    }
}

/// The sections with the line table rewritten at `p`.
pub open spec fn tried(s: dwarf::SectionSeq, at: u64, p: nat) -> Option<dwarf::SectionSeq> {
    match rewritten(dwarf::contents(s, ".debug_line"@), at, p) {
        Some(b) => Some(seq![(".debug_line"@, b)] + s),
        None => None,
    }
}

/// Whether instruction `k` of the unit stands at `p`: rewriting there splits it and no other.
pub open spec fn stands_at(s: dwarf::SectionSeq, unit: u64, at: u64, k: nat, p: nat) -> bool {
    match tried(s, at, p) {
        Some(m) => dwarf::line_ops(m, unit) == split(dwarf::line_ops(s, unit), k),
        None => false,
    }
}

/// The first place from `p` on at which instruction `k` of the unit stands.
pub open spec fn place(s: dwarf::SectionSeq, unit: u64, at: u64, k: nat, p: nat) -> Option<nat>
    decreases dwarf::contents(s, ".debug_line"@).len() - p,
{
    if p >= dwarf::contents(s, ".debug_line"@).len() {
        None
    } else if stands_at(s, unit, at, k, p) {
        Some(p)
    } else {
        place(s, unit, at, k, p + 1)
    }
}

/// The sections with every advance of the unit by the least number written as two. Nothing if one of them
/// is not found.
pub open spec fn runnable(s: dwarf::SectionSeq, unit: u64) -> Option<dwarf::SectionSeq>
    decreases least_count(dwarf::line_ops(s, unit)),
    via runnable_ends
{
    match first_least(dwarf::line_ops(s, unit), 0) {
        None => Some(s),
        Some(k) => match dwarf::line_offset(s, unit) {
            None => None,
            Some(at) => match place(s, unit, at, k, 0) {
                None => None,
                Some(p) => runnable(tried(s, at, p)->0, unit),
            },
        },
    }
}

#[via_fn]
proof fn runnable_ends(s: dwarf::SectionSeq, unit: u64) {
    let ops = dwarf::line_ops(s, unit);
    lemma_first_least(ops, 0);
    if let (Some(k), Some(at)) = (first_least(ops, 0), dwarf::line_offset(s, unit)) {
        lemma_place(s, unit, at, k, 0);
        lemma_split_count(ops, k);
    }
}

proof fn lemma_first_least(ops: Seq<Option<i64>>, i: nat)
    ensures
        match first_least(ops, i) {
            Some(k) => i <= k < ops.len() && ops[k as int] == Some(i64::MIN),
            None => forall|k: int| i <= k < ops.len() ==> ops[k] != Some(i64::MIN),
        },
    decreases ops.len() - i,
{
    if i < ops.len() && ops[i as int] != Some(i64::MIN) {
        lemma_first_least(ops, i + 1);
    }
}

proof fn lemma_place(s: dwarf::SectionSeq, unit: u64, at: u64, k: nat, p: nat)
    ensures
        place(s, unit, at, k, p) matches Some(q) ==> stands_at(s, unit, at, k, q),
    decreases dwarf::contents(s, ".debug_line"@).len() - p,
{
    if p < dwarf::contents(s, ".debug_line"@).len() && !stands_at(s, unit, at, k, p) {
        lemma_place(s, unit, at, k, p + 1);
    }
}

proof fn lemma_count_sum(a: Seq<Option<i64>>, b: Seq<Option<i64>>)
    ensures
        least_count(a + b) == least_count(a) + least_count(b),
    decreases b.len(),
{
    if b.len() == 0 {
        assert(a + b =~= a);
    } else {
        lemma_count_sum(a, b.drop_last());
        assert((a + b).drop_last() =~= a + b.drop_last());
    }
}

proof fn lemma_split_count(ops: Seq<Option<i64>>, k: nat)
    requires
        k < ops.len(),
        ops[k as int] == Some(i64::MIN),
    ensures
        least_count(split(ops, k)) + 1 == least_count(ops),
{
    let two = seq![Some(-0x7fff_ffff_ffff_ffffi64), Some(-1i64)];
    let one = seq![ops[k as int]];
    let (a, b) = (ops.take(k as int), ops.skip(k as int + 1));
    lemma_count_sum(a, two);
    lemma_count_sum(a + two, b);
    lemma_count_sum(a, one);
    lemma_count_sum(a + one, b);
    assert(ops =~= a + one + b);
    assert(two.drop_last() =~= seq![two[0]]);
    assert(two.drop_last().drop_last() =~= Seq::empty());
    assert(one.drop_last() =~= Seq::empty());
    reveal_with_fuel(least_count, 3);
}

/// Once every such advance is written as two, the program can be run.
pub proof fn law_runnable_can_run(s: dwarf::SectionSeq, unit: u64)
    ensures
        runnable(s, unit) matches Some(m) ==> dwarf::can_run(dwarf::line_ops(m, unit)),
    decreases least_count(dwarf::line_ops(s, unit)),
{
    let ops = dwarf::line_ops(s, unit);
    lemma_first_least(ops, 0);
    if let (Some(k), Some(at)) = (first_least(ops, 0), dwarf::line_offset(s, unit)) {
        if let Some(p) = place(s, unit, at, k, 0) {
            lemma_place(s, unit, at, k, 0);
            lemma_split_count(ops, k);
            law_runnable_can_run(tried(s, at, p)->0, unit);
        }
    }
}

/// A program without such an advance stays as it is.
pub proof fn law_runnable_changes_no_other(s: dwarf::SectionSeq, unit: u64)
    requires
        dwarf::can_run(dwarf::line_ops(s, unit)),
    ensures
        runnable(s, unit) == Some(s),
{
    lemma_first_least(dwarf::line_ops(s, unit), 0);
}

/// The first instruction that advances the line by the least number.
pub fn find_least(ops: &[Option<i64>]) -> (r: Option<usize>)
    ensures
        first_least(ops@, 0) == (match r {
            Some(k) => Some(k as nat),
            None => None,
        }),
        r matches Some(k) ==> k < ops@.len(),
{
    let mut i: usize = 0;
    while i < ops.len()
        invariant
            i <= ops@.len(),
            first_least(ops@, 0) == first_least(ops@, i as nat),
        decreases ops.len() - i,
    {
        if let Some(n) = ops[i] {
            if n == i64::MIN {
                return Some(i);
            }
        }
        i = i + 1;
    }
    None
}

/// Whether a list of instructions is another with two advances in the place of instruction `k`.
fn is_split(a: &[Option<i64>], ops: &[Option<i64>], k: usize) -> (r: bool)
    requires
        k < ops@.len(),
    ensures
        r == (a@ == split(ops@, k as nat)),
{
    let ghost want = split(ops@, k as nat);
    if a.len() == 0 || a.len() - 1 != ops.len() {
        return false;
    }
    let mut i: usize = 0;
    while i < a.len()
        invariant
            i <= a@.len(),
            k < ops@.len(),
            a@.len() == want.len(),
            want == split(ops@, k as nat),
            forall|j: int| 0 <= j < i ==> a@[j] == want[j],
        decreases a.len() - i,
    {
        let w: Option<i64> = if i < k {
            ops[i]
        } else if i == k {
            Some(-0x7fff_ffff_ffff_ffff)
        } else if i == k + 1 {
            Some(-1)
        } else {
            ops[i - 1]
        };
        assert(w == want[i as int]);
        let same: bool = match (a[i], w) {
            (Some(x), Some(y)) => x == y,
            (None, None) => true,
            _ => false,
        };
        if !same {
            return false;
        }
        i = i + 1;
    }
    assert(a@ =~= want);
    true
}

/// Adds a part of `b`.
fn push_part(out: &mut Vec<u8>, b: &[u8], from: usize, to: usize)
    requires
        from <= to <= b@.len(),
    ensures
        final(out)@ == old(out)@ + b@.subrange(from as int, to as int),
{
    let ghost start = out@;
    let mut i: usize = from;
    while i < to
        invariant
            from <= i <= to <= b@.len(),
            out@ == start + b@.subrange(from as int, i as int),
        decreases to - i,
    {
        out.push(b[i]);
        i = i + 1;
        assert(b@.subrange(from as int, i as int) =~= b@.subrange(from as int, i - 1).push(b@[i - 1]));
    }
}

/// The bytes with `new` in the place of a part.
fn replaced(b: &[u8], from: usize, to: usize, new: &[u8]) -> (r: Vec<u8>)
    requires
        from <= to <= b@.len(),
    ensures
        r@ == b@.take(from as int) + new@ + b@.skip(to as int),
{
    let mut out: Vec<u8> = Vec::new();
    push_part(&mut out, b, 0, from);
    push_part(&mut out, new, 0, new.len());
    push_part(&mut out, b, to, b.len());
    assert(out@ =~= b@.take(from as int) + new@ + b@.skip(to as int));
    out
}

/// The section with the length of the unit at `at` greater by two.
fn lengthen(b: &[u8], at: u64) -> (r: Option<Vec<u8>>)
    ensures
        match r {
            Some(v) => lengthened(b@, at) == Some(v@),
            None => lengthened(b@, at) is None,
        },
{
    let n: u32 = read_u32_le(b, at as u128)?;
    assert(b@.len() == b.len());
    if n == 0xffff_ffff {
        let m: u64 = read_u64_le(b, at as u128 + 4)?;
        if m > u64::MAX - 2 {
            return None;
        }
        let new = u64_to_le(m + 2, 8);
        Some(replaced(b, at as usize + 4, at as usize + 12, new.as_slice()))
    } else if n < 0xffff_ffee {
        let new = u64_to_le(n as u64 + 2, 4);
        Some(replaced(b, at as usize, at as usize + 4, new.as_slice()))
    } else {
        None
    }
}

/// The section with two advances in the place of the one at `p`.
fn rewrite(b: &[u8], at: u64, p: usize) -> (r: Option<Vec<u8>>)
    requires
        p < b@.len(),
    ensures
        match r {
            Some(v) => rewritten(b@, at, p as nat) == Some(v@),
            None => rewritten(b@, at, p as nat) is None,
        },
{
    let least: [u8; 11] = [3, 0x80, 0x80, 0x80, 0x80, 0x80, 0x80, 0x80, 0x80, 0x80, 0x7f];
    let two: [u8; 13] = [3, 0x81, 0x80, 0x80, 0x80, 0x80, 0x80, 0x80, 0x80, 0x80, 0x7f, 3, 0x7f];
    assert(least@ =~= least_advance());
    assert(two@ =~= two_advances());
    let len: usize = b.len();
    if len - p < 11 {
        return None;
    }
    let mut i: usize = 0;
    while i < 11
        invariant
            i <= 11,
            len == b@.len(),
            p + 11 <= len,
            least@ == least_advance(),
            forall|j: int| 0 <= j < i ==> b@[p + j] == least_advance()[j],
        decreases 11 - i,
    {
        if b[p + i] != least[i] {
            assert(b@.subrange(p as int, p + 11)[i as int] != least_advance()[i as int]);
            return None;
        }
        i = i + 1;
    }
    assert(b@.subrange(p as int, p + 11) =~= least_advance());
    let c = lengthen(b, at)?;
    proof {
        lemma_lengthened(b@, at);
    }
    Some(replaced(c.as_slice(), p, p + 11, two.as_slice()))
}

proof fn lemma_lengthened(b: Seq<u8>, at: u64)
    ensures
        lengthened(b, at) matches Some(c) ==> c.len() == b.len(),
{
    if let Some(n) = bytes::le_at(b, at as int, 4) {
        bytes::lemma_le_bytes_len(n + 2, 4);
        if let Some(m) = bytes::le_at(b, at + 4, 8) {
            bytes::lemma_le_bytes_len(m + 2, 8);
        }
    }
}

/// The sections with another line table before them.
fn with_lines(s: &Sections, b: Vec<u8>) -> (r: Sections)
    ensures
        r@ == seq![(".debug_line"@, b@)] + s@,
{
    let ghost lines = b@;
    let mut list: Vec<(String, Vec<u8>)> = Vec::new();
    list.push((owned(".debug_line"), b));
    let mut i: usize = 0;
    while i < s.list.len()
        invariant
            i <= s.list@.len(),
            list@.len() == i + 1,
            list@[0].0@ == ".debug_line"@,
            list@[0].1@ == lines,
            forall|j: int|
                0 <= j < i ==> (#[trigger] s.list@[j]).0@ == list@[j + 1].0@ && s.list@[j].1@ == list@[j
                    + 1].1@,
        decreases s.list.len() - i,
    {
        list.push((owned(s.list[i].0.as_str()), copy_bytes(s.list[i].1.as_slice())));
        i = i + 1;
    }
    let r = Sections { list };
    assert forall|j: int| 0 <= j < r@.len() implies r@[j] == (seq![(".debug_line"@, lines)] + s@)[j] by {
        if j > 0 {
            assert(s.list@[j - 1].0@ == list@[j].0@);
        }
    }
    assert(r@ =~= seq![(".debug_line"@, lines)] + s@);
    r
}

/// The sections with instruction `k` of the unit written as two, at the first place where it stands.
fn rewrite_unit(s: &Sections, unit: u64, at: u64, ops: &[Option<i64>], k: usize) -> (r: Option<Sections>)
    requires
        ops@ == dwarf::line_ops(s@, unit),
        k < ops@.len(),
    ensures
        match r {
            Some(m) => place(s@, unit, at, k as nat, 0) matches Some(p) && tried(s@, at, p) == Some(m@),
            None => place(s@, unit, at, k as nat, 0) is None,
        },
{
    let b = s.get(".debug_line");
    let mut p: usize = 0;
    while p < b.len()
        invariant
            p <= b@.len(),
            b@ == dwarf::contents(s@, ".debug_line"@),
            ops@ == dwarf::line_ops(s@, unit),
            k < ops@.len(),
            place(s@, unit, at, k as nat, 0) == place(s@, unit, at, k as nat, p as nat),
        decreases b.len() - p,
    {
        if let Some(lines) = rewrite(b, at, p) {
            let m = with_lines(s, lines);
            let now = ops_of(&m, unit);
            if is_split(now.as_slice(), ops, k) {
                return Some(m);
            }
        }
        p = p + 1;
    }
    None
}

/// The sections with every advance of the unit by the least number written as two.
pub fn make_runnable(s: &Sections, unit: u64) -> (r: Option<Sections>)
    ensures
        match r {
            Some(m) => runnable(s@, unit) == Some(m@),
            None => runnable(s@, unit) is None,
        },
    decreases least_count(dwarf::line_ops(s@, unit)),
{
    let ops = ops_of(s, unit);
    match find_least(ops.as_slice()) {
        None => Some(s.copy()),
        Some(k) => {
            let at: u64 = read_line_offset(s, unit)?;
            let m = rewrite_unit(s, unit, at, ops.as_slice(), k)?;
            proof {
                lemma_first_least(ops@, 0);
                lemma_place(s@, unit, at, k as nat, 0);
                lemma_split_count(ops@, k as nat);
            }
            make_runnable(&m, unit)
        },
    }
}

} // verus!
