//! Breakpoints: trap instructions in the code, or slots of the debug registers.
use crate::addr_map;
use crate::addr_map::AddrMap;
use crate::arch::Arch;
use crate::mach;
use crate::bytes::copy_bytes;
use crate::mach::{read_memory, write_memory};
use crate::tape;
use crate::tape::{Rest, Stop, StopSeq, Tape};
use vstd::prelude::*;

verus! {

/// A breakpoint.
#[derive(Debug, Clone)]
pub struct Breakpoint {
    pub addr: usize,
    pub enabled: bool,
    /// The bytes that the trap instruction stands in place of; none for a breakpoint of the debug
    /// registers.
    pub saved_bytes: Vec<u8>,
    pub arch: Arch,
}

/// A breakpoint with its bytes as a sequence.
#[verifier::ext_equal]
pub struct BpSeq {
    pub addr: usize,
    pub enabled: bool,
    pub saved: Seq<u8>,
    pub arch: Arch,
}

/// A breakpoint that is not set yet.
pub open spec fn fresh(addr: usize, arch: Arch) -> BpSeq {
    BpSeq { addr, enabled: false, saved: Seq::empty(), arch }
}

/// What an operation on a breakpoint came to.
pub type Armed = (Result<(), StopSeq>, Rest, BpSeq);

/// Saves the bytes at the address and writes the trap instruction there. An enabled breakpoint stays as
/// it is.
pub open spec fn armed(b: BpSeq, t: Rest, host: Arch) -> Armed {
    if b.enabled {
        (Ok(()), t, b)
    } else {
        match mach::mem_read(t, b.addr, b.arch.trap().len() as usize) {
            (Err(h), u) => (Err(h), u, b),
            (Ok(saved), u) => {
                let c = BpSeq { saved, ..b };
                match mach::mem_write(u, b.addr, b.arch.trap(), host) {
                    (Err(h), v) => (Err(h), v, c),
                    (Ok(_), v) => (Ok(()), v, BpSeq { enabled: true, ..c }),
                }
            },
        }
    }
}

/// Writes the saved bytes back. A breakpoint that is not enabled stays as it is.
pub open spec fn disarmed(b: BpSeq, t: Rest, host: Arch) -> Armed {
    if !b.enabled {
        (Ok(()), t, b)
    } else {
        match mach::mem_write(t, b.addr, b.saved, host) {
            (Err(h), u) => (Err(h), u, b),
            (Ok(_), u) => (Ok(()), u, BpSeq { enabled: false, ..b }),
        }
    }
}

impl Breakpoint {
    /// The breakpoint with its bytes as a sequence.
    pub open spec fn seq(self) -> BpSeq {
        BpSeq { addr: self.addr, enabled: self.enabled, saved: self.saved_bytes@, arch: self.arch }
    }

    /// A breakpoint that is not set yet.
    pub fn new(addr: usize, arch: Arch) -> (r: Self)
        ensures
            r.seq() == fresh(addr, arch),
    {
        let r = Breakpoint { addr, enabled: false, saved_bytes: Vec::new(), arch };
        assert(r.seq() =~= fresh(addr, arch));
        r
    }

    /// A breakpoint of the debug registers, which needs no change of the code.
    pub fn new_hw_enabled(addr: usize, arch: Arch) -> (r: Self)
        ensures
            r.seq() == (BpSeq { enabled: true, ..fresh(addr, arch) }),
    {
        let r = Breakpoint { addr, enabled: true, saved_bytes: Vec::new(), arch };
        assert(r.seq() =~= BpSeq { enabled: true, ..fresh(addr, arch) });
        r
    }

    /// The address.
    pub fn addr(&self) -> (r: usize)
        ensures
            r == self.seq().addr,
    {
        self.addr
    }

    /// Whether it is set.
    pub fn is_enabled(&self) -> (r: bool)
        ensures
            r == self.seq().enabled,
    {
        self.enabled
    }

    /// The bytes that the trap instruction stands in place of.
    pub fn saved_bytes(&self) -> (r: &[u8])
        ensures
            r@ == self.seq().saved,
    {
        self.saved_bytes.as_slice()
    }

    /// Saves the bytes at the address and writes the trap instruction there.
    pub fn enable(&mut self, io: &mut Tape, host: Arch) -> (r: Result<(), Stop>)
        ensures
            (tape::step(r), final(io)@, final(self).seq()) == armed(old(self).seq(), old(io)@, host),
    {
        if self.enabled {
            return Ok(());
        }
        self.saved_bytes = read_memory(io, self.addr, self.arch.bp_size())?;
        let trap = self.arch.bp_bytes();
        write_memory(io, self.addr, trap.as_slice(), host)?;
        self.enabled = true;
        Ok(())
    }

    /// Writes the saved bytes back.
    pub fn disable(&mut self, io: &mut Tape, host: Arch) -> (r: Result<(), Stop>)
        ensures
            (tape::step(r), final(io)@, final(self).seq()) == disarmed(old(self).seq(), old(io)@, host),
    {
        if !self.enabled {
            return Ok(());
        }
        let saved = copy_bytes(self.saved_bytes.as_slice());
        write_memory(io, self.addr, saved.as_slice(), host)?;
        self.enabled = false;
        Ok(())
    }

    /// Sets the breakpoint again after it was passed.
    pub fn re_enable(&mut self, io: &mut Tape, host: Arch) -> (r: Result<(), Stop>)
        ensures
            (tape::step(r), final(io)@, final(self).seq()) == armed(old(self).seq(), old(io)@, host),
    {
        if !self.enabled {
            self.enable(io, host)?;
        }
        Ok(())
    }
}

/// Whether the trap of an enabled breakpoint stands at the address `a`.
pub open spec fn covers(b: BpSeq, at: usize, a: int) -> bool {
    b.enabled && at <= a < at + b.saved.len()
}

/// Whether a breakpoint of the table is the one whose trap shows at the address `a`: of those whose
/// bytes reach it the one with the highest address.
pub open spec fn shows(bps: Map<usize, BpSeq>, k: usize, a: int) -> bool {
    &&& bps.contains_key(k)
    &&& covers(bps[k], k, a)
    &&& forall|j: usize| bps.contains_key(j) && #[trigger] covers(bps[j], j, a) ==> j <= k
}

/// The byte of the program at `a`, where memory holds `raw`: the saved byte where a trap stands.
pub open spec fn program_byte(bps: Map<usize, BpSeq>, a: int, raw: u8) -> u8 {
    if exists|k: usize| shows(bps, k, a) {
        let k = choose|k: usize| shows(bps, k, a);
        bps[k].saved[a - k]
    } else {
        raw
    }
}

/// The bytes of the program from `addr` on, where memory holds `raw`.
pub open spec fn program_bytes(bps: Map<usize, BpSeq>, addr: usize, raw: Seq<u8>) -> Seq<u8> {
    Seq::new(raw.len(), |i: int| program_byte(bps, addr + i, raw[i]))
}

/// The table with its bytes as sequences.
pub open spec fn table(m: Map<usize, Breakpoint>) -> Map<usize, BpSeq> {
    m.map_values(|b: Breakpoint| b.seq())
}

/// What the breakpoints at the first `n` addresses make of the byte at `a`.
spec fn byte_after(bps: Map<usize, BpSeq>, ks: Seq<usize>, n: int, a: int, raw: u8) -> u8
    decreases n,
{
    if n <= 0 {
        raw
    } else {
        let k = ks[n - 1];
        if covers(bps[k], k, a) {
            bps[k].saved[a - k]
        } else {
            byte_after(bps, ks, n - 1, a, raw)
        }
    }
}

proof fn lemma_byte_after(bps: Map<usize, BpSeq>, ks: Seq<usize>, n: int, a: int, raw: u8)
    requires
        addr_map::is_key_list(ks, bps.dom()),
        0 <= n <= ks.len(),
        forall|j: int| n <= j < ks.len() ==> !covers(bps[#[trigger] ks[j]], ks[j], a),
    ensures
        byte_after(bps, ks, n, a, raw) == program_byte(bps, a, raw),
    decreases n,
{
    if n == 0 {
        if exists|k: usize| shows(bps, k, a) {
            let k = choose|k: usize| shows(bps, k, a);
            assert(ks.contains(k));
            let j = choose|j: int| 0 <= j < ks.len() && ks[j] == k;
            assert(!covers(bps[ks[j]], ks[j], a));
        }
    } else {
        let k = ks[n - 1];
        assert(ks.contains(k));
        if covers(bps[k], k, a) {
            assert forall|j: usize| bps.contains_key(j) && #[trigger] covers(bps[j], j, a) implies j <= k by {
                assert(ks.contains(j));
                let i = choose|i: int| 0 <= i < ks.len() && ks[i] == j;
                if i >= n {
                    assert(!covers(bps[ks[i]], ks[i], a));
                }
            }
            assert(shows(bps, k, a));
            let c = choose|c: usize| shows(bps, c, a);
            assert(covers(bps[k], k, a) && covers(bps[c], c, a));
            assert(c == k);
        } else {
            lemma_byte_after(bps, ks, n - 1, a, raw);
        }
    }
}

/// Puts the saved bytes of a breakpoint at `at` in place of its trap.
fn hide_trap(b: &Breakpoint, at: usize, addr: usize, buf: &mut Vec<u8>)
    ensures
        final(buf)@ == Seq::new(
            old(buf)@.len(),
            |p: int|
                if covers(b.seq(), at, addr + p) {
                    b.saved_bytes@[addr + p - at]
                } else {
                    old(buf)@[p]
                },
        ),
{
    let ghost before = buf@;
    let n: usize = buf.len();
    if b.enabled {
        let mut j: usize = 0;
        while j < b.saved_bytes.len()
            invariant
                j <= b.saved_bytes@.len(),
                b.enabled,
                buf@.len() == n,
                before.len() == n,
                forall|p: int|
                    0 <= p < n ==> #[trigger] buf@[p] == (if at <= addr + p < at + j {
                        b.saved_bytes@[addr + p - at]
                    } else {
                        before[p]
                    }),
            decreases b.saved_bytes.len() - j,
        {
            let place: u128 = at as u128 + j as u128;
            if place >= addr as u128 && place - (addr as u128) < n as u128 {
                let p: usize = (place - addr as u128) as usize;
                buf.set(p, b.saved_bytes[j]);
            }
            j = j + 1;
        }
    }
}

/// Puts the saved bytes in place of the traps of what was read from `addr` on.
pub fn hide_traps(m: &AddrMap<Breakpoint>, addr: usize, buf: &mut Vec<u8>)
    ensures
        final(buf)@ == program_bytes(table(m@), addr, old(buf)@),
{
    let ghost raw = buf@;
    let ghost bps = table(m@);
    let ks = m.keys();
    assert(bps.dom() =~= m@.dom());
    let mut i: usize = 0;
    while i < ks.len()
        invariant
            i <= ks@.len(),
            bps == table(m@),
            addr_map::is_key_list(ks@, bps.dom()),
            buf@.len() == raw.len(),
            forall|p: int|
                0 <= p < raw.len() ==> #[trigger] buf@[p] == byte_after(
                    bps,
                    ks@,
                    i as int,
                    addr + p,
                    raw[p],
                ),
        decreases ks.len() - i,
    {
        assert(ks@.contains(ks@[i as int]));
        if let Some(b) = m.get(ks[i]) {
            hide_trap(b, ks[i], addr, buf);
        }
        i = i + 1;
    }
    proof {
        assert forall|p: int| 0 <= p < raw.len() implies buf@[p] == program_bytes(bps, addr, raw)[p] by {
            lemma_byte_after(bps, ks@, ks@.len() as int, addr + p, raw[p]);
        }
        assert(buf@ =~= program_bytes(bps, addr, raw));
    }
}

/// Reading hides the traps: where memory holds the program but for the traps of enabled breakpoints,
/// and each of them saved the bytes that were there, reading gives the program.
pub proof fn law_reading_hides_traps(
    bps: Map<usize, BpSeq>,
    addr: usize,
    raw: Seq<u8>,
    program: spec_fn(int) -> u8,
)
    requires
        forall|k: usize, a: int| bps.contains_key(k) && #[trigger] covers(bps[k], k, a) ==> bps[k].saved[a
            - k] == program(a),
        forall|i: int|
            0 <= i < raw.len() && !(exists|k: usize|
                bps.contains_key(k) && #[trigger] covers(bps[k], k, addr + i)) ==> #[trigger] raw[i]
                == program(addr + i),
        bps.dom().finite(),
    ensures
        forall|i: int| 0 <= i < raw.len() ==> #[trigger] program_bytes(bps, addr, raw)[i] == program(
            addr + i,
        ),
{
    assert forall|i: int| 0 <= i < raw.len() implies #[trigger] program_bytes(bps, addr, raw)[i]
        == program(addr + i) by {
        let a = addr + i;
        if exists|k: usize| bps.contains_key(k) && #[trigger] covers(bps[k], k, a) {
            let d = bps.dom().filter(|k: usize| covers(bps[k], k, a));
            bps.dom().lemma_len_filter(|k: usize| covers(bps[k], k, a));
            let w = choose|k: usize| bps.contains_key(k) && #[trigger] covers(bps[k], k, a);
            assert(d.contains(w));
            let m = lemma_highest(d);
            assert forall|j: usize| bps.contains_key(j) && #[trigger] covers(bps[j], j, a) implies j <= m by {
                assert(d.contains(j));
            }
            assert(shows(bps, m, a));
            let c = choose|c: usize| shows(bps, c, a);
            assert(covers(bps[c], c, a));
        } else {
            assert(raw[i] == program(a));
        }
    }
}

proof fn lemma_highest(d: Set<usize>) -> (m: usize)
    requires
        d.finite(),
        d.len() > 0,
    ensures
        d.contains(m),
        forall|k: usize| d.contains(k) ==> k <= m,
    decreases d.len(),
{
    let x = d.choose();
    let e = d.remove(x);
    if e.len() == 0 {
        assert(forall|k: usize| d.contains(k) ==> k == x) by {
            assert forall|k: usize| d.contains(k) implies k == x by {
                if k != x {
                    assert(e.contains(k));
                }
            }
        }
        x
    } else {
        let y = lemma_highest(e);
        assert forall|k: usize| d.contains(k) implies k <= (if x < y {
            y
        } else {
            x
        }) by {
            if k != x {
                assert(e.contains(k));
            }
        }
        if x < y {
            y
        } else {
            x
        }
    }
}

/// Setting a breakpoint and taking it away again writes back exactly the bytes that were read.
pub proof fn law_disarm_restores(b: BpSeq, t: Rest, host: Arch)
    requires
        !b.enabled,
        armed(b, t, host).0 is Ok,
    ensures
        ({
            let (_, u, c) = armed(b, t, host);
            let read = mach::mem_read(t, b.addr, b.arch.trap().len() as usize).0->Ok_0;
            &&& c.enabled && c.addr == b.addr && c.saved == read
            &&& disarmed(c, u, host).0 == mach::mem_write(u, b.addr, read, host).0
            &&& disarmed(c, u, host).1 == mach::mem_write(u, b.addr, read, host).1
        }),
{
}

} // verus!
