//! What holds of breakpoints and watchpoints: what is asked to set them and to take them away.
use crate::arch::Arch;
use crate::breakpoint;
use crate::breakpoint::BpSeq;
use crate::debugger;
use crate::debugger::points;
use crate::debugger::{Dbg, ThreadEntry, WpSeq};
use crate::mach;
use crate::mach::SlotEdit;
use crate::register::{Registers, WatchCondition, WatchLen};
use crate::tape::{AnsSeq, Answer, DebugSeq, Halt, Request, Rest, StopSeq};
use vstd::prelude::*;

verus! {

/// The breakpoint instruction of a program: `int3`, or `brk #0`.
pub open spec fn trap_of(arch: Arch) -> Seq<u8> {
    match arch {
        Arch::X86_64 => seq![0xccu8],
        Arch::Aarch64 => seq![0u8, 0, 0x20, 0xd4],
    }
}

/// A breakpoint on x86_64 is set by reading as many bytes as the breakpoint instruction of the program has
/// and writing that instruction there. The bytes that were read are kept, and the breakpoint is set;
/// no other breakpoint and nothing else of the session changes. Where one of both fails nothing changes.
pub proof fn law_trap_takes_the_place_of_code(d: Dbg, t: Rest, addr: usize)
    requires
        d.host == Arch::X86_64,
    ensures
        t.len() == 0 ==> points::break_set(d, t, addr).r == Err::<(), StopSeq>(
            Halt::Ask(Request::Read { addr, len: trap_of(d.arch).len() as usize }),
        ),
        t.len() > 0 ==> (t[0] matches Answer::Bytes(saved) ==> {
            let w = mach::mem_write(t.skip(1), addr, trap_of(d.arch), d.host);
            let o = points::break_set(d, t, addr);
            &&& o.t == w.1
            &&& w.0 matches Err(h) ==> o.r == Err::<(), StopSeq>(h) && o.d == d
            &&& w.0 is Ok ==> o.r is Ok && o.d == (Dbg {
                bps: d.bps.insert(addr, BpSeq { addr, enabled: true, saved, arch: d.arch }),
                ..d
            })
        }),
        t.len() > 0 && !(t[0] is Bytes) ==> points::break_set(d, t, addr).r is Err && points::break_set(
            d,
            t,
            addr,
        ).d == d,
{
}

/// A breakpoint on x86_64 is taken away by writing back the bytes that it kept, to its own address. It is
/// no longer in the table, and the process no longer stands there.
pub proof fn law_code_is_put_back(d: Dbg, t: Rest, addr: usize)
    requires
        d.host == Arch::X86_64,
        d.bps.contains_key(addr),
        d.bps[addr].enabled,
    ensures
        ({
            let b = d.bps[addr];
            let w = mach::mem_write(t, b.addr, b.saved, d.host);
            let o = points::break_removed(d, t, addr);
            &&& w.0 is Ok ==> o.r is Ok
            &&& w.0 matches Err(h) ==> o.r == Err::<(), StopSeq>(h)
            &&& o.t == w.1
            &&& o.d.bps == d.bps.remove(addr)
            &&& o.d.hw == d.hw && o.d.wps == d.wps && o.d.threads == d.threads && o.d.current == d.current
                && o.d.last == d.last
            &&& w.0 is Ok ==> o.d.at_bp != Some(addr) && (d.at_bp != Some(addr) ==> o.d.at_bp == d.at_bp)
        }),
        t.len() == 0 ==> points::break_removed(d, t, addr).r == Err::<(), StopSeq>(
            Halt::Ask(Request::Region { addr: d.bps[addr].addr as u64 }),
        ),
{
}

/// Where there is no breakpoint, taking it away asks nothing and succeeds.
pub proof fn law_nothing_to_take_away(d: Dbg, t: Rest, addr: usize)
    requires
        !d.bps.contains_key(addr),
        d.host == Arch::Aarch64 ==> forall|i: int| 0 <= i < d.hw.len() ==> d.hw[i] != Some(addr),
    ensures
        points::break_removed(d, t, addr).r is Ok,
        points::break_removed(d, t, addr).t == t,
        points::break_removed(d, t, addr).d.bps =~= d.bps,
        points::break_removed(d, t, addr).d.hw == d.hw,
{
    if d.host == Arch::Aarch64 {
        lemma_no_slot(d.hw, addr, 0);
    }
}

proof fn lemma_no_slot(hw: Seq<Option<usize>>, addr: usize, i: nat)
    requires
        forall|j: int| 0 <= j < hw.len() ==> hw[j] != Some(addr),
    ensures
        points::slot_of(hw, addr, i) is None,
    decreases hw.len() - i,
{
    if i < hw.len() {
        lemma_no_slot(hw, addr, i + 1);
    }
}

/// A slot is changed on one thread after the other, in their order, each by reading its debug registers
/// and writing them back; the first failure ends it.
pub proof fn law_every_thread_gets_the_slot(
    t: Rest,
    ts: Seq<ThreadEntry>,
    host: Arch,
    e: SlotEdit,
    i: nat,
    g: DebugSeq,
    n: DebugSeq,
)
    requires
        i < ts.len(),
        mach::edited(g, e) == Some(n),
    ensures
        points::on_all(Seq::empty(), ts, host, e, i).0 == Err::<(), StopSeq>(
            Halt::Ask(Request::GetDebug { port: ts[i as int].port }),
        ),
        t.len() == 1 && t[0] == AnsSeq::Debug(g) ==> points::on_all(t, ts, host, e, i).0 == Err::<
            (),
            StopSeq,
        >(Halt::Ask(Request::SetDebug { port: ts[i as int].port, state: n })),
        t.len() >= 2 && t[0] == AnsSeq::Debug(g) && t[1] == AnsSeq::Code(0) ==> points::on_all(
            t,
            ts,
            host,
            e,
            i,
        ) == points::on_all(t.skip(2), ts, host, e, i + 1),
        t.len() >= 2 && t[0] == AnsSeq::Debug(g) && (t[1] matches Answer::Code(c) && c != 0)
            ==> points::on_all(t, ts, host, e, i).0 matches Err(Halt::Fail(_)),
        t.len() >= 2 && t[0] == AnsSeq::Debug(g) && t[1] is Code ==> points::tried_on_all(
            t,
            ts,
            host,
            e,
            i,
        ) == points::tried_on_all(t.skip(2), ts, host, e, i + 1),
        points::on_all(t, ts, host, e, ts.len()) == (Ok::<(), StopSeq>(()), t),
        points::tried_on_all(t, ts, host, e, ts.len()) == (Ok::<(), StopSeq>(()), t),
{
    if t.len() >= 2 {
        assert(t.skip(1)[0] == t[1]);
        assert(t.skip(1).skip(1) =~= t.skip(2));
    }
}

/// A breakpoint on aarch64 takes the first free slot, of sixteen, on every thread. Without a free slot
/// nothing is asked.
pub proof fn law_slot_holds_the_breakpoint(d: Dbg, t: Rest, addr: usize, slot: usize)
    requires
        d.host == Arch::Aarch64,
        d.hw.len() == 16,
        slot <= 16,
        forall|i: int| 0 <= i < slot ==> (#[trigger] d.hw[i]) is Some,
        slot < 16 ==> d.hw[slot as int] is None,
    ensures
        slot == 16 ==> (points::break_set(d, t, addr).r matches Err(Halt::Fail(_))) && points::break_set(
            d,
            t,
            addr,
        ).d == d && points::break_set(d, t, addr).t == t,
        slot < 16 ==> ({
            let w = points::on_all(t, d.threads, Arch::Aarch64, SlotEdit::SetBreak { slot, addr }, 0);
            let o = points::break_set(d, t, addr);
            &&& w.0 is Ok ==> o.r is Ok
            &&& w.0 matches Err(h) ==> o.r == Err::<(), StopSeq>(h)
            &&& o.t == w.1
            &&& o.d.hw == d.hw.update(slot as int, Some(addr))
            &&& o.d.wps == d.wps && o.d.at_bp == d.at_bp && o.d.threads == d.threads
            &&& w.0 is Ok ==> o.d.bps == d.bps.insert(
                addr,
                BpSeq { addr, enabled: true, saved: Seq::empty(), arch: d.arch },
            )
            &&& w.0 is Err ==> o.d.bps == d.bps
        }),
{
    lemma_free(d.hw, slot, 0);
}

proof fn lemma_free(hw: Seq<Option<usize>>, slot: usize, i: nat)
    requires
        hw.len() == 16,
        i <= slot <= 16,
        forall|j: int| 0 <= j < slot ==> (#[trigger] hw[j]) is Some,
        slot < 16 ==> hw[slot as int] is None,
    ensures
        points::free_slot(hw, i) == (if slot < 16 {
            Some(slot as nat)
        } else {
            None
        }),
    decreases hw.len() - i,
{
    if i < slot {
        lemma_free(hw, slot, i + 1);
    }
}

/// A breakpoint on aarch64 is taken away by clearing its slot on every thread; the slot is free again.
pub proof fn law_slot_is_cleared(d: Dbg, t: Rest, addr: usize, slot: usize)
    requires
        d.host == Arch::Aarch64,
        d.hw.len() == 16,
        slot < 16,
        forall|i: int| 0 <= i < slot ==> #[trigger] d.hw[i] != Some(addr),
        d.hw[slot as int] == Some(addr),
    ensures
        ({
            let w = points::on_all(t, d.threads, Arch::Aarch64, SlotEdit::ClearBreak { slot }, 0);
            let o = points::break_removed(d, t, addr);
            &&& w.0 is Ok ==> o.r is Ok
            &&& w.0 matches Err(h) ==> o.r == Err::<(), StopSeq>(h)
            &&& o.t == w.1
            &&& w.0 is Err ==> o.d == d
            &&& w.0 is Ok ==> o.d.hw == d.hw.update(slot as int, None) && o.d.bps == d.bps.remove(addr)
                && o.d.at_bp == (if d.at_bp == Some(addr) {
                None
            } else {
                d.at_bp
            })
        }),
{
    lemma_slot(d.hw, addr, slot, 0);
}

proof fn lemma_slot(hw: Seq<Option<usize>>, addr: usize, slot: usize, i: nat)
    requires
        i <= slot < hw.len(),
        forall|j: int| 0 <= j < slot ==> #[trigger] hw[j] != Some(addr),
        hw[slot as int] == Some(addr),
    ensures
        points::slot_of(hw, addr, i) == Some(slot as nat),
    decreases hw.len() - i,
{
    if i < slot {
        lemma_slot(hw, addr, slot, i + 1);
    }
}

/// A watchpoint takes the first free slot, of four, on every thread; on aarch64 the memory that it watches
/// is read before, as many bytes as it watches. An address that is watched keeps its slot and nothing is
/// asked; without a free slot nothing is asked either.
pub proof fn law_watchpoint_is_placed(
    d: Dbg,
    t: Rest,
    addr: usize,
    cond: WatchCondition,
    len: WatchLen,
    slot: usize,
)
    requires
        d.wps.len() == 4,
        slot <= 4,
        forall|i: int| 0 <= i < d.wps.len() ==> (#[trigger] d.wps[i] matches Some(p) ==> p.addr != addr),
        forall|i: int| 0 <= i < slot ==> (#[trigger] d.wps[i]) is Some,
        slot < 4 ==> d.wps[slot as int] is None,
    ensures
        slot == 4 ==> (points::watch_set(d, t, addr, cond, len).r matches Err(Halt::Fail(_)))
            && points::watch_set(d, t, addr, cond, len).t == t && points::watch_set(d, t, addr, cond, len).d
            == d,
        slot < 4 && d.host == Arch::X86_64 ==> ({
            let w = points::on_all(t, d.threads, d.host, SlotEdit::SetWatch { slot, addr, cond, len }, 0);
            let o = points::watch_set(d, t, addr, cond, len);
            &&& w.0 is Ok ==> o.r == Ok::<usize, StopSeq>(slot) && o.d == (Dbg {
                wps: d.wps.update(slot as int, Some(WpSeq { addr, cond, len, prev: Seq::empty() })),
                ..d
            })
            &&& w.0 matches Err(h) ==> o.r == Err::<usize, StopSeq>(h) && o.d == d
            &&& o.t == w.1
        }),
        slot < 4 && d.host == Arch::Aarch64 && t.len() == 0 ==> points::watch_set(d, t, addr, cond, len).r
            == Err::<usize, StopSeq>(
            Halt::Ask(
                Request::Read {
                    addr,
                    len: match len {
                        WatchLen::Byte1 => 1,
                        WatchLen::Word2 => 2,
                        WatchLen::Dword4 => 4,
                        WatchLen::QWord8 => 8,
                    },
                },
            ),
        ),
        slot < 4 && d.host == Arch::Aarch64 && t.len() > 0 && t[0] is Bytes ==> ({
            let prev = breakpoint::program_bytes(d.bps, addr, t[0]->Bytes_0);
            let w = points::on_all(
                t.skip(1),
                d.threads,
                d.host,
                SlotEdit::SetWatch { slot, addr, cond, len },
                0,
            );
            let o = points::watch_set(d, t, addr, cond, len);
            &&& w.0 is Ok ==> o.r == Ok::<usize, StopSeq>(slot) && o.d == (Dbg {
                wps: d.wps.update(slot as int, Some(WpSeq { addr, cond, len, prev })),
                ..d
            })
            &&& w.0 matches Err(h) ==> o.r == Err::<usize, StopSeq>(h) && o.d == d
        }),
{
    lemma_unwatched(d.wps, addr, 0);
    lemma_watch_free(d.wps, slot, 0);
}

proof fn lemma_unwatched(w: Seq<Option<WpSeq>>, addr: usize, i: nat)
    requires
        forall|j: int| 0 <= j < w.len() ==> (#[trigger] w[j] matches Some(p) ==> p.addr != addr),
    ensures
        points::watch_at(w, addr, i) is None,
    decreases w.len() - i,
{
    if i < w.len() {
        lemma_unwatched(w, addr, i + 1);
    }
}

proof fn lemma_watch_free(w: Seq<Option<WpSeq>>, slot: usize, i: nat)
    requires
        w.len() == 4,
        i <= slot <= 4,
        forall|j: int| 0 <= j < slot ==> (#[trigger] w[j]) is Some,
        slot < 4 ==> w[slot as int] is None,
    ensures
        points::watch_free(w, i) == (if slot < 4 {
            Some(slot as nat)
        } else {
            None
        }),
    decreases w.len() - i,
{
    if i < slot {
        lemma_watch_free(w, slot, i + 1);
    }
}

/// The watchpoint of a slot is taken away by clearing the slot on every thread.
pub proof fn law_watchpoint_is_cleared(d: Dbg, t: Rest, slot: usize)
    requires
        d.wps.len() == 4,
    ensures
        slot >= 4 ==> (points::watch_removed(d, t, slot).r matches Err(Halt::Fail(_)))
            && points::watch_removed(d, t, slot).t == t,
        slot < 4 ==> ({
            let w = points::on_all(t, d.threads, d.host, SlotEdit::ClearWatch { slot }, 0);
            let o = points::watch_removed(d, t, slot);
            &&& w.0 is Ok ==> o.r is Ok
            &&& w.0 matches Err(h) ==> o.r == Err::<(), StopSeq>(h)
            &&& o.t == w.1
            &&& w.0 is Ok ==> o.d == (Dbg { wps: d.wps.update(slot as int, None), ..d })
            &&& w.0 is Err ==> o.d == d
        }),
{
}

/// Whether `code` begins with those bytes.
pub open spec fn opens(code: Seq<u8>, with: Seq<u8>) -> bool {
    with.len() <= code.len() && forall|i: int| 0 <= i < with.len() ==> #[trigger] code[i] == with[i]
}

/// On x86_64 the prologue is `push rbp` (one byte), `mov rbp, rsp` (three) and `sub rsp, N` with a short
/// (four) or a long (seven) number, as far as they follow each other from the beginning.
pub proof fn law_x86_prologue(code: Seq<u8>)
    ensures
        ({
            let n = points::prologue_len(code, Arch::X86_64);
            &&& !opens(code, seq![0x55u8]) ==> n == 0
            &&& opens(code, seq![0x55u8]) && !opens(code, seq![0x55u8, 0x48, 0x89, 0xe5]) ==> n == 1
            &&& opens(code, seq![0x55u8, 0x48, 0x89, 0xe5, 0x48, 0x83, 0xec]) ==> n == 1 + 3 + 4
            &&& opens(code, seq![0x55u8, 0x48, 0x89, 0xe5, 0x48, 0x81, 0xec]) ==> n == 1 + 3 + 7
            &&& opens(code, seq![0x55u8, 0x48, 0x89, 0xe5]) && !opens(
                code,
                seq![0x55u8, 0x48, 0x89, 0xe5, 0x48, 0x83, 0xec],
            ) && !opens(code, seq![0x55u8, 0x48, 0x89, 0xe5, 0x48, 0x81, 0xec]) ==> n == 1 + 3
        }),
{
    lemma_begins(code, 0, seq![0x55u8]);
    lemma_begins(code, 1, seq![0x48u8, 0x89, 0xe5]);
    lemma_begins(code, 4, seq![0x48u8, 0x83, 0xec]);
    lemma_begins(code, 4, seq![0x48u8, 0x81, 0xec]);
    let a = seq![0x55u8, 0x48, 0x89, 0xe5];
    let b = seq![0x55u8, 0x48, 0x89, 0xe5, 0x48, 0x83, 0xec];
    let c = seq![0x55u8, 0x48, 0x89, 0xe5, 0x48, 0x81, 0xec];
    lemma_opens(code, a);
    lemma_opens(code, b);
    lemma_opens(code, c);
    lemma_opens(code, seq![0x55u8]);
}

/// On aarch64 the prologue is `stp x29, x30, [sp, #-16]!`, `mov x29, sp` and `sub sp, sp, #N`, four bytes
/// each, as far as they follow each other from the beginning.
pub proof fn law_arm_prologue(code: Seq<u8>)
    ensures
        ({
            let n = points::prologue_len(code, Arch::Aarch64);
            let both = opens(code, seq![0xfdu8, 0x7b, 0xbf, 0xa9, 0xfd, 0x03, 0x00, 0x91]);
            &&& !opens(code, seq![0xfdu8, 0x7b, 0xbf, 0xa9]) ==> n == 0
            &&& opens(code, seq![0xfdu8, 0x7b, 0xbf, 0xa9]) && !both ==> n == 4
            &&& both && code.len() >= 12 && code[8] == 0xff && code[11] == 0xd1 ==> n == 12
            &&& both && !(code.len() >= 12 && code[8] == 0xff && code[11] == 0xd1) ==> n == 8
        }),
{
    lemma_begins(code, 0, seq![0xfdu8, 0x7b, 0xbf, 0xa9]);
    lemma_begins(code, 4, seq![0xfdu8, 0x03, 0x00, 0x91]);
    lemma_opens(code, seq![0xfdu8, 0x7b, 0xbf, 0xa9]);
    lemma_opens(code, seq![0xfdu8, 0x7b, 0xbf, 0xa9, 0xfd, 0x03, 0x00, 0x91]);
}

/// A part stands somewhere exactly if its bytes do.
proof fn lemma_begins(code: Seq<u8>, off: int, part: Seq<u8>)
    requires
        off >= 0,
    ensures
        points::begins(code, off, part) <==> off + part.len() <= code.len() && forall|i: int|
            0 <= i < part.len() ==> code[off + i] == #[trigger] part[i],
{
    if off + part.len() <= code.len() {
        let s = code.subrange(off, off + part.len());
        if s == part {
            assert forall|i: int| 0 <= i < part.len() implies code[off + i] == #[trigger] part[i] by {
                assert(s[i] == code[off + i]);
            }
        }
        if forall|i: int| 0 <= i < part.len() ==> code[off + i] == #[trigger] part[i] {
            assert(s =~= part);
        }
    }
}

proof fn lemma_opens(code: Seq<u8>, with: Seq<u8>)
    ensures
        opens(code, with) <==> with.len() <= code.len() && forall|i: int|
            0 <= i < with.len() ==> code[i] == #[trigger] with[i],
{
}

/// The prologue of a function is looked for in the sixteen bytes at its address, and a breakpoint at the
/// function goes behind it; where memory cannot be read, to the function itself.
pub proof fn law_breakpoints_go_behind_the_prologue(d: Dbg, t: Rest, addr: usize)
    ensures
        t.len() == 0 ==> points::behind_prologue(d, t, addr).0 == Err::<usize, StopSeq>(
            Halt::Ask(Request::Read { addr, len: 16 }),
        ),
        t.len() > 0 ==> (t[0] matches Answer::Bytes(raw) ==> points::behind_prologue(d, t, addr) == (
            Ok::<usize, StopSeq>(
                addr.wrapping_add(
                    points::prologue_len(breakpoint::program_bytes(d.bps, addr, raw), d.host),
                ),
            ),
            t.skip(1),
        )),
        t.len() > 0 && t[0] is Failed ==> points::behind_prologue(d, t, addr).0 == Ok::<usize, StopSeq>(addr),
{
}

/// The registers, the program counter and the memory of a session are those of the current thread and of
/// the program: reading memory hides the traps.
pub proof fn law_session_reads_the_current_thread(d: Dbg, t: Rest, addr: usize, len: usize)
    requires
        len > 0,
    ensures
        d.current < d.threads.len() && t.len() == 0 ==> debugger::regs_of(d, t).0 == Err::<Registers, StopSeq>(
            Halt::Ask(Request::GetRegisters { port: d.threads[d.current as int].port }),
        ) && debugger::pc_of(d, t).0 == Err::<u64, StopSeq>(
            Halt::Ask(Request::GetRegisters { port: d.threads[d.current as int].port }),
        ),
        d.current >= d.threads.len() ==> (debugger::regs_of(d, t).0 matches Err(Halt::Fail(_)))
            && debugger::regs_of(d, t).1 == t,
        t.len() == 0 ==> debugger::mem_of(d, t, addr, len).0 == Err::<Seq<u8>, StopSeq>(
            Halt::Ask(Request::Read { addr, len }),
        ) && debugger::mem_or_empty(d, t, addr, len).0 == Err::<Seq<u8>, StopSeq>(
            Halt::Ask(Request::Read { addr, len }),
        ),
        t.len() > 0 ==> (t[0] matches Answer::Bytes(raw) ==> debugger::mem_of(d, t, addr, len) == (
            Ok::<Seq<u8>, StopSeq>(breakpoint::program_bytes(d.bps, addr, raw)),
            t.skip(1),
        ) && debugger::mem_or_empty(d, t, addr, len) == (
            Ok::<Seq<u8>, StopSeq>(breakpoint::program_bytes(d.bps, addr, raw)),
            t.skip(1),
        )),
        t.len() > 0 && t[0] is Failed ==> debugger::mem_of(d, t, addr, len).0 is Err
            && debugger::mem_or_empty(d, t, addr, len).0 == Ok::<Seq<u8>, StopSeq>(Seq::empty()),
{
}

/// Where no breakpoint is set, reading memory gives what it holds.
pub proof fn law_nothing_to_hide(bps: Map<usize, BpSeq>, addr: usize, raw: Seq<u8>)
    requires
        forall|k: usize| #[trigger] bps.contains_key(k) ==> !bps[k].enabled,
    ensures
        breakpoint::program_bytes(bps, addr, raw) == raw,
{
    assert forall|i: int| 0 <= i < raw.len() implies breakpoint::program_byte(bps, addr + i, raw[i])
        == raw[i] by {
        let a: int = addr + i;
        assert forall|k: usize| !(#[trigger] breakpoint::shows(bps, k, a)) by {
            assert(bps.contains_key(k) ==> !breakpoint::covers(bps[k], k, a));
        }
    }
    assert(breakpoint::program_bytes(bps, addr, raw) =~= raw);
}

/// A breakpoint that is set is not set again, and one that is not set is not taken away.
pub proof fn law_set_once(b: BpSeq, t: Rest, host: Arch)
    ensures
        b.enabled ==> breakpoint::armed(b, t, host) == (Ok::<(), StopSeq>(()), t, b),
        !b.enabled ==> breakpoint::disarmed(b, t, host) == (Ok::<(), StopSeq>(()), t, b),
{
}

/// The slots that hold a watchpoint are listed with it, in their order, and no others.
pub proof fn law_used_slots(w: Seq<Option<WpSeq>>, i: nat)
    requires
        i < w.len(),
    ensures
        w[i as int] is None ==> debugger::used_slots(w, i) == debugger::used_slots(w, i + 1),
        w[i as int] matches Some(p) ==> debugger::used_slots(w, i) == seq![(i as usize, p)]
            + debugger::used_slots(w, i + 1),
        debugger::used_slots(w, w.len()).len() == 0,
{
    let r = debugger::used_slots(w, i + 1);
    assert(Seq::<(usize, WpSeq)>::empty() + r =~= r);
}

/// An address that is watched keeps its slot, and nothing is asked.
pub proof fn law_watched_address_keeps_its_slot(
    d: Dbg,
    t: Rest,
    addr: usize,
    cond: WatchCondition,
    len: WatchLen,
    slot: usize,
)
    requires
        slot < d.wps.len(),
        d.wps[slot as int] matches Some(p) && p.addr == addr,
        forall|i: int| 0 <= i < slot ==> (#[trigger] d.wps[i] matches Some(p) ==> p.addr != addr),
    ensures
        points::watch_set(d, t, addr, cond, len) == debugger::out(Ok::<usize, StopSeq>(slot), t, d),
{
    lemma_watched(d.wps, addr, slot, 0);
}

proof fn lemma_watched(w: Seq<Option<WpSeq>>, addr: usize, slot: usize, i: nat)
    requires
        i <= slot < w.len(),
        w[slot as int] matches Some(p) && p.addr == addr,
        forall|j: int| 0 <= j < slot ==> (#[trigger] w[j] matches Some(p) ==> p.addr != addr),
    ensures
        points::watch_at(w, addr, i) == Some(slot as nat),
    decreases w.len() - i,
{
    if i < slot {
        assert(w[i as int] matches Some(p) ==> p.addr != addr);
        lemma_watched(w, addr, slot, i + 1);
    }
}

} // verus!
