//! What holds of stepping, finishing and beginning: where the process is made to stop, by which requests,
//! and what is made of the stop.
use crate::arch::Arch;
use crate::breakpoint;
use crate::bytes;
use crate::debugger;
use crate::debugger::dialogue;
use crate::debugger::points;
use crate::debugger::run;
use crate::debugger::threads;
use crate::debugger::{Dbg, Out, WaitStatus, WpSeq};
use crate::disasm;
use crate::mach;
use crate::mach::SlotEdit;
use crate::register::x86_64::X86DebugState64;
use crate::register::{aarch64, x86_64, Registers};
use crate::tape::{AnsSeq, DebugSeq, Halt, Request, Rest, StopSeq};
use vstd::prelude::*;

verus! {

/// The program counter among the registers.
pub open spec fn counter(regs: Registers) -> u64 {
    match regs {
        Registers::X86(g) => g.__rip,
        Registers::Arm(g) => g.__pc,
    }
}

/// The registers with another program counter.
pub open spec fn moved(regs: Registers, pc: u64) -> Registers {
    match regs {
        Registers::X86(g) => Registers::X86(x86_64::ThreadState64 { __rip: pc, ..g }),
        Registers::Arm(g) => Registers::Arm(aarch64::ThreadState64 { __pc: pc, ..g }),
    }
}

/// The address of the breakpoint that a thread with that program counter has hit, if it has: the byte
/// before it in a program for x86_64, where the trap has been executed, else the program counter itself.
pub open spec fn hit_at(arch: Arch, pc: u64) -> usize {
    match arch {
        Arch::X86_64 => (pc as usize).wrapping_sub(1),
        Arch::Aarch64 => (pc as usize).wrapping_sub(0),
    }
}

/// After a trap the registers of every thread are read. One that has hit a breakpoint that is set is moved
/// back to its address; the first such thread counts.
pub proof fn law_threads_are_moved_back(
    d: Dbg,
    t: Rest,
    i: nat,
    hit: Option<(usize, usize)>,
    regs: Registers,
)
    requires
        i < d.threads.len(),
        t.len() > 0 && t[0] == AnsSeq::Registers(regs),
    ensures
        run::rewound(d, Seq::empty(), i, hit).0 == Err::<Option<(usize, usize)>, StopSeq>(
            Halt::Ask(Request::GetRegisters { port: d.threads[i as int].port }),
        ),
        ({
            let a = hit_at(d.arch, counter(regs));
            let set = d.bps.contains_key(a) && d.bps[a].enabled;
            &&& !set ==> run::rewound(d, t, i, hit) == run::rewound(d, t.skip(1), i + 1, hit)
            &&& set && t.len() == 1 ==> run::rewound(d, t, i, hit).0 == Err::<
                Option<(usize, usize)>,
                StopSeq,
            >(
                Halt::Ask(
                    Request::SetRegisters { port: d.threads[i as int].port, regs: moved(regs, a as u64) },
                ),
            )
            &&& set && t.len() >= 2 && t[1] == AnsSeq::Code(0) ==> run::rewound(d, t, i, hit)
                == run::rewound(
                d,
                t.skip(2),
                i + 1,
                if hit is None {
                    Some((i as usize, a))
                } else {
                    hit
                },
            )
        }),
        run::rewound(d, t, d.threads.len(), hit) == (Ok::<_, StopSeq>(hit), t),
{
    if t.len() > 1 {
        assert(t.skip(1)[0] == t[1]);
        assert(t.skip(1).skip(1) =~= t.skip(2));
    }
}

/// Only a stop by a trap, signal five, is looked at for breakpoints. The thread that hit one becomes
/// current, the process stands at that breakpoint, and the stop is at its address.
pub proof fn law_hit_makes_the_thread_current(d: Dbg, t: Rest, g: Option<(usize, usize)>, u: Rest)
    ensures
        !(d.last matches Some(WaitStatus::Stopped { signal, .. }) && signal == 5) ==> run::hits_handled(d, t)
            == debugger::out(Ok::<(), StopSeq>(()), t, d),
        (d.last matches Some(WaitStatus::Stopped { signal, .. }) && signal == 5) && run::rewound(
            d,
            t,
            0,
            None,
        ) == (Ok::<_, StopSeq>(g), u) ==> run::hits_handled(d, t) == debugger::out(
            Ok::<(), StopSeq>(()),
            u,
            match g {
                None => d,
                Some((i, a)) => Dbg {
                    at_bp: Some(a),
                    current: i,
                    last: Some(WaitStatus::Stopped { signal: 5, pc: a as u64 }),
                    ..d
                },
            },
        ),
{
}

/// On x86_64 the thread whose status register names the slot of a watchpoint has hit it: of several slots
/// the lowest counts, and of several threads the first. A thread whose register names none is passed over.
pub proof fn law_watchpoint_by_the_status_register(
    d: Dbg,
    t: Rest,
    i: nat,
    s: X86DebugState64,
    k: usize,
    p: WpSeq,
)
    requires
        i < d.threads.len(),
        d.wps.len() == 4,
        t.len() >= 2 && t[0] == AnsSeq::Debug(DebugSeq::X86(s)),
        k < 4,
    ensures
        (s.__dr6 >> (k as u64)) & 1 == 1 && (forall|j: usize|
            j < k ==> (s.__dr6 >> (#[trigger] (j as u64))) & 1 != 1) && d.wps[k as int] == Some(p)
            ==> run::x86_watch_hit(d, t, i) == debugger::out(
            Ok::<(), StopSeq>(()),
            t.skip(2),
            Dbg { at_wp: Some(p.addr), current: i as usize, ..d },
        ),
        (forall|j: usize| j < 4 ==> (s.__dr6 >> (#[trigger] (j as u64))) & 1 != 1) ==> run::x86_watch_hit(
            d,
            t,
            i,
        ) == run::x86_watch_hit(d, t.skip(2), i + 1),
        run::x86_watch_hit(d, Seq::empty(), i).r == Err::<(), StopSeq>(
            Halt::Ask(Request::GetDebug { port: d.threads[i as int].port }),
        ),
{
    crate::kernel_laws::law_hits_are_read_and_cleared(t, d.threads[i as int].port, s);
    let h = mach::hits_from(s.__dr6, 0);
    crate::kernel_laws::law_hits_are_the_bits(s.__dr6, 0, k);
    if h.len() > 0 {
        let f = h[0];
        crate::kernel_laws::law_hits_are_the_bits(s.__dr6, 0, f);
        assert(h.contains(f));
        assert((s.__dr6 >> (f as u64)) & 1 == 1);
        if h.contains(k) {
            let j = choose|j: int| 0 <= j < h.len() && h[j] == k;
            assert(j == 0 || h[0] < h[j]);
        }
    }
}

/// On aarch64 the first watchpoint whose memory is not as it was has been hit, and what its memory holds
/// now is kept. One whose memory is as it was is passed over.
pub proof fn law_watchpoint_by_its_memory(d: Dbg, t: Rest, i: nat, p: WpSeq, raw: Seq<u8>)
    requires
        i < d.wps.len(),
    ensures
        d.wps[i as int] is None ==> run::arm_watch_hit(d, t, i) == run::arm_watch_hit(d, t, i + 1),
        d.wps[i as int] == Some(p) ==> {
            &&& run::arm_watch_hit(d, Seq::empty(), i).r == Err::<(), StopSeq>(
                Halt::Ask(Request::Read { addr: p.addr, len: p.len.width() }),
            )
            &&& t.len() > 0 && t[0] == AnsSeq::Bytes(raw) ==> ({
                let now = breakpoint::program_bytes(d.bps, p.addr, raw);
                &&& now != p.prev ==> run::arm_watch_hit(d, t, i) == debugger::out(
                    Ok::<(), StopSeq>(()),
                    t.skip(1),
                    Dbg {
                        at_wp: Some(p.addr),
                        wps: d.wps.update(
                            i as int,
                            Some(WpSeq { addr: p.addr, cond: p.cond, len: p.len, prev: now }),
                        ),
                        ..d
                    },
                )
                &&& now == p.prev ==> run::arm_watch_hit(d, t, i) == run::arm_watch_hit(d, t.skip(1), i + 1)
            })
        },
{
}

/// Where no memory has changed, the first watchpoint there is has been hit; without one there is none.
pub proof fn law_watchpoint_without_a_change(d: Dbg, t: Rest, k: int)
    ensures
        (0 <= k < d.wps.len() && d.wps[k] is Some && forall|j: int| 0 <= j < k ==> (#[trigger] d.wps[j]) is None)
            ==> run::arm_watch_hit(d, t, d.wps.len()).d.at_wp == Some(d.wps[k]->0.addr),
        (forall|j: int| 0 <= j < d.wps.len() ==> (#[trigger] d.wps[j]) is None) ==> run::arm_watch_hit(
            d,
            t,
            d.wps.len(),
        ).d == d,
        run::arm_watch_hit(d, t, d.wps.len()).t == t,
{
    if 0 <= k < d.wps.len() && d.wps[k] is Some && forall|j: int| 0 <= j < k ==> (#[trigger] d.wps[j]) is None {
        lemma_first_watch(d.wps, 0, k);
    }
    if forall|j: int| 0 <= j < d.wps.len() ==> (#[trigger] d.wps[j]) is None {
        lemma_no_watch(d.wps, 0);
    }
}

proof fn lemma_first_watch(w: Seq<Option<WpSeq>>, i: nat, k: int)
    requires
        i <= k < w.len(),
        w[k] is Some,
        forall|j: int| 0 <= j < k ==> (#[trigger] w[j]) is None,
    ensures
        run::first_watch(w, i) == Some(w[k]->0.addr),
    decreases w.len() - i,
{
    if i < k {
        lemma_first_watch(w, i + 1, k);
    }
}

proof fn lemma_no_watch(w: Seq<Option<WpSeq>>, i: nat)
    requires
        forall|j: int| 0 <= j < w.len() ==> (#[trigger] w[j]) is None,
    ensures
        run::first_watch(w, i) is None,
    decreases w.len() - i,
{
    if i < w.len() {
        lemma_no_watch(w, i + 1);
    }
}

/// Watchpoints are looked for exactly after a trap that is no breakpoint's; otherwise none stopped the
/// process, and nothing is asked.
pub proof fn law_watchpoints_are_looked_for_after_traps(d: Dbg, t: Rest)
    ensures
        !(d.last matches Some(WaitStatus::Stopped { signal, .. }) && signal == 5) || d.at_bp is Some
            ==> run::watches_handled(d, t) == debugger::out(
            Ok::<(), StopSeq>(()),
            t,
            Dbg { at_wp: None, ..d },
        ),
        (d.last matches Some(WaitStatus::Stopped { signal, .. }) && signal == 5) && d.at_bp is None ==> {
            &&& d.host == Arch::X86_64 ==> run::watches_handled(d, t) == run::x86_watch_hit(
                Dbg { at_wp: None, ..d },
                t,
                0,
            )
            &&& d.host == Arch::Aarch64 ==> run::watches_handled(d, t) == run::arm_watch_hit(
                Dbg { at_wp: None, ..d },
                t,
                0,
            )
        },
{
}

/// A step sets a breakpoint at each address that the instruction can lead to, unless one is set there
/// already; those that it has set are the ones to be taken away.
pub proof fn law_step_sets_breakpoints(d: Dbg, t: Rest, at: Seq<usize>, done: Seq<usize>, i: nat)
    requires
        i < at.len(),
    ensures
        d.bps.contains_key(at[i as int]) && d.bps[at[i as int]].enabled ==> run::installed(
            d,
            t,
            at,
            done,
            i,
        ) == run::installed(d, t, at, done, i + 1),
        !(d.bps.contains_key(at[i as int]) && d.bps[at[i as int]].enabled) ==> ({
            let o = points::break_set(d, t, at[i as int]);
            &&& o.r is Ok ==> run::installed(d, t, at, done, i) == run::installed(
                o.d,
                o.t,
                at,
                done.push(at[i as int]),
                i + 1,
            )
            &&& o.r matches Err(Halt::Fail(_)) ==> run::installed(d, t, at, done, i) == run::installed(
                o.d,
                o.t,
                at,
                done,
                i + 1,
            )
            &&& o.r matches Err(Halt::Ask(q)) ==> run::installed(d, t, at, done, i).r == Err::<
                Seq<usize>,
                StopSeq,
            >(Halt::Ask(q))
        }),
        run::installed(d, t, at, done, at.len()) == debugger::out(Ok::<_, StopSeq>(done), t, d),
        ({
            let o = points::break_removed(d, t, at[i as int]);
            &&& o.r matches Err(Halt::Ask(q)) ==> run::uninstalled(d, t, at, i).r == Err::<(), StopSeq>(
                Halt::Ask(q),
            )
            &&& !(o.r matches Err(Halt::Ask(_))) ==> run::uninstalled(d, t, at, i) == run::uninstalled(
                o.d,
                o.t,
                at,
                i + 1,
            )
        }),
        run::uninstalled(d, t, at, at.len()) == debugger::out(Ok::<(), StopSeq>(()), t, d),
{
}

/// The instruction that is stepped over is read at the program counter of the current thread, sixteen
/// bytes of code. Where it leads on aarch64 is the next word; on x86_64 it is what its disassembly shows.
pub proof fn law_step_looks_at_the_instruction(d: Dbg, t: Rest, regs: Registers, raw: Seq<u8>)
    requires
        d.current < d.threads.len(),
        t.len() > 0 && t[0] == AnsSeq::Registers(regs),
    ensures
        run::stepped_thread(d, Seq::empty()).r == Err::<WaitStatus, StopSeq>(
            Halt::Ask(Request::GetRegisters { port: d.threads[d.current as int].port }),
        ),
        t.len() == 1 ==> run::stepped_thread(d, t).r == Err::<WaitStatus, StopSeq>(
            Halt::Ask(Request::Read { addr: counter(regs) as usize, len: 16 }),
        ),
{
}

/// Where the instruction leads, and that the process then runs to it.
pub proof fn law_step_runs_to_the_next_instruction(
    d: Dbg,
    t: Rest,
    regs: Registers,
    raw: Seq<u8>,
    o: Out<Seq<usize>>,
    at: Seq<usize>,
)
    requires
        d.current < d.threads.len(),
        t.len() >= 2 && t[0] == AnsSeq::Registers(regs) && t[1] == AnsSeq::Bytes(raw),
        d.host == Arch::Aarch64 ==> at == seq![(counter(regs) as usize).wrapping_add(4)],
        d.host == Arch::X86_64 ==> at == disasm::targets(
            disasm::x86_listing(
                breakpoint::program_bytes(d.bps, counter(regs) as usize, raw),
                (counter(regs) as usize) as u64,
                1,
            ),
            (counter(regs) as usize) as u64,
        ),
        o == run::installed(d, t.skip(2), at, Seq::empty(), 0),
    ensures
        o.r matches Err(h) ==> run::stepped_thread(d, t).r == Err::<WaitStatus, StopSeq>(h),
        o.r matches Ok(set) ==> run::stepped_thread(d, t) == run::stepped_to(o.d, o.t, set),
{
    assert(t.skip(1)[0] == t[1]);
    assert(t.skip(1).skip(1) =~= t.skip(2));
}

/// The run of a step: the process runs, a hit is looked for, and the breakpoints of the step are taken
/// away. What the step came to is what the wait told.
pub proof fn law_step_is_a_run(d: Dbg, t: Rest, at: Seq<usize>)
    ensures
        t.len() == 0 ==> run::stepped_to(d, t, at).r == Err::<WaitStatus, StopSeq>(
            Halt::Ask(Request::Continue),
        ),
        t.len() > 0 && t[0] is Done && dialogue::interrupted(t.skip(1), t.len() - 1) ==> run::stepped_to(
            d,
            t,
            at,
        ).r == Err::<WaitStatus, StopSeq>(Halt::Ask(Request::Wait)),
        run::stepped_to(d, t, at).r matches Ok(w) ==> {
            &&& t.len() > 0 && t[0] is Done
            &&& exists|n: int, s: i32| #[trigger] dialogue::waits(t.skip(1), n, s) && dialogue::tells(w, s)
        },
{
    dialogue::law_run_is_a_request_and_a_wait(d, t);
    let o = run::resumed(d, t);
    let p = run::hits_handled(o.d, o.t);
    if run::stepped_to(d, t, at).r is Ok {
        let (n, s) = choose|n: int, s: i32|
            #[trigger] dialogue::waits(t.skip(1), n, s) && run::resumed(d, t).d.last is Some
                && dialogue::tells(run::resumed(d, t).d.last->0, s);
        assert(dialogue::tells(p.d.last->0, s));
        lemma_removal_keeps_last(p.d, p.t, at, 0);
    }
}

proof fn lemma_removal_keeps_last(d: Dbg, t: Rest, at: Seq<usize>, i: nat)
    ensures
        run::uninstalled(d, t, at, i).d.last == d.last,
    decreases at.len() - i,
{
    if i < at.len() {
        let o = points::break_removed(d, t, at[i as int]);
        assert(o.d.last == d.last);
        lemma_removal_keeps_last(o.d, o.t, at, i + 1);
    }
}

/// To step over a trap the bytes that it kept are written back, the thread is put at its address and
/// steps over one instruction, and the trap is set again. The breakpoint is not in the table meanwhile.
pub proof fn law_step_over_a_trap(
    d: Dbg,
    t: Rest,
    addr: usize,
    regs: Registers,
    u: Rest,
    s: Out<WaitStatus>,
)
    requires
        d.host == Arch::X86_64,
        d.bps.contains_key(addr) && d.bps[addr].enabled,
        d.current < d.threads.len(),
        mach::mem_write(t, d.bps[addr].addr, d.bps[addr].saved, d.host) == (Ok::<(), StopSeq>(()), u),
        u.len() >= 2 && u[0] == AnsSeq::Registers(regs) && u[1] == AnsSeq::Code(0),
        s == run::stepped_thread(Dbg { bps: d.bps.remove(addr), ..d }, u.skip(2)),
    ensures
        s.r matches Err(h) ==> run::x86_stepped_over(d, t, addr).r == Err::<(), StopSeq>(h),
        s.r is Ok && s.t.len() == 0 ==> run::x86_stepped_over(d, t, addr).r == Err::<(), StopSeq>(
            Halt::Ask(
                Request::Read {
                    addr: d.bps[addr].addr,
                    len: match d.bps[addr].arch {
                        Arch::X86_64 => 1,
                        Arch::Aarch64 => 4,
                    },
                },
            ),
        ),
        run::x86_stepped_over(d, t, addr).r is Ok ==> run::x86_stepped_over(d, t, addr).d.bps.contains_key(
            addr,
        ) && run::x86_stepped_over(d, t, addr).d.bps[addr].enabled && run::x86_stepped_over(
            d,
            t,
            addr,
        ).d.last == s.d.last,
{
    assert(u.skip(1)[0] == u[1]);
    assert(u.skip(1).skip(1) =~= u.skip(2));
}

/// What is asked to step over a trap before the thread steps: to write the bytes back, to read the
/// registers, and to move the thread to the address of the breakpoint.
pub proof fn law_step_over_a_trap_begins(d: Dbg, t: Rest, addr: usize, regs: Registers, u: Rest)
    requires
        d.host == Arch::X86_64,
        d.bps.contains_key(addr) && d.bps[addr].enabled,
        d.current < d.threads.len(),
    ensures
        mach::mem_write(t, d.bps[addr].addr, d.bps[addr].saved, d.host).0 matches Err(h)
            ==> run::x86_stepped_over(d, t, addr).r == Err::<(), StopSeq>(h),
        mach::mem_write(t, d.bps[addr].addr, d.bps[addr].saved, d.host) == (Ok::<(), StopSeq>(()), u) ==> {
            &&& u.len() == 0 ==> run::x86_stepped_over(d, t, addr).r == Err::<(), StopSeq>(
                Halt::Ask(Request::GetRegisters { port: d.threads[d.current as int].port }),
            )
            &&& u.len() == 1 && u[0] == AnsSeq::Registers(regs) ==> run::x86_stepped_over(d, t, addr).r
                == Err::<(), StopSeq>(
                Halt::Ask(
                    Request::SetRegisters {
                        port: d.threads[d.current as int].port,
                        regs: moved(regs, addr as u64),
                    },
                ),
            )
        },
        run::stepped_over(d, t, addr) == run::x86_stepped_over(d, t, addr),
{
}

/// To step over a breakpoint on aarch64 its slot is cleared on every thread, the thread steps over one
/// instruction, and the slot is set again on every thread. A breakpoint without a slot cannot be stepped
/// over.
pub proof fn law_step_over_a_slot(
    d: Dbg,
    t: Rest,
    addr: usize,
    slot: usize,
    u: Rest,
    s: Out<WaitStatus>,
)
    requires
        d.host == Arch::Aarch64,
        points::slot_of(d.hw, addr, 0) == Some(slot as nat),
        points::on_all(t, d.threads, Arch::Aarch64, SlotEdit::ClearBreak { slot }, 0) == (
            Ok::<(), StopSeq>(()),
            u,
        ),
        s == run::stepped_thread(d, u),
    ensures
        s.r matches Err(h) ==> run::stepped_over(d, t, addr).r == Err::<(), StopSeq>(h),
        s.r is Ok ==> run::stepped_over(d, t, addr).d == s.d && run::stepped_over(d, t, addr).r
            == points::on_all(
            s.t,
            s.d.threads,
            Arch::Aarch64,
            SlotEdit::SetBreak { slot, addr },
            0,
        ).0,
{
}

/// A single step gives what the step of the thread, or over the breakpoint at which it stood, came to. The
/// process then stands at a breakpoint exactly if one is set at its program counter, or it stood there
/// before.
pub proof fn law_step_notes_where_it_lands(d: Dbg, t: Rest, s: Out<WaitStatus>, regs: Registers)
    requires
        d.at_bp is None,
        s == run::stepped_thread(d, t),
        s.r is Ok,
        s.d.current < s.d.threads.len(),
        s.t.len() > 0 && s.t[0] == AnsSeq::Registers(regs),
    ensures
        s.d.last matches Some(w) ==> run::stepped(d, t).r == Ok::<WaitStatus, StopSeq>(w),
        ({
            let a = counter(regs) as usize;
            run::stepped(d, t).d == (if s.d.bps.contains_key(a) && s.d.bps[a].enabled {
                Dbg { at_bp: Some(a), ..s.d }
            } else {
                s.d
            })
        }),
{
}

/// A single step at a breakpoint steps over it.
pub proof fn law_step_leaves_the_breakpoint(d: Dbg, t: Rest, addr: usize, s: Out<()>, regs: Registers)
    requires
        d.at_bp == Some(addr),
        s == run::stepped_over(Dbg { at_bp: None, ..d }, t, addr),
    ensures
        s.r matches Err(h) ==> run::stepped(d, t).r == Err::<WaitStatus, StopSeq>(h),
        s.r is Ok && s.d.current < s.d.threads.len() && s.t.len() > 0 && s.t[0] == AnsSeq::Registers(regs)
            ==> (s.d.last matches Some(w) ==> run::stepped(d, t).r == Ok::<WaitStatus, StopSeq>(w)),
        s.r is Ok && s.d.current < s.d.threads.len() && s.t.len() > 0 && s.t[0] == AnsSeq::Registers(regs)
            ==> ({
            let a = counter(regs) as usize;
            run::stepped(d, t).d == (if s.d.bps.contains_key(a) && s.d.bps[a].enabled {
                Dbg { at_bp: Some(a), ..s.d }
            } else {
                s.d
            })
        }),
{
}

/// A number of eight bytes is read where it stands, the least significant byte first.
pub proof fn law_stored_address(d: Dbg, t: Rest, addr: usize, raw: Seq<u8>)
    ensures
        run::address_at(d, Seq::empty(), addr).0 == Err::<usize, StopSeq>(
            Halt::Ask(Request::Read { addr, len: 8 }),
        ),
        t.len() > 0 && t[0] == AnsSeq::Bytes(raw) && raw.len() >= 8 ==> run::address_at(d, t, addr) == (
            Ok::<usize, StopSeq>(
                (bytes::le(breakpoint::program_bytes(d.bps, addr, raw).take(8)) as u64) as usize,
            ),
            t.skip(1),
        ),
        t.len() > 0 && t[0] == AnsSeq::Bytes(raw) && raw.len() < 8 ==> run::address_at(d, t, addr).0 is Err,
{
}

/// Where the return address of a function is on x86_64: on top of the stack where its first instruction,
/// `push rbp`, is still to come; a word deeper where `mov rbp, rsp` is; and next to the saved frame
/// pointer behind them. The instruction is looked at in the three bytes at the program counter.
pub proof fn law_x86_return_address(
    d: Dbg,
    t: Rest,
    g: x86_64::ThreadState64,
    raw: Seq<u8>,
)
    requires
        d.current < d.threads.len(),
        t.len() > 0 && t[0] == AnsSeq::Registers(Registers::X86(g)),
    ensures
        t.len() == 1 ==> run::return_read(d, t).0 == Err::<usize, StopSeq>(
            Halt::Ask(Request::Read { addr: g.__rip as usize, len: 3 }),
        ),
        t.len() >= 2 && t[1] == AnsSeq::Bytes(raw) ==> ({
            let code = breakpoint::program_bytes(d.bps, g.__rip as usize, raw);
            let r = run::return_read(d, t);
            &&& code.len() > 0 && code[0] == 0x55 ==> r == run::address_at(d, t.skip(2), g.__rsp as usize)
            &&& code.len() >= 3 && code[0] == 0x48 && code[1] == 0x89 && code[2] == 0xe5 ==> r
                == run::address_at(d, t.skip(2), (g.__rsp as usize).wrapping_add(8))
            &&& !(code.len() > 0 && code[0] == 0x55) && !(code.len() >= 3 && code[0] == 0x48 && code[1]
                == 0x89 && code[2] == 0xe5) ==> r == run::address_at(
                d,
                t.skip(2),
                (g.__rbp as usize).wrapping_add(8),
            )
        }),
{
    if t.len() >= 2 {
        assert(t.skip(1)[0] == t[1]);
        assert(t.skip(1).skip(1) =~= t.skip(2));
        let code = breakpoint::program_bytes(d.bps, g.__rip as usize, raw);
        let m = seq![0x48u8, 0x89, 0xe5];
        if code.len() >= 3 {
            let s = code.subrange(0, 3);
            assert(s[0] == code[0] && s[1] == code[1] && s[2] == code[2]);
            assert(m[0] == 0x48 && m[1] == 0x89 && m[2] == 0xe5);
            if code[0] == 0x48 && code[1] == 0x89 && code[2] == 0xe5 {
                assert(s =~= m);
            }
        }
    }
}

/// Where the return address of a function is on aarch64: in the link register where the frame is still to
/// be saved, or there is none; else next to the saved frame pointer. Between the breakpoint at which the
/// process stands and the program counter the code tells whether the frame was saved.
pub proof fn law_arm_return_address(
    d: Dbg,
    t: Rest,
    g: aarch64::ThreadState64,
    raw: Seq<u8>,
)
    requires
        d.current < d.threads.len(),
        t.len() > 0 && t[0] == AnsSeq::Registers(Registers::Arm(g)),
    ensures
        t.len() == 1 ==> run::return_read(d, t).0 == Err::<usize, StopSeq>(
            Halt::Ask(Request::Read { addr: g.__pc as usize, len: 4 }),
        ),
        t.len() >= 2 && t[1] == AnsSeq::Bytes(raw) ==> ({
            let code = breakpoint::program_bytes(d.bps, g.__pc as usize, raw);
            let saves = code.len() >= 4 && code[0] == 0xfd && code[1] == 0x7b && code[2] == 0xbf && code[3]
                == 0xa9;
            let r = run::return_read(d, t);
            &&& saves || g.__fp as usize == 0 ==> r == (Ok::<usize, StopSeq>(g.__lr as usize), t.skip(2))
            &&& !saves && g.__fp as usize != 0 && d.at_bp is None ==> r == run::address_at(
                d,
                t.skip(2),
                (g.__fp as usize).wrapping_add(8),
            )
            &&& !saves && g.__fp as usize != 0 && (d.at_bp matches Some(a) && a > g.__pc as usize) ==> r
                == run::address_at(d, t.skip(2), (g.__fp as usize).wrapping_add(8))
        }),
{
    if t.len() >= 2 {
        assert(t.skip(1)[0] == t[1]);
        assert(t.skip(1).skip(1) =~= t.skip(2));
        let code = breakpoint::program_bytes(d.bps, g.__pc as usize, raw);
        let m = seq![0xfdu8, 0x7b, 0xbf, 0xa9];
        if code.len() >= 4 {
            let s = code.subrange(0, 4);
            assert(s[0] == code[0] && s[1] == code[1] && s[2] == code[2] && s[3] == code[3]);
            assert(m[0] == 0xfd && m[1] == 0x7b && m[2] == 0xbf && m[3] == 0xa9);
            if code[0] == 0xfd && code[1] == 0x7b && code[2] == 0xbf && code[3] == 0xa9 {
                assert(s =~= m);
            }
        }
    }
}

/// Some code saves the frame exactly if `stp x29, x30, [sp, ..]` stands somewhere in it: the bytes `fd 7b`
/// with `a9` two bytes behind them.
pub proof fn law_frame_is_saved_somewhere(code: Seq<u8>, i: int)
    requires
        0 <= i && i + 4 <= code.len(),
        code[i] == 0xfd && code[i + 1] == 0x7b && code[i + 3] == 0xa9,
    ensures
        run::saves_frame(code),
{
}

/// A session begins with waiting for the process; then the architecture is found, then the port of the
/// process, and then its threads.
pub proof fn law_session_begins(
    pid: i32,
    spawned: bool,
    host: Arch,
    t: Rest,
    u: Rest,
    arch: Arch,
    v: Rest,
    task: u32,
)
    ensures
        run::begun(pid, spawned, host, Seq::empty()).r == Err::<(), StopSeq>(Halt::Ask(Request::Wait)),
        run::attached(pid, host, Seq::empty()).r == Err::<(), StopSeq>(Halt::Ask(Request::Attach { pid })),
        t.len() > 0 && t[0] is Done ==> run::attached(pid, host, t) == run::begun(
            pid,
            false,
            host,
            t.skip(1),
        ),
        t.len() > 0 && !(t[0] is Done) ==> run::attached(pid, host, t).r is Err,
{
}

/// A new session has no breakpoints and no watchpoints, and stands at none; it knows its process, how it
/// was begun and the machine.
pub proof fn law_session_begins_empty(pid: i32, spawned: bool, host: Arch)
    ensures
        ({
            let d = run::unborn(pid, spawned, host);
            &&& d.pid == pid && d.spawned == spawned && d.host == host
            &&& d.bps.dom() =~= Set::empty()
            &&& d.at_bp is None && d.at_wp is None && d.last is None
            &&& d.hw.len() == 16 && forall|i: int| 0 <= i < 16 ==> (#[trigger] d.hw[i]) is None
            &&& d.wps.len() == 4 && forall|i: int| 0 <= i < 4 ==> (#[trigger] d.wps[i]) is None
            &&& d.threads.len() == 0
        }),
{
}

/// Once the process has stopped, the architecture of its program is read and noted, then the port is asked
/// for and noted, and the threads of that port are listed.
pub proof fn law_session_finds_the_process(
    pid: i32,
    spawned: bool,
    host: Arch,
    t: Rest,
    o: Out<WaitStatus>,
    arch: Arch,
    u: Rest,
    task: u32,
)
    requires
        o == run::waited(run::unborn(pid, spawned, host), t),
        o.r is Ok,
        mach::arch_read(o.t) == (Ok::<Arch, StopSeq>(arch), u),
    ensures
        u.len() == 0 ==> run::begun(pid, spawned, host, t).r == Err::<(), StopSeq>(
            Halt::Ask(Request::Task),
        ),
        u.len() == 1 && u[0] == AnsSeq::Port(task) ==> run::begun(pid, spawned, host, t).r == Err::<
            (),
            StopSeq,
        >(Halt::Ask(Request::Threads { task })),
        u.len() > 0 && u[0] == AnsSeq::Port(task) ==> run::begun(pid, spawned, host, t)
            == threads::refreshed(Dbg { arch, task, last: Some(o.r->Ok_0), ..o.d }, u.skip(1)),
{
}

/// To let go of the process is asked first, and only where that has succeeded its ports are given back:
/// that of every thread and that of the process.
pub proof fn law_detach_gives_ports_back(d: Dbg, t: Rest)
    ensures
        t.len() == 0 ==> run::detached(d, t).0 == Err::<(), StopSeq>(Halt::Ask(Request::Detach)),
        t.len() > 0 && !(t[0] is Done) ==> run::detached(d, t).0 is Err && run::detached(d, t).1 == t.skip(1),
        t.len() > 0 && t[0] is Done && t.len() <= d.threads.len() ==> run::detached(d, t).0 == Err::<
            (),
            StopSeq,
        >(Halt::Ask(Request::Release { port: d.threads[t.len() - 1].port })),
        t.len() > 0 && t[0] is Done && t.len() == d.threads.len() + 1 ==> run::detached(d, t).0 == Err::<
            (),
            StopSeq,
        >(Halt::Ask(Request::Release { port: d.task })),
        t.len() > 0 && t[0] is Done && t.len() > d.threads.len() + 1 ==> run::detached(d, t).0 is Ok,
{
    if t.len() > 0 {
        lemma_released(t.skip(1), d.threads, 0);
    }
}

/// One answer is used for each port that is given back.
proof fn lemma_released(t: Rest, ts: Seq<crate::debugger::ThreadEntry>, i: nat)
    requires
        i <= ts.len(),
    ensures
        t.len() < ts.len() - i ==> threads::released_from(t, ts, i).0 == Err::<(), StopSeq>(
            Halt::Ask(Request::Release { port: ts[i as int + t.len()].port }),
        ),
        t.len() >= ts.len() - i ==> threads::released_from(t, ts, i).0 is Ok && threads::released_from(
            t,
            ts,
            i,
        ).1.len() == t.len() - (ts.len() - i),
    decreases ts.len() - i,
{
    if i < ts.len() && t.len() > 0 {
        lemma_released(t.skip(1), ts, i + 1);
    }
}

/// At the end a process that was started is killed, and one that was attached to is let go.
pub proof fn law_session_ends(d: Dbg, t: Rest)
    ensures
        d.spawned && t.len() == 0 ==> run::shut_down(d, t).0 == Err::<(), StopSeq>(Halt::Ask(Request::Kill)),
        !d.spawned && t.len() == 0 ==> run::shut_down(d, t).0 == Err::<(), StopSeq>(
            Halt::Ask(Request::Detach),
        ),
        d.spawned && t.len() > 0 && t[0] is Done ==> run::shut_down(d, t) == (Ok::<(), StopSeq>(()), t.skip(1)),
        !d.spawned ==> run::shut_down(d, t) == run::detached(d, t),
{
}

/// A thread whose status register names a slot without a watchpoint first is passed over.
pub proof fn law_slot_without_a_watchpoint(d: Dbg, t: Rest, i: nat, s: X86DebugState64, k: usize)
    requires
        i < d.threads.len(),
        d.wps.len() == 4,
        t.len() >= 2 && t[0] == AnsSeq::Debug(DebugSeq::X86(s)),
        k < 4,
        (s.__dr6 >> (k as u64)) & 1 == 1,
        forall|j: usize| j < k ==> (s.__dr6 >> (#[trigger] (j as u64))) & 1 != 1,
        d.wps[k as int] is None,
    ensures
        run::x86_watch_hit(d, t, i) == run::x86_watch_hit(d, t.skip(2), i + 1),
{
    crate::kernel_laws::law_hits_are_read_and_cleared(t, d.threads[i as int].port, s);
    let h = mach::hits_from(s.__dr6, 0);
    crate::kernel_laws::law_hits_are_the_bits(s.__dr6, 0, k);
    assert(h.contains(k));
    let f = h[0];
    crate::kernel_laws::law_hits_are_the_bits(s.__dr6, 0, f);
    assert(h.contains(f));
    assert((s.__dr6 >> (f as u64)) & 1 == 1);
    let j = choose|j: int| 0 <= j < h.len() && h[j] == k;
    assert(j == 0 || h[0] < h[j]);
}

/// Where the process stands at a breakpoint at or before the program counter, the code from there on tells
/// whether the frame was saved: the return address is next to the saved frame pointer where it was, and
/// else in the link register.
pub proof fn law_arm_return_address_by_the_code(
    d: Dbg,
    t: Rest,
    g: aarch64::ThreadState64,
    raw: Seq<u8>,
    start: usize,
    body: Seq<u8>,
)
    requires
        d.current < d.threads.len(),
        t.len() >= 2 && t[0] == AnsSeq::Registers(Registers::Arm(g)) && t[1] == AnsSeq::Bytes(raw),
        d.at_bp == Some(start),
        start <= g.__pc as usize,
        g.__fp as usize != 0,
        ({
            let code = breakpoint::program_bytes(d.bps, g.__pc as usize, raw);
            !(code.len() >= 4 && code[0] == 0xfd && code[1] == 0x7b && code[2] == 0xbf && code[3] == 0xa9)
        }),
    ensures
        start == g.__pc as usize ==> run::return_read(d, t) == (
            Ok::<usize, StopSeq>(g.__lr as usize),
            t.skip(2),
        ),
        start < g.__pc as usize && t.len() == 2 ==> run::return_read(d, t).0 == Err::<usize, StopSeq>(
            Halt::Ask(Request::Read { addr: start, len: (g.__pc as usize - start) as usize }),
        ),
        start < g.__pc as usize && t.len() > 2 && t[2] == AnsSeq::Bytes(body) ==> ({
            let seen = breakpoint::program_bytes(d.bps, start, body);
            &&& run::saves_frame(seen) ==> run::return_read(d, t) == run::address_at(
                d,
                t.skip(3),
                (g.__fp as usize).wrapping_add(8),
            )
            &&& !run::saves_frame(seen) ==> run::return_read(d, t) == (
                Ok::<usize, StopSeq>(g.__lr as usize),
                t.skip(3),
            )
        }),
{
    assert(t.skip(1)[0] == t[1]);
    assert(t.skip(1).skip(1) =~= t.skip(2));
    let code = breakpoint::program_bytes(d.bps, g.__pc as usize, raw);
    let m = seq![0xfdu8, 0x7b, 0xbf, 0xa9];
    assert(m[0] == 0xfd && m[1] == 0x7b && m[2] == 0xbf && m[3] == 0xa9);
    if code.len() >= 4 {
        let s = code.subrange(0, 4);
        assert(s[0] == code[0] && s[1] == code[1] && s[2] == code[2] && s[3] == code[3]);
    }
    if t.len() > 2 {
        assert(t.skip(2)[0] == t[2]);
        assert(t.skip(2).skip(1) =~= t.skip(3));
    }
}

/// Code without those bytes saves no frame.
pub proof fn law_frame_is_not_saved(code: Seq<u8>)
    requires
        forall|i: int|
            0 <= i && i + 4 <= code.len() ==> !(#[trigger] code[i] == 0xfd && code[i + 1] == 0x7b && code[i + 3]
                == 0xa9),
    ensures
        !run::saves_frame(code),
{
}

/// After the run of a step the stop is looked at for breakpoints, and then the breakpoints of the step are
/// taken away; what that leaves is the outcome.
pub proof fn law_step_takes_its_breakpoints_away(
    d: Dbg,
    t: Rest,
    at: Seq<usize>,
    o: Out<()>,
    p: Out<()>,
    q: Out<()>,
)
    requires
        o == run::resumed(d, t),
        p == run::hits_handled(o.d, o.t),
        q == run::uninstalled(p.d, p.t, at, 0),
    ensures
        o.r matches Err(h) ==> run::stepped_to(d, t, at) == debugger::out(
            Err::<WaitStatus, StopSeq>(h),
            o.t,
            o.d,
        ),
        o.r is Ok ==> (p.r matches Err(h) ==> run::stepped_to(d, t, at) == debugger::out(
            Err::<WaitStatus, StopSeq>(h),
            p.t,
            p.d,
        )),
        o.r is Ok && p.r is Ok ==> run::stepped_to(d, t, at).d == q.d && run::stepped_to(d, t, at).t == q.t,
        o.r is Ok && p.r is Ok && q.r is Ok ==> (q.d.last matches Some(s) ==> run::stepped_to(d, t, at).r
            == Ok::<WaitStatus, StopSeq>(s)),
{
}

} // verus!
