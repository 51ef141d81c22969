//! Letting the process run: waiting, stepping, continuing, finishing a function.
use crate::addr_map::AddrMap;
use crate::arch::Arch;
use crate::breakpoint;
use crate::breakpoint::Breakpoint;
use crate::bytes;
use crate::bytes::le_u64;
use crate::debugger::points;
use crate::debugger::threads;
use crate::debugger::threads::{deallocate_port, get_task, release_threads};
use crate::debugger;
use crate::debugger::{Dbg, Debugger, Out, WaitStatus, WatchpointInfo, WpSeq, SIGTRAP};
use crate::disasm;
use crate::disasm::step_targets;
use crate::mach;
use crate::bytes::copy_bytes;
use crate::mach::{watchpoint_hit_slots, SlotEdit};
use crate::numerals;
use crate::numerals::push_hex;
use crate::register::Registers;
use crate::tape;
use crate::tape::{unfit_stop, Answer, Got, Halt, Request, Rest, Stop, StopSeq, Tape};
use crate::text::owned;
use vstd::prelude::*;

verus! {

/// The status of the process when it next stops or ends. An interrupted wait is taken up again.
pub open spec fn status_read(t: Rest) -> Got<i32>
    decreases t.len(),
{
    match tape::ask(t, Request::Wait) {
        (Ok(a), u) => match a {
            Answer::Status(s) => (Ok(s), u),
            Answer::Interrupted => if t.len() > 0 {
                status_read(t.skip(1))
            } else {
                (tape::unfit(), u)
            },
            Answer::Failed(m) => (Err(Halt::Fail(m)), u),
            _ => (tape::unfit(), u),
        },
        (Err(h), u) => (Err(h), u),
    }
}

/// The status of the process when it next stops or ends.
pub fn wait_status(io: &mut Tape) -> (r: Result<i32, Stop>)
    ensures
        (tape::step(r), final(io)@) == status_read(old(io)@),
{
    let ghost start = io@;
    loop
        invariant
            start == old(io)@,
            status_read(start) == status_read(io@),
        decreases io@.len(),
    {
        let ghost before = io@;
        match io.ask(Request::Wait) {
            Ok(Answer::Status(s)) => return Ok(s),
            Ok(Answer::Interrupted) => {
                assert(io@ == before.skip(1));
            },
            Ok(Answer::Failed(m)) => return Err(Halt::Fail(m)),
            Ok(_) => return Err(unfit_stop()),
            Err(h) => return Err(h),
        }
    }
}

/// Whether a status says that the process stopped.
pub open spec fn says_stopped(status: i32) -> bool {
    status & 0x7f == 0x7f
}

/// What a status says: stopped by a signal, exited with a code, or ended by a signal.
pub open spec fn classified(status: i32, pc: u64) -> WaitStatus {
    if says_stopped(status) {
        WaitStatus::Stopped { signal: (status >> 8u32) & 0xff, pc }
    } else if status & 0x7f == 0 {
        WaitStatus::Exited { code: (status >> 8u32) & 0xff }
    } else {
        WaitStatus::Signaled { signal: status & 0x7f }
    }
}

/// What a status says.
pub fn classify(status: i32, pc: u64) -> (r: WaitStatus)
    ensures
        r == classified(status, pc),
{
    if status & 0x7f == 0x7f {
        WaitStatus::Stopped { signal: (status >> 8u32) & 0xff, pc }
    } else if status & 0x7f == 0 {
        WaitStatus::Exited { code: (status >> 8u32) & 0xff }
    } else {
        WaitStatus::Signaled { signal: status & 0x7f }
    }
}

/// Every status is one of the three that are known, and the signal or code is in one byte.
pub proof fn law_status_is_known(status: i32, pc: u64)
    ensures
        !(classified(status, pc) is Unknown),
        classified(status, pc) matches WaitStatus::Stopped { signal, .. } ==> 0 <= signal <= 0xff,
        classified(status, pc) matches WaitStatus::Exited { code } ==> 0 <= code <= 0xff,
        classified(status, pc) matches WaitStatus::Signaled { signal } ==> 0 < signal < 0x7f,
{
    assert(0 <= (status >> 8u32) & 0xff && (status >> 8u32) & 0xff <= 0xff) by (bit_vector);
    assert(0 <= status & 0x7f && status & 0x7f <= 0x7f) by (bit_vector);
}

/// Waits for the process. When it stops the list of threads is brought up to date, as far as that
/// succeeds; the program counter is zero where it cannot be read.
pub open spec fn waited(d: Dbg, t: Rest) -> Out<WaitStatus> {
    match status_read(t) {
        (Err(h), u) => debugger::out(Err(h), u, d),
        (Ok(s), u) => {
            let f = if says_stopped(s) && d.task != 0 {
                threads::refreshed(d, u)
            } else {
                debugger::out(Ok(()), u, d)
            };
            match f.r {
                Err(Halt::Ask(q)) => debugger::out(Err(Halt::Ask(q)), f.t, f.d),
                _ => match debugger::pc_of(f.d, f.t) {
                    (Err(Halt::Ask(q)), v) => debugger::out(Err(Halt::Ask(q)), v, f.d),
                    (Err(_), v) => debugger::out(Ok(classified(s, 0)), v, f.d),
                    (Ok(pc), v) => debugger::out(Ok(classified(s, pc)), v, f.d),
                },
            }
        },
    }
}

/// Looks at the threads from `i` on: one that stands at a breakpoint is moved back to its address. Gives
/// the first such thread and the address.
pub open spec fn rewound(d: Dbg, t: Rest, i: nat, hit: Option<(usize, usize)>) -> Got<
    Option<(usize, usize)>,
>
    decreases d.threads.len() - i,
{
    if i >= d.threads.len() {
        (Ok(hit), t)
    } else {
        let port = d.threads[i as int].port;
        match mach::regs_read(t, port) {
            (Err(Halt::Ask(q)), u) => (Err(Halt::Ask(q)), u),
            (Err(_), u) => rewound(d, u, i + 1, hit),
            (Ok(regs), u) => {
                let addr = (regs.spec_pc() as usize).wrapping_sub(d.arch.trap_advance());
                if debugger::is_set(d, addr) {
                    match mach::regs_write(u, port, regs.at(addr as u64)) {
                        (Err(h), v) => (Err(h), v),
                        (Ok(_), v) => rewound(
                            d,
                            v,
                            i + 1,
                            if hit is None {
                                Some((i as usize, addr))
                            } else {
                                hit
                            },
                        ),
                    }
                } else {
                    rewound(d, u, i + 1, hit)
                }
            },
        }
    }
}

/// Whether the process stopped by a trap.
pub open spec fn trapped(d: Dbg) -> bool {
    d.last matches Some(WaitStatus::Stopped { signal, .. }) && signal == SIGTRAP
}

/// After a trap: the threads that hit a breakpoint are moved back, and the first of them becomes current.
pub open spec fn hits_handled(d: Dbg, t: Rest) -> Out<()> {
    if !trapped(d) {
        debugger::out(Ok(()), t, d)
    } else {
        match rewound(d, t, 0, None) {
            (Err(h), u) => debugger::out(Err(h), u, d),
            (Ok(None), u) => debugger::out(Ok(()), u, d),
            (Ok(Some((i, addr))), u) => debugger::out(
                Ok(()),
                u,
                Dbg {
                    at_bp: Some(addr),
                    current: i,
                    last: Some(WaitStatus::Stopped { signal: SIGTRAP, pc: addr as u64 }),
                    ..d
                },
            ),
        }
    }
}

/// Looks at the status registers of the threads from `i` on: the first thread whose first hit slot holds
/// a watchpoint becomes current.
pub open spec fn x86_watch_hit(d: Dbg, t: Rest, i: nat) -> Out<()>
    decreases d.threads.len() - i,
{
    if i >= d.threads.len() {
        debugger::out(Ok(()), t, d)
    } else {
        match mach::hits_read(t, d.threads[i as int].port) {
            (Err(h), u) => debugger::out(Err(h), u, d),
            (Ok(hits), u) => if hits.len() > 0 && hits[0] < d.wps.len() && d.wps[hits[0] as int] is Some {
                debugger::out(
                    Ok(()),
                    u,
                    Dbg { at_wp: Some(d.wps[hits[0] as int]->0.addr), current: i as usize, ..d },
                )
            } else {
                x86_watch_hit(d, u, i + 1)
            },
        }
    }
}

/// The first watchpoint from slot `i` on.
pub open spec fn first_watch(w: Seq<Option<WpSeq>>, i: nat) -> Option<usize>
    decreases w.len() - i,
{
    if i >= w.len() {
        None
    } else {
        match w[i as int] {
            Some(p) => Some(p.addr),
            None => first_watch(w, i + 1),
        }
    }
}

/// Looks at the watched memory of the slots from `i` on: the first that changed was hit. Where none
/// changed the first watchpoint is taken for the one that was hit.
pub open spec fn arm_watch_hit(d: Dbg, t: Rest, i: nat) -> Out<()>
    decreases d.wps.len() - i,
{
    if i >= d.wps.len() {
        debugger::out(
            Ok(()),
            t,
            match first_watch(d.wps, 0) {
                Some(a) => Dbg { at_wp: Some(a), ..d },
                None => d,
            },
        )
    } else {
        match d.wps[i as int] {
            None => arm_watch_hit(d, t, i + 1),
            Some(p) => match debugger::mem_or_empty(d, t, p.addr, p.len.width()) {
                (Err(h), u) => debugger::out(Err(h), u, d),
                (Ok(now), u) => if now != p.prev {
                    debugger::out(
                        Ok(()),
                        u,
                        Dbg {
                            at_wp: Some(p.addr),
                            wps: d.wps.update(i as int, Some(WpSeq { prev: now, ..p })),
                            ..d
                        },
                    )
                } else {
                    arm_watch_hit(d, u, i + 1)
                },
            },
        }
    }
}

/// After a trap that is no breakpoint's: which watchpoint was hit.
pub open spec fn watches_handled(d: Dbg, t: Rest) -> Out<()> {
    let e = Dbg { at_wp: None, ..d };
    if !trapped(d) || d.at_bp is Some {
        debugger::out(Ok(()), t, e)
    } else {
        match d.host {
            Arch::X86_64 => x86_watch_hit(e, t, 0),
            Arch::Aarch64 => arm_watch_hit(e, t, 0),
        }
    }
}

/// Lets the process run and waits for it.
pub open spec fn resumed(d: Dbg, t: Rest) -> Out<()> {
    match tape::ask_traced(t, Request::Continue) {
        (Err(h), u) => debugger::out(Err(h), u, d),
        (Ok(_), u) => {
            let o = waited(d, u);
            match o.r {
                Err(h) => debugger::out(Err(h), o.t, o.d),
                Ok(s) => debugger::out(Ok(()), o.t, Dbg { last: Some(s), ..o.d }),
            }
        },
    }
}

/// The addresses at which the current thread can be after its next instruction.
pub open spec fn candidates(d: Dbg, code: Seq<u8>, pc: usize) -> Seq<usize> {
    match d.host {
        Arch::X86_64 => disasm::targets(disasm::x86_listing(code, pc as u64, 1), pc as u64),
        Arch::Aarch64 => seq![pc.wrapping_add(4)],
    }
}

/// Sets breakpoints at the addresses from `i` on where there are none, as far as that succeeds. Gives
/// those that were set, behind `done`.
pub open spec fn installed(d: Dbg, t: Rest, at: Seq<usize>, done: Seq<usize>, i: nat) -> Out<Seq<usize>>
    decreases at.len() - i,
{
    if i >= at.len() {
        debugger::out(Ok(done), t, d)
    } else if debugger::is_set(d, at[i as int]) {
        installed(d, t, at, done, i + 1)
    } else {
        let o = points::break_set(d, t, at[i as int]);
        match o.r {
            Err(Halt::Ask(q)) => debugger::out(Err(Halt::Ask(q)), o.t, o.d),
            Err(_) => installed(o.d, o.t, at, done, i + 1),
            Ok(_) => installed(o.d, o.t, at, done.push(at[i as int]), i + 1),
        }
    }
}

/// Takes the breakpoints at the addresses from `i` on away, as far as that succeeds.
pub open spec fn uninstalled(d: Dbg, t: Rest, at: Seq<usize>, i: nat) -> Out<()>
    decreases at.len() - i,
{
    if i >= at.len() {
        debugger::out(Ok(()), t, d)
    } else {
        let o = points::break_removed(d, t, at[i as int]);
        match o.r {
            Err(Halt::Ask(q)) => debugger::out(Err(Halt::Ask(q)), o.t, o.d),
            _ => uninstalled(o.d, o.t, at, i + 1),
        }
    }
}

/// Lets the process run to the breakpoints `at` that were set for the step, and takes them away.
pub open spec fn stepped_to(d: Dbg, t: Rest, at: Seq<usize>) -> Out<WaitStatus> {
    let o = resumed(d, t);
    match o.r {
        Err(h) => debugger::out(Err(h), o.t, o.d),
        Ok(_) => {
            let p = hits_handled(o.d, o.t);
            match p.r {
                Err(h) => debugger::out(Err(h), p.t, p.d),
                Ok(_) => {
                    let q = uninstalled(p.d, p.t, at, 0);
                    match q.r {
                        Err(h) => debugger::out(Err(h), q.t, q.d),
                        Ok(_) => debugger::out(debugger::last_of(q.d), q.t, q.d),
                    }
                },
            }
        },
    }
}

/// Steps the current thread over one instruction: breakpoints are set where it can lead, and the process
/// runs to them.
pub open spec fn stepped_thread(d: Dbg, t: Rest) -> Out<WaitStatus> {
    match debugger::regs_of(d, t) {
        (Err(h), u) => debugger::out(Err(h), u, d),
        (Ok(regs), u) => {
            let pc = regs.spec_pc() as usize;
            match debugger::mem_or_empty(d, u, pc, 16) {
                (Err(h), v) => debugger::out(Err(h), v, d),
                (Ok(code), v) => {
                    let o = installed(d, v, candidates(d, code, pc), Seq::empty(), 0);
                    match o.r {
                        Err(h) => debugger::out(Err(h), o.t, o.d),
                        Ok(at) => stepped_to(o.d, o.t, at),
                    }
                },
            }
        },
    }
}

/// Steps over the breakpoint at `addr` on aarch64: its slot is cleared for the time of the step.
pub open spec fn arm_stepped_over(d: Dbg, t: Rest, addr: usize) -> Out<()> {
    match points::slot_of(d.hw, addr, 0) {
        None => debugger::out(Err(Halt::Fail("no HW BP slot for "@ + numerals::hex(addr as nat))), t, d),
        Some(slot) => match points::on_all(
            t,
            d.threads,
            Arch::Aarch64,
            SlotEdit::ClearBreak { slot: slot as usize },
            0,
        ) {
            (Err(h), u) => debugger::out(Err(h), u, d),
            (Ok(_), u) => {
                let o = stepped_thread(d, u);
                match o.r {
                    Err(h) => debugger::out(Err(h), o.t, o.d),
                    Ok(_) => debugger::kept(
                        points::on_all(
                            o.t,
                            o.d.threads,
                            Arch::Aarch64,
                            SlotEdit::SetBreak { slot: slot as usize, addr },
                            0,
                        ),
                        o.d,
                    ),
                }
            },
        },
    }
}

/// Steps over the breakpoint at `addr` on x86_64: its trap is taken out for the time of the step.
pub open spec fn x86_stepped_over(d: Dbg, t: Rest, addr: usize) -> Out<()> {
    if !d.bps.contains_key(addr) {
        debugger::out(Err(Halt::Fail("missing breakpoint"@)), t, d)
    } else {
        let e = Dbg { bps: d.bps.remove(addr), ..d };
        match breakpoint::disarmed(d.bps[addr], t, d.host) {
            (Err(h), u, _) => debugger::out(Err(h), u, e),
            (Ok(_), u, b) => match debugger::regs_of(e, u) {
                (Err(h), v) => debugger::out(Err(h), v, e),
                (Ok(regs), v) => match mach::regs_write(v, debugger::port_of(e)->Ok_0, regs.at(addr as u64)) {
                    (Err(h), w) => debugger::out(Err(h), w, e),
                    (Ok(_), w) => {
                        let o = stepped_thread(e, w);
                        match o.r {
                            Err(h) => debugger::out(Err(h), o.t, o.d),
                            Ok(_) => match breakpoint::armed(b, o.t, d.host) {
                                (Err(h), x, _) => debugger::out(Err(h), x, o.d),
                                (Ok(_), x, c) => debugger::out(
                                    Ok(()),
                                    x,
                                    Dbg { bps: o.d.bps.insert(addr, c), ..o.d },
                                ),
                            },
                        }
                    },
                },
            },
        }
    }
}

/// Steps over the breakpoint at `addr`.
pub open spec fn stepped_over(d: Dbg, t: Rest, addr: usize) -> Out<()> {
    match d.host {
        Arch::Aarch64 => arm_stepped_over(d, t, addr),
        Arch::X86_64 => x86_stepped_over(d, t, addr),
    }
}

/// Leaves the breakpoint at which the process stands, if it stands at one.
pub open spec fn breakpoint_left(d: Dbg, t: Rest) -> Out<()> {
    match d.at_bp {
        Some(addr) => stepped_over(Dbg { at_bp: None, ..d }, t, addr),
        None => debugger::out(Ok(()), t, d),
    }
}

/// The state that notes a breakpoint at which the current thread stands.
pub open spec fn landed(d: Dbg, pc: u64) -> Dbg {
    if debugger::is_set(d, pc as usize) {
        Dbg { at_bp: Some(pc as usize), ..d }
    } else {
        d
    }
}

/// Steps over one instruction.
pub open spec fn stepped(d: Dbg, t: Rest) -> Out<WaitStatus> {
    let o = match d.at_bp {
        Some(_) => breakpoint_left(d, t),
        None => {
            let s = stepped_thread(d, t);
            debugger::out(
                match s.r {
                    Ok(_) => Ok(()),
                    Err(h) => Err(h),
                },
                s.t,
                s.d,
            )
        },
    };
    match o.r {
        Err(h) => debugger::out(Err(h), o.t, o.d),
        Ok(_) => match debugger::pc_of(o.d, o.t) {
            (Err(Halt::Ask(q)), u) => debugger::out(Err(Halt::Ask(q)), u, o.d),
            (Err(_), u) => debugger::out(debugger::last_of(o.d), u, o.d),
            (Ok(pc), u) => debugger::out(debugger::last_of(o.d), u, landed(o.d, pc)),
        },
    }
}

/// Whether the process is stopped.
pub open spec fn is_stopped(d: Dbg) -> bool {
    d.last matches Some(WaitStatus::Stopped { .. })
}

/// Lets the process run to the next breakpoint, watchpoint or end.
pub open spec fn continued(d: Dbg, t: Rest) -> Out<WaitStatus> {
    let o = breakpoint_left(d, t);
    match o.r {
        Err(h) => debugger::out(Err(h), o.t, o.d),
        Ok(_) => if d.at_bp is Some && !is_stopped(o.d) {
            debugger::out(debugger::last_of(o.d), o.t, o.d)
        } else {
            let p = resumed(o.d, o.t);
            match p.r {
                Err(h) => debugger::out(Err(h), p.t, p.d),
                Ok(_) => {
                    let q = hits_handled(p.d, p.t);
                    match q.r {
                        Err(h) => debugger::out(Err(h), q.t, q.d),
                        Ok(_) => {
                            let w = watches_handled(q.d, q.t);
                            match w.r {
                                Err(h) => debugger::out(Err(h), w.t, w.d),
                                Ok(_) => debugger::out(debugger::last_of(w.d), w.t, w.d),
                            }
                        },
                    }
                },
            }
        },
    }
}

/// The address stored at `addr`.
pub open spec fn address_at(d: Dbg, t: Rest, addr: usize) -> Got<usize> {
    match debugger::mem_of(d, t, addr, 8) {
        (Err(h), u) => (Err(h), u),
        (Ok(b), u) => (
            if b.len() >= 8 {
                Ok((bytes::le(b.take(8)) as u64) as usize)
            } else {
                tape::unfit()
            },
            u,
        ),
    }
}

/// Whether some four bytes of `code` save the frame: `stp x29, x30` to the stack.
pub open spec fn saves_frame(code: Seq<u8>) -> bool {
    exists|i: int|
        0 <= i && i + 4 <= code.len() && #[trigger] code[i] == 0xfd && code[i + 1] == 0x7b && code[i + 3]
            == 0xa9
}

/// The address to which the current function returns. On x86_64 it is on the stack: at its top before
/// the prologue, one word deeper inside it, and next to the saved frame pointer behind it. On aarch64 it
/// is in the link register until the frame is saved.
pub open spec fn return_read(d: Dbg, t: Rest) -> Got<usize> {
    match debugger::regs_of(d, t) {
        (Err(h), u) => (Err(h), u),
        (Ok(Registers::X86(g)), u) => match debugger::mem_or_empty(d, u, g.__rip as usize, 3) {
            (Err(h), v) => (Err(h), v),
            (Ok(code), v) => if code.len() > 0 && code[0] == 0x55 {
                address_at(d, v, g.__rsp as usize)
            } else if points::begins(code, 0, seq![0x48u8, 0x89, 0xe5]) {
                address_at(d, v, (g.__rsp as usize).wrapping_add(8))
            } else {
                address_at(d, v, (g.__rbp as usize).wrapping_add(8))
            },
        },
        (Ok(Registers::Arm(g)), u) => {
            let pc = g.__pc as usize;
            let saved = (g.__fp as usize).wrapping_add(8);
            match debugger::mem_or_empty(d, u, pc, 4) {
                (Err(h), v) => (Err(h), v),
                (Ok(code), v) => if points::begins(code, 0, seq![0xfdu8, 0x7b, 0xbf, 0xa9]) || g.__fp
                    as usize == 0 {
                    (Ok(g.__lr as usize), v)
                } else {
                    match d.at_bp {
                        Some(start) => if pc >= start {
                            match debugger::mem_or_empty(d, v, start, (pc - start) as usize) {
                                (Err(h), w) => (Err(h), w),
                                (Ok(body), w) => if saves_frame(body) {
                                    address_at(d, w, saved)
                                } else {
                                    (Ok(g.__lr as usize), w)
                                },
                            }
                        } else {
                            address_at(d, v, saved)
                        },
                        None => address_at(d, v, saved),
                    }
                },
            }
        },
    }
}

/// Runs to the breakpoint at `ret` on x86_64, which is set for the time unless there is one already.
pub open spec fn x86_finished(d: Dbg, t: Rest, ret: usize) -> Out<WaitStatus> {
    let existing = d.bps.contains_key(ret);
    let o = if existing {
        debugger::out(Ok(()), t, d)
    } else {
        points::break_set(d, t, ret)
    };
    match o.r {
        Err(h) => debugger::out(Err(h), o.t, o.d),
        Ok(_) => {
            let c = continued(o.d, o.t);
            match c.r {
                Err(h) => debugger::out(Err(h), c.t, c.d),
                Ok(s) => if existing {
                    debugger::out(Ok(s), c.t, c.d)
                } else if s is Stopped {
                    let p = points::break_removed(c.d, c.t, ret);
                    match p.r {
                        Err(h) => debugger::out(Err(h), p.t, p.d),
                        Ok(_) => debugger::out(Ok(s), p.t, p.d),
                    }
                } else {
                    debugger::out(Ok(s), c.t, Dbg { bps: c.d.bps.remove(ret), ..c.d })
                },
            }
        },
    }
}

/// Clears the slot of the return address on every thread, as far as that succeeds, and frees it.
pub open spec fn slot_freed(d: Dbg, t: Rest, slot: nat) -> Out<()> {
    match points::tried_on_all(
        t,
        d.threads,
        Arch::Aarch64,
        SlotEdit::ClearBreak { slot: slot as usize },
        0,
    ) {
        (Err(h), u) => debugger::out(Err(h), u, d),
        (Ok(_), u) => debugger::out(Ok(()), u, Dbg { hw: d.hw.update(slot as int, None), ..d }),
    }
}

/// Runs to the return address `ret` on aarch64, by a slot that is taken for the time.
pub open spec fn arm_finished(d: Dbg, t: Rest, ret: usize) -> Out<WaitStatus> {
    match points::free_slot(d.hw, 0) {
        None => debugger::out(
            Err(Halt::Fail("hardware breakpoint slots exhausted (max 16 breakpoints on ARM64)"@)),
            t,
            d,
        ),
        Some(slot) => {
            let e = Dbg { hw: d.hw.update(slot as int, Some(ret)), ..d };
            match points::on_all(
                t,
                d.threads,
                Arch::Aarch64,
                SlotEdit::SetBreak { slot: slot as usize, addr: ret },
                0,
            ) {
                (Err(h), u) => debugger::out(Err(h), u, e),
                (Ok(_), u) => {
                    let o = breakpoint_left(e, u);
                    match o.r {
                        Err(h) => debugger::out(Err(h), o.t, o.d),
                        Ok(_) => if e.at_bp is Some && !is_stopped(o.d) {
                            let f = slot_freed(o.d, o.t, slot);
                            match f.r {
                                Err(h) => debugger::out(Err(h), f.t, f.d),
                                Ok(_) => debugger::out(debugger::last_of(f.d), f.t, f.d),
                            }
                        } else {
                            let p = resumed(o.d, o.t);
                            match p.r {
                                Err(h) => debugger::out(Err(h), p.t, p.d),
                                Ok(_) => {
                                    let f = slot_freed(p.d, p.t, slot);
                                    match f.r {
                                        Err(h) => debugger::out(Err(h), f.t, f.d),
                                        Ok(_) => {
                                            let q = hits_handled(f.d, f.t);
                                            match q.r {
                                                Err(h) => debugger::out(Err(h), q.t, q.d),
                                                Ok(_) => debugger::out(debugger::last_of(q.d), q.t, q.d),
                                            }
                                        },
                                    }
                                },
                            }
                        },
                    }
                },
            }
        },
    }
}

/// Runs until the current function returns.
pub open spec fn finished(d: Dbg, t: Rest) -> Out<WaitStatus> {
    match return_read(d, t) {
        (Err(h), u) => debugger::out(Err(h), u, d),
        (Ok(ret), u) => match d.host {
            Arch::Aarch64 => arm_finished(d, u, ret),
            Arch::X86_64 => x86_finished(d, u, ret),
        },
    }
}

/// A session before the first stop of its process.
pub open spec fn unborn(pid: i32, spawned: bool, host: Arch) -> Dbg {
    Dbg {
        pid,
        spawned,
        task: 0,
        threads: Seq::empty(),
        current: 0,
        bps: Map::empty(),
        last: None,
        at_bp: None,
        arch: Arch::X86_64,
        host,
        hw: Seq::new(16, |i: int| None),
        wps: Seq::new(4, |i: int| None),
        at_wp: None,
    }
}

/// Begins a session: waits for the first stop, and then finds the architecture, the port and the threads
/// of the process.
pub open spec fn begun(pid: i32, spawned: bool, host: Arch, t: Rest) -> Out<()> {
    let o = waited(unborn(pid, spawned, host), t);
    match o.r {
        Err(h) => debugger::out(Err(h), o.t, o.d),
        Ok(s) => {
            let d = Dbg { last: Some(s), ..o.d };
            match mach::arch_read(o.t) {
                (Err(h), u) => debugger::out(Err(h), u, d),
                (Ok(arch), u) => match threads::task_read(u) {
                    (Err(h), v) => debugger::out(Err(h), v, Dbg { arch, ..d }),
                    (Ok(task), v) => threads::refreshed(Dbg { arch, task, ..d }, v),
                },
            }
        },
    }
}

/// Begins a session with a running process.
pub open spec fn attached(pid: i32, host: Arch, t: Rest) -> Out<()> {
    match tape::ask_traced(t, Request::Attach { pid }) {
        (Err(h), u) => debugger::out(Err(h), u, unborn(pid, false, host)),
        (Ok(_), u) => begun(pid, false, host, u),
    }
}

/// Lets go of the process: it runs on. The ports are given back.
pub open spec fn detached(d: Dbg, t: Rest) -> Got<()> {
    match tape::ask_traced(t, Request::Detach) {
        (Err(h), u) => (Err(h), u),
        (Ok(_), u) => match threads::released_from(u, d.threads, 0) {
            (Err(h), v) => (Err(h), v),
            (Ok(_), v) => threads::released(v, d.task),
        },
    }
}

/// Ends a process that the debugger started, and lets go of one that it attached to.
pub open spec fn shut_down(d: Dbg, t: Rest) -> Got<()> {
    if d.spawned {
        tape::ask_traced(t, Request::Kill)
    } else {
        detached(d, t)
    }
}

impl Debugger {
    /// Waits for the process.
    pub fn wait(&mut self, io: &mut Tape) -> (r: Result<WaitStatus, Stop>)
        ensures
            debugger::out(tape::step(r), final(io)@, final(self).state()) == waited(old(self).state(), old(io)@),
    {
        let s: i32 = wait_status(io)?;
        if s & 0x7f == 0x7f && self.task != 0 {
            if let Err(Halt::Ask(q)) = self.refresh_threads(io) {
                return Err(Halt::Ask(q));
            }
        }
        let pc: u64 = match self.pc(io) {
            Ok(p) => p,
            Err(Halt::Ask(q)) => return Err(Halt::Ask(q)),
            Err(_) => 0,
        };
        Ok(classify(s, pc))
    }

    /// Lets the process run and waits for it.
    fn resume(&mut self, io: &mut Tape) -> (r: Result<(), Stop>)
        ensures
            debugger::out(tape::step(r), final(io)@, final(self).state()) == resumed(old(self).state(), old(io)@),
    {
        io.ask_traced(Request::Continue)?;
        let s = self.wait(io)?;
        let ghost mid = self.state();
        self.last_status = Some(s);
        assert(self.state() =~= Dbg { last: Some(s), ..mid });
        Ok(())
    }

    /// After a trap: the threads that hit a breakpoint are moved back, and the first of them becomes
    /// current.
    pub fn handle_breakpoint_hit(&mut self, io: &mut Tape) -> (r: Result<(), Stop>)
        ensures
            debugger::out(tape::step(r), final(io)@, final(self).state()) == hits_handled(
                old(self).state(),
                old(io)@,
            ),
    {
        let signal: i32 = match self.last_status {
            Some(WaitStatus::Stopped { signal, .. }) => signal,
            _ => return Ok(()),
        };
        if signal != SIGTRAP {
            return Ok(());
        }
        let ghost d = self.state();
        let mut hit: Option<(usize, usize)> = None;
        let mut i: usize = 0;
        while i < self.threads.len()
            invariant
                i <= self.threads@.len(),
                *self == *old(self),
                d == self.state(),
                trapped(d),
                rewound(d, old(io)@, 0, None) == rewound(d, io@, i as nat, hit),
            decreases self.threads.len() - i,
        {
            let port: u32 = self.threads[i].port;
            match mach::get_registers(io, port) {
                Err(Halt::Ask(q)) => return Err(Halt::Ask(q)),
                Err(_) => {},
                Ok(regs) => {
                    let addr: usize = (regs.pc() as usize).wrapping_sub(self.arch.bp_pc_offset());
                    if self.has_set(addr) {
                        let mut moved = regs;
                        moved.set_pc(addr as u64);
                        mach::set_registers(io, port, moved)?;
                        if hit.is_none() {
                            hit = Some((i, addr));
                        }
                    }
                },
            }
            i = i + 1;
        }
        if let Some((k, addr)) = hit {
            self.at_breakpoint = Some(addr);
            self.current = k;
            self.last_status = Some(WaitStatus::Stopped { signal, pc: addr as u64 });
            assert(self.state() =~= hits_handled(d, old(io)@).d);
        }
        Ok(())
    }

    /// Which watchpoint the status registers name, on x86_64.
    fn x86_watchpoint_hit(&mut self, io: &mut Tape) -> (r: Result<(), Stop>)
        ensures
            debugger::out(tape::step(r), final(io)@, final(self).state()) == x86_watch_hit(
                old(self).state(),
                old(io)@,
                0,
            ),
    {
        let ghost d = self.state();
        let mut i: usize = 0;
        while i < self.threads.len()
            invariant
                i <= self.threads@.len(),
                *self == *old(self),
                d == self.state(),
                x86_watch_hit(d, old(io)@, 0) == x86_watch_hit(d, io@, i as nat),
            decreases self.threads.len() - i,
        {
            let hits = watchpoint_hit_slots(io, self.threads[i].port)?;
            if hits.len() > 0 && hits[0] < 4 {
                let slot: usize = hits[0];
                assert(d.wps[slot as int] == debugger::slot_seq(self.wp_slots@[slot as int]));
                let found: Option<usize> = match &self.wp_slots[slot] {
                    Some(p) => Some(p.addr),
                    None => None,
                };
                if let Some(addr) = found {
                    self.at_watchpoint = Some(addr);
                    self.current = i;
                    assert(self.state() =~= Dbg { at_wp: Some(addr), current: i, ..d });
                    return Ok(());
                }
            }
            i = i + 1;
        }
        Ok(())
    }

    /// Which watchpoint's memory changed, on aarch64.
    fn arm_watchpoint_hit(&mut self, io: &mut Tape) -> (r: Result<(), Stop>)
        ensures
            debugger::out(tape::step(r), final(io)@, final(self).state()) == arm_watch_hit(
                old(self).state(),
                old(io)@,
                0,
            ),
    {
        let ghost d = self.state();
        let mut i: usize = 0;
        while i < 4
            invariant
                i <= 4,
                *self == *old(self),
                d == self.state(),
                d.wps.len() == 4,
                arm_watch_hit(d, old(io)@, 0) == arm_watch_hit(d, io@, i as nat),
            decreases 4 - i,
        {
            assert(d.wps[i as int] == debugger::slot_seq(self.wp_slots@[i as int]));
            let found: Option<WatchpointInfo> = match &self.wp_slots[i] {
                Some(p) => Some(
                    WatchpointInfo {
                        addr: p.addr,
                        cond: p.cond,
                        len: p.len,
                        prev_value: copy_bytes(p.prev_value.as_slice()),
                    },
                ),
                None => None,
            };
            if let Some(p) = found {
                let now = self.read_or_empty(io, p.addr, p.len.as_bytes())?;
                if !same_bytes(&now, &p.prev_value) {
                    self.at_watchpoint = Some(p.addr);
                    let ghost n = now@;
                    self.wp_slots[i] = Some(
                        WatchpointInfo { addr: p.addr, cond: p.cond, len: p.len, prev_value: now },
                    );
                    proof {
                        let w = d.wps.update(i as int, Some(WpSeq { prev: n, ..p.seq() }));
                        assert(self.state().wps =~= w);
                        assert(self.state() =~= Dbg { at_wp: Some(p.addr), wps: w, ..d });
                    }
                    return Ok(());
                }
            }
            i = i + 1;
        }
        let mut k: usize = 0;
        while k < 4
            invariant
                k <= 4,
                *self == *old(self),
                d == self.state(),
                d.wps.len() == 4,
                first_watch(d.wps, 0) == first_watch(d.wps, k as nat),
                arm_watch_hit(d, old(io)@, 0) == arm_watch_hit(d, io@, 4),
            decreases 4 - k,
        {
            assert(d.wps[k as int] == debugger::slot_seq(self.wp_slots@[k as int]));
            let found: Option<usize> = match &self.wp_slots[k] {
                Some(p) => Some(p.addr),
                None => None,
            };
            if let Some(addr) = found {
                self.at_watchpoint = Some(addr);
                assert(self.state() =~= Dbg { at_wp: Some(addr), ..d });
                return Ok(());
            }
            k = k + 1;
        }
        Ok(())
    }

    /// After a trap that is no breakpoint's: which watchpoint was hit.
    pub fn handle_watchpoint_hit(&mut self, io: &mut Tape) -> (r: Result<(), Stop>)
        ensures
            debugger::out(tape::step(r), final(io)@, final(self).state()) == watches_handled(
                old(self).state(),
                old(io)@,
            ),
    {
        self.at_watchpoint = None;
        assert(self.state() =~= Dbg { at_wp: None, ..old(self).state() });
        let signal: i32 = match self.last_status {
            Some(WaitStatus::Stopped { signal, .. }) => signal,
            _ => return Ok(()),
        };
        if signal != SIGTRAP || self.at_breakpoint.is_some() {
            return Ok(());
        }
        match self.host {
            Arch::X86_64 => self.x86_watchpoint_hit(io),
            Arch::Aarch64 => self.arm_watchpoint_hit(io),
        }
    }

    /// Sets breakpoints where there are none, as far as that succeeds. Gives those that were set.
    fn install(&mut self, io: &mut Tape, at: &Vec<usize>) -> (r: Result<Vec<usize>, Stop>)
        ensures
            match r {
                Ok(v) => debugger::out(Ok::<Seq<usize>, StopSeq>(v@), final(io)@, final(self).state()) == installed(
                    old(self).state(),
                    old(io)@,
                    at@,
                    Seq::empty(),
                    0,
                ),
                Err(h) => debugger::out(
                    Err::<Seq<usize>, StopSeq>(h.seq()),
                    final(io)@,
                    final(self).state(),
                ) == installed(
                    old(self).state(),
                    old(io)@,
                    at@,
                    Seq::empty(),
                    0,
                ),
            },
    {
        let mut done: Vec<usize> = Vec::new();
        let mut i: usize = 0;
        let ghost whole = installed(self.state(), io@, at@, Seq::empty(), 0);
        assert(done@ =~= Seq::empty());
        while i < at.len()
            invariant
                i <= at@.len(),
                whole == installed(old(self).state(), old(io)@, at@, Seq::empty(), 0),
                whole == installed(self.state(), io@, at@, done@, i as nat),
            decreases at.len() - i,
        {
            if !self.has_set(at[i]) {
                match self.set_breakpoint(io, at[i]) {
                    Ok(_) => done.push(at[i]),
                    Err(Halt::Ask(q)) => return Err(Halt::Ask(q)),
                    Err(_) => {},
                }
            }
            i = i + 1;
        }
        Ok(done)
    }

    /// Takes breakpoints away, as far as that succeeds.
    pub fn uninstall(&mut self, io: &mut Tape, at: &Vec<usize>) -> (r: Result<(), Stop>)
        ensures
            debugger::out(tape::step(r), final(io)@, final(self).state()) == uninstalled(
                old(self).state(),
                old(io)@,
                at@,
                0,
            ),
    {
        let mut i: usize = 0;
        let ghost whole = uninstalled(self.state(), io@, at@, 0);
        while i < at.len()
            invariant
                i <= at@.len(),
                whole == uninstalled(old(self).state(), old(io)@, at@, 0),
                whole == uninstalled(self.state(), io@, at@, i as nat),
            decreases at.len() - i,
        {
            if let Err(Halt::Ask(q)) = self.remove_breakpoint(io, at[i]) {
                return Err(Halt::Ask(q));
            }
            i = i + 1;
        }
        Ok(())
    }

    /// Steps the current thread over one instruction.
    pub fn step_current_thread(&mut self, io: &mut Tape) -> (r: Result<WaitStatus, Stop>)
        ensures
            debugger::out(tape::step(r), final(io)@, final(self).state()) == stepped_thread(
                old(self).state(),
                old(io)@,
            ),
    {
        let regs = self.registers(io)?;
        let pc: usize = regs.pc() as usize;
        let code = self.read_or_empty(io, pc, 16)?;
        let at: Vec<usize> = match self.host {
            Arch::X86_64 => step_targets(code.as_slice(), pc as u64),
            Arch::Aarch64 => {
                let v = vec![pc.wrapping_add(4)];
                assert(v@ =~= seq![pc.wrapping_add(4)]);
                v
            },
        };
        let set = self.install(io, &at)?;
        self.resume(io)?;
        self.handle_breakpoint_hit(io)?;
        self.uninstall(io, &set)?;
        self.last_outcome()
    }

    /// Steps over the breakpoint at `addr` on aarch64.
    fn step_over_slot(&mut self, io: &mut Tape, addr: usize) -> (r: Result<(), Stop>)
        ensures
            debugger::out(tape::step(r), final(io)@, final(self).state()) == arm_stepped_over(
                old(self).state(),
                old(io)@,
                addr,
            ),
    {
        let slot: usize = match self.find_hw_slot(addr) {
            Some(s) => s,
            None => {
                let mut m = owned("no HW BP slot for ");
                push_hex(&mut m, addr as u64);
                return Err(Halt::Fail(m));
            },
        };
        self.write_all(io, Arch::Aarch64, SlotEdit::ClearBreak { slot })?;
        self.step_current_thread(io)?;
        self.write_all(io, Arch::Aarch64, SlotEdit::SetBreak { slot, addr })
    }

    /// Steps over the breakpoint at `addr` on x86_64.
    fn step_over_trap(&mut self, io: &mut Tape, addr: usize) -> (r: Result<(), Stop>)
        ensures
            debugger::out(tape::step(r), final(io)@, final(self).state()) == x86_stepped_over(
                old(self).state(),
                old(io)@,
                addr,
            ),
    {
        let host = self.host;
        let mut b: Breakpoint = match self.forget_breakpoint(addr) {
            Some(b) => b,
            None => {
                assert(self.state().bps =~= old(self).state().bps);
                assert(self.state() =~= old(self).state());
                return Err(Halt::Fail(owned("missing breakpoint")));
            },
        };
        b.disable(io, host)?;
        let mut moved = self.registers(io)?;
        moved.set_pc(addr as u64);
        self.set_registers(io, moved)?;
        self.step_current_thread(io)?;
        b.re_enable(io, host)?;
        self.note_breakpoint(addr, b);
        Ok(())
    }

    /// Steps over the breakpoint at `addr`.
    pub fn step_over_breakpoint(&mut self, io: &mut Tape, addr: usize) -> (r: Result<(), Stop>)
        ensures
            debugger::out(tape::step(r), final(io)@, final(self).state()) == stepped_over(
                old(self).state(),
                old(io)@,
                addr,
            ),
    {
        match self.host {
            Arch::Aarch64 => self.step_over_slot(io, addr),
            Arch::X86_64 => self.step_over_trap(io, addr),
        }
    }

    /// Leaves the breakpoint at which the process stands, if it stands at one.
    fn leave_breakpoint(&mut self, io: &mut Tape) -> (r: Result<(), Stop>)
        ensures
            debugger::out(tape::step(r), final(io)@, final(self).state()) == breakpoint_left(
                old(self).state(),
                old(io)@,
            ),
    {
        match self.at_breakpoint {
            Some(addr) => {
                self.at_breakpoint = None;
                assert(self.state() =~= (Dbg { at_bp: None, ..old(self).state() }));
                self.step_over_breakpoint(io, addr)
            },
            None => Ok(()),
        }
    }

    /// Steps over one instruction.
    pub fn step(&mut self, io: &mut Tape) -> (r: Result<WaitStatus, Stop>)
        ensures
            debugger::out(tape::step(r), final(io)@, final(self).state()) == stepped(
                old(self).state(),
                old(io)@,
            ),
    {
        if self.at_breakpoint.is_some() {
            self.leave_breakpoint(io)?;
        } else {
            self.step_current_thread(io)?;
        }
        match self.pc(io) {
            Ok(pc) => {
                let at: usize = pc as usize;
                if self.has_set(at) {
                    let ghost mid = self.state();
                    self.at_breakpoint = Some(at);
                    assert(self.state() =~= (Dbg { at_bp: Some(at), ..mid }));
                }
            },
            Err(Halt::Ask(q)) => return Err(Halt::Ask(q)),
            Err(_) => {},
        }
        self.last_outcome()
    }

    /// Whether the process is stopped.
    pub fn stopped(&self) -> (r: bool)
        ensures
            r == is_stopped(self.state()),
    {
        matches!(self.last_status, Some(WaitStatus::Stopped { .. }))
    }

    /// Lets the process run to the next breakpoint, watchpoint or end.
    pub fn cont(&mut self, io: &mut Tape) -> (r: Result<WaitStatus, Stop>)
        ensures
            debugger::out(tape::step(r), final(io)@, final(self).state()) == continued(
                old(self).state(),
                old(io)@,
            ),
    {
        let stood: bool = self.at_breakpoint.is_some();
        self.leave_breakpoint(io)?;
        if stood && !self.stopped() {
            return self.last_outcome();
        }
        self.resume(io)?;
        self.handle_breakpoint_hit(io)?;
        self.handle_watchpoint_hit(io)?;
        self.last_outcome()
    }

    /// The address stored at `addr`.
    pub fn stored_address(&self, io: &mut Tape, addr: usize) -> (r: Result<usize, Stop>)
        ensures
            (tape::step(r), final(io)@) == address_at(self.state(), old(io)@, addr),
    {
        let b = self.read_memory(io, addr, 8)?;
        if b.len() < 8 {
            return Err(unfit_stop());
        }
        let first = vstd::slice::slice_subrange(b.as_slice(), 0, 8);
        assert(first@ =~= b@.take(8));
        Ok(le_u64(first) as usize)
    }

    /// The address to which the current function returns.
    pub fn return_address(&self, io: &mut Tape) -> (r: Result<usize, Stop>)
        ensures
            (tape::step(r), final(io)@) == return_read(self.state(), old(io)@),
    {
        match self.registers(io)? {
            Registers::X86(g) => {
                let code = self.read_or_empty(io, g.__rip as usize, 3)?;
                if code.len() > 0 && code[0] == 0x55 {
                    self.stored_address(io, g.__rsp as usize)
                } else if points::three_at(&code, 0, 0x48, 0x89, 0xe5) {
                    self.stored_address(io, (g.__rsp as usize).wrapping_add(8))
                } else {
                    self.stored_address(io, (g.__rbp as usize).wrapping_add(8))
                }
            },
            Registers::Arm(g) => {
                let pc: usize = g.__pc as usize;
                let saved: usize = (g.__fp as usize).wrapping_add(8);
                let code = self.read_or_empty(io, pc, 4)?;
                if points::four_at(&code, 0, 0xfd, 0x7b, 0xbf, 0xa9) || g.__fp as usize == 0 {
                    return Ok(g.__lr as usize);
                }
                if let Some(start) = self.at_breakpoint {
                    if pc >= start {
                        let body = self.read_or_empty(io, start, pc - start)?;
                        return if finds_frame_save(&body) {
                            self.stored_address(io, saved)
                        } else {
                            Ok(g.__lr as usize)
                        };
                    }
                }
                self.stored_address(io, saved)
            },
        }
    }

    /// Runs to the return address by a trap, on x86_64.
    fn finish_with_trap(&mut self, io: &mut Tape, ret: usize) -> (r: Result<WaitStatus, Stop>)
        ensures
            debugger::out(tape::step(r), final(io)@, final(self).state()) == x86_finished(
                old(self).state(),
                old(io)@,
                ret,
            ),
    {
        let existing: bool = self.breakpoints.contains_key(ret);
        assert(existing == self.state().bps.contains_key(ret));
        if !existing {
            self.set_breakpoint(io, ret)?;
        }
        let s = self.cont(io)?;
        if !existing {
            if matches!(s, WaitStatus::Stopped { .. }) {
                self.remove_breakpoint(io, ret)?;
            } else {
                let _ = self.forget_breakpoint(ret);
            }
        }
        Ok(s)
    }

    /// Clears the slot of the return address on every thread, as far as that succeeds, and frees it.
    fn free_hw_slot(&mut self, io: &mut Tape, slot: usize) -> (r: Result<(), Stop>)
        requires
            slot < 16,
        ensures
            debugger::out(tape::step(r), final(io)@, final(self).state()) == slot_freed(
                old(self).state(),
                old(io)@,
                slot as nat,
            ),
    {
        self.try_all(io, Arch::Aarch64, SlotEdit::ClearBreak { slot })?;
        self.release_hw_slot(slot);
        Ok(())
    }

    /// Runs to the return address by a slot of the debug registers, on aarch64.
    fn finish_with_hw_bp(&mut self, io: &mut Tape, ret: usize) -> (r: Result<WaitStatus, Stop>)
        ensures
            debugger::out(tape::step(r), final(io)@, final(self).state()) == arm_finished(
                old(self).state(),
                old(io)@,
                ret,
            ),
    {
        let slot: usize = self.alloc_hw_slot(ret)?;
        self.write_all(io, Arch::Aarch64, SlotEdit::SetBreak { slot, addr: ret })?;
        let stood: bool = self.at_breakpoint.is_some();
        self.leave_breakpoint(io)?;
        if stood && !self.stopped() {
            self.free_hw_slot(io, slot)?;
            return self.last_outcome();
        }
        self.resume(io)?;
        self.free_hw_slot(io, slot)?;
        self.handle_breakpoint_hit(io)?;
        self.last_outcome()
    }

    /// Runs until the current function returns.
    pub fn finish(&mut self, io: &mut Tape) -> (r: Result<WaitStatus, Stop>)
        ensures
            debugger::out(tape::step(r), final(io)@, final(self).state()) == finished(
                old(self).state(),
                old(io)@,
            ),
    {
        let ret: usize = self.return_address(io)?;
        match self.host {
            Arch::Aarch64 => self.finish_with_hw_bp(io, ret),
            Arch::X86_64 => self.finish_with_trap(io, ret),
        }
    }
}

/// What the beginning of a session gives: the session on success, else the reason for the stop. The
/// answers that are left are those of `o`.
pub open spec fn gives(r: Result<Debugger, Stop>, t: Rest, o: Out<()>) -> bool {
    &&& t == o.t
    &&& match r {
        Ok(me) => o.r is Ok && me.state() == o.d,
        Err(h) => o.r == Err::<(), StopSeq>(h.seq()),
    }
}

impl Debugger {
    /// Begins a session with the process `pid`, which was started or attached to.
    fn new_internal(io: &mut Tape, pid: i32, spawned: bool, host: Arch) -> (r: Result<Self, Stop>)
        ensures
            gives(r, final(io)@, begun(pid, spawned, host, old(io)@)),
    {
        let mut me = Debugger {
            pid,
            spawned,
            task: 0,
            threads: Vec::new(),
            current: 0,
            breakpoints: AddrMap::new(),
            last_status: None,
            at_breakpoint: None,
            arch: Arch::X86_64,
            host,
            hw_bp_slots: [None; 16],
            wp_slots: [None, None, None, None],
            at_watchpoint: None,
        };
        proof {
            let d = unborn(pid, spawned, host);
            assert(me.state().threads =~= d.threads);
            assert(me.state().bps =~= d.bps);
            assert(me.state().hw =~= d.hw);
            assert(me.state().wps =~= d.wps);
            assert(me.state() =~= d);
        }
        let s = me.wait(io)?;
        let ghost mid = me.state();
        me.last_status = Some(s);
        assert(me.state() =~= (Dbg { last: Some(s), ..mid }));
        let arch = mach::detect_arch(io)?;
        me.arch = arch;
        assert(me.state() =~= (Dbg { last: Some(s), arch, ..mid }));
        let task: u32 = get_task(io)?;
        me.task = task;
        assert(me.state() =~= (Dbg { last: Some(s), arch, task, ..mid }));
        me.refresh_threads(io)?;
        Ok(me)
    }

    /// Begins a session with the process `pid`, which the program has started under trace.
    pub fn new(io: &mut Tape, pid: i32, host: Arch) -> (r: Result<Self, Stop>)
        ensures
            gives(r, final(io)@, begun(pid, true, host, old(io)@)),
    {
        Self::new_internal(io, pid, true, host)
    }

    /// Begins a session with the running process `pid`.
    pub fn attach(io: &mut Tape, pid: i32, host: Arch) -> (r: Result<Self, Stop>)
        ensures
            gives(r, final(io)@, attached(pid, host, old(io)@)),
    {
        io.ask_traced(Request::Attach { pid })?;
        Self::new_internal(io, pid, false, host)
    }

    /// Ends the process.
    pub fn kill(&self, io: &mut Tape) -> (r: Result<(), Stop>)
        ensures
            (tape::step(r), final(io)@) == tape::ask_traced(old(io)@, Request::Kill),
    {
        io.ask_traced(Request::Kill)
    }

    /// Lets go of the process: it runs on. The ports are given back once that has succeeded.
    pub fn detach(&self, io: &mut Tape) -> (r: Result<(), Stop>)
        ensures
            (tape::step(r), final(io)@) == detached(self.state(), old(io)@),
    {
        io.ask_traced(Request::Detach)?;
        release_threads(io, &self.threads)?;
        deallocate_port(io, self.task)
    }

    /// Ends a process that the debugger started, and lets go of one that it attached to.
    pub fn shutdown(&self, io: &mut Tape) -> (r: Result<(), Stop>)
        ensures
            (tape::step(r), final(io)@) == (if self.state().spawned {
                tape::ask_traced(old(io)@, Request::Kill)
            } else {
                detached(self.state(), old(io)@)
            }),
            (tape::step(r), final(io)@) == shut_down(self.state(), old(io)@),
    {
        if self.spawned {
            self.kill(io)
        } else {
            self.detach(io)
        }
    }
}

/// Whether some four bytes of the code save the frame.
fn finds_frame_save(code: &Vec<u8>) -> (r: bool)
    ensures
        r == saves_frame(code@),
{
    let n: usize = code.len();
    if n < 4 {
        return false;
    }
    let mut i: usize = 0;
    while i <= n - 4
        invariant
            n == code@.len(),
            n >= 4,
            i <= n - 3,
            forall|k: int|
                0 <= k < i ==> !(#[trigger] code@[k] == 0xfd && code@[k + 1] == 0x7b && code@[k + 3]
                    == 0xa9),
        decreases n - i,
    {
        if code[i] == 0xfd && code[i + 1] == 0x7b && code[i + 3] == 0xa9 {
            return true;
        }
        i = i + 1;
    }
    false
}

/// Whether two rows of bytes are the same.
fn same_bytes(a: &Vec<u8>, b: &Vec<u8>) -> (r: bool)
    ensures
        r == (a@ == b@),
{
    if a.len() != b.len() {
        return false;
    }
    let mut i: usize = 0;
    while i < a.len()
        invariant
            i <= a@.len(),
            a@.len() == b@.len(),
            forall|k: int| 0 <= k < i ==> a@[k] == b@[k],
        decreases a.len() - i,
    {
        if a[i] != b[i] {
            return false;
        }
        i = i + 1;
    }
    assert(a@ =~= b@);
    true
}

} // verus!
