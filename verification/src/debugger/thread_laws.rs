//! What holds of the threads of the process: how they are listed, suspended and brought up to date.
use crate::arch::Arch;
use crate::debugger::threads;
use crate::debugger::{Dbg, ThreadEntry, ThreadSummary, WpSeq};
use crate::mach;
use crate::mach::SlotEdit;
use crate::register::Registers;
use crate::tape::{AnsSeq, Answer, Halt, Request, Rest, StopSeq};
use vstd::prelude::*;

verus! {

/// The thread of the first port is the main one.
pub proof fn law_main_thread_is_the_first(t: Rest, task: u32, ports: Seq<u32>)
    requires
        t.len() > 0 && t[0] == AnsSeq::Ports(ports),
    ensures
        threads::first_thread_read(Seq::empty(), task).0 == Err::<u32, StopSeq>(
            Halt::Ask(Request::Threads { task }),
        ),
        ports.len() > 0 ==> threads::first_thread_read(t, task) == (Ok::<u32, StopSeq>(ports[0]), t.skip(1)),
        ports.len() == 0 ==> threads::first_thread_read(t, task).0 is Err,
{
}

/// A thread that cannot tell its identifier has zero.
pub proof fn law_thread_identifier(t: Rest, port: u32)
    ensures
        t.len() == 0 ==> threads::id_read(t, port).0 == Err::<u64, StopSeq>(
            Halt::Ask(Request::ThreadId { port }),
        ),
        t.len() > 0 ==> threads::id_read(t, port).1 == t.skip(1),
        t.len() > 0 ==> (t[0] matches Answer::Id(i) ==> threads::id_read(t, port).0 == Ok::<u64, StopSeq>(i)),
        t.len() > 0 && !(t[0] is Id) ==> threads::id_read(t, port).0 == Ok::<u64, StopSeq>(0),
{
}

/// The thread with an identifier is the first in the list that has it.
pub proof fn law_thread_is_found(ts: Seq<ThreadEntry>, tid: u64, i: nat)
    ensures
        threads::find_tid(ts, tid, i) matches Some(k) ==> i <= k < ts.len() && ts[k as int].tid == tid
            && forall|j: int| i <= j < k ==> (#[trigger] ts[j]).tid != tid,
        threads::find_tid(ts, tid, i) is None ==> forall|j: int|
            i <= j < ts.len() ==> (#[trigger] ts[j]).tid != tid,
    decreases ts.len() - i,
{
    if i < ts.len() {
        law_thread_is_found(ts, tid, i + 1);
    }
}

/// The list has one entry for each port, in their order: with the port, and with whether the thread is
/// suspended, as the old list has it by the identifier. A new thread is not suspended.
pub proof fn law_list_has_every_port(
    d: Dbg,
    t: Rest,
    ports: Seq<u32>,
    before: Seq<ThreadEntry>,
    done: Seq<ThreadEntry>,
    i: nat,
)
    requires
        i <= ports.len(),
    ensures
        threads::entries_from(d, t, ports, before, done, i).0 matches Ok(now) ==> {
            &&& now.len() == done.len() + (ports.len() - i)
            &&& forall|k: int| 0 <= k < done.len() ==> #[trigger] now[k] == done[k]
            &&& forall|k: int|
                done.len() <= k < now.len() ==> (#[trigger] now[k]).port == ports[k - done.len() + i]
            &&& forall|k: int|
                done.len() <= k < now.len() ==> (#[trigger] now[k]).suspended == (match threads::find_tid(
                    before,
                    now[k].tid,
                    0,
                ) {
                    Some(j) => before[j as int].suspended,
                    None => false,
                })
        },
    decreases ports.len() - i,
{
    if i < ports.len() {
        let port = ports[i as int];
        match threads::id_read(t, port) {
            (Ok(tid), u) => match threads::find_tid(before, tid, 0) {
                Some(k) => {
                    let e = ThreadEntry { port, tid, suspended: before[k as int].suspended };
                    law_list_has_every_port(d, u, ports, before, done.push(e), i + 1);
                },
                None => match threads::slots_applied(d, u, port) {
                    (Ok(_), v) => {
                        let e = ThreadEntry { port, tid, suspended: false };
                        law_list_has_every_port(d, v, ports, before, done.push(e), i + 1);
                    },
                    _ => {},
                },
            },
            _ => {},
        }
    }
}

/// A list that is brought up to date is that of the ports that the system names. What was current stays
/// current by its identifier, and is the first thread where it has gone. The ports of the old list are
/// given back, in their order.
pub proof fn law_refresh(d: Dbg, t: Rest, ports: Seq<u32>, now: Seq<ThreadEntry>, u: Rest)
    requires
        t.len() > 0 && t[0] == AnsSeq::Ports(ports),
        threads::entries_from(d, t.skip(1), ports, d.threads, Seq::empty(), 0) == (Ok::<_, StopSeq>(now), u),
    ensures
        threads::refreshed(d, Seq::empty()).r == Err::<(), StopSeq>(
            Halt::Ask(Request::Threads { task: d.task }),
        ),
        d.threads.len() > 0 && u.len() == 0 ==> threads::refreshed(d, t).r == Err::<(), StopSeq>(
            Halt::Ask(Request::Release { port: d.threads[0].port }),
        ),
        threads::refreshed(d, t).r is Ok ==> {
            let e = threads::refreshed(d, t).d;
            &&& e.threads == now
            &&& e.bps == d.bps && e.hw == d.hw && e.wps == d.wps && e.at_bp == d.at_bp && e.last == d.last
            &&& d.current < d.threads.len() && (exists|k: int|
                0 <= k < now.len() && (#[trigger] now[k]).tid == d.threads[d.current as int].tid) && now.len()
                <= usize::MAX ==> e.current < now.len() && now[e.current as int].tid
                == d.threads[d.current as int].tid
            &&& d.current < d.threads.len() && (forall|k: int|
                0 <= k < now.len() ==> (#[trigger] now[k]).tid != d.threads[d.current as int].tid) ==> e.current
                == 0
            &&& d.current >= d.threads.len() ==> e.current == 0
        },
{
    if d.current < d.threads.len() {
        law_thread_is_found(now, d.threads[d.current as int].tid, 0);
    }
}

/// A thread that is new gets every slot that is in use: a watchpoint goes to its slot with its address,
/// its kind and its length, and on aarch64 so does a breakpoint. Slots that are not in use are passed
/// over.
pub proof fn law_new_thread_gets_the_slots(
    t: Rest,
    port: u32,
    host: Arch,
    hw: Seq<Option<usize>>,
    w: Seq<Option<WpSeq>>,
    i: nat,
    u: Rest,
)
    ensures
        i < hw.len() && hw[i as int] is None ==> threads::breaks_applied(t, port, hw, i)
            == threads::breaks_applied(t, port, hw, i + 1),
        i < hw.len() && (hw[i as int] matches Some(addr) && mach::slot_write(
            t,
            port,
            Arch::Aarch64,
            SlotEdit::SetBreak { slot: i as usize, addr },
        ) == (Ok::<(), StopSeq>(()), u)) ==> threads::breaks_applied(t, port, hw, i)
            == threads::breaks_applied(u, port, hw, i + 1),
        i < hw.len() && (hw[i as int] matches Some(addr) && mach::slot_write(
            t,
            port,
            Arch::Aarch64,
            SlotEdit::SetBreak { slot: i as usize, addr },
        ).0 is Err) ==> threads::breaks_applied(t, port, hw, i).0 is Err,
        i < w.len() && w[i as int] is None ==> threads::watches_applied(t, port, host, w, i)
            == threads::watches_applied(t, port, host, w, i + 1),
        i < w.len() && (w[i as int] matches Some(p) && mach::slot_write(
            t,
            port,
            host,
            SlotEdit::SetWatch { slot: i as usize, addr: p.addr, cond: p.cond, len: p.len },
        ) == (Ok::<(), StopSeq>(()), u)) ==> threads::watches_applied(t, port, host, w, i)
            == threads::watches_applied(u, port, host, w, i + 1),
        i < w.len() && (w[i as int] matches Some(p) && mach::slot_write(
            t,
            port,
            host,
            SlotEdit::SetWatch { slot: i as usize, addr: p.addr, cond: p.cond, len: p.len },
        ).0 is Err) ==> threads::watches_applied(t, port, host, w, i).0 is Err,
        threads::breaks_applied(t, port, hw, hw.len()) == (Ok::<(), StopSeq>(()), t),
        threads::watches_applied(t, port, host, w, w.len()) == (Ok::<(), StopSeq>(()), t),
{
}

/// On x86_64 a new thread needs the watchpoints only, on aarch64 the breakpoints and then the watchpoints.
pub proof fn law_new_thread_needs(d: Dbg, t: Rest, port: u32, u: Rest)
    ensures
        d.host == Arch::X86_64 ==> threads::slots_applied(d, t, port) == threads::watches_applied(
            t,
            port,
            Arch::X86_64,
            d.wps,
            0,
        ),
        d.host == Arch::Aarch64 && threads::breaks_applied(t, port, d.hw, 0) == (Ok::<(), StopSeq>(()), u)
            ==> threads::slots_applied(d, t, port) == threads::watches_applied(
            u,
            port,
            Arch::Aarch64,
            d.wps,
            0,
        ),
{
}

/// A thread is suspended or resumed by its own port, and only what is noted of that thread changes; an
/// index without a thread is refused, and nothing is asked.
pub proof fn law_suspending_concerns_one_thread(d: Dbg, t: Rest, idx: usize, suspend: bool, other: int)
    requires
        0 <= other < d.threads.len(),
    ensures
        idx >= d.threads.len() ==> (threads::marked(d, t, idx, suspend).r matches Err(Halt::Fail(_)))
            && threads::marked(d, t, idx, suspend).t == t && threads::marked(d, t, idx, suspend).d == d,
        idx < d.threads.len() && t.len() == 0 ==> threads::marked(d, t, idx, true).r == Err::<(), StopSeq>(
            Halt::Ask(Request::Suspend { port: d.threads[idx as int].port }),
        ) && threads::marked(d, t, idx, false).r == Err::<(), StopSeq>(
            Halt::Ask(Request::Resume { port: d.threads[idx as int].port }),
        ),
        idx < d.threads.len() && t.len() > 0 && t[0] == AnsSeq::Code(0) ==> {
            let o = threads::marked(d, t, idx, suspend);
            &&& o.r is Ok && o.t == t.skip(1)
            &&& o.d.threads.len() == d.threads.len()
            &&& o.d.threads[other].port == d.threads[other].port && o.d.threads[other].tid
                == d.threads[other].tid
            &&& o.d.threads[other].suspended == (if other == idx {
                suspend
            } else {
                d.threads[other].suspended
            })
            &&& o.d.current == d.current && o.d.bps == d.bps && o.d.hw == d.hw && o.d.wps == d.wps
        },
        idx < d.threads.len() && t.len() > 0 && (t[0] matches Answer::Code(c) && c != 0) ==> threads::marked(
            d,
            t,
            idx,
            suspend,
        ).r is Err && threads::marked(d, t, idx, suspend).d == d,
{
}

/// What is shown of the threads: one entry for each, in their order, with its number, its identifier,
/// whether it is suspended and whether it is the current one.
pub proof fn law_summaries(d: Dbg, t: Rest, i: nat)
    requires
        i <= d.threads.len() <= usize::MAX,
    ensures
        threads::summaries_from(d, t, i).0 matches Ok(s) ==> s.len() == d.threads.len() - i && forall|k: int|
            0 <= k < s.len() ==> {
                &&& (#[trigger] s[k]).index == i + k
                &&& s[k].tid == d.threads[i + k].tid
                &&& s[k].suspended == d.threads[i + k].suspended
                &&& s[k].current == (i + k == d.current)
            },
    decreases d.threads.len() - i,
{
    if i < d.threads.len() {
        let g = mach::regs_read(t, d.threads[i as int].port);
        law_summaries(d, g.1, i + 1);
        if threads::summaries_from(d, t, i).0 is Ok {
            let s = threads::summaries_from(d, t, i).0->Ok_0;
            let r = threads::summaries_from(d, g.1, i + 1).0->Ok_0;
            assert forall|k: int| 0 <= k < s.len() implies ({
                &&& (#[trigger] s[k]).index == i + k
                &&& s[k].tid == d.threads[i + k].tid
                &&& s[k].suspended == d.threads[i + k].suspended
                &&& s[k].current == (i + k == d.current)
            }) by {
                if k > 0 {
                    assert(s[k] == r[k - 1]);
                }
            }
        }
    }
}

/// The program counter that is shown of a thread is read by its port.
pub proof fn law_summary_has_the_program_counter(
    d: Dbg,
    t: Rest,
    i: nat,
    regs: Registers,
    rest: Seq<ThreadSummary>,
    u: Rest,
)
    requires
        i < d.threads.len(),
        t.len() > 0,
        threads::summaries_from(d, t.skip(1), i + 1) == (Ok::<_, StopSeq>(rest), u),
    ensures
        threads::summaries_from(d, Seq::empty(), i).0 == Err::<Seq<ThreadSummary>, StopSeq>(
            Halt::Ask(Request::GetRegisters { port: d.threads[i as int].port }),
        ),
        t[0] == AnsSeq::Registers(regs) ==> (threads::summaries_from(d, t, i).0 matches Ok(s) && s.len() > 0
            && s[0].pc == Some(match regs {
            Registers::X86(g) => g.__rip,
            Registers::Arm(g) => g.__pc,
        })),
        t[0] is Failed ==> (threads::summaries_from(d, t, i).0 matches Ok(s) && s.len() > 0 && s[0].pc is None),
{
}

/// A thread that was not there before gets the slots that are in use before it is listed; one that was is
/// listed as it is.
pub proof fn law_new_threads_get_slots(
    d: Dbg,
    t: Rest,
    ports: Seq<u32>,
    before: Seq<ThreadEntry>,
    done: Seq<ThreadEntry>,
    i: nat,
    tid: u64,
    u: Rest,
)
    requires
        i < ports.len(),
        t.len() > 0 && t[0] == AnsSeq::Id(tid),
    ensures
        threads::entries_from(d, Seq::empty(), ports, before, done, i).0 == Err::<
            Seq<ThreadEntry>,
            StopSeq,
        >(Halt::Ask(Request::ThreadId { port: ports[i as int] })),
        (forall|k: int| 0 <= k < before.len() ==> (#[trigger] before[k]).tid != tid) ==> {
            &&& threads::slots_applied(d, t.skip(1), ports[i as int]).0 matches Err(h)
                ==> threads::entries_from(d, t, ports, before, done, i).0 == Err::<Seq<ThreadEntry>, StopSeq>(h)
            &&& threads::slots_applied(d, t.skip(1), ports[i as int]) == (Ok::<(), StopSeq>(()), u)
                ==> threads::entries_from(d, t, ports, before, done, i) == threads::entries_from(
                d,
                u,
                ports,
                before,
                done.push(ThreadEntry { port: ports[i as int], tid, suspended: false }),
                i + 1,
            )
        },
        (exists|k: int| 0 <= k < before.len() && (#[trigger] before[k]).tid == tid) ==> exists|s: bool|
            threads::entries_from(d, t, ports, before, done, i) == #[trigger] threads::entries_from(
                d,
                t.skip(1),
                ports,
                before,
                done.push(ThreadEntry { port: ports[i as int], tid, suspended: s }),
                i + 1,
            ),
{
    law_thread_is_found(before, tid, 0);
    if let Some(k) = threads::find_tid(before, tid, 0) {
        let s = before[k as int].suspended;
        assert(threads::entries_from(d, t, ports, before, done, i) == threads::entries_from(
            d,
            t.skip(1),
            ports,
            before,
            done.push(ThreadEntry { port: ports[i as int], tid, suspended: s }),
            i + 1,
        ));
    }
}

} // verus!
