//! What holds of the operations of a session taken together.
use crate::arch::Arch;
use crate::breakpoint;
use crate::debugger;
use crate::debugger::points;
use crate::debugger::run;
use crate::debugger::threads;
use crate::debugger::{Dbg, Debugger, ThreadEntry, WaitStatus, SIGTRAP};
use crate::mach;
use crate::mach::SlotEdit;
use crate::register::{WatchCondition, WatchLen};
use crate::tape::{Halt, Rest};
use vstd::prelude::*;

verus! {

/// What no operation on a running session changes: the process, how it was found and the machine.
pub open spec fn same_session(d: Dbg, e: Dbg) -> bool {
    &&& d.pid == e.pid
    &&& d.spawned == e.spawned
    &&& d.task == e.task
    &&& d.arch == e.arch
    &&& d.host == e.host
}

/// Whether two states have the same breakpoints, slots and watchpoints.
pub open spec fn same_points(d: Dbg, e: Dbg) -> bool {
    d.bps == e.bps && d.hw == e.hw && d.wps == e.wps
}

/// Whether every breakpoint of the table is set.
pub open spec fn all_set(d: Dbg) -> bool {
    forall|a: usize| #[trigger] d.bps.contains_key(a) ==> d.bps[a].enabled
}

/// What holds of the state of every session: there are sixteen slots for breakpoints and four for
/// watchpoints, and the threads can be counted.
pub open spec fn sized(d: Dbg) -> bool {
    &&& d.hw.len() == 16
    &&& d.wps.len() == 4
    &&& d.threads.len() <= usize::MAX
}

/// The state of every session has its sizes.
pub proof fn law_sizes(me: Debugger)
    ensures
        sized(me.state()),
{
    assert(me.threads@.len() == me.threads.len());
}

/// Waiting changes no breakpoint, slot or watchpoint, and leaves the session the same.
pub proof fn law_waiting_keeps_points(d: Dbg, t: Rest)
    ensures
        same_session(d, run::waited(d, t).d),
        same_points(d, run::waited(d, t).d),
        same_session(d, run::resumed(d, t).d),
        same_points(d, run::resumed(d, t).d),
{
}

/// Once the process has trapped and a thread is found at a breakpoint, the session stands at a
/// breakpoint that is set, and the program counter is its address: the step behind the trap is taken
/// back.
pub proof fn law_hit_is_a_breakpoint(d: Dbg, t: Rest)
    requires
        sized(d),
        run::hits_handled(d, t).r is Ok,
    ensures
        ({
            let e = run::hits_handled(d, t).d;
            &&& same_session(d, e)
            &&& same_points(d, e)
            &&& e == d || {
                &&& e.at_bp is Some
                &&& debugger::is_set(e, e.at_bp->0)
                &&& e.current < e.threads.len()
                &&& e.last == Some(
                    WaitStatus::Stopped { signal: SIGTRAP, pc: e.at_bp->0 as u64 },
                )
            }
        }),
{
    if run::trapped(d) {
        lemma_rewound(d, t, 0, None);
    }
}

proof fn lemma_rewound(d: Dbg, t: Rest, i: nat, hit: Option<(usize, usize)>)
    requires
        hit matches Some(p) ==> p.0 < d.threads.len() && debugger::is_set(d, p.1),
        d.threads.len() <= usize::MAX,
    ensures
        run::rewound(d, t, i, hit).0 matches Ok(Some(p)) ==> p.0 < d.threads.len() && debugger::is_set(
            d,
            p.1,
        ),
    decreases d.threads.len() - i,
{
    if i < d.threads.len() {
        let port = d.threads[i as int].port;
        match mach::regs_read(t, port) {
            (Err(_), u) => lemma_rewound(d, u, i + 1, hit),
            (Ok(regs), u) => {
                let addr = (regs.spec_pc() as usize).wrapping_sub(d.arch.trap_advance());
                if debugger::is_set(d, addr) {
                    let v = mach::regs_write(u, port, regs.at(addr as u64)).1;
                    let next = if hit is None {
                        Some((i as usize, addr))
                    } else {
                        hit
                    };
                    lemma_rewound(d, v, i + 1, next);
                } else {
                    lemma_rewound(d, u, i + 1, hit);
                }
            },
        }
    }
}

/// What the breakpoints of a step leave: those at `done` were not there before.
proof fn lemma_installed(d0: Dbg, d: Dbg, t: Rest, at: Seq<usize>, done: Seq<usize>, i: nat)
    requires
        d.host is X86_64,
        all_set(d0),
        all_set(d),
        same_session(d0, d),
        d.hw == d0.hw,
        d.wps == d0.wps,
        forall|a: usize| #[trigger] done.contains(a) ==> !d0.bps.contains_key(a),
        d.bps.remove_keys(done.to_set()) == d0.bps,
    ensures
        ({
            let o = run::installed(d, t, at, done, i);
            &&& same_session(d0, o.d)
            &&& o.d.hw == d0.hw
            &&& o.d.wps == d0.wps
            &&& all_set(o.d)
            &&& o.r matches Ok(all) ==> {
                &&& forall|a: usize| #[trigger] all.contains(a) ==> !d0.bps.contains_key(a)
                &&& o.d.bps.remove_keys(all.to_set()) == d0.bps
            }
        }),
    decreases at.len() - i,
{
    if i < at.len() {
        let a = at[i as int];
        if debugger::is_set(d, a) {
            lemma_installed(d0, d, t, at, done, i + 1);
        } else {
            let o = points::break_set(d, t, a);
            if o.r is Ok {
                let more = done.push(a);
                assert(!d0.bps.contains_key(a));
                assert forall|k: usize| #[trigger] more.contains(k) implies !d0.bps.contains_key(k) by {
                    if k != a {
                        assert(done.contains(k));
                    }
                }
                assert(more.to_set() =~= done.to_set().insert(a)) by {
                    assert forall|k: usize| more.contains(k) == (done.contains(k) || k == a) by {
                        if done.contains(k) {
                            let j = choose|j: int| 0 <= j < done.len() && done[j] == k;
                            assert(more[j] == k);
                        }
                        assert(more[done.len() as int] == a);
                    }
                }
                assert(o.d.bps.remove_keys(more.to_set()) =~= d0.bps);
                lemma_installed(d0, o.d, o.t, at, more, i + 1);
            } else if o.r matches Err(Halt::Fail(_)) {
                lemma_installed(d0, o.d, o.t, at, done, i + 1);
            }
        }
    }
}

proof fn lemma_uninstalled(d0: Dbg, d: Dbg, t: Rest, at: Seq<usize>, i: nat)
    requires
        d.host is X86_64,
        i <= at.len(),
        same_session(d0, d),
        d.hw == d0.hw,
        d.wps == d0.wps,
        d.bps.remove_keys(at.skip(i as int).to_set()) == d0.bps,
    ensures
        ({
            let o = run::uninstalled(d, t, at, i);
            &&& same_session(d0, o.d)
            &&& o.r is Ok ==> same_points(d0, o.d)
        }),
    decreases at.len() - i,
{
    let rest = at.skip(i as int);
    if i < at.len() {
        let o = points::break_removed(d, t, at[i as int]);
        let less = at.skip((i + 1) as int);
        assert(rest.to_set() =~= less.to_set().insert(at[i as int])) by {
            assert(rest[0] == at[i as int]);
            assert forall|k: usize| rest.contains(k) == (less.contains(k) || k == at[i as int]) by {
                if less.contains(k) {
                    let j = choose|j: int| 0 <= j < less.len() && less[j] == k;
                    assert(rest[j + 1] == k);
                }
                if rest.contains(k) {
                    let j = choose|j: int| 0 <= j < rest.len() && rest[j] == k;
                    if j > 0 {
                        assert(less[j - 1] == k);
                    }
                }
            }
        }
        assert(o.d.bps.remove_keys(less.to_set()) =~= d0.bps);
        lemma_uninstalled(d0, o.d, o.t, at, i + 1);
    } else {
        assert(d.bps =~= d.bps.remove_keys(rest.to_set()));
    }
}

/// A step by traps takes every breakpoint that it set away again: the breakpoints after it are those
/// before it.
pub proof fn law_step_keeps_breakpoints(d: Dbg, t: Rest)
    requires
        d.host is X86_64,
        all_set(d),
    ensures
        same_session(d, run::stepped_thread(d, t).d),
        run::stepped_thread(d, t).r is Ok ==> same_points(d, run::stepped_thread(d, t).d),
{
    if let (Ok(regs), u) = debugger::regs_of(d, t) {
        let pc = regs.spec_pc() as usize;
        if let (Ok(code), v) = debugger::mem_or_empty(d, u, pc, 16) {
            let none = Seq::<usize>::empty();
            let at = run::candidates(d, code, pc);
            assert(d.bps.remove_keys(none.to_set()) =~= d.bps);
            lemma_installed(d, d, v, at, none, 0);
            let o = run::installed(d, v, at, none, 0);
            if let Ok(set) = o.r {
                let w = run::resumed(o.d, o.t);
                if w.r is Ok {
                    let p = run::hits_handled(w.d, w.t);
                    if p.r is Ok {
                        assert(set.skip(0) =~= set);
                        lemma_uninstalled(d, p.d, p.t, set, 0);
                    }
                }
            }
        }
    }
}

/// Whether two states have breakpoints at the same addresses, all of them set, and the same slots and
/// watchpoints.
pub open spec fn same_places(d: Dbg, e: Dbg) -> bool {
    &&& d.bps.dom() == e.bps.dom()
    &&& all_set(e)
    &&& d.hw == e.hw
    &&& d.wps == e.wps
}

/// Stepping over a breakpoint puts it back: it is set again, and no other breakpoint has changed.
pub proof fn law_step_over_restores(d: Dbg, t: Rest, addr: usize)
    requires
        d.host is X86_64,
        all_set(d),
        run::stepped_over(d, t, addr).r is Ok,
    ensures
        ({
            let e = run::stepped_over(d, t, addr).d;
            &&& same_session(d, e)
            &&& same_places(d, e)
            &&& debugger::is_set(e, addr)
            &&& e.bps[addr].addr == d.bps[addr].addr
            &&& e.bps.remove(addr) == d.bps.remove(addr)
        }),
{
    let out = Dbg { bps: d.bps.remove(addr), ..d };
    let u = breakpoint::disarmed(d.bps[addr], t, d.host).1;
    let (r, v) = debugger::regs_of(out, u);
    let w = mach::regs_write(v, debugger::port_of(out)->Ok_0, r->Ok_0.at(addr as u64)).1;
    law_step_keeps_breakpoints(out, w);
    let e = run::stepped_over(d, t, addr).d;
    assert(e.bps.remove(addr) =~= d.bps.remove(addr));
    assert(e.bps.dom() =~= d.bps.dom());
    assert forall|a: usize| #[trigger] e.bps.contains_key(a) implies e.bps[a].enabled by {
        if a != addr {
            assert(d.bps.contains_key(a));
            assert(e.bps.remove(addr)[a] == d.bps.remove(addr)[a]);
        }
    }
}

proof fn lemma_left(d: Dbg, t: Rest)
    requires
        d.host is X86_64,
        all_set(d),
        run::breakpoint_left(d, t).r is Ok,
    ensures
        same_session(d, run::breakpoint_left(d, t).d),
        same_places(d, run::breakpoint_left(d, t).d),
{
    if let Some(addr) = d.at_bp {
        law_step_over_restores(Dbg { at_bp: None, ..d }, t, addr);
    }
}

/// A step, from a breakpoint or not, leaves the breakpoints where they were.
pub proof fn law_step_keeps_places(d: Dbg, t: Rest)
    requires
        d.host is X86_64,
        all_set(d),
        run::stepped(d, t).r is Ok,
    ensures
        same_session(d, run::stepped(d, t).d),
        same_places(d, run::stepped(d, t).d),
{
    if d.at_bp is Some {
        lemma_left(d, t);
    } else {
        law_step_keeps_breakpoints(d, t);
    }
}

proof fn lemma_x86_watch_hit(d: Dbg, t: Rest, i: nat)
    ensures
        same_session(d, run::x86_watch_hit(d, t, i).d),
        same_points(d, run::x86_watch_hit(d, t, i).d),
    decreases d.threads.len() - i,
{
    if i < d.threads.len() {
        let u = mach::hits_read(t, d.threads[i as int].port).1;
        lemma_x86_watch_hit(d, u, i + 1);
    }
}

/// Running to the next stop leaves the breakpoints where they were.
pub proof fn law_cont_keeps_places(d: Dbg, t: Rest)
    requires
        d.host is X86_64,
        all_set(d),
        run::continued(d, t).r is Ok,
    ensures
        same_session(d, run::continued(d, t).d),
        same_places(d, run::continued(d, t).d),
{
    lemma_left(d, t);
    let o = run::breakpoint_left(d, t);
    if !(d.at_bp is Some && !run::is_stopped(o.d)) {
        let p = run::resumed(o.d, o.t);
        let q = run::hits_handled(p.d, p.t);
        lemma_x86_watch_hit(Dbg { at_wp: None, ..q.d }, q.t, 0);
    }
}

/// What is left of the breakpoints once the one at `ret` is taken away again.
proof fn lemma_back(d: Dbg, c: Dbg, e: Dbg, ret: usize)
    requires
        !d.bps.contains_key(ret),
        c.bps.dom() == d.bps.dom().insert(ret),
        all_set(c),
        c.hw == d.hw,
        c.wps == d.wps,
        e.bps == c.bps.remove(ret),
        e.hw == c.hw,
        e.wps == c.wps,
    ensures
        same_places(d, e),
{
    assert(e.bps.dom() =~= d.bps.dom());
    assert forall|a: usize| #[trigger] e.bps.contains_key(a) implies e.bps[a].enabled by {
        assert(c.bps.contains_key(a));
    }
}

proof fn lemma_break_set(d: Dbg, t: Rest, addr: usize)
    requires
        d.host is X86_64,
        all_set(d),
        points::break_set(d, t, addr).r is Ok,
    ensures
        same_session(d, points::break_set(d, t, addr).d),
        all_set(points::break_set(d, t, addr).d),
        points::break_set(d, t, addr).d.bps.dom() == d.bps.dom().insert(addr),
        points::break_set(d, t, addr).d.hw == d.hw,
        points::break_set(d, t, addr).d.wps == d.wps,
{
    assert(points::break_set(d, t, addr).d.bps.dom() =~= d.bps.dom().insert(addr));
}

/// Running to the return address leaves the breakpoints where they were: the one at that address is gone
/// again unless it was there before.
pub proof fn law_finish_keeps_places(d: Dbg, t: Rest, ret: usize)
    requires
        d.host is X86_64,
        all_set(d),
        run::x86_finished(d, t, ret).r is Ok,
    ensures
        same_session(d, run::x86_finished(d, t, ret).d),
        same_places(d, run::x86_finished(d, t, ret).d),
{
    if d.bps.contains_key(ret) {
        law_cont_keeps_places(d, t);
    } else {
        lemma_break_set(d, t, ret);
        let o = points::break_set(d, t, ret);
        law_cont_keeps_places(o.d, o.t);
        lemma_back(d, run::continued(o.d, o.t).d, run::x86_finished(d, t, ret).d, ret);
    }
}

/// On aarch64 the slot for the return address is free again once the function has returned, when the
/// process did not stand at a breakpoint before.
pub proof fn law_finish_frees_its_slot(d: Dbg, t: Rest, ret: usize)
    requires
        sized(d),
        d.at_bp is None,
        run::arm_finished(d, t, ret).r is Ok,
    ensures
        same_session(d, run::arm_finished(d, t, ret).d),
        same_points(d, run::arm_finished(d, t, ret).d),
{
    lemma_free_slot(d.hw, 0);
    let slot = points::free_slot(d.hw, 0)->0;
    assert(d.hw.update(slot as int, Some(ret)).update(slot as int, None) =~= d.hw);
}

proof fn lemma_free_slot(hw: Seq<Option<usize>>, i: nat)
    ensures
        points::free_slot(hw, i) matches Some(s) ==> i <= s < hw.len() && hw[s as int] is None,
        points::free_slot(hw, i) is None ==> forall|k: int| i <= k < hw.len() ==> hw[k] is Some,
    decreases hw.len() - i,
{
    if i < hw.len() && hw[i as int] is Some {
        lemma_free_slot(hw, i + 1);
    }
}

proof fn lemma_slot_of(hw: Seq<Option<usize>>, addr: usize, s: nat, i: nat)
    requires
        i <= s < hw.len(),
        hw[s as int] == Some(addr),
        forall|k: int| 0 <= k < hw.len() && k != s ==> hw[k] != Some(addr),
    ensures
        points::slot_of(hw, addr, i) == Some(s),
    decreases hw.len() - i,
{
    if i < s {
        lemma_slot_of(hw, addr, s, i + 1);
    }
}

/// Taking a breakpoint away undoes setting it at an address where there was none: the breakpoints and
/// the slots are those before. Setting fails for want of a slot only when all sixteen are in use.
pub proof fn law_remove_undoes_set(d: Dbg, t: Rest, u: Rest, addr: usize)
    requires
        sized(d),
        !d.bps.contains_key(addr),
        d.host is Aarch64 ==> !d.hw.contains(Some(addr)),
        points::break_set(d, t, addr).r is Ok,
        points::break_removed(points::break_set(d, t, addr).d, u, addr).r is Ok,
    ensures
        debugger::is_set(points::break_set(d, t, addr).d, addr),
        same_session(d, points::break_removed(points::break_set(d, t, addr).d, u, addr).d),
        same_points(d, points::break_removed(points::break_set(d, t, addr).d, u, addr).d),
{
    let o = points::break_set(d, t, addr);
    let e = points::break_removed(o.d, u, addr).d;
    assert(e.bps =~= d.bps);
    if d.host is Aarch64 {
        lemma_free_slot(d.hw, 0);
        let slot = points::free_slot(d.hw, 0)->0;
        assert forall|k: int| 0 <= k < o.d.hw.len() && k != slot implies o.d.hw[k] != Some(addr) by {
            assert(d.hw.contains(d.hw[k]));
        }
        lemma_slot_of(o.d.hw, addr, slot, 0);
        assert(e.hw =~= d.hw);
    }
}

proof fn lemma_watch_free(w: Seq<Option<debugger::WpSeq>>, i: nat)
    ensures
        points::watch_free(w, i) matches Some(s) ==> i <= s < w.len() && w[s as int] is None,
    decreases w.len() - i,
{
    if i < w.len() && w[i as int] is Some {
        lemma_watch_free(w, i + 1);
    }
}

proof fn lemma_watch_at(w: Seq<Option<debugger::WpSeq>>, addr: usize, i: nat)
    ensures
        points::watch_at(w, addr, i) matches Some(s) ==> i <= s < w.len() && w[s as int] is Some
            && w[s as int]->0.addr == addr,
    decreases w.len() - i,
{
    if i < w.len() && !(w[i as int] matches Some(p) && p.addr == addr) {
        lemma_watch_at(w, addr, i + 1);
    }
}

/// A watchpoint that was set is in the slot that was given back, which is one of four. Setting an
/// address again gives the slot that it has and changes nothing; taking a new one away leaves the
/// watchpoints as they were before.
pub proof fn law_watchpoint_slots(
    d: Dbg,
    t: Rest,
    u: Rest,
    addr: usize,
    cond: WatchCondition,
    len: WatchLen,
)
    requires
        sized(d),
        points::watch_set(d, t, addr, cond, len).r is Ok,
    ensures
        ({
            let o = points::watch_set(d, t, addr, cond, len);
            let slot = o.r->Ok_0;
            &&& slot < 4
            &&& o.d.wps[slot as int] is Some
            &&& o.d.wps[slot as int]->0.addr == addr
            &&& points::watch_at(d.wps, addr, 0) is Some ==> o.d == d
            &&& points::watch_at(d.wps, addr, 0) is None && points::watch_removed(o.d, u, slot).r is Ok
                ==> points::watch_removed(o.d, u, slot).d.wps == d.wps
        }),
{
    lemma_watch_at(d.wps, addr, 0);
    lemma_watch_free(d.wps, 0);
    let o = points::watch_set(d, t, addr, cond, len);
    let slot = o.r->Ok_0;
    if points::watch_at(d.wps, addr, 0) is None {
        assert(o.d.wps.update(slot as int, None) =~= d.wps);
    }
}

/// Whether an entry is suspended exactly if the thread was suspended before; a new thread is not.
pub open spec fn inherits(before: Seq<ThreadEntry>, e: ThreadEntry) -> bool {
    match threads::find_tid(before, e.tid, 0) {
        Some(k) => e.suspended == before[k as int].suspended,
        None => !e.suspended,
    }
}

proof fn lemma_find_tid(ts: Seq<ThreadEntry>, tid: u64, i: nat)
    ensures
        match threads::find_tid(ts, tid, i) {
            Some(k) => i <= k < ts.len() && ts[k as int].tid == tid,
            None => forall|j: int| i <= j < ts.len() ==> ts[j].tid != tid,
        },
    decreases ts.len() - i,
{
    if i < ts.len() && ts[i as int].tid != tid {
        lemma_find_tid(ts, tid, i + 1);
    }
}

proof fn lemma_entries(
    d: Dbg,
    t: Rest,
    ports: Seq<u32>,
    before: Seq<ThreadEntry>,
    done: Seq<ThreadEntry>,
    i: nat,
)
    requires
        i <= ports.len(),
        done.len() == i,
        forall|j: int| 0 <= j < i ==> inherits(before, #[trigger] done[j]) && done[j].port == ports[j],
    ensures
        threads::entries_from(d, t, ports, before, done, i).0 matches Ok(v) ==> v.len() == ports.len()
            && forall|j: int|
            0 <= j < v.len() ==> inherits(before, #[trigger] v[j]) && v[j].port == ports[j],
    decreases ports.len() - i,
{
    if i < ports.len() {
        let port = ports[i as int];
        if let (Ok(tid), u) = threads::id_read(t, port) {
            lemma_find_tid(before, tid, 0);
            match threads::find_tid(before, tid, 0) {
                Some(k) => {
                    let e = ThreadEntry { port, tid, suspended: before[k as int].suspended };
                    lemma_entries(d, u, ports, before, done.push(e), i + 1);
                },
                None => {
                    let v = threads::slots_applied(d, u, port).1;
                    let e = ThreadEntry { port, tid, suspended: false };
                    lemma_entries(d, v, ports, before, done.push(e), i + 1);
                },
            }
        }
    }
}

/// Bringing the list of threads up to date keeps what the user chose: a thread that was suspended is
/// noted so, and the current thread stays current while it lives; else the first is. The breakpoints,
/// the slots and the watchpoints stay.
pub proof fn law_refresh_keeps_choices(d: Dbg, t: Rest)
    requires
        sized(d),
        threads::refreshed(d, t).r is Ok,
        threads::refreshed(d, t).d.threads.len() <= usize::MAX,
    ensures
        ({
            let e = threads::refreshed(d, t).d;
            &&& same_session(d, e)
            &&& same_points(d, e)
            &&& forall|j: int| 0 <= j < e.threads.len() ==> inherits(d.threads, #[trigger] e.threads[j])
            &&& d.current < d.threads.len() && (exists|j: int|
                0 <= j < e.threads.len() && (#[trigger] e.threads[j]).tid
                    == d.threads[d.current as int].tid) ==> e.current < e.threads.len()
                && e.threads[e.current as int].tid == d.threads[d.current as int].tid
            &&& !(d.current < d.threads.len() && exists|j: int|
                0 <= j < e.threads.len() && (#[trigger] e.threads[j]).tid
                    == d.threads[d.current as int].tid) ==> e.current == 0
        }),
{
    let (ports, u) = threads::threads_read(t, d.task);
    lemma_entries(d, u, ports->Ok_0, d.threads, Seq::empty(), 0);
    let e = threads::refreshed(d, t).d;
    if d.current < d.threads.len() {
        lemma_find_tid(e.threads, d.threads[d.current as int].tid, 0);
    }
}

/// A slot that is given out was free, and none is given out only where all are in use.
pub proof fn law_slots_are_free_first(hw: Seq<Option<usize>>)
    ensures
        points::free_slot(hw, 0) matches Some(s) ==> s < hw.len() && hw[s as int] is None,
        points::free_slot(hw, 0) is None ==> forall|k: int| 0 <= k < hw.len() ==> hw[k] is Some,
{
    lemma_free_slot(hw, 0);
}

/// Whether every slot in use is that of a breakpoint that is set.
pub open spec fn slots_match(d: Dbg) -> bool {
    forall|i: int| 0 <= i < d.hw.len() && #[trigger] d.hw[i] is Some ==> debugger::is_set(d, d.hw[i]->0)
}

/// Whether the breakpoints and the slots in use of `d` are there in `e`, unchanged.
pub open spec fn kept_in(d: Dbg, e: Dbg) -> bool {
    &&& forall|a: usize| #[trigger]
        d.bps.contains_key(a) ==> e.bps.contains_key(a) && e.bps[a] == d.bps[a]
    &&& e.hw.len() == d.hw.len()
    &&& forall|i: int| 0 <= i < d.hw.len() && #[trigger] d.hw[i] is Some ==> e.hw[i] == d.hw[i]
    &&& e.wps == d.wps
}

/// A step by slots changes no breakpoint and no slot that was in use.
pub proof fn law_slot_step_keeps_breakpoints(d: Dbg, t: Rest)
    requires
        d.host is Aarch64,
        sized(d),
        all_set(d),
        slots_match(d),
        run::stepped_thread(d, t).r is Ok,
    ensures
        same_session(d, run::stepped_thread(d, t).d),
        kept_in(d, run::stepped_thread(d, t).d),
{
    let (r, u) = debugger::regs_of(d, t);
    let pc = r->Ok_0.spec_pc() as usize;
    let a = pc.wrapping_add(4);
    let (code, v) = debugger::mem_or_empty(d, u, pc, 16);
    let none = Seq::<usize>::empty();
    let at = run::candidates(d, code->Ok_0, pc);
    assert(at =~= seq![a]);
    reveal_with_fuel(run::installed, 2);
    let o = run::installed(d, v, at, none, 0);
    let set = o.r->Ok_0;
    let w = run::resumed(o.d, o.t);
    let p = run::hits_handled(w.d, w.t);
    lemma_free_slot(d.hw, 0);
    reveal_with_fuel(run::uninstalled, 2);
    if !debugger::is_set(d, a) && points::break_set(d, v, a).r is Ok {
        let slot = points::free_slot(d.hw, 0)->0;
        assert(set =~= seq![a]);
        assert forall|k: int| 0 <= k < p.d.hw.len() && k != slot implies p.d.hw[k] != Some(a) by {
            assert(p.d.hw[k] == d.hw[k]);
        }
        lemma_slot_of(p.d.hw, a, slot, 0);
    } else {
        assert(set =~= none);
    }
}

/// On aarch64 stepping over a breakpoint puts it back: no breakpoint and no slot that was in use has
/// changed.
pub proof fn law_slot_step_over_restores(d: Dbg, t: Rest, addr: usize)
    requires
        d.host is Aarch64,
        sized(d),
        all_set(d),
        slots_match(d),
        run::stepped_over(d, t, addr).r is Ok,
    ensures
        same_session(d, run::stepped_over(d, t, addr).d),
        kept_in(d, run::stepped_over(d, t, addr).d),
{
    let slot = points::slot_of(d.hw, addr, 0)->0;
    let u = points::on_all(
        t,
        d.threads,
        Arch::Aarch64,
        SlotEdit::ClearBreak { slot: slot as usize },
        0,
    ).1;
    law_slot_step_keeps_breakpoints(d, u);
}

proof fn lemma_slot_left(d: Dbg, t: Rest)
    requires
        d.host is Aarch64,
        sized(d),
        all_set(d),
        slots_match(d),
        run::breakpoint_left(d, t).r is Ok,
    ensures
        same_session(d, run::breakpoint_left(d, t).d),
        kept_in(d, run::breakpoint_left(d, t).d),
{
    if let Some(addr) = d.at_bp {
        let e = Dbg { at_bp: None, ..d };
        assert(slots_match(e)) by {
            assert forall|i: int| 0 <= i < e.hw.len() && #[trigger] e.hw[i] is Some implies debugger::is_set(
                e,
                e.hw[i]->0,
            ) by {
                assert(d.hw[i] is Some);
            }
        }
        law_slot_step_over_restores(e, t, addr);
    }
}

/// On aarch64 a step, from a breakpoint or not, changes no breakpoint and no slot that was in use.
#[verifier::rlimit(60)]
#[verifier::spinoff_prover]
pub proof fn law_slot_step_keeps_places(d: Dbg, t: Rest)
    requires
        d.host is Aarch64,
        sized(d),
        all_set(d),
        slots_match(d),
        run::stepped(d, t).r is Ok,
    ensures
        same_session(d, run::stepped(d, t).d),
        kept_in(d, run::stepped(d, t).d),
{
    if d.at_bp is Some {
        lemma_slot_left(d, t);
    } else {
        law_slot_step_keeps_breakpoints(d, t);
    }
}

/// Whether the watchpoints of `d` are those of `e`, but for what was last seen in their memory.
pub open spec fn same_watches(d: Dbg, e: Dbg) -> bool {
    &&& e.wps.len() == d.wps.len()
    &&& forall|i: int|
        0 <= i < d.wps.len() ==> match (#[trigger] d.wps[i], e.wps[i]) {
            (Some(p), Some(q)) => q == (debugger::WpSeq { prev: q.prev, ..p }),
            (None, None) => true,
            _ => false,
        }
}

proof fn lemma_arm_watch_hit(d: Dbg, t: Rest, i: nat)
    ensures
        same_session(d, run::arm_watch_hit(d, t, i).d),
        run::arm_watch_hit(d, t, i).d.bps == d.bps,
        run::arm_watch_hit(d, t, i).d.hw == d.hw,
        same_watches(d, run::arm_watch_hit(d, t, i).d),
    decreases d.wps.len() - i,
{
    if i < d.wps.len() {
        match d.wps[i as int] {
            None => lemma_arm_watch_hit(d, t, i + 1),
            Some(p) => {
                let u = debugger::mem_or_empty(d, t, p.addr, p.len.width()).1;
                lemma_arm_watch_hit(d, u, i + 1);
            },
        }
    }
}

/// On aarch64 running to the next stop changes no breakpoint and no slot that was in use, and the
/// watchpoints stay where they were.
#[verifier::rlimit(60)]
#[verifier::spinoff_prover]
pub proof fn law_slot_cont_keeps_places(d: Dbg, t: Rest)
    requires
        d.host is Aarch64,
        sized(d),
        all_set(d),
        slots_match(d),
        run::continued(d, t).r is Ok,
    ensures
        same_session(d, run::continued(d, t).d),
        kept_in(d, Dbg { wps: d.wps, ..run::continued(d, t).d }),
        same_watches(d, run::continued(d, t).d),
{
    lemma_slot_left(d, t);
    let o = run::breakpoint_left(d, t);
    if !(d.at_bp is Some && !run::is_stopped(o.d)) {
        let p = run::resumed(o.d, o.t);
        let q = run::hits_handled(p.d, p.t);
        lemma_arm_watch_hit(Dbg { at_wp: None, ..q.d }, q.t, 0);
    }
}

/// Whether `e` is `d` but for one slot that is free in `d`, and for where the process stands.
pub open spec fn one_slot_more(d: Dbg, e: Dbg, slot: int) -> bool {
    &&& same_session(d, e)
    &&& e.bps == d.bps
    &&& e.wps == d.wps
    &&& 0 <= slot < d.hw.len()
    &&& d.hw[slot] is None
    &&& e.hw == d.hw.update(slot, e.hw[slot])
}

proof fn lemma_slot_of_found(hw: Seq<Option<usize>>, addr: usize, i: nat)
    ensures
        points::slot_of(hw, addr, i) matches Some(s) ==> i <= s < hw.len() && hw[s as int] == Some(addr),
    decreases hw.len() - i,
{
    if i < hw.len() && hw[i as int] != Some(addr) {
        lemma_slot_of_found(hw, addr, i + 1);
    }
}

#[verifier::rlimit(60)]
#[verifier::spinoff_prover]
proof fn lemma_step_with_slot(d: Dbg, e: Dbg, t: Rest, slot: int)
    requires
        d.host is Aarch64,
        sized(d),
        all_set(d),
        slots_match(d),
        one_slot_more(d, e, slot),
        run::stepped_thread(e, t).r is Ok,
    ensures
        same_session(d, run::stepped_thread(e, t).d),
        kept_in(d, run::stepped_thread(e, t).d),
{
    let (r, u) = debugger::regs_of(e, t);
    let pc = r->Ok_0.spec_pc() as usize;
    let a = pc.wrapping_add(4);
    let (code, v) = debugger::mem_or_empty(e, u, pc, 16);
    let none = Seq::<usize>::empty();
    let at = run::candidates(e, code->Ok_0, pc);
    assert(at =~= seq![a]);
    reveal_with_fuel(run::installed, 2);
    let o = run::installed(e, v, at, none, 0);
    let set = o.r->Ok_0;
    let w = run::resumed(o.d, o.t);
    let p = run::hits_handled(w.d, w.t);
    lemma_free_slot(e.hw, 0);
    reveal_with_fuel(run::uninstalled, 2);
    if !debugger::is_set(e, a) && points::break_set(e, v, a).r is Ok {
        assert(set =~= seq![a]);
        lemma_slot_of_found(p.d.hw, a, 0);
        assert(!d.bps.contains_key(a));
        assert forall|i: int| 0 <= i < d.hw.len() && #[trigger] d.hw[i] is Some implies p.d.hw[i] == d.hw[i]
            && p.d.hw[i] != Some(a) by {
            assert(debugger::is_set(d, d.hw[i]->0));
        }
    } else {
        assert(set =~= none);
    }
}

/// On aarch64 running to the return address, from a breakpoint or not, changes no breakpoint and no slot
/// that was in use.
#[verifier::rlimit(60)]
#[verifier::spinoff_prover]
pub proof fn law_slot_finish_keeps_places(d: Dbg, t: Rest, ret: usize)
    requires
        d.host is Aarch64,
        sized(d),
        all_set(d),
        slots_match(d),
        run::arm_finished(d, t, ret).r is Ok,
    ensures
        same_session(d, run::arm_finished(d, t, ret).d),
        kept_in(d, run::arm_finished(d, t, ret).d),
{
    lemma_free_slot(d.hw, 0);
    let slot = points::free_slot(d.hw, 0)->0;
    let e = Dbg { hw: d.hw.update(slot as int, Some(ret)), ..d };
    let u = points::on_all(
        t,
        d.threads,
        Arch::Aarch64,
        SlotEdit::SetBreak { slot: slot as usize, addr: ret },
        0,
    ).1;
    if let Some(addr) = e.at_bp {
        let f = Dbg { at_bp: None, ..e };
        let own = points::slot_of(f.hw, addr, 0)->0;
        let v = points::on_all(
            u,
            f.threads,
            Arch::Aarch64,
            SlotEdit::ClearBreak { slot: own as usize },
            0,
        ).1;
        assert(one_slot_more(d, f, slot as int));
        lemma_step_with_slot(d, f, v, slot as int);
    }
}

} // verus!
