//! The threads of the debugged process.
use crate::arch::Arch;
use crate::debugger;
use crate::debugger::{Dbg, Debugger, Out, ThreadEntry, ThreadSummary, WpSeq};
use crate::mach;
use crate::mach::{write_slot, SlotEdit};
use crate::tape;
use crate::tape::{kernel_failure, Answer, Got, Halt, Request, Rest, Stop, StopSeq, Tape};
use crate::text::owned;
use vstd::prelude::*;

verus! {

/// The port of the process.
pub open spec fn task_read(t: Rest) -> Got<u32> {
    match tape::ask(t, Request::Task) {
        (Ok(Answer::Port(p)), u) => (Ok(p), u),
        (Ok(a), u) => (tape::kernel_error(a, "task_for_pid"@), u),
        (Err(h), u) => (Err(h), u),
    }
}

/// The port of the process.
pub fn get_task(io: &mut Tape) -> (r: Result<u32, Stop>)
    ensures
        (tape::step(r), final(io)@) == task_read(old(io)@),
{
    match io.ask(Request::Task) {
        Ok(Answer::Port(p)) => Ok(p),
        Ok(a) => Err(kernel_failure(a, "task_for_pid")),
        Err(h) => Err(h),
    }
}

/// The ports of the threads.
pub open spec fn threads_read(t: Rest, task: u32) -> Got<Seq<u32>> {
    match tape::ask(t, Request::Threads { task }) {
        (Ok(Answer::Ports(p)), u) => (Ok(p), u),
        (Ok(a), u) => (tape::kernel_error(a, "task_threads"@), u),
        (Err(h), u) => (Err(h), u),
    }
}

/// The ports of the threads.
pub fn list_threads(io: &mut Tape, task: u32) -> (r: Result<Vec<u32>, Stop>)
    ensures
        match r {
            Ok(p) => threads_read(old(io)@, task) == (Ok::<Seq<u32>, StopSeq>(p@), final(io)@),
            Err(h) => threads_read(old(io)@, task) == (Err::<Seq<u32>, StopSeq>(h.seq()), final(io)@),
        },
{
    match io.ask(Request::Threads { task }) {
        Ok(Answer::Ports(p)) => Ok(p),
        Ok(a) => Err(kernel_failure(a, "task_threads")),
        Err(h) => Err(h),
    }
}

/// The port of the first thread.
pub open spec fn first_thread_read(t: Rest, task: u32) -> Got<u32> {
    match threads_read(t, task) {
        (Err(h), u) => (Err(h), u),
        (Ok(ports), u) => (
            if ports.len() > 0 {
                Ok(ports[0])
            } else {
                Err(Halt::Fail("task_threads returned no threads"@))
            },
            u,
        ),
    }
}

/// The port of the first thread.
pub fn get_main_thread(io: &mut Tape, task: u32) -> (r: Result<u32, Stop>)
    ensures
        (tape::step(r), final(io)@) == first_thread_read(old(io)@, task),
{
    let ports = list_threads(io, task)?;
    if ports.len() > 0 {
        Ok(ports[0])
    } else {
        Err(Halt::Fail(owned("task_threads returned no threads")))
    }
}

/// The identifier of a thread; zero where it cannot be had.
pub open spec fn id_read(t: Rest, port: u32) -> Got<u64> {
    match tape::ask(t, Request::ThreadId { port }) {
        (Ok(Answer::Id(i)), u) => (Ok(i), u),
        (Ok(_), u) => (Ok(0), u),
        (Err(h), u) => (Err(h), u),
    }
}

/// The identifier of a thread; zero where it cannot be had.
pub fn thread_unique_id(io: &mut Tape, port: u32) -> (r: Result<u64, Stop>)
    ensures
        (tape::step(r), final(io)@) == id_read(old(io)@, port),
{
    match io.ask(Request::ThreadId { port }) {
        Ok(Answer::Id(i)) => Ok(i),
        Ok(_) => Ok(0),
        Err(h) => Err(h),
    }
}

/// Gives a port back; whether that succeeds does not matter.
pub open spec fn released(t: Rest, port: u32) -> Got<()> {
    match tape::ask(t, Request::Release { port }) {
        (Ok(_), u) => (Ok(()), u),
        (Err(h), u) => (Err(h), u),
    }
}

/// Gives a port back.
pub fn deallocate_port(io: &mut Tape, port: u32) -> (r: Result<(), Stop>)
    ensures
        (tape::step(r), final(io)@) == released(old(io)@, port),
{
    match io.ask(Request::Release { port }) {
        Ok(_) => Ok(()),
        Err(h) => Err(h),
    }
}

/// Gives the ports of the threads from `i` on back.
pub open spec fn released_from(t: Rest, ts: Seq<ThreadEntry>, i: nat) -> Got<()>
    decreases ts.len() - i,
{
    if i >= ts.len() {
        (Ok(()), t)
    } else {
        match released(t, ts[i as int].port) {
            (Ok(_), u) => released_from(u, ts, i + 1),
            (Err(h), u) => (Err(h), u),
        }
    }
}

/// Gives the ports of the threads back.
pub fn release_threads(io: &mut Tape, ts: &Vec<ThreadEntry>) -> (r: Result<(), Stop>)
    ensures
        (tape::step(r), final(io)@) == released_from(old(io)@, ts@, 0),
{
    let mut i: usize = 0;
    while i < ts.len()
        invariant
            i <= ts@.len(),
            released_from(old(io)@, ts@, 0) == released_from(io@, ts@, i as nat),
        decreases ts.len() - i,
    {
        deallocate_port(io, ts[i].port)?;
        i = i + 1;
    }
    Ok(())
}

/// Sets the breakpoint slots from `i` on that are in use, on a thread.
pub open spec fn breaks_applied(t: Rest, port: u32, hw: Seq<Option<usize>>, i: nat) -> Got<()>
    decreases hw.len() - i,
{
    if i >= hw.len() {
        (Ok(()), t)
    } else {
        match hw[i as int] {
            Some(addr) => match mach::slot_write(
                t,
                port,
                Arch::Aarch64,
                SlotEdit::SetBreak { slot: i as usize, addr },
            ) {
                (Ok(_), u) => breaks_applied(u, port, hw, i + 1),
                (Err(h), u) => (Err(h), u),
            },
            None => breaks_applied(t, port, hw, i + 1),
        }
    }
}

/// Sets the watchpoint slots from `i` on that are in use, on a thread.
pub open spec fn watches_applied(t: Rest, port: u32, host: Arch, w: Seq<Option<WpSeq>>, i: nat) -> Got<()>
    decreases w.len() - i,
{
    if i >= w.len() {
        (Ok(()), t)
    } else {
        match w[i as int] {
            Some(p) => match mach::slot_write(
                t,
                port,
                host,
                SlotEdit::SetWatch { slot: i as usize, addr: p.addr, cond: p.cond, len: p.len },
            ) {
                (Ok(_), u) => watches_applied(u, port, host, w, i + 1),
                (Err(h), u) => (Err(h), u),
            },
            None => watches_applied(t, port, host, w, i + 1),
        }
    }
}

/// Sets on a new thread the slots that are in use: watchpoints, and on aarch64 breakpoints before them.
pub open spec fn slots_applied(d: Dbg, t: Rest, port: u32) -> Got<()> {
    match d.host {
        Arch::X86_64 => watches_applied(t, port, d.host, d.wps, 0),
        Arch::Aarch64 => match breaks_applied(t, port, d.hw, 0) {
            (Ok(_), u) => watches_applied(u, port, d.host, d.wps, 0),
            (Err(h), u) => (Err(h), u),
        },
    }
}

/// The index of the first thread with that identifier.
pub open spec fn find_tid(ts: Seq<ThreadEntry>, tid: u64, i: nat) -> Option<nat>
    decreases ts.len() - i,
{
    if i >= ts.len() {
        None
    } else if ts[i as int].tid == tid {
        Some(i)
    } else {
        find_tid(ts, tid, i + 1)
    }
}

/// The index of the first thread with that identifier.
pub fn position_of(ts: &Vec<ThreadEntry>, tid: u64) -> (r: Option<usize>)
    ensures
        match r {
            Some(i) => i < ts@.len() && find_tid(ts@, tid, 0) == Some(i as nat),
            None => find_tid(ts@, tid, 0) is None,
        },
{
    let mut i: usize = 0;
    while i < ts.len()
        invariant
            i <= ts@.len(),
            find_tid(ts@, tid, 0) == find_tid(ts@, tid, i as nat),
        decreases ts.len() - i,
    {
        if ts[i].tid == tid {
            return Some(i);
        }
        i = i + 1;
    }
    None
}

/// The entries of the ports from `i` on, behind those of `done`: a thread that was there before keeps
/// whether it is suspended, a new one gets the slots that are in use.
pub open spec fn entries_from(
    d: Dbg,
    t: Rest,
    ports: Seq<u32>,
    old: Seq<ThreadEntry>,
    done: Seq<ThreadEntry>,
    i: nat,
) -> Got<Seq<ThreadEntry>>
    decreases ports.len() - i,
{
    if i >= ports.len() {
        (Ok(done), t)
    } else {
        let port = ports[i as int];
        match id_read(t, port) {
            (Err(h), u) => (Err(h), u),
            (Ok(tid), u) => match find_tid(old, tid, 0) {
                Some(k) => entries_from(
                    d,
                    u,
                    ports,
                    old,
                    done.push(ThreadEntry { port, tid, suspended: old[k as int].suspended }),
                    i + 1,
                ),
                None => match slots_applied(d, u, port) {
                    (Err(h), v) => (Err(h), v),
                    (Ok(_), v) => entries_from(
                        d,
                        v,
                        ports,
                        old,
                        done.push(ThreadEntry { port, tid, suspended: false }),
                        i + 1,
                    ),
                },
            },
        }
    }
}

/// Brings the list of threads up to date. The current thread stays current while it lives, else the
/// first one is; the old ports are given back. Where a new thread cannot get its slots no threads are
/// left.
pub open spec fn refreshed(d: Dbg, t: Rest) -> Out<()> {
    match threads_read(t, d.task) {
        (Err(h), u) => debugger::out(Err(h), u, d),
        (Ok(ports), u) => {
            let none = Dbg { threads: Seq::empty(), ..d };
            match entries_from(d, u, ports, d.threads, Seq::empty(), 0) {
                (Err(h), v) => debugger::out(Err(h), v, none),
                (Ok(now), v) => match released_from(v, d.threads, 0) {
                    (Err(h), w) => debugger::out(Err(h), w, none),
                    (Ok(_), w) => debugger::out(
                        Ok(()),
                        w,
                        Dbg {
                            threads: now,
                            current: if d.current < d.threads.len() {
                                match find_tid(now, d.threads[d.current as int].tid, 0) {
                                    Some(i) => i as usize,
                                    None => 0,
                                }
                            } else {
                                0
                            },
                            ..d
                        },
                    ),
                },
            }
        },
    }
}

/// What is shown of the threads from `i` on.
pub open spec fn summaries_from(d: Dbg, t: Rest, i: nat) -> Got<Seq<ThreadSummary>>
    decreases d.threads.len() - i,
{
    if i >= d.threads.len() {
        (Ok(Seq::empty()), t)
    } else {
        let e = d.threads[i as int];
        match mach::regs_read(t, e.port) {
            (Err(Halt::Ask(q)), u) => (Err(Halt::Ask(q)), u),
            (r, u) => {
                let s = ThreadSummary {
                    index: i as usize,
                    tid: e.tid,
                    pc: match r {
                        Ok(g) => Some(g.spec_pc()),
                        Err(_) => None,
                    },
                    suspended: e.suspended,
                    current: i == d.current,
                };
                match summaries_from(d, u, i + 1) {
                    (Ok(rest), v) => (Ok(seq![s] + rest), v),
                    (Err(h), v) => (Err(h), v),
                }
            },
        }
    }
}

impl Debugger {
    /// Sets on a new thread the slots that are in use.
    fn apply_existing_bp_wp_to_thread(&self, io: &mut Tape, port: u32) -> (r: Result<(), Stop>)
        ensures
            (tape::step(r), final(io)@) == slots_applied(self.state(), old(io)@, port),
    {
        let ghost hw = self.state().hw;
        let ghost w = self.state().wps;
        let ghost whole = slots_applied(self.state(), io@, port);
        if self.host == Arch::Aarch64 {
            let mut i: usize = 0;
            let ghost start = io@;
            while i < 16
                invariant
                    i <= 16,
                    hw == self.state().hw,
                    hw.len() == 16,
                    w == self.state().wps,
                    self.state().host == Arch::Aarch64,
                    whole == slots_applied(self.state(), old(io)@, port),
                    whole == (match breaks_applied(io@, port, hw, i as nat) {
                        (Ok(_), u) => watches_applied(u, port, Arch::Aarch64, w, 0),
                        (Err(h), u) => (Err(h), u),
                    }),
                decreases 16 - i,
            {
                if let Some(addr) = self.hw_bp_slots[i] {
                    write_slot(io, port, Arch::Aarch64, SlotEdit::SetBreak { slot: i, addr })?;
                }
                i = i + 1;
            }
        }
        let mut k: usize = 0;
        while k < 4
            invariant
                k <= 4,
                w == self.state().wps,
                w.len() == 4,
                whole == slots_applied(self.state(), old(io)@, port),
                whole == watches_applied(io@, port, self.host, w, k as nat),
            decreases 4 - k,
        {
            assert(w[k as int] == debugger::slot_seq(self.wp_slots@[k as int]));
            if let Some(p) = &self.wp_slots[k] {
                write_slot(
                    io,
                    port,
                    self.host,
                    SlotEdit::SetWatch { slot: k, addr: p.addr, cond: p.cond, len: p.len },
                )?;
            }
            k = k + 1;
        }
        Ok(())
    }

    /// Brings the list of threads up to date.
    pub fn refresh_threads(&mut self, io: &mut Tape) -> (r: Result<(), Stop>)
        ensures
            debugger::out(tape::step(r), final(io)@, final(self).state()) == refreshed(
                old(self).state(),
                old(io)@,
            ),
    {
        let ghost start = self.state();
        let ports = list_threads(io, self.task)?;
        let ghost after_list = io@;
        let mut old_threads: Vec<ThreadEntry> = Vec::new();
        std::mem::swap(&mut old_threads, &mut self.threads);
        let current_tid: Option<u64> = if self.current < old_threads.len() {
            Some(old_threads[self.current].tid)
        } else {
            None
        };
        let ghost none = Dbg { threads: Seq::empty(), ..start };
        assert(self.state() =~= none);
        let mut now: Vec<ThreadEntry> = Vec::new();
        let mut i: usize = 0;
        assert(now@ =~= Seq::empty());
        proof {
            lemma_slots_ignore_threads(start, none);
        }
        while i < ports.len()
            invariant
                i <= ports@.len(),
                self.state() == none,
                none == (Dbg { threads: Seq::empty(), ..start }),
                start == old(self).state(),
                old_threads@ == start.threads,
                threads_read(old(io)@, start.task) == (Ok::<Seq<u32>, StopSeq>(ports@), after_list),
                entries_from(start, after_list, ports@, start.threads, Seq::empty(), 0)
                    == entries_from(start, io@, ports@, start.threads, now@, i as nat),
                forall|t: Rest, p: u32| slots_applied(start, t, p) == #[trigger] slots_applied(none, t, p),
            decreases ports.len() - i,
        {
            let port: u32 = ports[i];
            let tid: u64 = thread_unique_id(io, port)?;
            let suspended: bool = match position_of(&old_threads, tid) {
                Some(k) => old_threads[k].suspended,
                None => {
                    self.apply_existing_bp_wp_to_thread(io, port)?;
                    false
                },
            };
            now.push(ThreadEntry { port, tid, suspended });
            i = i + 1;
        }
        release_threads(io, &old_threads)?;
        self.current = match current_tid {
            Some(tid) => match position_of(&now, tid) {
                Some(k) => k,
                None => 0,
            },
            None => 0,
        };
        self.threads = now;
        assert(self.state() =~= refreshed(start, old(io)@).d);
        Ok(())
    }

    /// What is shown of the threads.
    pub fn threads(&self, io: &mut Tape) -> (r: Result<Vec<ThreadSummary>, Stop>)
        ensures
            match r {
                Ok(v) => summaries_from(self.state(), old(io)@, 0) == (
                    Ok::<Seq<ThreadSummary>, StopSeq>(v@),
                    final(io)@,
                ),
                Err(h) => summaries_from(self.state(), old(io)@, 0) == (
                    Err::<Seq<ThreadSummary>, StopSeq>(h.seq()),
                    final(io)@,
                ),
            },
    {
        let mut out: Vec<ThreadSummary> = Vec::new();
        let mut i: usize = 0;
        let ghost d = self.state();
        let ghost whole = summaries_from(d, io@, 0);
        assert(whole.0 matches Ok(s) ==> out@ + s =~= s);
        while i < self.threads.len()
            invariant
                i <= self.threads@.len(),
                d == self.state(),
                whole == summaries_from(d, old(io)@, 0),
                match summaries_from(d, io@, i as nat) {
                    (Ok(s), u) => whole == (Ok::<Seq<ThreadSummary>, StopSeq>(out@ + s), u),
                    (Err(h), u) => whole == (Err::<Seq<ThreadSummary>, StopSeq>(h), u),
                },
            decreases self.threads.len() - i,
        {
            let ghost before = out@;
            let e: ThreadEntry = self.threads[i];
            let pc: Option<u64> = match mach::get_registers(io, e.port) {
                Ok(g) => Some(g.pc()),
                Err(Halt::Ask(q)) => return Err(Halt::Ask(q)),
                Err(_) => None,
            };
            let s = ThreadSummary {
                index: i,
                tid: e.tid,
                pc,
                suspended: e.suspended,
                current: i == self.current,
            };
            out.push(s);
            i = i + 1;
            assert(summaries_from(d, io@, i as nat).0 matches Ok(rest) ==> before + (seq![s] + rest)
                =~= out@ + rest);
        }
        assert(out@ + Seq::empty() =~= out@);
        Ok(out)
    }

    /// Makes another thread the current one.
    pub fn select_thread(&mut self, idx: usize) -> (r: Result<(), Stop>)
        ensures
            match tape::step(r) {
                Ok(_) => idx < old(self).state().threads.len() && final(self).state() == (Dbg {
                    current: idx,
                    ..old(self).state()
                }),
                Err(h) => idx >= old(self).state().threads.len() && h == (StopSeq::Fail(
                    "invalid thread index"@,
                )) && final(self).state() == old(self).state(),
            },
    {
        if idx >= self.threads.len() {
            return Err(Halt::Fail(owned("invalid thread index")));
        }
        self.current = idx;
        assert(self.state() =~= Dbg { current: idx, ..old(self).state() });
        Ok(())
    }

    /// Suspends a thread: it stays where it is when the process runs.
    pub fn suspend_thread(&mut self, io: &mut Tape, idx: usize) -> (r: Result<(), Stop>)
        ensures
            debugger::out(tape::step(r), final(io)@, final(self).state()) == marked(
                old(self).state(),
                old(io)@,
                idx,
                true,
            ),
    {
        if idx >= self.threads.len() {
            return Err(Halt::Fail(owned("invalid thread index")));
        }
        let port: u32 = self.threads[idx].port;
        io.ask_kernel(Request::Suspend { port }, "thread_suspend")?;
        let e: ThreadEntry = self.threads[idx];
        self.threads.set(idx, ThreadEntry { suspended: true, ..e });
        assert(self.state() =~= marked(old(self).state(), old(io)@, idx, true).d);
        Ok(())
    }

    /// Lets a suspended thread run again.
    pub fn resume_thread(&mut self, io: &mut Tape, idx: usize) -> (r: Result<(), Stop>)
        ensures
            debugger::out(tape::step(r), final(io)@, final(self).state()) == marked(
                old(self).state(),
                old(io)@,
                idx,
                false,
            ),
    {
        if idx >= self.threads.len() {
            return Err(Halt::Fail(owned("invalid thread index")));
        }
        let port: u32 = self.threads[idx].port;
        io.ask_kernel(Request::Resume { port }, "thread_resume")?;
        let e: ThreadEntry = self.threads[idx];
        self.threads.set(idx, ThreadEntry { suspended: false, ..e });
        assert(self.state() =~= marked(old(self).state(), old(io)@, idx, false).d);
        Ok(())
    }
}

/// Suspends a thread or lets it run again, and notes it.
pub open spec fn marked(d: Dbg, t: Rest, idx: usize, suspend: bool) -> Out<()> {
    if idx >= d.threads.len() {
        debugger::out(Err(Halt::Fail("invalid thread index"@)), t, d)
    } else {
        let e = d.threads[idx as int];
        let g = if suspend {
            tape::ask_kernel(t, Request::Suspend { port: e.port }, "thread_suspend"@)
        } else {
            tape::ask_kernel(t, Request::Resume { port: e.port }, "thread_resume"@)
        };
        match g {
            (Err(h), u) => debugger::out(Err(h), u, d),
            (Ok(_), u) => debugger::out(
                Ok(()),
                u,
                Dbg {
                    threads: d.threads.update(idx as int, ThreadEntry { suspended: suspend, ..e }),
                    ..d
                },
            ),
        }
    }
}

proof fn lemma_slots_ignore_threads(a: Dbg, b: Dbg)
    requires
        a.host == b.host,
        a.hw == b.hw,
        a.wps == b.wps,
    ensures
        forall|t: Rest, p: u32| slots_applied(a, t, p) == #[trigger] slots_applied(b, t, p),
{
}

} // verus!
