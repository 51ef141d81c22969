//! What the operations of a session ask of the system, and what they make of the answers.
use crate::debugger;
use crate::debugger::run;
use crate::debugger::threads;
use crate::debugger::{Dbg, WaitStatus};
use crate::mach;
use crate::register::Registers;
use crate::tape::{Answer, Halt, Request, Rest, StopSeq};
use vstd::prelude::*;

verus! {

/// Whether the first `n` answers say that a wait was interrupted.
pub open spec fn interrupted(t: Rest, n: int) -> bool {
    0 <= n <= t.len() && forall|i: int| 0 <= i < n ==> #[trigger] t[i] is Interrupted
}

/// Whether the answers to a wait give the status `s`, after `n` interruptions.
pub open spec fn waits(t: Rest, n: int, s: i32) -> bool {
    n < t.len() && interrupted(t, n) && (t[n] matches Answer::Status(x) && x == s)
}

/// Whether `w` is what the status `s` of a process says: the low seven bits tell a stop (all set), an
/// exit (none set) or a signal, and the next byte holds the signal of a stop or the code of an exit.
pub open spec fn tells(w: WaitStatus, s: i32) -> bool {
    match w {
        WaitStatus::Stopped { signal, .. } => s & 0x7f == 0x7f && signal == (s >> 8u32) & 0xff,
        WaitStatus::Exited { code } => s & 0x7f == 0 && code == (s >> 8u32) & 0xff,
        WaitStatus::Signaled { signal } => s & 0x7f != 0x7f && s & 0x7f != 0 && signal == s & 0x7f,
        WaitStatus::Unknown { .. } => false,
    }
}

/// A wait is taken up again as often as it is interrupted, and the first status that comes is its
/// outcome.
pub proof fn law_wait_is_taken_up_again(t: Rest, n: int)
    requires
        interrupted(t, n),
    ensures
        n == t.len() ==> run::status_read(t).0 == Err::<i32, StopSeq>(Halt::Ask(Request::Wait)),
        n < t.len() ==> (t[n] matches Answer::Status(s) ==> run::status_read(t) == (
            Ok::<i32, StopSeq>(s),
            t.skip(n + 1),
        )),
        n < t.len() ==> (t[n] matches Answer::Failed(m) ==> run::status_read(t).0 == Err::<i32, StopSeq>(
            Halt::Fail(m),
        )),
    decreases n,
{
    if n > 0 {
        let u = t.skip(1);
        assert(t[0] is Interrupted);
        assert forall|i: int| 0 <= i < n - 1 implies #[trigger] u[i] is Interrupted by {
            assert(u[i] == t[i + 1]);
        }
        law_wait_is_taken_up_again(u, n - 1);
        if n < t.len() {
            assert(u[n - 1] == t[n]);
            assert(u.skip(n) =~= t.skip(n + 1));
        }
    } else if t.len() > 0 {
        assert(t[0] == t[n]);
    }
}

/// A wait that succeeds was answered with a status.
proof fn lemma_status_read(t: Rest)
    ensures
        run::status_read(t).0 matches Ok(s) ==> exists|n: int|
            #[trigger] waits(t, n, s) && run::status_read(t).1 == t.skip(n + 1),
    decreases t.len(),
{
    if t.len() > 0 {
        if t[0] is Interrupted {
            let u = t.skip(1);
            lemma_status_read(u);
            if run::status_read(t).0 is Ok {
                let s = run::status_read(t).0->Ok_0;
                let n = choose|n: int| #[trigger] waits(u, n, s) && run::status_read(u).1 == u.skip(n + 1);
                assert forall|i: int| 0 <= i < n + 1 implies #[trigger] t[i] is Interrupted by {
                    if i > 0 {
                        assert(u[i - 1] == t[i]);
                    }
                }
                assert(u[n] == t[n + 1]);
                assert(u.skip(n + 1) =~= t.skip(n + 2));
                assert(waits(t, n + 1, s));
            }
        } else if run::status_read(t).0 is Ok {
            assert(waits(t, 0, run::status_read(t).0->Ok_0));
        }
    }
}

/// What a wait reports is what the status says, and where the process has stopped the program counter is
/// that of the thread that is then current.
pub proof fn law_wait_reports_the_status(d: Dbg, t: Rest, n: int, s: i32)
    requires
        waits(t, n, s),
    ensures
        run::waited(d, t).r matches Ok(w) ==> tells(w, s),
        s & 0x7f != 0x7f ==> run::waited(d, t).d == d,
        s & 0x7f == 0x7f && d.task != 0 && t.len() == n + 1 ==> run::waited(d, t).r == Err::<
            WaitStatus,
            StopSeq,
        >(Halt::Ask(Request::Threads { task: d.task })),
        ({
            let f = if s & 0x7f == 0x7f && d.task != 0 {
                threads::refreshed(d, t.skip(n + 1))
            } else {
                debugger::out(Ok(()), t.skip(n + 1), d)
            };
            &&& run::waited(d, t).d == f.d
            &&& f.r is Ok && f.d.current < f.d.threads.len() ==> {
                &&& f.t.len() == 0 ==> run::waited(d, t).r == Err::<WaitStatus, StopSeq>(
                    Halt::Ask(
                        Request::GetRegisters { port: f.d.threads[f.d.current as int].port },
                    ),
                )
                &&& f.t.len() > 0 && f.t[0] is Registers ==> {
                    &&& run::waited(d, t).r matches Ok(w)
                    &&& w matches WaitStatus::Stopped { pc, .. } ==> pc == (match f.t[0]->Registers_0 {
                        Registers::X86(g) => g.__rip,
                        Registers::Arm(g) => g.__pc,
                    })
                }
            }
        }),
{
    law_wait_is_taken_up_again(t, n);
    assert(t.skip(n + 1).len() == t.len() - n - 1);
}

/// To let the process run is to ask for that and to wait: nothing else is asked before the status has
/// come, and the status is noted.
pub proof fn law_run_is_a_request_and_a_wait(d: Dbg, t: Rest)
    ensures
        t.len() == 0 ==> run::resumed(d, t).r == Err::<(), StopSeq>(Halt::Ask(Request::Continue)),
        t.len() > 0 && t[0] is Done && interrupted(t.skip(1), t.len() - 1) ==> run::resumed(d, t).r
            == Err::<(), StopSeq>(Halt::Ask(Request::Wait)),
        run::resumed(d, t).r is Ok ==> {
            &&& t.len() > 0 && t[0] is Done
            &&& exists|n: int, s: i32|
                #[trigger] waits(t.skip(1), n, s) && run::resumed(d, t).d.last is Some && tells(
                    run::resumed(d, t).d.last->0,
                    s,
                )
        },
{
    if t.len() > 0 && t[0] is Done {
        let u = t.skip(1);
        if interrupted(u, u.len() as int) {
            law_wait_is_taken_up_again(u, u.len() as int);
        }
        lemma_status_read(u);
        if run::resumed(d, t).r is Ok {
            let s = run::status_read(u).0->Ok_0;
            let n = choose|n: int| #[trigger] waits(u, n, s) && run::status_read(u).1 == u.skip(n + 1);
            law_wait_reports_the_status(d, u, n, s);
            assert(tells(run::resumed(d, t).d.last->0, s));
        }
    }
}

/// Moving threads back to a breakpoint changes the program counter of the last stop, not its signal.
proof fn lemma_hits(d: Dbg, t: Rest)
    ensures
        run::hits_handled(d, t).r is Ok ==> (d.last matches Some(w) ==> forall|s: i32| tells(w, s)
            ==> run::hits_handled(d, t).d.last is Some && #[trigger] tells(
            run::hits_handled(d, t).d.last->0,
            s,
        )),
{
}

/// Looking for the watchpoint that was hit leaves the last stop as it is.
proof fn lemma_watches(d: Dbg, t: Rest, i: nat)
    ensures
        run::x86_watch_hit(d, t, i).d.last == d.last,
    decreases d.threads.len() - i,
{
    if i < d.threads.len() {
        lemma_watches(d, mach::hits_read(t, d.threads[i as int].port).1, i + 1);
    }
}

proof fn lemma_changes(d: Dbg, t: Rest, i: nat)
    ensures
        run::arm_watch_hit(d, t, i).d.last == d.last,
    decreases d.wps.len() - i,
{
    if i < d.wps.len() {
        match d.wps[i as int] {
            None => {
                lemma_changes(d, t, i + 1);
            },
            Some(p) => {
                lemma_changes(d, debugger::mem_or_empty(d, t, p.addr, p.len.width()).1, i + 1);
            },
        }
    }
}

/// What comes of a run that is looked at for breakpoints and watchpoints is what the wait told.
proof fn lemma_ran(d: Dbg, t: Rest)
    ensures
        ({
            let p = run::resumed(d, t);
            let q = run::hits_handled(p.d, p.t);
            let w = run::watches_handled(q.d, q.t);
            p.r is Ok && q.r is Ok && w.r is Ok ==> {
                &&& t.len() > 0 && t[0] is Done
                &&& w.d.last is Some
                &&& exists|n: int, s: i32| #[trigger] waits(t.skip(1), n, s) && tells(w.d.last->0, s)
            }
        }),
{
    law_run_is_a_request_and_a_wait(d, t);
    let p = run::resumed(d, t);
    let q = run::hits_handled(p.d, p.t);
    let e = Dbg { at_wp: None, ..q.d };
    lemma_hits(p.d, p.t);
    lemma_watches(e, q.t, 0);
    lemma_changes(e, q.t, 0);
    if p.r is Ok && q.r is Ok {
        let (n, s) = choose|n: int, s: i32|
            #[trigger] waits(t.skip(1), n, s) && run::resumed(d, t).d.last is Some && tells(
                run::resumed(d, t).d.last->0,
                s,
            );
        assert(tells(p.d.last->0, s));
        assert(tells(q.d.last->0, s));
    }
}

/// Steps over the breakpoint at which the process stands, where it stands at one.
pub open spec fn off_breakpoint(d: Dbg, t: Rest) -> debugger::Out<()> {
    match d.at_bp {
        Some(a) => run::stepped_over(Dbg { at_bp: None, ..d }, t, a),
        None => debugger::out(Ok(()), t, d),
    }
}

/// Leaving a breakpoint is only the way to begin: where the process stood at none, or is still stopped
/// after it was stepped over, continuing asks for the process to run, and gives what the wait behind that
/// request tells. Only where the process has ended on the step does it give what the step came to, and
/// asks nothing.
#[verifier::rlimit(60)]
#[verifier::spinoff_prover]
pub proof fn law_cont_runs_on(d: Dbg, t: Rest, o: debugger::Out<()>)
    requires
        o == off_breakpoint(d, t),
    ensures
        o.r matches Err(h) ==> run::continued(d, t) == debugger::out(
            Err::<WaitStatus, StopSeq>(h),
            o.t,
            o.d,
        ),
        o.r is Ok && (d.at_bp is None || o.d.last matches Some(WaitStatus::Stopped { .. })) && o.t.len()
            == 0 ==> run::continued(d, t).r == Err::<WaitStatus, StopSeq>(Halt::Ask(Request::Continue)),
        o.r is Ok && (d.at_bp is None || o.d.last matches Some(WaitStatus::Stopped { .. })) && o.t.len()
            > 0 && o.t[0] is Done && interrupted(o.t.skip(1), o.t.len() - 1) ==> run::continued(d, t).r
            == Err::<WaitStatus, StopSeq>(Halt::Ask(Request::Wait)),
        o.r is Ok && (d.at_bp is None || o.d.last matches Some(WaitStatus::Stopped { .. })) ==> (
        run::continued(d, t).r matches Ok(w) ==> {
            &&& o.t.len() > 0 && o.t[0] is Done
            &&& exists|n: int, s: i32| #[trigger] waits(o.t.skip(1), n, s) && tells(w, s)
            &&& run::continued(d, t).d.last == Some(w)
        }),
        o.r is Ok && d.at_bp is Some && !(o.d.last matches Some(WaitStatus::Stopped { .. })) ==> {
            &&& run::continued(d, t).t == o.t
            &&& run::continued(d, t).d == o.d
            &&& o.d.last matches Some(w) ==> run::continued(d, t).r == Ok::<WaitStatus, StopSeq>(w)
        },
{
    law_run_is_a_request_and_a_wait(o.d, o.t);
    lemma_ran(o.d, o.t);
}

/// A run changes nothing but what the wait changes, and notes what the wait told.
pub proof fn law_run_notes_the_status(d: Dbg, t: Rest, o: debugger::Out<WaitStatus>)
    requires
        t.len() > 0 && t[0] is Done,
        o == run::waited(d, t.skip(1)),
    ensures
        run::resumed(d, t).t == o.t,
        o.r matches Ok(s) ==> run::resumed(d, t).r is Ok && run::resumed(d, t).d == (Dbg {
            last: Some(s),
            ..o.d
        }),
        o.r matches Err(h) ==> run::resumed(d, t).r == Err::<(), StopSeq>(h) && run::resumed(d, t).d == o.d,
{
}

/// After the run the stop is looked at, for breakpoints and then for watchpoints; what that leaves is the
/// outcome of continuing.
#[verifier::rlimit(40)]
#[verifier::spinoff_prover]
pub proof fn law_cont_looks_at_the_stop(
    d: Dbg,
    t: Rest,
    o: debugger::Out<()>,
    p: debugger::Out<()>,
    q: debugger::Out<()>,
    w: debugger::Out<()>,
)
    requires
        o == off_breakpoint(d, t),
        o.r is Ok,
        d.at_bp is None || o.d.last matches Some(WaitStatus::Stopped { .. }),
        p == run::resumed(o.d, o.t),
        q == run::hits_handled(p.d, p.t),
        w == run::watches_handled(q.d, q.t),
    ensures
        p.r matches Err(h) ==> run::continued(d, t) == debugger::out(
            Err::<WaitStatus, StopSeq>(h),
            p.t,
            p.d,
        ),
        p.r is Ok ==> (q.r matches Err(h) ==> run::continued(d, t) == debugger::out(
            Err::<WaitStatus, StopSeq>(h),
            q.t,
            q.d,
        )),
        p.r is Ok && q.r is Ok ==> run::continued(d, t).d == w.d && run::continued(d, t).t == w.t,
        p.r is Ok && q.r is Ok ==> (w.r matches Err(h) ==> run::continued(d, t).r == Err::<
            WaitStatus,
            StopSeq,
        >(h)),
        p.r is Ok && q.r is Ok && w.r is Ok ==> (w.d.last matches Some(s) ==> run::continued(d, t).r == Ok::<
            WaitStatus,
            StopSeq,
        >(s)),
{
}

} // verus!
