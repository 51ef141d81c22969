//! What holds of running a function to its end.
use crate::arch::Arch;
use crate::debugger;
use crate::debugger::dialogue;
use crate::debugger::points;
use crate::debugger::run;
use crate::debugger::{Dbg, Out, WaitStatus};
use crate::mach::SlotEdit;
use crate::tape::{Halt, Request, Rest, StopSeq};
use vstd::prelude::*;

verus! {

/// To finish a function its return address is read, and the process runs to it: on x86_64 by a trap, on
/// aarch64 by a slot. Where the address cannot be read nothing else is asked.
pub proof fn law_finish_runs_to_the_return_address(d: Dbg, t: Rest, ret: usize, u: Rest)
    ensures
        run::return_read(d, t) == (Ok::<usize, StopSeq>(ret), u) && d.host == Arch::X86_64 ==> run::finished(
            d,
            t,
        ) == run::x86_finished(d, u, ret),
        run::return_read(d, t) == (Ok::<usize, StopSeq>(ret), u) && d.host == Arch::Aarch64 ==> run::finished(
            d,
            t,
        ) == run::arm_finished(d, u, ret),
        run::return_read(d, t).0 matches Err(h) ==> run::finished(d, t).r == Err::<WaitStatus, StopSeq>(h)
            && run::finished(d, t).d == d,
{
}

/// On x86_64 a breakpoint is set at the address to which the function returns; where that cannot be done
/// the function is not run.
#[verifier::rlimit(40)]
#[verifier::spinoff_prover]
pub proof fn law_finish_sets_a_breakpoint(d: Dbg, ret: usize, u: Rest, o: Out<()>)
    requires
        !d.bps.contains_key(ret),
        o == points::break_set(d, u, ret),
    ensures
        o.r matches Err(h) ==> run::x86_finished(d, u, ret) == debugger::out(
            Err::<WaitStatus, StopSeq>(h),
            o.t,
            o.d,
        ),
{
}

/// What comes of finishing a function on x86_64 is what the process did when it continued with the
/// breakpoint at the return address. Where it stopped the breakpoint is taken away, where it ended it is
/// forgotten.
#[verifier::rlimit(40)]
#[verifier::spinoff_prover]
pub proof fn law_finish_continues(
    d: Dbg,
    ret: usize,
    u: Rest,
    o: Out<()>,
    c: Out<WaitStatus>,
)
    requires
        !d.bps.contains_key(ret),
        o == points::break_set(d, u, ret),
        o.r is Ok,
        c == run::continued(o.d, o.t),
    ensures
        c.r matches Err(h) ==> run::x86_finished(d, u, ret).r == Err::<WaitStatus, StopSeq>(h),
        c.r matches Ok(s) && s is Stopped ==> {
            let p = points::break_removed(c.d, c.t, ret);
            &&& p.r matches Err(h) ==> run::x86_finished(d, u, ret).r == Err::<WaitStatus, StopSeq>(h)
            &&& p.r is Ok ==> run::x86_finished(d, u, ret) == debugger::out(
                Ok::<WaitStatus, StopSeq>(c.r->Ok_0),
                p.t,
                p.d,
            )
        },
        c.r matches Ok(s) && !(s is Stopped) ==> run::x86_finished(d, u, ret) == debugger::out(
            Ok::<WaitStatus, StopSeq>(c.r->Ok_0),
            c.t,
            Dbg { bps: c.d.bps.remove(ret), ..c.d },
        ),
{
}

/// Where a breakpoint is at the return address already, finishing a function on x86_64 is continuing, and
/// the breakpoint stays.
pub proof fn law_finish_at_a_breakpoint(d: Dbg, ret: usize, u: Rest, c: Out<WaitStatus>)
    requires
        d.bps.contains_key(ret),
        c == run::continued(d, u),
    ensures
        run::x86_finished(d, u, ret).r == c.r,
        run::x86_finished(d, u, ret).d == c.d,
        run::x86_finished(d, u, ret).t == c.t,
{
}

/// On aarch64 the first free slot is set to the return address on every thread, for the time of the run.
pub proof fn law_finish_takes_a_slot(d: Dbg, ret: usize, u: Rest, slot: usize)
    requires
        points::free_slot(d.hw, 0) == Some(slot as nat),
    ensures
        points::on_all(u, d.threads, Arch::Aarch64, SlotEdit::SetBreak { slot, addr: ret }, 0).0 matches Err(h)
            ==> run::arm_finished(d, u, ret).r == Err::<WaitStatus, StopSeq>(h),
        d.threads.len() > 0 && u.len() == 0 ==> run::arm_finished(d, u, ret).r == Err::<WaitStatus, StopSeq>(
            Halt::Ask(Request::GetDebug { port: d.threads[0].port }),
        ),
{
}

/// Then the breakpoint at which the process stands is left, and the process runs. The slot is cleared on
/// every thread, as far as that succeeds, once it has stopped or ended.
#[verifier::rlimit(40)]
#[verifier::spinoff_prover]
pub proof fn law_finish_runs_with_the_slot(
    d: Dbg,
    ret: usize,
    u: Rest,
    slot: usize,
    v: Rest,
    o: Out<()>,
)
    requires
        points::free_slot(d.hw, 0) == Some(slot as nat),
        points::on_all(u, d.threads, Arch::Aarch64, SlotEdit::SetBreak { slot, addr: ret }, 0) == (
            Ok::<(), StopSeq>(()),
            v,
        ),
        o == dialogue::off_breakpoint(Dbg { hw: d.hw.update(slot as int, Some(ret)), ..d }, v),
    ensures
        o.r matches Err(h) ==> run::arm_finished(d, u, ret).r == Err::<WaitStatus, StopSeq>(h),
        o.r is Ok && (d.at_bp is None || o.d.last matches Some(WaitStatus::Stopped { .. })) && o.t.len() == 0
            ==> run::arm_finished(d, u, ret).r == Err::<WaitStatus, StopSeq>(Halt::Ask(Request::Continue)),
        o.r is Ok && (d.at_bp is None || o.d.last matches Some(WaitStatus::Stopped { .. })) ==> ({
            let p = run::resumed(o.d, o.t);
            &&& p.r matches Err(h) ==> run::arm_finished(d, u, ret).r == Err::<WaitStatus, StopSeq>(h)
            &&& p.r is Ok && p.t.len() == 0 && p.d.threads.len() > 0 ==> run::arm_finished(d, u, ret).r == Err::<
                WaitStatus,
                StopSeq,
            >(Halt::Ask(Request::GetDebug { port: p.d.threads[0].port }))
        }),
{
}

/// Clearing the slot of a finished function frees it, whatever the threads answer.
pub proof fn law_slot_is_freed(d: Dbg, t: Rest, slot: usize)
    requires
        slot < d.hw.len(),
    ensures
        run::slot_freed(d, t, slot as nat).r is Ok ==> run::slot_freed(d, t, slot as nat).d == (Dbg {
            hw: d.hw.update(slot as int, None),
            ..d
        }),
        run::slot_freed(d, t, slot as nat).t == points::tried_on_all(
            t,
            d.threads,
            Arch::Aarch64,
            SlotEdit::ClearBreak { slot },
            0,
        ).1,
{
}

/// What comes of finishing a function on aarch64 is what the process did: once the slot is freed the
/// threads that hit a breakpoint are moved back, and the last status is given.
#[verifier::rlimit(40)]
#[verifier::spinoff_prover]
pub proof fn law_finish_gives_the_status(
    d: Dbg,
    ret: usize,
    u: Rest,
    slot: usize,
    v: Rest,
    o: Out<()>,
    p: Out<()>,
    f: Out<()>,
    q: Out<()>,
)
    requires
        points::free_slot(d.hw, 0) == Some(slot as nat),
        points::on_all(u, d.threads, Arch::Aarch64, SlotEdit::SetBreak { slot, addr: ret }, 0) == (
            Ok::<(), StopSeq>(()),
            v,
        ),
        o == dialogue::off_breakpoint(Dbg { hw: d.hw.update(slot as int, Some(ret)), ..d }, v),
        o.r is Ok,
        d.at_bp is None || o.d.last matches Some(WaitStatus::Stopped { .. }),
        p == run::resumed(o.d, o.t),
        p.r is Ok,
        f == run::slot_freed(p.d, p.t, slot as nat),
        f.r is Ok,
        q == run::hits_handled(f.d, f.t),
        q.r is Ok,
    ensures
        run::arm_finished(d, u, ret).d == q.d,
        run::arm_finished(d, u, ret).t == q.t,
        q.d.last matches Some(w) ==> run::arm_finished(d, u, ret).r == Ok::<WaitStatus, StopSeq>(w),
{
}

/// Where the process has ended on the step over the breakpoint at which it stood, the slot is freed and
/// that end is given; the process is not asked to run.
#[verifier::rlimit(40)]
#[verifier::spinoff_prover]
pub proof fn law_finish_of_a_process_that_has_ended(
    d: Dbg,
    ret: usize,
    u: Rest,
    slot: usize,
    v: Rest,
    o: Out<()>,
    f: Out<()>,
)
    requires
        points::free_slot(d.hw, 0) == Some(slot as nat),
        points::on_all(u, d.threads, Arch::Aarch64, SlotEdit::SetBreak { slot, addr: ret }, 0) == (
            Ok::<(), StopSeq>(()),
            v,
        ),
        o == dialogue::off_breakpoint(Dbg { hw: d.hw.update(slot as int, Some(ret)), ..d }, v),
        o.r is Ok,
        d.at_bp is Some,
        !(o.d.last matches Some(WaitStatus::Stopped { .. })),
        f == run::slot_freed(o.d, o.t, slot as nat),
    ensures
        f.r is Ok ==> run::arm_finished(d, u, ret).d == f.d && run::arm_finished(d, u, ret).t == f.t,
        f.r is Ok ==> (f.d.last matches Some(w) ==> run::arm_finished(d, u, ret).r == Ok::<
            WaitStatus,
            StopSeq,
        >(w)),
        f.r matches Err(h) ==> run::arm_finished(d, u, ret).r == Err::<WaitStatus, StopSeq>(h),
{
}

/// Without a free slot a function cannot be run to its end, and nothing is asked.
pub proof fn law_finish_without_a_slot(d: Dbg, ret: usize, u: Rest)
    requires
        forall|i: int| 0 <= i < d.hw.len() ==> (#[trigger] d.hw[i]) is Some,
    ensures
        run::arm_finished(d, u, ret).r matches Err(Halt::Fail(_)),
        run::arm_finished(d, u, ret).d == d && run::arm_finished(d, u, ret).t == u,
{
    lemma_none_free(d.hw, 0);
}

proof fn lemma_none_free(hw: Seq<Option<usize>>, i: nat)
    requires
        forall|j: int| 0 <= j < hw.len() ==> (#[trigger] hw[j]) is Some,
    ensures
        points::free_slot(hw, i) is None,
    decreases hw.len() - i,
{
    if i < hw.len() {
        lemma_none_free(hw, i + 1);
    }
}

} // verus!
