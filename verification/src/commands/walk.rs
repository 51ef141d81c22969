//! Stepping by source lines. A walk over a line is made of single steps, and the program may look at
//! the process between them.
use crate::commands::location;
use crate::commands::location::current_line;
use crate::debugger;
use crate::debugger::run;
use crate::debugger::{Dbg, Debugger, Out, WaitStatus};
use crate::register::Registers;
use crate::symbols::Symbols;
use crate::tape::{Answer, DebugSeq, Got, Halt, Request, Rest, Stop, StopSeq, Tape};
use crate::text::str_eq;
use vstd::prelude::*;

verus! {

/// How many steps a walk takes at most after its first.
pub const MAX_STEPS: u32 = 100_000;

/// A walk that has not ended.
#[derive(Clone, Debug)]
pub struct LineWalk {
    /// The place at which it began.
    pub start: Option<(String, u32)>,
    /// The frame pointer with which it began.
    pub start_fp: u64,
    /// What the process did last.
    pub status: WaitStatus,
    /// How many steps are left.
    pub left: u32,
}

/// A walk with its path as a sequence of characters.
#[verifier::ext_equal]
pub struct WalkSeq {
    pub start: Option<(Seq<char>, u32)>,
    pub start_fp: u64,
    pub status: WaitStatus,
    pub left: u32,
}

impl LineWalk {
    /// The walk with its path as a sequence of characters.
    pub open spec fn seq(self) -> WalkSeq {
        WalkSeq {
            start: location::place_seq(self.start),
            start_fp: self.start_fp,
            status: self.status,
            left: self.left,
        }
    }
}

/// What a step of a walk came to: it has ended, it was given up, or it goes on.
#[derive(Clone, Debug)]
pub enum Walked<W> {
    Done(WaitStatus),
    TooMany(WaitStatus),
    More(W),
}

/// The outcome of a step, with the walk's path as a sequence of characters.
pub open spec fn step_walk(r: Result<Walked<LineWalk>, Stop>) -> Result<Walked<WalkSeq>, StopSeq> {
    match r {
        Ok(Walked::Done(s)) => Ok(Walked::Done(s)),
        Ok(Walked::TooMany(s)) => Ok(Walked::TooMany(s)),
        Ok(Walked::More(w)) => Ok(Walked::More(w.seq())),
        Err(h) => Err(h.seq()),
    }
}

/// Steps over an instruction; the walk goes on with one step less.
#[verifier::opaque]
pub open spec fn went_on(d: Dbg, t: Rest, w: WalkSeq) -> Out<Walked<WalkSeq>> {
    let o = run::stepped(d, t);
    debugger::out(
        match o.r {
            Err(h) => Err(h),
            Ok(s) => Ok(Walked::More(WalkSeq { status: s, left: (w.left - 1) as u32, ..w })),
        },
        o.t,
        o.d,
    )
}

/// Begins to step over a line. Where the line is not known that is one instruction.
pub open spec fn line_begun(d: Dbg, t: Rest, base: Option<u64>, syms: Option<&Symbols>) -> Out<
    Walked<WalkSeq>,
> {
    match location::line_read(d, t, base, syms) {
        (Err(h), u) => debugger::out(Err(h), u, d),
        (Ok(start), u) => {
            let o = run::stepped(d, u);
            debugger::out(
                match o.r {
                    Err(h) => Err(h),
                    Ok(s) => Ok(
                        match start {
                            None => Walked::Done(s),
                            Some(_) => Walked::More(
                                WalkSeq { start, start_fp: 0, status: s, left: MAX_STEPS },
                            ),
                        },
                    ),
                },
                o.t,
                o.d,
            )
        },
    }
}

/// Goes on stepping over a line: it ends when the process is no longer stopped or the place has changed.
pub open spec fn line_stepped(
    d: Dbg,
    t: Rest,
    base: Option<u64>,
    syms: Option<&Symbols>,
    w: WalkSeq,
) -> Out<Walked<WalkSeq>> {
    if w.left == 0 {
        debugger::out(Ok(Walked::TooMany(w.status)), t, d)
    } else if !(w.status is Stopped) {
        debugger::out(Ok(Walked::Done(w.status)), t, d)
    } else {
        match location::line_read(d, t, base, syms) {
            (Err(h), u) => debugger::out(Err(h), u, d),
            (Ok(now), u) => if now != w.start {
                debugger::out(Ok(Walked::Done(w.status)), u, d)
            } else {
                went_on(d, u, w)
            },
        }
    }
}

/// The frame pointer of the current thread; zero where it cannot be read.
pub open spec fn fp_read(d: Dbg, t: Rest) -> Got<u64> {
    match debugger::regs_of(d, t) {
        (Err(Halt::Ask(q)), u) => (Err(Halt::Ask(q)), u),
        (Err(_), u) => (Ok(0), u),
        (Ok(regs), u) => (Ok(regs.spec_bp()), u),
    }
}

/// Begins to step to the next line.
pub open spec fn next_begun(d: Dbg, t: Rest, base: Option<u64>, syms: Option<&Symbols>) -> Out<
    Walked<WalkSeq>,
> {
    match location::line_read(d, t, base, syms) {
        (Err(h), u) => debugger::out(Err(h), u, d),
        (Ok(start), u) => match fp_read(d, u) {
            (Err(h), v) => debugger::out(Err(h), v, d),
            (Ok(start_fp), v) => {
                let o = run::stepped(d, v);
                debugger::out(
                    match o.r {
                        Err(h) => Err(h),
                        Ok(s) => Ok(
                            Walked::More(WalkSeq { start, start_fp, status: s, left: MAX_STEPS }),
                        ),
                    },
                    o.t,
                    o.d,
                )
            },
        },
    }
}

/// Runs out of a function that was called; where that fails the walk ends.
#[verifier::opaque]
pub open spec fn call_left(d: Dbg, t: Rest, w: WalkSeq) -> Out<Walked<WalkSeq>> {
    let o = run::finished(d, t);
    debugger::out(
        match o.r {
            Err(Halt::Ask(q)) => Err(Halt::Ask(q)),
            Err(_) => Ok(Walked::Done(w.status)),
            Ok(s) => Ok(Walked::More(WalkSeq { status: s, left: (w.left - 1) as u32, ..w })),
        },
        o.t,
        o.d,
    )
}

/// Goes on stepping to the next line: a frame below the first is a function that was called, and is run
/// to its end; the walk ends when the process is no longer stopped or is at another line that is known.
pub open spec fn next_stepped(
    d: Dbg,
    t: Rest,
    base: Option<u64>,
    syms: Option<&Symbols>,
    w: WalkSeq,
) -> Out<Walked<WalkSeq>> {
    if w.left == 0 {
        debugger::out(Ok(Walked::TooMany(w.status)), t, d)
    } else if !(w.status is Stopped) {
        debugger::out(Ok(Walked::Done(w.status)), t, d)
    } else {
        match fp_read(d, t) {
            (Err(h), u) => debugger::out(Err(h), u, d),
            (Ok(fp), u) => if fp < w.start_fp {
                call_left(d, u, w)
            } else {
                match location::line_read(d, u, base, syms) {
                    (Err(h), v) => debugger::out(Err(h), v, d),
                    (Ok(now), v) => if now is Some && now != w.start {
                        debugger::out(Ok(Walked::Done(w.status)), v, d)
                    } else {
                        went_on(d, v, w)
                    },
                }
            },
        }
    }
}

/// Whether two places are the same.
fn same_place(a: &Option<(String, u32)>, b: &Option<(String, u32)>) -> (r: bool)
    ensures
        r == (location::place_seq(*a) == location::place_seq(*b)),
{
    match (a, b) {
        (Some((p, m)), Some((q, n))) => *m == *n && str_eq(p.as_str(), q.as_str()),
        (None, None) => true,
        _ => false,
    }
}

/// Steps over an instruction; the walk goes on with one step less.
fn go_on(io: &mut Tape, dbg: &mut Debugger, walk: LineWalk) -> (r: Result<Walked<LineWalk>, Stop>)
    requires
        walk.left > 0,
    ensures
        debugger::out(step_walk(r), final(io)@, final(dbg).state()) == went_on(
            old(dbg).state(),
            old(io)@,
            walk.seq(),
        ),
{
    proof {
        reveal(went_on);
    }
    let s = dbg.step(io)?;
    Ok(
        Walked::More(
            LineWalk {
                start: walk.start,
                start_fp: walk.start_fp,
                status: s,
                left: walk.left - 1,
            },
        ),
    )
}

/// Begins to step over a line.
pub fn step_line(
    io: &mut Tape,
    dbg: &mut Debugger,
    base: Option<u64>,
    syms: Option<&Symbols>,
) -> (r: Result<Walked<LineWalk>, Stop>)
    ensures
        debugger::out(step_walk(r), final(io)@, final(dbg).state()) == line_begun(
            old(dbg).state(),
            old(io)@,
            base,
            syms,
        ),
{
    let start = current_line(io, dbg, base, syms)?;
    let s = dbg.step(io)?;
    if start.is_none() {
        return Ok(Walked::Done(s));
    }
    Ok(Walked::More(LineWalk { start, start_fp: 0, status: s, left: MAX_STEPS }))
}

/// Goes on stepping over a line.
pub fn step_line_on(
    io: &mut Tape,
    dbg: &mut Debugger,
    base: Option<u64>,
    syms: Option<&Symbols>,
    walk: LineWalk,
) -> (r: Result<Walked<LineWalk>, Stop>)
    ensures
        debugger::out(step_walk(r), final(io)@, final(dbg).state()) == line_stepped(
            old(dbg).state(),
            old(io)@,
            base,
            syms,
            walk.seq(),
        ),
{
    if walk.left == 0 {
        return Ok(Walked::TooMany(walk.status));
    }
    if !matches!(walk.status, WaitStatus::Stopped { .. }) {
        return Ok(Walked::Done(walk.status));
    }
    let now = current_line(io, dbg, base, syms)?;
    if !same_place(&now, &walk.start) {
        return Ok(Walked::Done(walk.status));
    }
    go_on(io, dbg, walk)
}

/// The frame pointer of the current thread; zero where it cannot be read.
fn frame_pointer(io: &mut Tape, dbg: &Debugger) -> (r: Result<u64, Stop>)
    ensures
        (crate::tape::step(r), final(io)@) == fp_read(dbg.state(), old(io)@),
{
    match dbg.registers(io) {
        Ok(regs) => Ok(regs.bp()),
        Err(Halt::Ask(q)) => Err(Halt::Ask(q)),
        Err(_) => Ok(0),
    }
}

/// Begins to step to the next line.
pub fn next_line(
    io: &mut Tape,
    dbg: &mut Debugger,
    base: Option<u64>,
    syms: Option<&Symbols>,
) -> (r: Result<Walked<LineWalk>, Stop>)
    ensures
        debugger::out(step_walk(r), final(io)@, final(dbg).state()) == next_begun(
            old(dbg).state(),
            old(io)@,
            base,
            syms,
        ),
{
    let start = current_line(io, dbg, base, syms)?;
    let start_fp: u64 = frame_pointer(io, dbg)?;
    let s = dbg.step(io)?;
    Ok(Walked::More(LineWalk { start, start_fp, status: s, left: MAX_STEPS }))
}

/// Runs out of a function that was called; where that fails the walk ends.
fn leave_call(io: &mut Tape, dbg: &mut Debugger, walk: LineWalk) -> (r: Result<Walked<LineWalk>, Stop>)
    requires
        walk.left > 0,
    ensures
        debugger::out(step_walk(r), final(io)@, final(dbg).state()) == call_left(
            old(dbg).state(),
            old(io)@,
            walk.seq(),
        ),
{
    proof {
        reveal(call_left);
    }
    match dbg.finish(io) {
        Ok(s) => Ok(
            Walked::More(
                LineWalk {
                    start: walk.start,
                    start_fp: walk.start_fp,
                    status: s,
                    left: walk.left - 1,
                },
            ),
        ),
        Err(Halt::Ask(q)) => Err(Halt::Ask(q)),
        Err(_) => Ok(Walked::Done(walk.status)),
    }
}

/// Goes on stepping to the next line.
pub fn next_line_on(
    io: &mut Tape,
    dbg: &mut Debugger,
    base: Option<u64>,
    syms: Option<&Symbols>,
    walk: LineWalk,
) -> (r: Result<Walked<LineWalk>, Stop>)
    ensures
        debugger::out(step_walk(r), final(io)@, final(dbg).state()) == next_stepped(
            old(dbg).state(),
            old(io)@,
            base,
            syms,
            walk.seq(),
        ),
{
    if walk.left == 0 {
        return Ok(Walked::TooMany(walk.status));
    }
    if !matches!(walk.status, WaitStatus::Stopped { .. }) {
        return Ok(Walked::Done(walk.status));
    }
    let fp: u64 = frame_pointer(io, dbg)?;
    if fp < walk.start_fp {
        return leave_call(io, dbg, walk);
    }
    let now = current_line(io, dbg, base, syms)?;
    if now.is_some() && !same_place(&now, &walk.start) {
        return Ok(Walked::Done(walk.status));
    }
    go_on(io, dbg, walk)
}

proof fn lemma_went_on(d: Dbg, t: Rest, w: WalkSeq)
    requires
        w.left > 0,
    ensures
        went_on(d, t, w).r matches Ok(x) ==> x matches Walked::More(v) && v.start == w.start && v.start_fp
            == w.start_fp && v.left == w.left - 1,
{
    reveal(went_on);
}

proof fn lemma_call_left(d: Dbg, t: Rest, w: WalkSeq)
    requires
        w.left > 0,
    ensures
        call_left(d, t, w).r matches Ok(Walked::More(v)) ==> v.start == w.start && v.start_fp == w.start_fp
            && v.left == w.left - 1,
{
    reveal(call_left);
}

/// A walk that goes on remembers where it began and has one step less: every walk ends.
pub proof fn law_walk_ends(
    d: Dbg,
    t: Rest,
    base: Option<u64>,
    syms: Option<&Symbols>,
    w: WalkSeq,
)
    ensures
        line_stepped(d, t, base, syms, w).r matches Ok(Walked::More(v)) ==> v.start == w.start && v.left
            == w.left - 1,
        next_stepped(d, t, base, syms, w).r matches Ok(Walked::More(v)) ==> v.start == w.start
            && v.start_fp == w.start_fp && v.left == w.left - 1,
{
    if w.left > 0 {
        lemma_went_on(d, location::line_read(d, t, base, syms).1, w);
        let u = fp_read(d, t).1;
        lemma_call_left(d, u, w);
        lemma_went_on(d, location::line_read(d, u, base, syms).1, w);
    }
}

/// A walk over a line is not over while the process is stopped at that line and steps are left.
pub proof fn law_walk_stays_in_line(
    d: Dbg,
    t: Rest,
    base: Option<u64>,
    syms: Option<&Symbols>,
    w: WalkSeq,
)
    requires
        w.left > 0,
        w.status is Stopped,
        location::line_read(d, t, base, syms).0 == Ok::<_, StopSeq>(w.start),
    ensures
        line_stepped(d, t, base, syms, w).r matches Ok(x) ==> x is More,
{
    lemma_went_on(d, location::line_read(d, t, base, syms).1, w);
}

/// The frame pointer among the registers.
pub open spec fn frame_of(regs: Registers) -> u64 {
    match regs {
        Registers::X86(g) => g.__rbp,
        Registers::Arm(g) => g.__fp,
    }
}

/// Whether `now` is a place that is known, and has another path or another line than `start`.
pub open spec fn elsewhere(now: Option<(Seq<char>, u32)>, start: Option<(Seq<char>, u32)>) -> bool {
    now matches Some((path, line)) && (start matches Some((p, l)) ==> path != p || line != l)
}

/// With steps left, the process stopped and the frame pointer not below the first one, a walk to the next
/// line ends exactly where the place is known and another than the one at which it began, be it before
/// or behind it. Until then it steps over one instruction after the other.
pub proof fn law_next_ends_elsewhere(
    d: Dbg,
    t: Rest,
    base: Option<u64>,
    syms: Option<&Symbols>,
    w: WalkSeq,
    regs: Registers,
    now: Option<(Seq<char>, u32)>,
)
    requires
        w.left > 0,
        w.status is Stopped,
        d.current < d.threads.len(),
        t.len() > 0 && t[0] == Answer::<Seq<u8>, Seq<u32>, Seq<char>, DebugSeq>::Registers(regs),
        frame_of(regs) >= w.start_fp,
        location::line_read(d, t.skip(1), base, syms).0 == Ok::<_, StopSeq>(now),
    ensures
        next_stepped(d, t, base, syms, w).r matches Ok(Walked::Done(_)) <==> elsewhere(now, w.start),
        elsewhere(now, w.start) ==> next_stepped(d, t, base, syms, w).r == Ok::<Walked<WalkSeq>, StopSeq>(
            Walked::Done(w.status),
        ) && next_stepped(d, t, base, syms, w).d == d,
        !elsewhere(now, w.start) ==> next_stepped(d, t, base, syms, w) == went_on(
            d,
            location::line_read(d, t.skip(1), base, syms).1,
            w,
        ),
{
    lemma_went_on(d, location::line_read(d, t.skip(1), base, syms).1, w);
}

/// A walk that goes on has stepped over one instruction: its status is what the step came to.
pub proof fn law_walk_steps(d: Dbg, t: Rest, w: WalkSeq, o: Out<WaitStatus>)
    requires
        w.left > 0,
        o == run::stepped(d, t),
    ensures
        went_on(d, t, w).d == o.d && went_on(d, t, w).t == o.t,
        o.r matches Ok(s) ==> went_on(d, t, w).r == Ok::<_, StopSeq>(
            Walked::More(
                WalkSeq { start: w.start, start_fp: w.start_fp, status: s, left: (w.left - 1) as u32 },
            ),
        ),
        o.r matches Err(h) ==> went_on(d, t, w).r == Err::<Walked<WalkSeq>, StopSeq>(h),
{
    reveal(went_on);
}

/// A walk that runs out of a call has run to the end of the function: its status is what that came to.
/// Where it cannot be done the walk ends.
pub proof fn law_walk_finishes_calls(d: Dbg, t: Rest, w: WalkSeq, o: Out<WaitStatus>)
    requires
        w.left > 0,
        o == run::finished(d, t),
    ensures
        call_left(d, t, w).d == o.d && call_left(d, t, w).t == o.t,
        o.r matches Ok(s) ==> call_left(d, t, w).r == Ok::<_, StopSeq>(
            Walked::More(
                WalkSeq { start: w.start, start_fp: w.start_fp, status: s, left: (w.left - 1) as u32 },
            ),
        ),
        o.r matches Err(Halt::Fail(_)) ==> call_left(d, t, w).r == Ok::<Walked<WalkSeq>, StopSeq>(
            Walked::Done(w.status),
        ),
        o.r matches Err(Halt::Ask(q)) ==> call_left(d, t, w).r == Err::<Walked<WalkSeq>, StopSeq>(
            Halt::Ask(q),
        ),
{
    reveal(call_left);
}

/// A frame pointer below the first one is that of a function that was called: the walk to the next line
/// runs it to its end and looks at no line meanwhile.
pub proof fn law_next_runs_out_of_calls(
    d: Dbg,
    t: Rest,
    base: Option<u64>,
    syms: Option<&Symbols>,
    w: WalkSeq,
    regs: Registers,
)
    requires
        w.left > 0,
        w.status is Stopped,
        d.current < d.threads.len(),
        t.len() > 0 && t[0] == Answer::<Seq<u8>, Seq<u32>, Seq<char>, DebugSeq>::Registers(regs),
        frame_of(regs) < w.start_fp,
    ensures
        next_stepped(d, t, base, syms, w) == call_left(d, t.skip(1), w),
{
}

/// With steps left and the process stopped, a walk over a line ends exactly where the place is another
/// than the one at which it began, or is no longer known. It goes into functions: the frame does not
/// matter.
pub proof fn law_step_ends_elsewhere(
    d: Dbg,
    t: Rest,
    base: Option<u64>,
    syms: Option<&Symbols>,
    w: WalkSeq,
    now: Option<(Seq<char>, u32)>,
)
    requires
        w.left > 0,
        w.status is Stopped,
        location::line_read(d, t, base, syms).0 == Ok::<_, StopSeq>(now),
    ensures
        line_stepped(d, t, base, syms, w).r matches Ok(Walked::Done(_)) <==> (elsewhere(now, w.start) || (
        now is None && w.start is Some)),
        line_stepped(d, t, base, syms, w).r matches Ok(Walked::Done(s)) ==> s == w.status,
        !elsewhere(now, w.start) && (now is Some || w.start is None) ==> line_stepped(d, t, base, syms, w)
            == went_on(d, location::line_read(d, t, base, syms).1, w),
{
    lemma_went_on(d, location::line_read(d, t, base, syms).1, w);
}

/// A walk is over once the process has ended, and is given up when no steps are left; neither asks
/// anything.
pub proof fn law_walk_is_over(d: Dbg, t: Rest, base: Option<u64>, syms: Option<&Symbols>, w: WalkSeq)
    requires
        w.left == 0 || !(w.status is Stopped),
    ensures
        ({
            let x: Walked<WalkSeq> = if w.left == 0 {
                Walked::TooMany(w.status)
            } else {
                Walked::Done(w.status)
            };
            &&& next_stepped(d, t, base, syms, w) == debugger::out(Ok::<_, StopSeq>(x), t, d)
            &&& line_stepped(d, t, base, syms, w) == debugger::out(Ok::<_, StopSeq>(x), t, d)
        }),
{
}

/// The frame pointer is that of the current thread, and zero where its registers cannot be read.
pub proof fn law_frame_pointer_is_read(d: Dbg, t: Rest, regs: Registers)
    requires
        d.current < d.threads.len(),
    ensures
        t.len() == 0 ==> fp_read(d, t).0 == Err::<u64, StopSeq>(
            Halt::Ask(Request::GetRegisters { port: d.threads[d.current as int].port }),
        ),
        t.len() > 0 && t[0] == Answer::<Seq<u8>, Seq<u32>, Seq<char>, DebugSeq>::Registers(regs)
            ==> fp_read(d, t) == (Ok::<u64, StopSeq>(frame_of(regs)), t.skip(1)),
        t.len() > 0 && t[0] is Failed ==> fp_read(d, t).0 == Ok::<u64, StopSeq>(0),
{
}

/// A walk to the next line begins at the place and with the frame pointer that the process has, with one
/// step: a hundred thousand more may follow.
pub proof fn law_next_begins_here(
    d: Dbg,
    t: Rest,
    base: Option<u64>,
    syms: Option<&Symbols>,
    start: Option<(Seq<char>, u32)>,
    u: Rest,
    fp: u64,
    v: Rest,
    o: Out<WaitStatus>,
)
    requires
        location::line_read(d, t, base, syms) == (Ok::<_, StopSeq>(start), u),
        fp_read(d, u) == (Ok::<_, StopSeq>(fp), v),
        o == run::stepped(d, v),
    ensures
        next_begun(d, t, base, syms).d == o.d,
        next_begun(d, t, base, syms).r matches Ok(x) ==> o.r is Ok && x == Walked::More(
            WalkSeq { start, start_fp: fp, status: o.r->Ok_0, left: 100_000 },
        ),
        o.r matches Err(h) ==> next_begun(d, t, base, syms).r == Err::<Walked<WalkSeq>, StopSeq>(h),
{
}

/// A walk over a line begins at the place at which the process stands, with one step. Where the place is
/// not known that step is all.
pub proof fn law_step_begins_here(
    d: Dbg,
    t: Rest,
    base: Option<u64>,
    syms: Option<&Symbols>,
    start: Option<(Seq<char>, u32)>,
    u: Rest,
    o: Out<WaitStatus>,
)
    requires
        location::line_read(d, t, base, syms) == (Ok::<_, StopSeq>(start), u),
        o == run::stepped(d, u),
    ensures
        line_begun(d, t, base, syms).d == o.d,
        line_begun(d, t, base, syms).r matches Ok(x) ==> o.r is Ok && match start {
            None => x == Walked::<WalkSeq>::Done(o.r->Ok_0),
            Some(_) => x matches Walked::More(v) && v.start == start && v.status == o.r->Ok_0 && v.left
                == 100_000,
        },
        o.r matches Err(h) ==> line_begun(d, t, base, syms).r == Err::<Walked<WalkSeq>, StopSeq>(h),
{
}

} // verus!
