//! Commands that set and delete breakpoints, and those about memory and leaks.
use crate::addr_map;
use crate::commands::code;
use crate::commands::code::{find_place, parse_count};
use crate::commands::location;
use crate::commands::location::{is_identifier, parse_addr};
use crate::commands::show;
use crate::commands::show::{complain, line_of, show, Report, ReportSeq};
use crate::debugger;
use crate::debugger::points;
use crate::debugger::{Dbg, Debugger};
use crate::leak_tracker;
use crate::leak_tracker::{LeakTracker, Leaks};
use crate::mach;
use crate::numerals;
use crate::numerals::{push_addr, push_dec, push_hex_wide};
use crate::symbols::Symbols;
use crate::tape::{Got, Halt, Rest, Stop, StopSeq, Tape};
use crate::text::{owned, str_eq};
use vstd::prelude::*;

verus! {

/// What an operation came to whose report goes to the user.
pub open spec fn told_out(r: Result<Report, Stop>, t: Rest, d: Dbg) -> debugger::Out<ReportSeq> {
    debugger::out(show::step_report(r), t, d)
}

/// A line with an address in it.
pub open spec fn addr_line(before: Seq<char>, addr: usize, behind: Seq<char>) -> Seq<char> {
    before + numerals::addr_text(addr as nat) + behind + "\n"@
}

/// A line with an address in it.
fn line_with(before: &str, addr: usize, behind: &str) -> (r: String)
    ensures
        r@ == addr_line(before@, addr, behind@),
{
    let mut s = owned(before);
    push_addr(&mut s, addr as u64);
    s.append(behind);
    s.append("\n");
    s
}

/// The address for a breakpoint: behind the prologue of a function that is named.
pub open spec fn break_place(d: Dbg, t: Rest, arg: Seq<char>, addr: usize) -> Got<usize> {
    if location::is_name(arg) {
        points::behind_prologue(d, t, addr)
    } else {
        (Ok(addr), t)
    }
}

/// Sets the breakpoint that the user asks for. A place that cannot be found is reported; that the
/// breakpoint cannot be set is a failure.
pub open spec fn break_asked(
    d: Dbg,
    t: Rest,
    base: Option<u64>,
    syms: Option<&Symbols>,
    arg: Seq<char>,
) -> debugger::Out<ReportSeq> {
    match code::place_named(d, t, base, syms, arg) {
        (Err(h), u) => debugger::out(Err(h), u, d),
        (Ok(Err(m)), u) => debugger::out(
            Ok(show::complains("could not resolve location "@ + arg + ": "@ + m + "\n"@)),
            u,
            d,
        ),
        (Ok(Ok(found)), u) => match break_place(d, u, arg, found) {
            (Err(h), v) => debugger::out(Err(h), v, d),
            (Ok(addr), v) => {
                let o = points::break_set(d, v, addr);
                match o.r {
                    Err(h) => debugger::out(Err(h), o.t, o.d),
                    Ok(_) => debugger::out(
                        Ok(show::shows(addr_line("Breakpoint set at "@, addr, Seq::empty()))),
                        o.t,
                        o.d,
                    ),
                }
            },
        },
    }
}

/// Sets the breakpoint that the user asks for.
pub fn break_command(
    io: &mut Tape,
    dbg: &mut Debugger,
    base: Option<u64>,
    syms: Option<&Symbols>,
    arg: &str,
) -> (r: Result<Report, Stop>)
    ensures
        told_out(r, final(io)@, final(dbg).state()) == break_asked(
            old(dbg).state(),
            old(io)@,
            base,
            syms,
            arg@,
        ),
{
    let found: usize = match find_place(io, dbg, base, syms, arg)? {
        Ok(a) => a,
        Err(m) => {
            let mut s = owned("could not resolve location ");
            s.append(arg);
            s.append(": ");
            s.append(m.as_str());
            s.append("\n");
            return Ok(complain(s));
        },
    };
    let addr: usize = if is_identifier(arg) {
        dbg.skip_prologue_insns(io, found)?
    } else {
        found
    };
    dbg.set_breakpoint(io, addr)?;
    proof {
        reveal_strlit("");
        assert(""@ =~= Seq::empty());
    }
    Ok(show(line_with("Breakpoint set at ", addr, "")))
}

/// Deletes a breakpoint; `done` is reported, or why it failed.
pub open spec fn deleted(d: Dbg, t: Rest, addr: usize, done: Seq<char>) -> debugger::Out<ReportSeq> {
    let o = points::break_removed(d, t, addr);
    debugger::out(
        match o.r {
            Err(Halt::Ask(q)) => Err(Halt::Ask(q)),
            Err(Halt::Fail(m)) => Ok(show::complains(show::line2("del: "@, m))),
            Ok(_) => Ok(show::shows(done)),
        },
        o.t,
        o.d,
    )
}

/// Deletes the breakpoints of `at` from `i` on. What fails is reported behind `err`.
pub open spec fn all_deleted(d: Dbg, t: Rest, at: Seq<usize>, err: Seq<char>, i: nat) -> debugger::Out<
    ReportSeq,
>
    decreases at.len() - i,
{
    if i >= at.len() {
        debugger::out(Ok(ReportSeq { out: "All breakpoints deleted.\n"@, err }), t, d)
    } else {
        let o = points::break_removed(d, t, at[i as int]);
        match o.r {
            Err(Halt::Ask(q)) => debugger::out(Err(Halt::Ask(q)), o.t, o.d),
            Err(Halt::Fail(m)) => all_deleted(o.d, o.t, at, err + show::line2("del: "@, m), i + 1),
            Ok(_) => all_deleted(o.d, o.t, at, err, i + 1),
        }
    }
}

/// Deletes the breakpoints that the user asks for, of those at `at`: all, the one of a number, or the
/// one at an address.
pub open spec fn delete_asked(d: Dbg, t: Rest, base: Option<u64>, arg: Seq<char>, at: Seq<usize>) -> debugger::Out<
    ReportSeq,
> {
    if arg == "all"@ {
        all_deleted(d, t, at, Seq::empty(), 0)
    } else {
        match code::count_named(arg) {
            Some(n) => if n == 0 || n > at.len() {
                debugger::out(
                    Ok(
                        show::complains(
                            "del: breakpoint #"@ + numerals::dec(n as nat)
                                + " not found (use 'show bp' to list)\n"@,
                        ),
                    ),
                    t,
                    d,
                )
            } else {
                deleted(
                    d,
                    t,
                    at[n - 1],
                    addr_line(
                        "Breakpoint #"@ + numerals::dec(n as nat) + " ("@,
                        at[n - 1],
                        ") deleted."@,
                    ),
                )
            },
            None => match location::addr_named(arg, base) {
                Some(a) => deleted(d, t, a, addr_line("Breakpoint at "@, a, " deleted."@)),
                None => debugger::out(
                    Ok(
                        show::complains(
                            "del: invalid argument '"@ + arg + "' (use number or address)\n"@,
                        ),
                    ),
                    t,
                    d,
                ),
            },
        }
    }
}

/// Deletes a breakpoint.
fn delete_one(io: &mut Tape, dbg: &mut Debugger, addr: usize, done: String) -> (r: Result<Report, Stop>)
    ensures
        told_out(r, final(io)@, final(dbg).state()) == deleted(
            old(dbg).state(),
            old(io)@,
            addr,
            done@,
        ),
{
    match dbg.remove_breakpoint(io, addr) {
        Ok(_) => Ok(show(done)),
        Err(Halt::Ask(q)) => Err(Halt::Ask(q)),
        Err(Halt::Fail(m)) => Ok(complain(line_of("del: ", m.as_str()))),
    }
}

/// Deletes the breakpoints of `at`.
fn delete_all(io: &mut Tape, dbg: &mut Debugger, at: &Vec<usize>) -> (r: Result<Report, Stop>)
    ensures
        told_out(r, final(io)@, final(dbg).state()) == all_deleted(
            old(dbg).state(),
            old(io)@,
            at@,
            Seq::empty(),
            0,
        ),
{
    let mut err = String::new();
    let mut i: usize = 0;
    let ghost whole = all_deleted(dbg.state(), io@, at@, Seq::empty(), 0);
    assert(err@ =~= Seq::empty());
    while i < at.len()
        invariant
            i <= at@.len(),
            whole == all_deleted(old(dbg).state(), old(io)@, at@, Seq::empty(), 0),
            whole == all_deleted(dbg.state(), io@, at@, err@, i as nat),
        decreases at.len() - i,
    {
        match dbg.remove_breakpoint(io, at[i]) {
            Ok(_) => {},
            Err(Halt::Ask(q)) => return Err(Halt::Ask(q)),
            Err(Halt::Fail(m)) => {
                let line = line_of("del: ", m.as_str());
                err.append(line.as_str());
            },
        }
        i = i + 1;
    }
    Ok(Report { out: owned("All breakpoints deleted.\n"), err })
}

/// Deletes the breakpoints that the user asks for.
pub fn delete_command(io: &mut Tape, dbg: &mut Debugger, base: Option<u64>, arg: &str) -> (r: Result<
    Report,
    Stop,
>)
    ensures
        forall|at: Seq<usize>|
            addr_map::is_key_list(at, old(dbg).state().bps.dom()) ==> told_out(
                r,
                final(io)@,
                final(dbg).state(),
            ) == #[trigger] delete_asked(old(dbg).state(), old(io)@, base, arg@, at),
{
    let at = dbg.breakpoint_addrs();
    proof {
        let dom = dbg.state().bps.dom();
        assert forall|k: Seq<usize>| addr_map::is_key_list(k, dom) implies k == at@ by {
            addr_map::law_key_list_unique(k, at@, dom);
        }
    }
    if str_eq(arg, "all") {
        return delete_all(io, dbg, &at);
    }
    if let Some(n) = parse_count(arg) {
        if n == 0 || n > at.len() {
            let mut s = owned("del: breakpoint #");
            push_dec(&mut s, n as u64);
            s.append(" not found (use 'show bp' to list)\n");
            return Ok(complain(s));
        }
        let mut before = owned("Breakpoint #");
        push_dec(&mut before, n as u64);
        before.append(" (");
        return delete_one(io, dbg, at[n - 1], line_with(before.as_str(), at[n - 1], ") deleted."));
    }
    match parse_addr(arg, base) {
        Some(a) => delete_one(io, dbg, a, line_with("Breakpoint at ", a, " deleted.")),
        None => {
            let mut s = owned("del: invalid argument '");
            s.append(arg);
            s.append("' (use number or address)\n");
            Ok(complain(s))
        },
    }
}

/// The four bytes at an address, as `m` shows them.
pub open spec fn word_shown(t: Rest, base: Option<u64>, arg: Seq<char>) -> Got<ReportSeq> {
    match location::addr_named(arg, base) {
        None => (Ok(show::complains("invalid address\n"@)), t),
        Some(a) => match mach::number_read(t, a, 4) {
            (Err(Halt::Ask(q)), u) => (Err(Halt::Ask(q)), u),
            (Err(Halt::Fail(m)), u) => (
                Ok(show::complains(show::line2("failed to read memory: "@, m))),
                u,
            ),
            (Ok(v), u) => (
                Ok(
                    show::shows(
                        "["@ + numerals::addr_text(a as nat) + "] = "@ + numerals::hex_wide(v, 8)
                            + "\n"@,
                    ),
                ),
                u,
            ),
        },
    }
}

/// The four bytes at an address.
pub fn memory_command(io: &mut Tape, dbg: &Debugger, base: Option<u64>, arg: &str) -> (r: Result<Report, Stop>)
    ensures
        (show::step_report(r), final(io)@) == word_shown(old(io)@, base, arg@),
{
    let a: usize = match parse_addr(arg, base) {
        Some(a) => a,
        None => return Ok(complain(owned("invalid address\n"))),
    };
    match dbg.read_word(io, a) {
        Ok(v) => {
            let mut s = owned("[");
            push_addr(&mut s, a as u64);
            s.append("] = ");
            push_hex_wide(&mut s, v as u64, 8);
            s.append("\n");
            Ok(show(s))
        },
        Err(Halt::Ask(q)) => Err(Halt::Ask(q)),
        Err(Halt::Fail(m)) => Ok(complain(line_of("failed to read memory: ", m.as_str()))),
    }
}

/// The stub of an allocation function in the loaded program.
pub open spec fn stub_of(s: &Symbols, name: Seq<char>, base: u64) -> Option<usize> {
    match s.spec_stub(name, base) {
        Some(a) => Some(a as usize),
        None => None,
    }
}

/// The line of an allocation function that is watched.
pub open spec fn hook_line(label: Seq<char>, at: Option<usize>) -> Seq<char> {
    match at {
        Some(a) => addr_line(label, a, Seq::empty()),
        None => Seq::empty(),
    }
}

/// What is reported when the tracking begins.
pub open spec fn hooks_text(
    malloc: Option<usize>,
    calloc: Option<usize>,
    realloc: Option<usize>,
    free: Option<usize>,
) -> Seq<char> {
    "Leak tracking enabled.\n"@ + hook_line("  malloc  @ "@, malloc) + hook_line("  calloc  @ "@, calloc)
        + hook_line("  realloc @ "@, realloc) + hook_line("  free    @ "@, free)
}

/// A tracker that was never used.
pub open spec fn fresh_leaks() -> Leaks {
    Leaks {
        enabled: false,
        live: Map::empty(),
        malloc: None,
        calloc: None,
        realloc: None,
        free: None,
        pending: Map::empty(),
    }
}

/// What came of beginning to track: the report, and the tracker where there is one.
pub struct Begun {
    pub report: ReportSeq,
    pub tracker: Option<Leaks>,
}

/// Begins to track leaks: by the stubs of the allocation functions in the program.
pub open spec fn leaks_begun(d: Dbg, t: Rest, base: Option<u64>, syms: Option<&Symbols>) -> debugger::Out<
    Begun,
> {
    match (syms, base) {
        (None, _) => debugger::out(
            Ok(
                Begun { report: show::complains("leaks: no symbol info loaded\n"@), tracker: None },
            ),
            t,
            d,
        ),
        (_, None) => debugger::out(
            Ok(Begun { report: show::complains("leaks: image base unknown\n"@), tracker: None }),
            t,
            d,
        ),
        (Some(s), Some(b)) => {
            let malloc = stub_of(s, "malloc"@, b);
            let calloc = stub_of(s, "calloc"@, b);
            let realloc = stub_of(s, "realloc"@, b);
            let free = stub_of(s, "free"@, b);
            if malloc is None && calloc is None && realloc is None && free is None {
                debugger::out(
                    Ok(
                        Begun {
                            report: show::complains("leaks: no malloc/free stubs found in binary\n"@),
                            tracker: None,
                        },
                    ),
                    t,
                    d,
                )
            } else {
                let o = leak_tracker::tracking(fresh_leaks(), d, t, malloc, calloc, realloc, free);
                debugger::out(
                    match o.r {
                        Err(Halt::Ask(q)) => Err(Halt::Ask(q)),
                        Err(Halt::Fail(m)) => Ok(
                            Begun {
                                report: show::complains(show::line2("leaks: "@, m)),
                                tracker: None,
                            },
                        ),
                        Ok(_) => Ok(
                            Begun {
                                report: show::shows(hooks_text(malloc, calloc, realloc, free)),
                                tracker: Some(o.k),
                            },
                        ),
                    },
                    o.t,
                    o.d,
                )
            }
        },
    }
}

/// The outcome of beginning to track.
pub open spec fn step_begun(r: Result<(Report, Option<LeakTracker>), Stop>) -> Result<Begun, StopSeq> {
    match r {
        Ok((p, k)) => Ok(Begun { report: p.seq(), tracker: leak_tracker::opt_state(k) }),
        Err(h) => Err(h.seq()),
    }
}

/// The stub of an allocation function in the loaded program.
fn find_stub(s: &Symbols, name: &str, base: u64) -> (r: Option<usize>)
    ensures
        r == stub_of(s, name@, base),
{
    match s.stub_address(name, base) {
        Some(a) => Some(a as usize),
        None => None,
    }
}

/// Appends the line of an allocation function that is watched.
fn push_hook(out: &mut String, label: &str, at: Option<usize>)
    ensures
        final(out)@ == old(out)@ + hook_line(label@, at),
{
    let ghost before = out@;
    if let Some(a) = at {
        let line = line_with(label, a, "");
        proof {
            reveal_strlit("");
            assert(""@ =~= Seq::empty());
        }
        out.append(line.as_str());
    }
    assert(out@ =~= before + hook_line(label@, at));
}

/// Begins to track leaks.
pub fn leaks_on(io: &mut Tape, dbg: &mut Debugger, base: Option<u64>, syms: Option<&Symbols>) -> (r: Result<
    (Report, Option<LeakTracker>),
    Stop,
>)
    ensures
        debugger::out(step_begun(r), final(io)@, final(dbg).state()) == leaks_begun(
            old(dbg).state(),
            old(io)@,
            base,
            syms,
        ),
{
    let s = match syms {
        Some(s) => s,
        None => return Ok((complain(owned("leaks: no symbol info loaded\n")), None)),
    };
    let b: u64 = match base {
        Some(b) => b,
        None => return Ok((complain(owned("leaks: image base unknown\n")), None)),
    };
    let malloc = find_stub(s, "malloc", b);
    let calloc = find_stub(s, "calloc", b);
    let realloc = find_stub(s, "realloc", b);
    let free = find_stub(s, "free", b);
    if malloc.is_none() && calloc.is_none() && realloc.is_none() && free.is_none() {
        return Ok((complain(owned("leaks: no malloc/free stubs found in binary\n")), None));
    }
    let mut tr = LeakTracker::new();
    match tr.enable(io, dbg, malloc, calloc, realloc, free) {
        Ok(_) => {
            let mut out = owned("Leak tracking enabled.\n");
            push_hook(&mut out, "  malloc  @ ", malloc);
            push_hook(&mut out, "  calloc  @ ", calloc);
            push_hook(&mut out, "  realloc @ ", realloc);
            push_hook(&mut out, "  free    @ ", free);
            Ok((show(out), Some(tr)))
        },
        Err(Halt::Ask(q)) => Err(Halt::Ask(q)),
        Err(Halt::Fail(m)) => Ok((complain(line_of("leaks: ", m.as_str())), None)),
    }
}

/// Ends the tracking of leaks. `at` are the addresses to which allocations under way return.
pub open spec fn leaks_ended(k: Option<Leaks>, d: Dbg, t: Rest, at: Seq<usize>) -> debugger::Out<ReportSeq> {
    match k {
        None => debugger::out(Ok(show::complains("leak tracking is not enabled\n"@)), t, d),
        Some(l) => {
            let o = leak_tracker::untracked(l, d, t, at);
            debugger::out(
                match o.r {
                    Err(h) => Err(h),
                    Ok(_) => Ok(show::shows("Leak tracking disabled.\n"@)),
                },
                o.t,
                o.d,
            )
        },
    }
}

/// The addresses to which allocations under way return.
pub open spec fn returns_of(k: Option<Leaks>) -> Set<usize> {
    match k {
        Some(l) => l.pending.dom(),
        None => Set::empty(),
    }
}

/// Ends the tracking of leaks; the tracker is used up.
pub fn leaks_off(io: &mut Tape, dbg: &mut Debugger, tracker: Option<LeakTracker>) -> (r: Result<Report, Stop>)
    ensures
        forall|at: Seq<usize>|
            addr_map::is_key_list(at, returns_of(leak_tracker::opt_state(tracker))) ==> told_out(
                r,
                final(io)@,
                final(dbg).state(),
            ) == #[trigger] leaks_ended(
                leak_tracker::opt_state(tracker),
                old(dbg).state(),
                old(io)@,
                at,
            ),
{
    match tracker {
        None => Ok(complain(owned("leak tracking is not enabled\n"))),
        Some(tr) => {
            let mut tr = tr;
            let ghost k = tr.state();
            let ghost d = dbg.state();
            let ghost t = io@;
            let done = tr.disable(io, dbg);
            proof {
                assert forall|at: Seq<usize>| addr_map::is_key_list(at, k.pending.dom()) implies (
                #[trigger] leak_tracker::untracked(k, d, t, at)).r == crate::tape::step(done)
                    && leak_tracker::untracked(k, d, t, at).t == io@ && leak_tracker::untracked(
                    k,
                    d,
                    t,
                    at,
                ).d == dbg.state() by {}
            }
            match done {
                Ok(_) => Ok(show(owned("Leak tracking disabled.\n"))),
                Err(h) => Err(h),
            }
        },
    }
}

/// What is shown of the leaks, of blocks at `at`.
pub open spec fn leaks_report(
    k: Option<Leaks>,
    syms: Option<&Symbols>,
    base: Option<u64>,
    at: Seq<usize>,
) -> ReportSeq {
    match k {
        None => show::complains("leak tracking not enabled (use 'leaks on' to start)\n"@),
        Some(l) => show::shows(leak_tracker::leaks_text(syms, base, l.live, at)),
    }
}

/// The addresses of the blocks in use.
pub open spec fn blocks_of(k: Option<Leaks>) -> Set<usize> {
    match k {
        Some(l) => l.live.dom(),
        None => Set::empty(),
    }
}

/// What is shown of the leaks.
pub fn leaks_show(tracker: Option<&LeakTracker>, syms: Option<&Symbols>, base: Option<u64>) -> (r: Report)
    ensures
        forall|at: Seq<usize>|
            addr_map::is_key_list(at, blocks_of(tracked_by(tracker))) ==> r.seq() == #[trigger] leaks_report(
                tracked_by(tracker),
                syms,
                base,
                at,
            ),
{
    match tracker {
        None => complain(owned("leak tracking not enabled (use 'leaks on' to start)\n")),
        Some(tr) => {
            let s = tr.show_leaks(syms, base);
            proof {
                let live = tr.state().live;
                assert forall|at: Seq<usize>| addr_map::is_key_list(at, live.dom()) implies s@
                    == #[trigger] leak_tracker::leaks_text(syms, base, live, at) by {}
            }
            show(s)
        },
    }
}

/// The state of a tracker that may be absent.
pub open spec fn tracked_by(tr: Option<&LeakTracker>) -> Option<Leaks> {
    match tr {
        Some(x) => Some(x.state()),
        None => None,
    }
}

} // verus!
