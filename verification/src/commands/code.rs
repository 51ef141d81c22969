//! The machine code of the program, and the lists that `show` gives.
use crate::addr_map;
use crate::commands::location;
use crate::commands::location::{current_line, resolve_location};
use crate::commands::show;
use crate::commands::show::{complain, line_of, push_numbered, show, Report, ReportSeq};
use crate::commands::variables;
use crate::commands::variables::print_vars;
use crate::debug_info::Variable;
use crate::debugger;
use crate::debugger::{Dbg, Debugger};
use crate::disasm;
use crate::numerals;
use crate::numerals::read_number;
use crate::symbols;
use crate::symbols::Symbols;
use crate::tape::{Got, Halt, Rest, Stop, StopSeq, Tape};
use crate::text;
use crate::text::{chars_of, owned, str_eq};
use vstd::prelude::*;

verus! {

/// The report of a disassembly behind `head`.
pub open spec fn code_report(head: Seq<char>, p: Result<Seq<char>, Seq<char>>) -> ReportSeq {
    match p {
        Ok(s) => ReportSeq { out: head + s, err: Seq::empty() },
        Err(m) => ReportSeq { out: head, err: m + "\n"@ },
    }
}

/// The code at `addr`, `len` bytes of it and at most `count` instructions, behind `head`; `what` begins
/// the message where it cannot be read.
pub open spec fn code_read(
    d: Dbg,
    t: Rest,
    addr: u64,
    len: usize,
    count: usize,
    head: Seq<char>,
    what: Seq<char>,
) -> Got<ReportSeq> {
    match debugger::mem_of(d, t, addr as usize, len) {
        (Err(Halt::Ask(q)), u) => (Err(Halt::Ask(q)), u),
        (Err(Halt::Fail(m)), u) => (Ok(ReportSeq { out: head, err: show::line2(what, m) }), u),
        (Ok(code), u) => (
            Ok(
                code_report(
                    head,
                    disasm::printed(disasm::listing_of(code, addr, count, d.host), addr),
                ),
            ),
            u,
        ),
    }
}

/// The code at `addr`.
fn read_code(
    io: &mut Tape,
    dbg: &Debugger,
    addr: u64,
    len: usize,
    count: usize,
    head: String,
    what: &str,
) -> (r: Result<Report, Stop>)
    ensures
        (show::step_report(r), final(io)@) == code_read(
            dbg.state(),
            old(io)@,
            addr,
            len,
            count,
            head@,
            what@,
        ),
{
    let mut out = head;
    match dbg.read_memory(io, addr as usize, len) {
        Err(Halt::Ask(q)) => Err(Halt::Ask(q)),
        Err(Halt::Fail(m)) => Ok(Report { out, err: line_of(what, m.as_str()) }),
        Ok(code) => match disasm::print(code.as_slice(), addr, count, dbg.host) {
            Ok(s) => {
                out.append(s.as_str());
                let err = String::new();
                assert(err@ =~= Seq::empty());
                Ok(Report { out, err })
            },
            Err(m) => {
                let mut err = m;
                err.append("\n");
                Ok(Report { out, err })
            },
        },
    }
}

/// The next instructions of the current thread: four of them. Nothing where the program counter cannot
/// be read.
pub open spec fn next_code(d: Dbg, t: Rest) -> Got<ReportSeq> {
    match debugger::pc_of(d, t) {
        (Err(Halt::Ask(q)), u) => (Err(Halt::Ask(q)), u),
        (Err(_), u) => (Ok(show::shows(Seq::empty())), u),
        (Ok(pc), u) => code_read(d, u, pc, 32, 4, Seq::empty(), "failed to read memory for disasm: "@),
    }
}

/// The next instructions of the current thread.
pub fn print_disasm(io: &mut Tape, dbg: &Debugger) -> (r: Result<Report, Stop>)
    ensures
        (show::step_report(r), final(io)@) == next_code(dbg.state(), old(io)@),
{
    let none = String::new();
    assert(none@ =~= Seq::empty());
    match dbg.pc(io) {
        Ok(pc) => read_code(io, dbg, pc, 32, 4, none, "failed to read memory for disasm: "),
        Err(Halt::Ask(q)) => Err(Halt::Ask(q)),
        Err(_) => Ok(show(none)),
    }
}

/// A count.
pub open spec fn count_named(s: Seq<char>) -> Option<usize> {
    match numerals::parse_number(s, 10, usize::MAX as nat) {
        Some(v) => Some(v as usize),
        None => None,
    }
}

/// A count.
pub fn parse_count(s: &str) -> (r: Option<usize>)
    ensures
        r == count_named(s@),
{
    let c = chars_of(s);
    match read_number(c.as_slice(), 10, usize::MAX as u64) {
        Some(v) => Some(v as usize),
        None => None,
    }
}

/// What the words of a command ask to disassemble: the place, if one is named, and how many
/// instructions; ten where no number is given. A single word that is a number is the count.
pub open spec fn code_wanted(parts: Seq<Seq<char>>) -> (Option<Seq<char>>, usize) {
    if parts.len() == 3 {
        (
            Some(parts[1]),
            match count_named(parts[2]) {
                Some(n) => n,
                None => 10,
            },
        )
    } else if parts.len() == 2 {
        match count_named(parts[1]) {
            Some(n) => (None, n),
            None => (Some(parts[1]), 10),
        }
    } else {
        (None, 10)
    }
}

/// The file of a place.
pub open spec fn file_of(p: Option<(Seq<char>, u32)>) -> Option<Seq<char>> {
    match p {
        Some((f, _)) => Some(f),
        None => None,
    }
}

/// The address of a place that the user names, seen from where the current thread is.
pub open spec fn place_named(
    d: Dbg,
    t: Rest,
    base: Option<u64>,
    syms: Option<&Symbols>,
    arg: Seq<char>,
) -> Got<Result<usize, Seq<char>>> {
    match location::line_read(d, t, base, syms) {
        (Err(h), u) => (Err(h), u),
        (Ok(p), u) => (Ok(location::located(arg, base, syms, file_of(p))), u),
    }
}

/// The address of a place that the user names, seen from where the current thread is.
pub fn find_place(
    io: &mut Tape,
    dbg: &Debugger,
    base: Option<u64>,
    syms: Option<&Symbols>,
    arg: &str,
) -> (r: Result<Result<usize, String>, Stop>)
    ensures
        match r {
            Ok(a) => place_named(dbg.state(), old(io)@, base, syms, arg@) == (
                Ok::<_, StopSeq>(location::told(a)),
                final(io)@,
            ),
            Err(h) => place_named(dbg.state(), old(io)@, base, syms, arg@) == (
                Err::<Result<usize, Seq<char>>, StopSeq>(h.seq()),
                final(io)@,
            ),
        },
{
    let here = current_line(io, dbg, base, syms)?;
    Ok(
        match &here {
            Some((f, _)) => resolve_location(arg, base, syms, Some(f.as_str())),
            None => resolve_location(arg, base, syms, None),
        },
    )
}

/// The line before the code of a function.
pub open spec fn code_head(syms: Option<&Symbols>, base: Option<u64>, addr: u64) -> Seq<char> {
    match (syms, base) {
        (Some(s), Some(b)) => match s.holder(addr.wrapping_sub(s.spec_slide(b))) {
            Some((name, _)) => "Dump of assembler code for function "@ + name + ":\n"@,
            None => Seq::empty(),
        },
        _ => Seq::empty(),
    }
}

/// The code at `addr`, `count` instructions of it. No instruction has more than fifteen bytes.
pub open spec fn code_at(
    d: Dbg,
    t: Rest,
    base: Option<u64>,
    syms: Option<&Symbols>,
    addr: u64,
    count: usize,
) -> Got<ReportSeq> {
    code_read(
        d,
        t,
        addr,
        count.wrapping_mul(15),
        count,
        code_head(syms, base, addr),
        "dis: failed to read memory: "@,
    )
}

/// What `dis` shows: the code at a place, or at the program counter.
pub open spec fn code_shown(
    d: Dbg,
    t: Rest,
    base: Option<u64>,
    syms: Option<&Symbols>,
    parts: Seq<Seq<char>>,
) -> Got<ReportSeq> {
    let (place, count) = code_wanted(parts);
    match place {
        Some(arg) => match place_named(d, t, base, syms, arg) {
            (Err(h), u) => (Err(h), u),
            (Ok(Err(m)), u) => (Ok(show::complains(show::line2("dis: "@, m))), u),
            (Ok(Ok(a)), u) => code_at(d, u, base, syms, a as u64, count),
        },
        None => match debugger::pc_of(d, t) {
            (Err(Halt::Ask(q)), u) => (Err(Halt::Ask(q)), u),
            (Err(Halt::Fail(m)), u) => (
                Ok(show::complains(show::line2("dis: failed to get PC: "@, m))),
                u,
            ),
            (Ok(pc), u) => code_at(d, u, base, syms, pc, count),
        },
    }
}

/// The code at `addr`, `count` instructions of it.
fn show_code_at(
    io: &mut Tape,
    dbg: &Debugger,
    base: Option<u64>,
    syms: Option<&Symbols>,
    addr: u64,
    count: usize,
) -> (r: Result<Report, Stop>)
    ensures
        (show::step_report(r), final(io)@) == code_at(dbg.state(), old(io)@, base, syms, addr, count),
{
    let mut head = String::new();
    assert(head@ =~= Seq::empty());
    if let (Some(s), Some(b)) = (syms, base) {
        if let Some((name, _)) = s.find_symbol_for_addr(addr.wrapping_sub(s.slide(b))) {
            head = owned("Dump of assembler code for function ");
            head.append(name);
            head.append(":\n");
        }
    }
    assert(head@ =~= code_head(syms, base, addr));
    read_code(io, dbg, addr, count.wrapping_mul(15), count, head, "dis: failed to read memory: ")
}

/// What `dis` shows: the code at a place, or at the program counter.
pub fn show_disasm(
    io: &mut Tape,
    dbg: &Debugger,
    base: Option<u64>,
    syms: Option<&Symbols>,
    parts: &Vec<String>,
) -> (r: Result<Report, Stop>)
    ensures
        (show::step_report(r), final(io)@) == code_shown(
            dbg.state(),
            old(io)@,
            base,
            syms,
            text::texts(parts@),
        ),
{
    let mut count: usize = 10;
    let mut place: Option<&str> = None;
    if parts.len() == 3 {
        place = Some(parts[1].as_str());
        if let Some(n) = parse_count(parts[2].as_str()) {
            count = n;
        }
    } else if parts.len() == 2 {
        match parse_count(parts[1].as_str()) {
            Some(n) => {
                count = n;
            },
            None => {
                place = Some(parts[1].as_str());
            },
        }
    }
    assert(symbols::opt_text(place) == code_wanted(text::texts(parts@)).0);
    assert(count == code_wanted(text::texts(parts@)).1);
    match place {
        Some(arg) => match find_place(io, dbg, base, syms, arg)? {
            Ok(a) => show_code_at(io, dbg, base, syms, a as u64, count),
            Err(m) => Ok(complain(line_of("dis: ", m.as_str()))),
        },
        None => match dbg.pc(io) {
            Ok(pc) => show_code_at(io, dbg, base, syms, pc, count),
            Err(Halt::Ask(q)) => Err(Halt::Ask(q)),
            Err(Halt::Fail(m)) => Ok(complain(line_of("dis: failed to get PC: ", m.as_str()))),
        },
    }
}

/// The lines of the first `n` breakpoints of `at`.
pub open spec fn breakpoint_lines(
    base: Option<u64>,
    syms: Option<&Symbols>,
    at: Seq<usize>,
    n: int,
) -> Seq<char>
    decreases n,
{
    if n <= 0 {
        Seq::empty()
    } else {
        breakpoint_lines(base, syms, at, n - 1) + show::numbered_line(
            n as nat,
            at[n - 1] as u64,
            show::address_note(syms, base, at[n - 1] as u64, true),
        )
    }
}

/// What is shown of the breakpoints at `at`: one line for each, numbered from one.
pub open spec fn breakpoints_text(base: Option<u64>, syms: Option<&Symbols>, at: Seq<usize>) -> Seq<char> {
    if at.len() == 0 {
        "No breakpoints.\n"@
    } else {
        breakpoint_lines(base, syms, at, at.len() as int)
    }
}

/// What is shown of the breakpoints at `at`.
fn print_breakpoints(base: Option<u64>, syms: Option<&Symbols>, at: &Vec<usize>) -> (r: String)
    ensures
        r@ == breakpoints_text(base, syms, at@),
{
    if at.len() == 0 {
        return owned("No breakpoints.\n");
    }
    let mut out = String::new();
    let mut i: usize = 0;
    assert(out@ =~= breakpoint_lines(base, syms, at@, 0));
    while i < at.len()
        invariant
            i <= at@.len(),
            out@ == breakpoint_lines(base, syms, at@, i as int),
        decreases at.len() - i,
    {
        let _ = push_numbered(&mut out, i + 1, at[i] as u64, syms, base, true);
        i = i + 1;
    }
    out
}

/// The lists of variables that can be shown.
#[derive(Clone, Copy, Debug, PartialEq, Eq, Structural)]
pub enum VarKind {
    Locals,
    Args,
    Globals,
}

impl VarKind {
    /// The name of the list.
    pub open spec fn label(self) -> Seq<char> {
        match self {
            VarKind::Locals => "show locals: "@,
            VarKind::Args => "show args: "@,
            VarKind::Globals => "show globals: "@,
        }
    }

    /// The variables of the list at `pc`.
    pub open spec fn of(self, s: &Symbols, pc: u64) -> Seq<Variable> {
        match self {
            VarKind::Locals => s.variables@.filter(
                |v: Variable| symbols::in_scope(v, pc) && !v.is_argument,
            ),
            VarKind::Args => s.variables@.filter(|v: Variable| symbols::in_scope(v, pc) && v.is_argument),
            VarKind::Globals => s.variables@.filter(|v: Variable| v.scope is None),
        }
    }
}

/// A report that shows a text.
pub open spec fn shown_text(g: Got<Seq<char>>) -> Got<ReportSeq> {
    match g {
        (Ok(s), u) => (Ok(show::shows(s)), u),
        (Err(h), u) => (Err(h), u),
    }
}

/// What is shown of a list of variables.
pub open spec fn kind_shown(
    d: Dbg,
    t: Rest,
    base: Option<u64>,
    syms: Option<&Symbols>,
    k: VarKind,
) -> Got<ReportSeq> {
    match (syms, base) {
        (None, _) => (Ok(show::complains(show::line2(k.label(), "no debug info loaded"@))), t),
        (_, None) => (Ok(show::complains(show::line2(k.label(), "image base unknown"@))), t),
        (Some(s), Some(b)) => {
            let slide = s.spec_slide(b);
            if k is Globals {
                shown_text(variables::variables_shown(d, t, k.of(s, 0), slide))
            } else {
                match debugger::pc_of(d, t) {
                    (Err(Halt::Ask(q)), u) => (Err(Halt::Ask(q)), u),
                    (Err(Halt::Fail(m)), u) => (Ok(show::complains(show::line2(k.label(), m))), u),
                    (Ok(pc), u) => shown_text(
                        variables::variables_shown(d, u, k.of(s, pc.wrapping_sub(slide)), slide),
                    ),
                }
            }
        },
    }
}

/// What is shown of a list of variables.
fn show_vars(
    io: &mut Tape,
    dbg: &Debugger,
    base: Option<u64>,
    syms: Option<&Symbols>,
    k: VarKind,
) -> (r: Result<Report, Stop>)
    ensures
        (show::step_report(r), final(io)@) == kind_shown(dbg.state(), old(io)@, base, syms, k),
{
    let label: &str = match k {
        VarKind::Locals => "show locals: ",
        VarKind::Args => "show args: ",
        VarKind::Globals => "show globals: ",
    };
    let s = match syms {
        Some(s) => s,
        None => return Ok(complain(line_of(label, "no debug info loaded"))),
    };
    let b: u64 = match base {
        Some(b) => b,
        None => return Ok(complain(line_of(label, "image base unknown"))),
    };
    let slide: u64 = s.slide(b);
    if k == VarKind::Globals {
        let vs = s.global_variables();
        let out = print_vars(io, dbg, &vs, slide)?;
        return Ok(show(out));
    }
    let pc: u64 = match dbg.pc(io) {
        Ok(pc) => pc,
        Err(Halt::Ask(q)) => return Err(Halt::Ask(q)),
        Err(Halt::Fail(m)) => return Ok(complain(line_of(label, m.as_str()))),
    };
    let at: u64 = pc.wrapping_sub(slide);
    let vs = if k == VarKind::Locals {
        s.locals_at_pc(at)
    } else {
        s.args_at_pc(at)
    };
    let out = print_vars(io, dbg, &vs, slide)?;
    Ok(show(out))
}

/// What `show` shows: the breakpoints at `at`, or a list of variables.
pub open spec fn list_shown(
    d: Dbg,
    t: Rest,
    base: Option<u64>,
    syms: Option<&Symbols>,
    parts: Seq<Seq<char>>,
    at: Seq<usize>,
) -> Got<ReportSeq> {
    if parts.len() < 2 {
        (Ok(show::complains("usage: show bp|locals|args|globals\n"@)), t)
    } else if parts[1] == "bp"@ {
        (Ok(show::shows(breakpoints_text(base, syms, at))), t)
    } else if parts[1] == "locals"@ {
        kind_shown(d, t, base, syms, VarKind::Locals)
    } else if parts[1] == "args"@ {
        kind_shown(d, t, base, syms, VarKind::Args)
    } else if parts[1] == "globals"@ {
        kind_shown(d, t, base, syms, VarKind::Globals)
    } else {
        (
            Ok(
                show::complains(
                    "show: unknown subcommand '"@ + parts[1] + "' (bp|locals|args|globals|leaks)\n"@,
                ),
            ),
            t,
        )
    }
}

/// What `show` shows.
pub fn show_command(
    io: &mut Tape,
    dbg: &Debugger,
    base: Option<u64>,
    syms: Option<&Symbols>,
    parts: &Vec<String>,
) -> (r: Result<Report, Stop>)
    ensures
        forall|at: Seq<usize>|
            addr_map::is_key_list(at, dbg.state().bps.dom()) ==> (show::step_report(r), final(io)@)
                == #[trigger] list_shown(
                dbg.state(),
                old(io)@,
                base,
                syms,
                text::texts(parts@),
                at,
            ),
{
    let ghost ps = text::texts(parts@);
    if parts.len() < 2 {
        return Ok(complain(owned("usage: show bp|locals|args|globals\n")));
    }
    let sub = parts[1].as_str();
    assert(sub@ == ps[1]);
    if str_eq(sub, "bp") {
        let at = dbg.breakpoint_addrs();
        proof {
            let dom = dbg.state().bps.dom();
            assert forall|k: Seq<usize>| addr_map::is_key_list(k, dom) implies k == at@ by {
                addr_map::law_key_list_unique(k, at@, dom);
            }
        }
        return Ok(show(print_breakpoints(base, syms, &at)));
    }
    if str_eq(sub, "locals") {
        return show_vars(io, dbg, base, syms, VarKind::Locals);
    }
    if str_eq(sub, "args") {
        return show_vars(io, dbg, base, syms, VarKind::Args);
    }
    if str_eq(sub, "globals") {
        return show_vars(io, dbg, base, syms, VarKind::Globals);
    }
    let mut m = owned("show: unknown subcommand '");
    m.append(sub);
    m.append("' (bp|locals|args|globals|leaks)\n");
    Ok(complain(m))
}

} // verus!
