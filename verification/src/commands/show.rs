//! What is shown of the process: its status, its frames, its source, its code and its breakpoints.
use crate::bytes;
use crate::bytes::le_u64;
use crate::commands::variables;
use crate::debugger;
use crate::debugger::{Dbg, Debugger, WaitStatus};
use crate::numerals;
use crate::numerals::{dec_string, push_addr, push_dec, push_hex, push_padded_left, push_padded_right, push_signed};
use crate::symbols;
use crate::symbols::{push_place, Symbols};
use crate::tape::{Got, Halt, Rest, Stop, StopSeq, Tape};
use crate::text;
use crate::text::{chars_of, lines_of, owned, str_eq};
use vstd::prelude::*;

verus! {

/// What a command tells the user: what it shows, and what went wrong.
#[derive(Clone, Debug, PartialEq, Eq)]
pub struct Report {
    pub out: String,
    pub err: String,
}

/// A report with its texts as sequences of characters.
#[verifier::ext_equal]
pub struct ReportSeq {
    pub out: Seq<char>,
    pub err: Seq<char>,
}

impl Report {
    /// The report with its texts as sequences of characters.
    pub open spec fn seq(self) -> ReportSeq {
        ReportSeq { out: self.out@, err: self.err@ }
    }
}

/// A report that shows something.
pub open spec fn shows(s: Seq<char>) -> ReportSeq {
    ReportSeq { out: s, err: Seq::empty() }
}

/// A report that something went wrong.
pub open spec fn complains(s: Seq<char>) -> ReportSeq {
    ReportSeq { out: Seq::empty(), err: s }
}

/// A report that shows something.
pub fn show(s: String) -> (r: Report)
    ensures
        r.seq() == shows(s@),
{
    let r = Report { out: s, err: String::new() };
    assert(r.seq() =~= shows(s@));
    r
}

/// A report that something went wrong.
pub fn complain(s: String) -> (r: Report)
    ensures
        r.seq() == complains(s@),
{
    let r = Report { out: String::new(), err: s };
    assert(r.seq() =~= complains(s@));
    r
}

/// A line: a text, another behind it and a line feed.
pub open spec fn line2(a: Seq<char>, b: Seq<char>) -> Seq<char> {
    a + b + "\n"@
}

/// A line of two texts.
pub fn line_of(a: &str, b: &str) -> (r: String)
    ensures
        r@ == line2(a@, b@),
{
    let mut s = owned(a);
    s.append(b);
    s.append("\n");
    s
}

/// The outcome of a command, with the report's texts as sequences of characters.
pub open spec fn step_report(r: Result<Report, Stop>) -> Result<ReportSeq, StopSeq> {
    match r {
        Ok(p) => Ok(p.seq()),
        Err(h) => Err(h.seq()),
    }
}

/// The line of a status.
pub open spec fn status_line(s: WaitStatus) -> Seq<char> {
    match s {
        WaitStatus::Stopped { signal, pc } => "Stopped: signal="@ + numerals::signed_dec(signal as int)
            + " pc="@ + numerals::addr_text(pc as nat) + "\n"@,
        WaitStatus::Exited { code } => "Exited: code="@ + numerals::signed_dec(code as int) + "\n"@,
        WaitStatus::Signaled { signal } => "Signaled: signal="@ + numerals::signed_dec(signal as int)
            + "\n"@,
        WaitStatus::Unknown { status } => "Unknown status: "@ + numerals::signed_dec(status as int)
            + "\n"@,
    }
}

/// The line of a status.
pub fn print_status(status: WaitStatus) -> (r: String)
    ensures
        r@ == status_line(status),
{
    let mut s = String::new();
    assert(s@ =~= Seq::empty());
    match status {
        WaitStatus::Stopped { signal, pc } => {
            s.append("Stopped: signal=");
            push_signed(&mut s, signal as i64);
            s.append(" pc=");
            push_addr(&mut s, pc);
        },
        WaitStatus::Exited { code } => {
            s.append("Exited: code=");
            push_signed(&mut s, code as i64);
        },
        WaitStatus::Signaled { signal } => {
            s.append("Signaled: signal=");
            push_signed(&mut s, signal as i64);
        },
        WaitStatus::Unknown { status } => {
            s.append("Unknown status: ");
            push_signed(&mut s, status as i64);
        },
    }
    s.append("\n");
    assert(s@ =~= status_line(status));
    s
}

/// What is known of an address of the file: the symbol that holds it, with the distance from its
/// beginning, and the place. At the beginning of a symbol the distance is left out where `brief` says
/// so.
pub open spec fn address_note(syms: Option<&Symbols>, base: Option<u64>, addr: u64, brief: bool) -> Seq<
    char,
> {
    match (syms, base) {
        (Some(s), Some(b)) => {
            let v = addr.wrapping_sub(s.spec_slide(b));
            (match s.holder(v) {
                Some((name, off)) => "  "@ + name + (if brief && off == 0 {
                    Seq::empty()
                } else {
                    " + "@ + numerals::hex(off as nat)
                }),
                None => Seq::empty(),
            }) + (match s.spec_location(v) {
                Some(p) => symbols::place_text(p),
                None => Seq::empty(),
            })
        },
        _ => Seq::empty(),
    }
}

/// A numbered line: the number, the address and what is known of it.
pub open spec fn numbered_line(n: nat, addr: u64, note: Seq<char>) -> Seq<char> {
    "#"@ + numerals::pad_right(numerals::dec(n), 2, ' ') + " "@ + numerals::addr_text(addr as nat) + note
        + "\n"@
}

/// Appends a numbered line. Gives whether the symbol that holds the address is the main function.
pub fn push_numbered(
    out: &mut String,
    n: usize,
    addr: u64,
    syms: Option<&Symbols>,
    base: Option<u64>,
    brief: bool,
) -> (r: bool)
    ensures
        final(out)@ == old(out)@ + numbered_line(n as nat, addr, address_note(syms, base, addr, brief)),
        r == in_main(syms, base, addr),
{
    let ghost before = out@;
    let mut main: bool = false;
    out.append("#");
    let num = dec_string(n as u64);
    push_padded_right(out, num.as_str(), 2, ' ');
    out.append(" ");
    push_addr(out, addr);
    let ghost mid = out@;
    if let (Some(s), Some(b)) = (syms, base) {
        let v: u64 = addr.wrapping_sub(s.slide(b));
        if let Some((name, off)) = s.find_symbol_for_addr(v) {
            out.append("  ");
            out.append(name);
            if !(brief && off == 0) {
                out.append(" + ");
                push_hex(out, off);
            }
            main = str_eq(name, "_main") || str_eq(name, "main");
        }
        if let Some((path, line)) = s.find_location(v) {
            push_place(out, path.as_str(), line);
        }
    }
    assert(out@ =~= mid + address_note(syms, base, addr, brief));
    out.append("\n");
    assert(out@ =~= before + numbered_line(n as nat, addr, address_note(syms, base, addr, brief)));
    main
}

/// Whether the symbol that holds an address is the main function.
pub open spec fn in_main(syms: Option<&Symbols>, base: Option<u64>, addr: u64) -> bool {
    match (syms, base) {
        (Some(s), Some(b)) => s.holder(addr.wrapping_sub(s.spec_slide(b))) matches Some((name, _)) && (name
            == "_main"@ || name == "main"@),
        _ => false,
    }
}

/// The frames from number `i` on, behind `done`: the saved frame pointer and the return address stand at
/// the frame pointer. The chain ends at the main function, at a frame pointer of zero, where it cannot
/// be read or does not rise, and after sixty-four frames.
pub open spec fn frames(
    d: Dbg,
    t: Rest,
    base: Option<u64>,
    syms: Option<&Symbols>,
    pc: u64,
    fp: u64,
    done: Seq<char>,
    i: nat,
) -> Got<Seq<char>>
    decreases 64 - i,
{
    if i >= 64 {
        (Ok(done), t)
    } else {
        let now = done + numbered_line(i, pc, address_note(syms, base, pc, false));
        if in_main(syms, base, pc) || fp == 0 {
            (Ok(now), t)
        } else {
            match debugger::mem_or_empty(d, t, fp as usize, 16) {
                (Err(h), u) => (Err(h), u),
                (Ok(b), u) => if b.len() < 16 {
                    (Ok(now), u)
                } else {
                    let saved = bytes::le(b.subrange(0, 8)) as u64;
                    let ret = bytes::le(b.subrange(8, 16)) as u64;
                    if ret == 0 || saved <= fp {
                        (Ok(now), u)
                    } else {
                        frames(d, u, base, syms, ret, saved, now, i + 1)
                    }
                },
            }
        }
    }
}

/// The frames of the current thread.
pub open spec fn backtrace(d: Dbg, t: Rest, base: Option<u64>, syms: Option<&Symbols>) -> Got<ReportSeq> {
    match debugger::regs_of(d, t) {
        (Err(Halt::Ask(q)), u) => (Err(Halt::Ask(q)), u),
        (Err(Halt::Fail(m)), u) => (Ok(complains(line2("failed to read registers: "@, m))), u),
        (Ok(regs), u) => match frames(d, u, base, syms, regs.spec_pc(), regs.spec_bp(), Seq::empty(), 0) {
            (Err(h), v) => (Err(h), v),
            (Ok(s), v) => (Ok(shows(s)), v),
        },
    }
}

/// The frames from the first on.
fn push_frames(
    io: &mut Tape,
    dbg: &Debugger,
    base: Option<u64>,
    syms: Option<&Symbols>,
    first_pc: u64,
    first_fp: u64,
) -> (r: Result<String, Stop>)
    ensures
        (variables::step_text(r), final(io)@) == frames(
            dbg.state(),
            old(io)@,
            base,
            syms,
            first_pc,
            first_fp,
            Seq::empty(),
            0,
        ),
{
    let mut out = String::new();
    let mut pc: u64 = first_pc;
    let mut fp: u64 = first_fp;
    let mut i: usize = 0;
    let ghost d = dbg.state();
    let ghost whole = frames(d, io@, base, syms, pc, fp, Seq::empty(), 0);
    assert(out@ =~= Seq::empty());
    while i < 64
        invariant
            i <= 64,
            d == dbg.state(),
            whole == frames(d, old(io)@, base, syms, first_pc, first_fp, Seq::empty(), 0),
            whole == frames(d, io@, base, syms, pc, fp, out@, i as nat),
        decreases 64 - i,
    {
        if push_numbered(&mut out, i, pc, syms, base, false) || fp == 0 {
            return Ok(out);
        }
        let b = dbg.read_or_empty(io, fp as usize, 16)?;
        if b.len() < 16 {
            return Ok(out);
        }
        let saved: u64 = le_u64(vstd::slice::slice_subrange(b.as_slice(), 0, 8));
        let ret: u64 = le_u64(vstd::slice::slice_subrange(b.as_slice(), 8, 16));
        if ret == 0 || saved <= fp {
            return Ok(out);
        }
        pc = ret;
        fp = saved;
        i = i + 1;
    }
    Ok(out)
}

/// The frames of the current thread.
pub fn print_backtrace(
    io: &mut Tape,
    dbg: &Debugger,
    base: Option<u64>,
    syms: Option<&Symbols>,
) -> (r: Result<Report, Stop>)
    ensures
        (step_report(r), final(io)@) == backtrace(dbg.state(), old(io)@, base, syms),
{
    let regs = match dbg.registers(io) {
        Ok(regs) => regs,
        Err(Halt::Ask(q)) => return Err(Halt::Ask(q)),
        Err(Halt::Fail(m)) => return Ok(complain(line_of("failed to read registers: ", m.as_str()))),
    };
    let s = push_frames(io, dbg, base, syms, regs.pc(), regs.bp())?;
    Ok(show(s))
}

/// Line `n` of a source, with a mark where it is the current one.
pub open spec fn source_line(lines: Seq<Seq<char>>, n: int, cur: int, width: nat) -> Seq<char> {
    (if n == cur {
        "=>"@
    } else {
        "  "@
    }) + " "@ + numerals::pad_left(numerals::dec(n as nat), width, ' ') + "  "@ + lines[n - 1] + "\n"@
}

/// Lines `from` to `to` of a source.
pub open spec fn source_lines(lines: Seq<Seq<char>>, from: int, to: int, cur: int, width: nat) -> Seq<char>
    decreases to - from + 1,
{
    if to < from {
        Seq::empty()
    } else {
        source_lines(lines, from, to - 1, cur, width) + source_line(lines, to, cur, width)
    }
}

/// The first line that is shown around `cur`.
pub open spec fn first_shown(cur: int, context: int) -> int {
    if cur - context > 1 {
        cur - context
    } else {
        1
    }
}

/// The last line that is shown around `cur`.
pub open spec fn last_shown(cur: int, context: int, count: int) -> int {
    if cur + context < count {
        cur + context
    } else {
        count
    }
}

/// What is shown of a source: the place, and the line with `context` lines before and behind it.
pub open spec fn source_shown(lines: Seq<Seq<char>>, path: Seq<char>, line: u32, context: int) -> Option<
    Seq<char>,
> {
    if line == 0 || line > lines.len() {
        None
    } else {
        let to = last_shown(line as int, context, lines.len() as int);
        Some(
            path + ":"@ + numerals::dec(line as nat) + "\n"@ + source_lines(
                lines,
                first_shown(line as int, context),
                to,
                line as int,
                numerals::dec(to as nat).len(),
            ),
        )
    }
}

/// Appends a line of a source.
fn push_source_line(out: &mut String, lines: &Vec<String>, n: usize, cur: usize, width: usize)
    requires
        1 <= n <= lines@.len(),
    ensures
        final(out)@ == old(out)@ + source_line(text::texts(lines@), n as int, cur as int, width as nat),
{
    let ghost before = out@;
    if n == cur {
        out.append("=>");
    } else {
        out.append("  ");
    }
    out.append(" ");
    let num = dec_string(n as u64);
    push_padded_left(out, num.as_str(), width, ' ');
    out.append("  ");
    out.append(lines[n - 1].as_str());
    out.append("\n");
    assert(out@ =~= before + source_line(text::texts(lines@), n as int, cur as int, width as nat));
}

/// Appends lines `from` to `to` of a source.
fn push_source(out: &mut String, lines: &Vec<String>, from: usize, to: usize, cur: usize, width: usize)
    requires
        1 <= from <= to <= lines@.len(),
    ensures
        final(out)@ == old(out)@ + source_lines(
            text::texts(lines@),
            from as int,
            to as int,
            cur as int,
            width as nat,
        ),
{
    let ghost all = text::texts(lines@);
    let ghost head = out@;
    let mut n: usize = from - 1;
    assert(out@ =~= head + source_lines(all, from as int, n as int, cur as int, width as nat));
    while n < to
        invariant
            1 <= from <= n + 1,
            n <= to <= lines@.len(),
            all == text::texts(lines@),
            out@ == head + source_lines(all, from as int, n as int, cur as int, width as nat),
        decreases to - n,
    {
        n = n + 1;
        push_source_line(out, lines, n, cur, width);
        assert(out@ =~= head + source_lines(all, from as int, n as int, cur as int, width as nat));
    }
}

/// What is shown of the source `text` of the file at `path`; nothing where it has no such line.
pub fn list_source(text: &str, path: &str, line: u32, context: usize) -> (r: Option<String>)
    ensures
        match r {
            Some(s) => source_shown(text::lines(text@), path@, line, context as int) == Some(s@),
            None => source_shown(text::lines(text@), path@, line, context as int) is None,
        },
{
    let lines = lines_of(text);
    let ghost all = text::texts(lines@);
    let count: usize = lines.len();
    assert(all.len() == count);
    if line == 0 || line as u64 > count as u64 {
        return None;
    }
    let cur: usize = line as usize;
    let from: usize = if cur > context && cur - context > 1 {
        cur - context
    } else {
        1
    };
    let to: usize = if context < count - cur {
        cur + context
    } else {
        count
    };
    let mut out = owned(path);
    out.append(":");
    push_dec(&mut out, line as u64);
    out.append("\n");
    let width: usize = chars_of(dec_string(to as u64).as_str()).len();
    push_source(&mut out, &lines, from, to, cur, width);
    Some(out)
}

} // verus!
