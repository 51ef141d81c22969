//! What holds of what is shown of the process: its frames, its source, its status.
use crate::breakpoint;
use crate::bytes;
use crate::commands::show;
use crate::debugger::{Dbg, WaitStatus};
use crate::numerals;
use crate::register::Registers;
use crate::symbols;
use crate::symbols::Symbols;
use crate::tape::{Answer, DebugSeq, Halt, Request, Rest, StopSeq};
use vstd::prelude::*;

verus! {

/// The line of frame `i`, as far as it holds its number and its address.
pub open spec fn frame_head(i: nat, pc: u64) -> Seq<char> {
    "#"@ + numerals::pad_right(numerals::dec(i), 2, ' ') + " "@ + numerals::addr_text(pc as nat)
}

/// What is listed stays, and the frame comes behind it on a line of its own.
proof fn lemma_frame_is_listed(
    d: Dbg,
    t: Rest,
    base: Option<u64>,
    syms: Option<&Symbols>,
    pc: u64,
    fp: u64,
    done: Seq<char>,
    i: nat,
)
    ensures
        show::frames(d, t, base, syms, pc, fp, done, i).0 matches Ok(s) ==> done.is_prefix_of(s),
        i < 64 ==> (show::frames(d, t, base, syms, pc, fp, done, i).0 matches Ok(s) ==> (done + frame_head(
            i,
            pc,
        )).is_prefix_of(s)),
    decreases 64 - i,
{
    if i < 64 {
        let note = show::address_note(syms, base, pc, false);
        let line = show::numbered_line(i, pc, note);
        let now = done + line;
        let head = frame_head(i, pc);
        assert(line =~= head + note + "\n"@);
        assert(now.take((done + head).len() as int) =~= done + head);
        if t.len() > 0 {
            if let Answer::Bytes(raw) = t[0] {
                let b = breakpoint::program_bytes(d.bps, fp as usize, raw);
                if b.len() >= 16 {
                    lemma_frame_is_listed(
                        d,
                        t.skip(1),
                        base,
                        syms,
                        bytes::le(b.subrange(8, 16)) as u64,
                        bytes::le(b.subrange(0, 8)) as u64,
                        now,
                        i + 1,
                    );
                }
            }
        }
        if show::frames(d, t, base, syms, pc, fp, done, i).0 is Ok {
            let s = show::frames(d, t, base, syms, pc, fp, done, i).0->Ok_0;
            assert(now.is_prefix_of(s));
            assert(s.take(now.len() as int) =~= now);
            assert((done + head) =~= s.take((done + head).len() as int));
            assert(done =~= s.take(done.len() as int));
        }
    }
}

/// The backtrace follows the chain of saved frame pointers: while fewer than sixty-four frames are listed
/// and the last one is not in the main function, its frame pointer is not zero, the sixteen bytes there
/// can be read, and hold a higher frame pointer and a return address that is not zero, the line of the
/// return address follows, with the next number.
pub proof fn law_backtrace_lists_the_chain(
    d: Dbg,
    t: Rest,
    base: Option<u64>,
    syms: Option<&Symbols>,
    pc: u64,
    fp: u64,
    done: Seq<char>,
    i: nat,
    raw: Seq<u8>,
)
    requires
        i + 1 < 64,
        !show::in_main(syms, base, pc),
        fp != 0,
        t.len() > 0 && t[0] == Answer::<Seq<u8>, Seq<u32>, Seq<char>, DebugSeq>::Bytes(raw),
        raw.len() >= 16,
        ({
            let b = breakpoint::program_bytes(d.bps, fp as usize, raw);
            bytes::le(b.subrange(0, 8)) > fp && bytes::le(b.subrange(8, 16)) != 0
        }),
    ensures
        ({
            let b = breakpoint::program_bytes(d.bps, fp as usize, raw);
            let saved = bytes::le(b.subrange(0, 8)) as u64;
            let ret = bytes::le(b.subrange(8, 16)) as u64;
            let line = frame_head(i, pc) + show::address_note(syms, base, pc, false) + "\n"@;
            let all = show::frames(d, t, base, syms, pc, fp, done, i);
            &&& all == show::frames(d, t.skip(1), base, syms, ret, saved, done + line, i + 1)
            &&& all.0 matches Ok(s) ==> (done + line + frame_head(i + 1, ret)).is_prefix_of(s)
        }),
{
    let b = breakpoint::program_bytes(d.bps, fp as usize, raw);
    let saved = bytes::le(b.subrange(0, 8)) as u64;
    let ret = bytes::le(b.subrange(8, 16)) as u64;
    bytes::lemma_le_bound(b.subrange(0, 8));
    bytes::lemma_le_bound(b.subrange(8, 16));
    bytes::lemma_pow256_values();
    let note = show::address_note(syms, base, pc, false);
    let line = frame_head(i, pc) + note + "\n"@;
    assert(show::numbered_line(i, pc, note) =~= line);
    lemma_frame_is_listed(d, t.skip(1), base, syms, ret, saved, done + line, i + 1);
}

/// A frame is read where it stands: sixteen bytes at its frame pointer.
pub proof fn law_frame_is_read_at_its_pointer(
    d: Dbg,
    base: Option<u64>,
    syms: Option<&Symbols>,
    pc: u64,
    fp: u64,
    done: Seq<char>,
    i: nat,
)
    requires
        i < 64,
        !show::in_main(syms, base, pc),
        fp != 0,
    ensures
        show::frames(d, Seq::empty(), base, syms, pc, fp, done, i).0 == Err::<Seq<char>, StopSeq>(
            Halt::Ask(Request::Read { addr: fp as usize, len: 16 }),
        ),
{
}

/// The chain ends with the line of the frame where that is in the main function, where its frame pointer
/// is zero, where memory cannot be read there, where the return address is zero or the saved frame pointer
/// is not higher, and with the sixty-fourth frame.
pub proof fn law_backtrace_ends(
    d: Dbg,
    t: Rest,
    base: Option<u64>,
    syms: Option<&Symbols>,
    pc: u64,
    fp: u64,
    done: Seq<char>,
    i: nat,
)
    requires
        i < 64,
        ({
            ||| show::in_main(syms, base, pc)
            ||| fp == 0
            ||| t.len() > 0 && t[0] is Failed
            ||| t.len() > 0 && t[0] is Code
            ||| t.len() > 0 && (t[0] matches Answer::Bytes(raw) && ({
                let b = breakpoint::program_bytes(d.bps, fp as usize, raw);
                ||| raw.len() < 16
                ||| bytes::le(b.subrange(8, 16)) == 0
                ||| bytes::le(b.subrange(0, 8)) <= fp
                ||| i == 63
            }))
        }),
    ensures
        show::frames(d, t, base, syms, pc, fp, done, i).0 == Ok::<Seq<char>, StopSeq>(
            done + (frame_head(i, pc) + show::address_note(syms, base, pc, false) + "\n"@),
        ),
{
    reveal_with_fuel(show::frames, 2);
    let note = show::address_note(syms, base, pc, false);
    assert(show::numbered_line(i, pc, note) =~= frame_head(i, pc) + note + "\n"@);
    if t.len() > 0 {
        if let Answer::Bytes(raw) = t[0] {
            let b = breakpoint::program_bytes(d.bps, fp as usize, raw);
            if raw.len() >= 16 {
                bytes::lemma_le_bound(b.subrange(0, 8));
                bytes::lemma_le_bound(b.subrange(8, 16));
                bytes::lemma_pow256_values();
            }
        }
    }
}

/// The backtrace begins with frame zero, at the program counter and the frame pointer of the current
/// thread.
pub proof fn law_backtrace_begins_here(
    d: Dbg,
    t: Rest,
    base: Option<u64>,
    syms: Option<&Symbols>,
    regs: Registers,
)
    requires
        d.current < d.threads.len(),
        t.len() > 0 && t[0] == Answer::<Seq<u8>, Seq<u32>, Seq<char>, DebugSeq>::Registers(regs),
    ensures
        show::backtrace(d, Seq::empty(), base, syms).0 == Err::<show::ReportSeq, StopSeq>(
            Halt::Ask(Request::GetRegisters { port: d.threads[d.current as int].port }),
        ),
        ({
            let (pc, fp) = match regs {
                Registers::X86(g) => (g.__rip, g.__rbp),
                Registers::Arm(g) => (g.__pc, g.__fp),
            };
            let f = show::frames(d, t.skip(1), base, syms, pc, fp, Seq::empty(), 0);
            &&& show::backtrace(d, t, base, syms).1 == f.1
            &&& f.0 matches Ok(s) ==> show::backtrace(d, t, base, syms).0 == Ok::<_, StopSeq>(
                (show::ReportSeq { out: s, err: Seq::empty() }),
            ) && frame_head(0, pc).is_prefix_of(s)
            &&& f.0 matches Err(h) ==> show::backtrace(d, t, base, syms).0 == Err::<
                show::ReportSeq,
                StopSeq,
            >(h)
        }),
{
    let (pc, fp) = match regs {
        Registers::X86(g) => (g.__rip, g.__rbp),
        Registers::Arm(g) => (g.__pc, g.__fp),
    };
    lemma_frame_is_listed(d, t.skip(1), base, syms, pc, fp, Seq::empty(), 0);
    assert(Seq::<char>::empty() + frame_head(0, pc) =~= frame_head(0, pc));
}

/// What is known of an address is what the file knows of the address that is as far from `__TEXT` as it
/// is from the base: the symbol that holds it with the distance from its beginning, and the place.
pub proof fn law_note_tells_symbol_and_place(
    s: &Symbols,
    b: u64,
    addr: u64,
    v: u64,
    i: int,
    brief: bool,
)
    requires
        v.wrapping_sub(s.text_vmaddr) == addr.wrapping_sub(b),
        symbols::holds(s.symbols@, v, i),
    ensures
        ({
            let name = s.symbols@[i].0@;
            let off = (v - s.symbols@[i].1) as u64;
            let place = match symbols::location(s.line_rows@, v) {
                Some((p, l)) => "  ("@ + p + ":"@ + numerals::dec(l as nat) + ")"@,
                None => Seq::empty(),
            };
            &&& show::address_note(Some(s), Some(b), addr, brief) == (if brief && off == 0 {
                "  "@ + name
            } else {
                "  "@ + name + (" + "@ + ("0x"@ + numerals::numeral(off as nat, 16)))
            }) + place
            &&& show::in_main(Some(s), Some(b), addr) <==> name == "main"@ || name == "_main"@
        }),
        show::address_note(None, Some(b), addr, brief).len() == 0,
        show::address_note(Some(s), None, addr, brief).len() == 0,
        !show::in_main(None, Some(b), addr) && !show::in_main(Some(s), None, addr),
{
    assert(addr.wrapping_sub(b.wrapping_sub(s.text_vmaddr)) == v);
    let k = choose|k: int| symbols::holds(s.symbols@, v, k);
    assert(symbols::holds(s.symbols@, v, k));
    assert(k == i) by {
        assert(symbols::can_hold(s.symbols@[i], v));
        assert(symbols::can_hold(s.symbols@[k], v));
    }
    let name = s.symbols@[i].0@;
    assert("  "@ + name + Seq::<char>::empty() =~= "  "@ + name);
}

/// Where the source is shown, every line from `context` lines before to `context` lines behind the current
/// one that the file has is shown once, and no other.
pub proof fn law_source_window(lines: Seq<Seq<char>>, path: Seq<char>, line: u32, context: int, n: int)
    requires
        context >= 0,
    ensures
        show::source_shown(lines, path, line, context) is Some <==> 1 <= line <= lines.len(),
        1 <= line <= lines.len() ==> (show::first_shown(line as int, context) <= n <= show::last_shown(
            line as int,
            context,
            lines.len() as int,
        ) <==> 1 <= n <= lines.len() && line - context <= n <= line + context),
{
}

/// Lines are shown one below the other: each with its number, and the current one with a mark.
pub proof fn law_source_lines(lines: Seq<Seq<char>>, from: int, to: int, cur: int, width: nat)
    requires
        1 <= from <= to <= lines.len(),
    ensures
        show::source_lines(lines, from, from - 1, cur, width).len() == 0,
        show::source_lines(lines, from, to, cur, width) == show::source_lines(
            lines,
            from,
            to - 1,
            cur,
            width,
        ) + ((if to == cur {
            "=> "@
        } else {
            "   "@
        }) + numerals::pad_left(numerals::dec(to as nat), width, ' ') + "  "@ + lines[to - 1] + "\n"@),
{
    reveal_strlit("=>");
    reveal_strlit("  ");
    reveal_strlit(" ");
    reveal_strlit("=> ");
    reveal_strlit("   ");
    assert("=> "@ =~= "=>"@ + " "@);
    assert("   "@ =~= "  "@ + " "@);
}

/// The line of a status tells its kind and its number.
pub proof fn law_status_line(s: WaitStatus)
    ensures
        show::status_line(s).last() == '\n',
        s matches WaitStatus::Stopped { signal, pc } ==> show::status_line(s) == "Stopped: signal="@
            + numerals::signed_dec(signal as int) + " pc="@ + ("0x"@ + numerals::pad_left(
            numerals::numeral(pc as nat, 16),
            16,
            '0',
        )) + "\n"@,
        s matches WaitStatus::Exited { code } ==> show::status_line(s) == "Exited: code="@
            + numerals::signed_dec(code as int) + "\n"@,
        s matches WaitStatus::Signaled { signal } ==> show::status_line(s) == "Signaled: signal="@
            + numerals::signed_dec(signal as int) + "\n"@,
{
    reveal_strlit("\n");
}

/// The source is shown below its path and the line, with the numbers of the lines as wide as the last
/// one that is shown.
pub proof fn law_source_is_shown(
    lines: Seq<Seq<char>>,
    path: Seq<char>,
    line: u32,
    context: int,
    from: int,
    to: int,
)
    requires
        context >= 0,
        1 <= line <= lines.len(),
        from == (if line - context >= 1 {
            line - context
        } else {
            1
        }),
        to == (if line + context <= lines.len() {
            line + context
        } else {
            lines.len() as int
        }),
    ensures
        show::source_shown(lines, path, line, context) == Some(
            path + ":"@ + numerals::dec(line as nat) + "\n"@ + show::source_lines(
                lines,
                from,
                to,
                line as int,
                numerals::dec(to as nat).len(),
            ),
        ),
        show::source_shown(lines, path, 0, context) is None,
{
}

} // verus!
