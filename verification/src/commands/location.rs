//! Places in the program: addresses, lines and symbols as the user names them.
use crate::debugger;
use crate::debugger::{Dbg, Debugger};
use crate::numerals;
use crate::numerals::{push_dec, read_number};
use crate::register::Registers;
use crate::symbols;
use crate::symbols::Symbols;
use crate::tape::{Answer, DebugSeq, Got, Halt, Request, Rest, Stop, StopSeq, Tape};
use crate::text;
use crate::text::{chars_of, owned, split_at_last, string_of, strip_prefix};
use vstd::prelude::*;

verus! {

/// An address as a number: hexadecimal behind `0x`, else decimal.
pub open spec fn plain_addr(s: Seq<char>) -> Option<usize> {
    let n = match text::after_prefix(s, "0x"@) {
        Some(h) => numerals::parse_number(h, 16, usize::MAX as nat),
        None => numerals::parse_number(s, 10, usize::MAX as nat),
    };
    match n {
        Some(v) => Some(v as usize),
        None => None,
    }
}

/// An address: a number, or `base+` and the distance from the base of the program.
pub open spec fn addr_named(s: Seq<char>, base: Option<u64>) -> Option<usize> {
    match text::after_prefix(s, "base+"@) {
        Some(rest) => match (plain_addr(rest), base) {
            (Some(off), Some(b)) => Some((b as usize).wrapping_add(off)),
            _ => None,
        },
        None => plain_addr(s),
    }
}

/// A line number.
pub open spec fn line_number(s: Seq<char>) -> Option<u32> {
    match numerals::parse_number(s, 10, u32::MAX as nat) {
        Some(v) => Some(v as u32),
        None => None,
    }
}

/// A file and a line with a colon between them.
pub open spec fn file_line(s: Seq<char>) -> Option<(Seq<char>, u32)> {
    match text::split_last(s, ':') {
        Some((file, l)) => match line_number(l) {
            Some(n) => Some((file, n)),
            None => None,
        },
        None => None,
    }
}

/// The address of a line in the loaded program; `label` names the line in the message.
pub open spec fn line_addr(
    syms: Option<&Symbols>,
    base: Option<u64>,
    file: Seq<char>,
    line: u32,
    label: Seq<char>,
) -> Result<usize, Seq<char>> {
    match syms {
        None => Err("no symbol/debug info loaded"@),
        Some(s) => match s.spec_line(file, line) {
            None => Err("no line info for "@ + label + " (try dsymutil)"@),
            Some(v) => match base {
                None => Err("image base unknown (task_for_pid failed?)"@),
                Some(b) => Ok(v.wrapping_add(s.spec_slide(b)) as usize),
            },
        },
    }
}

/// The address of a symbol in the loaded program, behind the prologue that the line table shows.
pub open spec fn symbol_place(syms: Option<&Symbols>, base: Option<u64>, name: Seq<char>) -> Result<
    usize,
    Seq<char>,
> {
    match syms {
        None => Err("no symbol/debug info loaded"@),
        Some(s) => match s.symbol_addr(name) {
            None => Err("symbol not found: "@ + name),
            Some(v) => match base {
                None => Err(
                    "image base unknown (task_for_pid failed; is the target codesigned with get-task-allow?)"@,
                ),
                Some(b) => Ok(
                    symbols::prologue_end(
                        s.line_rows@,
                        v,
                        symbols::next_symbol(s.symbols@, v),
                        false,
                        None,
                    ).wrapping_add(s.spec_slide(b)) as usize,
                ),
            },
        },
    }
}

/// The address that the user means: a file and a line, a line of the current file, an address, or else a
/// symbol.
pub open spec fn located(
    arg: Seq<char>,
    base: Option<u64>,
    syms: Option<&Symbols>,
    file: Option<Seq<char>>,
) -> Result<usize, Seq<char>> {
    match file_line(arg) {
        Some((f, l)) => line_addr(syms, base, f, l, arg),
        None => match line_number(arg) {
            Some(l) => match (syms, file) {
                (None, _) => Err("no symbol/debug info loaded"@),
                (_, None) => Err("no current source file; use file:line format"@),
                (_, Some(f)) => line_addr(syms, base, f, l, f + ":"@ + numerals::dec(l as nat)),
            },
            None => match addr_named(arg, base) {
                Some(a) => Ok(a),
                None => symbol_place(syms, base, arg),
            },
        },
    }
}

/// An address as a number.
fn read_addr(s: &[char]) -> (r: Option<usize>)
    ensures
        r == plain_addr(s@),
{
    let n: Option<u64> = match strip_prefix(s, "0x") {
        Some(h) => read_number(h.as_slice(), 16, usize::MAX as u64),
        None => read_number(s, 10, usize::MAX as u64),
    };
    match n {
        Some(v) => Some(v as usize),
        None => None,
    }
}

/// An address: a number, or `base+` and the distance from the base of the program.
pub fn parse_addr(s: &str, base: Option<u64>) -> (r: Option<usize>)
    ensures
        r == addr_named(s@, base),
{
    let c = chars_of(s);
    match strip_prefix(c.as_slice(), "base+") {
        Some(rest) => match (read_addr(rest.as_slice()), base) {
            (Some(off), Some(b)) => Some((b as usize).wrapping_add(off)),
            _ => None,
        },
        None => read_addr(c.as_slice()),
    }
}

/// A line number.
pub fn parse_line(s: &[char]) -> (r: Option<u32>)
    ensures
        r == line_number(s@),
{
    match read_number(s, 10, u32::MAX as u64) {
        Some(v) => Some(v as u32),
        None => None,
    }
}

/// A file and a line with a colon between them.
fn parse_file_line(s: &[char]) -> (r: Option<(String, u32)>)
    ensures
        place_seq(r) == file_line(s@),
{
    match split_at_last(s, ':') {
        Some((f, l)) => match parse_line(l.as_slice()) {
            Some(n) => Some((string_of(f.as_slice()), n)),
            None => None,
        },
        None => None,
    }
}

/// The outcome of a search, with its message as a sequence of characters.
pub open spec fn told<A>(r: Result<A, String>) -> Result<A, Seq<char>> {
    match r {
        Ok(a) => Ok(a),
        Err(m) => Err(m@),
    }
}

/// The address of a line in the loaded program.
fn find_line_addr(
    syms: Option<&Symbols>,
    base: Option<u64>,
    file: &str,
    line: u32,
    label: &str,
) -> (r: Result<usize, String>)
    ensures
        told(r) == line_addr(syms, base, file@, line, label@),
{
    let s = match syms {
        Some(s) => s,
        None => return Err(owned("no symbol/debug info loaded")),
    };
    let v: u64 = match s.find_line(file, line) {
        Some(v) => v,
        None => {
            let mut m = owned("no line info for ");
            m.append(label);
            m.append(" (try dsymutil)");
            return Err(m);
        },
    };
    match base {
        Some(b) => Ok(v.wrapping_add(s.slide(b)) as usize),
        None => Err(owned("image base unknown (task_for_pid failed?)")),
    }
}

/// The address of a symbol in the loaded program.
fn find_symbol_place(syms: Option<&Symbols>, base: Option<u64>, name: &str) -> (r: Result<usize, String>)
    ensures
        told(r) == symbol_place(syms, base, name@),
{
    let s = match syms {
        Some(s) => s,
        None => return Err(owned("no symbol/debug info loaded")),
    };
    let v: u64 = match s.find_symbol(name) {
        Some(v) => v,
        None => {
            let mut m = owned("symbol not found: ");
            m.append(name);
            return Err(m);
        },
    };
    let v: u64 = s.skip_prologue(v);
    match base {
        Some(b) => Ok(v.wrapping_add(s.slide(b)) as usize),
        None => Err(
            owned(
                "image base unknown (task_for_pid failed; is the target codesigned with get-task-allow?)",
            ),
        ),
    }
}

/// The address that the user means: a file and a line, a line of the current file, an address, or else a
/// symbol.
pub fn resolve_location(
    arg: &str,
    base: Option<u64>,
    syms: Option<&Symbols>,
    current_file: Option<&str>,
) -> (r: Result<usize, String>)
    ensures
        told(r) == located(arg@, base, syms, symbols::opt_text(current_file)),
{
    let c = chars_of(arg);
    if let Some((f, l)) = parse_file_line(c.as_slice()) {
        return find_line_addr(syms, base, f.as_str(), l, arg);
    }
    if let Some(l) = parse_line(c.as_slice()) {
        if syms.is_none() {
            return Err(owned("no symbol/debug info loaded"));
        }
        return match current_file {
            Some(f) => {
                let mut label = owned(f);
                label.append(":");
                push_dec(&mut label, l as u64);
                find_line_addr(syms, base, f, l, label.as_str())
            },
            None => Err(owned("no current source file; use file:line format")),
        };
    }
    match parse_addr(arg, base) {
        Some(a) => Ok(a),
        None => find_symbol_place(syms, base, arg),
    }
}

/// A place with its path as a sequence of characters.
pub open spec fn place_seq(p: Option<(String, u32)>) -> Option<(Seq<char>, u32)> {
    match p {
        Some((s, n)) => Some((s@, n)),
        None => None,
    }
}

/// The outcome of a question for a place.
pub open spec fn step_place(r: Result<Option<(String, u32)>, Stop>) -> Result<
    Option<(Seq<char>, u32)>,
    StopSeq,
> {
    match r {
        Ok(p) => Ok(place_seq(p)),
        Err(h) => Err(h.seq()),
    }
}

/// The path and the line at which the current thread is, as far as that is known.
pub open spec fn line_read(d: Dbg, t: Rest, base: Option<u64>, syms: Option<&Symbols>) -> Got<
    Option<(Seq<char>, u32)>,
> {
    match (syms, base) {
        (Some(s), Some(b)) => match debugger::pc_of(d, t) {
            (Err(Halt::Ask(q)), u) => (Err(Halt::Ask(q)), u),
            (Err(_), u) => (Ok(None), u),
            (Ok(pc), u) => (Ok(s.spec_location(pc.wrapping_sub(s.spec_slide(b)))), u),
        },
        _ => (Ok(None), t),
    }
}

/// The path and the line at which the current thread is, as far as that is known.
pub fn current_line(io: &mut Tape, dbg: &Debugger, base: Option<u64>, syms: Option<&Symbols>) -> (r: Result<
    Option<(String, u32)>,
    Stop,
>)
    ensures
        (step_place(r), final(io)@) == line_read(dbg.state(), old(io)@, base, syms),
{
    match (syms, base) {
        (Some(s), Some(b)) => match dbg.pc(io) {
            Ok(pc) => {
                let slide: u64 = s.slide(b);
                Ok(s.find_location(pc.wrapping_sub(slide)))
            },
            Err(Halt::Ask(q)) => Err(Halt::Ask(q)),
            Err(_) => Ok(None),
        },
        _ => Ok(None),
    }
}

/// Whether a text is a name: a letter or an underscore, and then letters, digits and underscores.
pub open spec fn is_name(s: Seq<char>) -> bool {
    &&& s.len() > 0
    &&& text::is_alphabetic(s[0]) || s[0] == '_'
    &&& is_word(s.skip(1))
}

/// Whether a text is made of letters, digits and underscores.
pub open spec fn is_word(s: Seq<char>) -> bool {
    forall|i: int| 0 <= i < s.len() ==> text::is_alphanumeric(#[trigger] s[i]) || s[i] == '_'
}

/// Whether a text is made of letters, digits and underscores from `from` on.
pub fn word_from(c: &[char], from: usize) -> (r: bool)
    requires
        from <= c@.len(),
    ensures
        r == is_word(c@.skip(from as int)),
{
    let ghost w = c@.skip(from as int);
    let mut i: usize = from;
    while i < c.len()
        invariant
            from <= i <= c@.len(),
            w == c@.skip(from as int),
            forall|k: int| 0 <= k < i - from ==> text::is_alphanumeric(#[trigger] w[k]) || w[k] == '_',
        decreases c.len() - i,
    {
        assert(w[i - from] == c@[i as int]);
        if !(c[i].is_alphanumeric() || c[i] == '_') {
            return false;
        }
        i = i + 1;
    }
    true
}

/// Whether a text is a name.
pub fn is_identifier(s: &str) -> (r: bool)
    ensures
        r == is_name(s@),
{
    let c = chars_of(s);
    if c.len() == 0 || !(c[0].is_alphabetic() || c[0] == '_') {
        return false;
    }
    word_from(c.as_slice(), 1)
}

/// The place that the user wants to see: a file and a line, a line of the current file, or else a symbol.
/// A file that the debug information does not know is taken as it is where it `exists`.
pub open spec fn list_place(
    arg: Seq<char>,
    file: Option<Seq<char>>,
    syms: Option<&Symbols>,
    there: bool,
) -> Result<(Seq<char>, u32), Seq<char>> {
    match text::split_last(arg, ':') {
        Some((f, l)) => match line_number(l) {
            None => Err("invalid line number: "@ + l),
            Some(line) => match syms {
                None => Err("no source info for "@ + arg + " (try full path or dsymutil)"@),
                Some(s) => match file_place(s, f, line) {
                    Some(p) => Ok((p, line)),
                    None => if there {
                        Ok((f, line))
                    } else {
                        Err("no source info for "@ + arg + " (try full path or dsymutil)"@)
                    },
                },
            },
        },
        None => match line_number(arg) {
            Some(line) => match file {
                Some(f) => Ok((f, line)),
                None => Err("no current source file; use list file:line or list symbol"@),
            },
            None => match syms {
                None => Err("no symbol/debug info loaded"@),
                Some(s) => match s.symbol_addr(arg) {
                    None => Err("symbol not found: "@ + arg),
                    Some(v) => match s.spec_location(v) {
                        Some(p) => Ok(p),
                        None => Err("no source info for symbol: "@ + arg),
                    },
                },
            },
        },
    }
}

/// The path of a line of a file, by the debug information.
pub open spec fn file_place(s: &Symbols, file: Seq<char>, line: u32) -> Option<Seq<char>> {
    match s.spec_line(file, line) {
        Some(v) => match s.spec_location(v) {
            Some(p) => Some(p.0),
            None => None,
        },
        None => None,
    }
}

/// The file that the user names before a colon; whether it exists decides where nothing else is known.
pub fn named_file(arg: &str) -> (r: Option<String>)
    ensures
        match r {
            Some(f) => text::split_last(arg@, ':') matches Some(p) && p.0 == f@,
            None => text::split_last(arg@, ':') is None,
        },
{
    let c = chars_of(arg);
    match split_at_last(c.as_slice(), ':') {
        Some((f, _)) => Some(string_of(f.as_slice())),
        None => None,
    }
}

/// The outcome of a search for a place.
pub open spec fn told_place(r: Result<(String, u32), String>) -> Result<(Seq<char>, u32), Seq<char>> {
    match r {
        Ok((p, n)) => Ok((p@, n)),
        Err(m) => Err(m@),
    }
}

/// The message that there is no source.
fn no_source(arg: &str) -> (r: String)
    ensures
        r@ == "no source info for "@ + arg@ + " (try full path or dsymutil)"@,
{
    let mut m = owned("no source info for ");
    m.append(arg);
    m.append(" (try full path or dsymutil)");
    m
}

/// The place that the user wants to see. `file_exists` says whether the file that is named before a
/// colon exists.
pub fn resolve_list_target(
    arg: &str,
    current_file: Option<&str>,
    syms: Option<&Symbols>,
    file_exists: bool,
) -> (r: Result<(String, u32), String>)
    ensures
        told_place(r) == list_place(arg@, symbols::opt_text(current_file), syms, file_exists),
{
    let c = chars_of(arg);
    if let Some((f, l)) = split_at_last(c.as_slice(), ':') {
        let line: u32 = match parse_line(l.as_slice()) {
            Some(n) => n,
            None => {
                let mut m = owned("invalid line number: ");
                let l = string_of(l.as_slice());
                m.append(l.as_str());
                return Err(m);
            },
        };
        let file = string_of(f.as_slice());
        if let Some(s) = syms {
            if let Some(v) = s.find_line(file.as_str(), line) {
                if let Some((full, _)) = s.find_location(v) {
                    return Ok((full, line));
                }
            }
            if file_exists {
                return Ok((file, line));
            }
        }
        return Err(no_source(arg));
    }
    if let Some(line) = parse_line(c.as_slice()) {
        return match current_file {
            Some(f) => Ok((owned(f), line)),
            None => Err(owned("no current source file; use list file:line or list symbol")),
        };
    }
    let s = match syms {
        Some(s) => s,
        None => return Err(owned("no symbol/debug info loaded")),
    };
    let v: u64 = match s.find_symbol(arg) {
        Some(v) => v,
        None => {
            let mut m = owned("symbol not found: ");
            m.append(arg);
            return Err(m);
        },
    };
    match s.find_location(v) {
        Some(p) => Ok(p),
        None => {
            let mut m = owned("no source info for symbol: ");
            m.append(arg);
            Err(m)
        },
    }
}

/// The address found for the name of a symbol is as far from the base at which the program is loaded as
/// the end of the symbol's prologue is from the `__TEXT` address of the file: moving the base by `k` moves
/// the address by `k`. Without a base there is none.
pub proof fn law_symbols_move_with_the_base(s: &Symbols, b: u64, k: u64, name: Seq<char>, v: u64)
    requires
        s.symbol_addr(name) == Some(v),
    ensures
        ({
            let end = symbols::prologue_end(
                s.line_rows@,
                v,
                symbols::next_symbol(s.symbols@, v),
                false,
                None,
            );
            exists|a: u64| #[trigger]
                a.wrapping_sub(b) == end.wrapping_sub(s.text_vmaddr) && symbol_place(
                    Some(s),
                    Some(b),
                    name,
                ) == Ok::<usize, Seq<char>>(a as usize) && symbol_place(
                    Some(s),
                    Some(b.wrapping_add(k)),
                    name,
                ) == Ok::<usize, Seq<char>>(a.wrapping_add(k) as usize)
        }),
        symbol_place(Some(s), None, name) is Err,
{
    let end = symbols::prologue_end(s.line_rows@, v, symbols::next_symbol(s.symbols@, v), false, None);
    let a = b.wrapping_add(end.wrapping_sub(s.text_vmaddr));
    assert(a.wrapping_sub(b) == end.wrapping_sub(s.text_vmaddr));
}

/// The address found for a line is as far from the base at which the program is loaded as the address of
/// the line is from the `__TEXT` address of the file.
pub proof fn law_lines_move_with_the_base(
    s: &Symbols,
    b: u64,
    k: u64,
    file: Seq<char>,
    line: u32,
    label: Seq<char>,
    v: u64,
)
    requires
        s.spec_line(file, line) == Some(v),
    ensures
        exists|a: u64| #[trigger]
            a.wrapping_sub(b) == v.wrapping_sub(s.text_vmaddr) && line_addr(
                Some(s),
                Some(b),
                file,
                line,
                label,
            ) == Ok::<usize, Seq<char>>(a as usize) && line_addr(
                Some(s),
                Some(b.wrapping_add(k)),
                file,
                line,
                label,
            ) == Ok::<usize, Seq<char>>(a.wrapping_add(k) as usize),
        line_addr(Some(s), None, file, line, label) is Err,
{
    let a = b.wrapping_add(v.wrapping_sub(s.text_vmaddr));
    assert(a.wrapping_sub(b) == v.wrapping_sub(s.text_vmaddr));
}

/// The place of the current thread is that of the address of the file that is as far from `__TEXT` as the
/// program counter is from the base.
pub proof fn law_place_is_that_of_the_program_counter(
    d: Dbg,
    t: Rest,
    s: &Symbols,
    b: u64,
    regs: Registers,
    v: u64,
)
    requires
        d.current < d.threads.len(),
        t.len() > 0 && t[0] == Answer::<Seq<u8>, Seq<u32>, Seq<char>, DebugSeq>::Registers(regs),
        v.wrapping_sub(s.text_vmaddr) == (match regs {
            Registers::X86(g) => g.__rip,
            Registers::Arm(g) => g.__pc,
        }).wrapping_sub(b),
    ensures
        line_read(d, t, Some(b), Some(s)) == (
            Ok::<Option<(Seq<char>, u32)>, StopSeq>(s.spec_location(v)),
            t.skip(1),
        ),
        line_read(d, Seq::empty(), Some(b), Some(s)).0 == Err::<Option<(Seq<char>, u32)>, StopSeq>(
            Halt::Ask(Request::GetRegisters { port: d.threads[d.current as int].port }),
        ),
        line_read(d, t, None, Some(s)) == (Ok::<Option<(Seq<char>, u32)>, StopSeq>(None), t),
        line_read(d, t, Some(b), None) == (Ok::<Option<(Seq<char>, u32)>, StopSeq>(None), t),
{
    let pc = regs.spec_pc();
    assert(pc.wrapping_sub(b.wrapping_sub(s.text_vmaddr)) == v);
}

/// An address is read back from its hexadecimal and from its decimal form, and behind `base+` it is the
/// distance from the base.
pub proof fn law_addresses_read_back(a: usize, b: u64)
    ensures
        addr_named("0x"@ + numerals::numeral(a as nat, 16), Some(b)) == Some(a),
        addr_named(numerals::numeral(a as nat, 10), None) == Some(a),
        addr_named("base+0x"@ + numerals::numeral(a as nat, 16), Some(b)) == Some(
            (b as usize).wrapping_add(a),
        ),
        addr_named("base+"@ + numerals::numeral(a as nat, 10), Some(b)) == Some((b as usize).wrapping_add(a)),
        addr_named("base+0x"@ + numerals::numeral(a as nat, 16), None) is None,
{
    reveal_strlit("0x");
    reveal_strlit("base+");
    reveal_strlit("base+0x");
    let h = numerals::numeral(a as nat, 16);
    let n = numerals::numeral(a as nat, 10);
    numerals::law_numeral_reads_back(a as nat, 16);
    numerals::law_numeral_reads_back(a as nat, 10);
    numerals::lemma_numeral_digits(a as nat, 16);
    numerals::lemma_numeral_digits(a as nat, 10);
    lemma_after_prefix("0x"@, h);
    lemma_after_prefix("base+"@, "0x"@ + h);
    lemma_after_prefix("base+"@, n);
    assert("base+0x"@ + h =~= "base+"@ + ("0x"@ + h));
    assert(("0x"@ + h)[0] == '0');
    assert("base+"@[0] == 'b');
    assert(!"base+"@.is_prefix_of("0x"@ + h));
    assert(!"base+"@.is_prefix_of(n));
    assert("0x"@[1] == 'x');
    assert(!"0x"@.is_prefix_of(n));
}

/// What stands behind a prefix is found again.
proof fn lemma_after_prefix(p: Seq<char>, s: Seq<char>)
    ensures
        text::after_prefix(p + s, p) == Some(s),
{
    assert((p + s).skip(p.len() as int) =~= s);
    assert(p =~= (p + s).take(p.len() as int));
}

} // verus!
