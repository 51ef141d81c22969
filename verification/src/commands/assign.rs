//! Setting registers, variables and memory.
use crate::arch::Arch;
use crate::bytes;
use crate::bytes::u64_to_le;
use crate::commands::location;
use crate::commands::location::{is_identifier, word_from};
use crate::commands::show;
use crate::commands::show::{complain, line_of, show, Report, ReportSeq};
use crate::commands::variables;
use crate::commands::variables::{clamp_size, resolve_variable};
use crate::debugger;
use crate::debugger::{Dbg, Debugger};
use crate::mach;
use crate::numerals;
use crate::numerals::{push_addr, push_signed};
use crate::register::x86_64;
use crate::register::x86_64::FloatState64;
use crate::register::{Floats, Registers};
use crate::symbols::Symbols;
use crate::tape::{Got, Halt, Rest, Stop, StopSeq, Tape};
use crate::text;
use crate::text::{chars_between, chars_of, rest_of, split_at_first, string_of, trim_chars};
use vstd::prelude::*;

verus! {

/// What `set` is asked for: a target and, behind an equals sign, an expression. Nothing where one of
/// them is missing.
pub open spec fn assignment(line: Seq<char>) -> Option<(Seq<char>, Seq<char>)> {
    match text::split_first(text::after_word(line), '=') {
        Some((a, b)) => if text::trim(a).len() > 0 && text::trim(b).len() > 0 {
            Some((text::trim(a), text::trim(b)))
        } else {
            None
        },
        None => None,
    }
}

/// What `set` is asked for.
pub fn parse_set(line: &str) -> (r: Option<(String, String)>)
    ensures
        match r {
            Some(p) => assignment(line@) == Some((p.0@, p.1@)),
            None => assignment(line@) is None,
        },
{
    let rest = rest_of(line);
    match split_at_first(rest.as_slice(), '=') {
        Some((a, b)) => {
            let target = trim_chars(a.as_slice());
            let value = trim_chars(b.as_slice());
            if target.len() > 0 && value.len() > 0 {
                Some((string_of(target.as_slice()), string_of(value.as_slice())))
            } else {
                None
            }
        },
        None => None,
    }
}

/// The register that a target may name: a word behind a dollar sign, or a name.
pub open spec fn register_in(target: Seq<char>) -> Option<Seq<char>> {
    if target.len() > 1 && target[0] == '$' && location::is_word(target.skip(1)) {
        Some(target.skip(1))
    } else if location::is_name(target) {
        Some(target)
    } else {
        None
    }
}

/// The register that a target may name.
fn register_of(target: &str) -> (r: Option<String>)
    ensures
        match r {
            Some(s) => register_in(target@) == Some(s@),
            None => register_in(target@) is None,
        },
{
    let c = chars_of(target);
    let n: usize = c.len();
    if n > 1 && c[0] == '$' && word_from(c.as_slice(), 1) {
        let name = chars_between(c.as_slice(), 1, n);
        assert(name@ =~= target@.skip(1));
        return Some(string_of(name.as_slice()));
    }
    if is_identifier(target) {
        Some(string_of(c.as_slice()))
    } else {
        None
    }
}

/// The line that a register was set.
pub open spec fn set_line(reg: Seq<char>, value: u64) -> Seq<char> {
    "set $"@ + reg + " = "@ + numerals::addr_text(value as nat) + "\n"@
}

/// What is reported of a write: that it failed, or `done`.
pub open spec fn write_report(g: Got<()>, failed: Seq<char>, done: Seq<char>) -> Got<Option<ReportSeq>> {
    match g {
        (Err(Halt::Ask(q)), u) => (Err(Halt::Ask(q)), u),
        (Err(Halt::Fail(m)), u) => (Ok(Some(show::complains(show::line2(failed, m)))), u),
        (Ok(_), u) => (Ok(Some(show::shows(done))), u),
    }
}

/// Writes the general-purpose registers.
pub open spec fn registers_written(d: Dbg, t: Rest, now: Registers, reg: Seq<char>, value: u64) -> Got<
    Option<ReportSeq>,
> {
    write_report(
        match debugger::port_of(d) {
            Ok(p) => mach::regs_write(t, p, now),
            Err(h) => (Err(h), t),
        },
        "failed to set registers: "@,
        set_line(reg, value),
    )
}

/// Writes the floating-point registers.
pub open spec fn floats_written(d: Dbg, t: Rest, now: FloatState64, reg: Seq<char>, value: u64) -> Got<
    Option<ReportSeq>,
> {
    write_report(
        match debugger::port_of(d) {
            Ok(p) => mach::floats_write(t, p, Floats::X86(now)),
            Err(h) => (Err(h), t),
        },
        "failed to set float registers: "@,
        set_line(reg, value),
    )
}

/// The floating-point registers of the current thread.
pub open spec fn floats_of(d: Dbg, t: Rest) -> Got<Floats> {
    match debugger::port_of(d) {
        Ok(p) => mach::floats_read(t, p),
        Err(h) => (Err(h), t),
    }
}

/// What comes of setting a general-purpose register: `g`. Nothing where there is none of that name.
pub open spec fn register_set(d: Dbg, t: Rest, reg: Seq<char>, value: u64, g: Got<Option<ReportSeq>>) -> bool {
    match debugger::regs_of(d, t) {
        (Err(Halt::Ask(q)), u) => g == (Err::<Option<ReportSeq>, StopSeq>(Halt::Ask(q)), u),
        (Err(Halt::Fail(m)), u) => g == (
            Ok::<_, StopSeq>(Some(show::complains(show::line2("failed to read registers: "@, m)))),
            u,
        ),
        (Ok(regs), u) => if regs.named(reg) is Some {
            exists|now: Registers| #[trigger]
                now.is_set(regs, reg, value, true) && g == registers_written(d, u, now, reg, value)
        } else {
            g == (Ok::<Option<ReportSeq>, StopSeq>(None), u)
        },
    }
}

/// What comes of setting a floating-point register: `g`. Nothing where there is none of that name.
pub open spec fn float_set(d: Dbg, t: Rest, reg: Seq<char>, value: u64, g: Got<Option<ReportSeq>>) -> bool {
    match floats_of(d, t) {
        (Err(Halt::Ask(q)), u) => g == (Err::<Option<ReportSeq>, StopSeq>(Halt::Ask(q)), u),
        (Err(Halt::Fail(m)), u) => g == (
            Ok::<_, StopSeq>(
                Some(show::complains(show::line2("failed to read float registers: "@, m))),
            ),
            u,
        ),
        (Ok(Floats::X86(f)), u) => match x86_64::float_register_named(text::lowercase(reg)) {
            Some(x) => exists|now: FloatState64| #[trigger]
                now.is_set(f, x, value) && g == floats_written(d, u, now, reg, value),
            None => g == (Ok::<Option<ReportSeq>, StopSeq>(None), u),
        },
        (Ok(_), u) => g == (Ok::<Option<ReportSeq>, StopSeq>(None), u),
    }
}

/// What comes of setting the register that a target names: `g`. On x86_64 a name that is no
/// general-purpose register is looked for among the floating-point registers. Nothing where no register
/// is named.
pub open spec fn target_set(d: Dbg, t: Rest, target: Seq<char>, value: u64, g: Got<Option<ReportSeq>>) -> bool {
    match register_in(target) {
        None => g == (Ok::<Option<ReportSeq>, StopSeq>(None), t),
        Some(reg) => match debugger::regs_of(d, t) {
            (Ok(regs), u) => if regs.named(reg) is None && d.host is X86_64 {
                float_set(d, u, reg, value, g)
            } else {
                register_set(d, t, reg, value, g)
            },
            _ => register_set(d, t, reg, value, g),
        },
    }
}

/// The outcome of an attempt, with the report's texts as sequences of characters.
pub open spec fn step_try(r: Result<Option<Report>, Stop>) -> Result<Option<ReportSeq>, StopSeq> {
    match r {
        Ok(Some(p)) => Ok(Some(p.seq())),
        Ok(None) => Ok(None),
        Err(h) => Err(h.seq()),
    }
}

/// What is reported of a write.
fn report_write(w: Result<(), Stop>, failed: &str, done: String) -> (r: Result<Option<Report>, Stop>)
    ensures
        forall|u: Rest|
            (step_try(r), u) == #[trigger] write_report((crate::tape::step(w), u), failed@, done@),
{
    match w {
        Err(Halt::Ask(q)) => Err(Halt::Ask(q)),
        Err(Halt::Fail(m)) => Ok(Some(complain(line_of(failed, m.as_str())))),
        Ok(_) => Ok(Some(show(done))),
    }
}

/// The line that a register was set.
fn line_set(reg: &str, value: u64) -> (r: String)
    ensures
        r@ == set_line(reg@, value),
{
    let mut s = crate::text::owned("set $");
    s.append(reg);
    s.append(" = ");
    push_addr(&mut s, value);
    s.append("\n");
    assert(s@ =~= set_line(reg@, value));
    s
}

/// Sets a general-purpose register.
fn set_general(io: &mut Tape, dbg: &Debugger, reg: &str, value: u64) -> (r: Result<Option<Report>, Stop>)
    ensures
        register_set(dbg.state(), old(io)@, reg@, value, (step_try(r), final(io)@)),
{
    let mut regs = match dbg.registers(io) {
        Ok(regs) => regs,
        Err(Halt::Ask(q)) => return Err(Halt::Ask(q)),
        Err(Halt::Fail(m)) => {
            return Ok(Some(complain(line_of("failed to read registers: ", m.as_str()))));
        },
    };
    if regs.set(reg, value).is_none() {
        return Ok(None);
    }
    let done = dbg.set_registers(io, regs);
    report_write(done, "failed to set registers: ", line_set(reg, value))
}

/// Sets a floating-point register.
fn set_float(io: &mut Tape, dbg: &Debugger, reg: &str, value: u64) -> (r: Result<Option<Report>, Stop>)
    ensures
        float_set(dbg.state(), old(io)@, reg@, value, (step_try(r), final(io)@)),
{
    match dbg.float_registers(io) {
        Err(Halt::Ask(q)) => Err(Halt::Ask(q)),
        Err(Halt::Fail(m)) => Ok(
            Some(complain(line_of("failed to read float registers: ", m.as_str()))),
        ),
        Ok(Floats::Arm(_)) => Ok(None),
        Ok(Floats::X86(f)) => {
            let mut now = f;
            if now.set(reg, value).is_none() {
                return Ok(None);
            }
            let done = dbg.set_float_registers(io, Floats::X86(now));
            report_write(done, "failed to set float registers: ", line_set(reg, value))
        },
    }
}

/// Sets the register that a target names; nothing where it names none.
pub fn set_register(io: &mut Tape, dbg: &Debugger, target: &str, value: u64) -> (r: Result<
    Option<Report>,
    Stop,
>)
    ensures
        target_set(dbg.state(), old(io)@, target@, value, (step_try(r), final(io)@)),
{
    let reg = match register_of(target) {
        Some(reg) => reg,
        None => return Ok(None),
    };
    match set_general(io, dbg, reg.as_str(), value) {
        Ok(None) => {
            if dbg.host == Arch::X86_64 {
                set_float(io, dbg, reg.as_str(), value)
            } else {
                Ok(None)
            }
        },
        done => done,
    }
}

/// What a target stands for.
#[derive(Debug, Clone, Copy, PartialEq, Eq, Structural)]
pub enum Target {
    Register,
    Variable,
    /// The memory at the address that the target is worth, with that many bytes.
    Memory { size: usize },
}

/// What a target stands for: the register, where one of that name was found; else the variable, where it
/// is a name; else eight bytes of memory.
pub open spec fn target_kind(target: Seq<char>, register_found: bool) -> Target {
    if register_found {
        Target::Register
    } else if location::is_name(target) {
        Target::Variable
    } else {
        Target::Memory { size: 8 }
    }
}

/// What a target stands for.
pub fn next_target(target: &str, register_found: bool) -> (r: Target)
    ensures
        r == target_kind(target@, register_found),
{
    if register_found {
        Target::Register
    } else if is_identifier(target) {
        Target::Variable
    } else {
        Target::Memory { size: 8 }
    }
}

/// The line that memory was set: by the name of a variable, or by the address.
pub open spec fn stored_line(target: Seq<char>, addr: u64, value: u64) -> Seq<char> {
    (if location::is_name(target) {
        target
    } else {
        "["@ + numerals::addr_text(addr as nat) + "]"@
    }) + " = "@ + numerals::signed_dec((value as i64) as int) + "\n"@
}

/// Writes a value to memory: its low bytes, one to eight of them.
pub open spec fn value_written(d: Dbg, t: Rest, target: Seq<char>, addr: u64, size: int, value: u64) -> Got<
    Option<ReportSeq>,
> {
    write_report(
        mach::mem_write(
            t,
            addr as usize,
            bytes::le_bytes(value as nat, variables::held_size(size) as nat),
            d.host,
        ),
        "failed to write memory: "@,
        stored_line(target, addr, value),
    )
}

/// Writes a value to memory.
pub fn set_memory(
    io: &mut Tape,
    dbg: &Debugger,
    target: &str,
    addr: u64,
    size: usize,
    value: u64,
) -> (r: Result<Option<Report>, Stop>)
    ensures
        (step_try(r), final(io)@) == value_written(
            dbg.state(),
            old(io)@,
            target@,
            addr,
            size as int,
            value,
        ),
{
    let data = u64_to_le(value, clamp_size(size));
    let done = dbg.write_memory(io, addr as usize, data.as_slice());
    let mut s = String::new();
    assert(s@ =~= Seq::empty());
    if is_identifier(target) {
        s.append(target);
    } else {
        s.append("[");
        push_addr(&mut s, addr);
        s.append("]");
    }
    s.append(" = ");
    push_signed(&mut s, value as i64);
    s.append("\n");
    assert(s@ =~= stored_line(target@, addr, value));
    report_write(done, "failed to write memory: ", s)
}

/// Sets the variable that a target names.
pub open spec fn variable_set(
    d: Dbg,
    t: Rest,
    base: Option<u64>,
    syms: Option<&Symbols>,
    target: Seq<char>,
    value: u64,
) -> Got<Option<ReportSeq>> {
    match variables::variable_read(d, t, base, syms, target) {
        (Err(Halt::Ask(q)), u) => (Err(Halt::Ask(q)), u),
        (Err(Halt::Fail(m)), u) => (Ok(Some(show::complains(show::line2("set: "@, m)))), u),
        (Ok((addr, size)), u) => value_written(d, u, target, addr, size as int, value),
    }
}

/// Sets the variable that a target names.
pub fn set_variable(
    io: &mut Tape,
    dbg: &Debugger,
    base: Option<u64>,
    syms: Option<&Symbols>,
    target: &str,
    value: u64,
) -> (r: Result<Option<Report>, Stop>)
    ensures
        (step_try(r), final(io)@) == variable_set(dbg.state(), old(io)@, base, syms, target@, value),
{
    match resolve_variable(io, dbg, base, syms, target) {
        Ok((addr, size)) => set_memory(io, dbg, target, addr, size as usize, value),
        Err(Halt::Ask(q)) => Err(Halt::Ask(q)),
        Err(Halt::Fail(m)) => Ok(Some(complain(line_of("set: ", m.as_str())))),
    }
}

} // verus!
