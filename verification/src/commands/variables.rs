//! The variables of the program: where they are and what they hold.
use crate::bytes;
use crate::bytes::le_u64;
use crate::debug_info::{FrameBaseDef, VarLocation, Variable};
use crate::debugger;
use crate::debugger::{Dbg, Debugger};
use crate::numerals;
use crate::numerals::{push_hex, push_signed};
use crate::register::Registers;
use crate::symbols::Symbols;
use crate::tape;
use crate::tape::{Got, Halt, Rest, Stop, StopSeq, Tape};
use crate::text::owned;
use vstd::prelude::*;

verus! {

/// The size of the frame that `stp x29, x30, [sp, #-N]!` makes room for: the field of seven bits is the
/// offset in units of eight, with a sign.
pub open spec fn frame_room(word: u32) -> u64 {
    let raw = (word >> 15u32) & 0x7f;
    let imm: int = if raw & 0x40 != 0 {
        raw - 128
    } else {
        raw as int
    };
    (-imm * 8) as u64
}

/// The size of the frame that the first instruction of a function makes room for; zero where it is no
/// such instruction.
pub open spec fn frame_size(code: Seq<u8>) -> u64 {
    if code.len() == 4 && code[0] == 0xfd && code[1] == 0x7b && code[3] == 0xa9 {
        frame_room(bytes::le(code) as u32)
    } else {
        0
    }
}

/// The frame base of the function in which a variable is. It is the frame pointer, or the canonical frame
/// address: on x86_64 two words above it, on aarch64 the size of the frame above it, by the first
/// instruction of the variable's scope.
pub open spec fn frame_base_read(d: Dbg, t: Rest, v: Variable, slide: u64) -> Got<u64> {
    match debugger::regs_of(d, t) {
        (Err(h), u) => (Err(h), u),
        (Ok(regs), u) => match v.frame_base {
            FrameBaseDef::Register => (Ok(regs.spec_bp()), u),
            FrameBaseDef::CallFrameCfa => match regs {
                Registers::X86(_) => (Ok(regs.spec_bp().wrapping_add(16)), u),
                Registers::Arm(_) => match v.scope {
                    None => (Ok(regs.spec_bp()), u),
                    Some((low, _)) => match debugger::mem_or_empty(
                        d,
                        u,
                        low.wrapping_add(slide) as usize,
                        4,
                    ) {
                        (Err(h), w) => (Err(h), w),
                        (Ok(code), w) => (Ok(regs.spec_bp().wrapping_add(frame_size(code))), w),
                    },
                },
            },
        },
    }
}

/// The address of a variable in the loaded program.
pub open spec fn place_read(d: Dbg, t: Rest, v: Variable, slide: u64) -> Got<u64> {
    match v.location {
        VarLocation::FrameOffset(off) => match frame_base_read(d, t, v, slide) {
            (Ok(fb), u) => (Ok(fb.wrapping_add(off as u64)), u),
            (Err(h), u) => (Err(h), u),
        },
        VarLocation::Addr(a) => (Ok(a.wrapping_add(slide)), t),
    }
}

/// The address and the size of the variable that the current thread sees by that name.
pub open spec fn variable_read(
    d: Dbg,
    t: Rest,
    base: Option<u64>,
    syms: Option<&Symbols>,
    name: Seq<char>,
) -> Got<(u64, u8)> {
    match (syms, base) {
        (None, _) => (Err(Halt::Fail("no debug info loaded"@)), t),
        (_, None) => (Err(Halt::Fail("image base unknown"@)), t),
        (Some(s), Some(b)) => {
            let slide = s.spec_slide(b);
            match debugger::pc_of(d, t) {
                (Err(h), u) => (Err(h), u),
                (Ok(pc), u) => match s.spec_variable(name, pc.wrapping_sub(slide)) {
                    None => (Err(Halt::Fail("variable not found: "@ + name)), u),
                    Some(v) => match place_read(d, u, v, slide) {
                        (Ok(a), w) => (Ok((a, v.byte_size)), w),
                        (Err(h), w) => (Err(h), w),
                    },
                },
            }
        },
    }
}

/// The size that is read and written of a variable: one to eight bytes.
pub open spec fn held_size(n: int) -> int {
    if n < 1 {
        1
    } else if n > 8 {
        8
    } else {
        n
    }
}

/// What a variable holds, as far as it can be read.
pub open spec fn value_read(d: Dbg, t: Rest, v: Variable, slide: u64) -> Got<Option<u64>> {
    match place_read(d, t, v, slide) {
        (Err(Halt::Ask(q)), u) => (Err(Halt::Ask(q)), u),
        (Err(_), u) => (Ok(None), u),
        (Ok(a), u) => {
            let size = held_size(v.byte_size as int);
            match debugger::mem_of(d, u, a as usize, size as usize) {
                (Err(Halt::Ask(q)), w) => (Err(Halt::Ask(q)), w),
                (Err(_), w) => (Ok(None), w),
                (Ok(b), w) => (
                    Ok(
                        if b.len() >= size {
                            Some(bytes::le(b.take(size)) as u64)
                        } else {
                            None
                        },
                    ),
                    w,
                ),
            }
        },
    }
}

/// The line of a variable: its value in decimal and in hexadecimal.
pub open spec fn variable_line(name: Seq<char>, value: Option<u64>) -> Seq<char> {
    "  "@ + name + (match value {
        Some(v) => " = "@ + numerals::signed_dec((v as i64) as int) + "  ("@ + numerals::hex(v as nat)
            + ")\n"@,
        None => " = <unavailable>\n"@,
    })
}

/// The lines of the variables from `i` on, behind `done`.
pub open spec fn variable_lines(
    d: Dbg,
    t: Rest,
    vs: Seq<Variable>,
    slide: u64,
    done: Seq<char>,
    i: nat,
) -> Got<Seq<char>>
    decreases vs.len() - i,
{
    if i >= vs.len() {
        (Ok(done), t)
    } else {
        match value_read(d, t, vs[i as int], slide) {
            (Err(h), u) => (Err(h), u),
            (Ok(v), u) => variable_lines(
                d,
                u,
                vs,
                slide,
                done + variable_line(vs[i as int].name@, v),
                i + 1,
            ),
        }
    }
}

/// What is shown of variables.
pub open spec fn variables_shown(d: Dbg, t: Rest, vs: Seq<Variable>, slide: u64) -> Got<Seq<char>> {
    if vs.len() == 0 {
        (Ok("  (none)\n"@), t)
    } else {
        variable_lines(d, t, vs, slide, Seq::empty(), 0)
    }
}

/// The size of the frame that the first instruction of a function makes room for.
fn size_of_frame(code: &Vec<u8>) -> (r: u64)
    ensures
        r == frame_size(code@),
{
    if code.len() == 4 && code[0] == 0xfd && code[1] == 0x7b && code[3] == 0xa9 {
        let word: u32 = le_u64(code.as_slice()) as u32;
        let raw: u32 = (word >> 15u32) & 0x7f;
        assert((word >> 15u32) & 0x7f <= 0x7f) by (bit_vector);
        let imm: i64 = if raw & 0x40 != 0 {
            raw as i64 - 128
        } else {
            raw as i64
        };
        (-imm * 8) as u64
    } else {
        0
    }
}

/// The frame base of the function in which a variable is.
pub fn compute_frame_base(io: &mut Tape, dbg: &Debugger, var: &Variable, slide: u64) -> (r: Result<u64, Stop>)
    ensures
        (tape::step(r), final(io)@) == frame_base_read(dbg.state(), old(io)@, *var, slide),
{
    let regs = dbg.registers(io)?;
    let bp: u64 = regs.bp();
    match var.frame_base {
        FrameBaseDef::Register => Ok(bp),
        FrameBaseDef::CallFrameCfa => match regs {
            Registers::X86(_) => Ok(bp.wrapping_add(16)),
            Registers::Arm(_) => match var.scope {
                None => Ok(bp),
                Some((low, _)) => {
                    let code = dbg.read_or_empty(io, low.wrapping_add(slide) as usize, 4)?;
                    Ok(bp.wrapping_add(size_of_frame(&code)))
                },
            },
        },
    }
}

/// The address of a variable in the loaded program.
fn variable_address(io: &mut Tape, dbg: &Debugger, var: &Variable, slide: u64) -> (r: Result<u64, Stop>)
    ensures
        (tape::step(r), final(io)@) == place_read(dbg.state(), old(io)@, *var, slide),
{
    match var.location {
        VarLocation::FrameOffset(off) => {
            let fb: u64 = compute_frame_base(io, dbg, var, slide)?;
            Ok(fb.wrapping_add(off as u64))
        },
        VarLocation::Addr(a) => Ok(a.wrapping_add(slide)),
    }
}

/// The address and the size of the variable that the current thread sees by that name.
pub fn resolve_variable(
    io: &mut Tape,
    dbg: &Debugger,
    base: Option<u64>,
    syms: Option<&Symbols>,
    name: &str,
) -> (r: Result<(u64, u8), Stop>)
    ensures
        (tape::step(r), final(io)@) == variable_read(dbg.state(), old(io)@, base, syms, name@),
{
    let s = match syms {
        Some(s) => s,
        None => return Err(Halt::Fail(owned("no debug info loaded"))),
    };
    let b: u64 = match base {
        Some(b) => b,
        None => return Err(Halt::Fail(owned("image base unknown"))),
    };
    let slide: u64 = s.slide(b);
    let pc: u64 = dbg.pc(io)?;
    match s.find_variable(name, pc.wrapping_sub(slide)) {
        None => {
            let mut m = owned("variable not found: ");
            m.append(name);
            Err(Halt::Fail(m))
        },
        Some(v) => {
            let a: u64 = variable_address(io, dbg, v, slide)?;
            Ok((a, v.byte_size))
        },
    }
}

/// The size that is read and written of a variable.
pub fn clamp_size(n: usize) -> (r: usize)
    ensures
        r == held_size(n as int),
{
    if n < 1 {
        1
    } else if n > 8 {
        8
    } else {
        n
    }
}

/// What a variable holds, as far as it can be read.
pub fn read_var_value(io: &mut Tape, dbg: &Debugger, var: &Variable, slide: u64) -> (r: Result<
    Option<u64>,
    Stop,
>)
    ensures
        (tape::step(r), final(io)@) == value_read(dbg.state(), old(io)@, *var, slide),
{
    let a: u64 = match variable_address(io, dbg, var, slide) {
        Ok(a) => a,
        Err(Halt::Ask(q)) => return Err(Halt::Ask(q)),
        Err(_) => return Ok(None),
    };
    let size: usize = clamp_size(var.byte_size as usize);
    match dbg.read_memory(io, a as usize, size) {
        Ok(b) => {
            if b.len() < size {
                return Ok(None);
            }
            let held = vstd::slice::slice_subrange(b.as_slice(), 0, size);
            assert(held@ =~= b@.take(size as int));
            Ok(Some(le_u64(held)))
        },
        Err(Halt::Ask(q)) => Err(Halt::Ask(q)),
        Err(_) => Ok(None),
    }
}

/// Appends the line of a variable.
fn push_variable(out: &mut String, name: &str, value: Option<u64>)
    ensures
        final(out)@ == old(out)@ + variable_line(name@, value),
{
    let ghost before = out@;
    out.append("  ");
    out.append(name);
    match value {
        Some(v) => {
            out.append(" = ");
            push_signed(out, v as i64);
            out.append("  (");
            push_hex(out, v);
            out.append(")\n");
        },
        None => out.append(" = <unavailable>\n"),
    }
    assert(out@ =~= before + variable_line(name@, value));
}

/// The outcome of an operation that gives text.
pub open spec fn step_text(r: Result<String, Stop>) -> Result<Seq<char>, StopSeq> {
    match r {
        Ok(s) => Ok(s@),
        Err(h) => Err(h.seq()),
    }
}

/// What is shown of variables.
pub fn print_vars(io: &mut Tape, dbg: &Debugger, vars: &Vec<&Variable>, slide: u64) -> (r: Result<String, Stop>)
    ensures
        (step_text(r), final(io)@) == variables_shown(
            dbg.state(),
            old(io)@,
            vars@.map_values(|v: &Variable| *v),
            slide,
        ),
{
    let ghost vs = vars@.map_values(|v: &Variable| *v);
    if vars.len() == 0 {
        return Ok(owned("  (none)\n"));
    }
    let mut out = String::new();
    let mut i: usize = 0;
    assert(out@ =~= Seq::empty());
    while i < vars.len()
        invariant
            i <= vars@.len(),
            vs == vars@.map_values(|v: &Variable| *v),
            variable_lines(dbg.state(), old(io)@, vs, slide, Seq::empty(), 0) == variable_lines(
                dbg.state(),
                io@,
                vs,
                slide,
                out@,
                i as nat,
            ),
            vs.len() > 0,
        decreases vars.len() - i,
    {
        let v = vars[i];
        assert(*v == vs[i as int]);
        let value = read_var_value(io, dbg, v, slide)?;
        push_variable(&mut out, v.name.as_str(), value);
        i = i + 1;
    }
    Ok(out)
}

/// The instruction `stp x29, x30, [sp, #-n]!`.
pub open spec fn save_frame(n: u32) -> u32 {
    0xa980_7bfd | (((128 - n / 8) as u32) << 15u32)
}

/// The size of the frame is what the instruction that saves it subtracts from the stack pointer.
pub proof fn law_frame_room(n: u32)
    requires
        0 < n <= 512,
        n % 8 == 0,
    ensures
        frame_room(save_frame(n)) == n,
{
    let k: u32 = n / 8;
    let f: u32 = (128 - k) as u32;
    assert(((0xa980_7bfdu32 | (f << 15u32)) >> 15u32) & 0x7f == f && f & 0x40 != 0) by (bit_vector)
        requires
            64 <= f < 128,
    ;
}

} // verus!
