//! Disassembly by the `capstone` crate, and where an instruction can lead.
use crate::arch::Arch;
use crate::numerals;
use crate::numerals::{push_addr, push_padded_right, read_number};
use crate::text;
use crate::text::{chars_of, chars_start_with, owned, str_eq, strip_prefix, trim_chars};
use capstone::arch::BuildsCapstone;
use capstone::Capstone;
use vstd::prelude::*;

verus! {

/// An instruction, with its texts of type `T`.
#[derive(Debug)]
pub struct Insn<T> {
    pub address: u64,
    pub len: usize,
    pub mnemonic: Option<T>,
    pub op_str: Option<T>,
}

/// Why there is no disassembly, with the message of type `T`.
#[derive(Debug)]
pub enum DisasmError<T> {
    /// The disassembler could not be set up.
    Init(T),
    /// The instructions could not be decoded.
    Decode(T),
}

/// A text as a sequence of characters, if there is one.
pub open spec fn opt_chars(s: Option<String>) -> Option<Seq<char>> {
    match s {
        Some(t) => Some(t@),
        None => None,
    }
}

impl Insn<String> {
    /// The instruction with its texts as sequences of characters.
    pub open spec fn seq(self) -> Insn<Seq<char>> {
        Insn {
            address: self.address,
            len: self.len,
            mnemonic: opt_chars(self.mnemonic),
            op_str: opt_chars(self.op_str),
        }
    }
}

/// What a disassembly came to.
pub type Listing = Result<Seq<Insn<Seq<char>>>, DisasmError<Seq<char>>>;

/// What a disassembly came to, with its texts as sequences of characters.
pub open spec fn listing(r: Result<Vec<Insn<String>>, DisasmError<String>>) -> Listing {
    match r {
        Ok(v) => Ok(v@.map_values(|i: Insn<String>| i.seq())),
        Err(DisasmError::Init(m)) => Err(DisasmError::Init(m@)),
        Err(DisasmError::Decode(m)) => Err(DisasmError::Decode(m@)),
    }
}

/// The first `count` instructions that `code` holds at `pc` on x86_64.
pub uninterp spec fn x86_listing(code: Seq<u8>, pc: u64, count: usize) -> Listing;

/// The first `count` instructions that `code` holds at `pc` on aarch64.
pub uninterp spec fn arm_listing(code: Seq<u8>, pc: u64, count: usize) -> Listing;

/// The first `count` instructions that `code` holds at `pc`.
pub open spec fn listing_of(code: Seq<u8>, pc: u64, count: usize, host: Arch) -> Listing {
    match host {
        Arch::X86_64 => x86_listing(code, pc, count),
        Arch::Aarch64 => arm_listing(code, pc, count),
    }
}

/// `Capstone::disasm_count` for 64-bit x86, and of each instruction the `address`, the length of its
/// `bytes`, the `mnemonic` and the `op_str`.
#[verifier::external_body]
pub(crate) fn disasm_x86(code: &[u8], pc: u64, count: usize) -> (r: Result<
    Vec<Insn<String>>,
    DisasmError<String>,
>)
    ensures
        listing(r) == x86_listing(code@, pc, count),
{
    let mode = capstone::arch::x86::ArchMode::Mode64;
    let cs = Capstone::new().x86().mode(mode).build().map_err(|e| DisasmError::Init(e.to_string()))?;
    let insns = cs.disasm_count(code, pc, count).map_err(|e| DisasmError::Decode(e.to_string()))?;
    Ok(insns.iter().map(|i| Insn {
        address: i.address(),
        len: i.bytes().len(),
        mnemonic: i.mnemonic().map(String::from),
        op_str: i.op_str().map(String::from),
    }).collect())
}

/// `Capstone::disasm_count` for 64-bit ARM, and of each instruction the `address`, the length of its
/// `bytes`, the `mnemonic` and the `op_str`.
#[verifier::external_body]
pub(crate) fn disasm_arm(code: &[u8], pc: u64, count: usize) -> (r: Result<
    Vec<Insn<String>>,
    DisasmError<String>,
>)
    ensures
        listing(r) == arm_listing(code@, pc, count),
{
    let mode = capstone::arch::arm64::ArchMode::Arm;
    let cs = Capstone::new().arm64().mode(mode).build().map_err(|e| DisasmError::Init(e.to_string()))?;
    let insns = cs.disasm_count(code, pc, count).map_err(|e| DisasmError::Decode(e.to_string()))?;
    Ok(insns.iter().map(|i| Insn {
        address: i.address(),
        len: i.bytes().len(),
        mnemonic: i.mnemonic().map(String::from),
        op_str: i.op_str().map(String::from),
    }).collect())
}

/// The first `count` instructions that `code` holds at `pc`.
pub fn disassemble(code: &[u8], pc: u64, count: usize, host: Arch) -> (r: Result<
    Vec<Insn<String>>,
    DisasmError<String>,
>)
    ensures
        listing(r) == listing_of(code@, pc, count, host),
{
    match host {
        Arch::X86_64 => disasm_x86(code, pc, count),
        Arch::Aarch64 => disasm_arm(code, pc, count),
    }
}

/// A text, or another where there is none.
pub open spec fn or_else(s: Option<Seq<char>>, other: Seq<char>) -> Seq<char> {
    match s {
        Some(t) => t,
        None => other,
    }
}

/// The line of an instruction; the one at `pc` is marked.
pub open spec fn insn_line(i: Insn<Seq<char>>, pc: u64) -> Seq<char> {
    (if i.address == pc {
        "=> "@
    } else {
        "   "@
    }) + numerals::addr_text(i.address as nat) + ": "@ + numerals::pad_right(
        or_else(i.mnemonic, "?"@),
        8,
        ' ',
    ) + " "@ + or_else(i.op_str, ""@) + "\n"@
}

/// The lines of instructions.
pub open spec fn insn_lines(s: Seq<Insn<Seq<char>>>, pc: u64) -> Seq<char>
    decreases s.len(),
{
    if s.len() == 0 {
        Seq::empty()
    } else {
        insn_lines(s.drop_last(), pc) + insn_line(s.last(), pc)
    }
}

/// The lines of instructions.
pub fn print_insns(insns: &[Insn<String>], pc: u64) -> (r: String)
    ensures
        r@ == insn_lines(insns@.map_values(|i: Insn<String>| i.seq()), pc),
{
    let ghost all = insns@.map_values(|i: Insn<String>| i.seq());
    let mut out = String::new();
    let mut k: usize = 0;
    assert(all.take(0) =~= Seq::empty());
    assert(out@ =~= Seq::empty());
    while k < insns.len()
        invariant
            k <= insns@.len(),
            all == insns@.map_values(|i: Insn<String>| i.seq()),
            out@ == insn_lines(all.take(k as int), pc),
        decreases insns.len() - k,
    {
        let ghost before = out@;
        let ghost t = all.take(k + 1);
        assert(t.drop_last() =~= all.take(k as int));
        assert(t.last() == insns@[k as int].seq());
        if insns[k].address == pc {
            out.append("=> ");
        } else {
            out.append("   ");
        }
        push_addr(&mut out, insns[k].address);
        out.append(": ");
        match &insns[k].mnemonic {
            Some(m) => push_padded_right(&mut out, m.as_str(), 8, ' '),
            None => push_padded_right(&mut out, "?", 8, ' '),
        }
        out.append(" ");
        match &insns[k].op_str {
            Some(o) => out.append(o.as_str()),
            None => out.append(""),
        }
        out.append("\n");
        assert(out@ =~= before + insn_line(insns@[k as int].seq(), pc));
        k = k + 1;
    }
    assert(all.take(k as int) =~= all);
    out
}

/// The lines of the first `count` instructions, or the message why there are none.
pub open spec fn printed(l: Listing, pc: u64) -> Result<Seq<char>, Seq<char>> {
    match l {
        Ok(s) => Ok(insn_lines(s, pc)),
        Err(DisasmError::Init(m)) => Err("failed to initialize capstone: "@ + m),
        Err(DisasmError::Decode(m)) => Err("disasm error: "@ + m),
    }
}

/// The lines of a disassembly, or the message why there is none.
pub fn print_listing(l: Result<Vec<Insn<String>>, DisasmError<String>>, pc: u64) -> (r: Result<
    String,
    String,
>)
    ensures
        match r {
            Ok(s) => printed(listing(l), pc) == Ok::<Seq<char>, Seq<char>>(s@),
            Err(m) => printed(listing(l), pc) == Err::<Seq<char>, Seq<char>>(m@),
        },
{
    match l {
        Ok(v) => Ok(print_insns(v.as_slice(), pc)),
        Err(DisasmError::Init(m)) => {
            let mut e = owned("failed to initialize capstone: ");
            e.append(m.as_str());
            Err(e)
        },
        Err(DisasmError::Decode(m)) => {
            let mut e = owned("disasm error: ");
            e.append(m.as_str());
            Err(e)
        },
    }
}

/// The lines of the first `count` instructions that `code` holds at `pc`, or the message why there are
/// none.
pub fn print(code: &[u8], pc: u64, count: usize, host: Arch) -> (r: Result<String, String>)
    ensures
        match r {
            Ok(s) => printed(listing_of(code@, pc, count, host), pc) == Ok::<Seq<char>, Seq<char>>(s@),
            Err(m) => printed(listing_of(code@, pc, count, host), pc) == Err::<Seq<char>, Seq<char>>(
                m@,
            ),
        },
{
    print_listing(disassemble(code, pc, count, host), pc)
}

/// Whether an instruction can jump.
pub open spec fn is_branch(mnemonic: Seq<char>) -> bool {
    mnemonic == "call"@ || "j"@.is_prefix_of(mnemonic) || "loop"@.is_prefix_of(mnemonic)
}

/// Whether an instruction always jumps.
pub open spec fn is_unconditional(mnemonic: Seq<char>) -> bool {
    mnemonic == "jmp"@ || mnemonic == "call"@
}

/// The address that an operand names directly: hexadecimal behind `0x`, else decimal.
pub open spec fn direct_target(op: Seq<char>) -> Option<usize> {
    let hex = match text::after_prefix(op, "0x"@) {
        Some(h) => numerals::parse_number(h, 16, usize::MAX as nat),
        None => None,
    };
    match hex {
        Some(v) => Some(v as usize),
        None => match numerals::parse_number(op, 10, usize::MAX as nat) {
            Some(v) => Some(v as usize),
            None => None,
        },
    }
}

/// `a` and `b` in rising order, once if they are equal.
pub open spec fn both(a: usize, b: usize) -> Seq<usize> {
    if a < b {
        seq![a, b]
    } else if b < a {
        seq![b, a]
    } else {
        seq![a]
    }
}

/// The addresses at which the program counter can be after the first instruction of a listing: of a
/// direct branch its target, and the next instruction unless the branch is always taken. Where the
/// target is not known the next instruction stands for it; where there is no instruction, the next byte.
pub open spec fn targets(l: Listing, pc: u64) -> Seq<usize> {
    match l {
        Ok(s) => if s.len() > 0 {
            let i = s[0];
            let next = (pc as usize).wrapping_add(if i.len < 1 {
                1
            } else {
                i.len
            });
            let m = or_else(i.mnemonic, ""@);
            let target = direct_target(text::trim(or_else(i.op_str, ""@)));
            if is_branch(m) && target is Some {
                if is_unconditional(m) {
                    seq![target->0]
                } else {
                    both(target->0, next)
                }
            } else {
                seq![next]
            }
        } else {
            seq![(pc as usize).wrapping_add(1)]
        },
        Err(_) => seq![(pc as usize).wrapping_add(1)],
    }
}

/// The address that an operand names directly.
fn read_target(op: &[char]) -> (r: Option<usize>)
    ensures
        r == direct_target(op@),
{
    if let Some(h) = strip_prefix(op, "0x") {
        if let Some(v) = read_number(h.as_slice(), 16, usize::MAX as u64) {
            return Some(v as usize);
        }
    }
    match read_number(op, 10, usize::MAX as u64) {
        Some(v) => Some(v as usize),
        None => None,
    }
}

/// The addresses at which the program counter can be after the first instruction of a listing.
pub fn targets_of(l: &Result<Vec<Insn<String>>, DisasmError<String>>, pc: u64) -> (r: Vec<usize>)
    ensures
        r@ == targets(listing(*l), pc),
{
    let byte: usize = (pc as usize).wrapping_add(1);
    let insns = match l {
        Ok(v) => v,
        Err(_) => {
            let r = vec![byte];
            assert(r@ =~= seq![byte]);
            return r;
        },
    };
    if insns.len() == 0 {
        let r = vec![byte];
        assert(r@ =~= seq![byte]);
        return r;
    }
    assert(listing(*l)->Ok_0[0] == insns@[0].seq());
    let i = &insns[0];
    let len: usize = if i.len < 1 {
        1
    } else {
        i.len
    };
    let next: usize = (pc as usize).wrapping_add(len);
    let m: &str = match &i.mnemonic {
        Some(s) => s.as_str(),
        None => "",
    };
    let op: &str = match &i.op_str {
        Some(s) => s.as_str(),
        None => "",
    };
    let mc = chars_of(m);
    let oc = chars_of(op);
    let trimmed = trim_chars(oc.as_slice());
    let branch: bool = str_eq(m, "call") || chars_start_with(mc.as_slice(), "j") || chars_start_with(
        mc.as_slice(),
        "loop",
    );
    if branch {
        if let Some(t) = read_target(trimmed.as_slice()) {
            let r: Vec<usize> = if str_eq(m, "jmp") || str_eq(m, "call") {
                vec![t]
            } else if t < next {
                vec![t, next]
            } else if next < t {
                vec![next, t]
            } else {
                vec![t]
            };
            assert(r@ =~= targets(listing(*l), pc));
            return r;
        }
    }
    let r = vec![next];
    assert(r@ =~= seq![next]);
    r
}

/// The addresses at which the program counter can be after the first instruction of `code` at `pc` on
/// x86_64.
pub fn step_targets(code: &[u8], pc: u64) -> (r: Vec<usize>)
    ensures
        r@ == targets(x86_listing(code@, pc, 1), pc),
{
    targets_of(&disasm_x86(code, pc, 1), pc)
}

/// There is always at least one such address and at most two, in rising order.
pub proof fn law_targets_rise(l: Listing, pc: u64)
    ensures
        1 <= targets(l, pc).len() <= 2,
        targets(l, pc).len() == 2 ==> targets(l, pc)[0] < targets(l, pc)[1],
{
}

} // verus!
