//! What holds of where an instruction leads, and of how instructions are shown.
use crate::arch::Arch;
use crate::disasm;
use crate::disasm::{DisasmError, Insn};
use crate::numerals;
use crate::text;
use vstd::prelude::*;

verus! {

/// A text that neither begins nor ends with a blank is as it is.
proof fn lemma_trimmed(s: Seq<char>)
    requires
        s.len() > 0,
        !text::is_whitespace(s[0]),
        !text::is_whitespace(s.last()),
    ensures
        text::trim(s) == s,
{
}

/// An operand that is a number names the address that it is, in hexadecimal or decimal.
pub proof fn law_operand_is_an_address(a: usize)
    ensures
        disasm::direct_target(text::trim("0x"@ + numerals::numeral(a as nat, 16))) == Some(a),
        disasm::direct_target(text::trim(numerals::numeral(a as nat, 10))) == Some(a),
{
    reveal_strlit("0x");
    let h = numerals::numeral(a as nat, 16);
    let n = numerals::numeral(a as nat, 10);
    numerals::lemma_numeral_digits(a as nat, 16);
    numerals::lemma_numeral_digits(a as nat, 10);
    let s = "0x"@ + h;
    assert(s[0] == '0');
    assert(s.last() == h.last());
    assert(h.last() == h[h.len() - 1]);
    assert(n.last() == n[n.len() - 1]);
    lemma_trimmed(s);
    lemma_trimmed(n);
    assert(s.skip(2) =~= h);
    assert("0x"@ =~= s.take(2));
    numerals::law_number_is_read(a as nat, 16, usize::MAX as nat);
    numerals::law_number_is_read(a as nat, 10, usize::MAX as nat);
    assert("0x"@[1] == 'x');
    assert(!"0x"@.is_prefix_of(n));
}

/// Where an instruction leads: `jmp` and `call` to the address that they name; any other jump or loop to
/// that or to the next instruction; and everything else to the next instruction.
pub proof fn law_where_an_instruction_leads(
    l: Seq<Insn<Seq<char>>>,
    pc: u64,
    m: Seq<char>,
    op: Seq<char>,
    a: usize,
)
    requires
        l.len() > 0,
        l[0].mnemonic == Some(m),
        l[0].op_str == Some(op),
        l[0].len >= 1,
    ensures
        ({
            let at = disasm::targets(Ok(l), pc);
            let next = (pc as usize).wrapping_add(l[0].len);
            let named = disasm::direct_target(text::trim(op));
            let jumps = m == "call"@ || "j"@.is_prefix_of(m) || "loop"@.is_prefix_of(m);
            &&& named == Some(a) && (m == "jmp"@ || m == "call"@) ==> at == seq![a]
            &&& named == Some(a) && jumps && m != "jmp"@ && m != "call"@ ==> (at.contains(a) && at.contains(
                next,
            ) && forall|i: int| 0 <= i < at.len() ==> #[trigger] at[i] == a || at[i] == next)
            &&& named is None || !jumps ==> at == seq![next]
        }),
        disasm::targets(Ok(Seq::empty()), pc) == seq![(pc as usize).wrapping_add(1)],
{
    reveal_strlit("jmp");
    reveal_strlit("j");
    assert("j"@.is_prefix_of("jmp"@));
    let next = (pc as usize).wrapping_add(l[0].len);
    let at = disasm::targets(Ok(l), pc);
    assert(disasm::both(a, next).contains(a) && disasm::both(a, next).contains(next)) by {
        let b = disasm::both(a, next);
        if a < next {
            assert(b[0] == a && b[1] == next);
        } else if next < a {
            assert(b[0] == next && b[1] == a);
        } else {
            assert(b[0] == a);
        }
    }
}

/// An instruction that could not be decoded leads to the next byte.
pub proof fn law_undecoded_instruction(m: Seq<char>, pc: u64)
    ensures
        disasm::targets(Err(DisasmError::Init(m)), pc) == seq![(pc as usize).wrapping_add(1)],
        disasm::targets(Err(DisasmError::Decode(m)), pc) == seq![(pc as usize).wrapping_add(1)],
{
}

/// An instruction has a line with its address, its name and its operands; the one at the program counter,
/// and no other, is marked.
pub proof fn law_instruction_line(
    s: Seq<Insn<Seq<char>>>,
    i: Insn<Seq<char>>,
    pc: u64,
    m: Seq<char>,
    op: Seq<char>,
)
    requires
        i.mnemonic == Some(m),
        i.op_str == Some(op),
    ensures
        disasm::insn_lines(Seq::empty(), pc).len() == 0,
        disasm::insn_lines(s.push(i), pc) == disasm::insn_lines(s, pc) + ((if i.address == pc {
            "=> "@
        } else {
            "   "@
        }) + ("0x"@ + numerals::pad_left(numerals::numeral(i.address as nat, 16), 16, '0')) + ": "@
            + numerals::pad_right(m, 8, ' ') + " "@ + op + "\n"@),
{
    assert(s.push(i).drop_last() =~= s);
}

/// Code is decoded for the machine that it runs on.
pub proof fn law_listing_is_of_the_machine(code: Seq<u8>, pc: u64, count: usize)
    ensures
        disasm::listing_of(code, pc, count, Arch::X86_64) == disasm::x86_listing(code, pc, count),
        disasm::listing_of(code, pc, count, Arch::Aarch64) == disasm::arm_listing(code, pc, count),
{
}

/// A disassembly is shown instruction by instruction; where there is none, the message says whether the
/// disassembler could not be set up or the code not be decoded.
pub proof fn law_disassembly_is_shown(l: Seq<Insn<Seq<char>>>, m: Seq<char>, pc: u64)
    ensures
        disasm::printed(Ok(l), pc) == Ok::<Seq<char>, Seq<char>>(disasm::insn_lines(l, pc)),
        disasm::printed(Err(DisasmError::Init(m)), pc) == Err::<Seq<char>, Seq<char>>(
            "failed to initialize capstone: "@ + m,
        ),
        disasm::printed(Err(DisasmError::Decode(m)), pc) == Err::<Seq<char>, Seq<char>>(
            "disasm error: "@ + m,
        ),
{
}

} // verus!
