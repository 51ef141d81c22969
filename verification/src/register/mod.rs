//! Registers: general-purpose, floating-point and debug registers of both architectures.
use crate::bytes;
use crate::bytes::le_u64;
use crate::numerals;
use crate::numerals::{dec_string, push_addr, push_hex_digits, push_padded_left};
use crate::text;
use vstd::prelude::*;

pub mod aarch64;
pub mod x86_64;

verus! {

/// One line of registers: of each two blanks, its label, a blank and its value.
pub open spec fn row(items: Seq<(Seq<char>, u64)>) -> Seq<char> {
    row_items(items) + "\n"@
}

/// The registers of one line.
pub open spec fn row_items(items: Seq<(Seq<char>, u64)>) -> Seq<char>
    decreases items.len(),
{
    if items.len() == 0 {
        Seq::empty()
    } else {
        row_items(items.drop_last()) + ("  "@ + items.last().0 + " "@ + numerals::addr_text(
            items.last().1 as nat,
        ))
    }
}

/// The labels of a line as sequences of characters.
pub open spec fn row_view(items: Seq<(&str, u64)>) -> Seq<(Seq<char>, u64)> {
    items.map_values(|p: (&str, u64)| (p.0@, p.1))
}

/// Appends one line of registers.
pub fn push_row(out: &mut String, items: &[(&str, u64)])
    ensures
        final(out)@ == old(out)@ + row(row_view(items@)),
{
    let ghost before = out@;
    let mut i: usize = 0;
    let ghost view = row_view(items@);
    assert(view.take(0) =~= Seq::empty());
    assert(out@ =~= before + row_items(view.take(0)));
    while i < items.len()
        invariant
            i <= items@.len(),
            view == row_view(items@),
            out@ == before + row_items(view.take(i as int)),
        decreases items.len() - i,
    {
        let ghost mid = out@;
        out.append("  ");
        out.append(items[i].0);
        out.append(" ");
        push_addr(out, items[i].1);
        i = i + 1;
        proof {
            let t = view.take(i as int);
            assert(t.drop_last() =~= view.take(i - 1));
            assert(out@ =~= before + row_items(t));
        }
    }
    assert(view.take(i as int) =~= view);
    out.append("\n");
    assert(out@ =~= before + row(view));
}

/// A vector register: its label and number, its high half and its low half; every second one ends the
/// line.
pub open spec fn vector_item(label: Seq<char>, n: int, reg: Seq<u8>) -> Seq<char> {
    label + numerals::pad_left(numerals::dec(n as nat), 2, '0') + ": "@ + numerals::pad_left(
        numerals::numeral(bytes::le(reg.subrange(8, 16)), 16),
        16,
        '0',
    ) + "_"@ + numerals::pad_left(numerals::numeral(bytes::le(reg.subrange(0, 8)), 16), 16, '0') + (if (
    n + 1) % 2 == 0 {
        "\n"@
    } else {
        Seq::empty()
    })
}

/// Appends a vector register.
pub fn push_vector_item(out: &mut String, label: &str, n: usize, reg: &[u8; 16])
    requires
        n < 1000,
    ensures
        final(out)@ == old(out)@ + vector_item(label@, n as int, reg@),
{
    let ghost before = out@;
    let all: &[u8] = reg.as_slice();
    let lo: u64 = le_u64(vstd::slice::slice_subrange(all, 0, 8));
    let hi: u64 = le_u64(vstd::slice::slice_subrange(all, 8, 16));
    out.append(label);
    let number = dec_string(n as u64);
    push_padded_left(out, number.as_str(), 2, '0');
    out.append(": ");
    push_hex_digits(out, hi, 16);
    out.append("_");
    push_hex_digits(out, lo, 16);
    if (n + 1) % 2 == 0 {
        out.append("\n");
    }
    assert(out@ =~= before + vector_item(label@, n as int, reg@));
}

/// What makes a watchpoint stop the program.
#[derive(Debug, Clone, Copy, PartialEq, Eq, Structural)]
pub enum WatchCondition {
    /// Execution of the instruction.
    Execute,
    /// A write.
    Write,
    /// A read or a write of an I/O address.
    IoRW,
    /// A read or a write of data.
    ReadWrite,
}

impl WatchCondition {
    /// The two bits of the condition in the x86_64 control register.
    pub open spec fn code(self) -> u64 {
        match self {
            WatchCondition::Execute => 0,
            WatchCondition::Write => 1,
            WatchCondition::IoRW => 2,
            WatchCondition::ReadWrite => 3,
        }
    }

    /// The two bits of the condition in the x86_64 control register.
    pub fn bits(self) -> (r: u64)
        ensures
            r == self.code(),
    {
        match self {
            WatchCondition::Execute => 0,
            WatchCondition::Write => 1,
            WatchCondition::IoRW => 2,
            WatchCondition::ReadWrite => 3,
        }
    }
}

/// How many bytes a watchpoint watches.
#[derive(Debug, Clone, Copy, PartialEq, Eq, Structural)]
pub enum WatchLen {
    Byte1,
    Word2,
    QWord8,
    Dword4,
}

impl WatchLen {
    /// The number of bytes.
    pub open spec fn width(self) -> usize {
        match self {
            WatchLen::Byte1 => 1,
            WatchLen::Word2 => 2,
            WatchLen::Dword4 => 4,
            WatchLen::QWord8 => 8,
        }
    }

    /// The two bits of the length in the x86_64 control register.
    pub open spec fn code(self) -> u64 {
        match self {
            WatchLen::Byte1 => 0,
            WatchLen::Word2 => 1,
            WatchLen::QWord8 => 2,
            WatchLen::Dword4 => 3,
        }
    }

    /// The two bits of the length in the x86_64 control register.
    pub fn bits(self) -> (r: u64)
        ensures
            r == self.code(),
    {
        match self {
            WatchLen::Byte1 => 0,
            WatchLen::Word2 => 1,
            WatchLen::QWord8 => 2,
            WatchLen::Dword4 => 3,
        }
    }

    /// The length of `n` bytes; one byte where no length has that many.
    pub fn from_bytes(n: usize) -> (r: Self)
        ensures
            r.width() == (if n == 2 || n == 4 || n == 8 {
                n
            } else {
                1
            }),
    {
        match n {
            2 => WatchLen::Word2,
            4 => WatchLen::Dword4,
            8 => WatchLen::QWord8,
            _ => WatchLen::Byte1,
        }
    }

    /// The number of bytes.
    pub fn as_bytes(self) -> (r: usize)
        ensures
            r == self.width(),
    {
        match self {
            WatchLen::Byte1 => 1,
            WatchLen::Word2 => 2,
            WatchLen::Dword4 => 4,
            WatchLen::QWord8 => 8,
        }
    }
}

/// No two lengths have the same number of bytes, so a length is found again from its number.
pub proof fn law_watch_len_round_trip(a: WatchLen, b: WatchLen)
    requires
        a.width() == b.width(),
    ensures
        a == b,
{
}

/// The general-purpose registers of a thread of either architecture.
#[derive(Clone, Copy, Debug)]
pub enum Registers {
    X86(x86_64::ThreadState64),
    Arm(aarch64::ThreadState64),
}

impl Registers {
    /// The program counter.
    pub open spec fn spec_pc(self) -> u64 {
        match self {
            Registers::X86(r) => r.__rip,
            Registers::Arm(r) => r.__pc,
        }
    }

    /// The stack pointer.
    pub open spec fn spec_sp(self) -> u64 {
        match self {
            Registers::X86(r) => r.__rsp,
            Registers::Arm(r) => r.__sp,
        }
    }

    /// The frame pointer.
    pub open spec fn spec_bp(self) -> u64 {
        match self {
            Registers::X86(r) => r.__rbp,
            Registers::Arm(r) => r.__fp,
        }
    }

    /// The registers with the program counter moved.
    pub open spec fn at(self, pc: u64) -> Registers {
        match self {
            Registers::X86(r) => Registers::X86(x86_64::ThreadState64 { __rip: pc, ..r }),
            Registers::Arm(r) => Registers::Arm(aarch64::ThreadState64 { __pc: pc, ..r }),
        }
    }

    /// The value of the register of that name, in small or capital letters.
    pub open spec fn named(self, name: Seq<char>) -> Option<u64> {
        match self {
            Registers::X86(r) => match x86_64::register_named(text::lowercase(name)) {
                Some(reg) => Some(r.value(reg)),
                None => None,
            },
            Registers::Arm(r) => match aarch64::register_named(text::lowercase(name)) {
                Some(reg) => Some(r.value(reg)),
                None => None,
            },
        }
    }

    /// Whether `self` is `before` with the register of that name set, and whether there is one.
    pub open spec fn is_set(self, before: Registers, name: Seq<char>, v: u64, found: bool) -> bool {
        match (before, self) {
            (Registers::X86(a), Registers::X86(b)) => match x86_64::register_named(
                text::lowercase(name),
            ) {
                Some(reg) => found && b == a.with(reg, v),
                None => !found && b == a,
            },
            (Registers::Arm(a), Registers::Arm(b)) => match aarch64::register_named(
                text::lowercase(name),
            ) {
                Some(reg) => found && b.is_set(a, reg, v),
                None => !found && b == a,
            },
            _ => false,
        }
    }

    /// The lines that show the registers.
    pub open spec fn shown(self) -> Seq<char> {
        match self {
            Registers::X86(r) => r.shown(),
            Registers::Arm(r) => r.shown(),
        }
    }

    /// The program counter.
    pub fn pc(&self) -> (r: u64)
        ensures
            r == self.spec_pc(),
    {
        match self {
            Registers::X86(r) => r.pc(),
            Registers::Arm(r) => r.pc(),
        }
    }

    /// Moves the program counter.
    pub fn set_pc(&mut self, pc: u64)
        ensures
            *final(self) == old(self).at(pc),
    {
        match *self {
            Registers::X86(r) => {
                let mut t = r;
                t.set_pc(pc);
                *self = Registers::X86(t);
            },
            Registers::Arm(r) => {
                let mut t = r;
                t.set_pc(pc);
                *self = Registers::Arm(t);
            },
        }
    }

    /// The stack pointer.
    pub fn sp(&self) -> (r: u64)
        ensures
            r == self.spec_sp(),
    {
        match self {
            Registers::X86(r) => r.sp(),
            Registers::Arm(r) => r.sp(),
        }
    }

    /// The frame pointer.
    pub fn bp(&self) -> (r: u64)
        ensures
            r == self.spec_bp(),
    {
        match self {
            Registers::X86(r) => r.bp(),
            Registers::Arm(r) => r.bp(),
        }
    }

    /// The value of the register of that name, in small or capital letters.
    pub fn get(&self, name: &str) -> (r: Option<u64>)
        ensures
            r == self.named(name@),
    {
        match self {
            Registers::X86(r) => r.get(name),
            Registers::Arm(r) => r.get(name),
        }
    }

    /// Gives the register of that name a value; nothing changes if there is none of that name.
    pub fn set(&mut self, name: &str, value: u64) -> (r: Option<()>)
        ensures
            final(self).is_set(*old(self), name@, value, r is Some),
    {
        match *self {
            Registers::X86(r) => {
                let mut t = r;
                let found = t.set(name, value);
                *self = Registers::X86(t);
                found
            },
            Registers::Arm(r) => {
                let mut t = r;
                let found = t.set(name, value);
                *self = Registers::Arm(t);
                found
            },
        }
    }

    /// The lines that show the registers.
    pub fn display(&self) -> (r: String)
        ensures
            r@ == self.shown(),
    {
        match self {
            Registers::X86(r) => r.display(),
            Registers::Arm(r) => r.display(),
        }
    }
}

/// The floating-point and vector registers of a thread of either architecture.
#[derive(Clone, Debug)]
pub enum Floats {
    X86(x86_64::FloatState64),
    Arm(aarch64::ArmNeonState64),
}

} // verus!
