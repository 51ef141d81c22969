//! The registers of the aarch64 architecture.
use crate::bytes;
use crate::bytes::u64_to_le;
use crate::numerals;
use crate::numerals::{dec_string, push_addr, push_hex_wide, push_padded_left, read_number};
use crate::register::{push_row, push_vector_item, WatchCondition, WatchLen};
use crate::text;
use crate::text::{chars_of, str_eq, strip_prefix, to_lower};
use vstd::prelude::*;

verus! {

/// The general-purpose registers of a thread.
#[derive(Clone, Copy, Debug)]
pub struct ThreadState64 {
    pub __x: [u64; 29],
    pub __fp: u64,
    pub __lr: u64,
    pub __sp: u64,
    pub __pc: u64,
    pub __cpsr: u32,
    pub __pad: u32,
}

/// One of the general-purpose registers.
pub enum Register {
    X(int),
    Fp,
    Lr,
    Sp,
    Pc,
    Cpsr,
}

/// The register that a name in small letters stands for.
pub open spec fn register_named(name: Seq<char>) -> Option<Register> {
    if name == "pc"@ {
        Some(Register::Pc)
    } else if name == "sp"@ {
        Some(Register::Sp)
    } else if name == "fp"@ || name == "bp"@ {
        Some(Register::Fp)
    } else if name == "lr"@ {
        Some(Register::Lr)
    } else if name == "cpsr"@ {
        Some(Register::Cpsr)
    } else {
        match text::after_prefix(name, "x"@) {
            Some(rest) => match numerals::parse_number(rest, 10, usize::MAX as nat) {
                Some(n) => if n < 29 {
                    Some(Register::X(n as int))
                } else {
                    None
                },
                None => None,
            },
            None => None,
        }
    }
}

/// The number of the `x` register that a name in small letters stands for.
fn x_number(name: &str) -> (r: Option<usize>)
    ensures
        match r {
            Some(n) => n < 29 && text::after_prefix(name@, "x"@) is Some && numerals::parse_number(
                text::after_prefix(name@, "x"@)->0,
                10,
                usize::MAX as nat,
            ) == Some(n as nat),
            None => match text::after_prefix(name@, "x"@) {
                Some(rest) => match numerals::parse_number(rest, 10, usize::MAX as nat) {
                    Some(n) => n >= 29,
                    None => true,
                },
                None => true,
            },
        },
{
    let chars = chars_of(name);
    match strip_prefix(chars.as_slice(), "x") {
        Some(rest) => match read_number(rest.as_slice(), 10, usize::MAX as u64) {
            Some(n) => if n < 29 {
                Some(n as usize)
            } else {
                None
            },
            None => None,
        },
        None => None,
    }
}

impl Default for ThreadState64 {
    fn default() -> (r: Self)
        ensures
            forall|i: int| 0 <= i < 29 ==> r.__x@[i] == 0,
            r.__fp == 0 && r.__lr == 0 && r.__sp == 0 && r.__pc == 0 && r.__cpsr == 0 && r.__pad == 0,
    {
        ThreadState64 { __x: [0; 29], __fp: 0, __lr: 0, __sp: 0, __pc: 0, __cpsr: 0, __pad: 0 }
    }
}

impl ThreadState64 {
    /// The value of a register.
    pub open spec fn value(self, reg: Register) -> u64 {
        match reg {
            Register::X(n) => self.__x@[n],
            Register::Fp => self.__fp,
            Register::Lr => self.__lr,
            Register::Sp => self.__sp,
            Register::Pc => self.__pc,
            Register::Cpsr => self.__cpsr as u64,
        }
    }

    /// Whether `self` is `before` with one register changed.
    pub open spec fn is_set(self, before: ThreadState64, reg: Register, v: u64) -> bool {
        &&& self.__pad == before.__pad
        &&& self.__fp == (if reg is Fp {
            v
        } else {
            before.__fp
        })
        &&& self.__lr == (if reg is Lr {
            v
        } else {
            before.__lr
        })
        &&& self.__sp == (if reg is Sp {
            v
        } else {
            before.__sp
        })
        &&& self.__pc == (if reg is Pc {
            v
        } else {
            before.__pc
        })
        &&& self.__cpsr == (if reg is Cpsr {
            v as u32
        } else {
            before.__cpsr
        })
        &&& self.__x@ == (match reg {
            Register::X(n) => before.__x@.update(n, v),
            _ => before.__x@,
        })
    }

    /// The first `n` of the `x` registers, four on a line.
    pub open spec fn x_items(self, n: int) -> Seq<char>
        decreases n,
    {
        if n <= 0 {
            Seq::empty()
        } else {
            self.x_items(n - 1) + (" X"@ + numerals::pad_left(numerals::dec((n - 1) as nat), 2, '0')
                + ": "@ + numerals::addr_text(self.__x@[n - 1] as nat) + " "@ + (if n % 4 == 0 {
                "\n"@
            } else {
                Seq::empty()
            }))
        }
    }

    /// The lines that show the registers.
    pub open spec fn shown(self) -> Seq<char> {
        crate::register::row(
            seq![
                ("PC: "@, self.__pc),
                ("SP:"@, self.__sp),
                ("FP:"@, self.__fp),
                ("LR:"@, self.__lr),
            ],
        ) + self.x_items(29) + "  CPSR: "@ + numerals::hex_wide(self.__cpsr as nat, 8) + "\n"@
    }

    /// The program counter.
    pub fn pc(&self) -> (r: u64)
        ensures
            r == self.__pc,
    {
        self.__pc
    }

    /// Moves the program counter.
    pub fn set_pc(&mut self, pc: u64)
        ensures
            *final(self) == (ThreadState64 { __pc: pc, ..*old(self) }),
    {
        self.__pc = pc;
    }

    /// The stack pointer.
    pub fn sp(&self) -> (r: u64)
        ensures
            r == self.__sp,
    {
        self.__sp
    }

    /// The frame pointer.
    pub fn bp(&self) -> (r: u64)
        ensures
            r == self.__fp,
    {
        self.__fp
    }

    /// The value of the register of that name, in small or capital letters.
    pub fn get(&self, name: &str) -> (r: Option<u64>)
        ensures
            r == (match register_named(text::lowercase(name@)) {
                Some(reg) => Some(self.value(reg)),
                None => None,
            }),
    {
        let lower = to_lower(name);
        let n = lower.as_str();
        if str_eq(n, "pc") {
            Some(self.__pc)
        } else if str_eq(n, "sp") {
            Some(self.__sp)
        } else if str_eq(n, "fp") || str_eq(n, "bp") {
            Some(self.__fp)
        } else if str_eq(n, "lr") {
            Some(self.__lr)
        } else if str_eq(n, "cpsr") {
            Some(self.__cpsr as u64)
        } else {
            match x_number(n) {
                Some(k) => Some(self.__x[k]),
                None => None,
            }
        }
    }

    /// Gives the register of that name a value; nothing changes if there is none of that name. The
    /// status register takes the low half of the value.
    pub fn set(&mut self, name: &str, value: u64) -> (r: Option<()>)
        ensures
            match register_named(text::lowercase(name@)) {
                Some(reg) => r is Some && final(self).is_set(*old(self), reg, value),
                None => r is None && *final(self) == *old(self),
            },
    {
        let lower = to_lower(name);
        let n = lower.as_str();
        if str_eq(n, "pc") {
            self.__pc = value;
        } else if str_eq(n, "sp") {
            self.__sp = value;
        } else if str_eq(n, "fp") || str_eq(n, "bp") {
            self.__fp = value;
        } else if str_eq(n, "lr") {
            self.__lr = value;
        } else if str_eq(n, "cpsr") {
            self.__cpsr = value as u32;
        } else {
            match x_number(n) {
                Some(k) => {
                    self.__x[k] = value;
                },
                None => {
                    return None;
                },
            }
        }
        Some(())
    }

    /// The lines that show the registers.
    pub fn display(&self) -> (r: String)
        ensures
            r@ == self.shown(),
    {
        let mut out = String::new();
        let first = [("PC: ", self.__pc), ("SP:", self.__sp), ("FP:", self.__fp), ("LR:", self.__lr)];
        assert(crate::register::row_view(first@) =~= seq![
            ("PC: "@, self.__pc),
            ("SP:"@, self.__sp),
            ("FP:"@, self.__fp),
            ("LR:"@, self.__lr),
        ]);
        push_row(&mut out, &first);
        let ghost head = out@;
        let mut i: usize = 0;
        assert(out@ =~= head + self.x_items(0));
        while i < 29
            invariant
                i <= 29,
                out@ == head + self.x_items(i as int),
            decreases 29 - i,
        {
            let number = dec_string(i as u64);
            out.append(" X");
            push_padded_left(&mut out, number.as_str(), 2, '0');
            out.append(": ");
            push_addr(&mut out, self.__x[i]);
            out.append(" ");
            if (i + 1) % 4 == 0 {
                out.append("\n");
            }
            i = i + 1;
            assert(out@ =~= head + self.x_items(i as int));
        }
        out.append("  CPSR: ");
        push_hex_wide(&mut out, self.__cpsr as u64, 8);
        out.append("\n");
        assert(out@ =~= self.shown());
        out
    }
}

/// Whatever name a register is set by, reading it by that or by its other name gives the value (of
/// the status register its low half), and every other register keeps its own.
pub proof fn law_set_then_get(
    before: ThreadState64,
    after: ThreadState64,
    reg: Register,
    other: Register,
    v: u64,
)
    requires
        reg matches Register::X(n) ==> 0 <= n < 29,
        other matches Register::X(n) ==> 0 <= n < 29,
        after.is_set(before, reg, v),
    ensures
        after.value(reg) == (if reg is Cpsr {
            v as u32 as u64
        } else {
            v
        }),
        other != reg ==> after.value(other) == before.value(other),
{
}

/// The vector and floating-point registers of a thread.
#[derive(Clone, Debug)]
pub struct ArmNeonState64 {
    pub v: [[u8; 16]; 32],
    pub fpsr: u32,
    pub fpcr: u32,
}

/// What a name in small letters stands for among the vector registers.
pub enum NeonRegister {
    /// The low `width` bytes of vector register `n`; with `clears`, the others become zero.
    Vector { n: int, width: int, clears: bool },
    Fpsr,
    Fpcr,
}

/// How many bytes a name that begins with `c` stands for, and whether the others are cleared.
pub open spec fn view_width(c: char) -> Option<(int, bool)> {
    if c == 'v' || c == 'q' {
        Some((8, true))
    } else if c == 'd' {
        Some((8, false))
    } else if c == 's' {
        Some((4, false))
    } else if c == 'h' {
        Some((2, false))
    } else if c == 'b' {
        Some((1, false))
    } else {
        None
    }
}

/// The vector register that a name in small letters stands for.
pub open spec fn neon_register_named(name: Seq<char>) -> Option<NeonRegister> {
    if name.len() > 0 && view_width(name[0]) is Some {
        match numerals::parse_number(name.skip(1), 10, usize::MAX as nat) {
            Some(n) => if n < 32 {
                let (width, clears) = view_width(name[0])->0;
                Some(NeonRegister::Vector { n: n as int, width, clears })
            } else {
                None
            },
            None => None,
        }
    } else if name == "fpsr"@ {
        Some(NeonRegister::Fpsr)
    } else if name == "fpcr"@ {
        Some(NeonRegister::Fpcr)
    } else {
        None
    }
}

/// Sixteen bytes with the low `width` of them taken from `v`.
pub open spec fn low_bytes(before: Seq<u8>, v: u64, width: int, clears: bool) -> Seq<u8> {
    Seq::new(
        16,
        |i: int|
            if i < width {
                bytes::le_bytes(v as nat, 8)[i]
            } else if clears {
                0u8
            } else {
                before[i]
            },
    )
}

impl ArmNeonState64 {
    /// Whether `self` is `before` with one register changed.
    pub open spec fn is_set(self, before: ArmNeonState64, reg: NeonRegister, value: u64) -> bool {
        &&& self.fpsr == (if reg is Fpsr {
            value as u32
        } else {
            before.fpsr
        })
        &&& self.fpcr == (if reg is Fpcr {
            value as u32
        } else {
            before.fpcr
        })
        &&& forall|i: int|
            0 <= i < 32 ==> #[trigger] self.v@[i]@ == (match reg {
                NeonRegister::Vector { n, width, clears } => if n == i {
                    low_bytes(before.v@[i]@, value, width, clears)
                } else {
                    before.v@[i]@
                },
                _ => before.v@[i]@,
            })
    }

    /// Gives the register of that name a value; nothing changes if there is none of that name. By `v`
    /// and `q` the low half is written and the high half cleared; by `d`, `s`, `h` and `b` only so many
    /// bytes are written.
    pub fn set(&mut self, name: &str, value: u64) -> (r: Option<()>)
        ensures
            match neon_register_named(text::lowercase(name@)) {
                Some(reg) => r is Some && final(self).is_set(*old(self), reg, value),
                None => r is None && *final(self) == *old(self),
            },
    {
        let lower = to_lower(name);
        let chars = chars_of(lower.as_str());
        let bytes = u64_to_le(value, 8);
        proof {
            bytes::lemma_le_bytes_len(value as nat, 8);
        }
        let first: char = if chars.len() > 0 {
            chars[0]
        } else {
            '-'
        };
        let (width, clears): (usize, bool) = if first == 'v' || first == 'q' {
            (8, true)
        } else if first == 'd' {
            (8, false)
        } else if first == 's' {
            (4, false)
        } else if first == 'h' {
            (2, false)
        } else if first == 'b' {
            (1, false)
        } else {
            (0, false)
        };
        if width == 0 {
            if str_eq(lower.as_str(), "fpsr") {
                self.fpsr = value as u32;
                return Some(());
            }
            if str_eq(lower.as_str(), "fpcr") {
                self.fpcr = value as u32;
                return Some(());
            }
            return None;
        }
        let rest = text::chars_between(chars.as_slice(), 1, chars.len());
        assert(rest@ =~= chars@.skip(1));
        let n: usize = match read_number(rest.as_slice(), 10, usize::MAX as u64) {
            Some(n) => if n < 32 {
                n as usize
            } else {
                return None;
            },
            None => return None,
        };
        let ghost before = self.v@[n as int]@;
        let mut reg: [u8; 16] = self.v[n];
        let mut i: usize = 0;
        while i < 16
            invariant
                i <= 16,
                width <= 8,
                bytes@ == bytes::le_bytes(value as nat, 8),
                bytes@.len() == 8,
                forall|k: int|
                    0 <= k < i ==> reg@[k] == low_bytes(before, value, width as int, clears)[k],
                forall|k: int| i <= k < 16 ==> reg@[k] == before[k],
            decreases 16 - i,
        {
            if i < width {
                reg[i] = bytes[i];
            } else if clears {
                reg[i] = 0;
            }
            i = i + 1;
        }
        assert(reg@ =~= low_bytes(before, value, width as int, clears));
        self.v[n] = reg;
        Some(())
    }

    /// The first `n` vector registers, two on a line.
    pub open spec fn vector_lines(self, n: int) -> Seq<char>
        decreases n,
    {
        if n <= 0 {
            Seq::empty()
        } else {
            self.vector_lines(n - 1) + crate::register::vector_item(" V"@, n - 1, self.v@[n - 1]@)
        }
    }

    /// The text that shows the vector registers.
    pub open spec fn shown(self) -> Seq<char> {
        "  FPSR: "@ + numerals::hex_wide(self.fpsr as nat, 8) + "  FPCR: "@ + numerals::hex_wide(
            self.fpcr as nat,
            8,
        ) + "\n"@ + self.vector_lines(32)
    }

    /// The text that shows the vector registers.
    pub fn display(&self) -> (r: String)
        ensures
            r@ == self.shown(),
    {
        let mut out = String::new();
        out.append("  FPSR: ");
        push_hex_wide(&mut out, self.fpsr as u64, 8);
        out.append("  FPCR: ");
        push_hex_wide(&mut out, self.fpcr as u64, 8);
        out.append("\n");
        let ghost head = out@;
        let mut i: usize = 0;
        assert(out@ =~= head + self.vector_lines(0));
        while i < 32
            invariant
                i <= 32,
                out@ == head + self.vector_lines(i as int),
            decreases 32 - i,
        {
            push_vector_item(&mut out, " V", i, &self.v[i]);
            i = i + 1;
            assert(out@ =~= head + self.vector_lines(i as int));
        }
        assert(out@ =~= self.shown());
        out
    }
}

impl Default for ArmNeonState64 {
    /// Every register is zero.
    fn default() -> (r: Self)
        ensures
            r.fpsr == 0 && r.fpcr == 0,
            forall|i: int, j: int| 0 <= i < 32 && 0 <= j < 16 ==> #[trigger] r.v@[i]@[j] == 0,
    {
        ArmNeonState64 { v: [[0; 16]; 32], fpsr: 0, fpcr: 0 }
    }
}

/// The debug registers of a thread: addresses and controls of breakpoints and watchpoints.
#[derive(Clone, Copy, Debug)]
pub struct ArmDebugState64 {
    pub bvr: [u64; 16],
    pub bcr: [u64; 16],
    pub wvr: [u64; 16],
    pub wcr: [u64; 16],
    pub mdscr_el1: u64,
}

/// The control value of a breakpoint in user space: enabled (bit 0), for user code only (bits 1 and
/// 2), matching all four bytes of the instruction (bits 5 to 8).
pub const HW_BP_BCR_ENABLE: u64 = 0x1E5;

/// The bytes of the aligned doubleword that a watchpoint of `size` bytes at `offset` watches, as a
/// mask.
pub open spec fn byte_mask(size: u64, offset: u64) -> u64 {
    ((((1u64 << size) - 1) as u64) << offset) & 0xff
}

/// The watched address and the control value of a watchpoint: the address aligned to eight bytes, and
/// enabled, for user code only, the kind of access, and the byte mask.
pub open spec fn watch_words(addr: u64, cond: WatchCondition, len: WatchLen) -> (u64, u64) {
    (
        addr & !7u64,
        1u64 | (2u64 << 1u64) | ((if cond is Write {
            2u64
        } else {
            3u64
        }) << 3u64) | (byte_mask(len.width() as u64, addr & 7) << 5u64),
    )
}

/// The watched address and the control value of a watchpoint.
pub fn wcr_encode(addr: usize, cond: WatchCondition, len: WatchLen) -> (r: (u64, u64))
    ensures
        r == watch_words(addr as u64, cond, len),
{
    let size: u64 = len.as_bytes() as u64;
    let a: u64 = addr as u64;
    let offset: u64 = a & 7;
    assert(a & 7 <= 7) by (bit_vector);
    assert(1u64 <= (1u64 << size)) by (bit_vector)
        requires
            size <= 8,
    ;
    let bas: u64 = (((1u64 << size) - 1) << offset) & 0xff;
    let lsc: u64 = match cond {
        WatchCondition::Write => 2,
        _ => 3,
    };
    (a & !7u64, 1u64 | (2u64 << 1u64) | (lsc << 3u64) | (bas << 5u64))
}

/// The mask of a watchpoint has one bit for each watched byte of the doubleword, from that of the address
/// on.
pub proof fn law_watch_mask(size: u64, offset: u64, k: u64)
    requires
        1 <= size <= 8,
        offset <= 7,
        k < 8,
    ensures
        (byte_mask(size, offset) >> k) & 1 == (if offset <= k < offset + size {
            1u64
        } else {
            0u64
        }),
{
    let m = byte_mask(size, offset);
    assert((((((1u64 << size) - 1) as u64) << offset) & 0xff) >> k & 1 == (if offset <= k && k < offset
        + size {
        1u64
    } else {
        0u64
    })) by (bit_vector)
        requires
            1 <= size <= 8,
            offset <= 7,
            k < 8,
    ;
}

} // verus!
