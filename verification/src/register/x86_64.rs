//! The registers of the x86_64 architecture.
use crate::bytes;
use crate::bytes::{le_u64, u64_to_le};
use crate::numerals;
use crate::numerals::{push_dec, push_hex_digits, push_hex_wide, read_number};
use crate::register::{push_row, push_vector_item, WatchCondition, WatchLen};
use crate::text;
use crate::text::{chars_of, str_eq, strip_prefix, to_lower};
use vstd::prelude::*;

verus! {

/// The general-purpose registers of a thread.
#[derive(Clone, Copy, Debug, PartialEq, Eq, Structural)]
pub struct ThreadState64 {
    pub __rax: u64,
    pub __rbx: u64,
    pub __rcx: u64,
    pub __rdx: u64,
    pub __rdi: u64,
    pub __rsi: u64,
    pub __rbp: u64,
    pub __rsp: u64,
    pub __r8: u64,
    pub __r9: u64,
    pub __r10: u64,
    pub __r11: u64,
    pub __r12: u64,
    pub __r13: u64,
    pub __r14: u64,
    pub __r15: u64,
    pub __rip: u64,
    pub __rflags: u64,
    pub __cs: u64,
    pub __fs: u64,
    pub __gs: u64,
}

/// One of the general-purpose registers.
#[derive(Clone, Copy, Debug, PartialEq, Eq, Structural)]
pub enum Register {
    Rax,
    Rbx,
    Rcx,
    Rdx,
    Rdi,
    Rsi,
    Rbp,
    Rsp,
    R8,
    R9,
    R10,
    R11,
    R12,
    R13,
    R14,
    R15,
    Rip,
    Rflags,
    Cs,
    Fs,
    Gs,
}

/// The register that a name in small letters stands for. The program counter, the stack pointer and
/// the frame pointer each have a second name.
pub open spec fn register_named(name: Seq<char>) -> Option<Register> {
    if name == "pc"@ || name == "rip"@ {
        Some(Register::Rip)
    } else if name == "sp"@ || name == "rsp"@ {
        Some(Register::Rsp)
    } else if name == "bp"@ || name == "rbp"@ {
        Some(Register::Rbp)
    } else if name == "rax"@ {
        Some(Register::Rax)
    } else if name == "rbx"@ {
        Some(Register::Rbx)
    } else if name == "rcx"@ {
        Some(Register::Rcx)
    } else if name == "rdx"@ {
        Some(Register::Rdx)
    } else if name == "rdi"@ {
        Some(Register::Rdi)
    } else if name == "rsi"@ {
        Some(Register::Rsi)
    } else if name == "r8"@ {
        Some(Register::R8)
    } else if name == "r9"@ {
        Some(Register::R9)
    } else if name == "r10"@ {
        Some(Register::R10)
    } else if name == "r11"@ {
        Some(Register::R11)
    } else if name == "r12"@ {
        Some(Register::R12)
    } else if name == "r13"@ {
        Some(Register::R13)
    } else if name == "r14"@ {
        Some(Register::R14)
    } else if name == "r15"@ {
        Some(Register::R15)
    } else if name == "rflags"@ {
        Some(Register::Rflags)
    } else if name == "cs"@ {
        Some(Register::Cs)
    } else if name == "fs"@ {
        Some(Register::Fs)
    } else if name == "gs"@ {
        Some(Register::Gs)
    } else {
        None
    }
}

/// The register that a name in small letters stands for.
fn find_register(name: &str) -> (r: Option<Register>)
    ensures
        r == register_named(name@),
{
    if str_eq(name, "pc") || str_eq(name, "rip") {
        Some(Register::Rip)
    } else if str_eq(name, "sp") || str_eq(name, "rsp") {
        Some(Register::Rsp)
    } else if str_eq(name, "bp") || str_eq(name, "rbp") {
        Some(Register::Rbp)
    } else if str_eq(name, "rax") {
        Some(Register::Rax)
    } else if str_eq(name, "rbx") {
        Some(Register::Rbx)
    } else if str_eq(name, "rcx") {
        Some(Register::Rcx)
    } else if str_eq(name, "rdx") {
        Some(Register::Rdx)
    } else if str_eq(name, "rdi") {
        Some(Register::Rdi)
    } else if str_eq(name, "rsi") {
        Some(Register::Rsi)
    } else if str_eq(name, "r8") {
        Some(Register::R8)
    } else if str_eq(name, "r9") {
        Some(Register::R9)
    } else if str_eq(name, "r10") {
        Some(Register::R10)
    } else if str_eq(name, "r11") {
        Some(Register::R11)
    } else if str_eq(name, "r12") {
        Some(Register::R12)
    } else if str_eq(name, "r13") {
        Some(Register::R13)
    } else if str_eq(name, "r14") {
        Some(Register::R14)
    } else if str_eq(name, "r15") {
        Some(Register::R15)
    } else if str_eq(name, "rflags") {
        Some(Register::Rflags)
    } else if str_eq(name, "cs") {
        Some(Register::Cs)
    } else if str_eq(name, "fs") {
        Some(Register::Fs)
    } else if str_eq(name, "gs") {
        Some(Register::Gs)
    } else {
        None
    }
}

impl Default for ThreadState64 {
    fn default() -> (r: Self)
        ensures
            forall|reg: Register| r.value(reg) == 0,
    {
        ThreadState64 {
            __rax: 0,
            __rbx: 0,
            __rcx: 0,
            __rdx: 0,
            __rdi: 0,
            __rsi: 0,
            __rbp: 0,
            __rsp: 0,
            __r8: 0,
            __r9: 0,
            __r10: 0,
            __r11: 0,
            __r12: 0,
            __r13: 0,
            __r14: 0,
            __r15: 0,
            __rip: 0,
            __rflags: 0,
            __cs: 0,
            __fs: 0,
            __gs: 0,
        }
    }
}

impl ThreadState64 {
    /// The value of a register.
    pub open spec fn value(self, reg: Register) -> u64 {
        match reg {
            Register::Rax => self.__rax,
            Register::Rbx => self.__rbx,
            Register::Rcx => self.__rcx,
            Register::Rdx => self.__rdx,
            Register::Rdi => self.__rdi,
            Register::Rsi => self.__rsi,
            Register::Rbp => self.__rbp,
            Register::Rsp => self.__rsp,
            Register::R8 => self.__r8,
            Register::R9 => self.__r9,
            Register::R10 => self.__r10,
            Register::R11 => self.__r11,
            Register::R12 => self.__r12,
            Register::R13 => self.__r13,
            Register::R14 => self.__r14,
            Register::R15 => self.__r15,
            Register::Rip => self.__rip,
            Register::Rflags => self.__rflags,
            Register::Cs => self.__cs,
            Register::Fs => self.__fs,
            Register::Gs => self.__gs,
        }
    }

    /// The state with one register changed.
    pub open spec fn with(self, reg: Register, v: u64) -> Self {
        match reg {
            Register::Rax => ThreadState64 { __rax: v, ..self },
            Register::Rbx => ThreadState64 { __rbx: v, ..self },
            Register::Rcx => ThreadState64 { __rcx: v, ..self },
            Register::Rdx => ThreadState64 { __rdx: v, ..self },
            Register::Rdi => ThreadState64 { __rdi: v, ..self },
            Register::Rsi => ThreadState64 { __rsi: v, ..self },
            Register::Rbp => ThreadState64 { __rbp: v, ..self },
            Register::Rsp => ThreadState64 { __rsp: v, ..self },
            Register::R8 => ThreadState64 { __r8: v, ..self },
            Register::R9 => ThreadState64 { __r9: v, ..self },
            Register::R10 => ThreadState64 { __r10: v, ..self },
            Register::R11 => ThreadState64 { __r11: v, ..self },
            Register::R12 => ThreadState64 { __r12: v, ..self },
            Register::R13 => ThreadState64 { __r13: v, ..self },
            Register::R14 => ThreadState64 { __r14: v, ..self },
            Register::R15 => ThreadState64 { __r15: v, ..self },
            Register::Rip => ThreadState64 { __rip: v, ..self },
            Register::Rflags => ThreadState64 { __rflags: v, ..self },
            Register::Cs => ThreadState64 { __cs: v, ..self },
            Register::Fs => ThreadState64 { __fs: v, ..self },
            Register::Gs => ThreadState64 { __gs: v, ..self },
        }
    }

    /// The lines that show the registers.
    pub open spec fn shown(self) -> Seq<char> {
        crate::register::row(seq![("RIP:"@, self.__rip), ("RSP:"@, self.__rsp), ("RBP:"@, self.__rbp)])
        + crate::register::row(seq![("RAX:"@, self.__rax), ("RBX:"@, self.__rbx), ("RCX:"@, self.__rcx), ("RDX:"@, self.__rdx)])
        + crate::register::row(seq![("RSI:"@, self.__rsi), ("RDI:"@, self.__rdi), ("R08:"@, self.__r8), ("R09:"@, self.__r9)])
        + crate::register::row(seq![("R10:"@, self.__r10), ("R11:"@, self.__r11), ("R12:"@, self.__r12), ("R13:"@, self.__r13)])
        + crate::register::row(seq![("R14:"@, self.__r14), ("R15:"@, self.__r15), ("RFLAGS:"@, self.__rflags)])
    }

    /// The program counter.
    pub fn pc(&self) -> (r: u64)
        ensures
            r == self.__rip,
    {
        self.__rip
    }

    /// Moves the program counter.
    pub fn set_pc(&mut self, pc: u64)
        ensures
            *final(self) == (ThreadState64 { __rip: pc, ..*old(self) }),
    {
        self.__rip = pc;
    }

    /// The stack pointer.
    pub fn sp(&self) -> (r: u64)
        ensures
            r == self.__rsp,
    {
        self.__rsp
    }

    /// The frame pointer.
    pub fn bp(&self) -> (r: u64)
        ensures
            r == self.__rbp,
    {
        self.__rbp
    }

    /// The value of the register of that name, in small or capital letters.
    pub fn get(&self, name: &str) -> (r: Option<u64>)
        ensures
            r == (match register_named(text::lowercase(name@)) {
                Some(reg) => Some(self.value(reg)),
                None => None,
            }),
    {
        match find_register(to_lower(name).as_str()) {
            Some(reg) => Some(match reg {
                Register::Rax => self.__rax,
                Register::Rbx => self.__rbx,
                Register::Rcx => self.__rcx,
                Register::Rdx => self.__rdx,
                Register::Rdi => self.__rdi,
                Register::Rsi => self.__rsi,
                Register::Rbp => self.__rbp,
                Register::Rsp => self.__rsp,
                Register::R8 => self.__r8,
                Register::R9 => self.__r9,
                Register::R10 => self.__r10,
                Register::R11 => self.__r11,
                Register::R12 => self.__r12,
                Register::R13 => self.__r13,
                Register::R14 => self.__r14,
                Register::R15 => self.__r15,
                Register::Rip => self.__rip,
                Register::Rflags => self.__rflags,
                Register::Cs => self.__cs,
                Register::Fs => self.__fs,
                Register::Gs => self.__gs,
            }),
            None => None,
        }
    }

    /// Gives the register of that name a value; nothing changes if there is none of that name.
    pub fn set(&mut self, name: &str, value: u64) -> (r: Option<()>)
        ensures
            match register_named(text::lowercase(name@)) {
                Some(reg) => r is Some && *final(self) == old(self).with(reg, value),
                None => r is None && *final(self) == *old(self),
            },
    {
        match find_register(to_lower(name).as_str()) {
            Some(reg) => {
                match reg {
                    Register::Rax => self.__rax = value,
                    Register::Rbx => self.__rbx = value,
                    Register::Rcx => self.__rcx = value,
                    Register::Rdx => self.__rdx = value,
                    Register::Rdi => self.__rdi = value,
                    Register::Rsi => self.__rsi = value,
                    Register::Rbp => self.__rbp = value,
                    Register::Rsp => self.__rsp = value,
                    Register::R8 => self.__r8 = value,
                    Register::R9 => self.__r9 = value,
                    Register::R10 => self.__r10 = value,
                    Register::R11 => self.__r11 = value,
                    Register::R12 => self.__r12 = value,
                    Register::R13 => self.__r13 = value,
                    Register::R14 => self.__r14 = value,
                    Register::R15 => self.__r15 = value,
                    Register::Rip => self.__rip = value,
                    Register::Rflags => self.__rflags = value,
                    Register::Cs => self.__cs = value,
                    Register::Fs => self.__fs = value,
                    Register::Gs => self.__gs = value,
                }
                Some(())
            },
            None => None,
        }
    }

    /// The lines that show the registers.
    pub fn display(&self) -> (r: String)
        ensures
            r@ == self.shown(),
    {
        let mut out = String::new();
        let row0 = [("RIP:", self.__rip), ("RSP:", self.__rsp), ("RBP:", self.__rbp)];
        assert(crate::register::row_view(row0@) =~= seq![("RIP:"@, self.__rip), ("RSP:"@, self.__rsp), ("RBP:"@, self.__rbp)]);
        push_row(&mut out, &row0);
        let row1 = [("RAX:", self.__rax), ("RBX:", self.__rbx), ("RCX:", self.__rcx), ("RDX:", self.__rdx)];
        assert(crate::register::row_view(row1@) =~= seq![("RAX:"@, self.__rax), ("RBX:"@, self.__rbx), ("RCX:"@, self.__rcx), ("RDX:"@, self.__rdx)]);
        push_row(&mut out, &row1);
        let row2 = [("RSI:", self.__rsi), ("RDI:", self.__rdi), ("R08:", self.__r8), ("R09:", self.__r9)];
        assert(crate::register::row_view(row2@) =~= seq![("RSI:"@, self.__rsi), ("RDI:"@, self.__rdi), ("R08:"@, self.__r8), ("R09:"@, self.__r9)]);
        push_row(&mut out, &row2);
        let row3 = [("R10:", self.__r10), ("R11:", self.__r11), ("R12:", self.__r12), ("R13:", self.__r13)];
        assert(crate::register::row_view(row3@) =~= seq![("R10:"@, self.__r10), ("R11:"@, self.__r11), ("R12:"@, self.__r12), ("R13:"@, self.__r13)]);
        push_row(&mut out, &row3);
        let row4 = [("R14:", self.__r14), ("R15:", self.__r15), ("RFLAGS:", self.__rflags)];
        assert(crate::register::row_view(row4@) =~= seq![("R14:"@, self.__r14), ("R15:"@, self.__r15), ("RFLAGS:"@, self.__rflags)]);
        push_row(&mut out, &row4);
        assert(out@ =~= self.shown());
        out
    }
}

/// Whatever name a register is set by, reading it by that or by its other name gives the value, and
/// every other register keeps its own.
pub proof fn law_set_then_get(state: ThreadState64, reg: Register, other: Register, v: u64)
    ensures
        state.with(reg, v).value(reg) == v,
        other != reg ==> state.with(reg, v).value(other) == state.value(other),
{
}

/// The floating-point and vector registers of a thread. The x87 and the MMX registers share their
/// bytes.
#[derive(Clone, Debug)]
pub struct FloatState64 {
    pub __fpu_reserved: [i32; 2],
    pub __fpu_fcw: u16,
    pub __fpu_fsw: u16,
    pub __fpu_ftw: u8,
    pub __fpu_rsrv1: u8,
    pub __fpu_fop: u16,
    pub __fpu_ip: u32,
    pub __fpu_cs: u16,
    pub __fpu_rsrv2: u16,
    pub __fpu_dp: u32,
    pub __fpu_ds: u16,
    pub __fpu_rsrv3: u16,
    pub __fpu_mxcsr: u32,
    pub __fpu_mxcsrmask: u32,
    /// Ten bytes of value and six of padding each.
    pub __fpu_stmm: [[u8; 16]; 8],
    pub __fpu_xmm: [[u8; 16]; 16],
    pub __fpu_rsrv4: [u8; 96],
    pub __fpu_reserved1: i32,
}

/// What a name in small letters stands for among the floating-point registers.
pub enum FloatRegister {
    /// One of the x87 registers, or the MMX register in its low bytes.
    St(int),
    Xmm(int),
    Mxcsr,
    Fcw,
    Fsw,
}

/// The number that stands behind `prefix` in a name.
pub open spec fn numbered(name: Seq<char>, prefix: Seq<char>) -> Option<nat> {
    match text::after_prefix(name, prefix) {
        Some(rest) => numerals::parse_number(rest, 10, usize::MAX as nat),
        None => None,
    }
}

/// The number behind `st`, or else that behind `mm`.
pub open spec fn stack_number(name: Seq<char>) -> Option<nat> {
    if "st"@.is_prefix_of(name) {
        numbered(name, "st"@)
    } else {
        numbered(name, "mm"@)
    }
}

/// The floating-point register that a name in small letters stands for.
pub open spec fn float_register_named(name: Seq<char>) -> Option<FloatRegister> {
    match stack_number(name) {
        Some(n) => if n < 8 {
            Some(FloatRegister::St(n as int))
        } else {
            None
        },
        None => if "xmm"@.is_prefix_of(name) {
            match numbered(name, "xmm"@) {
                Some(n) => if n < 16 {
                    Some(FloatRegister::Xmm(n as int))
                } else {
                    None
                },
                None => None,
            }
        } else if name == "mxcsr"@ {
            Some(FloatRegister::Mxcsr)
        } else if name == "fcw"@ {
            Some(FloatRegister::Fcw)
        } else if name == "fsw"@ {
            Some(FloatRegister::Fsw)
        } else {
            None
        },
    }
}

/// Sixteen bytes: the eight of `v` and eight zeros.
pub open spec fn low_half(v: u64) -> Seq<u8> {
    bytes::le_bytes(v as nat, 8) + seq![0u8, 0, 0, 0, 0, 0, 0, 0]
}

/// The number in the `len` bytes of a register at `off`.
fn part(reg: &[u8; 16], off: usize, len: usize) -> (r: u64)
    requires
        len <= 8,
        off + len <= 16,
    ensures
        r == bytes::le(reg@.subrange(off as int, off + len)),
{
    let all: &[u8] = reg.as_slice();
    le_u64(vstd::slice::slice_subrange(all, off, off + len))
}

/// The register that holds `v` in its low half and zero in its high half.
fn low_half_of(v: u64) -> (r: [u8; 16])
    ensures
        r@ == low_half(v),
{
    let b = u64_to_le(v, 8);
    proof {
        bytes::lemma_le_bytes_len(v as nat, 8);
    }
    let r: [u8; 16] = [b[0], b[1], b[2], b[3], b[4], b[5], b[6], b[7], 0, 0, 0, 0, 0, 0, 0, 0];
    assert(r@ =~= low_half(v));
    r
}

/// The number behind `prefix` in a name, if the name begins with it.
fn read_numbered(name: &[char], prefix: &str) -> (r: Option<usize>)
    ensures
        match r {
            Some(n) => numbered(name@, prefix@) == Some(n as nat),
            None => numbered(name@, prefix@) is None,
        },
{
    match strip_prefix(name, prefix) {
        Some(rest) => match read_number(rest.as_slice(), 10, usize::MAX as u64) {
            Some(n) => Some(n as usize),
            None => None,
        },
        None => None,
    }
}

impl FloatState64 {
    /// The sign bit, the exponent and the mantissa of an 80-bit register.
    pub open spec fn st_sign(reg: Seq<u8>) -> nat {
        bytes::le(reg.subrange(8, 10)) / 0x8000
    }

    pub open spec fn st_exponent(reg: Seq<u8>) -> nat {
        bytes::le(reg.subrange(8, 10)) % 0x8000
    }

    pub open spec fn st_mantissa(reg: Seq<u8>) -> nat {
        bytes::le(reg.subrange(0, 8))
    }

    /// The 64-bit floating-point number nearest below an 80-bit one in magnitude, as its bits: sign,
    /// eleven bits of exponent and the top 52 bits of the fraction. What is too large becomes an
    /// infinity, what is too small a zero, and what is no number the usual quiet one.
    pub open spec fn f64_bits(reg: Seq<u8>) -> nat {
        let sign = Self::st_sign(reg) * 0x8000_0000_0000_0000;
        let exp = Self::st_exponent(reg);
        let mant = Self::st_mantissa(reg);
        if exp == 0x7fff {
            if mant % 0x8000_0000_0000_0000 == 0 {
                sign + 0x7ff0_0000_0000_0000
            } else {
                0x7ff8_0000_0000_0000
            }
        } else if exp - 16383 + 1023 >= 0x7ff {
            sign + 0x7ff0_0000_0000_0000
        } else if exp - 16383 + 1023 <= 0 {
            sign
        } else {
            (sign + (exp - 16383 + 1023) * 0x10_0000_0000_0000 + (mant / 2048)
                % 0x10_0000_0000_0000) as nat
        }
    }

    /// The state with every field but one register as it was.
    pub open spec fn is_set(self, before: FloatState64, reg: FloatRegister, v: u64) -> bool {
        &&& self.__fpu_reserved == before.__fpu_reserved
        &&& self.__fpu_ftw == before.__fpu_ftw
        &&& self.__fpu_rsrv1 == before.__fpu_rsrv1
        &&& self.__fpu_fop == before.__fpu_fop
        &&& self.__fpu_ip == before.__fpu_ip
        &&& self.__fpu_cs == before.__fpu_cs
        &&& self.__fpu_rsrv2 == before.__fpu_rsrv2
        &&& self.__fpu_dp == before.__fpu_dp
        &&& self.__fpu_ds == before.__fpu_ds
        &&& self.__fpu_rsrv3 == before.__fpu_rsrv3
        &&& self.__fpu_mxcsrmask == before.__fpu_mxcsrmask
        &&& self.__fpu_rsrv4 == before.__fpu_rsrv4
        &&& self.__fpu_reserved1 == before.__fpu_reserved1
        &&& self.__fpu_mxcsr == (if reg is Mxcsr {
            v as u32
        } else {
            before.__fpu_mxcsr
        })
        &&& self.__fpu_fcw == (if reg is Fcw {
            v as u16
        } else {
            before.__fpu_fcw
        })
        &&& self.__fpu_fsw == (if reg is Fsw {
            v as u16
        } else {
            before.__fpu_fsw
        })
        &&& forall|i: int|
            0 <= i < 8 ==> #[trigger] self.__fpu_stmm@[i]@ == (if reg == FloatRegister::St(i) {
                low_half(v)
            } else {
                before.__fpu_stmm@[i]@
            })
        &&& forall|i: int|
            0 <= i < 16 ==> #[trigger] self.__fpu_xmm@[i]@ == (if reg == FloatRegister::Xmm(i) {
                low_half(v)
            } else {
                before.__fpu_xmm@[i]@
            })
    }

    /// The 64-bit floating-point number that an 80-bit register is shown as, as its bits.
    pub fn st_to_f64(reg: &[u8; 16]) -> (r: u64)
        ensures
            r == Self::f64_bits(reg@),
    {
        let mant: u64 = part(reg, 0, 8);
        let exp_sign: u64 = part(reg, 8, 2);
        proof {
            bytes::lemma_le_bound(reg@.subrange(8, 10));
            bytes::lemma_pow256_values();
        }
        let sign: u64 = (exp_sign / 0x8000) * 0x8000_0000_0000_0000;
        let exp: i64 = (exp_sign % 0x8000) as i64;
        if exp == 0x7fff {
            if mant % 0x8000_0000_0000_0000 == 0 {
                return sign + 0x7ff0_0000_0000_0000;
            }
            return 0x7ff8_0000_0000_0000;
        }
        let exp64: i64 = exp - 16383 + 1023;
        if exp64 >= 0x7ff {
            return sign + 0x7ff0_0000_0000_0000;
        }
        if exp64 <= 0 {
            return sign;
        }
        sign + (exp64 as u64) * 0x10_0000_0000_0000 + (mant / 2048) % 0x10_0000_0000_0000
    }

    /// Gives the register of that name a value; nothing changes if there is none of that name. An
    /// x87, MMX or XMM register gets the value in its low half and zero in its high half.
    pub fn set(&mut self, name: &str, value: u64) -> (r: Option<()>)
        ensures
            match float_register_named(text::lowercase(name@)) {
                Some(reg) => r is Some && final(self).is_set(*old(self), reg, value),
                None => r is None && *final(self) == *old(self),
            },
    {
        let lower = to_lower(name);
        let chars = chars_of(lower.as_str());
        let stack: Option<usize> = if text::chars_start_with(chars.as_slice(), "st") {
            read_numbered(chars.as_slice(), "st")
        } else {
            read_numbered(chars.as_slice(), "mm")
        };
        if let Some(n) = stack {
            if n >= 8 {
                return None;
            }
            self.__fpu_stmm[n] = low_half_of(value);
            return Some(());
        }
        if text::chars_start_with(chars.as_slice(), "xmm") {
            return match read_numbered(chars.as_slice(), "xmm") {
                Some(n) => if n < 16 {
                    self.__fpu_xmm[n] = low_half_of(value);
                    Some(())
                } else {
                    None
                },
                None => None,
            };
        }
        if str_eq(lower.as_str(), "mxcsr") {
            self.__fpu_mxcsr = value as u32;
            Some(())
        } else if str_eq(lower.as_str(), "fcw") {
            self.__fpu_fcw = value as u16;
            Some(())
        } else if str_eq(lower.as_str(), "fsw") {
            self.__fpu_fsw = value as u16;
            Some(())
        } else {
            None
        }
    }

    /// The line of an x87 register; `value` is its number as text.
    pub open spec fn st_line(self, i: int, value: Seq<char>) -> Seq<char> {
        let reg = self.__fpu_stmm@[i]@;
        "  ST"@ + numerals::dec(i as nat) + "/MM"@ + numerals::dec(i as nat) + ": "@
            + numerals::pad_left(numerals::numeral(bytes::le(reg.subrange(8, 10)), 16), 4, '0')
            + " "@ + numerals::pad_left(numerals::numeral(bytes::le(reg.subrange(0, 8)), 16), 16, '0')
            + "  ("@ + value + ")\n"@
    }

    /// The lines of the first `n` x87 registers.
    pub open spec fn st_lines(self, values: Seq<String>, n: int) -> Seq<char>
        decreases n,
    {
        if n <= 0 {
            Seq::empty()
        } else {
            self.st_lines(values, n - 1) + self.st_line(n - 1, values[n - 1]@)
        }
    }

    /// The first `n` XMM registers, two on a line.
    pub open spec fn xmm_lines(self, n: int) -> Seq<char>
        decreases n,
    {
        if n <= 0 {
            Seq::empty()
        } else {
            self.xmm_lines(n - 1) + crate::register::vector_item(
                " XMM"@,
                n - 1,
                self.__fpu_xmm@[n - 1]@,
            )
        }
    }

    /// The text that shows the floating-point registers; `values` are the x87 registers as text.
    pub open spec fn shown(self, values: Seq<String>) -> Seq<char> {
        "  FCW: "@ + numerals::hex_wide(self.__fpu_fcw as nat, 4) + "  FSW: "@ + numerals::hex_wide(
            self.__fpu_fsw as nat,
            4,
        ) + "  FTW: "@ + numerals::hex_wide(self.__fpu_ftw as nat, 2) + "  MXCSR: "@
            + numerals::hex_wide(self.__fpu_mxcsr as nat, 8) + "\n"@ + self.st_lines(values, 8)
            + self.xmm_lines(16)
    }

    /// The text that shows the floating-point registers. `values` are the x87 registers as text, in
    /// their order.
    pub fn display(&self, values: &[String]) -> (r: String)
        requires
            values@.len() == 8,
        ensures
            r@ == self.shown(values@),
    {
        let mut out = String::new();
        out.append("  FCW: ");
        push_hex_wide(&mut out, self.__fpu_fcw as u64, 4);
        out.append("  FSW: ");
        push_hex_wide(&mut out, self.__fpu_fsw as u64, 4);
        out.append("  FTW: ");
        push_hex_wide(&mut out, self.__fpu_ftw as u64, 2);
        out.append("  MXCSR: ");
        push_hex_wide(&mut out, self.__fpu_mxcsr as u64, 8);
        out.append("\n");
        let ghost head = out@;
        let mut i: usize = 0;
        assert(out@ =~= head + self.st_lines(values@, 0));
        while i < 8
            invariant
                i <= 8,
                values@.len() == 8,
                out@ == head + self.st_lines(values@, i as int),
            decreases 8 - i,
        {
            let ghost before = out@;
            out.append("  ST");
            push_dec(&mut out, i as u64);
            out.append("/MM");
            push_dec(&mut out, i as u64);
            out.append(": ");
            push_hex_digits(&mut out, part(&self.__fpu_stmm[i], 8, 2), 4);
            out.append(" ");
            push_hex_digits(&mut out, part(&self.__fpu_stmm[i], 0, 8), 16);
            out.append("  (");
            out.append(values[i].as_str());
            out.append(")\n");
            assert(out@ =~= before + self.st_line(i as int, values@[i as int]@));
            i = i + 1;
            assert(out@ =~= head + self.st_lines(values@, i as int));
        }
        let ghost mid = out@;
        let mut k: usize = 0;
        assert(out@ =~= mid + self.xmm_lines(0));
        while k < 16
            invariant
                k <= 16,
                out@ == mid + self.xmm_lines(k as int),
            decreases 16 - k,
        {
            let ghost before = out@;
            push_vector_item(&mut out, " XMM", k, &self.__fpu_xmm[k]);
            k = k + 1;
            assert(out@ =~= mid + self.xmm_lines(k as int));
        }
        assert(out@ =~= self.shown(values@));
        out
    }
}

impl Default for FloatState64 {
    /// Every register is zero.
    fn default() -> (r: Self)
        ensures
            r.__fpu_fcw == 0 && r.__fpu_fsw == 0 && r.__fpu_ftw == 0 && r.__fpu_mxcsr == 0,
            r.__fpu_rsrv1 == 0 && r.__fpu_fop == 0 && r.__fpu_ip == 0 && r.__fpu_cs == 0,
            r.__fpu_rsrv2 == 0 && r.__fpu_dp == 0 && r.__fpu_ds == 0 && r.__fpu_rsrv3 == 0,
            r.__fpu_mxcsrmask == 0 && r.__fpu_reserved1 == 0,
            forall|i: int| 0 <= i < 2 ==> r.__fpu_reserved@[i] == 0,
            forall|i: int| 0 <= i < 96 ==> r.__fpu_rsrv4@[i] == 0,
            forall|i: int, j: int| 0 <= i < 8 && 0 <= j < 16 ==> #[trigger] r.__fpu_stmm@[i]@[j] == 0,
            forall|i: int, j: int| 0 <= i < 16 && 0 <= j < 16 ==> #[trigger] r.__fpu_xmm@[i]@[j] == 0,
    {
        FloatState64 {
            __fpu_reserved: [0; 2],
            __fpu_fcw: 0,
            __fpu_fsw: 0,
            __fpu_ftw: 0,
            __fpu_rsrv1: 0,
            __fpu_fop: 0,
            __fpu_ip: 0,
            __fpu_cs: 0,
            __fpu_rsrv2: 0,
            __fpu_dp: 0,
            __fpu_ds: 0,
            __fpu_rsrv3: 0,
            __fpu_mxcsr: 0,
            __fpu_mxcsrmask: 0,
            __fpu_stmm: [[0; 16]; 8],
            __fpu_xmm: [[0; 16]; 16],
            __fpu_rsrv4: [0; 96],
            __fpu_reserved1: 0,
        }
    }
}

/// The debug registers of a thread: four addresses, a status and a control register.
#[derive(Clone, Copy, Debug, PartialEq, Eq, Structural)]
pub struct X86DebugState64 {
    pub __dr0: u64,
    pub __dr1: u64,
    pub __dr2: u64,
    pub __dr3: u64,
    pub __dr4: u64,
    pub __dr5: u64,
    pub __dr6: u64,
    pub __dr7: u64,
}

/// The bits of the control register that belong to `slot`: two that enable it, two for the condition
/// and two for the length.
pub open spec fn slot_mask(slot: usize) -> u64 {
    (3u64 << (16 + slot * 4) as u64) | (3u64 << (18 + slot * 4) as u64) | (3u64 << (slot * 2) as u64)
}

/// The control register with `slot` enabled for its thread.
pub open spec fn with_slot(dr7: u64, slot: usize, rw: u64, len: u64) -> u64 {
    without_slot(dr7, slot) | (1u64 << (slot * 2) as u64) | (rw << (16 + slot * 4) as u64) | (len << (18 + slot
        * 4) as u64)
}

/// The control register with `slot` cleared.
pub open spec fn without_slot(dr7: u64, slot: usize) -> u64 {
    dr7 & !slot_mask(slot)
}

/// The control register with a watchpoint in `slot`.
pub fn dr7_set_slot(dr7: u64, slot: usize, cond: WatchCondition, len: WatchLen) -> (r: u64)
    requires
        slot < 4,
    ensures
        r == with_slot(dr7, slot, cond.code(), len.code()),
{
    let enable_bit: u64 = (slot * 2) as u64;
    let rw_shift: u64 = (16 + slot * 4) as u64;
    let len_shift: u64 = (18 + slot * 4) as u64;
    let mask: u64 = (3u64 << rw_shift) | (3u64 << len_shift) | (3u64 << enable_bit);
    let cleared: u64 = dr7 & !mask;
    cleared | (1u64 << enable_bit) | (cond.bits() << rw_shift) | (len.bits() << len_shift)
}

/// The control register with `slot` cleared.
pub fn dr7_clear_slot(dr7: u64, slot: usize) -> (r: u64)
    requires
        slot < 4,
    ensures
        r == without_slot(dr7, slot),
{
    let enable_bit: u64 = (slot * 2) as u64;
    let rw_shift: u64 = (16 + slot * 4) as u64;
    let len_shift: u64 = (18 + slot * 4) as u64;
    let mask: u64 = (3u64 << rw_shift) | (3u64 << len_shift) | (3u64 << enable_bit);
    dr7 & !mask
}

/// Setting a slot changes the bits of no other slot, and clearing it undoes the setting.
pub proof fn law_dr7_slots(dr7: u64, slot: usize, other: usize, cond: WatchCondition, len: WatchLen)
    requires
        slot < 4,
        other < 4,
        slot != other,
    ensures
        with_slot(dr7, slot, cond.code(), len.code()) & slot_mask(other) == dr7 & slot_mask(other),
        without_slot(with_slot(dr7, slot, cond.code(), len.code()), slot) == without_slot(dr7, slot),
        without_slot(dr7, slot) & slot_mask(slot) == 0,
        without_slot(dr7, slot) & slot_mask(other) == dr7 & slot_mask(other),
{
    let rw = cond.code();
    let ln = len.code();
    let a = (slot * 2) as u64;
    let b = (16 + slot * 4) as u64;
    let c = (18 + slot * 4) as u64;
    let x = (other * 2) as u64;
    let y = (16 + other * 4) as u64;
    let z = (18 + other * 4) as u64;
    let m = (3u64 << b) | (3u64 << c) | (3u64 << a);
    let n = (3u64 << y) | (3u64 << z) | (3u64 << x);
    let set = (dr7 & !m) | (1u64 << a) | (rw << b) | (ln << c);
    assert(m & n == 0 && set & n == dr7 & n && set & !m == dr7 & !m && (dr7 & !m) & m == 0 && (dr7
        & !m) & n == dr7 & n) by (bit_vector)
        requires
            rw <= 3,
            ln <= 3,
            a == 0 || a == 2 || a == 4 || a == 6,
            x == 0 || x == 2 || x == 4 || x == 6,
            a != x,
            b == 16 + 2 * a,
            c == 18 + 2 * a,
            y == 16 + 2 * x,
            z == 18 + 2 * x,
            m == (3u64 << b) | (3u64 << c) | (3u64 << a),
            n == (3u64 << y) | (3u64 << z) | (3u64 << x),
            set == (dr7 & !m) | (1u64 << a) | (rw << b) | (ln << c),
    ;
}

} // verus!
