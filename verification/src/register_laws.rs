//! What holds of the registers: which field a name stands for, and what is shown.
use crate::bytes;
use crate::numerals;
use crate::register;
use crate::register::aarch64;
use crate::register::x86_64;
use crate::register::x86_64::{FloatRegister, FloatState64};
use crate::register::{Registers, WatchCondition, WatchLen};
use crate::text;
use vstd::prelude::*;

verus! {

/// What a name of x86_64 in small letters stands for is the register of that name; the program counter,
/// the stack pointer and the frame pointer have their common names too.
pub proof fn law_x86_names(g: x86_64::ThreadState64)
    ensures
        ({
            let v = |n: Seq<char>| g.value(x86_64::register_named(n)->0);
            &&& v("rax"@) == g.__rax && v("rbx"@) == g.__rbx && v("rcx"@) == g.__rcx && v("rdx"@) == g.__rdx
            &&& v("rdi"@) == g.__rdi && v("rsi"@) == g.__rsi
            &&& v("rbp"@) == g.__rbp && v("bp"@) == g.__rbp
            &&& v("rsp"@) == g.__rsp && v("sp"@) == g.__rsp
            &&& v("rip"@) == g.__rip && v("pc"@) == g.__rip
            &&& v("r8"@) == g.__r8 && v("r9"@) == g.__r9 && v("r10"@) == g.__r10 && v("r11"@) == g.__r11
            &&& v("r12"@) == g.__r12 && v("r13"@) == g.__r13 && v("r14"@) == g.__r14 && v("r15"@) == g.__r15
            &&& v("rflags"@) == g.__rflags && v("cs"@) == g.__cs && v("fs"@) == g.__fs && v("gs"@) == g.__gs
        }),
{
    reveal_strlit("pc");
    assert("pc"@[0] == 'p' && "pc"@[1] == 'c');
    reveal_strlit("rip");
    assert("rip"@[0] == 'r' && "rip"@[1] == 'i' && "rip"@[2] == 'p');
    reveal_strlit("sp");
    assert("sp"@[0] == 's' && "sp"@[1] == 'p');
    reveal_strlit("rsp");
    assert("rsp"@[0] == 'r' && "rsp"@[1] == 's' && "rsp"@[2] == 'p');
    reveal_strlit("bp");
    assert("bp"@[0] == 'b' && "bp"@[1] == 'p');
    reveal_strlit("rbp");
    assert("rbp"@[0] == 'r' && "rbp"@[1] == 'b' && "rbp"@[2] == 'p');
    reveal_strlit("rax");
    assert("rax"@[0] == 'r' && "rax"@[1] == 'a' && "rax"@[2] == 'x');
    reveal_strlit("rbx");
    assert("rbx"@[0] == 'r' && "rbx"@[1] == 'b' && "rbx"@[2] == 'x');
    reveal_strlit("rcx");
    assert("rcx"@[0] == 'r' && "rcx"@[1] == 'c' && "rcx"@[2] == 'x');
    reveal_strlit("rdx");
    assert("rdx"@[0] == 'r' && "rdx"@[1] == 'd' && "rdx"@[2] == 'x');
    reveal_strlit("rdi");
    assert("rdi"@[0] == 'r' && "rdi"@[1] == 'd' && "rdi"@[2] == 'i');
    reveal_strlit("rsi");
    assert("rsi"@[0] == 'r' && "rsi"@[1] == 's' && "rsi"@[2] == 'i');
    reveal_strlit("r8");
    assert("r8"@[0] == 'r' && "r8"@[1] == '8');
    reveal_strlit("r9");
    assert("r9"@[0] == 'r' && "r9"@[1] == '9');
    reveal_strlit("r10");
    assert("r10"@[0] == 'r' && "r10"@[1] == '1' && "r10"@[2] == '0');
    reveal_strlit("r11");
    assert("r11"@[0] == 'r' && "r11"@[1] == '1' && "r11"@[2] == '1');
    reveal_strlit("r12");
    assert("r12"@[0] == 'r' && "r12"@[1] == '1' && "r12"@[2] == '2');
    reveal_strlit("r13");
    assert("r13"@[0] == 'r' && "r13"@[1] == '1' && "r13"@[2] == '3');
    reveal_strlit("r14");
    assert("r14"@[0] == 'r' && "r14"@[1] == '1' && "r14"@[2] == '4');
    reveal_strlit("r15");
    assert("r15"@[0] == 'r' && "r15"@[1] == '1' && "r15"@[2] == '5');
    reveal_strlit("rflags");
    assert("rflags"@[0] == 'r' && "rflags"@[1] == 'f' && "rflags"@[2] == 'l' && "rflags"@[3] == 'a');
    reveal_strlit("cs");
    assert("cs"@[0] == 'c' && "cs"@[1] == 's');
    reveal_strlit("fs");
    assert("fs"@[0] == 'f' && "fs"@[1] == 's');
    reveal_strlit("gs");
    assert("gs"@[0] == 'g' && "gs"@[1] == 's');
}

/// What a name of aarch64 in small letters stands for is the register of that name; `x` and a number below
/// twenty-nine is one of the general registers.
pub proof fn law_arm_names(g: aarch64::ThreadState64, n: nat)
    requires
        n < 29,
    ensures
        ({
            let v = |s: Seq<char>| g.value(aarch64::register_named(s)->0);
            &&& v("pc"@) == g.__pc && v("sp"@) == g.__sp && v("lr"@) == g.__lr
            &&& v("fp"@) == g.__fp && v("bp"@) == g.__fp
            &&& v("cpsr"@) == g.__cpsr
            &&& v("x"@ + numerals::dec(n)) == g.__x@[n as int]
        }),
        aarch64::register_named("x"@ + numerals::dec(29)) is None,
{
    reveal_strlit("pc");
    assert("pc"@[0] == 'p' && "pc"@[1] == 'c');
    reveal_strlit("sp");
    assert("sp"@[0] == 's' && "sp"@[1] == 'p');
    reveal_strlit("fp");
    assert("fp"@[0] == 'f' && "fp"@[1] == 'p');
    reveal_strlit("bp");
    assert("bp"@[0] == 'b' && "bp"@[1] == 'p');
    reveal_strlit("lr");
    assert("lr"@[0] == 'l' && "lr"@[1] == 'r');
    reveal_strlit("cpsr");
    assert("cpsr"@[0] == 'c' && "cpsr"@[1] == 'p' && "cpsr"@[2] == 's' && "cpsr"@[3] == 'r');
    reveal_strlit("x");
    lemma_numbered("x"@, n);
    lemma_numbered("x"@, 29);
    let s = "x"@ + numerals::dec(n);
    let t = "x"@ + numerals::dec(29);
    assert(s[0] == 'x' && t[0] == 'x');
}

/// The number behind a prefix is found again.
proof fn lemma_numbered(p: Seq<char>, n: nat)
    requires
        n <= usize::MAX,
    ensures
        text::after_prefix(p + numerals::dec(n), p) == Some(numerals::dec(n)),
        numerals::parse_number(numerals::dec(n), 10, usize::MAX as nat) == Some(n),
{
    let s = p + numerals::dec(n);
    assert(s.skip(p.len() as int) =~= numerals::dec(n));
    assert(p =~= s.subrange(0, p.len() as int));
    numerals::law_number_is_read(n, 10, usize::MAX as nat);
}

/// The vector registers of x86_64 are named by `xmm` and a number below sixteen, the stack registers by
/// `st` or `mm` and a number below eight.
pub proof fn law_x86_float_names(n: nat)
    requires
        n < 16,
    ensures
        x86_64::float_register_named("xmm"@ + numerals::dec(n)) == Some(FloatRegister::Xmm(n as int)),
        n < 8 ==> x86_64::float_register_named("st"@ + numerals::dec(n)) == Some(FloatRegister::St(n as int)),
        n < 8 ==> x86_64::float_register_named("mm"@ + numerals::dec(n)) == Some(FloatRegister::St(n as int)),
        n >= 8 ==> x86_64::float_register_named("st"@ + numerals::dec(n)) is None,
        x86_64::float_register_named("xmm"@ + numerals::dec(n + 16)) is None,
        x86_64::float_register_named("mxcsr"@) == Some(FloatRegister::Mxcsr),
        x86_64::float_register_named("fcw"@) == Some(FloatRegister::Fcw),
        x86_64::float_register_named("fsw"@) == Some(FloatRegister::Fsw),
{
    reveal_strlit("xmm");
    reveal_strlit("st");
    reveal_strlit("mm");
    reveal_strlit("mxcsr");
    reveal_strlit("fcw");
    reveal_strlit("fsw");
    lemma_numbered("xmm"@, n);
    lemma_numbered("xmm"@, n + 16);
    lemma_numbered("st"@, n);
    lemma_numbered("mm"@, n);
    assert("xmm"@[0] == 'x' && "st"@[0] == 's' && "st"@[1] == 't' && "mm"@[0] == 'm' && "mm"@[1] == 'm');
    assert("mxcsr"@[0] == 'm' && "mxcsr"@[1] == 'x' && "fcw"@[0] == 'f' && "fsw"@[0] == 'f' && "fcw"@[1]
        == 'c' && "fsw"@[1] == 's');
    let x = "xmm"@ + numerals::dec(n);
    let y = "xmm"@ + numerals::dec(n + 16);
    let m = "mm"@ + numerals::dec(n);
    let t = "st"@ + numerals::dec(n);
    assert(x[0] == 'x' && y[0] == 'x' && m[0] == 'm' && t[0] == 's');
    lemma_no_prefix(x, "st"@, 0);
    lemma_no_prefix(x, "mm"@, 0);
    lemma_no_prefix(y, "st"@, 0);
    lemma_no_prefix(y, "mm"@, 0);
    lemma_no_prefix(m, "st"@, 0);
    lemma_no_prefix("mxcsr"@, "st"@, 0);
    lemma_no_prefix("mxcsr"@, "mm"@, 1);
    lemma_no_prefix("mxcsr"@, "xmm"@, 0);
    lemma_no_prefix("fcw"@, "st"@, 0);
    lemma_no_prefix("fcw"@, "mm"@, 0);
    lemma_no_prefix("fcw"@, "xmm"@, 0);
    lemma_no_prefix("fsw"@, "st"@, 0);
    lemma_no_prefix("fsw"@, "mm"@, 0);
    lemma_no_prefix("fsw"@, "xmm"@, 0);
    assert("st"@ =~= t.subrange(0, 2));
    assert("xmm"@ =~= x.subrange(0, 3));
    assert("xmm"@ =~= y.subrange(0, 3));
}

/// A text that differs from a prefix at a place does not begin with it.
proof fn lemma_no_prefix(s: Seq<char>, p: Seq<char>, i: int)
    requires
        0 <= i < p.len() <= s.len(),
        s[i] != p[i],
    ensures
        !p.is_prefix_of(s),
{
    assert(s.subrange(0, p.len() as int)[i] == s[i]);
}

/// A vector register that is set holds the value in its low half and zero in its high half.
pub proof fn law_low_half(v: u64)
    ensures
        x86_64::low_half(v).len() == 16,
        bytes::le(x86_64::low_half(v).subrange(0, 8)) == v,
        forall|i: int| 8 <= i < 16 ==> #[trigger] x86_64::low_half(v)[i] == 0,
{
    bytes::lemma_le_bytes_len(v as nat, 8);
    bytes::lemma_pow256_values();
    bytes::lemma_le_of_le_bytes(v as nat, 8);
    assert(x86_64::low_half(v).subrange(0, 8) =~= bytes::le_bytes(v as nat, 8));
}

/// The program counter, the stack pointer and the frame pointer of either machine are the registers of
/// these names, and moving the program counter changes nothing else.
pub proof fn law_common_registers(r: Registers, pc: u64)
    ensures
        r matches Registers::X86(g) ==> r.spec_pc() == g.__rip && r.spec_sp() == g.__rsp && r.spec_bp()
            == g.__rbp,
        r matches Registers::Arm(g) ==> r.spec_pc() == g.__pc && r.spec_sp() == g.__sp && r.spec_bp()
            == g.__fp,
        r.at(pc).spec_pc() == pc,
        r.at(pc).at(r.spec_pc()) == r,
        r.at(pc).spec_sp() == r.spec_sp() && r.at(pc).spec_bp() == r.spec_bp(),
{
    if let Registers::X86(g) = r {
        assert(r.at(pc).at(r.spec_pc()) == r);
    }
}

/// A line of registers shows each with its label and its value, one behind the other.
pub proof fn law_row_of_registers(items: Seq<(Seq<char>, u64)>, label: Seq<char>, v: u64)
    ensures
        register::row_items(Seq::empty()).len() == 0,
        register::row_items(items.push((label, v))) == register::row_items(items) + ("  "@ + label + " "@
            + ("0x"@ + numerals::pad_left(numerals::numeral(v as nat, 16), 16, '0'))),
        register::row(items) == register::row_items(items) + "\n"@,
{
    assert(items.push((label, v)).drop_last() =~= items);
}

/// A vector register is shown with its high half before its low half, and every second one ends the line.
pub proof fn law_vector_item(label: Seq<char>, n: int, reg: Seq<u8>)
    requires
        0 <= n < 100,
        reg.len() == 16,
    ensures
        register::vector_item(label, n, reg) == label + numerals::pad_left(numerals::dec(n as nat), 2, '0')
            + ": "@ + numerals::pad_left(numerals::numeral(bytes::le(reg.subrange(8, 16)), 16), 16, '0')
            + "_"@ + numerals::pad_left(numerals::numeral(bytes::le(reg.subrange(0, 8)), 16), 16, '0') + (
        if n % 2 == 1 {
            "\n"@
        } else {
            ""@
        }),
{
    reveal_strlit("");
    assert(""@ =~= Seq::<char>::empty());
}

/// An extended number keeps its sign as a double, and has the exponent with the bias of a double and the
/// upper bits of the fraction; what is too large is infinite, what is too small is zero.
pub proof fn law_extended_numbers(reg: Seq<u8>, s: nat, e: nat, m: nat)
    requires
        reg.len() == 16,
        bytes::le(reg.subrange(8, 10)) == s * 0x8000 + e,
        s <= 1,
        e < 0x8000,
        bytes::le(reg.subrange(0, 8)) == m,
    ensures
        15361 <= e <= 17406 ==> FloatState64::f64_bits(reg) == s * 0x8000_0000_0000_0000 + (e - 15360)
            * 0x10_0000_0000_0000 + (m / 0x800) % 0x10_0000_0000_0000,
        17407 <= e < 0x7fff ==> FloatState64::f64_bits(reg) == s * 0x8000_0000_0000_0000
            + 0x7ff0_0000_0000_0000,
        e <= 15360 ==> FloatState64::f64_bits(reg) == s * 0x8000_0000_0000_0000,
        e == 0x7fff && m % 0x8000_0000_0000_0000 == 0 ==> FloatState64::f64_bits(reg) == s
            * 0x8000_0000_0000_0000 + 0x7ff0_0000_0000_0000,
        e == 0x7fff && m % 0x8000_0000_0000_0000 != 0 ==> FloatState64::f64_bits(reg)
            == 0x7ff8_0000_0000_0000,
{
    assert((s * 0x8000 + e) / 0x8000 == s && (s * 0x8000 + e) % 0x8000 == e);
}

/// Lengths and conditions of watchpoints have the codes of the control register.
pub proof fn law_watch_codes()
    ensures
        WatchLen::Byte1.width() == 1 && WatchLen::Word2.width() == 2 && WatchLen::Dword4.width() == 4
            && WatchLen::QWord8.width() == 8,
        WatchLen::Byte1.code() == 0 && WatchLen::Word2.code() == 1 && WatchLen::QWord8.code() == 2
            && WatchLen::Dword4.code() == 3,
        WatchCondition::Execute.code() == 0 && WatchCondition::Write.code() == 1
            && WatchCondition::IoRW.code() == 2 && WatchCondition::ReadWrite.code() == 3,
{
}

/// Setting a vector register changes that register and no other.
pub proof fn law_xmm_is_set(a: FloatState64, b: FloatState64, n: int, v: u64, k: int)
    requires
        b.is_set(a, FloatRegister::Xmm(n), v),
        0 <= n < 16,
        0 <= k < 16,
    ensures
        bytes::le(b.__fpu_xmm@[n]@.subrange(0, 8)) == v,
        k != n ==> b.__fpu_xmm@[k]@ == a.__fpu_xmm@[k]@,
        k < 8 ==> b.__fpu_stmm@[k]@ == a.__fpu_stmm@[k]@,
        b.__fpu_mxcsr == a.__fpu_mxcsr && b.__fpu_fcw == a.__fpu_fcw && b.__fpu_fsw == a.__fpu_fsw
            && b.__fpu_ftw == a.__fpu_ftw,
{
    law_low_half(v);
}

/// Setting the control, the status or the vector control register changes no other.
pub proof fn law_float_controls_are_set(a: FloatState64, b: FloatState64, v: u64, k: int)
    requires
        0 <= k < 16,
    ensures
        b.is_set(a, FloatRegister::Mxcsr, v) ==> b.__fpu_mxcsr == v as u32 && b.__fpu_fcw == a.__fpu_fcw
            && b.__fpu_fsw == a.__fpu_fsw && b.__fpu_xmm@[k]@ == a.__fpu_xmm@[k]@,
        b.is_set(a, FloatRegister::Fcw, v) ==> b.__fpu_fcw == v as u16 && b.__fpu_mxcsr == a.__fpu_mxcsr
            && b.__fpu_fsw == a.__fpu_fsw && b.__fpu_xmm@[k]@ == a.__fpu_xmm@[k]@,
        b.is_set(a, FloatRegister::Fsw, v) ==> b.__fpu_fsw == v as u16 && b.__fpu_mxcsr == a.__fpu_mxcsr
            && b.__fpu_fcw == a.__fpu_fcw && b.__fpu_xmm@[k]@ == a.__fpu_xmm@[k]@,
{
}

/// The names of a vector register of aarch64 differ in how many of its low bytes they stand for: eight by
/// `v`, `q` and `d`, four by `s`, two by `h` and one by `b`. Only by `v` and `q` the others become zero.
pub proof fn law_arm_vector_names(before: Seq<u8>, v: u64, c: char, i: int)
    requires
        before.len() == 16,
        0 <= i < 16,
    ensures
        (c == 'v' || c == 'q') ==> aarch64::view_width(c) == Some((8int, true)),
        c == 'd' ==> aarch64::view_width(c) == Some((8int, false)),
        c == 's' ==> aarch64::view_width(c) == Some((4int, false)),
        c == 'h' ==> aarch64::view_width(c) == Some((2int, false)),
        c == 'b' ==> aarch64::view_width(c) == Some((1int, false)),
        c != 'v' && c != 'q' && c != 'd' && c != 's' && c != 'h' && c != 'b' ==> aarch64::view_width(c) is None,
        aarch64::view_width(c) matches Some((w, clears)) ==> {
            let r = aarch64::low_bytes(before, v, w, clears);
            &&& r.len() == 16
            &&& i < w ==> r[i] == bytes::le_bytes(v as nat, 8)[i]
            &&& i >= w && clears ==> r[i] == 0
            &&& i >= w && !clears ==> r[i] == before[i]
        },
{
}

/// A vector register of aarch64 is named by a letter and a number below thirty-two.
pub proof fn law_arm_vector_numbers(c: char, n: nat)
    requires
        aarch64::view_width(c) is Some,
    ensures
        n < 32 ==> (aarch64::neon_register_named(seq![c] + numerals::dec(n)) matches Some(
            aarch64::NeonRegister::Vector { n: k, .. },
        ) && k == n),
        32 <= n <= usize::MAX ==> aarch64::neon_register_named(seq![c] + numerals::dec(n)) is None,
        aarch64::neon_register_named("fpsr"@) is Some && aarch64::neon_register_named("fpcr"@) is Some,
{
    reveal_strlit("fpsr");
    reveal_strlit("fpcr");
    assert("fpsr"@[0] == 'f' && "fpcr"@[0] == 'f');
    let s = seq![c] + numerals::dec(n);
    assert(s[0] == c);
    assert(s.skip(1) =~= numerals::dec(n));
    if n <= usize::MAX {
        numerals::law_number_is_read(n, 10, usize::MAX as nat);
    }
}

} // verus!
