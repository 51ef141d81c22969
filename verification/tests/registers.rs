use macos_c_debugger::arch::Arch;
use macos_c_debugger::register::aarch64;
use macos_c_debugger::register::aarch64::{wcr_encode, ArmNeonState64};
use macos_c_debugger::register::x86_64;
use macos_c_debugger::register::x86_64::{dr7_clear_slot, dr7_set_slot, FloatState64};
use macos_c_debugger::register::{Registers, WatchCondition, WatchLen};

#[test]
fn architectures() {
    assert_eq!(Arch::X86_64.name(), "x86_64");
    assert_eq!(Arch::Aarch64.name(), "aarch64");
    assert_eq!(Arch::X86_64.bp_bytes(), vec![0xcc]);
    assert_eq!(Arch::Aarch64.bp_bytes().len(), Arch::Aarch64.bp_size());
    assert_eq!(Arch::Aarch64.bp_bytes(), 0xd420_0000u32.to_le_bytes().to_vec());
    assert_eq!(Arch::X86_64.bp_pc_offset(), 1);
    assert_eq!(Arch::Aarch64.bp_pc_offset(), 0);
    assert_eq!(Arch::from_cputype(0x0100_000c), Some(Arch::Aarch64));
    assert_eq!(Arch::from_cputype(Arch::X86_64.cputype()), Some(Arch::X86_64));
    assert_eq!(Arch::from_cputype(7), None);
}

#[test]
fn x86_registers_by_name() {
    let mut r = x86_64::ThreadState64::default();
    assert_eq!(r.set("RAX", 5), Some(()));
    assert_eq!(r.get("rax"), Some(5));
    assert_eq!(r.__rax, 5);
    assert_eq!(r.set("pc", 9), Some(()));
    assert_eq!(r.get("rip"), Some(9));
    let before = r;
    assert_eq!(r.set("x0", 1), None);
    assert_eq!(r.get("x0"), None);
    assert_eq!(r.__rax, before.__rax);
}

#[test]
fn x86_registers_shown() {
    let mut r = x86_64::ThreadState64::default();
    r.__rip = 0x1000;
    r.__r15 = 0xf;
    let text = Registers::X86(r).display();
    let lines: Vec<&str> = text.lines().collect();
    assert_eq!(lines.len(), 5);
    assert_eq!(
        lines[0],
        "  RIP: 0x0000000000001000  RSP: 0x0000000000000000  RBP: 0x0000000000000000"
    );
    assert_eq!(
        lines[4],
        "  R14: 0x0000000000000000  R15: 0x000000000000000f  RFLAGS: 0x0000000000000000"
    );
}

#[test]
fn arm_registers_by_name() {
    let mut r = aarch64::ThreadState64::default();
    assert_eq!(r.set("x28", 7), Some(()));
    assert_eq!(r.__x[28], 7);
    assert_eq!(r.get("X28"), Some(7));
    assert_eq!(r.set("x29", 7), None);
    assert_eq!(r.set("bp", 8), Some(()));
    assert_eq!(r.get("fp"), Some(8));
    assert_eq!(r.set("cpsr", 0x1_0000_0002), Some(()));
    assert_eq!(r.__cpsr, 2);
    let all = Registers::Arm(r);
    assert_eq!(all.bp(), 8);
    assert_eq!(all.get("x28"), Some(7));
}

#[test]
fn arm_registers_shown() {
    let mut r = aarch64::ThreadState64::default();
    r.__lr = 0x77;
    r.__x[4] = 0x44;
    let text = r.display();
    assert!(text.starts_with(
        "  PC:  0x0000000000000000  SP: 0x0000000000000000  FP: 0x0000000000000000  LR: 0x0000000000000077\n X00: 0x0000000000000000 "
    ));
    assert!(text.contains("\n X04: 0x0000000000000044 "));
    assert!(text.ends_with(" X28: 0x0000000000000000   CPSR: 0x00000000\n"));
}

#[test]
fn float_registers_by_name() {
    let mut f = FloatState64::default();
    assert_eq!(f.set("xmm3", 0x1122), Some(()));
    assert_eq!(f.__fpu_xmm[3][0], 0x22);
    assert_eq!(f.__fpu_xmm[3][1], 0x11);
    assert_eq!(f.set("MM2", 0xff), Some(()));
    assert_eq!(f.__fpu_stmm[2][0], 0xff);
    assert_eq!(f.set("st2", 1), Some(()));
    assert_eq!(f.__fpu_stmm[2][0], 1);
    assert_eq!(f.set("mxcsr", 0x1f80), Some(()));
    assert_eq!(f.__fpu_mxcsr, 0x1f80);
    assert_eq!(f.set("xmm16", 1), None);
    assert_eq!(f.set("ymm0", 1), None);
}

#[test]
fn extended_numbers_as_doubles() {
    let mut one = [0u8; 16];
    one[7] = 0x80;
    one[8] = 0xff;
    one[9] = 0x3f;
    assert_eq!(f64::from_bits(FloatState64::st_to_f64(&one)), 1.0);
    one[9] = 0xbf;
    assert_eq!(f64::from_bits(FloatState64::st_to_f64(&one)), -1.0);
    assert_eq!(FloatState64::st_to_f64(&[0u8; 16]), 0);
    one[8] = 0xff;
    one[9] = 0x7f;
    assert_eq!(f64::from_bits(FloatState64::st_to_f64(&one)), f64::INFINITY);
    one[0] = 1;
    assert!(f64::from_bits(FloatState64::st_to_f64(&one)).is_nan());
}

#[test]
fn float_registers_shown() {
    let mut f = FloatState64::default();
    f.__fpu_fcw = 0x37f;
    f.__fpu_mxcsr = 0x1f80;
    let mut values = Vec::new();
    for _ in 0..8 {
        values.push("0e0".to_string());
    }
    let text = f.display(&values);
    let lines: Vec<&str> = text.lines().collect();
    assert_eq!(
        lines[0],
        "  FCW: 0x037f  FSW: 0x0000  FTW: 0x00  MXCSR: 0x00001f80"
    );
    assert_eq!(lines[1], "  ST0/MM0: 0000 0000000000000000  (0e0)");
}

#[test]
fn vector_registers_by_name() {
    let mut n = ArmNeonState64::default();
    assert_eq!(n.set("v1", 0x11), Some(()));
    assert_eq!(n.v[1][0], 0x11);
    assert_eq!(n.set("fpcr", 3), Some(()));
    assert_eq!(n.fpcr, 3);
    assert_eq!(n.set("v32", 3), None);
    assert!(n
        .display()
        .starts_with("  FPSR: 0x00000000  FPCR: 0x00000003\n V00: "));
}

#[test]
fn watch_lengths_and_conditions() {
    for n in [1usize, 2, 4, 8] {
        assert_eq!(WatchLen::from_bytes(n).as_bytes(), n);
    }
    assert_eq!(WatchLen::from_bytes(3), WatchLen::Byte1);
    assert_eq!(WatchLen::QWord8.bits(), 2);
    assert_eq!(WatchLen::Dword4.bits(), 3);
    assert_eq!(WatchCondition::Write.bits(), 1);
    assert_eq!(WatchCondition::ReadWrite.bits(), 3);
}

#[test]
fn slots_of_the_control_register() {
    let one = dr7_set_slot(0, 1, WatchCondition::ReadWrite, WatchLen::QWord8);
    assert_eq!(one, 0x00b0_0004);
    let both = dr7_set_slot(one, 3, WatchCondition::Write, WatchLen::Byte1);
    assert_eq!(both & 0x00f0_000c, one & 0x00f0_000c);
    assert_eq!(dr7_clear_slot(both, 3), one);
}

#[test]
fn watch_words_of_aarch64() {
    let (addr, control) = wcr_encode(0x1004, WatchCondition::Write, WatchLen::Dword4);
    assert_eq!(addr, 0x1000);
    assert_eq!(control, 1 | (2 << 1) | (2 << 3) | (0xf0 << 5));
    let (_, control) = wcr_encode(0x1000, WatchCondition::ReadWrite, WatchLen::QWord8);
    assert_eq!(control, 1 | (2 << 1) | (3 << 3) | (0xff << 5));
}
