use macos_c_debugger::addr_map::AddrMap;
use macos_c_debugger::arch::Arch;
use macos_c_debugger::breakpoint::Breakpoint;
use macos_c_debugger::bytes::{be_u64, le_u64, u64_to_le};
use macos_c_debugger::debug_info::{
    decode_sleb128, entry_pc_range, format_type_name, parse_frame_base, parse_var_location,
    resolve_type_info, FrameBaseDef, TypeDie, VarLocation,
};
use macos_c_debugger::dwarf::Attr;
use macos_c_debugger::mach::{
    clear_hw_breakpoint_slot, clear_hw_watchpoint_slot, clear_watchpoint_slot, edit_slot,
    set_hw_breakpoint_slot, set_hw_watchpoint_slot, set_watchpoint_slot, write_word, SlotEdit,
};
use macos_c_debugger::names::NameSet;
use macos_c_debugger::numerals::{dec_string, push_hex, push_numeral, push_signed, read_number};
use macos_c_debugger::register::aarch64::{ArmDebugState64, HW_BP_BCR_ENABLE};
use macos_c_debugger::register::x86_64::X86DebugState64;
use macos_c_debugger::register::{WatchCondition, WatchLen};
use macos_c_debugger::tape::{Answer, DebugState, Halt, Request, Tape};
use macos_c_debugger::text::{lines_of, words_of};

fn chars(s: &str) -> Vec<char> {
    s.chars().collect()
}

#[test]
fn numerals_are_read_back() {
    for n in [0u64, 7, 255, 1_000_000, u64::MAX] {
        for radix in [2u64, 8, 10, 16] {
            let mut s = String::new();
            push_numeral(&mut s, n, radix);
            assert_eq!(read_number(&chars(&s), radix, u64::MAX), Some(n));
        }
    }
    assert_eq!(dec_string(90), "90");
    let mut s = String::new();
    push_signed(&mut s, i64::MIN);
    push_hex(&mut s, 255);
    assert_eq!(s, "-92233720368547758080xff");
    assert_eq!(read_number(&chars("+12"), 10, 100), Some(12));
    assert_eq!(read_number(&chars("101"), 10, 100), None);
    assert_eq!(read_number(&chars(""), 10, 100), None);
    assert_eq!(read_number(&chars("1g"), 16, 100), None);
}

#[test]
fn numbers_in_bytes() {
    assert_eq!(le_u64(&[1, 2]), 0x0201);
    assert_eq!(be_u64(&[1, 2]), 0x0102);
    assert_eq!(u64_to_le(0x0102_0304, 2), vec![4, 3]);
    assert_eq!(le_u64(&u64_to_le(0x1122_3344_5566_7788, 8)), 0x1122_3344_5566_7788);
}

#[test]
fn names_stand_in_order() {
    let mut n = NameSet::new();
    for s in ["pear", "apple", "fig", "apple"] {
        n.insert(s.to_string());
    }
    assert_eq!(n.list, vec!["apple", "fig", "pear"]);
}

#[test]
fn addresses_stand_in_order() {
    let mut m: AddrMap<u8> = AddrMap::new();
    m.insert(9, 1);
    m.insert(3, 2);
    m.insert(9, 3);
    assert_eq!(m.keys(), vec![3, 9]);
    assert_eq!(m.get(9), Some(&3));
    assert_eq!(m.len(), 2);
    assert_eq!(m.remove(3), Some(2));
    assert_eq!(m.remove(3), None);
    assert!(!m.contains_key(3));
    m.clear();
    assert_eq!(m.len(), 0);
}

#[test]
fn lines_of_texts() {
    assert_eq!(lines_of("a\nb\r\n\nc\r"), vec!["a", "b", "", "c\r"]);
    assert!(lines_of("").is_empty());
}

#[test]
fn signed_numbers_of_debug_information() {
    assert_eq!(decode_sleb128(&[0x02]), Some((2, 1)));
    assert_eq!(decode_sleb128(&[0x7e]), Some((-2, 1)));
    assert_eq!(decode_sleb128(&[0xff, 0x00, 9]), Some((127, 2)));
    assert_eq!(decode_sleb128(&[0x80, 0x7f]), Some((-128, 2)));
    assert_eq!(decode_sleb128(&[0x80]), None);
    assert_eq!(decode_sleb128(&[]), None);
}

#[test]
fn places_of_debug_information() {
    assert_eq!(
        parse_var_location(&Attr::Exprloc(vec![0x91, 0x6c])),
        Some(VarLocation::FrameOffset(-20))
    );
    assert_eq!(
        parse_var_location(&Attr::Exprloc(vec![3, 0, 0x40, 0, 0, 0, 0, 0, 0])),
        Some(VarLocation::Addr(0x4000))
    );
    assert_eq!(parse_var_location(&Attr::Exprloc(vec![0x50])), None);
    assert_eq!(parse_var_location(&Attr::Udata(1)), None);
    assert_eq!(
        parse_frame_base(&Attr::Exprloc(vec![0x9c])),
        FrameBaseDef::CallFrameCfa
    );
    assert_eq!(
        parse_frame_base(&Attr::Exprloc(vec![0x56])),
        FrameBaseDef::Register
    );
    assert_eq!(entry_pc_range(&Attr::Addr(16), &Attr::Addr(32)), Some((16, 32)));
    assert_eq!(entry_pc_range(&Attr::Addr(16), &Attr::Udata(32)), Some((16, 48)));
    assert_eq!(entry_pc_range(&Attr::Other, &Attr::Udata(32)), None);
    assert_eq!(entry_pc_range(&Attr::Addr(16), &Attr::Other), None);
}

#[test]
fn types_of_debug_information() {
    let die = |tag: u16, name: &str, size: Attr<Vec<u8>>| TypeDie {
        tag,
        name: Some(name.as_bytes().to_vec()),
        byte_size: size,
    };
    let chain = [die(0x16, "count_t", Attr::Other), die(0x24, "int", Attr::Udata(4))];
    assert_eq!(resolve_type_info(&chain), (4, "count_t".to_string()));
    assert_eq!(resolve_type_info(&[die(0x0f, "p", Attr::Other)]).0, 8);
    assert_eq!(resolve_type_info(&[die(0x24, "big", Attr::Udata(16))]).0, 8);
    assert_eq!(resolve_type_info(&[]), (8, String::new()));
    assert_eq!(format_type_name(0x13, "point"), Some("struct point".to_string()));
    assert_eq!(format_type_name(0x24, "int"), Some("int".to_string()));
    assert_eq!(format_type_name(0x34, "x"), None);
}

#[test]
fn an_operation_stops_where_the_answers_end() {
    let mut b = Breakpoint::new(0x10, Arch::X86_64);
    let mut io = Tape::new(vec![Answer::Bytes(vec![0x55])]);
    match b.enable(&mut io, Arch::X86_64) {
        Err(Halt::Ask(Request::Region { addr })) => assert_eq!(addr, 0x10),
        _ => panic!("something else was asked"),
    }
    assert!(!b.is_enabled());
    let region = Answer::Region {
        addr: 0,
        size: 0x1000,
        prot: 7,
        max_prot: 7,
    };
    let mut io = Tape::new(vec![Answer::Bytes(vec![0x55]), region.clone(), Answer::Code(0)]);
    assert!(b.enable(&mut io, Arch::X86_64).is_ok());
    assert!(b.is_enabled());
    assert_eq!(b.saved_bytes(), &[0x55]);
    assert_eq!(b.addr(), 0x10);
    let mut io = Tape::new(vec![region, Answer::Code(2)]);
    match b.disable(&mut io, Arch::X86_64) {
        Err(Halt::Fail(m)) => assert_eq!(m, "mach_vm_write: error 2"),
        _ => panic!("no failure"),
    }
    assert!(b.is_enabled());
    let mut io = Tape::new(vec![Answer::Done]);
    let mut c = Breakpoint::new(0x10, Arch::X86_64);
    match c.enable(&mut io, Arch::X86_64) {
        Err(Halt::Fail(m)) => assert_eq!(m, "unexpected answer"),
        _ => panic!("no failure"),
    }
    assert!(Breakpoint::new_hw_enabled(0x10, Arch::Aarch64).is_enabled());
}

#[test]
fn clearing_a_slot_undoes_setting_it() {
    let none = X86DebugState64 {
        __dr0: 0,
        __dr1: 0,
        __dr2: 0,
        __dr3: 0,
        __dr4: 0,
        __dr5: 0,
        __dr6: 0,
        __dr7: 0,
    };
    let set = edit_slot(
        DebugState::X86(none),
        SlotEdit::SetWatch {
            slot: 2,
            addr: 0x2000,
            cond: WatchCondition::Write,
            len: WatchLen::Byte1,
        },
    );
    let set = match set {
        Some(DebugState::X86(s)) => s,
        _ => panic!("not set"),
    };
    assert_eq!(set.__dr2, 0x2000);
    assert_eq!(set.__dr7, 0x0100_0010);
    match edit_slot(DebugState::X86(set), SlotEdit::ClearWatch { slot: 2 }) {
        Some(DebugState::X86(s)) => {
            assert_eq!(s.__dr2, 0);
            assert_eq!(s.__dr7, 0);
        }
        _ => panic!("not cleared"),
    }
    assert!(edit_slot(DebugState::X86(none), SlotEdit::ClearBreak { slot: 0 }).is_none());
}

fn arm_state(fill: u64) -> ArmDebugState64 {
    ArmDebugState64 {
        bvr: [fill; 16],
        bcr: [fill; 16],
        wvr: [fill; 16],
        wcr: [fill; 16],
        mdscr_el1: 1,
    }
}

fn written(r: Result<(), Halt<Vec<u8>, String, DebugState>>) -> ArmDebugState64 {
    match r {
        Err(Halt::Ask(Request::SetDebug { port: 9, state: DebugState::Arm(s) })) => s,
        _ => panic!("nothing was written"),
    }
}

#[test]
fn slots_of_an_arm_thread() {
    let tape = |fill: u64| Tape::new(vec![Answer::Debug(DebugState::Arm(arm_state(fill)))]);
    let s = written(set_hw_breakpoint_slot(&mut tape(0), 9, 15, 0x4000));
    assert_eq!((s.bvr[15], s.bcr[15]), (0x4000, HW_BP_BCR_ENABLE));
    assert_eq!((s.bvr[14], s.bcr[14], s.wvr[15], s.mdscr_el1), (0, 0, 0, 1));
    let s = written(clear_hw_breakpoint_slot(&mut tape(7), 9, 3));
    assert_eq!((s.bvr[3], s.bcr[3], s.bvr[2], s.wvr[3]), (0, 0, 7, 7));
    let s = written(set_hw_watchpoint_slot(
        &mut tape(0),
        9,
        1,
        0x1004,
        WatchCondition::Write,
        WatchLen::Dword4,
    ));
    assert_eq!((s.wvr[1], s.bvr[1], s.wcr[0]), (0x1000, 0, 0));
    assert_eq!((s.wcr[1] >> 5) & 0xff, 0xf0);
    // Of four bytes at the sixth two are in the doubleword.
    let s = written(set_hw_watchpoint_slot(
        &mut tape(0),
        9,
        1,
        0x1006,
        WatchCondition::Write,
        WatchLen::Dword4,
    ));
    assert_eq!(((s.wcr[1] >> 5) & 0xff, s.wvr[1]), (0xc0, 0x1000));
    let s = written(clear_hw_watchpoint_slot(&mut tape(7), 9, 1));
    assert_eq!((s.wvr[1], s.wcr[1], s.wvr[0], s.bvr[1]), (0, 0, 7, 7));
}

#[test]
fn slots_of_an_intel_thread() {
    let none = X86DebugState64 {
        __dr0: 0,
        __dr1: 0,
        __dr2: 0,
        __dr3: 0,
        __dr4: 0,
        __dr5: 0,
        __dr6: 0,
        __dr7: 0,
    };
    let mut io = Tape::new(vec![Answer::Debug(DebugState::X86(none))]);
    let set = match set_watchpoint_slot(&mut io, 9, 0, 0x3000, WatchCondition::Write, WatchLen::Byte1) {
        Err(Halt::Ask(Request::SetDebug { port: 9, state: DebugState::X86(s) })) => s,
        _ => panic!("nothing was written"),
    };
    assert_eq!((set.__dr0, set.__dr7), (0x3000, 0x0001_0001));
    let mut io = Tape::new(vec![Answer::Debug(DebugState::X86(set)), Answer::Code(0)]);
    assert!(clear_watchpoint_slot(&mut io, 9, 0).is_ok());
    let mut io = Tape::new(vec![Answer::Debug(DebugState::X86(set))]);
    match clear_watchpoint_slot(&mut io, 9, 0) {
        Err(Halt::Ask(Request::SetDebug { port: 9, state: DebugState::X86(s) })) => {
            assert_eq!((s.__dr0, s.__dr7), (0, 0));
        }
        _ => panic!("nothing was written"),
    }
}

#[test]
fn words_are_written_low_byte_first() {
    let mut asked: Vec<Vec<u8>> = Vec::new();
    let region = Answer::Region {
        addr: 0,
        size: 0x1000,
        prot: 3,
        max_prot: 7,
    };
    let mut io = Tape::new(vec![region]);
    if let Err(Halt::Ask(Request::Write { addr: 0x20, data })) =
        write_word(&mut io, 0x20, 0x1122_3344, Arch::X86_64)
    {
        asked.push(data);
    }
    assert_eq!(asked, vec![vec![0x44, 0x33, 0x22, 0x11]]);
}

#[test]
fn words_stand_between_blanks() {
    let blanks = [
        '\t', '\n', '\u{b}', '\u{c}', '\r', ' ', '\u{85}', '\u{a0}', '\u{1680}', '\u{2000}',
        '\u{2001}', '\u{2002}', '\u{2003}', '\u{2004}', '\u{2005}', '\u{2006}', '\u{2007}',
        '\u{2008}', '\u{2009}', '\u{200a}', '\u{2028}', '\u{2029}', '\u{202f}', '\u{205f}',
        '\u{3000}',
    ];
    for c in blanks {
        assert_eq!(words_of(&format!("a{}b", c)), vec!["a", "b"]);
    }
    for c in ['\u{8}', '\u{180e}', '\u{200b}', '\u{feff}'] {
        assert_eq!(words_of(&format!("a{}b", c)).len(), 1);
    }
    let n = (0..=0x10ffffu32)
        .filter_map(char::from_u32)
        .filter(|c| c.is_whitespace())
        .count();
    assert_eq!(n, blanks.len());
}
