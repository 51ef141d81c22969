use macos_c_debugger::arch::Arch;
use macos_c_debugger::commands::assign::parse_set;
use macos_c_debugger::commands::line::{
    command_of, help_text, leaks_command_of, Command, LeaksCommand,
};
use macos_c_debugger::commands::location::{
    is_identifier, named_file, parse_addr, resolve_list_target, resolve_location,
};
use macos_c_debugger::commands::show::{list_source, print_status};
use macos_c_debugger::commands::value::{format_value, parse_print};
use macos_c_debugger::debugger::WaitStatus;
use macos_c_debugger::disasm::{print, step_targets};
use macos_c_debugger::text::words_of;

#[test]
fn addresses() {
    assert_eq!(parse_addr("0x1f", None), Some(31));
    assert_eq!(parse_addr("17", None), Some(17));
    assert_eq!(parse_addr("base+0x10", Some(0x1000)), Some(0x1010));
    assert_eq!(parse_addr("base+16", Some(0x1000)), Some(0x1010));
    assert_eq!(parse_addr("base+16", None), None);
    assert_eq!(parse_addr("base+", Some(1)), None);
    assert_eq!(parse_addr("0x", None), None);
    assert_eq!(parse_addr("main", None), None);
    assert_eq!(parse_addr("0x10000000000000000", None), None);
}

#[test]
fn names() {
    assert!(is_identifier("main"));
    assert!(is_identifier("_a1"));
    assert!(is_identifier("\u{e4}b"));
    assert!(!is_identifier("1a"));
    assert!(!is_identifier(""));
    assert!(!is_identifier("a-b"));
}

#[test]
fn locations_without_symbols() {
    assert_eq!(resolve_location("0x20", None, None, None), Ok(0x20));
    assert_eq!(
        resolve_location("main", None, None, None),
        Err("no symbol/debug info loaded".to_string())
    );
    assert_eq!(
        resolve_location("a.c:3", None, None, None),
        Err("no symbol/debug info loaded".to_string())
    );
    assert_eq!(
        resolve_location("12", None, None, Some("a.c")),
        Err("no symbol/debug info loaded".to_string())
    );
}

#[test]
fn list_targets_without_symbols() {
    assert_eq!(
        resolve_list_target("7", Some("/a.c"), None, false),
        Ok(("/a.c".to_string(), 7))
    );
    assert_eq!(
        resolve_list_target("7", None, None, false),
        Err("no current source file; use list file:line or list symbol".to_string())
    );
    assert_eq!(
        resolve_list_target("a.c:x", None, None, true),
        Err("invalid line number: x".to_string())
    );
    assert_eq!(
        resolve_list_target("a.c:3", None, None, true),
        Err("no source info for a.c:3 (try full path or dsymutil)".to_string())
    );
    assert_eq!(named_file("dir/a.c:3"), Some("dir/a.c".to_string()));
    assert_eq!(named_file("main"), None);
}

#[test]
fn source_around_a_line() {
    let text = "one\r\ntwo\nthree\nfour\nfive\nsix\n";
    assert_eq!(
        list_source(text, "a.c", 2, 2),
        Some("a.c:2\n   1  one\n=> 2  two\n   3  three\n   4  four\n".to_string())
    );
    assert_eq!(
        list_source(text, "a.c", 6, 1),
        Some("a.c:6\n   5  five\n=> 6  six\n".to_string())
    );
    assert_eq!(list_source(text, "a.c", 7, 1), None);
    assert_eq!(list_source(text, "a.c", 0, 1), None);
    let long = "x\n".repeat(12);
    assert_eq!(
        list_source(&long, "b", 9, 1),
        Some("b:9\n    8  x\n=>  9  x\n   10  x\n".to_string())
    );
}

#[test]
fn values_in_every_format() {
    let f = |c: char, v: u64| format_value(Some(c), "1", v).unwrap();
    assert_eq!(f('x', 255), "0x00000000000000ff");
    assert_eq!(f('X', 255), "0x00000000000000FF");
    assert_eq!(f('a', 255), "0x00000000000000ff");
    assert_eq!(f('d', u64::MAX), "-1");
    assert_eq!(f('u', u64::MAX), "18446744073709551615");
    assert_eq!(f('o', 8), "0o10");
    assert_eq!(f('t', 5), "0b101");
    assert_eq!(f('c', 65), "65 'A'");
    assert_eq!(f('c', 10), "10 '\\x0a'");
    assert_eq!(f('c', 0xd800), "55296 '?'");
    assert_eq!(format_value(Some('q'), "1", 1), None);
    assert_eq!(
        format_value(None, "n", u64::MAX),
        Some("n = -1  (0xffffffffffffffff)".to_string())
    );
    assert_eq!(
        format_value(None, "1 + 1", 2),
        Some("0x0000000000000002  (2)".to_string())
    );
    assert_eq!(format_value(Some('d'), "n", 2), Some("n = 2".to_string()));
}

#[test]
fn what_print_is_asked_for() {
    let p = parse_print("p/x", "p/x $rax + 1\n");
    assert_eq!((p.fmt, p.expr.as_str()), (Some('x'), "$rax + 1"));
    let p = parse_print("p", "p /d  n ");
    assert_eq!((p.fmt, p.expr.as_str()), (Some('d'), "n"));
    let p = parse_print("print", "print n");
    assert_eq!((p.fmt, p.expr.as_str()), (None, "n"));
    let p = parse_print("p", "p");
    assert_eq!((p.fmt, p.expr.as_str()), (None, ""));
    let p = parse_print("p", "p /1");
    assert_eq!((p.fmt, p.expr.as_str()), (None, "/1"));
}

#[test]
fn what_set_is_asked_for() {
    assert_eq!(
        parse_set("set $rax = 1 == 2"),
        Some(("$rax".to_string(), "1 == 2".to_string()))
    );
    assert_eq!(parse_set("set"), None);
    assert_eq!(parse_set("set a"), None);
    assert_eq!(parse_set("set a ="), None);
    assert_eq!(parse_set("set = 1"), None);
}

#[test]
fn words_name_commands() {
    assert_eq!(command_of("c"), Command::Continue);
    assert_eq!(command_of("cont"), Command::Continue);
    assert_eq!(command_of("p/x"), Command::Print);
    assert_eq!(command_of("print/s"), Command::Print);
    assert_eq!(command_of("px"), Command::Unknown);
    assert_eq!(command_of("exit"), Command::Quit);
    assert_eq!(command_of("disassemble"), Command::Disassemble);
    assert_eq!(leaks_command_of(None), LeaksCommand::Show);
    assert_eq!(leaks_command_of(Some("start")), LeaksCommand::On);
    assert_eq!(leaks_command_of(Some("stop")), LeaksCommand::Off);
    assert_eq!(leaks_command_of(Some("x")), LeaksCommand::Unknown);
    assert!(help_text().starts_with("commands:\n  h, help                      show this help\n"));
    assert!(help_text().ends_with("  q, quit, exit                quit\n"));
    assert_eq!(words_of("  b \t main\u{3000}x\n"), vec!["b", "main", "x"]);
    assert!(words_of(" \n").is_empty());
}

#[test]
fn statuses_shown() {
    assert_eq!(
        print_status(WaitStatus::Stopped {
            signal: 5,
            pc: 0x10
        }),
        "Stopped: signal=5 pc=0x0000000000000010\n"
    );
    assert_eq!(print_status(WaitStatus::Exited { code: 3 }), "Exited: code=3\n");
    assert_eq!(
        print_status(WaitStatus::Signaled { signal: 9 }),
        "Signaled: signal=9\n"
    );
    assert_eq!(
        print_status(WaitStatus::Unknown { status: -1 }),
        "Unknown status: -1\n"
    );
}

#[test]
fn code_shown() {
    let s = print(&[0x55, 0x90], 0x1000, 2, Arch::X86_64).unwrap();
    let lines: Vec<&str> = s.lines().collect();
    assert_eq!(lines.len(), 2);
    assert_eq!(lines[0], "=> 0x0000000000001000: push     rbp");
    assert!(lines[1].starts_with("   0x0000000000001001: nop"));
    let a = print(&[0x1f, 0x20, 0x03, 0xd5], 0x1000, 1, Arch::Aarch64).unwrap();
    assert!(a.starts_with("=> 0x0000000000001000: nop"));
}

#[test]
fn where_an_instruction_leads() {
    assert_eq!(step_targets(&[0x90], 0x1000), vec![0x1001]);
    assert_eq!(step_targets(&[0x74, 0x10], 0x1000), vec![0x1002, 0x1012]);
    assert_eq!(step_targets(&[0xeb, 0x10], 0x1000), vec![0x1012]);
    assert_eq!(step_targets(&[0xe8, 0x0b, 0, 0, 0], 0x1000), vec![0x1010]);
    assert_eq!(step_targets(&[0xc3], 0x1000), vec![0x1001]);
    assert_eq!(step_targets(&[], 0x1000), vec![0x1001]);
}
