use macos_c_debugger::arch::Arch;
use macos_c_debugger::debug_info::{FrameBaseDef, VarLocation};
use macos_c_debugger::path::{dsym_file, file_name_of, find_debug_file};
use macos_c_debugger::stub_finder::{find_stubs, get_thin_slice};
use macos_c_debugger::symbols::Symbols;

fn u16le(v: &mut Vec<u8>, n: u16) {
    v.extend_from_slice(&n.to_le_bytes());
}

fn u32le(v: &mut Vec<u8>, n: u32) {
    v.extend_from_slice(&n.to_le_bytes());
}

fn u64le(v: &mut Vec<u8>, n: u64) {
    v.extend_from_slice(&n.to_le_bytes());
}

fn name16(v: &mut Vec<u8>, s: &str) {
    let mut b = s.as_bytes().to_vec();
    b.resize(16, 0);
    v.extend_from_slice(&b);
}

struct Section {
    seg: &'static str,
    name: &'static str,
    addr: u64,
    data: Vec<u8>,
    reserved1: u32,
    reserved2: u32,
}

fn section(seg: &'static str, name: &'static str, addr: u64, data: Vec<u8>) -> Section {
    Section {
        seg,
        name,
        addr,
        data,
        reserved1: 0,
        reserved2: 0,
    }
}

/// A 64-bit Mach-O file: one segment for each section, a symbol table and an indirect symbol table.
fn macho(sections: &[Section], symbols: &[(&str, u64)], indirect: &[u32]) -> Vec<u8> {
    let ncmds = sections.len() + 2;
    let cmds_size = sections.len() * 152 + 24 + 80;
    let mut at = 32 + cmds_size;
    let mut offsets = Vec::new();
    for s in sections {
        offsets.push(at);
        at += s.data.len();
    }
    let symoff = at;
    let stroff = symoff + 16 * symbols.len();
    let mut strings = vec![0u8];
    let mut strx = Vec::new();
    for (n, _) in symbols {
        strx.push(strings.len());
        strings.extend_from_slice(n.as_bytes());
        strings.push(0);
    }
    let indoff = stroff + strings.len();
    let mut v = Vec::new();
    u32le(&mut v, 0xfeed_facf);
    u32le(&mut v, 0x0100_0007);
    u32le(&mut v, 3);
    u32le(&mut v, 2);
    u32le(&mut v, ncmds as u32);
    u32le(&mut v, cmds_size as u32);
    u32le(&mut v, 0);
    u32le(&mut v, 0);
    for (i, s) in sections.iter().enumerate() {
        u32le(&mut v, 0x19);
        u32le(&mut v, 152);
        name16(&mut v, s.seg);
        u64le(&mut v, s.addr);
        u64le(&mut v, s.data.len() as u64);
        u64le(&mut v, offsets[i] as u64);
        u64le(&mut v, s.data.len() as u64);
        u32le(&mut v, 5);
        u32le(&mut v, 5);
        u32le(&mut v, 1);
        u32le(&mut v, 0);
        name16(&mut v, s.name);
        name16(&mut v, s.seg);
        u64le(&mut v, s.addr);
        u64le(&mut v, s.data.len() as u64);
        u32le(&mut v, offsets[i] as u32);
        for _ in 0..4 {
            u32le(&mut v, 0);
        }
        u32le(&mut v, s.reserved1);
        u32le(&mut v, s.reserved2);
        u32le(&mut v, 0);
    }
    u32le(&mut v, 2);
    u32le(&mut v, 24);
    u32le(&mut v, symoff as u32);
    u32le(&mut v, symbols.len() as u32);
    u32le(&mut v, stroff as u32);
    u32le(&mut v, strings.len() as u32);
    u32le(&mut v, 0xb);
    u32le(&mut v, 80);
    for k in 0..18 {
        if k == 12 {
            u32le(&mut v, indoff as u32);
        } else if k == 13 {
            u32le(&mut v, indirect.len() as u32);
        } else {
            u32le(&mut v, 0);
        }
    }
    for s in sections {
        v.extend_from_slice(&s.data);
    }
    for (i, (_, addr)) in symbols.iter().enumerate() {
        u32le(&mut v, strx[i] as u32);
        v.push(0x0f);
        v.push(1);
        u16le(&mut v, 0);
        u64le(&mut v, *addr);
    }
    v.extend_from_slice(&strings);
    for i in indirect {
        u32le(&mut v, *i);
    }
    v
}

fn text(v: &mut Vec<u8>, s: &str) {
    v.extend_from_slice(s.as_bytes());
    v.push(0);
}

fn abbreviations() -> Vec<u8> {
    let mut v = Vec::new();
    // A unit with its name, directory, line table and range.
    v.extend_from_slice(&[1, 0x11, 1, 3, 8, 0x1b, 8, 0x10, 0x17, 0x11, 1, 0x12, 6, 0, 0]);
    // A function with its name, range and frame base.
    v.extend_from_slice(&[2, 0x2e, 1, 3, 8, 0x11, 1, 0x12, 6, 0x40, 0x18, 0, 0]);
    // An argument and a variable, each with its name, place and type.
    v.extend_from_slice(&[3, 5, 0, 3, 8, 2, 0x18, 0x49, 0x13, 0, 0]);
    v.extend_from_slice(&[4, 0x34, 0, 3, 8, 2, 0x18, 0x49, 0x13, 0, 0]);
    // A base type with its name and size, and a structure with its name.
    v.extend_from_slice(&[5, 0x24, 0, 3, 8, 0x0b, 0x0b, 0, 0]);
    v.extend_from_slice(&[6, 0x13, 0, 3, 8, 0, 0]);
    v.push(0);
    v
}

fn unit() -> Vec<u8> {
    let mut v = Vec::new();
    u32le(&mut v, 0);
    u16le(&mut v, 4);
    u32le(&mut v, 0);
    v.push(8);
    v.push(1);
    text(&mut v, "hello.c");
    text(&mut v, "/work");
    u32le(&mut v, 0);
    u64le(&mut v, 0x1000);
    u32le(&mut v, 0x100);
    let int_at = v.len() as u32;
    v.push(5);
    text(&mut v, "int");
    v.push(4);
    v.push(6);
    text(&mut v, "point");
    v.push(2);
    text(&mut v, "main");
    u64le(&mut v, 0x1010);
    u32le(&mut v, 0x20);
    v.extend_from_slice(&[1, 0x9c]);
    v.push(3);
    text(&mut v, "argc");
    v.extend_from_slice(&[2, 0x91, 0x70]);
    u32le(&mut v, int_at);
    v.push(4);
    text(&mut v, "i");
    v.extend_from_slice(&[2, 0x91, 0x6c]);
    u32le(&mut v, int_at);
    v.push(0);
    v.push(4);
    text(&mut v, "total");
    v.extend_from_slice(&[9, 3]);
    u64le(&mut v, 0x4000);
    u32le(&mut v, int_at);
    v.push(0);
    let n = (v.len() - 4) as u32;
    v[0..4].copy_from_slice(&n.to_le_bytes());
    v
}

/// A line table whose program ends with `last`.
fn line_table(last: &[u8]) -> Vec<u8> {
    let mut h = Vec::new();
    h.extend_from_slice(&[1, 1, 1, 0xfb, 14, 13]);
    h.extend_from_slice(&[0, 1, 1, 1, 1, 0, 0, 0, 1, 0, 0, 1]);
    text(&mut h, "sub");
    h.push(0);
    text(&mut h, "hello.c");
    h.extend_from_slice(&[0, 0, 0]);
    text(&mut h, "other.c");
    h.extend_from_slice(&[1, 0, 0]);
    h.push(0);
    let mut p = Vec::new();
    // Line 4 at 0x1010, line 5 at 0x1018 where the prologue ends, line 7 of the other file at 0x1020.
    p.extend_from_slice(&[0, 9, 2]);
    u64le(&mut p, 0x1010);
    p.extend_from_slice(&[3, 3, 1]);
    p.extend_from_slice(&[2, 8, 3, 1, 0x0a, 1]);
    p.extend_from_slice(&[4, 2, 2, 8, 3, 2, 1]);
    p.extend_from_slice(&[2, 0x10, 0, 1, 1]);
    p.extend_from_slice(last);
    let mut v = Vec::new();
    u32le(&mut v, 0);
    u16le(&mut v, 4);
    u32le(&mut v, h.len() as u32);
    v.extend_from_slice(&h);
    v.extend_from_slice(&p);
    let n = (v.len() - 4) as u32;
    v[0..4].copy_from_slice(&n.to_le_bytes());
    v
}

fn program() -> Vec<u8> {
    let mut stubs = section("__TEXT", "__stubs", 0x2000, vec![0; 18]);
    stubs.reserved1 = 0;
    stubs.reserved2 = 6;
    let sections = [
        section("__TEXT", "__text", 0x1000, vec![0x90; 16]),
        stubs,
    ];
    let symbols = [
        ("__mh_execute_header", 0x1000u64),
        ("_main", 0x1010),
        ("_helper", 0x1030),
        ("_malloc", 0),
        ("_free", 0),
    ];
    macho(&sections, &symbols, &[3, 4, 1])
}

fn debug_file() -> Vec<u8> {
    debug_file_of(abbreviations(), unit(), line_table(&[]))
}

fn debug_file_of(abbrev: Vec<u8>, info: Vec<u8>, line: Vec<u8>) -> Vec<u8> {
    let sections = [
        section("__DWARF", "__debug_abbrev", 0, abbrev),
        section("__DWARF", "__debug_info", 0, info),
        section("__DWARF", "__debug_line", 0, line),
    ];
    macho(&sections, &[], &[])
}

fn loaded() -> Symbols {
    let p = program();
    let d = debug_file();
    match Symbols::load(&p, Arch::X86_64, "prog.dSYM", Some(&d)) {
        Ok(s) => s,
        Err(e) => panic!("{}", e),
    }
}

#[test]
fn symbols_of_a_program() {
    let s = loaded();
    assert_eq!(s.symbol_count(), 5);
    assert_eq!(s.text_vmaddr, 0x1000);
    assert_eq!(s.find_symbol("main"), Some(0x1010));
    assert_eq!(s.find_symbol("_main"), Some(0x1010));
    assert_eq!(s.find_symbol("nothing"), None);
    assert_eq!(s.find_symbol_for_addr(0x1014), Some(("_main", 4)));
    assert_eq!(s.find_symbol_for_addr(0x1008), None);
    assert_eq!(s.slide(0x5000), 0x4000);
}

#[test]
fn a_file_that_is_no_program() {
    assert!(Symbols::load(b"no object", Arch::X86_64, "", None).is_err());
}

/// A 64-bit Windows image with one section and one symbol in it.
fn windows_image(base: u64) -> Vec<u8> {
    let mut v = b"MZ".to_vec();
    v.resize(60, 0);
    u32le(&mut v, 64);
    v.extend_from_slice(b"PE\0\0");
    u16le(&mut v, 0x8664);
    u16le(&mut v, 1);
    u32le(&mut v, 0);
    u32le(&mut v, 64 + 24 + 112 + 40);
    u32le(&mut v, 1);
    u16le(&mut v, 112);
    u16le(&mut v, 2);
    let optional = v.len();
    u16le(&mut v, 0x20b);
    v.resize(optional + 24, 0);
    u64le(&mut v, base);
    v.resize(optional + 112, 0);
    let header = v.len();
    v.extend_from_slice(b".text\0\0\0");
    u32le(&mut v, 0x100);
    u32le(&mut v, 0x1000);
    v.resize(header + 40, 0);
    v.extend_from_slice(b"start\0\0\0");
    u32le(&mut v, 0x20);
    u16le(&mut v, 1);
    u16le(&mut v, 0);
    v.push(2);
    v.push(0);
    u32le(&mut v, 4);
    v
}

#[test]
fn addresses_of_a_windows_image() {
    let start = |base: u64| match Symbols::load(&windows_image(base), Arch::X86_64, "", None) {
        Ok(s) => s.find_symbol("start"),
        Err(e) => panic!("{}", e),
    };
    assert_eq!(start(0x1_4000_0000), Some(0x1_4000_1020));
    assert_eq!(start(u64::MAX - 0x1020), Some(u64::MAX));
    assert_eq!(start(u64::MAX), Some(0x101f));
}

#[test]
fn lines_of_a_program() {
    let s = loaded();
    assert_eq!(s.line_row_count(), 4);
    assert_eq!(s.find_line("hello.c", 4), Some(0x1010));
    assert_eq!(s.find_line("/any/where/hello.c", 5), Some(0x1018));
    assert_eq!(s.find_line("hello.c", 1), Some(0x1010));
    assert_eq!(s.find_line("hello.c", 6), None);
    assert_eq!(s.find_line("missing.c", 4), None);
    assert_eq!(s.find_location(0x1014), Some(("/work/hello.c".to_string(), 4)));
    assert_eq!(
        s.find_location(0x1020),
        Some(("/work/sub/other.c".to_string(), 7))
    );
    assert_eq!(s.find_location(0x1030), None);
    assert_eq!(s.skip_prologue(0x1010), 0x1018);
    assert_eq!(s.skip_prologue(0x1030), 0x1030);
}

/// The symbols of the program with such debug information.
fn loaded_with(debug: Vec<u8>) -> Symbols {
    match Symbols::load(&program(), Arch::X86_64, "hello.dSYM", Some(&debug)) {
        Ok(s) => s,
        Err(e) => panic!("{}", e),
    }
}

/// An instruction that advances the line, by a number of ten bytes.
fn advance(first: u8, rest: u8, last: u8) -> Vec<u8> {
    let mut v = vec![3, first];
    v.extend_from_slice(&[rest; 8]);
    v.push(last);
    v
}

#[test]
fn an_advance_by_the_least_number() {
    let least = advance(0x80, 0x80, 0x7f);
    let most = advance(0xff, 0xff, 0x00);
    let at = |p: &mut Vec<u8>, addr: u64| {
        p.extend_from_slice(&[0, 9, 2]);
        u64le(p, addr);
    };
    let mut p = Vec::new();
    // The line goes down to zero, and up again to seven.
    at(&mut p, 0x1040);
    p.extend_from_slice(&least);
    p.extend_from_slice(&[3, 7, 1]);
    // It goes up by more than the least number, down by it, and again.
    at(&mut p, 0x1050);
    p.extend_from_slice(&[3, 2]);
    p.extend_from_slice(&most);
    p.extend_from_slice(&least);
    p.push(1);
    p.extend_from_slice(&least);
    p.extend_from_slice(&[3, 3, 1]);
    p.extend_from_slice(&[2, 0x10, 0, 1, 1]);
    let s = loaded_with(debug_file_of(abbreviations(), unit(), line_table(&p)));
    assert_eq!(s.line_row_count(), 8);
    assert_eq!(s.find_line("hello.c", 4), Some(0x1010));
    assert_eq!(s.find_location(0x1040), Some(("/work/hello.c".to_string(), 7)));
    assert_eq!(s.find_line("hello.c", 8), Some(0x1050));
    assert_eq!(s.find_location(0x1050), Some(("/work/hello.c".to_string(), 3)));
    assert!(s.find_variable("i", 0x1010).is_some());
    // The same bytes inside an operand are none.
    let mut p = vec![0, 12, 0x7f];
    p.extend_from_slice(&least);
    at(&mut p, 0x1040);
    p.extend_from_slice(&least);
    p.extend_from_slice(&[3, 9, 1, 2, 0x10, 0, 1, 1]);
    let s = loaded_with(debug_file_of(abbreviations(), unit(), line_table(&p)));
    assert_eq!(s.line_row_count(), 6);
    assert_eq!(s.find_location(0x1040), Some(("/work/hello.c".to_string(), 9)));
}

#[test]
fn a_name_by_an_index_out_of_bounds() {
    // A unit of one variable; its name and the variable's are indices of strings that are not there.
    let abbrev = vec![
        1, 0x11, 1, 3, 0x1a, 0x1b, 8, 0, 0, 2, 0x34, 0, 3, 0x1a, 2, 0x18, 0, 0, 0,
    ];
    let mut index = vec![0x80u8; 8];
    index.push(0x40);
    let mut v = Vec::new();
    u32le(&mut v, 0);
    u16le(&mut v, 4);
    u32le(&mut v, 0);
    v.push(8);
    v.push(1);
    v.extend_from_slice(&index);
    text(&mut v, "/work");
    v.push(2);
    v.extend_from_slice(&index);
    v.extend_from_slice(&[2, 0x91, 0x6c]);
    v.push(0);
    let n = (v.len() - 4) as u32;
    v[0..4].copy_from_slice(&n.to_le_bytes());
    let s = loaded_with(debug_file_of(abbrev, v, Vec::new()));
    assert!(s.global_variables().is_empty());
    assert!(s.print_debug_info(None).contains("/work"));
}

#[test]
fn variables_of_a_program() {
    let s = loaded();
    let v = s.find_variable("i", 0x1014).unwrap();
    assert_eq!(v.location, VarLocation::FrameOffset(-20));
    assert_eq!(v.byte_size, 4);
    assert_eq!(v.frame_base, FrameBaseDef::CallFrameCfa);
    assert!(s.find_variable("i", 0x1030).is_none());
    let g = s.find_variable("total", 0x1030).unwrap();
    assert_eq!(g.location, VarLocation::Addr(0x4000));
    assert_eq!(s.locals_at_pc(0x1014).len(), 1);
    assert_eq!(s.args_at_pc(0x1014)[0].name, "argc");
    assert_eq!(s.global_variables()[0].name, "total");
}

#[test]
fn what_is_shown_of_symbols() {
    let s = loaded();
    assert_eq!(
        s.print_symbols(Some("MAIN")),
        "0x0000000000001010  _main  (/work/hello.c:4)\n"
    );
    assert!(s.print_symbols(None).contains("0x0000000000001030  _helper\n"));
    let lines = s.print_lines(None);
    assert!(lines.contains("0x0000000000001018  /work/hello.c:5"));
    assert!(lines.contains("(prologue_end)"));
    assert!(!s.print_lines(Some("other")).contains("hello.c:5"));
    assert_eq!(s.type_count(), 2);
    let info = s.print_debug_info(Some(0x5000));
    assert!(info.starts_with("debug file: prog.dSYM\ntext vmaddr: 0x0000000000001000\nimage base: 0x0000000000005000\nslide: 0x0000000000004000\nsymbols: 5\nline rows: 4\ntypes: 2\n"));
    assert!(info.contains("/work"));
    assert!(info.contains("int"));
    assert!(info.contains("struct point"));
}

#[test]
fn stubs_of_a_program() {
    let p = program();
    let found = find_stubs(&p, &["malloc", "free", "calloc"], Arch::X86_64);
    assert_eq!(found.get("malloc"), Some(&0x2000));
    assert_eq!(found.get("free"), Some(&0x2006));
    assert_eq!(found.get("calloc"), None);
    // A function that is there but not wanted.
    assert_eq!(found.get("main"), None);
    let s = loaded();
    assert_eq!(s.stub_address("malloc", 0x5000), Some(0x6000));
    assert_eq!(s.stub_address("realloc", 0x5000), None);
    assert_eq!(find_stubs(b"short", &["malloc"], Arch::X86_64).get("malloc"), None);
}

#[test]
fn a_file_for_two_architectures() {
    let p = program();
    let mut fat = Vec::new();
    for n in [0xcafe_babeu32, 2, 0x0100_000c, 0, 64, 4, 0, 0x0100_0007, 3, 68, p.len() as u32, 0] {
        fat.extend_from_slice(&n.to_be_bytes());
    }
    fat.resize(64, 0);
    fat.extend_from_slice(b"arm!");
    fat.extend_from_slice(&p);
    assert_eq!(get_thin_slice(&fat, Arch::Aarch64), b"arm!");
    assert_eq!(get_thin_slice(&fat, Arch::X86_64), &p[..]);
    assert_eq!(get_thin_slice(&p, Arch::X86_64), &p[..]);
    let found = find_stubs(&fat, &["free"], Arch::X86_64);
    assert_eq!(found.get("free"), Some(&0x2006));
    assert_eq!(find_stubs(&fat, &["free"], Arch::Aarch64).get("free"), None);
}

#[test]
fn paths_of_debug_files() {
    assert_eq!(file_name_of("/a/b.c"), Some("b.c".to_string()));
    assert_eq!(file_name_of("/a/b/"), Some("b".to_string()));
    assert_eq!(file_name_of("/"), None);
    assert_eq!(file_name_of(".."), None);
    assert_eq!(
        dsym_file("/bin/prog"),
        Some("/bin/prog.dSYM/Contents/Resources/DWARF/prog".to_string())
    );
    assert_eq!(find_debug_file("/bin/prog", false), "/bin/prog");
    assert_eq!(
        find_debug_file("/bin/prog", true),
        "/bin/prog.dSYM/Contents/Resources/DWARF/prog"
    );
}
