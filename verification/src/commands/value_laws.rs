//! What holds of the commands that print and set values.
use crate::arch::Arch;
use crate::breakpoint;
use crate::bytes;
use crate::commands::assign;
use crate::commands::assign::Target;
use crate::commands::location;
use crate::commands::show::ReportSeq;
use crate::commands::value;
use crate::commands::variables;
use crate::debug_info::{VarLocation, Variable};
use crate::debugger::Dbg;
use crate::mach;
use crate::numerals;
use crate::register::{aarch64, x86_64, Floats, Registers};
use crate::symbols::Symbols;
use crate::tape::{AnsSeq, Got, Halt, Request, Rest, StopSeq};
use crate::text;
use vstd::prelude::*;

verus! {

/// A value as a signed number: in two's complement.
pub open spec fn signed(v: u64) -> int {
    if v < 0x8000_0000_0000_0000 {
        v as int
    } else {
        v - 0x1_0000_0000_0000_0000
    }
}

proof fn lemma_signed(v: u64)
    ensures
        (v as i64) as int == signed(v),
{
    assert(v < 0x8000_0000_0000_0000u64 ==> (v as i64) as int == v as int) by (bit_vector);
    assert(v >= 0x8000_0000_0000_0000u64 ==> (v as i64) as int == v as int - 0x1_0000_0000_0000_0000)
        by (bit_vector);
}

/// What a format shows of a value that is no variable: the digits in the base that the letter stands for,
/// behind the mark of that base.
pub proof fn law_formats(expr: Seq<char>, v: u64)
    requires
        !location::is_name(expr),
    ensures
        value::formatted(Some('x'), expr, v) == Some(numerals::addr_text(v as nat)),
        value::formatted(Some('a'), expr, v) == Some(numerals::addr_text(v as nat)),
        value::formatted(Some('X'), expr, v) == Some(
            "0x"@ + numerals::pad_left(numerals::upper_hex(v as nat), 16, '0'),
        ),
        value::formatted(Some('d'), expr, v) == Some(numerals::signed_dec(signed(v))),
        value::formatted(Some('u'), expr, v) == Some(numerals::numeral(v as nat, 10)),
        value::formatted(Some('o'), expr, v) == Some("0o"@ + numerals::numeral(v as nat, 8)),
        value::formatted(Some('t'), expr, v) == Some("0b"@ + numerals::numeral(v as nat, 2)),
        value::formatted(None, expr, v) == Some(
            numerals::addr_text(v as nat) + "  ("@ + numerals::numeral(v as nat, 10) + ")"@,
        ),
        value::formatted(Some('q'), expr, v) is None,
{
    lemma_signed(v);
    let e = Seq::<char>::empty();
    assert(e + numerals::addr_text(v as nat) =~= numerals::addr_text(v as nat));
    assert(e + "0x"@ + numerals::pad_left(numerals::upper_hex(v as nat), 16, '0') =~= "0x"@
        + numerals::pad_left(numerals::upper_hex(v as nat), 16, '0'));
    assert(e + numerals::signed_dec(signed(v)) =~= numerals::signed_dec(signed(v)));
    assert(e + numerals::dec(v as nat) =~= numerals::numeral(v as nat, 10));
    assert(e + "0o"@ + numerals::numeral(v as nat, 8) =~= "0o"@ + numerals::numeral(v as nat, 8));
    assert(e + "0b"@ + numerals::numeral(v as nat, 2) =~= "0b"@ + numerals::numeral(v as nat, 2));
}

/// The value of a variable has its name and an equals sign before it, in every format; without a format it
/// is shown as a signed number first, and in hexadecimal.
pub proof fn law_formats_of_variables(name: Seq<char>, v: u64, fmt: char)
    requires
        location::is_name(name),
    ensures
        value::formatted(None, name, v) == Some(
            name + " = "@ + numerals::signed_dec(signed(v)) + "  ("@ + ("0x"@ + numerals::numeral(
                v as nat,
                16,
            )) + ")"@,
        ),
        value::formatted(Some(fmt), name, v) matches Some(s) ==> (name + " = "@).is_prefix_of(s),
        value::formatted(Some(fmt), name, v) is Some <==> (fmt == 'x' || fmt == 'X' || fmt == 'd' || fmt
            == 'u' || fmt == 'o' || fmt == 't' || fmt == 'c' || fmt == 'a'),
{
    lemma_signed(v);
    let p = name + " = "@;
    if let Some(s) = value::formatted(Some(fmt), name, v) {
        assert(s.take(p.len() as int) =~= p);
    }
}

/// A value as a character: its number, and the character of its low half where that can be printed.
pub proof fn law_character(v: u64, expr: Seq<char>)
    requires
        !location::is_name(expr),
    ensures
        0x20 <= v <= 0x7e ==> value::formatted(Some('c'), expr, v) == Some(
            numerals::signed_dec(signed(v)) + " '"@ + seq![(v as u32) as char] + "'"@,
        ),
        v < 0x20 ==> value::formatted(Some('c'), expr, v) == Some(
            numerals::signed_dec(signed(v)) + " '"@ + ("\\x"@ + numerals::pad_left(
                numerals::numeral(v as nat, 16),
                2,
                '0',
            )) + "'"@,
        ),
        0xd800 <= v < 0xe000 || 0x11_0000 <= v < 0x1_0000_0000 ==> value::formatted(Some('c'), expr, v) == Some(
            numerals::signed_dec(signed(v)) + " '"@ + "?"@ + "'"@,
        ),
{
    lemma_signed(v);
    let e = Seq::<char>::empty();
    assert(e + value::as_char(v) =~= value::as_char(v));
    assert(v < 0x1_0000_0000u64 ==> (v as u32) as int == v as int) by (bit_vector);
    assert(v < 0x100u64 ==> (v as u8) as int == v as int) by (bit_vector);
}

/// The text of bytes ends before the first zero, and what stands behind that does not matter; printable
/// bytes stand for themselves.
pub proof fn law_text_ends_at_zero(b: Seq<u8>, i: nat, k: nat)
    requires
        i <= k <= b.len(),
        forall|j: int| i <= j < k ==> 0x20 <= #[trigger] b[j] <= 0x7e,
        k < b.len() ==> b[k as int] == 0,
    ensures
        value::text_until_zero(b, i).1 == (k < b.len()),
        value::text_until_zero(b, i).0 == Seq::new((k - i) as nat, |j: int| b[i + j] as char),
    decreases k - i,
{
    if i < k {
        assert(0x20 <= b[i as int] <= 0x7e);
        law_text_ends_at_zero(b, i + 1, k);
        assert(value::text_until_zero(b, i).0 =~= Seq::new((k - i) as nat, |j: int| b[i + j] as char));
    } else {
        assert(value::text_until_zero(b, i).0 =~= Seq::new((k - i) as nat, |j: int| b[i + j] as char));
    }
}

/// A byte that cannot be printed stands as an escape of two hexadecimal digits.
pub proof fn law_unprintable_bytes(b: Seq<u8>, i: nat)
    requires
        i < b.len(),
        b[i as int] != 0,
        b[i as int] < 0x20 || b[i as int] > 0x7e,
    ensures
        value::text_until_zero(b, i).1 == value::text_until_zero(b, i + 1).1,
        value::text_until_zero(b, i).0 == "\\x"@ + numerals::pad_left(
            numerals::numeral(b[i as int] as nat, 16),
            2,
            '0',
        ) + value::text_until_zero(b, i + 1).0,
{
}

/// A text is read in pieces of sixty-four bytes, the next one behind the last, until one holds a zero.
pub proof fn law_text_is_read_in_pieces(d: Dbg, t: Rest, addr: usize, done: Seq<char>, raw: Seq<u8>)
    requires
        t.len() > 0 && t[0] == AnsSeq::Bytes(raw),
    ensures
        value::text_read(d, Seq::empty(), addr, done).0 == Err::<(Seq<char>, Option<Seq<char>>), StopSeq>(
            Halt::Ask(Request::Read { addr, len: 64 }),
        ),
        ({
            let b = breakpoint::program_bytes(d.bps, addr, raw);
            let (s, ended) = value::text_until_zero(b, 0);
            &&& ended ==> value::text_read(d, t, addr, done) == (
                Ok::<_, StopSeq>((done + s, None::<Seq<char>>)),
                t.skip(1),
            )
            &&& !ended ==> value::text_read(d, t, addr, done) == value::text_read(
                d,
                t.skip(1),
                addr.wrapping_add(raw.len() as usize),
                done + s,
            )
        }),
{
}

/// The format `s` shows the text at the address that the value is; no other format asks anything.
pub proof fn law_text_is_at_the_value(d: Dbg, t: Rest, fmt: Option<char>, expr: Seq<char>, v: u64)
    requires
        !location::is_name(expr),
    ensures
        value::value_shown(d, Seq::empty(), Some('s'), expr, v).0 == Err::<ReportSeq, StopSeq>(
            Halt::Ask(Request::Read { addr: v as usize, len: 64 }),
        ),
        value::text_read(d, t, v as usize, Seq::empty()).0 matches Ok((s, m)) ==> (value::value_shown(
            d,
            t,
            Some('s'),
            expr,
            v,
        ).0 matches Ok(p) && p.out == numerals::addr_text(v as nat) + "  \""@ + s + "\"\n"@ && (m is None
            <==> p.err.len() == 0)),
        fmt != Some('s') ==> value::value_shown(d, t, fmt, expr, v).1 == t,
        fmt != Some('s') ==> (value::formatted(fmt, expr, v) matches Some(s) ==> value::value_shown(
            d,
            t,
            fmt,
            expr,
            v,
        ).0 == Ok::<_, StopSeq>((ReportSeq { out: s + "\n"@, err: Seq::empty() }))),
{
    reveal_strlit("\n");
    assert(Seq::<char>::empty() + numerals::addr_text(v as nat) =~= numerals::addr_text(v as nat));
}

/// A format is the letter behind the first slash in the name of the command.
pub proof fn law_format_in_the_name(cmd: Seq<char>, c: char)
    requires
        forall|j: int| 0 <= j < cmd.len() ==> #[trigger] cmd[j] != '/',
    ensures
        value::format_in_name(cmd + seq!['/', c]) == Some(c),
        value::format_in_name(cmd + seq!['/']) is None,
        value::format_in_name(cmd) is None,
{
    lemma_first(cmd + seq!['/', c], '/', cmd.len() as int);
    lemma_first(cmd + seq!['/'], '/', cmd.len() as int);
    lemma_nowhere(cmd, '/');
}

/// The first place of a character is the one before which it does not stand.
pub proof fn lemma_first(s: Seq<char>, c: char, i: int)
    requires
        0 <= i < s.len(),
        s[i] == c,
        forall|j: int| 0 <= j < i ==> #[trigger] s[j] != c,
    ensures
        text::first_index(s, c) == Some(i),
    decreases s.len(),
{
    if i > 0 {
        assert(s[0] != c);
        let r = s.skip(1);
        assert forall|j: int| 0 <= j < i - 1 implies #[trigger] r[j] != c by {
            assert(r[j] == s[j + 1]);
        }
        lemma_first(r, c, i - 1);
    }
}

/// A character that does not stand in a text has no place in it.
pub proof fn lemma_nowhere(s: Seq<char>, c: char)
    requires
        forall|j: int| 0 <= j < s.len() ==> #[trigger] s[j] != c,
    ensures
        text::first_index(s, c) is None,
    decreases s.len(),
{
    if s.len() > 0 {
        let r = s.skip(1);
        assert forall|j: int| 0 <= j < r.len() implies #[trigger] r[j] != c by {
            assert(r[j] == s[j + 1]);
        }
        lemma_nowhere(r, c);
    }
}

/// What is set is what stands before the first equals sign behind the command, and the value is what
/// stands behind it, both without blanks around them. Both are needed.
pub proof fn law_assignment(line: Seq<char>, a: Seq<char>, b: Seq<char>)
    requires
        text::after_word(line) == a + seq!['='] + b,
        forall|j: int| 0 <= j < a.len() ==> #[trigger] a[j] != '=',
    ensures
        text::trim(a).len() > 0 && text::trim(b).len() > 0 ==> assign::assignment(line) == Some(
            (text::trim(a), text::trim(b)),
        ),
        text::trim(a).len() == 0 || text::trim(b).len() == 0 ==> assign::assignment(line) is None,
{
    let s = a + seq!['='] + b;
    lemma_first(s, '=', a.len() as int);
    assert(s.take(a.len() as int) =~= a);
    assert(s.skip(a.len() as int + 1) =~= b);
}

/// A register is named behind a dollar sign, or by its name alone; what is neither names none.
pub proof fn law_register_in_a_target(w: Seq<char>)
    ensures
        w.len() > 0 && location::is_word(w) ==> assign::register_in(seq!['$'] + w) == Some(w),
        w.len() > 0 && w[0] != '$' && location::is_name(w) ==> assign::register_in(w) == Some(w),
        w.len() > 0 && w[0] != '$' && !location::is_name(w) ==> assign::register_in(w) is None,
{
    assert((seq!['$'] + w).skip(1) =~= w);
}

/// A target that is no register is a variable where it is a name, and else eight bytes of memory.
pub proof fn law_target(target: Seq<char>)
    ensures
        assign::target_kind(target, true) is Register,
        location::is_name(target) ==> assign::target_kind(target, false) is Variable,
        !location::is_name(target) ==> assign::target_kind(target, false) == (Target::Memory { size: 8 }),
{
}

/// What is written to memory are the low bytes of the value, the least significant first, at the address:
/// as many as the target has, but at least one and at most eight.
pub proof fn law_value_is_written(
    d: Dbg,
    t: Rest,
    target: Seq<char>,
    addr: u64,
    size: int,
    v: u64,
    data: Seq<u8>,
    k: int,
)
    requires
        data == bytes::le_bytes(v as nat, k as nat),
        k == (if size < 1 {
            1
        } else if size > 8 {
            8
        } else {
            size
        }),
    ensures
        data.len() == k,
        k == 8 ==> bytes::le(data) == v,
        k == 1 ==> data[0] == v % 256,
        ({
            let w = mach::mem_write(t, addr as usize, data, d.host);
            let r = assign::value_written(d, t, target, addr, size, v);
            &&& r.1 == w.1
            &&& w.0 matches Err(Halt::Ask(q)) ==> r.0 == Err::<Option<ReportSeq>, StopSeq>(Halt::Ask(q))
            &&& w.0 matches Err(Halt::Fail(m)) ==> (r.0 matches Ok(Some(p)) && p.out.len() == 0 && p.err
                == "failed to write memory: "@ + m + "\n"@)
            &&& w.0 is Ok ==> (r.0 matches Ok(Some(p)) && p.err.len() == 0 && p.out == (if location::is_name(
                target,
            ) {
                target
            } else {
                "["@ + numerals::addr_text(addr as nat) + "]"@
            }) + " = "@ + numerals::signed_dec(signed(v)) + "\n"@)
        }),
{
    lemma_signed(v);
    bytes::lemma_le_bytes_len(v as nat, k as nat);
    bytes::lemma_pow256_values();
    if k == 8 {
        bytes::lemma_le_of_le_bytes(v as nat, 8);
    }
    if k == 1 {
        reveal_with_fuel(bytes::le_bytes, 2);
        assert(data[0] == (v as nat % 256) as u8);
    }
}

/// A variable is set where it is, with as many bytes as it has.
pub proof fn law_variable_is_set(
    d: Dbg,
    t: Rest,
    base: Option<u64>,
    syms: Option<&Symbols>,
    target: Seq<char>,
    v: u64,
    addr: u64,
    size: u8,
    u: Rest,
)
    requires
        variables::variable_read(d, t, base, syms, target) == (Ok::<_, StopSeq>((addr, size)), u),
    ensures
        assign::variable_set(d, t, base, syms, target, v) == assign::value_written(
            d,
            u,
            target,
            addr,
            size as int,
            v,
        ),
{
}

/// To set a general-purpose register the registers of the current thread are read, and written back with
/// that register changed.
pub proof fn law_register_is_set(
    d: Dbg,
    t: Rest,
    reg: Seq<char>,
    v: u64,
    g: Got<Option<ReportSeq>>,
    regs: Registers,
)
    requires
        assign::register_set(d, t, reg, v, g),
        d.current < d.threads.len(),
        t.len() == 1 && t[0] == AnsSeq::Registers(regs),
    ensures
        regs.named(reg) is None ==> g == (Ok::<Option<ReportSeq>, StopSeq>(None), t.skip(1)),
        regs.named(reg) is Some ==> (g.0 matches Err(Halt::Ask(Request::SetRegisters { port, regs: now })) && port
            == d.threads[d.current as int].port && now.is_set(regs, reg, v, true)),
        assign::register_set(
            d,
            Seq::empty(),
            reg,
            v,
            (
                Err::<Option<ReportSeq>, StopSeq>(
                    Halt::Ask(Request::GetRegisters { port: d.threads[d.current as int].port }),
                ),
                Seq::empty(),
            ),
        ),
{
    if regs.named(reg) is Some {
        let now = choose|now: Registers| #[trigger]
            now.is_set(regs, reg, v, true) && g == assign::registers_written(d, t.skip(1), now, reg, v);
        assert(t.skip(1).len() == 0);
    }
}

/// What is read and written of a variable is at least one byte and at most eight, and else its size.
pub proof fn law_held_size(n: int)
    ensures
        1 <= variables::held_size(n) <= 8,
        1 <= n <= 8 ==> variables::held_size(n) == n,
        n < 1 ==> variables::held_size(n) == 1,
        n > 8 ==> variables::held_size(n) == 8,
{
}

/// A variable at a fixed address is there, moved with the base; nothing is asked.
pub proof fn law_fixed_variable(d: Dbg, t: Rest, v: Variable, a: u64, slide: u64)
    requires
        v.location == VarLocation::Addr(a),
    ensures
        variables::place_read(d, t, v, slide) == (Ok::<u64, StopSeq>(a.wrapping_add(slide)), t),
{
}

/// A variable of a frame is at its offset from the frame base. That is the frame pointer; or on x86_64 the
/// canonical frame address, two words above it.
pub proof fn law_frame_variable(
    d: Dbg,
    t: Rest,
    v: Variable,
    off: i64,
    slide: u64,
    regs: Registers,
    raw: Seq<u8>,
)
    requires
        v.location == VarLocation::FrameOffset(off),
        d.current < d.threads.len(),
        t.len() > 0 && t[0] == AnsSeq::Registers(regs),
    ensures
        variables::place_read(d, Seq::empty(), v, slide).0 == Err::<u64, StopSeq>(
            Halt::Ask(Request::GetRegisters { port: d.threads[d.current as int].port }),
        ),
        v.frame_base is Register ==> (regs matches Registers::X86(g) ==> variables::place_read(d, t, v, slide)
            == (Ok::<u64, StopSeq>(g.__rbp.wrapping_add(off as u64)), t.skip(1))),
        v.frame_base is Register ==> (regs matches Registers::Arm(g) ==> variables::place_read(d, t, v, slide)
            == (Ok::<u64, StopSeq>(g.__fp.wrapping_add(off as u64)), t.skip(1))),
        v.frame_base is CallFrameCfa ==> (regs matches Registers::X86(g) ==> variables::place_read(
            d,
            t,
            v,
            slide,
        ) == (Ok::<u64, StopSeq>(g.__rbp.wrapping_add(16).wrapping_add(off as u64)), t.skip(1))),
{
}

/// On aarch64 the canonical frame address is above the frame pointer by the size of the frame that the
/// first instruction of the variable's scope makes room for; that is read where the program is loaded.
pub proof fn law_arm_frame_variable(
    d: Dbg,
    t: Rest,
    v: Variable,
    off: i64,
    slide: u64,
    g: aarch64::ThreadState64,
    low: u64,
    high: u64,
    raw: Seq<u8>,
)
    requires
        v.location == VarLocation::FrameOffset(off),
        v.frame_base is CallFrameCfa,
        v.scope == Some((low, high)),
        d.current < d.threads.len(),
        t.len() > 0 && t[0] == AnsSeq::Registers(Registers::Arm(g)),
    ensures
        t.len() == 1 ==> variables::place_read(d, t, v, slide).0 == Err::<u64, StopSeq>(
            Halt::Ask(Request::Read { addr: low.wrapping_add(slide) as usize, len: 4 }),
        ),
        t.len() > 1 && t[1] == AnsSeq::Bytes(raw) ==> variables::place_read(d, t, v, slide).0 == Ok::<
            u64,
            StopSeq,
        >(
            g.__fp.wrapping_add(
                variables::frame_size(
                    breakpoint::program_bytes(d.bps, low.wrapping_add(slide) as usize, raw),
                ),
            ).wrapping_add(off as u64),
        ),
{
    if t.len() > 1 {
        assert(t.skip(1)[0] == t[1]);
    }
}

/// Only `stp x29, x30, [sp, #-N]!` makes room for a frame.
pub proof fn law_frame_size(code: Seq<u8>)
    ensures
        !(code.len() == 4 && code[0] == 0xfd && code[1] == 0x7b && code[3] == 0xa9) ==> variables::frame_size(
            code,
        ) == 0,
        code.len() == 4 && code[0] == 0xfd && code[1] == 0x7b && code[3] == 0xa9 ==> variables::frame_size(
            code,
        ) == variables::frame_room(bytes::le(code) as u32),
{
}

/// A variable is looked for at the address of the file that is as far from `__TEXT` as the program counter
/// is from the base; what is found has its size from the debug information.
pub proof fn law_variable_at_the_program_counter(
    d: Dbg,
    t: Rest,
    b: u64,
    s: &Symbols,
    name: Seq<char>,
    regs: Registers,
    at: u64,
    v: Variable,
)
    requires
        d.current < d.threads.len(),
        t.len() > 0 && t[0] == AnsSeq::Registers(regs),
        at.wrapping_sub(s.text_vmaddr) == (match regs {
            Registers::X86(g) => g.__rip,
            Registers::Arm(g) => g.__pc,
        }).wrapping_sub(b),
    ensures
        s.spec_variable(name, at) is None ==> variables::variable_read(d, t, Some(b), Some(s), name).0
            matches Err(Halt::Fail(_)),
        s.spec_variable(name, at) == Some(v) ==> ({
            let p = variables::place_read(d, t.skip(1), v, b.wrapping_sub(s.text_vmaddr));
            let r = variables::variable_read(d, t, Some(b), Some(s), name);
            &&& r.1 == p.1
            &&& p.0 matches Ok(a) ==> r.0 == Ok::<_, StopSeq>((a, v.byte_size))
            &&& p.0 matches Err(h) ==> r.0 == Err::<(u64, u8), StopSeq>(h)
        }),
        variables::variable_read(d, t, Some(b), None, name).0 matches Err(Halt::Fail(_)),
        variables::variable_read(d, t, None, Some(s), name).0 matches Err(Halt::Fail(_)),
{
    let pc = regs.spec_pc();
    assert(pc.wrapping_sub(b.wrapping_sub(s.text_vmaddr)) == at);
}

/// The value of a variable is the number in its bytes, read where it is; one that cannot be read is not
/// available.
pub proof fn law_variable_is_read(
    d: Dbg,
    t: Rest,
    v: Variable,
    slide: u64,
    a: u64,
    u: Rest,
    raw: Seq<u8>,
    k: int,
)
    requires
        variables::place_read(d, t, v, slide) == (Ok::<u64, StopSeq>(a), u),
        k == (if v.byte_size < 1 {
            1int
        } else if v.byte_size > 8 {
            8
        } else {
            v.byte_size as int
        }),
    ensures
        u.len() == 0 ==> variables::value_read(d, t, v, slide).0 == Err::<Option<u64>, StopSeq>(
            Halt::Ask(Request::Read { addr: a as usize, len: k as usize }),
        ),
        u.len() > 0 && u[0] == AnsSeq::Bytes(raw) && raw.len() == k ==> variables::value_read(d, t, v, slide)
            == (
            Ok::<Option<u64>, StopSeq>(
                Some(bytes::le(breakpoint::program_bytes(d.bps, a as usize, raw)) as u64),
            ),
            u.skip(1),
        ),
        u.len() > 0 && (u[0] is Failed || u[0] is Code) ==> variables::value_read(d, t, v, slide).0 == Ok::<
            Option<u64>,
            StopSeq,
        >(None),
{
    if u.len() > 0 && u[0] == AnsSeq::Bytes(raw) && raw.len() == k {
        let b = breakpoint::program_bytes(d.bps, a as usize, raw);
        assert(b.take(k) =~= b);
    }
}

/// Every variable of the list has a line with its name, and its value as a signed number and in
/// hexadecimal, or that it is not available. An empty list says so.
pub proof fn law_variable_lines(
    d: Dbg,
    t: Rest,
    vs: Seq<Variable>,
    slide: u64,
    done: Seq<char>,
    i: nat,
    x: Option<u64>,
    u: Rest,
)
    requires
        i < vs.len(),
        variables::value_read(d, t, vs[i as int], slide) == (Ok::<_, StopSeq>(x), u),
    ensures
        x matches Some(n) ==> variables::variable_lines(d, t, vs, slide, done, i) == variables::variable_lines(
            d,
            u,
            vs,
            slide,
            done + ("  "@ + vs[i as int].name@ + (" = "@ + numerals::signed_dec(signed(n)) + "  ("@ + ("0x"@
                + numerals::numeral(n as nat, 16)) + ")\n"@)),
            i + 1,
        ),
        x is None ==> variables::variable_lines(d, t, vs, slide, done, i) == variables::variable_lines(
            d,
            u,
            vs,
            slide,
            done + ("  "@ + vs[i as int].name@ + " = <unavailable>\n"@),
            i + 1,
        ),
        variables::variable_lines(d, t, vs, slide, done, vs.len()) == (Ok::<_, StopSeq>(done), t),
        variables::variables_shown(d, t, Seq::empty(), slide) == (Ok::<_, StopSeq>("  (none)\n"@), t),
        variables::variables_shown(d, t, vs, slide) == variables::variable_lines(
            d,
            t,
            vs,
            slide,
            Seq::empty(),
            0,
        ),
{
    if let Some(n) = x {
        lemma_signed(n);
    }
}

/// A format may stand behind a slash before the expression, where the name of the command has none.
pub proof fn law_format_before_the_expression(cmd: Seq<char>, line: Seq<char>, c: char, e: Seq<char>)
    ensures
        value::format_in_name(cmd) is None && text::is_alphabetic(c) && text::after_word(line) == seq!['/', c]
            + e ==> value::print_wanted(cmd, line) == (Some(c), text::trim(e)),
        value::format_in_name(cmd) == Some(c) ==> value::print_wanted(cmd, line) == (
            Some(c),
            text::after_word(line),
        ),
        value::format_in_name(cmd) is None && (text::after_word(line).len() == 0 || text::after_word(line)[0]
            != '/') ==> value::print_wanted(cmd, line) == (None::<char>, text::after_word(line)),
{
    let r = seq!['/', c] + e;
    assert(r.skip(2) =~= e);
}

/// On x86_64 a target that is no general-purpose register is looked for among the floating-point
/// registers, which are read by the port of the current thread.
pub proof fn law_float_register_is_looked_for(
    d: Dbg,
    t: Rest,
    target: Seq<char>,
    reg: Seq<char>,
    v: u64,
    g: Got<Option<ReportSeq>>,
    regs: Registers,
)
    requires
        assign::target_set(d, t, target, v, g),
        assign::register_in(target) == Some(reg),
        d.current < d.threads.len(),
        t.len() == 1 && t[0] == AnsSeq::Registers(regs),
        regs.named(reg) is None,
    ensures
        d.host == Arch::X86_64 ==> g.0 == Err::<Option<ReportSeq>, StopSeq>(
            Halt::Ask(Request::GetFloats { port: d.threads[d.current as int].port }),
        ),
        d.host == Arch::Aarch64 ==> g.0 == Ok::<Option<ReportSeq>, StopSeq>(None),
{
    assert(t.skip(1).len() == 0);
}

/// A target that names no register at all is left to be a variable or memory, and nothing is asked.
pub proof fn law_no_register(d: Dbg, t: Rest, target: Seq<char>, v: u64, g: Got<Option<ReportSeq>>)
    requires
        assign::target_set(d, t, target, v, g),
        assign::register_in(target) is None,
    ensures
        g == (Ok::<Option<ReportSeq>, StopSeq>(None), t),
{
}

/// Once the registers have been written the line with the register and the value is shown.
pub proof fn law_register_is_told(
    d: Dbg,
    t: Rest,
    reg: Seq<char>,
    v: u64,
    g: Got<Option<ReportSeq>>,
    regs: Registers,
)
    requires
        assign::register_set(d, t, reg, v, g),
        d.current < d.threads.len(),
        t.len() >= 2 && t[0] == AnsSeq::Registers(regs) && t[1] == AnsSeq::Code(0),
        regs.named(reg) is Some,
    ensures
        g == (
            Ok::<Option<ReportSeq>, StopSeq>(
                Some(
                    (ReportSeq {
                        out: "set $"@ + reg + " = "@ + numerals::addr_text(v as nat) + "\n"@,
                        err: Seq::empty(),
                    }),
                ),
            ),
            t.skip(2),
        ),
{
    assert(t.skip(1)[0] == t[1]);
    assert(t.skip(1).skip(1) =~= t.skip(2));
}

/// A byte above the printable ones is shown as an escape.
pub proof fn law_character_escapes(v: u64, expr: Seq<char>)
    requires
        !location::is_name(expr),
        0x7f <= v <= 0xff,
    ensures
        value::formatted(Some('c'), expr, v) == Some(
            numerals::signed_dec(signed(v)) + " '"@ + ("\\x"@ + numerals::pad_left(
                numerals::numeral(v as nat, 16),
                2,
                '0',
            )) + "'"@,
        ),
{
    lemma_signed(v);
    let e = Seq::<char>::empty();
    assert(e + value::as_char(v) =~= value::as_char(v));
    assert(v < 0x1_0000_0000u64 ==> (v as u32) as int == v as int) by (bit_vector);
    assert(v < 0x100u64 ==> (v as u8) as int == v as int) by (bit_vector);
}

/// Without an equals sign nothing is set.
pub proof fn law_no_assignment(line: Seq<char>)
    requires
        forall|j: int| 0 <= j < text::after_word(line).len() ==> #[trigger] text::after_word(line)[j] != '=',
    ensures
        assign::assignment(line) is None,
{
    lemma_nowhere(text::after_word(line), '=');
}

/// A variable of which fewer bytes can be read than it has is not available.
pub proof fn law_short_variable(d: Dbg, t: Rest, v: Variable, slide: u64, a: u64, u: Rest, raw: Seq<u8>)
    requires
        variables::place_read(d, t, v, slide) == (Ok::<u64, StopSeq>(a), u),
        u.len() > 0 && u[0] == AnsSeq::Bytes(raw),
        raw.len() < v.byte_size,
        raw.len() < 8,
    ensures
        variables::value_read(d, t, v, slide).0 == Ok::<Option<u64>, StopSeq>(None),
{
}

/// A floating-point register is set by writing back the registers that were read, with that one changed.
pub proof fn law_float_register_is_set(
    d: Dbg,
    t: Rest,
    reg: Seq<char>,
    v: u64,
    g: Got<Option<ReportSeq>>,
    f: x86_64::FloatState64,
    x: x86_64::FloatRegister,
)
    requires
        assign::float_set(d, t, reg, v, g),
        d.current < d.threads.len(),
        t.len() == 1 && t[0] == AnsSeq::Floats(Floats::X86(f)),
        x86_64::float_register_named(text::lowercase(reg)) == Some(x),
    ensures
        g.0 matches Err(Halt::Ask(Request::SetFloats { port, state: Floats::X86(now) })) && port
            == d.threads[d.current as int].port && now.is_set(f, x, v),
{
    assert(t.skip(1).len() == 0);
}

/// A name that is no floating-point register either is left to be a variable.
pub proof fn law_no_float_register(
    d: Dbg,
    t: Rest,
    reg: Seq<char>,
    v: u64,
    g: Got<Option<ReportSeq>>,
    f: x86_64::FloatState64,
)
    requires
        assign::float_set(d, t, reg, v, g),
        d.current < d.threads.len(),
        t.len() > 0 && t[0] == AnsSeq::Floats(Floats::X86(f)),
        x86_64::float_register_named(text::lowercase(reg)) is None,
    ensures
        g == (Ok::<Option<ReportSeq>, StopSeq>(None), t.skip(1)),
{
}

} // verus!
