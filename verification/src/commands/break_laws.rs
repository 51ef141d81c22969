//! What holds of the commands that set, delete and list breakpoints, and of those that show memory and
//! code.
use crate::arch::Arch;
use crate::breakpoint;
use crate::commands::breaks;
use crate::commands::code;
use crate::commands::code::VarKind;
use crate::commands::line;
use crate::commands::location;
use crate::commands::show;
use crate::commands::show::ReportSeq;
use crate::commands::variables;
use crate::debug_info::Variable;
use crate::debugger;
use crate::debugger::points;
use crate::debugger::{Dbg, Out};
use crate::disasm;
use crate::leak_tracker;
use crate::leak_tracker::LeakOut;
use crate::numerals;
use crate::register::Registers;
use crate::symbols;
use crate::symbols::Symbols;
use crate::tape::{AnsSeq, Halt, Request, Rest, StopSeq};
use crate::text;
use vstd::prelude::*;

verus! {

/// A breakpoint that the user asks for is set at the place that was found. Of a function that is named
/// that is behind the prologue; any other place is taken as it is.
pub proof fn law_break_is_set_at_the_place(
    d: Dbg,
    t: Rest,
    base: Option<u64>,
    syms: Option<&Symbols>,
    arg: Seq<char>,
    found: usize,
    u: Rest,
    a: usize,
    v: Rest,
    o: Out<()>,
)
    requires
        code::place_named(d, t, base, syms, arg) == (
            Ok::<_, StopSeq>(Ok::<usize, Seq<char>>(found)),
            u,
        ),
        !location::is_name(arg) ==> a == found && v == u,
        location::is_name(arg) ==> points::behind_prologue(d, u, found) == (Ok::<usize, StopSeq>(a), v),
        o == points::break_set(d, v, a),
    ensures
        breaks::break_asked(d, t, base, syms, arg).d == o.d,
        breaks::break_asked(d, t, base, syms, arg).t == o.t,
        o.r matches Err(h) ==> breaks::break_asked(d, t, base, syms, arg).r == Err::<ReportSeq, StopSeq>(h),
        o.r is Ok ==> (breaks::break_asked(d, t, base, syms, arg).r matches Ok(p) && p.err.len() == 0 && p.out
            == "Breakpoint set at "@ + numerals::addr_text(a as nat) + "\n"@),
{
    if o.r is Ok {
        assert("Breakpoint set at "@ + numerals::addr_text(a as nat) + Seq::<char>::empty() + "\n"@
            =~= "Breakpoint set at "@ + numerals::addr_text(a as nat) + "\n"@);
    }
}

/// A place that cannot be found is reported with its message, and no breakpoint changes.
pub proof fn law_break_at_no_place(
    d: Dbg,
    t: Rest,
    base: Option<u64>,
    syms: Option<&Symbols>,
    arg: Seq<char>,
    m: Seq<char>,
    u: Rest,
)
    requires
        code::place_named(d, t, base, syms, arg) == (Ok::<_, StopSeq>(Err::<usize, Seq<char>>(m)), u),
    ensures
        breaks::break_asked(d, t, base, syms, arg).d == d,
        breaks::break_asked(d, t, base, syms, arg).t == u,
        breaks::break_asked(d, t, base, syms, arg).r matches Ok(p) && p.out.len() == 0 && p.err
            == "could not resolve location "@ + arg + ": "@ + m + "\n"@,
{
}

/// A place is found by the line of the current thread: a file and a line, a line of the current file, an
/// address, or else a symbol, in that order.
pub proof fn law_places_are_tried_in_order(
    arg: Seq<char>,
    base: Option<u64>,
    s: &Symbols,
    file: Option<Seq<char>>,
)
    ensures
        location::file_line(arg) matches Some((f, l)) ==> location::located(arg, base, Some(s), file)
            == location::line_addr(Some(s), base, f, l, arg),
        location::file_line(arg) is None ==> (location::line_number(arg) matches Some(l) ==> {
            &&& file matches Some(f) ==> location::located(arg, base, Some(s), file) == location::line_addr(
                Some(s),
                base,
                f,
                l,
                f + ":"@ + numerals::dec(l as nat),
            )
            &&& file is None ==> location::located(arg, base, Some(s), file) is Err
        }),
        location::file_line(arg) is None && location::line_number(arg) is None ==> {
            &&& location::addr_named(arg, base) matches Some(a) ==> location::located(
                arg,
                base,
                Some(s),
                file,
            ) == Ok::<usize, Seq<char>>(a)
            &&& location::addr_named(arg, base) is None ==> location::located(arg, base, Some(s), file)
                == location::symbol_place(Some(s), base, arg)
        },
{
}

/// A file and a line are read back from the text with a colon between them, whatever colons the path has.
pub proof fn law_file_and_line_read_back(f: Seq<char>, n: u32)
    ensures
        location::file_line(f + ":"@ + numerals::dec(n as nat)) == Some((f, n)),
        location::line_number(numerals::dec(n as nat)) == Some(n),
{
    reveal_strlit(":");
    let d = numerals::dec(n as nat);
    let s = f + ":"@ + d;
    numerals::law_number_is_read(n as nat, 10, u32::MAX as nat);
    numerals::lemma_numeral_digits(n as nat, 10);
    lemma_last(s, ':', f.len() as int);
    assert(s.take(f.len() as int) =~= f);
    assert(s.skip(f.len() as int + 1) =~= d);
}

/// The last place of a character is the one behind which it no longer stands.
proof fn lemma_last(s: Seq<char>, c: char, i: int)
    requires
        0 <= i < s.len(),
        s[i] == c,
        forall|j: int| i < j < s.len() ==> #[trigger] s[j] != c,
    ensures
        text::last_index(s, c) == Some(i),
    decreases s.len(),
{
    if i < s.len() - 1 {
        let r = s.drop_last();
        assert(r[i] == s[i]);
        assert forall|j: int| i < j < r.len() implies #[trigger] r[j] != c by {
            assert(r[j] == s[j]);
        }
        lemma_last(r, c, i);
    }
}

/// A name begins with a letter or an underscore, and has only letters, digits and underscores.
pub proof fn law_names(s: Seq<char>, i: int)
    ensures
        s.len() == 0 ==> !location::is_name(s),
        location::is_name(s) && 0 <= i < s.len() ==> text::is_alphanumeric(s[i]) || text::is_alphabetic(s[i])
            || s[i] == '_',
        location::is_name(s) ==> text::is_alphabetic(s[0]) || s[0] == '_',
        s.len() > 0 && (text::is_alphabetic(s[0]) || s[0] == '_') && (forall|j: int|
            1 <= j < s.len() ==> text::is_alphanumeric(#[trigger] s[j]) || s[j] == '_') ==> location::is_name(s),
{
    if s.len() > 0 {
        let r = s.skip(1);
        if 1 <= i < s.len() {
            assert(r[i - 1] == s[i]);
        }
        if forall|j: int| 1 <= j < s.len() ==> text::is_alphanumeric(#[trigger] s[j]) || s[j] == '_' {
            assert forall|j: int| 0 <= j < r.len() implies text::is_alphanumeric(#[trigger] r[j]) || r[j] == '_' by {
                assert(r[j] == s[j + 1]);
            }
        }
    }
}

/// The breakpoint of a number is the one that stands at that place in the list, counted from one; a number
/// without a breakpoint is refused. The list has it under that number.
pub proof fn law_delete_by_number(
    d: Dbg,
    t: Rest,
    base: Option<u64>,
    at: Seq<usize>,
    n: usize,
    o: Out<()>,
    syms: Option<&Symbols>,
)
    requires
        at.len() <= usize::MAX,
        1 <= n <= at.len() ==> o == points::break_removed(d, t, at[n - 1]),
    ensures
        ({
            let r = breaks::delete_asked(d, t, base, numerals::dec(n as nat), at);
            &&& !(1 <= n <= at.len()) ==> r.d == d && r.t == t && (r.r matches Ok(p) && p.out.len() == 0)
            &&& 1 <= n <= at.len() ==> r.d == o.d && r.t == o.t
            &&& 1 <= n <= at.len() && o.r is Ok ==> (r.r matches Ok(p) && p.err.len() == 0 && p.out
                == "Breakpoint #"@ + numerals::dec(n as nat) + " ("@ + numerals::addr_text(at[n - 1] as nat)
                + ") deleted."@ + "\n"@)
        }),
        1 <= n <= at.len() ==> code::breakpoint_lines(base, syms, at, n as int) == code::breakpoint_lines(
            base,
            syms,
            at,
            n - 1,
        ) + ("#"@ + numerals::pad_right(numerals::dec(n as nat), 2, ' ') + " "@ + numerals::addr_text(
            at[n - 1] as nat,
        ) + show::address_note(syms, base, at[n - 1] as u64, true) + "\n"@),
        code::breakpoint_lines(base, syms, at, 0).len() == 0,
        at.len() > 0 ==> code::breakpoints_text(base, syms, at) == code::breakpoint_lines(
            base,
            syms,
            at,
            at.len() as int,
        ),
        at.len() == 0 ==> code::breakpoints_text(base, syms, at) == "No breakpoints.\n"@,
{
    reveal_strlit("all");
    numerals::law_number_is_read(n as nat, 10, usize::MAX as nat);
    numerals::lemma_numeral_digits(n as nat, 10);
    let arg = numerals::dec(n as nat);
    assert(arg[0] != 'a');
    assert("all"@[0] == 'a');
}

/// The breakpoint at an address is deleted by it, in hexadecimal or from the base.
pub proof fn law_delete_by_address(d: Dbg, t: Rest, b: u64, at: Seq<usize>, a: usize, o: Out<()>)
    requires
        o == points::break_removed(d, t, a),
    ensures
        ({
            let r = breaks::delete_asked(d, t, Some(b), "0x"@ + numerals::numeral(a as nat, 16), at);
            &&& r.d == o.d && r.t == o.t
            &&& o.r is Ok ==> (r.r matches Ok(p) && p.err.len() == 0 && p.out == "Breakpoint at "@
                + numerals::addr_text(a as nat) + " deleted."@ + "\n"@)
            &&& o.r matches Err(Halt::Fail(m)) ==> (r.r matches Ok(p) && p.out.len() == 0 && p.err
                == "del: "@ + m + "\n"@)
        }),
{
    reveal_strlit("all");
    reveal_strlit("0x");
    let arg = "0x"@ + numerals::numeral(a as nat, 16);
    assert(arg[0] == '0' && arg[1] == 'x');
    assert("all"@[0] == 'a');
    numerals::lemma_bad_digit(arg, 10, 1);
    location::law_addresses_read_back(a, b);
}

/// To delete all is to delete each, one after the other; what fails is told, and the others still go.
pub proof fn law_delete_all(
    d: Dbg,
    t: Rest,
    base: Option<u64>,
    at: Seq<usize>,
    err: Seq<char>,
    i: nat,
    o: Out<()>,
)
    requires
        i < at.len(),
        o == points::break_removed(d, t, at[i as int]),
    ensures
        breaks::delete_asked(d, t, base, "all"@, at) == breaks::all_deleted(d, t, at, Seq::empty(), 0),
        o.r is Ok ==> breaks::all_deleted(d, t, at, err, i) == breaks::all_deleted(o.d, o.t, at, err, i + 1),
        o.r matches Err(Halt::Fail(m)) ==> breaks::all_deleted(d, t, at, err, i) == breaks::all_deleted(
            o.d,
            o.t,
            at,
            err + ("del: "@ + m + "\n"@),
            i + 1,
        ),
        breaks::all_deleted(d, t, at, err, at.len()) == debugger::out(
            Ok::<_, StopSeq>((ReportSeq { out: "All breakpoints deleted.\n"@, err })),
            t,
            d,
        ),
{
}

proof fn lemma_deleted(d: Dbg, t: Rest, at: Seq<usize>, err: Seq<char>, i: nat, a: usize)
    requires
        d.host == Arch::X86_64,
        i <= at.len(),
        breaks::all_deleted(d, t, at, err, i).r is Ok,
    ensures
        breaks::all_deleted(d, t, at, err, i).d.bps.contains_key(a) <==> d.bps.contains_key(a) && (forall|j:
            int| i <= j < at.len() ==> #[trigger] at[j] != a),
    decreases at.len() - i,
{
    if i < at.len() {
        let o = points::break_removed(d, t, at[i as int]);
        assert(o.d.host == d.host);
        assert(o.d.bps == d.bps.remove(at[i as int]));
        if let Err(Halt::Fail(m)) = o.r {
            lemma_deleted(o.d, o.t, at, err + show::line2("del: "@, m), i + 1, a);
        } else {
            lemma_deleted(o.d, o.t, at, err, i + 1, a);
        }
    }
}

/// After all were deleted on x86_64 none of them is left.
pub proof fn law_delete_all_leaves_none(d: Dbg, t: Rest, base: Option<u64>, at: Seq<usize>, a: usize)
    requires
        d.host == Arch::X86_64,
        breaks::delete_asked(d, t, base, "all"@, at).r is Ok,
        forall|b: usize| #[trigger] d.bps.contains_key(b) ==> at.contains(b),
    ensures
        !breaks::delete_asked(d, t, base, "all"@, at).d.bps.contains_key(a),
{
    lemma_deleted(d, t, at, Seq::empty(), 0, a);
    if d.bps.contains_key(a) {
        let j = choose|j: int| 0 <= j < at.len() && at[j] == a;
        assert(at[j] == a);
    }
}

/// Four bytes of memory are shown as a number of eight digits, the least significant byte first, with
/// their address.
pub proof fn law_memory_is_shown(t: Rest, base: Option<u64>, arg: Seq<char>, a: usize, b: Seq<u8>)
    requires
        location::addr_named(arg, base) == Some(a),
        t.len() > 0 && t[0] == AnsSeq::Bytes(b),
        b.len() == 4,
    ensures
        breaks::word_shown(Seq::empty(), base, arg).0 == Err::<ReportSeq, StopSeq>(
            Halt::Ask(Request::Read { addr: a, len: 4 }),
        ),
        breaks::word_shown(t, base, arg).0 matches Ok(p) && p.err.len() == 0 && p.out == "["@
            + numerals::addr_text(a as nat) + "] = "@ + ("0x"@ + numerals::pad_left(
            numerals::numeral(
                (b[0] + 0x100 * b[1] + 0x1_0000 * b[2] + 0x100_0000 * b[3]) as nat,
                16,
            ),
            8,
            '0',
        )) + "\n"@,
{
    crate::kernel_laws::law_word_is_read(t, a, b);
}

/// Leaks are tracked by the stubs of `malloc`, `calloc`, `realloc` and `free`, moved with the base; without
/// any of them nothing is tracked, and nothing is asked.
pub proof fn law_leaks_are_tracked_by_the_stubs(d: Dbg, t: Rest, s: &Symbols, b: u64, o: LeakOut<()>)
    requires
        o == leak_tracker::tracking(
            breaks::fresh_leaks(),
            d,
            t,
            breaks::stub_of(s, "malloc"@, b),
            breaks::stub_of(s, "calloc"@, b),
            breaks::stub_of(s, "realloc"@, b),
            breaks::stub_of(s, "free"@, b),
        ),
    ensures
        ({
            let found = s.stubs@.contains_key("malloc"@) || s.stubs@.contains_key("calloc"@)
                || s.stubs@.contains_key("realloc"@) || s.stubs@.contains_key("free"@);
            let r = breaks::leaks_begun(d, t, Some(b), Some(s));
            &&& !found ==> r.d == d && r.t == t && (r.r matches Ok(g) && g.tracker is None)
            &&& found ==> r.d == o.d && r.t == o.t
            &&& found && o.r is Ok ==> (r.r matches Ok(g) && g.tracker == Some(o.k))
            &&& found && o.r is Err ==> !(r.r matches Ok(g) && g.tracker is Some)
        }),
        breaks::stub_of(s, "malloc"@, b) is Some <==> s.stubs@.contains_key("malloc"@),
        s.stubs@.contains_key("malloc"@) ==> breaks::stub_of(s, "malloc"@, b) == Some(
            s.stubs@["malloc"@].wrapping_sub(s.text_vmaddr).wrapping_add(b) as usize,
        ),
        breaks::leaks_begun(d, t, None, Some(s)).r matches Ok(g) && g.tracker is None,
        breaks::leaks_begun(d, t, Some(b), None).r matches Ok(g) && g.tracker is None,
{
    if s.stubs@.contains_key("malloc"@) {
        assert(s.stubs@["malloc"@].wrapping_add(b.wrapping_sub(s.text_vmaddr))
            == s.stubs@["malloc"@].wrapping_sub(s.text_vmaddr).wrapping_add(b));
    }
}

/// The code at an address is read there, fifteen bytes for each instruction that is asked for, and shown
/// instruction by instruction with the one at the address marked. Traps do not show in it.
pub proof fn law_code_is_read_where_it_is_shown(
    d: Dbg,
    t: Rest,
    base: Option<u64>,
    syms: Option<&Symbols>,
    addr: u64,
    count: usize,
    raw: Seq<u8>,
)
    requires
        0 < count <= 1000,
        t.len() > 0 && t[0] == AnsSeq::Bytes(raw),
    ensures
        code::code_at(d, Seq::empty(), base, syms, addr, count).0 == Err::<ReportSeq, StopSeq>(
            Halt::Ask(Request::Read { addr: addr as usize, len: (count * 15) as usize }),
        ),
        disasm::listing_of(
            breakpoint::program_bytes(d.bps, addr as usize, raw),
            addr,
            count,
            d.host,
        ) matches Ok(l) ==> (code::code_at(d, t, base, syms, addr, count).0 matches Ok(p) && p.err.len() == 0
            && p.out == code::code_head(syms, base, addr) + disasm::insn_lines(l, addr)),
{
    vstd::arithmetic::div_mod::lemma_small_mod(
        (count as nat * 15) as nat,
        (usize::MAX - usize::MIN + 1) as nat,
    );
    assert(count.wrapping_mul(15) == count * 15);
}

/// After a stop the next four instructions are shown, from the thirty-two bytes at the program counter.
pub proof fn law_next_code(d: Dbg, t: Rest, regs: Registers, raw: Seq<u8>)
    requires
        d.current < d.threads.len(),
        t.len() > 0 && t[0] == AnsSeq::Registers(regs),
    ensures
        ({
            let pc = match regs {
                Registers::X86(g) => g.__rip,
                Registers::Arm(g) => g.__pc,
            };
            &&& code::next_code(d, Seq::empty()).0 == Err::<ReportSeq, StopSeq>(
                Halt::Ask(Request::GetRegisters { port: d.threads[d.current as int].port }),
            )
            &&& t.len() == 1 ==> code::next_code(d, t).0 == Err::<ReportSeq, StopSeq>(
                Halt::Ask(Request::Read { addr: pc as usize, len: 32 }),
            )
            &&& t.len() > 1 && t[1] == AnsSeq::Bytes(raw) ==> (disasm::listing_of(
                breakpoint::program_bytes(d.bps, pc as usize, raw),
                pc,
                4,
                d.host,
            ) matches Ok(l) ==> (code::next_code(d, t).0 matches Ok(p) && p.err.len() == 0 && p.out
                == disasm::insn_lines(l, pc)))
        }),
{
    if t.len() > 1 {
        assert(t.skip(1)[0] == t[1]);
        let pc = regs.spec_pc();
        if let Ok(l) = disasm::listing_of(breakpoint::program_bytes(d.bps, pc as usize, raw), pc, 4, d.host) {
            assert(Seq::<char>::empty() + disasm::insn_lines(l, pc) =~= disasm::insn_lines(l, pc));
        }
    }
}

/// What is asked to be disassembled: a place and a number, a number alone, a place alone, or nothing; ten
/// instructions where no number is given.
pub proof fn law_what_to_disassemble(cmd: Seq<char>, place: Seq<char>, n: usize)
    requires
        numerals::parse_number(place, 10, usize::MAX as nat) is None,
    ensures
        code::code_wanted(seq![cmd]) == (None::<Seq<char>>, 10usize),
        code::code_wanted(seq![cmd, place]) == (Some(place), 10usize),
        code::code_wanted(seq![cmd, numerals::dec(n as nat)]) == (None::<Seq<char>>, n),
        code::code_wanted(seq![cmd, place, numerals::dec(n as nat)]) == (Some(place), n),
{
    numerals::law_number_is_read(n as nat, 10, usize::MAX as nat);
}

/// Without a place the code at the program counter is shown, with one the code at its address.
pub proof fn law_where_to_disassemble(
    d: Dbg,
    t: Rest,
    base: Option<u64>,
    syms: Option<&Symbols>,
    parts: Seq<Seq<char>>,
    a: usize,
    u: Rest,
    pc: u64,
)
    ensures
        code::code_wanted(parts).0 is None && debugger::pc_of(d, t) == (Ok::<u64, StopSeq>(pc), u)
            ==> code::code_shown(d, t, base, syms, parts) == code::code_at(
            d,
            u,
            base,
            syms,
            pc,
            code::code_wanted(parts).1,
        ),
        code::code_wanted(parts).0 matches Some(arg) ==> (code::place_named(d, t, base, syms, arg) == (
            Ok::<_, StopSeq>(Ok::<usize, Seq<char>>(a)),
            u,
        ) ==> code::code_shown(d, t, base, syms, parts) == code::code_at(
            d,
            u,
            base,
            syms,
            a as u64,
            code::code_wanted(parts).1,
        )),
{
}

/// The function whose code is shown is the one that holds the address that is as far from `__TEXT` as the
/// code is from the base.
pub proof fn law_code_head(s: &Symbols, b: u64, addr: u64, v: u64)
    requires
        v.wrapping_sub(s.text_vmaddr) == addr.wrapping_sub(b),
    ensures
        s.holder(v) matches Some((name, _)) ==> code::code_head(Some(s), Some(b), addr)
            == "Dump of assembler code for function "@ + name + ":\n"@,
        s.holder(v) is None ==> code::code_head(Some(s), Some(b), addr).len() == 0,
{
    assert(addr.wrapping_sub(b.wrapping_sub(s.text_vmaddr)) == v);
}

/// A list of locals has the variables that are no arguments and can be seen at the address, one of
/// arguments those that are, and one of globals those without a scope.
pub proof fn law_lists_of_variables(s: &Symbols, pc: u64, v: Variable)
    ensures
        VarKind::Locals.of(s, pc).contains(v) <==> s.variables@.contains(v) && !v.is_argument && (
        v.scope matches Some((low, high)) && low <= pc < high),
        VarKind::Args.of(s, pc).contains(v) <==> s.variables@.contains(v) && v.is_argument && (
        v.scope matches Some((low, high)) && low <= pc < high),
        VarKind::Globals.of(s, pc).contains(v) <==> s.variables@.contains(v) && v.scope is None,
{
    let p = |v: Variable| symbols::in_scope(v, pc) && !v.is_argument;
    let q = |v: Variable| symbols::in_scope(v, pc) && v.is_argument;
    let g = |v: Variable| v.scope is None;
    lemma_filtered(s.variables@, p, v);
    lemma_filtered(s.variables@, q, v);
    lemma_filtered(s.variables@, g, v);
}

/// A filtered list has what it had that passes.
proof fn lemma_filtered(t: Seq<Variable>, p: spec_fn(Variable) -> bool, v: Variable)
    ensures
        t.filter(p).contains(v) <==> t.contains(v) && p(v),
    decreases t.len(),
{
    reveal(Seq::filter);
    if t.len() > 0 {
        let r = t.drop_last();
        lemma_filtered(r, p, v);
        let f = r.filter(p);
        let x = t.last();
        assert(f.push(x).contains(v) <==> f.contains(v) || v == x) by {
            if f.contains(v) {
                let i = choose|i: int| 0 <= i < f.len() && f[i] == v;
                assert(f.push(x)[i] == v);
            }
            assert(f.push(x)[f.len() as int] == x);
            if f.push(x).contains(v) {
                let i = choose|i: int| 0 <= i < f.push(x).len() && f.push(x)[i] == v;
                if i < f.len() {
                    assert(f[i] == v);
                }
            }
        }
        assert(t.contains(v) <==> r.contains(v) || v == x) by {
            if r.contains(v) {
                let i = choose|i: int| 0 <= i < r.len() && r[i] == v;
                assert(t[i] == v);
            }
            assert(t[t.len() - 1] == x);
            if t.contains(v) {
                let i = choose|i: int| 0 <= i < t.len() && t[i] == v;
                if i < r.len() {
                    assert(r[i] == v);
                }
            }
        }
    }
}

/// The locals and the arguments that are shown are those at the address of the file that is as far from
/// `__TEXT` as the program counter is from the base. Globals need no registers.
pub proof fn law_variables_at_the_program_counter(
    d: Dbg,
    t: Rest,
    b: u64,
    s: &Symbols,
    k: VarKind,
    regs: Registers,
    v: u64,
)
    requires
        d.current < d.threads.len(),
        t.len() > 0 && t[0] == AnsSeq::Registers(regs),
        v.wrapping_sub(s.text_vmaddr) == (match regs {
            Registers::X86(g) => g.__rip,
            Registers::Arm(g) => g.__pc,
        }).wrapping_sub(b),
    ensures
        k is Globals ==> code::kind_shown(d, t, Some(b), Some(s), k) == code::shown_text(
            variables::variables_shown(d, t, k.of(s, 0), b.wrapping_sub(s.text_vmaddr)),
        ),
        !(k is Globals) ==> code::kind_shown(d, t, Some(b), Some(s), k) == code::shown_text(
            variables::variables_shown(d, t.skip(1), k.of(s, v), b.wrapping_sub(s.text_vmaddr)),
        ),
{
    let pc = regs.spec_pc();
    assert(pc.wrapping_sub(b.wrapping_sub(s.text_vmaddr)) == v);
}

/// The word behind `show` says what is shown.
pub proof fn law_show_by_its_word(
    d: Dbg,
    t: Rest,
    base: Option<u64>,
    syms: Option<&Symbols>,
    parts: Seq<Seq<char>>,
    at: Seq<usize>,
)
    requires
        parts.len() >= 2,
    ensures
        parts[1] == "bp"@ ==> code::list_shown(d, t, base, syms, parts, at) == (
            Ok::<_, StopSeq>(
                (ReportSeq { out: code::breakpoints_text(base, syms, at), err: Seq::empty() }),
            ),
            t,
        ),
        parts[1] == "locals"@ ==> code::list_shown(d, t, base, syms, parts, at) == code::kind_shown(
            d,
            t,
            base,
            syms,
            VarKind::Locals,
        ),
        parts[1] == "args"@ ==> code::list_shown(d, t, base, syms, parts, at) == code::kind_shown(
            d,
            t,
            base,
            syms,
            VarKind::Args,
        ),
        parts[1] == "globals"@ ==> code::list_shown(d, t, base, syms, parts, at) == code::kind_shown(
            d,
            t,
            base,
            syms,
            VarKind::Globals,
        ),
{
    reveal_strlit("bp");
    reveal_strlit("locals");
    reveal_strlit("args");
    reveal_strlit("globals");
    assert("bp"@[0] == 'b');
    assert("locals"@[0] == 'l');
    assert("args"@[0] == 'a');
    assert("globals"@[0] == 'g');
}

/// What is listed: a line of a file by the path that the debug information has for it, or by the name as
/// it is where that file exists; a line of the current file; or the place of a symbol.
pub proof fn law_what_to_list(
    s: &Symbols,
    f: Seq<char>,
    n: u32,
    cur: Seq<char>,
    there: bool,
    path: Seq<char>,
    l: u32,
    v: u64,
    name: Seq<char>,
)
    ensures
        s.spec_line(f, n) == Some(v) && s.spec_location(v) == Some((path, l)) ==> location::list_place(
            f + ":"@ + numerals::dec(n as nat),
            Some(cur),
            Some(s),
            there,
        ) == Ok::<_, Seq<char>>((path, n)),
        s.spec_line(f, n) is None && there ==> location::list_place(
            f + ":"@ + numerals::dec(n as nat),
            Some(cur),
            Some(s),
            there,
        ) == Ok::<_, Seq<char>>((f, n)),
        s.spec_line(f, n) is None && !there ==> location::list_place(
            f + ":"@ + numerals::dec(n as nat),
            Some(cur),
            Some(s),
            there,
        ) is Err,
        location::list_place(numerals::dec(n as nat), Some(cur), Some(s), there) == Ok::<_, Seq<char>>((cur, n)),
        location::list_place(numerals::dec(n as nat), None, Some(s), there) is Err,
        text::last_index(name, ':') is None && location::line_number(name) is None && s.symbol_addr(name)
            == Some(v) && s.spec_location(v) == Some((path, l)) ==> location::list_place(
            name,
            Some(cur),
            Some(s),
            there,
        ) == Ok::<_, Seq<char>>((path, l)),
{
    reveal_strlit(":");
    let d = numerals::dec(n as nat);
    let t = f + ":"@ + d;
    law_file_and_line_read_back(f, n);
    numerals::lemma_numeral_digits(n as nat, 10);
    lemma_last(t, ':', f.len() as int);
    assert(t.take(f.len() as int) =~= f);
    assert(t.skip(f.len() as int + 1) =~= d);
    lemma_absent(d, ':');
}

/// A character that stands nowhere has no last place.
proof fn lemma_absent(s: Seq<char>, c: char)
    requires
        forall|j: int| 0 <= j < s.len() ==> #[trigger] s[j] != c,
    ensures
        text::last_index(s, c) is None,
    decreases s.len(),
{
    if s.len() > 0 {
        let r = s.drop_last();
        assert forall|j: int| 0 <= j < r.len() implies #[trigger] r[j] != c by {
            assert(r[j] == s[j]);
        }
        lemma_absent(r, c);
    }
}

/// Without a word the place of the current thread is listed.
pub proof fn law_list_here(
    d: Dbg,
    t: Rest,
    base: Option<u64>,
    syms: Option<&Symbols>,
    u: Rest,
    p: (Seq<char>, u32),
    a: Seq<char>,
    there: bool,
)
    requires
        location::line_read(d, t, base, syms) == (Ok::<_, StopSeq>(Some(p)), u),
    ensures
        line::list_asked(d, t, base, syms, None, there) == (
            Ok::<_, StopSeq>(Ok::<(Seq<char>, u32), Seq<char>>(p)),
            u,
        ),
        line::list_asked(d, t, base, syms, Some(a), there) == (
            Ok::<_, StopSeq>(location::list_place(a, Some(p.0), syms, there)),
            u,
        ),
{
}

/// A place is resolved from the file in which the current thread is.
pub proof fn law_place_from_the_current_file(
    d: Dbg,
    t: Rest,
    base: Option<u64>,
    syms: Option<&Symbols>,
    u: Rest,
    p: Option<(Seq<char>, u32)>,
    arg: Seq<char>,
)
    requires
        location::line_read(d, t, base, syms) == (Ok::<_, StopSeq>(p), u),
    ensures
        code::place_named(d, t, base, syms, arg).1 == u,
        p matches Some((f, _)) ==> code::place_named(d, t, base, syms, arg).0 == Ok::<_, StopSeq>(
            location::located(arg, base, syms, Some(f)),
        ),
        p is None ==> code::place_named(d, t, base, syms, arg).0 == Ok::<_, StopSeq>(
            location::located(arg, base, syms, None),
        ),
{
}

/// When the tracking begins the address of each function that is watched is told, and no other.
pub proof fn law_hooks_are_told(a: usize)
    ensures
        breaks::hooks_text(None, None, None, None) == "Leak tracking enabled.\n"@,
        breaks::hooks_text(Some(a), None, None, None) == "Leak tracking enabled.\n"@ + ("  malloc  @ "@
            + numerals::addr_text(a as nat) + "\n"@),
        breaks::hooks_text(None, Some(a), None, None) == "Leak tracking enabled.\n"@ + ("  calloc  @ "@
            + numerals::addr_text(a as nat) + "\n"@),
        breaks::hooks_text(None, None, Some(a), None) == "Leak tracking enabled.\n"@ + ("  realloc @ "@
            + numerals::addr_text(a as nat) + "\n"@),
        breaks::hooks_text(None, None, None, Some(a)) == "Leak tracking enabled.\n"@ + ("  free    @ "@
            + numerals::addr_text(a as nat) + "\n"@),
{
    let e = Seq::<char>::empty();
    let h = "Leak tracking enabled.\n"@;
    let n = numerals::addr_text(a as nat);
    assert(h + e + e + e + e =~= h);
    assert(h + ("  malloc  @ "@ + n + e + "\n"@) + e + e + e =~= h + ("  malloc  @ "@ + n + "\n"@));
    assert(h + e + ("  calloc  @ "@ + n + e + "\n"@) + e + e =~= h + ("  calloc  @ "@ + n + "\n"@));
    assert(h + e + e + ("  realloc @ "@ + n + e + "\n"@) + e =~= h + ("  realloc @ "@ + n + "\n"@));
    assert(h + e + e + e + ("  free    @ "@ + n + e + "\n"@) =~= h + ("  free    @ "@ + n + "\n"@));
}

/// Without debug information a line and a symbol cannot be found; an address can.
pub proof fn law_places_without_symbols(arg: Seq<char>, base: Option<u64>, file: Option<Seq<char>>)
    ensures
        location::file_line(arg) is Some ==> location::located(arg, base, None, file) is Err,
        location::line_number(arg) is Some ==> location::located(arg, base, None, file) is Err,
        location::file_line(arg) is None && location::line_number(arg) is None ==> {
            &&& location::addr_named(arg, base) matches Some(a) ==> location::located(arg, base, None, file)
                == Ok::<usize, Seq<char>>(a)
            &&& location::addr_named(arg, base) is None ==> location::located(arg, base, None, file) is Err
        },
{
}

/// A count that is no number is ten.
pub proof fn law_count_that_is_no_number(cmd: Seq<char>, place: Seq<char>, n: Seq<char>)
    requires
        numerals::parse_number(n, 10, usize::MAX as nat) is None,
    ensures
        code::code_wanted(seq![cmd, place, n]) == (Some(place), 10usize),
{
}

/// What is no address is refused, and nothing is asked.
pub proof fn law_no_address(d: Dbg, t: Rest, base: Option<u64>, arg: Seq<char>, at: Seq<usize>)
    requires
        location::addr_named(arg, base) is None,
    ensures
        breaks::word_shown(t, base, arg).1 == t,
        breaks::word_shown(t, base, arg).0 matches Ok(p) && p.out.len() == 0 && p.err == "invalid address\n"@,
        arg != "all"@ && code::count_named(arg) is None ==> breaks::delete_asked(d, t, base, arg, at).d == d
            && breaks::delete_asked(d, t, base, arg, at).t == t,
{
}

/// The tracking of leaks ends, and is shown, only where it has begun.
pub proof fn law_leaks_without_tracking(
    d: Dbg,
    t: Rest,
    at: Seq<usize>,
    l: leak_tracker::Leaks,
    syms: Option<&Symbols>,
    base: Option<u64>,
    o: LeakOut<()>,
)
    requires
        o == leak_tracker::untracked(l, d, t, at),
    ensures
        breaks::leaks_ended(None, d, t, at).d == d && breaks::leaks_ended(None, d, t, at).t == t,
        breaks::leaks_ended(None, d, t, at).r matches Ok(p) && p.out.len() == 0,
        breaks::leaks_ended(Some(l), d, t, at).d == o.d && breaks::leaks_ended(Some(l), d, t, at).t == o.t,
        o.r is Ok ==> (breaks::leaks_ended(Some(l), d, t, at).r matches Ok(p) && p.err.len() == 0),
        breaks::leaks_report(None, syms, base, at).out.len() == 0,
        breaks::leaks_report(Some(l), syms, base, at) == (ReportSeq {
            out: leak_tracker::leaks_text(syms, base, l.live, at),
            err: Seq::empty(),
        }),
{
}

} // verus!
