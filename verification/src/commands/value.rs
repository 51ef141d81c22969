//! Printing values: the formats of `p`.
use crate::commands::location;
use crate::commands::location::is_identifier;
use crate::commands::show;
use crate::commands::show::{complain, show, Report, ReportSeq};
use crate::debugger;
use crate::debugger::{Dbg, Debugger};
use crate::numerals;
use crate::numerals::{
    push_addr, push_dec, push_hex, push_hex_digits, push_numeral, push_padded_left, push_signed,
    push_upper_hex,
};
use crate::tape::{Got, Halt, Rest, Stop, StopSeq, Tape};
use crate::text;
use crate::text::{chars_between, chars_of, find_first, owned, rest_of, string_of, trim_chars};
use vstd::prelude::*;

verus! {

/// What `p` is asked for: a format and an expression.
#[derive(Clone, Debug, PartialEq, Eq)]
pub struct PrintRequest {
    pub fmt: Option<char>,
    pub expr: String,
}

/// The format that stands behind a slash in the name of the command.
pub open spec fn format_in_name(cmd: Seq<char>) -> Option<char> {
    match text::first_index(cmd, '/') {
        Some(i) => if i + 1 < cmd.len() {
            Some(cmd[i + 1])
        } else {
            None
        },
        None => None,
    }
}

/// The format and the expression of `p`. The format is a letter behind a slash, in the name of the
/// command or before the expression.
pub open spec fn print_wanted(cmd: Seq<char>, line: Seq<char>) -> (Option<char>, Seq<char>) {
    let rest = text::after_word(line);
    if format_in_name(cmd) is None && rest.len() > 0 && rest[0] == '/' {
        if rest.len() > 1 && text::is_alphabetic(rest[1]) {
            (Some(rest[1]), text::trim(rest.skip(2)))
        } else {
            (None, rest)
        }
    } else {
        (format_in_name(cmd), rest)
    }
}

/// The format and the expression of `p`.
pub fn parse_print(cmd: &str, line: &str) -> (r: PrintRequest)
    ensures
        (r.fmt, r.expr@) == print_wanted(cmd@, line@),
{
    let c = chars_of(cmd);
    let in_name: Option<char> = match find_first(c.as_slice(), '/') {
        Some(i) => if i + 1 < c.len() {
            Some(c[i + 1])
        } else {
            None
        },
        None => None,
    };
    let rest = rest_of(line);
    let n: usize = rest.len();
    if in_name.is_none() && n > 0 && rest[0] == '/' {
        if n > 1 && rest[1].is_alphabetic() {
            let f: char = rest[1];
            let behind = chars_between(rest.as_slice(), 2, n);
            assert(behind@ =~= rest@.skip(2));
            let expr = trim_chars(behind.as_slice());
            return PrintRequest { fmt: Some(f), expr: string_of(expr.as_slice()) };
        }
        return PrintRequest { fmt: None, expr: string_of(rest.as_slice()) };
    }
    PrintRequest { fmt: in_name, expr: string_of(rest.as_slice()) }
}

/// What stands before a value: the name of a variable and an equals sign.
pub open spec fn value_prefix(expr: Seq<char>) -> Seq<char> {
    if location::is_name(expr) {
        expr + " = "@
    } else {
        Seq::empty()
    }
}

/// Whether a byte can be shown as it is: a space or one of ASCII's graphic characters.
pub open spec fn is_plain(b: int) -> bool {
    0x20 <= b <= 0x7e
}

/// A byte as an escape of two hexadecimal digits.
pub open spec fn escaped(b: u8) -> Seq<char> {
    "\\x"@ + numerals::pad_left(numerals::numeral(b as nat, 16), 2, '0')
}

/// Whether a number is a character.
pub open spec fn is_char(w: u32) -> bool {
    w < 0xd800 || (0xe000 <= w && w <= 0x10ffff)
}

/// A value as a character: the number, and the character or an escape of its low byte. A number that is
/// no character is shown as a question mark.
pub open spec fn as_char(v: u64) -> Seq<char> {
    let w = v as u32;
    numerals::signed_dec((v as i64) as int) + " '"@ + (if !is_char(w) {
        "?"@
    } else if is_plain(w as int) {
        seq![w as char]
    } else {
        escaped(v as u8)
    }) + "'"@
}

/// A value in a format; nothing for a format that is not known. Without a format a variable is shown in
/// decimal and another value in hexadecimal first.
pub open spec fn formatted(fmt: Option<char>, expr: Seq<char>, v: u64) -> Option<Seq<char>> {
    let p = value_prefix(expr);
    match fmt {
        None => Some(
            if location::is_name(expr) {
                p + numerals::signed_dec((v as i64) as int) + "  ("@ + numerals::hex(v as nat) + ")"@
            } else {
                numerals::addr_text(v as nat) + "  ("@ + numerals::dec(v as nat) + ")"@
            },
        ),
        Some(c) => if c == 'x' || c == 'a' {
            Some(p + numerals::addr_text(v as nat))
        } else if c == 'X' {
            Some(p + "0x"@ + numerals::pad_left(numerals::upper_hex(v as nat), 16, '0'))
        } else if c == 'd' {
            Some(p + numerals::signed_dec((v as i64) as int))
        } else if c == 'u' {
            Some(p + numerals::dec(v as nat))
        } else if c == 'o' {
            Some(p + "0o"@ + numerals::numeral(v as nat, 8))
        } else if c == 't' {
            Some(p + "0b"@ + numerals::numeral(v as nat, 2))
        } else if c == 'c' {
            Some(p + as_char(v))
        } else {
            None
        },
    }
}

/// Appends a byte as an escape.
fn push_escaped(out: &mut String, b: u8)
    ensures
        final(out)@ == old(out)@ + escaped(b),
{
    let ghost before = out@;
    out.append("\\x");
    push_hex_digits(out, b as u64, 2);
    assert(out@ =~= before + escaped(b));
}

/// Appends a value as a character.
fn push_char(out: &mut String, v: u64)
    ensures
        final(out)@ == old(out)@ + as_char(v),
{
    let ghost before = out@;
    let w: u32 = v as u32;
    push_signed(out, v as i64);
    out.append(" '");
    if !(w < 0xd800 || (0xe000 <= w && w <= 0x10ffff)) {
        out.append("?");
    } else if 0x20 <= w && w <= 0x7e {
        let ghost mid = out@;
        out.push(w as u8 as char);
        assert(out@ =~= mid + seq![w as char]);
    } else {
        push_escaped(out, v as u8);
    }
    out.append("'");
    assert(out@ =~= before + as_char(v));
}

/// What stands before a value.
fn prefix_of(expr: &str) -> (r: String)
    ensures
        r@ == value_prefix(expr@),
{
    if is_identifier(expr) {
        let mut s = owned(expr);
        s.append(" = ");
        s
    } else {
        let s = String::new();
        assert(s@ =~= Seq::empty());
        s
    }
}

/// A value in a format; nothing for a format that is not known.
pub fn format_value(fmt: Option<char>, expr: &str, v: u64) -> (r: Option<String>)
    ensures
        match r {
            Some(s) => formatted(fmt, expr@, v) == Some(s@),
            None => formatted(fmt, expr@, v) is None,
        },
{
    let mut out = prefix_of(expr);
    let ghost p = out@;
    match fmt {
        None => {
            if is_identifier(expr) {
                push_signed(&mut out, v as i64);
                out.append("  (");
                push_hex(&mut out, v);
            } else {
                push_addr(&mut out, v);
                out.append("  (");
                push_dec(&mut out, v);
            }
            out.append(")");
            assert(out@ =~= formatted(fmt, expr@, v)->0);
        },
        Some(c) => {
            if c == 'x' || c == 'a' {
                push_addr(&mut out, v);
            } else if c == 'X' {
                let mut digits = String::new();
                push_upper_hex(&mut digits, v);
                assert(digits@ =~= numerals::upper_hex(v as nat));
                out.append("0x");
                push_padded_left(&mut out, digits.as_str(), 16, '0');
            } else if c == 'd' {
                push_signed(&mut out, v as i64);
            } else if c == 'u' {
                push_dec(&mut out, v);
            } else if c == 'o' {
                out.append("0o");
                push_numeral(&mut out, v, 8);
            } else if c == 't' {
                out.append("0b");
                push_numeral(&mut out, v, 2);
            } else if c == 'c' {
                push_char(&mut out, v);
            } else {
                return None;
            }
        },
    }
    Some(out)
}

/// The text of the bytes from `i` on up to the first zero, and whether there is one.
pub open spec fn text_until_zero(b: Seq<u8>, i: nat) -> (Seq<char>, bool)
    decreases b.len() - i,
{
    if i >= b.len() {
        (Seq::empty(), false)
    } else if b[i as int] == 0 {
        (Seq::empty(), true)
    } else {
        let (rest, ended) = text_until_zero(b, i + 1);
        (
            (if is_plain(b[i as int] as int) {
                seq![b[i as int] as char]
            } else {
                escaped(b[i as int])
            }) + rest,
            ended,
        )
    }
}

/// Appends the text of some bytes up to the first zero. Gives whether there is one.
fn push_text(out: &mut String, b: &Vec<u8>) -> (r: bool)
    ensures
        final(out)@ == old(out)@ + text_until_zero(b@, 0).0,
        r == text_until_zero(b@, 0).1,
{
    let ghost before = out@;
    let mut i: usize = 0;
    assert(out@ + text_until_zero(b@, 0).0 =~= before + text_until_zero(b@, 0).0);
    while i < b.len()
        invariant
            i <= b@.len(),
            before == old(out)@,
            out@ + text_until_zero(b@, i as nat).0 == before + text_until_zero(b@, 0).0,
            text_until_zero(b@, i as nat).1 == text_until_zero(b@, 0).1,
        decreases b.len() - i,
    {
        let c: u8 = b[i];
        let ghost mid = out@;
        let ghost rest = text_until_zero(b@, (i + 1) as nat).0;
        if c == 0 {
            assert(out@ + Seq::<char>::empty() =~= out@);
            return true;
        }
        if 0x20 <= c && c <= 0x7e {
            out.push(c as char);
            assert(mid + (seq![c as char] + rest) =~= out@ + rest);
        } else {
            push_escaped(out, c);
            assert(mid + (escaped(c) + rest) =~= out@ + rest);
        }
        i = i + 1;
    }
    assert(out@ + Seq::<char>::empty() =~= out@);
    false
}

/// The text at `addr`, read in pieces of sixty-four bytes up to a zero, behind `done`. Where memory
/// cannot be read it ends with the message.
pub open spec fn text_read(d: Dbg, t: Rest, addr: usize, done: Seq<char>) -> Got<
    (Seq<char>, Option<Seq<char>>),
>
    decreases t.len(),
{
    match debugger::mem_of(d, t, addr, 64) {
        (Err(Halt::Ask(q)), u) => (Err(Halt::Ask(q)), u),
        (Err(Halt::Fail(m)), u) => (Ok((done, Some(m))), u),
        (Ok(b), u) => {
            let (s, ended) = text_until_zero(b, 0);
            if ended {
                (Ok((done + s, None)), u)
            } else {
                text_read(d, u, addr.wrapping_add(b.len() as usize), done + s)
            }
        },
    }
}

/// The outcome of reading text.
pub open spec fn step_read(r: Result<(String, Option<String>), Stop>) -> Result<
    (Seq<char>, Option<Seq<char>>),
    StopSeq,
> {
    match r {
        Ok((s, m)) => Ok(
            (
                s@,
                match m {
                    Some(x) => Some(x@),
                    None => None,
                },
            ),
        ),
        Err(h) => Err(h.seq()),
    }
}

/// The text at `first`.
pub fn read_text(io: &mut Tape, dbg: &Debugger, first: usize) -> (r: Result<(String, Option<String>), Stop>)
    ensures
        (step_read(r), final(io)@) == text_read(dbg.state(), old(io)@, first, Seq::empty()),
{
    let mut out = String::new();
    let mut addr: usize = first;
    let ghost d = dbg.state();
    assert(out@ =~= Seq::empty());
    loop
        invariant
            d == dbg.state(),
            text_read(d, old(io)@, first, Seq::empty()) == text_read(d, io@, addr, out@),
        decreases io@.len(),
    {
        match dbg.read_memory(io, addr, 64) {
            Err(Halt::Ask(q)) => return Err(Halt::Ask(q)),
            Err(Halt::Fail(m)) => return Ok((out, Some(m))),
            Ok(b) => {
                if push_text(&mut out, &b) {
                    return Ok((out, None));
                }
                addr = addr.wrapping_add(b.len());
            },
        }
    }
}

/// The line of a text: its address, and the text in quotes.
pub open spec fn text_line(expr: Seq<char>, v: u64, s: Seq<char>) -> Seq<char> {
    value_prefix(expr) + numerals::addr_text(v as nat) + "  \""@ + s + "\"\n"@
}

/// What `p` shows of a value: the text at it for the format `s`, else the value in its format.
pub open spec fn value_shown(d: Dbg, t: Rest, fmt: Option<char>, expr: Seq<char>, v: u64) -> Got<
    ReportSeq,
> {
    if fmt == Some('s') {
        match text_read(d, t, v as usize, Seq::empty()) {
            (Err(h), u) => (Err(h), u),
            (Ok((s, m)), u) => (
                Ok(
                    ReportSeq {
                        out: text_line(expr, v, s),
                        err: match m {
                            Some(e) => "print: failed to read string at "@ + numerals::hex(v as nat)
                                + ": "@ + e + "\n"@,
                            None => Seq::empty(),
                        },
                    },
                ),
                u,
            ),
        }
    } else {
        (
            Ok(
                match formatted(fmt, expr, v) {
                    Some(s) => show::shows(s + "\n"@),
                    None => show::complains("print: unknown format '"@ + seq![fmt->0] + "'\n"@),
                },
            ),
            t,
        )
    }
}

/// What `p` shows of a value.
pub fn print_value(io: &mut Tape, dbg: &Debugger, fmt: Option<char>, expr: &str, v: u64) -> (r: Result<
    Report,
    Stop,
>)
    ensures
        (show::step_report(r), final(io)@) == value_shown(dbg.state(), old(io)@, fmt, expr@, v),
{
    if let Some('s') = fmt {
        let (s, m) = read_text(io, dbg, v as usize)?;
        let mut out = prefix_of(expr);
        push_addr(&mut out, v);
        out.append("  \"");
        out.append(s.as_str());
        out.append("\"\n");
        assert(out@ =~= text_line(expr@, v, s@));
        let mut err = String::new();
        assert(err@ =~= Seq::empty());
        if let Some(e) = m {
            err = owned("print: failed to read string at ");
            push_hex(&mut err, v);
            err.append(": ");
            err.append(e.as_str());
            err.append("\n");
        }
        return Ok(Report { out, err });
    }
    match format_value(fmt, expr, v) {
        Some(s) => {
            let mut out = s;
            out.append("\n");
            Ok(show(out))
        },
        None => {
            let mut m = owned("print: unknown format '");
            if let Some(f) = fmt {
                let ghost before = m@;
                m.push(f);
                assert(m@ =~= before + seq![f]);
            }
            m.append("'\n");
            Ok(complain(m))
        },
    }
}

} // verus!
