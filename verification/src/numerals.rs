//! Numbers as text: digits, prefixes, padding, and reading them back.
use vstd::prelude::*;

verus! {

/// The character of a digit below sixteen, in small letters.
pub open spec fn digit_char(d: nat) -> char {
    if d < 10 {
        (48 + d) as char
    } else {
        (87 + d) as char
    }
}

/// The character of a digit below sixteen, in capitals.
pub open spec fn upper_digit_char(d: nat) -> char {
    if d < 10 {
        (48 + d) as char
    } else {
        (55 + d) as char
    }
}

/// The numeral of `n` in base `radix`, without leading zeros; zero is `0`.
pub open spec fn numeral(n: nat, radix: nat) -> Seq<char>
    decreases n,
{
    if radix < 2 || n < radix {
        seq![digit_char(n)]
    } else {
        proof {
            assert(n / radix < n) by (nonlinear_arith)
                requires
                    2 <= radix <= n,
            ;
        }
        numeral(n / radix, radix).push(digit_char(n % radix))
    }
}

/// The hexadecimal numeral of `n` in capitals.
pub open spec fn upper_hex(n: nat) -> Seq<char>
    decreases n,
{
    if n < 16 {
        seq![upper_digit_char(n)]
    } else {
        upper_hex(n / 16).push(upper_digit_char(n % 16))
    }
}

/// `n` copies of `c`.
pub open spec fn repeat(c: char, n: nat) -> Seq<char> {
    Seq::new(n, |i: int| c)
}

/// `s` with copies of `c` before it, up to `width` characters.
pub open spec fn pad_left(s: Seq<char>, width: nat, c: char) -> Seq<char> {
    if s.len() < width {
        repeat(c, (width - s.len()) as nat) + s
    } else {
        s
    }
}

/// `s` with copies of `c` behind it, up to `width` characters.
pub open spec fn pad_right(s: Seq<char>, width: nat, c: char) -> Seq<char> {
    if s.len() < width {
        s + repeat(c, (width - s.len()) as nat)
    } else {
        s
    }
}

/// The decimal numeral of `n`.
pub open spec fn dec(n: nat) -> Seq<char> {
    numeral(n, 10)
}

/// The decimal numeral of a signed number.
pub open spec fn signed_dec(n: int) -> Seq<char> {
    if n < 0 {
        seq!['-'] + dec((-n) as nat)
    } else {
        dec(n as nat)
    }
}

/// `0x` and the hexadecimal numeral of `n`.
pub open spec fn hex(n: nat) -> Seq<char> {
    "0x"@ + numeral(n, 16)
}

/// `0x` and the hexadecimal numeral of `n`, filled with zeros to `width` digits.
pub open spec fn hex_wide(n: nat, width: nat) -> Seq<char> {
    "0x"@ + pad_left(numeral(n, 16), width, '0')
}

/// The address format: `0x` and sixteen hexadecimal digits.
pub open spec fn addr_text(n: nat) -> Seq<char> {
    hex_wide(n, 16)
}

/// The value of a digit in base `radix`.
pub open spec fn digit_value(c: char, radix: nat) -> Option<nat> {
    let v: int = if '0' <= c && c <= '9' {
        c as int - 48
    } else if 'a' <= c && c <= 'z' {
        c as int - 87
    } else if 'A' <= c && c <= 'Z' {
        c as int - 55
    } else {
        99
    };
    if v < radix {
        Some(v as nat)
    } else {
        None
    }
}

/// The number that a row of digits in base `radix` spells; nothing if one of them is no digit.
pub open spec fn digits_value(s: Seq<char>, radix: nat) -> Option<nat>
    decreases s.len(),
{
    if s.len() == 0 {
        Some(0)
    } else {
        match (digits_value(s.drop_last(), radix), digit_value(s.last(), radix)) {
            (Some(v), Some(d)) => Some(v * radix + d),
            _ => None,
        }
    }
}

/// An unsigned number of at most `max` in base `radix`: at least one digit, and a plus sign may
/// come first.
pub open spec fn parse_number(s: Seq<char>, radix: nat, max: nat) -> Option<nat> {
    let body = if s.len() > 0 && s[0] == '+' {
        s.skip(1)
    } else {
        s
    };
    if body.len() == 0 {
        None
    } else {
        match digits_value(body, radix) {
            Some(v) => if v <= max {
                Some(v)
            } else {
                None
            },
            None => None,
        }
    }
}

/// The character of a digit below sixteen.
pub fn digit(d: u64, upper: bool) -> (c: char)
    requires
        d < 16,
    ensures
        c == (if upper {
            upper_digit_char(d as nat)
        } else {
            digit_char(d as nat)
        }),
{
    if d < 10 {
        (48 + d as u8) as char
    } else if upper {
        (55 + d as u8) as char
    } else {
        (87 + d as u8) as char
    }
}

/// Appends the numeral of `n` in base `radix`.
pub fn push_numeral(out: &mut String, n: u64, radix: u64)
    requires
        2 <= radix <= 16,
    ensures
        final(out)@ == old(out)@ + numeral(n as nat, radix as nat),
    decreases n,
{
    if n >= radix {
        let ghost before = out@;
        assert(n / radix < n) by (nonlinear_arith)
            requires
                n >= radix,
                radix >= 2,
        ;
        push_numeral(out, n / radix, radix);
        let ghost mid = out@;
        out.push(digit(n % radix, false));
        assert(out@ =~= before + numeral(n as nat, radix as nat));
    } else {
        let ghost before = out@;
        out.push(digit(n, false));
        assert(out@ =~= before + numeral(n as nat, radix as nat));
    }
}

/// Appends the hexadecimal numeral of `n` in capitals.
pub fn push_upper_hex(out: &mut String, n: u64)
    ensures
        final(out)@ == old(out)@ + upper_hex(n as nat),
    decreases n,
{
    let ghost before = out@;
    if n >= 16 {
        push_upper_hex(out, n / 16);
        out.push(digit(n % 16, true));
        assert(out@ =~= before + upper_hex(n as nat));
    } else {
        out.push(digit(n, true));
        assert(out@ =~= before + upper_hex(n as nat));
    }
}

/// Appends `n` copies of `c`.
pub fn push_repeat(out: &mut String, c: char, n: usize)
    ensures
        final(out)@ == old(out)@ + repeat(c, n as nat),
{
    let ghost before = out@;
    let mut i: usize = 0;
    assert(before + repeat(c, 0) =~= before);
    while i < n
        invariant
            i <= n,
            out@ == before + repeat(c, i as nat),
        decreases n - i,
    {
        out.push(c);
        i = i + 1;
        assert(before + repeat(c, i as nat) =~= (before + repeat(c, (i - 1) as nat)).push(c));
    }
}

/// Appends `s` with copies of `c` before it, up to `width` characters.
pub fn push_padded_left(out: &mut String, s: &str, width: usize, c: char)
    ensures
        final(out)@ == old(out)@ + pad_left(s@, width as nat, c),
{
    let n: usize = s.unicode_len();
    let ghost before = out@;
    if n < width {
        push_repeat(out, c, width - n);
    }
    out.append(s);
    assert(out@ =~= before + pad_left(s@, width as nat, c));
}

/// Appends `s` with copies of `c` behind it, up to `width` characters.
pub fn push_padded_right(out: &mut String, s: &str, width: usize, c: char)
    ensures
        final(out)@ == old(out)@ + pad_right(s@, width as nat, c),
{
    let n: usize = s.unicode_len();
    let ghost before = out@;
    out.append(s);
    if n < width {
        push_repeat(out, c, width - n);
    }
    assert(out@ =~= before + pad_right(s@, width as nat, c));
}

/// Appends the decimal numeral of `n`.
pub fn push_dec(out: &mut String, n: u64)
    ensures
        final(out)@ == old(out)@ + dec(n as nat),
{
    push_numeral(out, n, 10);
}

/// Appends the decimal numeral of a signed number.
pub fn push_signed(out: &mut String, n: i64)
    ensures
        final(out)@ == old(out)@ + signed_dec(n as int),
{
    let ghost before = out@;
    if n < 0 {
        out.push('-');
        if n == i64::MIN {
            push_numeral(out, 0x8000_0000_0000_0000, 10);
        } else {
            push_numeral(out, (-n) as u64, 10);
        }
        assert(out@ =~= before + signed_dec(n as int));
    } else {
        push_numeral(out, n as u64, 10);
    }
}

/// Appends `0x` and the hexadecimal numeral of `n`.
pub fn push_hex(out: &mut String, n: u64)
    ensures
        final(out)@ == old(out)@ + hex(n as nat),
{
    let ghost before = out@;
    out.append("0x");
    push_numeral(out, n, 16);
    assert(out@ =~= before + hex(n as nat));
}

/// Appends the hexadecimal numeral of `n`, filled with zeros to `width` digits.
pub fn push_hex_digits(out: &mut String, n: u64, width: usize)
    ensures
        final(out)@ == old(out)@ + pad_left(numeral(n as nat, 16), width as nat, '0'),
{
    let mut digits = String::new();
    push_numeral(&mut digits, n, 16);
    assert(digits@ =~= numeral(n as nat, 16));
    push_padded_left(out, digits.as_str(), width, '0');
}

/// Appends `0x` and the hexadecimal numeral of `n`, filled with zeros to `width` digits.
pub fn push_hex_wide(out: &mut String, n: u64, width: usize)
    ensures
        final(out)@ == old(out)@ + hex_wide(n as nat, width as nat),
{
    let ghost before = out@;
    out.append("0x");
    push_hex_digits(out, n, width);
    assert(out@ =~= before + hex_wide(n as nat, width as nat));
}

/// Appends an address: `0x` and sixteen hexadecimal digits.
pub fn push_addr(out: &mut String, n: u64)
    ensures
        final(out)@ == old(out)@ + addr_text(n as nat),
{
    push_hex_wide(out, n, 16);
}

/// The value of a digit in base `radix`.
pub fn value_of_digit(c: char, radix: u64) -> (r: Option<u64>)
    requires
        radix <= 36,
    ensures
        match r {
            Some(d) => digit_value(c, radix as nat) == Some(d as nat),
            None => digit_value(c, radix as nat) is None,
        },
{
    let v: u64 = if '0' <= c && c <= '9' {
        c as u64 - 48
    } else if 'a' <= c && c <= 'z' {
        c as u64 - 87
    } else if 'A' <= c && c <= 'Z' {
        c as u64 - 55
    } else {
        99
    };
    if v < radix {
        Some(v)
    } else {
        None
    }
}

proof fn lemma_digits_grow(s: Seq<char>, i: int, radix: nat)
    requires
        0 <= i <= s.len(),
        radix >= 1,
    ensures
        digits_value(s.take(i), radix) is None ==> digits_value(s, radix) is None,
        digits_value(s, radix) is Some ==> digits_value(s.take(i), radix) is Some && digits_value(
            s,
            radix,
        )->0 >= digits_value(s.take(i), radix)->0,
    decreases s.len() - i,
{
    if i < s.len() {
        lemma_digits_grow(s, i + 1, radix);
        let t = s.take(i + 1);
        assert(t.drop_last() =~= s.take(i));
        if digits_value(t, radix) is Some {
            let v = digits_value(s.take(i), radix)->0;
            assert(v * radix >= v) by (nonlinear_arith)
                requires
                    radix >= 1,
            ;
        }
    } else {
        assert(s.take(i) =~= s);
    }
}

/// Reads an unsigned number of at most `max` in base `radix`.
pub fn read_number(s: &[char], radix: u64, max: u64) -> (r: Option<u64>)
    requires
        2 <= radix <= 36,
    ensures
        match r {
            Some(v) => parse_number(s@, radix as nat, max as nat) == Some(v as nat),
            None => parse_number(s@, radix as nat, max as nat) is None,
        },
{
    let start: usize = if s.len() > 0 && s[0] == '+' {
        1
    } else {
        0
    };
    let ghost body = s@.skip(start as int);
    assert(s@.skip(0) =~= s@);
    if s.len() == start {
        return None;
    }
    let mut v: u64 = 0;
    let mut i: usize = start;
    assert(body.take(0) =~= Seq::empty());
    while i < s.len()
        invariant
            2 <= radix <= 36,
            start <= i <= s.len(),
            body == s@.skip(start as int),
            start < s.len(),
            parse_number(s@, radix as nat, max as nat) == (match digits_value(body, radix as nat) {
                Some(w) => if w <= max {
                    Some(w)
                } else {
                    None
                },
                None => None,
            }),
            v <= max,
            digits_value(body.take(i - start), radix as nat) == Some(v as nat),
        decreases s.len() - i,
    {
        let ghost t = body.take(i - start + 1);
        proof {
            assert(t.drop_last() =~= body.take(i - start));
            assert(t.last() == s@[i as int]);
            lemma_digits_grow(body, i - start + 1, radix as nat);
        }
        let d: u64 = match value_of_digit(s[i], radix) {
            Some(d) => d,
            None => {
                return None;
            },
        };
        assert(v * radix <= 0xffff_ffff_ffff_ffff * 36) by (nonlinear_arith)
            requires
                v <= 0xffff_ffff_ffff_ffff,
                radix <= 36,
        ;
        let wide: u128 = v as u128 * radix as u128;
        let next: u128 = wide + d as u128;
        if next > max as u128 {
            return None;
        }
        v = next as u64;
        i = i + 1;
    }
    assert(body.take(body.len() as int) =~= body);
    Some(v)
}

/// The decimal numeral of `n`.
pub fn dec_string(n: u64) -> (r: String)
    ensures
        r@ == dec(n as nat),
{
    let mut s = String::new();
    push_dec(&mut s, n);
    assert(s@ =~= dec(n as nat));
    s
}

/// Reading a numeral gives back the number that was written.
pub proof fn law_numeral_reads_back(n: nat, radix: nat)
    requires
        2 <= radix <= 16,
    ensures
        digits_value(numeral(n, radix), radix) == Some(n),
        numeral(n, radix).len() >= 1,
    decreases n,
{
    if n < radix {
        let s = numeral(n, radix);
        assert(s.drop_last() =~= Seq::empty());
        assert(digit_value(digit_char(n), radix) == Some(n));
        assert(s.last() == digit_char(n));
        assert(digits_value(s.drop_last(), radix) == Some(0nat));
        assert(0nat * radix + n == n) by (nonlinear_arith);
    } else {
        let q = n / radix;
        let d = n % radix;
        assert(q < n && d < radix && n == q * radix + d) by (nonlinear_arith)
            requires
                n >= radix,
                radix >= 2,
                q == n / radix,
                d == n % radix,
        ;
        law_numeral_reads_back(q, radix);
        let s = numeral(n, radix);
        assert(s.drop_last() =~= numeral(q, radix));
        assert(digit_value(digit_char(d), radix) == Some(d));
    }
}

/// The digits are those of the alphabet `0123456789abcdef`, in small letters or in capitals, and each is
/// worth its place there, in every base that has it.
pub proof fn law_digits(d: nat, radix: nat)
    requires
        d < 16,
    ensures
        digit_char(d) == "0123456789abcdef"@[d as int],
        upper_digit_char(d) == "0123456789ABCDEF"@[d as int],
        d < radix ==> digit_value("0123456789abcdef"@[d as int], radix) == Some(d),
        d < radix ==> digit_value("0123456789ABCDEF"@[d as int], radix) == Some(d),
        d >= radix ==> digit_value("0123456789abcdef"@[d as int], radix) is None,
        d >= radix ==> digit_value("0123456789ABCDEF"@[d as int], radix) is None,
{
    reveal_strlit("0123456789abcdef");
    reveal_strlit("0123456789ABCDEF");
}

/// A character that is neither a digit nor a letter of ASCII is worth nothing in any base up to sixteen.
pub proof fn law_no_digit(c: char, radix: nat)
    requires
        radix <= 16,
        !('0' <= c && c <= '9'),
        !('a' <= c && c <= 'f'),
        !('A' <= c && c <= 'F'),
    ensures
        digit_value(c, radix) is None,
{
}

/// A numeral is made of digits, of the decimal ones where its base is at most ten.
pub proof fn lemma_numeral_digits(n: nat, radix: nat)
    requires
        2 <= radix <= 16,
    ensures
        numeral(n, radix).len() >= 1,
        forall|i: int|
            0 <= i < numeral(n, radix).len() ==> ('0' <= #[trigger] numeral(n, radix)[i] && numeral(
                n,
                radix,
            )[i] <= '9') || (radix > 10 && 'a' <= numeral(n, radix)[i] && numeral(n, radix)[i] <= 'f'),
    decreases n,
{
    if n >= radix {
        let q = n / radix;
        let d = n % radix;
        assert(q < n && d < radix) by (nonlinear_arith)
            requires
                n >= radix,
                radix >= 2,
                q == n / radix,
                d == n % radix,
        ;
        lemma_numeral_digits(q, radix);
        let s = numeral(n, radix);
        assert(s == numeral(q, radix).push(digit_char(d)));
    }
}

/// A numeral has no leading zero, and is no longer than the number needs: below `radix` to the power `k`
/// at most `k` digits.
pub proof fn law_numeral_is_short(n: nat, radix: nat, k: nat, power: nat)
    requires
        2 <= radix <= 16,
        power == vstd::arithmetic::power::pow(radix as int, k),
        k >= 1,
    ensures
        n > 0 ==> numeral(n, radix)[0] != '0',
        n < power ==> numeral(n, radix).len() <= k,
        n >= power ==> numeral(n, radix).len() > k,
    decreases n,
{
    lemma_numeral_digits(n, radix);
    let m = (k - 1) as nat;
    let below = vstd::arithmetic::power::pow(radix as int, m);
    reveal_with_fuel(vstd::arithmetic::power::pow, 2);
    assert(vstd::arithmetic::power::pow(radix as int, k) == radix * below);
    vstd::arithmetic::power::lemma_pow_positive(radix as int, m);
    if n < radix {
        if n >= power {
            assert(radix * below >= radix) by (nonlinear_arith)
                requires
                    below >= 1,
                    radix >= 2,
            ;
        }
    } else {
        let q = n / radix;
        let d = n % radix;
        assert(q < n && d < radix && n == q * radix + d && q > 0) by (nonlinear_arith)
            requires
                n >= radix,
                radix >= 2,
                q == n / radix,
                d == n % radix,
        ;
        lemma_numeral_digits(q, radix);
        let s = numeral(n, radix);
        assert(s == numeral(q, radix).push(digit_char(d)));
        assert(s[0] == numeral(q, radix)[0]);
        if m >= 1 {
            law_numeral_is_short(q, radix, m, below as nat);
            assert(n < radix * below ==> q < below) by (nonlinear_arith)
                requires
                    n == q * radix + d,
                    d >= 0,
                    radix >= 2,
            ;
            assert(n >= radix * below ==> q >= below) by (nonlinear_arith)
                requires
                    n == q * radix + d,
                    d < radix,
                    radix >= 2,
            ;
        } else {
            assert(below == 1);
            law_numeral_is_short(q, radix, 1, radix);
            assert(vstd::arithmetic::power::pow(radix as int, 1) == radix);
        }
    }
}

/// Capital hexadecimal is read back as well, and holds no small letters.
pub proof fn law_upper_hex_reads_back(n: nat)
    ensures
        digits_value(upper_hex(n), 16) == Some(n),
        upper_hex(n).len() == numeral(n, 16).len(),
        forall|i: int|
            0 <= i < upper_hex(n).len() ==> ('0' <= #[trigger] upper_hex(n)[i] && upper_hex(n)[i] <= '9')
                || ('A' <= upper_hex(n)[i] && upper_hex(n)[i] <= 'F'),
    decreases n,
{
    let s = upper_hex(n);
    if n < 16 {
        assert(s.drop_last() =~= Seq::empty());
        assert(digit_value(s.last(), 16) == Some(n));
        assert(digits_value(s.drop_last(), 16) == Some(0nat));
    } else {
        law_upper_hex_reads_back(n / 16);
        assert(s.drop_last() =~= upper_hex(n / 16));
        assert(digit_value(s.last(), 16) == Some(n % 16));
        assert(s == upper_hex(n / 16).push(upper_digit_char(n % 16)));
    }
}

/// Zeros before a numeral do not change what it is worth.
pub proof fn law_leading_zeros(s: Seq<char>, k: nat, radix: nat)
    requires
        2 <= radix,
    ensures
        digits_value(repeat('0', k) + s, radix) == digits_value(s, radix),
    decreases s.len(), k,
{
    let z = repeat('0', k) + s;
    if s.len() > 0 {
        law_leading_zeros(s.drop_last(), k, radix);
        assert(z.drop_last() =~= repeat('0', k) + s.drop_last());
    } else if k > 0 {
        law_leading_zeros(s, (k - 1) as nat, radix);
        assert(z.drop_last() =~= repeat('0', (k - 1) as nat) + s);
        assert(z.last() == '0');
        assert(0nat * radix + 0nat == 0) by (nonlinear_arith);
    } else {
        assert(z =~= s);
    }
}

/// An address is shown as `0x` and sixteen digits that are worth it.
pub proof fn law_address_reads_back(a: u64)
    ensures
        addr_text(a as nat).len() == 18,
        addr_text(a as nat)[0] == '0' && addr_text(a as nat)[1] == 'x',
        digits_value(addr_text(a as nat).skip(2), 16) == Some(a as nat),
{
    reveal_strlit("0x");
    let n = numeral(a as nat, 16);
    law_numeral_reads_back(a as nat, 16);
    assert(vstd::arithmetic::power::pow(16, 16) == 0x1_0000_0000_0000_0000) by {
        reveal_with_fuel(vstd::arithmetic::power::pow, 17);
    }
    law_numeral_is_short(a as nat, 16, 16, 0x1_0000_0000_0000_0000);
    let p = pad_left(n, 16, '0');
    if n.len() < 16 {
        law_leading_zeros(n, (16 - n.len()) as nat, 16);
    }
    assert(p.len() == 16);
    assert(addr_text(a as nat).skip(2) =~= p);
}

/// A text that is filled up is as wide as it should be, and still the same at its end or beginning.
pub proof fn law_padding(s: Seq<char>, width: nat, c: char)
    ensures
        pad_left(s, width, c).len() == (if s.len() < width {
            width
        } else {
            s.len()
        }),
        pad_right(s, width, c).len() == pad_left(s, width, c).len(),
        pad_left(s, width, c).skip(pad_left(s, width, c).len() - s.len()) == s,
        pad_right(s, width, c).take(s.len() as int) == s,
        forall|i: int| 0 <= i < pad_left(s, width, c).len() - s.len() ==> pad_left(s, width, c)[i] == c,
        forall|i: int|
            s.len() <= i < pad_right(s, width, c).len() ==> pad_right(s, width, c)[i] == c,
{
    assert(pad_left(s, width, c).skip(pad_left(s, width, c).len() - s.len()) =~= s);
    assert(pad_right(s, width, c).take(s.len() as int) =~= s);
}

/// A signed number is its magnitude, behind a minus sign where it is negative.
pub proof fn law_signed_reads_back(n: int)
    ensures
        n >= 0 ==> digits_value(signed_dec(n), 10) == Some(n as nat) && signed_dec(n)[0] != '-',
        n < 0 ==> signed_dec(n)[0] == '-' && digits_value(signed_dec(n).skip(1), 10) == Some((-n) as nat),
{
    if n >= 0 {
        law_numeral_reads_back(n as nat, 10);
        lemma_numeral_digits(n as nat, 10);
    } else {
        law_numeral_reads_back((-n) as nat, 10);
        assert(signed_dec(n).skip(1) =~= dec((-n) as nat));
    }
}

/// A number is read where every character is a digit, with or without a plus sign before it, and only up
/// to the greatest that is asked for.
pub proof fn law_number_is_read(n: nat, radix: nat, max: nat)
    requires
        2 <= radix <= 16,
    ensures
        n <= max ==> parse_number(numeral(n, radix), radix, max) == Some(n),
        n <= max ==> parse_number(seq!['+'] + numeral(n, radix), radix, max) == Some(n),
        n > max ==> parse_number(numeral(n, radix), radix, max) is None,
        parse_number(Seq::empty(), radix, max) is None,
        parse_number(seq!['+'], radix, max) is None,
        parse_number(seq!['-'] + numeral(n, radix), radix, max) is None,
{
    law_numeral_reads_back(n, radix);
    lemma_numeral_digits(n, radix);
    assert((seq!['+'] + numeral(n, radix)).skip(1) =~= numeral(n, radix));
    assert(seq!['+'].skip(1) =~= Seq::<char>::empty());
    lemma_bad_digit(seq!['-'] + numeral(n, radix), radix, 0);
}

/// A row with a character that is no digit spells no number.
pub proof fn lemma_bad_digit(s: Seq<char>, radix: nat, i: int)
    requires
        0 <= i < s.len(),
        digit_value(s[i], radix) is None,
    ensures
        digits_value(s, radix) is None,
    decreases s.len(),
{
    if i < s.len() - 1 {
        assert(s.drop_last()[i] == s[i]);
        lemma_bad_digit(s.drop_last(), radix, i);
    }
}

} // verus!
