//! What holds of expressions: how operators bind, what numbers mean, and what the operators compute.
use crate::bytes;
use crate::expr::eval;
use crate::expr::eval::{EvalContext, Outcome};
use crate::expr::grammar;
use crate::expr::lexer;
use crate::expr::lexer::{Tok, Token};
use crate::expr::{Ast, Op};
use crate::numerals;
use crate::text;
use vstd::prelude::*;

verus! {

/// How tightly an operator between two operands binds: `|` least, and then `^`, `&`, the shifts, sums and
/// products.
pub open spec fn rank(t: Tok) -> Option<nat> {
    match t {
        Token::Pipe => Some(0),
        Token::Caret => Some(1),
        Token::Amp => Some(2),
        Token::Shl | Token::Shr => Some(3),
        Token::Plus | Token::Minus => Some(4),
        Token::Star | Token::Slash | Token::Percent => Some(5),
        _ => None,
    }
}

/// What an operator between two operands computes.
pub open spec fn operator(t: Tok) -> Op {
    match t {
        Token::Pipe => Op::Or,
        Token::Caret => Op::Xor,
        Token::Amp => Op::And,
        Token::Shl => Op::Shl,
        Token::Shr => Op::Shr,
        Token::Plus => Op::Add,
        Token::Minus => Op::Sub,
        Token::Star => Op::Mul,
        Token::Slash => Op::Div,
        _ => Op::Mod,
    }
}

/// What derives at a level derives at every level below it.
proof fn lemma_looser(level: nat, tight: nat, ts: Seq<Tok>, e: Ast)
    requires
        level <= tight <= 8,
        grammar::derives(tight, ts, e),
    ensures
        grammar::derives(level, ts, e),
    decreases tight - level,
{
    if level < tight {
        lemma_looser(level + 1, tight, ts, e);
    }
}

proof fn lemma_number(level: nat, a: u64)
    requires
        level <= 8,
    ensures
        grammar::derives(level, seq![Token::Number(a)], Ast::Number(a)),
{
    let ts: Seq<Tok> = seq![Token::Number(a)];
    assert(grammar::atom(ts[0]) == Some(Ast::Number(a)));
    assert(grammar::derives(8, ts, Ast::Number(a)));
    lemma_looser(level, 8, ts, Ast::Number(a));
}

/// Two operands with an operator between them.
proof fn lemma_pair(level: nat, o: Tok, xs: Seq<Tok>, x: Ast, ys: Seq<Tok>, y: Ast)
    requires
        grammar::binary_op(o) == Some((level, operator(o))),
        level < 6,
        grammar::derives(level, xs, x),
        grammar::derives(level + 1, ys, y),
    ensures
        grammar::derives(
            level,
            xs + seq![o] + ys,
            Ast::Binary(operator(o), Box::new(x), Box::new(y)),
        ),
{
    let ts = xs + seq![o] + ys;
    let i = xs.len() as int;
    assert(ts.take(i) =~= xs);
    assert(ts.skip(i + 1) =~= ys);
    assert(grammar::op_at(ts, i, level, operator(o)));
}

/// An operator binds its operands before one that binds less tightly, and of two that bind alike the left
/// one comes first.
pub proof fn law_precedence(a: u64, o: Tok, b: u64, p: Tok, c: u64)
    requires
        rank(o) is Some,
        rank(p) is Some,
    ensures
        grammar::read_all(
            seq![Token::Number(a), o, Token::Number(b), p, Token::Number(c)],
        ) == Some(
            if rank(o)->0 >= rank(p)->0 {
                Ast::Binary(
                    operator(p),
                    Box::new(
                        Ast::Binary(operator(o), Box::new(Ast::Number(a)), Box::new(Ast::Number(b))),
                    ),
                    Box::new(Ast::Number(c)),
                )
            } else {
                Ast::Binary(
                    operator(o),
                    Box::new(Ast::Number(a)),
                    Box::new(
                        Ast::Binary(operator(p), Box::new(Ast::Number(b)), Box::new(Ast::Number(c))),
                    ),
                )
            },
        ),
{
    let l = rank(o)->0;
    let m = rank(p)->0;
    let ts: Seq<Tok> = seq![Token::Number(a), o, Token::Number(b), p, Token::Number(c)];
    let na: Seq<Tok> = seq![Token::Number(a)];
    let nb: Seq<Tok> = seq![Token::Number(b)];
    let nc: Seq<Tok> = seq![Token::Number(c)];
    let (x, y, z) = (Ast::Number(a), Ast::Number(b), Ast::Number(c));
    if l >= m {
        lemma_number(l, a);
        lemma_number(l + 1, b);
        lemma_pair(l, o, na, x, nb, y);
        let xy = Ast::Binary(operator(o), Box::new(x), Box::new(y));
        lemma_looser(m, l, na + seq![o] + nb, xy);
        lemma_number(m + 1, c);
        lemma_pair(m, p, na + seq![o] + nb, xy, nc, z);
        let e = Ast::Binary(operator(p), Box::new(xy), Box::new(z));
        assert(na + seq![o] + nb + seq![p] + nc =~= ts);
        lemma_looser(0, m, ts, e);
        grammar::law_reads_what_derives(ts, e);
    } else {
        lemma_number(m, b);
        lemma_number(m + 1, c);
        lemma_pair(m, p, nb, y, nc, z);
        let yz = Ast::Binary(operator(p), Box::new(y), Box::new(z));
        lemma_looser(l + 1, m, nb + seq![p] + nc, yz);
        lemma_number(l, a);
        lemma_pair(l, o, na, x, nb + seq![p] + nc, yz);
        let e = Ast::Binary(operator(o), Box::new(x), Box::new(yz));
        assert(na + seq![o] + (nb + seq![p] + nc) =~= ts);
        lemma_looser(0, l, ts, e);
        grammar::law_reads_what_derives(ts, e);
    }
}

/// A prefix binds tighter than every operator between two operands, and an access tighter than every
/// prefix.
pub proof fn law_prefixes(o: Tok, a: u64, b: u64, n: Seq<char>, f: Seq<char>)
    requires
        rank(o) is Some,
        n != "base"@,
    ensures
        grammar::read_all(seq![Token::Minus, Token::Number(a), o, Token::Number(b)]) == Some(
            Ast::Binary(
                operator(o),
                Box::new(Ast::Unary(Op::Neg, Box::new(Ast::Number(a)))),
                Box::new(Ast::Number(b)),
            ),
        ),
        grammar::read_all(seq![Token::Star, Token::Name(n), Token::Dot, Token::Name(f)]) == Some(
            Ast::Unary(Op::Deref, Box::new(Ast::Member(Box::new(Ast::Variable(n)), f))),
        ),
        grammar::read_all(seq![Token::Amp, Token::Name(n)]) == Some(
            Ast::Unary(Op::AddrOf, Box::new(Ast::Variable(n))),
        ),
        grammar::read_all(seq![Token::Tilde, Token::Number(a)]) == Some(
            Ast::Unary(Op::Not, Box::new(Ast::Number(a))),
        ),
        grammar::read_all(seq![Token::Name(n), Token::Arrow, Token::Name(f)]) == Some(
            Ast::PtrMember(Box::new(Ast::Variable(n)), f),
        ),
{
    let l = rank(o)->0;
    lemma_number(6, a);
    let neg: Seq<Tok> = seq![Token::Minus, Token::Number(a)];
    let u = Ast::Unary(Op::Neg, Box::new(Ast::Number(a)));
    assert(neg.skip(1) =~= seq![Token::Number(a)]);
    assert(grammar::derives(6, neg, u));
    lemma_looser(l, 6, neg, u);
    lemma_number(l + 1, b);
    lemma_pair(l, o, neg, u, seq![Token::Number(b)], Ast::Number(b));
    let ts: Seq<Tok> = seq![Token::Minus, Token::Number(a), o, Token::Number(b)];
    let e = Ast::Binary(operator(o), Box::new(u), Box::new(Ast::Number(b)));
    assert(neg + seq![o] + seq![Token::Number(b)] =~= ts);
    lemma_looser(0, l, ts, e);
    grammar::law_reads_what_derives(ts, e);

    let vs: Seq<Tok> = seq![Token::Name(n)];
    let v = Ast::Variable(n);
    assert(grammar::atom(vs[0]) == Some(v));
    assert(grammar::derives(8, vs, v));
    lemma_looser(7, 8, vs, v);
    lemma_looser(6, 8, vs, v);
    let ms: Seq<Tok> = seq![Token::Name(n), Token::Dot, Token::Name(f)];
    let m = Ast::Member(Box::new(v), f);
    assert(ms.take(1) =~= vs);
    assert(grammar::derives(7, ms, m));
    lemma_looser(6, 7, ms, m);
    let ds: Seq<Tok> = seq![Token::Star, Token::Name(n), Token::Dot, Token::Name(f)];
    let d = Ast::Unary(Op::Deref, Box::new(m));
    assert(ds.skip(1) =~= ms);
    assert(grammar::derives(6, ds, d));
    lemma_looser(0, 6, ds, d);
    grammar::law_reads_what_derives(ds, d);

    let qs: Seq<Tok> = seq![Token::Amp, Token::Name(n)];
    let q = Ast::Unary(Op::AddrOf, Box::new(v));
    assert(qs.skip(1) =~= vs);
    assert(grammar::derives(6, qs, q));
    lemma_looser(0, 6, qs, q);
    grammar::law_reads_what_derives(qs, q);

    let cs: Seq<Tok> = seq![Token::Tilde, Token::Number(a)];
    let c = Ast::Unary(Op::Not, Box::new(Ast::Number(a)));
    assert(cs.skip(1) =~= seq![Token::Number(a)]);
    assert(grammar::derives(6, cs, c));
    lemma_looser(0, 6, cs, c);
    grammar::law_reads_what_derives(cs, c);

    let ps: Seq<Tok> = seq![Token::Name(n), Token::Arrow, Token::Name(f)];
    let p = Ast::PtrMember(Box::new(v), f);
    assert(ps.take(1) =~= vs);
    assert(grammar::derives(7, ps, p));
    lemma_looser(0, 7, ps, p);
    grammar::law_reads_what_derives(ps, p);
}

/// What stands in brackets is one operand.
pub proof fn law_brackets(ts: Seq<Tok>, e: Ast)
    requires
        grammar::read_all(ts) == Some(e),
        ts.len() > 0,
    ensures
        grammar::read_all(seq![Token::LParen] + ts + seq![Token::RParen]) == Some(e),
{
    grammar::law_reads_what_derives(ts, e);
    let bs = seq![Token::LParen] + ts + seq![Token::RParen];
    assert(bs.subrange(1, bs.len() - 1) =~= ts);
    assert(bs[0] is LParen && bs.last() is RParen);
    assert(grammar::derives(8, bs, e));
    lemma_looser(0, 8, bs, e);
    grammar::law_reads_what_derives(bs, e);
}

/// A number is read back from its hexadecimal, its binary, its octal and its decimal form.
pub proof fn law_numbers_read_back(v: u64)
    ensures
        lexer::number_value("0x"@ + numerals::numeral(v as nat, 16)) == Some(v as nat),
        lexer::number_value("0b"@ + numerals::numeral(v as nat, 2)) == Some(v as nat),
        lexer::number_value("0o"@ + numerals::numeral(v as nat, 8)) == Some(v as nat),
        lexer::number_value(numerals::numeral(v as nat, 10)) == Some(v as nat),
{
    reveal_strlit("0x");
    reveal_strlit("0b");
    reveal_strlit("0o");
    lemma_marked("0x"@, v, 16);
    lemma_marked("0b"@, v, 2);
    lemma_marked("0o"@, v, 8);
    numerals::law_number_is_read(v as nat, 10, u64::MAX as nat);
    numerals::lemma_numeral_digits(v as nat, 10);
    let d = numerals::numeral(v as nat, 10);
    assert("0x"@[1] == 'x' && "0b"@[1] == 'b' && "0o"@[1] == 'o');
    let b = "0b"@ + numerals::numeral(v as nat, 2);
    let o = "0o"@ + numerals::numeral(v as nat, 8);
    assert(b[1] == 'b' && o[1] == 'o');
}

proof fn lemma_marked(p: Seq<char>, v: u64, radix: nat)
    requires
        p.len() == 2,
        2 <= radix <= 16,
    ensures
        p.is_prefix_of(p + numerals::numeral(v as nat, radix)),
        numerals::parse_number((p + numerals::numeral(v as nat, radix)).skip(2), radix, u64::MAX as nat)
            == Some(v as nat),
{
    let n = numerals::numeral(v as nat, radix);
    assert((p + n).skip(2) =~= n);
    assert(p =~= (p + n).take(2));
    numerals::law_number_is_read(v as nat, radix, u64::MAX as nat);
}

/// Blanks between tokens do not matter.
pub proof fn law_blanks_do_not_matter(c: char, s: Seq<char>)
    requires
        text::is_whitespace(c),
    ensures
        lexer::lex(seq![c] + s) == lexer::lex(s),
{
    assert((seq![c] + s).skip(1) =~= s);
}

/// Every operator is written with its sign of C.
pub proof fn law_signs(rest: Seq<char>)
    requires
        rest.len() == 0 || (rest[0] != '<' && rest[0] != '>'),
    ensures
        lexer::first_token(seq!['+'] + rest) == Some((Tok::Plus, 1nat)),
        lexer::first_token(seq!['-'] + rest) == Some((Tok::Minus, 1nat)),
        lexer::first_token(seq!['*'] + rest) == Some((Tok::Star, 1nat)),
        lexer::first_token(seq!['/'] + rest) == Some((Tok::Slash, 1nat)),
        lexer::first_token(seq!['%'] + rest) == Some((Tok::Percent, 1nat)),
        lexer::first_token(seq!['&'] + rest) == Some((Tok::Amp, 1nat)),
        lexer::first_token(seq!['|'] + rest) == Some((Tok::Pipe, 1nat)),
        lexer::first_token(seq!['^'] + rest) == Some((Tok::Caret, 1nat)),
        lexer::first_token(seq!['~'] + rest) == Some((Tok::Tilde, 1nat)),
        lexer::first_token(seq!['('] + rest) == Some((Tok::LParen, 1nat)),
        lexer::first_token(seq![')'] + rest) == Some((Tok::RParen, 1nat)),
        lexer::first_token(seq!['.'] + rest) == Some((Tok::Dot, 1nat)),
        lexer::first_token(seq!['<', '<'] + rest) == Some((Tok::Shl, 2nat)),
        lexer::first_token(seq!['>', '>'] + rest) == Some((Tok::Shr, 2nat)),
        lexer::first_token(seq!['-', '>'] + rest) == Some((Tok::Arrow, 2nat)),
        lexer::first_token(seq!['<'] + rest) is None,
        lexer::first_token(seq!['>'] + rest) is None,
{
}

/// Sums, differences and negation are those of numbers modulo two to the power sixty-four.
pub proof fn law_sums(v: u64, w: u64)
    ensures
        v + w < 0x1_0000_0000_0000_0000 ==> eval::binary(Op::Add, v, w) == Ok::<u64, Seq<char>>(
            (v + w) as u64,
        ),
        v + w >= 0x1_0000_0000_0000_0000 ==> eval::binary(Op::Add, v, w) == Ok::<u64, Seq<char>>(
            (v + w - 0x1_0000_0000_0000_0000) as u64,
        ),
        eval::binary(Op::Add, v, w) matches Ok(s) && eval::binary(Op::Sub, s, w) == Ok::<u64, Seq<char>>(v),
        eval::unary(Op::Neg, v) == eval::binary(Op::Sub, 0, v),
        eval::unary(Op::Not, v) == Ok::<u64, Seq<char>>((0xffff_ffff_ffff_ffff - v) as u64),
{
    assert(!v == 0xffff_ffff_ffff_ffffu64 - v) by (bit_vector);
}

/// A product is that of numbers where it fits. A quotient and its remainder give the number back, and the
/// remainder is smaller than the divisor; there is none by zero.
pub proof fn law_products(v: u64, w: u64)
    ensures
        v * w < 0x1_0000_0000_0000_0000 ==> eval::binary(Op::Mul, v, w) == Ok::<u64, Seq<char>>(
            (v * w) as u64,
        ),
        w == 0 ==> eval::binary(Op::Div, v, w) is Err && eval::binary(Op::Mod, v, w) is Err,
        w != 0 ==> (eval::binary(Op::Div, v, w) is Ok && eval::binary(Op::Mod, v, w) is Ok),
        w != 0 ==> eval::binary(Op::Div, v, w)->Ok_0 * w + eval::binary(Op::Mod, v, w)->Ok_0 == v,
        w != 0 ==> eval::binary(Op::Mod, v, w)->Ok_0 < w,
{
    if w != 0 {
        vstd::arithmetic::div_mod::lemma_fundamental_div_mod(v as int, w as int);
        assert((v / w) * w == w * (v / w)) by (nonlinear_arith);
    }
    if v * w < 0x1_0000_0000_0000_0000 {
        assert(v * w >= 0) by (nonlinear_arith);
        vstd::arithmetic::div_mod::lemma_small_mod((v as nat * w as nat) as nat, 0x1_0000_0000_0000_0000);
    }
}

/// The bit operations work bit by bit.
pub proof fn law_bits(v: u64, w: u64, i: u64)
    requires
        i < 64,
    ensures
        eval::binary(Op::And, v, w) matches Ok(r) && ((r >> i) & 1 == 1 <==> (v >> i) & 1 == 1 && (w >> i) & 1
            == 1),
        eval::binary(Op::Or, v, w) matches Ok(r) && ((r >> i) & 1 == 1 <==> (v >> i) & 1 == 1 || (w >> i) & 1
            == 1),
        eval::binary(Op::Xor, v, w) matches Ok(r) && ((r >> i) & 1 == 1 <==> (v >> i) & 1 != (w >> i) & 1),
{
    assert((((v & w) >> i) & 1 == 1) == ((v >> i) & 1 == 1 && (w >> i) & 1 == 1)) by (bit_vector);
    assert((((v | w) >> i) & 1 == 1) == ((v >> i) & 1 == 1 || (w >> i) & 1 == 1)) by (bit_vector);
    assert((((v ^ w) >> i) & 1 == 1) == ((v >> i) & 1 != (w >> i) & 1)) by (bit_vector);
}

/// A shift by one doubles a number, modulo two to the power sixty-four, or halves it; a shift by more is
/// one after the other, and sixty-four places are none.
pub proof fn law_shifts(v: u64, k: u64)
    requires
        k < 63,
    ensures
        eval::binary(Op::Shl, v, 0) == Ok::<u64, Seq<char>>(v),
        eval::binary(Op::Shr, v, 0) == Ok::<u64, Seq<char>>(v),
        v < 0x8000_0000_0000_0000 ==> eval::binary(Op::Shl, v, 1) == Ok::<u64, Seq<char>>((2 * v) as u64),
        v >= 0x8000_0000_0000_0000 ==> eval::binary(Op::Shl, v, 1) == Ok::<u64, Seq<char>>(
            (2 * v - 0x1_0000_0000_0000_0000) as u64,
        ),
        eval::binary(Op::Shr, v, 1) == Ok::<u64, Seq<char>>(v / 2),
        eval::binary(Op::Shl, v, (k + 1) as u64) == eval::binary(
            Op::Shl,
            eval::binary(Op::Shl, v, k)->Ok_0,
            1,
        ),
        eval::binary(Op::Shr, v, (k + 1) as u64) == eval::binary(
            Op::Shr,
            eval::binary(Op::Shr, v, k)->Ok_0,
            1,
        ),
        eval::binary(Op::Shl, v, (k + 64) as u64) == eval::binary(Op::Shl, v, k),
        eval::binary(Op::Shr, v, (k + 64) as u64) == eval::binary(Op::Shr, v, k),
{
    assert(v << 0u64 == v && v >> 0u64 == v && v >> 1u64 == v / 2) by (bit_vector);
    assert(v < 0x8000_0000_0000_0000u64 ==> (v << 1u64) == 2 * v) by (bit_vector);
    assert(v >= 0x8000_0000_0000_0000u64 ==> (v << 1u64) == 2 * v - 0x1_0000_0000_0000_0000) by (bit_vector);
    let j = (k + 1) as u64;
    assert((v << j) == ((v << k) << 1u64) && (v >> j) == ((v >> k) >> 1u64)) by (bit_vector)
        requires
            k < 63,
            j == k + 1,
    ;
}

/// The operators that stand before an operand are none between two, and the other way round.
pub proof fn law_operators_in_their_place(v: u64, w: u64)
    ensures
        eval::binary(Op::Not, v, w) is Err && eval::binary(Op::Neg, v, w) is Err && eval::binary(
            Op::Deref,
            v,
            w,
        ) is Err && eval::binary(Op::AddrOf, v, w) is Err,
        eval::unary(Op::Add, v) is Err && eval::unary(Op::Mul, v) is Err && eval::unary(Op::And, v) is Err,
{
}

/// A variable is worth at least one and at most eight of its bytes, the least significant first.
pub proof fn law_bytes_of_a_variable(size: u8, b: Seq<u8>, n: usize)
    ensures
        1 <= size <= 8 ==> eval::clamped(size) == size,
        size == 0 ==> eval::clamped(size) == 1,
        size > 8 ==> eval::clamped(size) == 8,
        b.len() == n && n <= 8 ==> eval::prefix_value(b, n) == bytes::le(b),
        b.len() > n && n <= 8 ==> eval::prefix_value(b, n) == bytes::le(b.take(n as int)),
{
    if n <= 8 && b.len() >= n {
        bytes::lemma_le_bound(b.take(n as int));
        bytes::lemma_pow256_values();
        assert(b.len() == n ==> b.take(n as int) =~= b);
    }
}

/// Whether a text is made of letters, digits and underscores of ASCII.
pub open spec fn wordy(w: Seq<char>) -> bool {
    forall|i: int| 0 <= i < w.len() ==> is_wordy(#[trigger] w[i])
}

/// Whether a character is a letter, a digit or an underscore of ASCII.
pub open spec fn is_wordy(c: char) -> bool {
    ('a' <= c && c <= 'z') || ('A' <= c && c <= 'Z') || ('0' <= c && c <= '9') || c == '_'
}

proof fn lemma_word_ends(w: Seq<char>, rest: Seq<char>)
    requires
        wordy(w),
        rest.len() == 0 || !is_wordy(rest[0]),
    ensures
        lexer::word_len(w + rest) == w.len(),
    decreases w.len(),
{
    let s = w + rest;
    if w.len() > 0 {
        assert(is_wordy(w[0]));
        assert(s[0] == w[0]);
        let r = w.skip(1);
        assert forall|i: int| 0 <= i < r.len() implies is_wordy(#[trigger] r[i]) by {
            assert(r[i] == w[i + 1]);
        }
        lemma_word_ends(r, rest);
        assert(s.skip(1) =~= r + rest);
    } else if rest.len() > 0 {
        assert(s[0] == rest[0]);
    }
}

/// A word is a name where it does not begin with a digit, a number where it does, and the name of a
/// register behind a dollar sign. It ends where no letter, digit or underscore follows.
pub proof fn law_tokens_of_words(w: Seq<char>, rest: Seq<char>, v: u64)
    requires
        w.len() > 0,
        wordy(w),
        rest.len() == 0 || !is_wordy(rest[0]),
    ensures
        !('0' <= w[0] && w[0] <= '9') ==> lexer::first_token(w + rest) == Some((Tok::Name(w), w.len())),
        ('0' <= w[0] && w[0] <= '9') && lexer::number_value(w) == Some(v as nat) ==> lexer::first_token(w + rest)
            == Some((Tok::Number(v), w.len())),
        ('0' <= w[0] && w[0] <= '9') && lexer::number_value(w) is None ==> lexer::first_token(w + rest) is None,
        lexer::first_token(seq!['$'] + w + rest) == Some((Tok::Register(w), w.len() + 1)),
        lexer::first_token(seq!['$'] + rest) is None,
{
    lemma_word_ends(w, rest);
    assert(is_wordy(w[0]));
    let s = w + rest;
    assert(s[0] == w[0]);
    assert(s.take(w.len() as int) =~= w);
    let d = seq!['$'] + w + rest;
    assert(d[0] == '$');
    assert(d.skip(1) =~= w + rest);
    assert(d.subrange(1, 1 + w.len() as int) =~= w);
    lemma_word_ends(Seq::empty(), rest);
    let e = seq!['$'] + rest;
    assert(e[0] == '$');
    assert(e.skip(1) =~= Seq::<char>::empty() + rest);
}

/// A number is worth itself, `base` the image base, and a register its value.
pub proof fn law_worth_of_registers<
    'a,
    M: Fn(usize, usize) -> Result<Vec<u8>, String>,
    V: Fn(&str) -> Result<(u64, u8), String>,
    A: Fn(&str) -> Result<u64, String>,
    F: Fn(&str, &str) -> Result<(u64, u8), String>,
    T: Fn(&str) -> Result<(String, bool, String), String>,
>(ctx: EvalContext<'a, M, V, A, F, T>, n: Seq<char>, v: u64, r: Outcome)
    ensures
        ctx.evals(Ast::Number(v), r) <==> r == Ok::<u64, Seq<char>>(v),
        ctx.evals(Ast::Register("base"@), r) ==> (ctx.base matches Some(b) ==> r == Ok::<u64, Seq<char>>(b)),
        ctx.evals(Ast::Register("base"@), r) ==> (ctx.base is None ==> r is Err),
        n != "base"@ && ctx.evals(Ast::Register(n), r) ==> (ctx.regs.named(n) matches Some(x) ==> r == Ok::<
            u64,
            Seq<char>,
        >(x)),
        n != "base"@ && ctx.evals(Ast::Register(n), r) ==> (ctx.regs.named(n) is None ==> r is Err),
{
}

/// A binary operation works on what its left operand is worth and what its right one is, in that order;
/// where one fails, that is its outcome.
pub proof fn law_worth_of_operations<
    'a,
    M: Fn(usize, usize) -> Result<Vec<u8>, String>,
    V: Fn(&str) -> Result<(u64, u8), String>,
    A: Fn(&str) -> Result<u64, String>,
    F: Fn(&str, &str) -> Result<(u64, u8), String>,
    T: Fn(&str) -> Result<(String, bool, String), String>,
>(
    ctx: EvalContext<'a, M, V, A, F, T>,
    op: Op,
    a: Ast,
    b: Ast,
    x: Outcome,
    y: Outcome,
    r: Outcome,
)
    requires
        forall|z: Outcome| #[trigger] ctx.evals(a, z) <==> z == x,
        forall|z: Outcome| #[trigger] ctx.evals(b, z) <==> z == y,
        ctx.evals(Ast::Binary(op, Box::new(a), Box::new(b)), r),
    ensures
        x is Err ==> r == x,
        x is Ok && y is Err ==> r == y,
        x is Ok && y is Ok ==> r == eval::binary(op, x->Ok_0, y->Ok_0),
{
    let z = choose|z: Outcome| #[trigger]
        eval::met(z) && ctx.evals(a, z) && match z {
            Err(m) => r == z,
            Ok(v) => exists|w: Outcome| #[trigger]
                eval::met(w) && ctx.evals(b, w) && match w {
                    Err(m) => r == w,
                    Ok(u) => r == eval::binary(op, v, u),
                },
        };
    assert(ctx.evals(a, z));
    assert(z == x);
    if let Ok(v) = z {
        let w = choose|w: Outcome| #[trigger]
            eval::met(w) && ctx.evals(b, w) && match w {
                Err(m) => r == w,
                Ok(u) => r == eval::binary(op, v, u),
            };
        assert(ctx.evals(b, w));
        assert(w == y);
    }
}

/// A prefix works on what its operand is worth: `-` and `~` on the number, `*` on the eight bytes of memory
/// at it.
pub proof fn law_worth_of_prefixes<
    'a,
    M: Fn(usize, usize) -> Result<Vec<u8>, String>,
    V: Fn(&str) -> Result<(u64, u8), String>,
    A: Fn(&str) -> Result<u64, String>,
    F: Fn(&str, &str) -> Result<(u64, u8), String>,
    T: Fn(&str) -> Result<(String, bool, String), String>,
>(
    ctx: EvalContext<'a, M, V, A, F, T>,
    op: Op,
    a: Ast,
    x: Outcome,
    r: Outcome,
)
    requires
        op == Op::Neg || op == Op::Not || op == Op::Deref,
        forall|z: Outcome| #[trigger] ctx.evals(a, z) <==> z == x,
        ctx.evals(Ast::Unary(op, Box::new(a)), r),
    ensures
        x is Err ==> r == x,
        x is Ok && op != Op::Deref ==> r == eval::unary(op, x->Ok_0),
        x is Ok && op == Op::Deref ==> ctx.at(x->Ok_0, r),
{
    let z = choose|z: Outcome| #[trigger]
        eval::met(z) && ctx.evals(a, z) && match z {
            Err(m) => r == z,
            Ok(v) => if op == Op::Deref {
                ctx.at(v, r)
            } else {
                r == eval::unary(op, v)
            },
        };
    assert(ctx.evals(a, z));
    assert(z == x);
}

/// What stands at an address is the number in the eight bytes there; fewer bytes are none.
pub proof fn law_worth_of_memory<
    'a,
    M: Fn(usize, usize) -> Result<Vec<u8>, String>,
    V: Fn(&str) -> Result<(u64, u8), String>,
    A: Fn(&str) -> Result<u64, String>,
    F: Fn(&str, &str) -> Result<(u64, u8), String>,
    T: Fn(&str) -> Result<(String, bool, String), String>,
>(
    ctx: EvalContext<'a, M, V, A, F, T>,
    v: u64,
    b: Result<Vec<u8>, String>,
    r: Outcome,
)
    requires
        ctx.read_mem is Some,
        forall|z: Result<Vec<u8>, String>| #[trigger] ctx.reads(v as usize, 8, z) <==> z == b,
        ctx.at(v, r),
    ensures
        b is Err ==> r is Err,
        b matches Ok(s) ==> (s@.len() < 8 ==> r is Err),
        b matches Ok(s) ==> (s@.len() >= 8 ==> r == Ok::<u64, Seq<char>>(bytes::le(s@.take(8)) as u64)),
{
    let z = choose|z: Result<Vec<u8>, String>| #[trigger]
        ctx.reads(v as usize, 8, z) && match z {
            Err(m) => r == Err::<u64, Seq<char>>("failed to read memory: "@ + m@),
            Ok(s) => r == (if s@.len() < 8 {
                Err::<u64, Seq<char>>("not enough bytes to read 64-bit value"@)
            } else {
                Ok(eval::prefix_value(s@, 8))
            }),
        };
    assert(ctx.reads(v as usize, 8, z));
    assert(z == b);
}

/// A field is read at the address of its structure and its offset, with as many bytes as it has.
pub proof fn law_worth_of_fields<
    'a,
    M: Fn(usize, usize) -> Result<Vec<u8>, String>,
    V: Fn(&str) -> Result<(u64, u8), String>,
    A: Fn(&str) -> Result<u64, String>,
    F: Fn(&str, &str) -> Result<(u64, u8), String>,
    T: Fn(&str) -> Result<(String, bool, String), String>,
>(
    ctx: EvalContext<'a, M, V, A, F, T>,
    addr: u64,
    name: Seq<char>,
    field: Seq<char>,
    offset: u64,
    size: u8,
    b: Vec<u8>,
    r: Outcome,
)
    requires
        ctx.read_mem is Some,
        1 <= size <= 8,
        b@.len() == size,
        forall|z: Result<(u64, u8), String>| #[trigger] ctx.has_field(name, field, z) <==> z == Ok::<
            (u64, u8),
            String,
        >((offset, size)),
        forall|z: Result<Vec<u8>, String>| #[trigger]
            ctx.reads(addr.wrapping_add(offset) as usize, size as usize, z) <==> z == Ok::<Vec<u8>, String>(b),
        ctx.field(addr, name, field, r),
    ensures
        r == Ok::<u64, Seq<char>>(bytes::le(b@) as u64),
{
    let place = Ok::<(u64, u8), String>((offset, size));
    assert(ctx.has_field(name, field, place));
    assert(eval::clamped(size) == size as usize);
    assert(b@.take(size as int) =~= b@);
    assert(ctx.reads(addr.wrapping_add(offset) as usize, size as usize, Ok(b)));
}

/// The tokens of a text are its first token and those of what follows it; a text of which some part is no
/// token has none.
pub proof fn law_tokens_in_order(s: Seq<char>, t: Tok, n: nat)
    requires
        s.len() > 0,
        !text::is_whitespace(s[0]),
    ensures
        lexer::first_token(s) == Some((t, n)) ==> (lexer::lex(s.skip(n as int)) matches Some(rest)
            ==> lexer::lex(s) == Some(seq![t] + rest)),
        lexer::first_token(s) == Some((t, n)) && lexer::lex(s.skip(n as int)) is None ==> lexer::lex(s) is None,
        lexer::first_token(s) is None ==> lexer::lex(s) is None,
        lexer::lex(Seq::empty()) == Some(Seq::<Tok>::empty()),
{
}

} // verus!
