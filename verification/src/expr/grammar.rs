//! The grammar of expressions, and the proof that reading from left to right finds what it derives.
//!
//! The operators bind as in C: loosest `|`, then `^`, `&`, the shifts, `+` and `-`, and `*`, `/` and
//! `%`, all grouping to the left; then the prefixes `-`, `~`, `*` and `&`; tightest the accesses
//! `.field` and `->field`. The name `base` alone is the image base.
use crate::expr::lexer::{Tok, Token};
use crate::expr::{Ast, Op};
use vstd::prelude::*;

verus! {

/// The level of the prefixes; the binary operators have the levels below it.
pub open spec fn prefix_level() -> nat {
    6
}

/// The level and the operator of a token between two operands.
pub open spec fn binary_op(t: Tok) -> Option<(nat, Op)> {
    match t {
        Token::Pipe => Some((0, Op::Or)),
        Token::Caret => Some((1, Op::Xor)),
        Token::Amp => Some((2, Op::And)),
        Token::Shl => Some((3, Op::Shl)),
        Token::Shr => Some((3, Op::Shr)),
        Token::Plus => Some((4, Op::Add)),
        Token::Minus => Some((4, Op::Sub)),
        Token::Star => Some((5, Op::Mul)),
        Token::Slash => Some((5, Op::Div)),
        Token::Percent => Some((5, Op::Mod)),
        _ => None,
    }
}

/// The operator of a token before its operand.
pub open spec fn prefix_op(t: Tok) -> Option<Op> {
    match t {
        Token::Minus => Some(Op::Neg),
        Token::Tilde => Some(Op::Not),
        Token::Star => Some(Op::Deref),
        Token::Amp => Some(Op::AddrOf),
        _ => None,
    }
}

/// The expression of a single token.
pub open spec fn atom(t: Tok) -> Option<Ast> {
    match t {
        Token::Number(v) => Some(Ast::Number(v)),
        Token::Register(n) => Some(Ast::Register(n)),
        Token::Name(n) => if n == "base"@ {
            Some(Ast::Register(n))
        } else {
            Some(Ast::Variable(n))
        },
        _ => None,
    }
}

/// Whether `op` of level `level` stands at `i`.
pub open spec fn op_at(ts: Seq<Tok>, i: int, level: nat, op: Op) -> bool {
    0 <= i < ts.len() && binary_op(ts[i]) == Some((level, op))
}

/// Whether the tokens `ts` as a whole are the expression `e` of the given level.
pub open spec fn derives(level: nat, ts: Seq<Tok>, e: Ast) -> bool
    decreases ts.len(), 9 - level,
{
    if level < prefix_level() {
        ||| derives(level + 1, ts, e)
        ||| (e matches Ast::Binary(op, a, b) && exists|i: int| #[trigger]
            op_at(ts, i, level, op) && derives(level, ts.take(i), *a) && derives(
                level + 1,
                ts.skip(i + 1),
                *b,
            ))
    } else if level == prefix_level() {
        ||| derives(level + 1, ts, e)
        ||| (e matches Ast::Unary(op, a) && ts.len() > 0 && prefix_op(ts[0]) == Some(op) && derives(
            level,
            ts.skip(1),
            *a,
        ))
    } else if level == 7 {
        ||| derives(8, ts, e)
        ||| (e matches Ast::Member(a, f) && ts.len() > 2 && ts[ts.len() - 2] is Dot && ts.last()
            == Token::Name(f) && derives(7, ts.take(ts.len() - 2), *a))
        ||| (e matches Ast::PtrMember(a, f) && ts.len() > 2 && ts[ts.len() - 2] is Arrow && ts.last()
            == Token::Name(f) && derives(7, ts.take(ts.len() - 2), *a))
    } else {
        ||| (ts.len() == 1 && atom(ts[0]) == Some(e))
        ||| (ts.len() > 2 && ts[0] is LParen && ts.last() is RParen && derives(
            0,
            ts.subrange(1, ts.len() - 1),
            e,
        ))
    }
}

/// Reads an expression of the given level from the left: the expression and the tokens behind it.
pub open spec fn read_level(level: nat, s: Seq<Tok>) -> Option<(Ast, Seq<Tok>)>
    decreases s.len(), 9 - level,
{
    if level < prefix_level() || level == 7 {
        match read_level(level + 1, s) {
            Some((e, r)) => if r.len() < s.len() {
                read_tail(level, e, r)
            } else {
                None
            },
            None => None,
        }
    } else if s.len() == 0 {
        None
    } else if level == prefix_level() {
        match prefix_op(s[0]) {
            Some(op) => match read_level(level, s.skip(1)) {
                Some((a, r)) => Some((Ast::Unary(op, Box::new(a)), r)),
                None => None,
            },
            None => read_level(7, s),
        }
    } else if s[0] is LParen {
        match read_level(0, s.skip(1)) {
            Some((e, r)) => if r.len() > 0 && r[0] is RParen {
                Some((e, r.skip(1)))
            } else {
                None
            },
            None => None,
        }
    } else {
        match atom(s[0]) {
            Some(e) => Some((e, s.skip(1))),
            None => None,
        }
    }
}

/// Reads what may follow an expression of the given level: further operands, or accesses.
pub open spec fn read_tail(level: nat, e: Ast, s: Seq<Tok>) -> Option<(Ast, Seq<Tok>)>
    decreases s.len(), 9 - level,
{
    if level < prefix_level() {
        if s.len() > 0 && binary_op(s[0]) is Some && (binary_op(s[0])->0).0 == level {
            match read_level(level + 1, s.skip(1)) {
                Some((b, r)) => if r.len() < s.len() {
                    read_tail(level, Ast::Binary((binary_op(s[0])->0).1, Box::new(e), Box::new(b)), r)
                } else {
                    None
                },
                None => None,
            }
        } else {
            Some((e, s))
        }
    } else if level == 7 && s.len() > 1 && s[0] is Dot && s[1] is Name {
        read_tail(7, Ast::Member(Box::new(e), s[1]->Name_0), s.skip(2))
    } else if level == 7 && s.len() > 1 && s[0] is Arrow && s[1] is Name {
        read_tail(7, Ast::PtrMember(Box::new(e), s[1]->Name_0), s.skip(2))
    } else {
        Some((e, s))
    }
}

/// Reads the whole of `s` as an expression.
pub open spec fn read_all(s: Seq<Tok>) -> Option<Ast> {
    match read_level(0, s) {
        Some((e, r)) => if r.len() == 0 {
            Some(e)
        } else {
            None
        },
        None => None,
    }
}

proof fn lemma_sound_level(level: nat, s: Seq<Tok>)
    requires
        level <= 8,
    ensures
        read_level(level, s) matches Some((e, r)) ==> r.len() < s.len() && s.skip(s.len() - r.len())
            == r && derives(level, s.take(s.len() - r.len()), e),
    decreases s.len(), 9 - level,
{
    if level < prefix_level() || level == 7 {
        lemma_sound_level(level + 1, s);
        match read_level(level + 1, s) {
            Some((e, r)) => {
                let n = s.len() - r.len();
                lemma_sound_tail(level, s.take(n), e, r);
                match read_tail(level, e, r) {
                    Some((f, q)) => {
                        assert(s.skip(s.len() - q.len()) =~= q) by {
                            assert(q =~= r.skip(r.len() - q.len()));
                        }
                        assert(s.take(s.len() - q.len()) =~= s.take(n) + r.take(r.len() - q.len()));
                    },
                    None => {},
                }
            },
            None => {},
        }
    } else if s.len() == 0 {
    } else if level == prefix_level() {
        match prefix_op(s[0]) {
            Some(op) => {
                let t = s.skip(1);
                lemma_sound_level(level, t);
                match read_level(level, t) {
                    Some((a, r)) => {
                        assert(s.skip(s.len() - r.len()) =~= t.skip(t.len() - r.len()));
                        assert(s.take(s.len() - r.len()).skip(1) =~= t.take(t.len() - r.len()));
                    },
                    None => {},
                }
            },
            None => {
                lemma_sound_level(7, s);
            },
        }
    } else if s[0] is LParen {
        let t = s.skip(1);
        lemma_sound_level(0, t);
        match read_level(0, t) {
            Some((e, r)) => if r.len() > 0 && r[0] is RParen {
                let q = r.skip(1);
                let n = s.len() - q.len();
                assert(r =~= t.skip(t.len() - r.len()));
                assert(s.skip(n) =~= q);
                let ts = s.take(n);
                assert(ts.subrange(1, ts.len() - 1) =~= t.take(t.len() - r.len()));
                assert(ts.last() == r[0]);
                assert(t.len() - r.len() > 0);
            },
            None => {},
        }
    } else {
        assert(s.take(1)[0] == s[0]);
    }
}

proof fn lemma_sound_tail(level: nat, before: Seq<Tok>, e: Ast, s: Seq<Tok>)
    requires
        level <= 8,
        level != prefix_level(),
        before.len() > 0,
        derives(level + 1, before, e) || derives(level, before, e),
        level < 8,
    ensures
        read_tail(level, e, s) matches Some((f, r)) ==> r.len() <= s.len() && s.skip(s.len() - r.len())
            == r && derives(level, before + s.take(s.len() - r.len()), f),
    decreases s.len(), 9 - level,
{
    assert(derives(level, before, e));
    if level < prefix_level() {
        if s.len() > 0 && binary_op(s[0]) is Some && (binary_op(s[0])->0).0 == level {
            let op = (binary_op(s[0])->0).1;
            let t = s.skip(1);
            lemma_sound_level(level + 1, t);
            match read_level(level + 1, t) {
                Some((b, r)) => {
                    let n = t.len() - r.len();
                    let ts = before + s.take(s.len() - r.len());
                    let i = before.len() as int;
                    assert(op_at(ts, i, level, op));
                    assert(ts.take(i) =~= before);
                    assert(ts.skip(i + 1) =~= t.take(n));
                    let f = Ast::Binary(op, Box::new(e), Box::new(b));
                    assert(derives(level, ts, f));
                    lemma_sound_tail(level, ts, f, r);
                    match read_tail(level, f, r) {
                        Some((g, q)) => {
                            assert(q =~= r.skip(r.len() - q.len()));
                            assert(s.skip(s.len() - q.len()) =~= q);
                            assert(before + s.take(s.len() - q.len()) =~= ts + r.take(
                                r.len() - q.len(),
                            ));
                        },
                        None => {},
                    }
                },
                None => {},
            }
        } else {
            assert(s.skip(0) =~= s);
            assert(before + s.take(0) =~= before);
        }
    } else if s.len() > 1 && (s[0] is Dot || s[0] is Arrow) && s[1] is Name {
        let f = if s[0] is Dot {
            Ast::Member(Box::new(e), s[1]->Name_0)
        } else {
            Ast::PtrMember(Box::new(e), s[1]->Name_0)
        };
        let ts = before + s.take(2);
        assert(ts.take(ts.len() - 2) =~= before);
        assert(derives(7, ts, f));
        let t = s.skip(2);
        lemma_sound_tail(7, ts, f, t);
        match read_tail(7, f, t) {
            Some((g, q)) => {
                assert(q =~= t.skip(t.len() - q.len()));
                assert(s.skip(s.len() - q.len()) =~= q);
                assert(before + s.take(s.len() - q.len()) =~= ts + t.take(t.len() - q.len()));
            },
            None => {},
        }
    } else {
        assert(s.skip(0) =~= s);
        assert(before + s.take(0) =~= before);
    }
}

/// Whether nothing that binds at `level` or tighter continues an expression before `rest`.
pub open spec fn stops(level: nat, rest: Seq<Tok>) -> bool {
    rest.len() > 0 ==> {
        &&& binary_op(rest[0]) matches Some(p) ==> p.0 < level
        &&& level <= 7 ==> !(rest[0] is Dot) && !(rest[0] is Arrow)
    }
}

proof fn lemma_starts(level: nat, ts: Seq<Tok>, e: Ast)
    requires
        level <= 8,
        derives(level, ts, e),
    ensures
        ts.len() > 0,
        level > prefix_level() ==> prefix_op(ts[0]) is None,
    decreases ts.len(), 9 - level,
{
    if level < 8 && derives(level + 1, ts, e) {
        lemma_starts(level + 1, ts, e);
    } else if level == 7 {
        match e {
            Ast::Member(a, f) => {
                lemma_starts(7, ts.take(ts.len() - 2), *a);
            },
            Ast::PtrMember(a, f) => {
                lemma_starts(7, ts.take(ts.len() - 2), *a);
            },
            _ => {},
        }
    }
}

proof fn lemma_complete(level: nat, ts: Seq<Tok>, e: Ast, rest: Seq<Tok>)
    requires
        level <= 8,
        derives(level, ts, e),
        stops(level + 1, rest),
    ensures
        level == 8 ==> read_level(level, ts + rest) == Some((e, rest)),
        level < 8 ==> read_level(level, ts + rest) == read_tail(level, e, rest),
    decreases ts.len(), 9 - level,
{
    let s = ts + rest;
    lemma_starts(level, ts, e);
    if level < prefix_level() {
        if derives(level + 1, ts, e) {
            lemma_complete(level + 1, ts, e, rest);
        } else {
            match e {
                Ast::Binary(op, a, b) => {
                    let i = choose|i: int| #[trigger]
                        op_at(ts, i, level, op) && derives(level, ts.take(i), *a) && derives(
                            level + 1,
                            ts.skip(i + 1),
                            *b,
                        );
                    let left = ts.take(i);
                    let right = ts.skip(i + 1);
                    let after = seq![ts[i]] + right + rest;
                    assert(left + after =~= s);
                    lemma_complete(level, left, *a, after);
                    assert(after.skip(1) =~= right + rest);
                    lemma_complete(level + 1, right, *b, rest);
                    lemma_starts(level + 1, right, *b);
                },
                _ => {},
            }
        }
    } else if level == prefix_level() {
        if derives(7, ts, e) {
            lemma_starts(7, ts, e);
            lemma_complete(7, ts, e, rest);
        } else {
            match e {
                Ast::Unary(op, a) => {
                    assert(s.skip(1) =~= ts.skip(1) + rest);
                    lemma_complete(level, ts.skip(1), *a, rest);
                },
                _ => {},
            }
        }
    } else if level == 7 {
        if derives(8, ts, e) {
            lemma_complete(8, ts, e, rest);
        } else {
            let left = ts.take(ts.len() - 2);
            let after = ts.skip(ts.len() - 2) + rest;
            assert(left + after =~= s);
            assert(after.skip(2) =~= rest);
            match e {
                Ast::Member(a, f) => {
                    lemma_complete(7, left, *a, after);
                },
                Ast::PtrMember(a, f) => {
                    lemma_complete(7, left, *a, after);
                },
                _ => {},
            }
        }
    } else if ts.len() == 1 && atom(ts[0]) == Some(e) {
        assert(s.skip(1) =~= rest);
    } else {
        let inner = ts.subrange(1, ts.len() - 1);
        let after = seq![ts.last()] + rest;
        assert(s.skip(1) =~= inner + after);
        lemma_complete(0, inner, e, after);
        assert(after.skip(1) =~= rest);
    }
}

/// Reading from the left gives an expression exactly if the grammar derives it.
pub proof fn law_reads_what_derives(ts: Seq<Tok>, e: Ast)
    ensures
        read_all(ts) == Some(e) <==> derives(0, ts, e),
{
    lemma_sound_level(0, ts);
    if read_all(ts) == Some(e) {
        assert(ts.take(ts.len() as int) =~= ts);
    }
    if derives(0, ts, e) {
        lemma_complete(0, ts, e, Seq::empty());
        assert(ts + Seq::empty() =~= ts);
    }
}

/// The grammar is unambiguous: the same tokens are never two expressions.
pub proof fn law_unambiguous(ts: Seq<Tok>, a: Ast, b: Ast)
    requires
        derives(0, ts, a),
        derives(0, ts, b),
    ensures
        a == b,
{
    law_reads_what_derives(ts, a);
    law_reads_what_derives(ts, b);
}

} // verus!
