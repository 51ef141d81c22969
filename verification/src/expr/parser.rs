//! Reading an expression from text.
use crate::expr::grammar;
use crate::expr::lexer;
use crate::expr::lexer::{tokens, Token};
use crate::expr::{Expr, Op};
use crate::text;
use crate::text::{chars_of, owned, quote, str_eq};
use vstd::prelude::*;

verus! {

/// The level and the operator of a token between two operands.
fn binary_op(t: &Token<String>) -> (r: Option<(u8, Op)>)
    ensures
        match r {
            Some(p) => grammar::binary_op(t.tok()) == Some((p.0 as nat, p.1)) && p.0 < 6,
            None => grammar::binary_op(t.tok()) is None,
        },
{
    match t {
        Token::Pipe => Some((0, Op::Or)),
        Token::Caret => Some((1, Op::Xor)),
        Token::Amp => Some((2, Op::And)),
        Token::Shl => Some((3, Op::Shl)),
        Token::Shr => Some((3, Op::Shr)),
        Token::Plus => Some((4, Op::Add)),
        Token::Minus => Some((4, Op::Sub)),
        Token::Star => Some((5, Op::Mul)),
        Token::Slash => Some((5, Op::Div)),
        Token::Percent => Some((5, Op::Mod)),
        _ => None,
    }
}

/// The operator of a token before its operand.
fn prefix_op(t: &Token<String>) -> (r: Option<Op>)
    ensures
        r == grammar::prefix_op(t.tok()),
{
    match t {
        Token::Minus => Some(Op::Neg),
        Token::Tilde => Some(Op::Not),
        Token::Star => Some(Op::Deref),
        Token::Amp => Some(Op::AddrOf),
        _ => None,
    }
}

/// The expression of a single token.
fn atom(t: &Token<String>) -> (r: Option<Expr>)
    ensures
        match r {
            Some(e) => grammar::atom(t.tok()) == Some(e.ast()),
            None => grammar::atom(t.tok()) is None,
        },
{
    match t {
        Token::Number(v) => Some(Expr::Number(*v)),
        Token::Register(n) => Some(Expr::Register(owned(n.as_str()))),
        Token::Name(n) => if str_eq(n.as_str(), "base") {
            Some(Expr::Register(owned(n.as_str())))
        } else {
            Some(Expr::Variable(owned(n.as_str())))
        },
        _ => None,
    }
}

/// The name that a token is.
fn name_of(t: &Token<String>) -> (r: Option<String>)
    ensures
        match r {
            Some(n) => t.tok() == lexer::Tok::Name(n@),
            None => !(t.tok() is Name),
        },
{
    match t {
        Token::Name(n) => Some(owned(n.as_str())),
        _ => None,
    }
}

/// Reads an expression of the given level from the token at `pos` on: the expression and where it
/// ends.
fn read_level(ts: &Vec<Token<String>>, pos: usize, level: u8) -> (r: Option<(Expr, usize)>)
    requires
        pos <= ts@.len(),
        level <= 8,
    ensures
        match r {
            Some(p) => pos < p.1 <= ts@.len() && grammar::read_level(
                level as nat,
                lexer::toks(ts@).skip(pos as int),
            ) == Some((p.0.ast(), lexer::toks(ts@).skip(p.1 as int))),
            None => grammar::read_level(level as nat, lexer::toks(ts@).skip(pos as int)) is None,
        },
    decreases ts@.len() - pos, 9 - level, 1int,
{
    let ghost all = lexer::toks(ts@);
    let ghost s = all.skip(pos as int);
    if level < 6 || level == 7 {
        return match read_level(ts, pos, level + 1) {
            Some((e, next)) => read_tail(ts, next, level, e),
            None => None,
        };
    }
    if pos == ts.len() {
        return None;
    }
    assert(s.skip(1) =~= all.skip(pos + 1));
    if level == 6 {
        return match prefix_op(&ts[pos]) {
            Some(op) => match read_level(ts, pos + 1, 6) {
                Some((a, next)) => Some((Expr::Unary(op, Box::new(a)), next)),
                None => None,
            },
            None => read_level(ts, pos, 7),
        };
    }
    if let Token::LParen = ts[pos] {
        return match read_level(ts, pos + 1, 0) {
            Some((e, next)) => {
                if next < ts.len() {
                    if let Token::RParen = ts[next] {
                        assert(all.skip(next as int).skip(1) =~= all.skip(next + 1));
                        return Some((e, next + 1));
                    }
                }
                None
            },
            None => None,
        };
    }
    match atom(&ts[pos]) {
        Some(e) => Some((e, pos + 1)),
        None => None,
    }
}

/// Reads what may follow the expression `first` of the given level from the token at `pos` on.
fn read_tail(ts: &Vec<Token<String>>, pos: usize, level: u8, first: Expr) -> (r: Option<
    (Expr, usize),
>)
    requires
        pos <= ts@.len(),
        level < 6 || level == 7,
    ensures
        match r {
            Some(p) => pos <= p.1 <= ts@.len() && grammar::read_tail(
                level as nat,
                first.ast(),
                lexer::toks(ts@).skip(pos as int),
            ) == Some((p.0.ast(), lexer::toks(ts@).skip(p.1 as int))),
            None => grammar::read_tail(
                level as nat,
                first.ast(),
                lexer::toks(ts@).skip(pos as int),
            ) is None,
        },
    decreases ts@.len() - pos, 9 - level, 0int,
{
    let ghost all = lexer::toks(ts@);
    let ghost s = all.skip(pos as int);
    if pos == ts.len() {
        return Some((first, pos));
    }
    assert(s.skip(1) =~= all.skip(pos + 1));
    if level < 6 {
        if let Some((l, op)) = binary_op(&ts[pos]) {
            if l == level {
                return match read_level(ts, pos + 1, level + 1) {
                    Some((b, next)) => read_tail(
                        ts,
                        next,
                        level,
                        Expr::Binary(op, Box::new(first), Box::new(b)),
                    ),
                    None => None,
                };
            }
        }
        return Some((first, pos));
    }
    if ts.len() - pos > 1 {
        if let Some(field) = name_of(&ts[pos + 1]) {
            assert(s.skip(2) =~= all.skip(pos + 2));
            if let Token::Dot = ts[pos] {
                return read_tail(ts, pos + 2, 7, Expr::Member(Box::new(first), field));
            }
            if let Token::Arrow = ts[pos] {
                return read_tail(ts, pos + 2, 7, Expr::PtrMember(Box::new(first), field));
            }
        }
    }
    Some((first, pos))
}

/// Reads a text as an expression. It is one exactly if the grammar derives its tokens.
pub fn parse(input: &str) -> (r: Result<Expr, String>)
    ensures
        match r {
            Ok(e) => lexer::lex(input@) is Some && grammar::derives(0, lexer::lex(input@)->0, e.ast()),
            Err(m) => m@ == "parse error: "@ + text::quoted(input@) && (lexer::lex(input@) matches Some(
                ts,
            ) ==> forall|a: crate::expr::Ast| !grammar::derives(0, ts, a)),
        },
{
    let chars = chars_of(input);
    if let Some(ts) = tokens(chars.as_slice()) {
        let ghost all = lexer::toks(ts@);
        assert(all.skip(0) =~= all);
        if let Some((e, end)) = read_level(&ts, 0, 0) {
            if end == ts.len() {
                proof {
                    grammar::law_reads_what_derives(all, e.ast());
                }
                return Ok(e);
            }
        }
        assert forall|a: crate::expr::Ast| !grammar::derives(0, all, a) by {
            grammar::law_reads_what_derives(all, a);
        }
    }
    let mut message = owned("parse error: ");
    message.append(quote(input).as_str());
    Err(message)
}

} // verus!
