//! Splitting an expression into tokens.
use crate::numerals;
use crate::numerals::read_number;
use crate::text;
use crate::text::{chars_between, strip_prefix, string_of};
use vstd::prelude::*;

verus! {

/// A token, with names of type `N`.
pub enum Token<N> {
    Number(u64),
    Register(N),
    Name(N),
    Plus,
    Minus,
    Star,
    Slash,
    Percent,
    Amp,
    Pipe,
    Caret,
    Tilde,
    Shl,
    Shr,
    LParen,
    RParen,
    Dot,
    Arrow,
}

/// A token with its name as a sequence of characters.
pub type Tok = Token<Seq<char>>;

impl Token<String> {
    /// The token with its name as a sequence of characters.
    pub open spec fn tok(self) -> Tok {
        match self {
            Token::Number(v) => Token::Number(v),
            Token::Register(n) => Token::Register(n@),
            Token::Name(n) => Token::Name(n@),
            Token::Plus => Token::Plus,
            Token::Minus => Token::Minus,
            Token::Star => Token::Star,
            Token::Slash => Token::Slash,
            Token::Percent => Token::Percent,
            Token::Amp => Token::Amp,
            Token::Pipe => Token::Pipe,
            Token::Caret => Token::Caret,
            Token::Tilde => Token::Tilde,
            Token::Shl => Token::Shl,
            Token::Shr => Token::Shr,
            Token::LParen => Token::LParen,
            Token::RParen => Token::RParen,
            Token::Dot => Token::Dot,
            Token::Arrow => Token::Arrow,
        }
    }
}

/// Tokens with their names as sequences of characters.
pub open spec fn toks(v: Seq<Token<String>>) -> Seq<Tok> {
    v.map_values(|t: Token<String>| t.tok())
}

/// Whether `c` can stand in a word: an ASCII letter, a digit or an underscore.
pub open spec fn is_word_char(c: char) -> bool {
    text::is_ascii_letter(c) || text::is_ascii_digit(c) || c == '_'
}

/// How many word characters `s` begins with.
pub open spec fn word_len(s: Seq<char>) -> nat
    decreases s.len(),
{
    if s.len() > 0 && is_word_char(s[0]) {
        1 + word_len(s.skip(1))
    } else {
        0
    }
}

/// The value of a number: hexadecimal behind `0x`, binary behind `0b`, octal behind `0o`, else
/// decimal. It must fit 64 bits.
pub open spec fn number_value(w: Seq<char>) -> Option<nat> {
    if "0x"@.is_prefix_of(w) {
        numerals::parse_number(w.skip(2), 16, u64::MAX as nat)
    } else if "0b"@.is_prefix_of(w) {
        numerals::parse_number(w.skip(2), 2, u64::MAX as nat)
    } else if "0o"@.is_prefix_of(w) {
        numerals::parse_number(w.skip(2), 8, u64::MAX as nat)
    } else {
        numerals::parse_number(w, 10, u64::MAX as nat)
    }
}

/// The token of a single character.
pub open spec fn symbol(c: char) -> Option<Tok> {
    if c == '+' {
        Some(Token::Plus)
    } else if c == '-' {
        Some(Token::Minus)
    } else if c == '*' {
        Some(Token::Star)
    } else if c == '/' {
        Some(Token::Slash)
    } else if c == '%' {
        Some(Token::Percent)
    } else if c == '&' {
        Some(Token::Amp)
    } else if c == '|' {
        Some(Token::Pipe)
    } else if c == '^' {
        Some(Token::Caret)
    } else if c == '~' {
        Some(Token::Tilde)
    } else if c == '(' {
        Some(Token::LParen)
    } else if c == ')' {
        Some(Token::RParen)
    } else if c == '.' {
        Some(Token::Dot)
    } else {
        None
    }
}

/// The token that `s` begins with and how many characters it takes. `s` is not empty and does not
/// begin with a blank.
pub open spec fn first_token(s: Seq<char>) -> Option<(Tok, nat)> {
    if text::is_ascii_digit(s[0]) {
        match number_value(s.take(word_len(s) as int)) {
            Some(v) => Some((Token::Number(v as u64), word_len(s))),
            None => None,
        }
    } else if is_word_char(s[0]) {
        Some((Token::Name(s.take(word_len(s) as int)), word_len(s)))
    } else if s[0] == '$' {
        let n = word_len(s.skip(1));
        if n > 0 {
            Some((Token::Register(s.subrange(1, 1 + n as int)), 1 + n))
        } else {
            None
        }
    } else if s.len() > 1 && s[0] == '<' && s[1] == '<' {
        Some((Token::Shl, 2))
    } else if s.len() > 1 && s[0] == '>' && s[1] == '>' {
        Some((Token::Shr, 2))
    } else if s.len() > 1 && s[0] == '-' && s[1] == '>' {
        Some((Token::Arrow, 2))
    } else {
        match symbol(s[0]) {
            Some(t) => Some((t, 1)),
            None => None,
        }
    }
}

/// A word is no longer than the text that it stands in.
pub proof fn lemma_word_len(s: Seq<char>)
    ensures
        word_len(s) <= s.len(),
    decreases s.len(),
{
    if s.len() > 0 && is_word_char(s[0]) {
        lemma_word_len(s.skip(1));
    }
}

/// A token takes at least one character and no more than there are.
pub proof fn lemma_token_len(s: Seq<char>)
    requires
        s.len() > 0,
    ensures
        first_token(s) matches Some(p) ==> 1 <= p.1 <= s.len(),
{
    lemma_word_len(s);
    lemma_word_len(s.skip(1));
}

/// The tokens of a text, with the blanks between them left out; nothing if some part is no token.
pub open spec fn lex(s: Seq<char>) -> Option<Seq<Tok>>
    decreases s.len(),
{
    if s.len() == 0 {
        Some(Seq::empty())
    } else if text::is_whitespace(s[0]) {
        lex(s.skip(1))
    } else {
        proof {
            lemma_token_len(s);
        }
        match first_token(s) {
            None => None,
            Some(p) => match lex(s.skip(p.1 as int)) {
                None => None,
                Some(rest) => Some(seq![p.0] + rest),
            },
        }
    }
}

/// Whether `c` can stand in a word.
fn word_char(c: char) -> (r: bool)
    ensures
        r == is_word_char(c),
{
    ('a' <= c && c <= 'z') || ('A' <= c && c <= 'Z') || ('0' <= c && c <= '9') || c == '_'
}

/// The end of the word that begins at `from`.
fn word_end(s: &[char], from: usize) -> (r: usize)
    requires
        from <= s@.len(),
    ensures
        from <= r <= s@.len(),
        r - from == word_len(s@.skip(from as int)),
{
    let n: usize = s.len();
    let mut i: usize = from;
    while i < n && word_char(s[i])
        invariant
            from <= i <= n,
            n == s@.len(),
            word_len(s@.skip(from as int)) == (i - from) + word_len(s@.skip(i as int)),
        decreases n - i,
    {
        assert(s@.skip(i as int).skip(1) =~= s@.skip(i + 1));
        i = i + 1;
    }
    i
}

/// The value of a number.
fn read_literal(w: &[char]) -> (r: Option<u64>)
    ensures
        match r {
            Some(v) => number_value(w@) == Some(v as nat),
            None => number_value(w@) is None,
        },
{
    proof {
        reveal_strlit("0x");
        reveal_strlit("0b");
        reveal_strlit("0o");
    }
    if let Some(rest) = strip_prefix(w, "0x") {
        return read_number(rest.as_slice(), 16, u64::MAX);
    }
    if let Some(rest) = strip_prefix(w, "0b") {
        return read_number(rest.as_slice(), 2, u64::MAX);
    }
    if let Some(rest) = strip_prefix(w, "0o") {
        return read_number(rest.as_slice(), 8, u64::MAX);
    }
    read_number(w, 10, u64::MAX)
}

/// The token of a single character.
fn read_symbol(c: char) -> (r: Option<Token<String>>)
    ensures
        match r {
            Some(t) => symbol(c) == Some(t.tok()),
            None => symbol(c) is None,
        },
{
    if c == '+' {
        Some(Token::Plus)
    } else if c == '-' {
        Some(Token::Minus)
    } else if c == '*' {
        Some(Token::Star)
    } else if c == '/' {
        Some(Token::Slash)
    } else if c == '%' {
        Some(Token::Percent)
    } else if c == '&' {
        Some(Token::Amp)
    } else if c == '|' {
        Some(Token::Pipe)
    } else if c == '^' {
        Some(Token::Caret)
    } else if c == '~' {
        Some(Token::Tilde)
    } else if c == '(' {
        Some(Token::LParen)
    } else if c == ')' {
        Some(Token::RParen)
    } else if c == '.' {
        Some(Token::Dot)
    } else {
        None
    }
}

/// The token at `from` and where it ends.
fn read_token(s: &[char], from: usize) -> (r: Option<(Token<String>, usize)>)
    requires
        from < s@.len(),
    ensures
        match r {
            Some(p) => from < p.1 <= s@.len() && first_token(s@.skip(from as int)) == Some(
                (p.0.tok(), (p.1 - from) as nat),
            ),
            None => first_token(s@.skip(from as int)) is None,
        },
{
    let n: usize = s.len();
    let ghost rest = s@.skip(from as int);
    proof {
        lemma_token_len(rest);
    }
    let c: char = s[from];
    if word_char(c) {
        let end: usize = word_end(s, from);
        let word = chars_between(s, from, end);
        assert(word@ =~= rest.take(word_len(rest) as int));
        if '0' <= c && c <= '9' {
            return match read_literal(word.as_slice()) {
                Some(v) => Some((Token::Number(v), end)),
                None => None,
            };
        }
        return Some((Token::Name(string_of(word.as_slice())), end));
    }
    if c == '$' {
        let end: usize = word_end(s, from + 1);
        assert(s@.skip(from + 1) =~= rest.skip(1));
        if end == from + 1 {
            return None;
        }
        let word = chars_between(s, from + 1, end);
        assert(word@ =~= rest.subrange(1, 1 + word_len(rest.skip(1)) as int));
        return Some((Token::Register(string_of(word.as_slice())), end));
    }
    if from + 1 < n {
        let d: char = s[from + 1];
        if c == '<' && d == '<' {
            return Some((Token::Shl, from + 2));
        }
        if c == '>' && d == '>' {
            return Some((Token::Shr, from + 2));
        }
        if c == '-' && d == '>' {
            return Some((Token::Arrow, from + 2));
        }
    }
    match read_symbol(c) {
        Some(t) => Some((t, from + 1)),
        None => None,
    }
}

/// The tokens of a text.
pub fn tokens(s: &[char]) -> (r: Option<Vec<Token<String>>>)
    ensures
        match r {
            Some(v) => lex(s@) == Some(toks(v@)),
            None => lex(s@) is None,
        },
{
    let mut out: Vec<Token<String>> = Vec::new();
    let mut i: usize = 0;
    assert(s@.skip(0) =~= s@);
    assert(toks(out@) =~= Seq::empty());
    assert(lex(s@) matches Some(r) ==> Seq::<Tok>::empty() + r =~= r);
    while i < s.len()
        invariant
            i <= s@.len(),
            match lex(s@.skip(i as int)) {
                Some(rest) => lex(s@) == Some(toks(out@) + rest),
                None => lex(s@) is None,
            },
        decreases s.len() - i,
    {
        let ghost rest = s@.skip(i as int);
        if s[i].is_whitespace() {
            assert(rest.skip(1) =~= s@.skip(i + 1));
            i = i + 1;
        } else {
            match read_token(s, i) {
                None => {
                    return None;
                },
                Some((t, end)) => {
                    let ghost before = toks(out@);
                    let ghost tok = t.tok();
                    assert(rest.skip(end - i) =~= s@.skip(end as int));
                    out.push(t);
                    assert(toks(out@) =~= before.push(tok));
                    assert(lex(s@.skip(end as int)) matches Some(r) ==> before + (seq![tok] + r)
                        =~= toks(out@) + r);
                    i = end;
                },
            }
        }
    }
    assert(toks(out@) + Seq::<Tok>::empty() =~= toks(out@));
    Some(out)
}

} // verus!
