//! Text as a sequence of characters.
use vstd::prelude::*;
use vstd::string::StringSliceAdditionalSpecFns;

verus! {

/// `String::push` appends one character.
pub assume_specification[ String::push ](s: &mut String, c: char)
    ensures
        final(s)@ == old(s)@.push(c),
;

/// The Unicode property `Alphabetic`.
pub uninterp spec fn is_alphabetic(c: char) -> bool;

/// A letter or a number in Unicode's sense.
pub uninterp spec fn is_alphanumeric(c: char) -> bool;

/// What `str::to_lowercase` makes of a text.
pub uninterp spec fn lowercase(s: Seq<char>) -> Seq<char>;

/// `String::from_utf8_lossy`: the text that `b` encodes, with each malformed stretch replaced.
pub uninterp spec fn utf8_lossy(b: Seq<u8>) -> Seq<char>;

/// How the `Debug` format of `str` prints a text, its quotes among the characters.
pub uninterp spec fn quoted(s: Seq<char>) -> Seq<char>;

/// The Unicode property `White_Space`.
pub open spec fn is_whitespace(c: char) -> bool {
    ||| is_ascii_blank(c)
    ||| c == '\u{85}'
    ||| c == '\u{a0}'
    ||| c == '\u{1680}'
    ||| '\u{2000}' <= c <= '\u{200a}'
    ||| c == '\u{2028}'
    ||| c == '\u{2029}'
    ||| c == '\u{202f}'
    ||| c == '\u{205f}'
    ||| c == '\u{3000}'
}

/// Whether `c` is one of ASCII's blanks: tab to carriage return, or the space.
pub open spec fn is_ascii_blank(c: char) -> bool {
    ('\t' <= c && c <= '\r') || c == ' '
}

/// Whether `c` is an ASCII letter.
pub open spec fn is_ascii_letter(c: char) -> bool {
    ('a' <= c && c <= 'z') || ('A' <= c && c <= 'Z')
}

/// Whether `c` is an ASCII digit.
pub open spec fn is_ascii_digit(c: char) -> bool {
    '0' <= c && c <= '9'
}

/// The small letter of an ASCII capital; any other character stays.
pub open spec fn ascii_lower(c: char) -> char {
    if 'A' <= c && c <= 'Z' {
        ((c as u32 + 32) as u32) as char
    } else {
        c
    }
}

/// Whether every character of `s` is an ASCII character.
pub open spec fn all_ascii(s: Seq<char>) -> bool {
    forall|i: int| 0 <= i < s.len() ==> s[i] as u32 <= 0x7f
}

/// `char::is_whitespace`: whether a character has the Unicode property `White_Space`.
pub assume_specification[ char::is_whitespace ](c: char) -> (r: bool)
    ensures
        r == is_whitespace(c),
;

/// `char::is_alphabetic`. Of the ASCII characters the letters have the property.
pub assume_specification[ char::is_alphabetic ](c: char) -> (r: bool)
    ensures
        r == is_alphabetic(c),
        c as u32 <= 0x7f ==> r == is_ascii_letter(c),
;

/// `char::is_alphanumeric`. Of the ASCII characters the letters and the digits have the property.
pub assume_specification[ char::is_alphanumeric ](c: char) -> (r: bool)
    ensures
        r == is_alphanumeric(c),
        c as u32 <= 0x7f ==> r == (is_ascii_letter(c) || is_ascii_digit(c)),
;

/// `str::to_lowercase`. A text of ASCII characters is mapped character by character.
#[verifier::external_body]
pub(crate) fn to_lower(s: &str) -> (r: String)
    ensures
        r@ == lowercase(s@),
        all_ascii(s@) ==> r@ == s@.map_values(|c: char| ascii_lower(c)),
{
    s.to_lowercase()
}

/// `str::from_utf8`: the text that `b` encodes, if `b` is well-formed UTF-8.
#[verifier::external_body]
pub(crate) fn from_utf8(b: &[u8]) -> (r: Option<String>)
    ensures
        match r {
            Some(s) => vstd::utf8::valid_utf8(b@) && s@ == vstd::utf8::decode_utf8(b@),
            None => !vstd::utf8::valid_utf8(b@),
        },
{
    match std::str::from_utf8(b) {
        Ok(s) => Some(s.to_string()),
        Err(_) => None,
    }
}

/// `String::from_utf8_lossy`. Well-formed UTF-8 is decoded as it stands.
#[verifier::external_body]
pub(crate) fn from_utf8_lossy(b: &[u8]) -> (r: String)
    ensures
        r@ == utf8_lossy(b@),
        vstd::utf8::valid_utf8(b@) ==> r@ == vstd::utf8::decode_utf8(b@),
{
    String::from_utf8_lossy(b).into_owned()
}

/// The `Debug` format of a `str`.
#[verifier::external_body]
pub(crate) fn quote(s: &str) -> (r: String)
    ensures
        r@ == quoted(s@),
{
    format!("{:?}", s)
}

/// The characters of `s`.
pub fn chars_of(s: &str) -> (v: Vec<char>)
    ensures
        v@ == s@,
{
    let mut v: Vec<char> = Vec::new();
    for c in it: s.chars()
        invariant
            v@ == s@.take(it.index() as int),
            it.seq() == s@,
    {
        v.push(c);
    }
    assert(s@.take(s@.len() as int) == s@);
    v
}

/// The text that the characters of `v` make.
pub fn string_of(v: &[char]) -> (s: String)
    ensures
        s@ == v@,
{
    let mut s = String::new();
    let mut i: usize = 0;
    while i < v.len()
        invariant
            i <= v.len(),
            s@ == v@.take(i as int),
        decreases v.len() - i,
    {
        s.push(v[i]);
        i += 1;
        assert(v@.take(i as int) =~= v@.take(i - 1).push(v@[i - 1]));
    }
    assert(v@.take(i as int) =~= v@);
    s
}

/// A text of its own with the characters of `s`.
pub fn owned(s: &str) -> (r: String)
    ensures
        r@ == s@,
{
    s.to_owned()
}

/// Two texts are equal when they have the same characters.
pub fn str_eq(a: &str, b: &str) -> (r: bool)
    ensures
        r == (a@ == b@),
{
    let x = a.as_bytes();
    let y = b.as_bytes();
    proof {
        vstd::utf8::encode_utf8_decode_utf8(a@);
        vstd::utf8::encode_utf8_decode_utf8(b@);
    }
    if x.len() != y.len() {
        return false;
    }
    let mut i: usize = 0;
    while i < x.len()
        invariant
            i <= x.len(),
            x@.len() == y@.len(),
            x@ == a.spec_bytes(),
            y@ == b.spec_bytes(),
            x@.take(i as int) == y@.take(i as int),
        decreases x.len() - i,
    {
        if x[i] != y[i] {
            return false;
        }
        i += 1;
        assert(x@.take(i as int) =~= x@.take(i - 1).push(x@[i - 1]));
        assert(y@.take(i as int) =~= y@.take(i - 1).push(y@[i - 1]));
    }
    assert(x@.take(i as int) =~= x@);
    assert(y@.take(i as int) =~= y@);
    true
}

/// Whether `s` begins with `prefix`.
pub fn chars_start_with(s: &[char], prefix: &str) -> (r: bool)
    ensures
        r == prefix@.is_prefix_of(s@),
{
    let p = chars_of(prefix);
    if s.len() < p.len() {
        return false;
    }
    let mut i: usize = 0;
    while i < p.len()
        invariant
            i <= p@.len() <= s@.len(),
            p@ == prefix@,
            forall|j: int| 0 <= j < i ==> s@[j] == p@[j],
        decreases p.len() - i,
    {
        if s[i] != p[i] {
            assert(s@.take(p@.len() as int)[i as int] == s@[i as int]);
            return false;
        }
        i = i + 1;
    }
    assert(p@ =~= s@.take(p@.len() as int));
    true
}

/// What follows `prefix` in `s`, if `s` begins with it.
pub open spec fn after_prefix(s: Seq<char>, prefix: Seq<char>) -> Option<Seq<char>> {
    if prefix.is_prefix_of(s) {
        Some(s.skip(prefix.len() as int))
    } else {
        None
    }
}

/// The characters of `s` from `from` up to `to`.
pub fn chars_between(s: &[char], from: usize, to: usize) -> (r: Vec<char>)
    requires
        from <= to <= s@.len(),
    ensures
        r@ == s@.subrange(from as int, to as int),
{
    let mut r: Vec<char> = Vec::new();
    let mut i: usize = from;
    while i < to
        invariant
            from <= i <= to <= s@.len(),
            r@ == s@.subrange(from as int, i as int),
        decreases to - i,
    {
        r.push(s[i]);
        i = i + 1;
        assert(s@.subrange(from as int, i as int) =~= s@.subrange(from as int, i - 1).push(s@[i - 1]));
    }
    r
}

/// What follows `prefix` in `s`, if `s` begins with it.
pub fn strip_prefix(s: &[char], prefix: &str) -> (r: Option<Vec<char>>)
    ensures
        match r {
            Some(v) => after_prefix(s@, prefix@) == Some(v@),
            None => after_prefix(s@, prefix@) is None,
        },
{
    if chars_start_with(s, prefix) {
        let n: usize = chars_of(prefix).len();
        let v = chars_between(s, n, s.len());
        assert(v@ == s@.skip(prefix@.len() as int));
        Some(v)
    } else {
        None
    }
}

/// Whether `part` stands somewhere in `s`.
pub open spec fn contains(s: Seq<char>, part: Seq<char>) -> bool {
    exists|i: int| 0 <= i <= s.len() - part.len() && #[trigger] s.subrange(i, i + part.len()) == part
}

/// Whether `part` stands somewhere in `s`.
pub fn str_contains(s: &str, part: &str) -> (r: bool)
    ensures
        r == contains(s@, part@),
{
    let a = chars_of(s);
    let b = chars_of(part);
    let n: usize = a.len();
    if n < b.len() {
        return false;
    }
    let mut i: usize = 0;
    while i <= n - b.len()
        invariant
            n == a@.len(),
            a@ == s@,
            b@ == part@,
            b@.len() <= a@.len(),
            i <= a@.len() - b@.len() + 1,
            forall|k: int| 0 <= k < i ==> #[trigger] a@.subrange(k, k + b@.len()) != b@,
        decreases a.len() - i,
    {
        let mut j: usize = 0;
        while j < b.len() && a[i + j] == b[j]
            invariant
                n == a@.len(),
                i + b@.len() <= n,
                j <= b@.len(),
                forall|k: int| 0 <= k < j ==> a@[i + k] == b@[k],
            decreases b.len() - j,
        {
            j = j + 1;
        }
        if j == b.len() {
            assert(a@.subrange(i as int, i + b@.len()) =~= b@);
            return true;
        }
        assert(a@.subrange(i as int, i + b@.len())[j as int] != b@[j as int]);
        if i == a.len() - b.len() {
            return false;
        }
        i = i + 1;
    }
    false
}

/// `s` without the blanks at its end.
pub open spec fn trim_end(s: Seq<char>) -> Seq<char>
    decreases s.len(),
{
    if s.len() > 0 && is_whitespace(s.last()) {
        trim_end(s.drop_last())
    } else {
        s
    }
}

/// `s` without the blanks at its beginning.
pub open spec fn trim_start(s: Seq<char>) -> Seq<char>
    decreases s.len(),
{
    if s.len() > 0 && is_whitespace(s[0]) {
        trim_start(s.skip(1))
    } else {
        s
    }
}

/// `s` without the blanks at both its ends.
pub open spec fn trim(s: Seq<char>) -> Seq<char> {
    trim_end(trim_start(s))
}

/// `s` without the blanks at both its ends.
pub fn trim_chars(s: &[char]) -> (r: Vec<char>)
    ensures
        r@ == trim(s@),
{
    let mut i: usize = 0;
    assert(s@.skip(0) =~= s@);
    while i < s.len() && s[i].is_whitespace()
        invariant
            i <= s.len(),
            trim_start(s@.skip(i as int)) == trim_start(s@),
        decreases s.len() - i,
    {
        assert(s@.skip(i as int).skip(1) =~= s@.skip(i + 1));
        i = i + 1;
    }
    let ghost t = s@.skip(i as int);
    assert(trim_start(s@) == t);
    let mut j: usize = s.len();
    assert(s@.subrange(i as int, j as int) =~= t);
    while j > i && s[j - 1].is_whitespace()
        invariant
            i <= j <= s.len(),
            trim_end(s@.subrange(i as int, j as int)) == trim_end(t),
        decreases j,
    {
        assert(s@.subrange(i as int, j as int).drop_last() =~= s@.subrange(i as int, j - 1));
        j = j - 1;
    }
    chars_between(s, i, j)
}

/// The index of the first `c` in `s`.
pub open spec fn first_index(s: Seq<char>, c: char) -> Option<int>
    decreases s.len(),
{
    if s.len() == 0 {
        None
    } else if s[0] == c {
        Some(0)
    } else {
        match first_index(s.skip(1), c) {
            Some(i) => Some(i + 1),
            None => None,
        }
    }
}

/// The index of the last `c` in `s`.
pub open spec fn last_index(s: Seq<char>, c: char) -> Option<int>
    decreases s.len(),
{
    if s.len() == 0 {
        None
    } else if s.last() == c {
        Some(s.len() - 1)
    } else {
        last_index(s.drop_last(), c)
    }
}

/// The index of the first `c` in `s`.
pub fn find_first(s: &[char], c: char) -> (r: Option<usize>)
    ensures
        match r {
            Some(i) => first_index(s@, c) == Some(i as int) && i < s@.len() && s@[i as int] == c,
            None => first_index(s@, c) is None,
        },
{
    let mut i: usize = 0;
    assert(s@.skip(0) =~= s@);
    while i < s.len()
        invariant
            i <= s.len(),
            first_index(s@, c) == (match first_index(s@.skip(i as int), c) {
                Some(k) => Some(k + i),
                None => None,
            }),
        decreases s.len() - i,
    {
        if s[i] == c {
            return Some(i);
        }
        assert(s@.skip(i as int).skip(1) =~= s@.skip(i + 1));
        i = i + 1;
    }
    None
}

/// The index of the last `c` in `s`.
pub fn find_last(s: &[char], c: char) -> (r: Option<usize>)
    ensures
        match r {
            Some(i) => last_index(s@, c) == Some(i as int) && i < s@.len() && s@[i as int] == c,
            None => last_index(s@, c) is None,
        },
{
    let mut i: usize = s.len();
    assert(s@.take(s@.len() as int) =~= s@);
    while i > 0
        invariant
            i <= s.len(),
            last_index(s@, c) == last_index(s@.take(i as int), c),
        decreases i,
    {
        if s[i - 1] == c {
            return Some(i - 1);
        }
        assert(s@.take(i as int).drop_last() =~= s@.take(i - 1));
        i = i - 1;
    }
    None
}

/// The part of `s` before its first `c` and the part after it.
pub open spec fn split_first(s: Seq<char>, c: char) -> Option<(Seq<char>, Seq<char>)> {
    match first_index(s, c) {
        Some(i) => Some((s.take(i), s.skip(i + 1))),
        None => None,
    }
}

/// The part of `s` before its last `c` and the part after it.
pub open spec fn split_last(s: Seq<char>, c: char) -> Option<(Seq<char>, Seq<char>)> {
    match last_index(s, c) {
        Some(i) => Some((s.take(i), s.skip(i + 1))),
        None => None,
    }
}

/// The part of `s` before its first `c` and the part after it.
pub fn split_at_first(s: &[char], c: char) -> (r: Option<(Vec<char>, Vec<char>)>)
    ensures
        match r {
            Some(p) => split_first(s@, c) == Some((p.0@, p.1@)),
            None => split_first(s@, c) is None,
        },
{
    match find_first(s, c) {
        Some(i) => {
            let n: usize = s.len();
            let a = chars_between(s, 0, i);
            let b = chars_between(s, i + 1, n);
            assert(a@ =~= s@.take(i as int));
            assert(b@ =~= s@.skip(i + 1));
            Some((a, b))
        },
        None => None,
    }
}

/// The part of `s` before its last `c` and the part after it.
pub fn split_at_last(s: &[char], c: char) -> (r: Option<(Vec<char>, Vec<char>)>)
    ensures
        match r {
            Some(p) => split_last(s@, c) == Some((p.0@, p.1@)),
            None => split_last(s@, c) is None,
        },
{
    match find_last(s, c) {
        Some(i) => {
            let n: usize = s.len();
            let a = chars_between(s, 0, i);
            let b = chars_between(s, i + 1, n);
            assert(a@ =~= s@.take(i as int));
            assert(b@ =~= s@.skip(i + 1));
            Some((a, b))
        },
        None => None,
    }
}

/// A line without the carriage return at its end.
pub open spec fn without_return(s: Seq<char>) -> Seq<char> {
    if s.len() > 0 && s.last() == '\r' {
        s.drop_last()
    } else {
        s
    }
}

proof fn lemma_first_index(s: Seq<char>, c: char)
    ensures
        first_index(s, c) matches Some(i) ==> 0 <= i < s.len(),
    decreases s.len(),
{
    if s.len() > 0 && s[0] != c {
        lemma_first_index(s.skip(1), c);
    }
}

/// The lines of a text: each ends at a line feed, which may have a carriage return before it, or at the
/// end of the text.
pub open spec fn lines(s: Seq<char>) -> Seq<Seq<char>>
    decreases s.len(),
    via lines_end
{
    if s.len() == 0 {
        Seq::empty()
    } else {
        match first_index(s, '\n') {
            Some(i) => seq![without_return(s.take(i))] + lines(s.skip(i + 1)),
            None => seq![s],
        }
    }
}

#[via_fn]
proof fn lines_end(s: Seq<char>) {
    lemma_first_index(s, '\n');
}

/// Texts as sequences of characters.
pub open spec fn texts(v: Seq<String>) -> Seq<Seq<char>> {
    v.map_values(|s: String| s@)
}

/// The lines of a text.
pub fn lines_of(s: &str) -> (r: Vec<String>)
    ensures
        texts(r@) == lines(s@),
{
    let c = chars_of(s);
    let n: usize = c.len();
    let mut out: Vec<String> = Vec::new();
    let mut from: usize = 0;
    assert(c@.skip(0) =~= c@);
    assert(texts(out@) + lines(c@) =~= lines(c@));
    while from < n
        invariant
            from <= n,
            n == c@.len(),
            c@ == s@,
            texts(out@) + lines(c@.skip(from as int)) == lines(s@),
        decreases n - from,
    {
        let ghost rest = c@.skip(from as int);
        let ghost done = texts(out@);
        let tail = chars_between(c.as_slice(), from, n);
        assert(tail@ =~= rest);
        match find_first(tail.as_slice(), '\n') {
            Some(i) => {
                let mut end: usize = from + i;
                if i > 0 && tail[i - 1] == '\r' {
                    end = end - 1;
                }
                let line = chars_between(c.as_slice(), from, end);
                out.push(string_of(line.as_slice()));
                proof {
                    assert(line@ =~= without_return(rest.take(i as int)));
                    assert(rest.skip(i + 1) =~= c@.skip(from + i + 1));
                    assert(texts(out@) =~= done.push(line@));
                    assert(done + (seq![line@] + lines(rest.skip(i + 1))) =~= texts(out@) + lines(
                        rest.skip(i + 1),
                    ));
                }
                from = from + i + 1;
            },
            None => {
                out.push(string_of(tail.as_slice()));
                proof {
                    assert(texts(out@) =~= done.push(rest));
                    assert(done + seq![rest] =~= texts(out@));
                }
                return out;
            },
        }
    }
    assert(texts(out@) + lines(c@.skip(n as int)) =~= texts(out@));
    out
}

/// The words of a text: what stands between blanks.
pub open spec fn words(s: Seq<char>) -> Seq<Seq<char>>
    decreases s.len(),
    via words_end
{
    if s.len() == 0 {
        Seq::empty()
    } else if is_whitespace(s[0]) {
        words(s.skip(1))
    } else {
        seq![s.take(word_len(s))] + words(s.skip(word_len(s)))
    }
}

#[via_fn]
proof fn words_end(s: Seq<char>) {
    if s.len() > 0 && !is_whitespace(s[0]) {
        lemma_word_len(s.skip(1));
    }
}

/// How far the first word of a text goes.
pub open spec fn word_len(s: Seq<char>) -> int
    decreases s.len(),
{
    if s.len() == 0 || is_whitespace(s[0]) {
        0
    } else {
        1 + word_len(s.skip(1))
    }
}

/// How far a word goes, from `from` on.
fn word_end(c: &Vec<char>, from: usize) -> (r: usize)
    requires
        from <= c@.len(),
    ensures
        from <= r <= c@.len(),
        r - from == word_len(c@.skip(from as int)),
{
    let mut i: usize = from;
    while i < c.len() && !c[i].is_whitespace()
        invariant
            from <= i <= c@.len(),
            word_len(c@.skip(from as int)) == i - from + word_len(c@.skip(i as int)),
        decreases c.len() - i,
    {
        assert(c@.skip(i as int).skip(1) =~= c@.skip(i + 1));
        i = i + 1;
    }
    i
}

/// The words of a text.
pub fn words_of(s: &str) -> (r: Vec<String>)
    ensures
        texts(r@) == words(s@),
{
    let c = chars_of(s);
    let n: usize = c.len();
    let mut out: Vec<String> = Vec::new();
    let mut i: usize = 0;
    assert(c@.skip(0) =~= c@);
    assert(texts(out@) + words(c@) =~= words(c@));
    while i < n
        invariant
            i <= n,
            n == c@.len(),
            c@ == s@,
            texts(out@) + words(c@.skip(i as int)) == words(s@),
        decreases n - i,
    {
        let ghost rest = c@.skip(i as int);
        let ghost done = texts(out@);
        if c[i].is_whitespace() {
            assert(rest.skip(1) =~= c@.skip(i + 1));
            i = i + 1;
        } else {
            let end: usize = word_end(&c, i);
            let w = chars_between(c.as_slice(), i, end);
            out.push(string_of(w.as_slice()));
            proof {
                assert(w@ =~= rest.take(end - i));
                assert(rest.skip(end - i) =~= c@.skip(end as int));
                assert(texts(out@) =~= done.push(w@));
                assert(done + (seq![w@] + words(c@.skip(end as int))) =~= texts(out@) + words(
                    c@.skip(end as int),
                ));
                assert(word_len(rest) == 1 + word_len(rest.skip(1)));
                lemma_word_len(rest.skip(1));
            }
            i = end;
        }
    }
    assert(texts(out@) + words(c@.skip(n as int)) =~= texts(out@));
    out
}

proof fn lemma_word_len(s: Seq<char>)
    ensures
        0 <= word_len(s) <= s.len(),
    decreases s.len(),
{
    if s.len() > 0 && !is_whitespace(s[0]) {
        lemma_word_len(s.skip(1));
    }
}

/// What follows the first word of a text, without the blanks at its ends.
pub open spec fn after_word(s: Seq<char>) -> Seq<char> {
    let t = trim(s);
    let n = word_len(t);
    if n < t.len() {
        trim(t.skip(n + 1))
    } else {
        Seq::empty()
    }
}

/// What follows the first word of a text, without the blanks at its ends.
pub fn rest_of(s: &str) -> (r: Vec<char>)
    ensures
        r@ == after_word(s@),
{
    let c = chars_of(s);
    let t = trim_chars(c.as_slice());
    assert(t@.skip(0) =~= t@);
    let n: usize = word_end(&t, 0);
    if n < t.len() {
        let k: usize = t.len();
        let rest = chars_between(t.as_slice(), n + 1, k);
        assert(rest@ =~= t@.skip(n + 1));
        trim_chars(rest.as_slice())
    } else {
        let v: Vec<char> = Vec::new();
        assert(v@ =~= Seq::empty());
        v
    }
}

} // verus!
