//! What holds of the parts of a text.
use crate::text;
use vstd::prelude::*;

verus! {

/// Whether a text has no blank in it.
pub open spec fn solid(s: Seq<char>) -> bool {
    forall|i: int| 0 <= i < s.len() ==> !text::is_whitespace(#[trigger] s[i])
}

/// A text without the blanks at its ends neither begins nor ends with one, and stands in the text with
/// nothing but blanks around it.
pub proof fn law_trim(s: Seq<char>)
    ensures
        text::trim(s).len() > 0 ==> !text::is_whitespace(text::trim(s)[0]) && !text::is_whitespace(
            text::trim(s).last(),
        ),
        text::trim(text::trim(s)) == text::trim(s),
        exists|i: int, j: int| #[trigger]
            blank_around(s, i, j) && text::trim(s) == s.subrange(i, j),
{
    lemma_trim_start(s);
    let a = text::trim_start(s);
    let i = choose|i: int|
        0 <= i <= s.len() && a == #[trigger] s.skip(i) && forall|k: int|
            0 <= k < i ==> text::is_whitespace(#[trigger] s[k]);
    lemma_trim_end(a);
    let b = text::trim_end(a);
    let n = choose|n: int|
        0 <= n <= a.len() && b == #[trigger] a.take(n) && forall|k: int|
            n <= k < a.len() ==> text::is_whitespace(#[trigger] a[k]);
    assert(b =~= s.subrange(i, i + n));
    assert forall|k: int| i + n <= k < s.len() implies text::is_whitespace(#[trigger] s[k]) by {
        assert(a[k - i] == s[k]);
    }
    assert(blank_around(s, i, i + n));
    if b.len() > 0 {
        assert(b[0] == a[0]);
        assert(text::trim_start(b) == b);
        assert(text::trim_end(b) == b);
    }
}

/// Whether everything before `i` and from `j` on is a blank.
pub open spec fn blank_around(s: Seq<char>, i: int, j: int) -> bool {
    &&& 0 <= i <= j <= s.len()
    &&& forall|k: int| 0 <= k < i ==> text::is_whitespace(#[trigger] s[k])
    &&& forall|k: int| j <= k < s.len() ==> text::is_whitespace(#[trigger] s[k])
}

proof fn lemma_trim_start(s: Seq<char>)
    ensures
        text::trim_start(s).len() > 0 ==> !text::is_whitespace(text::trim_start(s)[0]),
        exists|i: int|
            0 <= i <= s.len() && text::trim_start(s) == #[trigger] s.skip(i) && forall|k: int|
                0 <= k < i ==> text::is_whitespace(#[trigger] s[k]),
    decreases s.len(),
{
    if s.len() > 0 && text::is_whitespace(s[0]) {
        let r = s.skip(1);
        lemma_trim_start(r);
        let i = choose|i: int|
            0 <= i <= r.len() && text::trim_start(r) == #[trigger] r.skip(i) && forall|k: int|
                0 <= k < i ==> text::is_whitespace(#[trigger] r[k]);
        assert(r.skip(i) =~= s.skip(i + 1));
        assert forall|k: int| 0 <= k < i + 1 implies text::is_whitespace(#[trigger] s[k]) by {
            if k > 0 {
                assert(r[k - 1] == s[k]);
            }
        }
    } else {
        assert(s.skip(0) =~= s);
    }
}

proof fn lemma_trim_end(s: Seq<char>)
    ensures
        text::trim_end(s).len() > 0 ==> !text::is_whitespace(text::trim_end(s).last()),
        exists|n: int|
            0 <= n <= s.len() && text::trim_end(s) == #[trigger] s.take(n) && forall|k: int|
                n <= k < s.len() ==> text::is_whitespace(#[trigger] s[k]),
    decreases s.len(),
{
    if s.len() > 0 && text::is_whitespace(s.last()) {
        let r = s.drop_last();
        lemma_trim_end(r);
        let n = choose|n: int|
            0 <= n <= r.len() && text::trim_end(r) == #[trigger] r.take(n) && forall|k: int|
                n <= k < r.len() ==> text::is_whitespace(#[trigger] r[k]);
        assert(r.take(n) =~= s.take(n));
        assert forall|k: int| n <= k < s.len() implies text::is_whitespace(#[trigger] s[k]) by {
            if k < r.len() {
                assert(r[k] == s[k]);
            }
        }
    } else {
        assert(s.take(s.len() as int) =~= s);
    }
}

proof fn lemma_word(w: Seq<char>, c: char, rest: Seq<char>)
    requires
        solid(w),
        text::is_whitespace(c),
    ensures
        text::word_len(w + seq![c] + rest) == w.len(),
        text::word_len(w) == w.len(),
    decreases w.len(),
{
    let s = w + seq![c] + rest;
    if w.len() > 0 {
        assert(s[0] == w[0]);
        let r = w.skip(1);
        assert forall|i: int| 0 <= i < r.len() implies !text::is_whitespace(#[trigger] r[i]) by {
            assert(r[i] == w[i + 1]);
        }
        lemma_word(r, c, rest);
        assert(s.skip(1) =~= r + seq![c] + rest);
    } else {
        assert(s[0] == c);
    }
}

/// The words of a text are what stands between blanks: the first ends at the first blank, and the others
/// are those of what follows.
pub proof fn law_words(w: Seq<char>, c: char, rest: Seq<char>)
    requires
        solid(w),
        text::is_whitespace(c),
    ensures
        w.len() > 0 ==> text::words(w + seq![c] + rest) == seq![w] + text::words(rest),
        w.len() > 0 ==> text::words(w) == seq![w],
        text::words(seq![c] + rest) == text::words(rest),
        text::words(Seq::empty()).len() == 0,
{
    lemma_word(w, c, rest);
    assert((seq![c] + rest).skip(1) =~= rest);
    if w.len() > 0 {
        let s = w + seq![c] + rest;
        assert(s[0] == w[0]);
        assert(s.take(w.len() as int) =~= w);
        let t = s.skip(w.len() as int);
        assert(t =~= seq![c] + rest);
        assert(text::words(t) == text::words(rest));
        assert(text::words(s) == seq![w] + text::words(t));
        assert(w.take(w.len() as int) =~= w);
        assert(w.skip(w.len() as int) =~= Seq::<char>::empty());
        assert(text::words(Seq::<char>::empty()) =~= Seq::<Seq<char>>::empty());
        assert(text::words(w) == seq![w] + text::words(w.skip(w.len() as int)));
        assert(seq![w] + Seq::<Seq<char>>::empty() =~= seq![w]);
    }
}

/// What follows the first word of a line is the rest of it, without blanks around it.
pub proof fn law_what_follows_a_word(w: Seq<char>, c: char, rest: Seq<char>)
    requires
        solid(w),
        w.len() > 0,
        text::is_whitespace(c),
        rest.len() > 0 && !text::is_whitespace(rest.last()),
    ensures
        text::after_word(w + seq![c] + rest) == text::trim(rest),
        text::after_word(w).len() == 0,
{
    lemma_word(w, c, rest);
    let s = w + seq![c] + rest;
    assert(s[0] == w[0]);
    assert(s.last() == rest.last());
    assert(text::trim(s) == s);
    assert(s.skip(w.len() as int + 1) =~= rest);
    assert(w.last() == w[w.len() - 1]);
    assert(text::trim(w) == w);
}

proof fn lemma_feed(s: Seq<char>, i: int)
    requires
        0 <= i < s.len(),
        s[i] == '\n',
        forall|j: int| 0 <= j < i ==> #[trigger] s[j] != '\n',
    ensures
        text::first_index(s, '\n') == Some(i),
    decreases s.len(),
{
    if i > 0 {
        assert(s[0] != '\n');
        let r = s.skip(1);
        assert forall|j: int| 0 <= j < i - 1 implies #[trigger] r[j] != '\n' by {
            assert(r[j] == s[j + 1]);
        }
        lemma_feed(r, i - 1);
    }
}

proof fn lemma_no_feed(s: Seq<char>)
    requires
        forall|j: int| 0 <= j < s.len() ==> #[trigger] s[j] != '\n',
    ensures
        text::first_index(s, '\n') is None,
    decreases s.len(),
{
    if s.len() > 0 {
        let r = s.skip(1);
        assert forall|j: int| 0 <= j < r.len() implies #[trigger] r[j] != '\n' by {
            assert(r[j] == s[j + 1]);
        }
        lemma_no_feed(r);
    }
}

/// The lines of a text end at its line feeds; a carriage return before one is left out, and a text behind
/// the last one is a line of its own.
pub proof fn law_lines(a: Seq<char>, rest: Seq<char>)
    requires
        forall|j: int| 0 <= j < a.len() ==> #[trigger] a[j] != '\n',
    ensures
        a.len() == 0 || a.last() != '\r' ==> text::lines(a + seq!['\n'] + rest) == seq![a] + text::lines(rest),
        text::lines(a + seq!['\r', '\n'] + rest) == seq![a] + text::lines(rest),
        a.len() > 0 ==> text::lines(a) == seq![a],
        text::lines(Seq::empty()).len() == 0,
{
    let s = a + seq!['\n'] + rest;
    let n = a.len() as int;
    assert forall|j: int| 0 <= j < n implies #[trigger] s[j] != '\n' by {
        assert(s[j] == a[j]);
    }
    lemma_feed(s, n);
    assert(s.take(n) =~= a);
    assert(s.skip(n + 1) =~= rest);
    let r = a + seq!['\r', '\n'] + rest;
    assert forall|j: int| 0 <= j < n + 1 implies #[trigger] r[j] != '\n' by {
        if j < n {
            assert(r[j] == a[j]);
        }
    }
    lemma_feed(r, n + 1);
    assert(r.take(n + 1) =~= a.push('\r'));
    assert(a.push('\r').drop_last() =~= a);
    assert(r.skip(n + 2) =~= rest);
    lemma_no_feed(a);
}

/// A part stands in a text exactly if the text has something before it and something behind it.
pub proof fn law_contains(a: Seq<char>, part: Seq<char>, b: Seq<char>)
    ensures
        text::contains(a + part + b, part),
        part.len() > a.len() ==> !text::contains(a, part),
{
    let s = a + part + b;
    assert(s.subrange(a.len() as int, a.len() as int + part.len()) =~= part);
}

/// A text is split at the first or at the last place of a character: the parts with the character between
/// them are the text, and the first part, or the second, does not have it.
pub proof fn law_split(s: Seq<char>, c: char)
    ensures
        text::split_first(s, c) matches Some((a, b)) ==> s == a + seq![c] + b && !a.contains(c),
        text::split_first(s, c) is None ==> !s.contains(c),
        text::split_last(s, c) matches Some((a, b)) ==> s == a + seq![c] + b && !b.contains(c),
        text::split_last(s, c) is None ==> !s.contains(c),
{
    lemma_first_place(s, c);
    lemma_last_place(s, c);
    if let Some(i) = text::first_index(s, c) {
        assert(s =~= s.take(i) + seq![c] + s.skip(i + 1));
        let a = s.take(i);
        if a.contains(c) {
            let j = choose|j: int| 0 <= j < a.len() && a[j] == c;
            assert(s[j] == c);
        }
    }
    if let Some(i) = text::last_index(s, c) {
        assert(s =~= s.take(i) + seq![c] + s.skip(i + 1));
        let b = s.skip(i + 1);
        if b.contains(c) {
            let j = choose|j: int| 0 <= j < b.len() && b[j] == c;
            assert(s[i + 1 + j] == c);
        }
    }
}

proof fn lemma_first_place(s: Seq<char>, c: char)
    ensures
        text::first_index(s, c) matches Some(i) ==> 0 <= i < s.len() && s[i] == c && forall|j: int|
            0 <= j < i ==> #[trigger] s[j] != c,
        text::first_index(s, c) is None ==> forall|j: int| 0 <= j < s.len() ==> #[trigger] s[j] != c,
    decreases s.len(),
{
    if s.len() > 0 && s[0] != c {
        let r = s.skip(1);
        lemma_first_place(r, c);
        assert forall|j: int| 0 < j < s.len() implies #[trigger] s[j] == r[j - 1] by {}
    }
}

proof fn lemma_last_place(s: Seq<char>, c: char)
    ensures
        text::last_index(s, c) matches Some(i) ==> 0 <= i < s.len() && s[i] == c && forall|j: int|
            i < j < s.len() ==> #[trigger] s[j] != c,
        text::last_index(s, c) is None ==> forall|j: int| 0 <= j < s.len() ==> #[trigger] s[j] != c,
    decreases s.len(),
{
    if s.len() > 0 && s.last() != c {
        let r = s.drop_last();
        lemma_last_place(r, c);
        assert forall|j: int| 0 <= j < s.len() - 1 implies #[trigger] s[j] == r[j] by {}
    }
}

} // verus!
