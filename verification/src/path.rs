//! Paths of files, with `/` between their parts.
use crate::text;
use crate::text::{chars_between, chars_of, chars_start_with, find_last, owned, string_of};
use vstd::prelude::*;

verus! {

/// `p` without what does not count at its end: slashes, and parts that are a single dot behind a slash.
pub open spec fn trimmed(p: Seq<char>) -> Seq<char>
    decreases p.len(),
{
    if p.len() > 0 && p.last() == '/' {
        trimmed(p.drop_last())
    } else if p.len() > 1 && p.last() == '.' && p[p.len() - 2] == '/' {
        trimmed(p.drop_last())
    } else {
        p
    }
}

/// The last part of a path, if there is one and it is a name: not `.` and not `..`.
pub open spec fn file_name(p: Seq<char>) -> Option<Seq<char>> {
    let t = trimmed(p);
    let last = match text::last_index(t, '/') {
        Some(i) => t.skip(i + 1),
        None => t,
    };
    if last == ""@ || last == "."@ || last == ".."@ {
        None
    } else {
        Some(last)
    }
}

/// The path `q` seen from the directory `p`: an absolute `q` stays as it is.
pub open spec fn joined(p: Seq<char>, q: Seq<char>) -> Seq<char> {
    if "/"@.is_prefix_of(q) {
        q
    } else if p.len() == 0 || p.last() == '/' {
        p + q
    } else {
        p + "/"@ + q
    }
}

/// The last part of a path.
pub fn file_name_of(p: &str) -> (r: Option<String>)
    ensures
        match r {
            Some(s) => file_name(p@) == Some(s@),
            None => file_name(p@) is None,
        },
{
    let c = chars_of(p);
    let mut n: usize = c.len();
    assert(c@.take(n as int) =~= c@);
    while n > 0 && (c[n - 1] == '/' || (n > 1 && c[n - 1] == '.' && c[n - 2] == '/'))
        invariant
            n <= c@.len(),
            trimmed(c@.take(n as int)) == trimmed(c@),
        decreases n,
    {
        assert(c@.take(n as int).drop_last() =~= c@.take(n - 1));
        n = n - 1;
    }
    let t = chars_between(c.as_slice(), 0, n);
    assert(t@ =~= c@.take(n as int));
    assert(trimmed(c@) == t@);
    let from: usize = match find_last(t.as_slice(), '/') {
        Some(i) => i + 1,
        None => 0,
    };
    let last = chars_between(t.as_slice(), from, t.len());
    proof {
        reveal_strlit("");
        reveal_strlit(".");
        reveal_strlit("..");
        assert(last@ =~= t@.skip(from as int));
        assert(t@.skip(0) =~= t@);
        assert(last@.len() == 0 ==> last@ =~= ""@);
        assert(last@.len() == 1 && last@[0] == '.' ==> last@ =~= "."@);
        assert(last@.len() == 2 && last@[0] == '.' && last@[1] == '.' ==> last@ =~= ".."@);
    }
    if last.len() == 0 || (last.len() == 1 && last[0] == '.') || (last.len() == 2 && last[0] == '.'
        && last[1] == '.') {
        None
    } else {
        Some(string_of(last.as_slice()))
    }
}

/// Goes from the directory `p` to the path `q`.
pub fn push_path(p: &mut String, q: &str)
    ensures
        final(p)@ == joined(old(p)@, q@),
{
    let c = chars_of(q);
    if chars_start_with(c.as_slice(), "/") {
        *p = owned(q);
        return;
    }
    let n: usize = p.as_str().unicode_len();
    if n > 0 && p.as_str().get_char(n - 1) != '/' {
        p.append("/");
    }
    p.append(q);
}

/// The file in which `dsymutil` leaves the debug information of `exe`, if `exe` has a file name.
pub open spec fn dsym(exe: Seq<char>) -> Option<Seq<char>> {
    match file_name(exe) {
        Some(name) => Some(joined(joined(exe + ".dSYM"@, "Contents/Resources/DWARF"@), name)),
        None => None,
    }
}

/// The file in which `dsymutil` leaves the debug information of `exe`.
pub fn dsym_file(exe: &str) -> (r: Option<String>)
    ensures
        match r {
            Some(p) => dsym(exe@) == Some(p@),
            None => dsym(exe@) is None,
        },
{
    match file_name_of(exe) {
        Some(name) => {
            let mut p = owned(exe);
            p.append(".dSYM");
            push_path(&mut p, "Contents/Resources/DWARF");
            push_path(&mut p, name.as_str());
            Some(p)
        },
        None => None,
    }
}

/// The file that holds the debug information of `exe`: the one of `dsymutil` where it exists, else the
/// executable itself.
pub fn find_debug_file(exe: &str, dsym_exists: bool) -> (r: String)
    ensures
        r@ == (match dsym(exe@) {
            Some(p) => if dsym_exists {
                p
            } else {
                exe@
            },
            None => exe@,
        }),
{
    match dsym_file(exe) {
        Some(p) => if dsym_exists {
            p
        } else {
            owned(exe)
        },
        None => owned(exe),
    }
}

} // verus!
