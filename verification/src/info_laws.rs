//! What holds of what is read from the debug information.
use crate::bytes;
use crate::debug_info;
use crate::debug_info::{
    DetailSeq, EntrySeq, FrameBaseDef, LineRowSeq, OpenScope, TypeDieSeq, VarLocation, VariableSeq,
};
use crate::dwarf;
use crate::dwarf::Attr;
use crate::path;
use crate::text;
use vstd::prelude::*;

verus! {

/// A byte below `0x80` is a whole number, with its second highest bit as the sign.
pub proof fn law_short_number(b: Seq<u8>, x: u8)
    requires
        x < 0x80,
    ensures
        debug_info::sleb128(seq![x] + b) == Some(
            (
                if x < 0x40 {
                    x as i64
                } else {
                    (x - 0x80) as i64
                },
                1nat,
            ),
        ),
{
    let s = seq![x] + b;
    reveal_with_fuel(debug_info::leb_bits, 2);
    reveal_with_fuel(debug_info::pow128, 2);
    assert(s[0] == x);
    assert(debug_info::leb_len(s, 0) == Some(1nat));
    assert(debug_info::leb_bits(s, 0) == 0 && debug_info::pow128(0) == 1 && debug_info::pow128(1) == 128);
    assert((x % 128) as nat * 1nat == x as nat);
    assert(debug_info::leb_bits(s, 1) == x as nat);
}

proof fn lemma_len(x: u8, b: Seq<u8>, i: nat)
    requires
        x >= 0x80,
        i < 9,
    ensures
        debug_info::leb_len(seq![x] + b, i + 1) == (match debug_info::leb_len(b, i) {
            Some(n) => if n <= 9 {
                Some((n + 1) as nat)
            } else {
                None
            },
            None => None,
        }),
    decreases 9 - i,
{
    let s = seq![x] + b;
    if i < b.len() {
        assert(s[i as int + 1] == b[i as int]);
        if b[i as int] >= 0x80 {
            if i + 1 < 9 {
                lemma_len(x, b, i + 1);
            } else {
                reveal_with_fuel(debug_info::leb_len, 2);
                lemma_longest(b, 9);
            }
        }
    }
}

proof fn lemma_longest(b: Seq<u8>, i: nat)
    requires
        i >= 9,
    ensures
        debug_info::leb_len(b, i) matches Some(n) ==> n == 10,
{
    reveal_with_fuel(debug_info::leb_len, 2);
}

proof fn lemma_bits(x: u8, b: Seq<u8>, n: nat)
    requires
        n <= b.len(),
    ensures
        debug_info::leb_bits(seq![x] + b, n + 1) == (x % 128) as nat + 128 * debug_info::leb_bits(b, n),
    decreases n,
{
    let s = seq![x] + b;
    if n > 0 {
        lemma_bits(x, b, (n - 1) as nat);
        assert(s[n as int] == b[n - 1]);
        let p = debug_info::pow128((n - 1) as nat);
        let y = (b[n - 1] % 128) as nat;
        assert(debug_info::pow128(n) == 128 * p);
        assert(y * (128 * p) == 128 * (y * p)) by (nonlinear_arith);
    } else {
        reveal_with_fuel(debug_info::leb_bits, 2);
        reveal_with_fuel(debug_info::pow128, 2);
        assert(s[0] == x);
    }
}

/// A byte from `0x80` on holds the seven lowest bits of a number that goes on behind it.
pub proof fn law_long_number(x: u8, b: Seq<u8>, v: i64, n: nat)
    requires
        x >= 0x80,
        debug_info::sleb128(b) == Some((v, n)),
        n < 9,
    ensures
        debug_info::sleb128(seq![x] + b) == Some(((x - 0x80 + 128 * v) as i64, (n + 1) as nat)),
        -0x80_0000_0000_0000 <= v < 0x80_0000_0000_0000,
{
    let s = seq![x] + b;
    assert(s[0] == x);
    lemma_len(x, b, 0);
    lemma_within(b, 0);
    lemma_bits(x, b, n);
    assert(s[n as int] == b[n - 1]);
    lemma_value_bound(b, n);
    lemma_powers();
    assert(debug_info::pow128((n + 1) as nat) == 128 * debug_info::pow128(n));
    let w = debug_info::leb_bits(b, n);
    let p = debug_info::pow128(n);
    lemma_power_grows(n, 8);
}

proof fn lemma_power_grows(n: nat, m: nat)
    requires
        n <= m,
    ensures
        1 <= debug_info::pow128(n) <= debug_info::pow128(m),
    decreases m,
{
    if m > 0 && n < m {
        lemma_power_grows(n, (m - 1) as nat);
    } else if n > 0 {
        lemma_power_grows((n - 1) as nat, (n - 1) as nat);
    }
}

proof fn lemma_powers()
    ensures
        debug_info::pow128(8) == 0x100_0000_0000_0000,
{
    reveal_with_fuel(debug_info::pow128, 9);
}

/// The bits of a number are below the power of its length, and in the upper half exactly where its last
/// byte has the sign.
proof fn lemma_value_bound(b: Seq<u8>, n: nat)
    ensures
        debug_info::leb_bits(b, n) < debug_info::pow128(n),
        n > 0 ==> (2 * debug_info::leb_bits(b, n) >= debug_info::pow128(n) <==> b[n - 1] % 128 >= 64),
    decreases n,
{
    if n > 0 {
        lemma_value_bound(b, (n - 1) as nat);
        let p = debug_info::pow128((n - 1) as nat);
        let y = (b[n - 1] % 128) as nat;
        assert(y * p <= 127 * p) by (nonlinear_arith)
            requires
                y <= 127,
        ;
        if y >= 64 {
            assert(y * p >= 64 * p) by (nonlinear_arith)
                requires
                    y >= 64,
            ;
        } else {
            assert(y * p <= 63 * p) by (nonlinear_arith)
                requires
                    y <= 63,
            ;
        }
    }
}

proof fn lemma_within(b: Seq<u8>, i: nat)
    ensures
        debug_info::leb_len(b, i) matches Some(n) ==> i < n <= b.len() && b[n - 1] < 0x80,
    decreases b.len() - i,
{
    if i < b.len() && i < 10 {
        lemma_within(b, i + 1);
    }
}

/// A location is an offset from the frame base behind `0x91`, or the address in the eight bytes behind
/// `0x03`; any other is not known.
pub proof fn law_locations(b: Seq<u8>)
    ensures
        b.len() > 0 && b[0] == 0x91 ==> debug_info::var_location(Attr::Exprloc(b))
            == match debug_info::sleb128(b.skip(1)) {
            Some(p) => Some(VarLocation::FrameOffset(p.0)),
            None => None,
        },
        b.len() >= 9 && b[0] == 0x03 ==> debug_info::var_location(Attr::Exprloc(b)) == Some(
            VarLocation::Addr(bytes::le(b.subrange(1, 9)) as u64),
        ),
        b.len() == 0 || (b[0] != 0x91 && b[0] != 0x03) ==> debug_info::var_location(Attr::Exprloc(b)) is None,
        b.len() < 9 && b.len() > 0 && b[0] == 0x03 ==> debug_info::var_location(Attr::Exprloc(b)) is None,
{
}

/// The end of a range is an address, or the distance from its beginning.
pub proof fn law_ranges(low: u64, high: u64, n: u64)
    ensures
        debug_info::pc_range(Attr::Addr(low), Attr::Addr(high)) == Some((low, high)),
        low + n < 0x1_0000_0000_0000_0000 ==> debug_info::pc_range(Attr::Addr(low), Attr::Udata(n)) == Some(
            (low, (low + n) as u64),
        ),
        debug_info::pc_range(Attr::Udata(low), Attr::Addr(high)) is None,
{
}

/// The frame base is the canonical frame address where the attribute says `0x9c`, and else the frame
/// pointer.
pub proof fn law_frame_bases(b: Seq<u8>, a: Attr<Seq<u8>>)
    ensures
        b.len() > 0 && b[0] == 0x9c ==> debug_info::frame_base_def(Attr::Exprloc(b)) is CallFrameCfa,
        b.len() == 0 || b[0] != 0x9c ==> debug_info::frame_base_def(Attr::Exprloc(b)) is Register,
        !(a is Exprloc) ==> debug_info::frame_base_def(a) is Register,
{
}

/// The size of a type is that of the first entry on the way that has one, at most eight; that of a pointer
/// is eight, and so is one that is not known. The name is the first that is not empty.
pub proof fn law_type_sizes(d: TypeDieSeq, rest: Seq<TypeDieSeq>, name: Seq<char>)
    ensures
        ({
            let known = if name.len() == 0 && d.name is Some {
                text::utf8_lossy(d.name->0)
            } else {
                name
            };
            let t = debug_info::type_info(seq![d] + rest, name);
            &&& d.byte_size matches Attr::Udata(n) ==> t.1 == known && (if n < 8 {
                t.0 == n
            } else {
                t.0 == 8
            })
            &&& !(d.byte_size is Udata) && d.tag == 0x0f ==> t == (8u8, known)
            &&& !(d.byte_size is Udata) && d.tag != 0x0f ==> t == debug_info::type_info(rest, known)
        }),
        debug_info::type_info(Seq::empty(), name) == (8u8, name),
{
    assert((seq![d] + rest).skip(1) =~= rest);
}

/// The scopes that are open at a depth are those from the outermost on, up to the first run of inner ones
/// that are not less deep.
pub proof fn law_open_scopes(stack: Seq<OpenScope>, depth: isize)
    ensures
        debug_info::open_at(stack, depth).is_prefix_of(stack),
        debug_info::open_at(stack, depth).len() > 0 ==> debug_info::open_at(stack, depth).last().0 < depth,
        forall|i: int| debug_info::open_at(stack, depth).len() <= i < stack.len() ==> (#[trigger] stack[i]).0
            >= depth,
    decreases stack.len(),
{
    if stack.len() > 0 && stack.last().0 >= depth {
        let r = stack.drop_last();
        law_open_scopes(r, depth);
        let o = debug_info::open_at(r, depth);
        assert(o =~= stack.take(o.len() as int)) by {
            assert(o =~= r.take(o.len() as int));
        }
        assert forall|i: int| o.len() <= i < stack.len() implies (#[trigger] stack[i]).0 >= depth by {
            if i < r.len() {
                assert(r[i] == stack[i]);
            }
        }
    } else {
        assert(stack =~= stack.take(stack.len() as int));
    }
}

/// A function or a block with a range opens a scope of that range inside those that are still open. A
/// function has the frame base that it names, a block that of the scope around it.
pub proof fn law_scopes(
    stack: Seq<OpenScope>,
    e: EntrySeq,
    low: Attr<Seq<u8>>,
    high: Attr<Seq<u8>>,
    fb: Attr<Seq<u8>>,
    r: (u64, u64),
)
    requires
        e.detail == (DetailSeq::Scope { low, high, frame_base: fb }),
        debug_info::pc_range(low, high) == Some(r),
    ensures
        ({
            let open = debug_info::open_at(stack, e.depth);
            let s = debug_info::scopes_after(stack, e);
            &&& s.len() == open.len() + 1 && s.drop_last() == open
            &&& s.last().0 == e.depth && s.last().1 == r
            &&& e.tag == 0x2e ==> s.last().2 == debug_info::frame_base_def(fb)
            &&& e.tag != 0x2e ==> s.last().2 == (if open.len() > 0 {
                open.last().2
            } else {
                FrameBaseDef::Register
            })
        }),
{
    let open = debug_info::open_at(stack, e.depth);
    assert(debug_info::scopes_after(stack, e).drop_last() =~= open);
}

/// A variable has the innermost scope around it, and none where it stands in none; it needs a name and a
/// place. It is an argument exactly if its tag is that of a parameter.
pub proof fn law_variables(
    es: Seq<EntrySeq>,
    stack: Seq<OpenScope>,
    e: EntrySeq,
    a: Attr<Seq<u8>>,
    types: Seq<TypeDieSeq>,
    name: Seq<u8>,
    place: VarLocation,
)
    requires
        e.detail == (DetailSeq::Variable { location: a, types }),
    ensures
        ({
            let open = debug_info::open_at(stack, e.depth);
            let all = debug_info::variables_of(seq![e] + es, stack);
            let rest = debug_info::variables_of(es, open);
            &&& e.name == Some(name) && debug_info::var_location(a) == Some(place) ==> all == seq![
                VariableSeq {
                    name: text::utf8_lossy(name),
                    scope: if open.len() > 0 {
                        Some(open.last().1)
                    } else {
                        None
                    },
                    location: place,
                    byte_size: debug_info::type_info(types, ""@).0,
                    frame_base: if open.len() > 0 {
                        open.last().2
                    } else {
                        FrameBaseDef::Register
                    },
                    is_argument: e.tag == 0x05,
                },
            ] + rest
            &&& e.name is None || debug_info::var_location(a) is None ==> all == rest
        }),
{
    let s = seq![e] + es;
    assert(s.skip(1) =~= es);
    let open = debug_info::open_at(stack, e.depth);
    let rest = debug_info::variables_of(es, open);
    assert(Seq::<VariableSeq>::empty() + rest =~= rest);
}

/// Any other entry declares nothing; the scopes go on behind it.
pub proof fn law_other_entries(es: Seq<EntrySeq>, stack: Seq<OpenScope>, e: EntrySeq)
    requires
        !(e.detail is Variable),
    ensures
        debug_info::variables_of(seq![e] + es, stack) == debug_info::variables_of(
            es,
            debug_info::scopes_after(stack, e),
        ),
        e.detail is Other ==> debug_info::scopes_after(stack, e) == debug_info::open_at(stack, e.depth),
        debug_info::variables_of(Seq::empty(), stack).len() == 0,
{
    let s = seq![e] + es;
    assert(s.skip(1) =~= es);
    let rest = debug_info::variables_of(es, debug_info::scopes_after(stack, e));
    assert(Seq::<VariableSeq>::empty() + rest =~= rest);
}

/// What stands before the name of a type says its kind, by the tag of its entry.
pub proof fn law_type_kinds(tag: u16)
    ensures
        debug_info::type_prefix(0x24) == Some(""@),
        debug_info::type_prefix(0x16) == Some("typedef "@),
        debug_info::type_prefix(0x13) == Some("struct "@),
        debug_info::type_prefix(0x17) == Some("union "@),
        debug_info::type_prefix(0x02) == Some("class "@),
        debug_info::type_prefix(0x04) == Some("enum "@),
        debug_info::type_prefix(0x38) == Some("interface "@),
        tag != 0x24 && tag != 0x16 && tag != 0x13 && tag != 0x17 && tag != 0x02 && tag != 0x04 && tag != 0x38
            ==> debug_info::type_prefix(tag) is None,
{
}

/// A row of the line table is kept with its line and address, the last part of its file's name and the
/// whole path; the end of a sequence is kept with its address. A row without a line or a file is left out.
pub proof fn law_rows(
    addr: u64,
    line: u64,
    n: Seq<u8>,
    sub: Option<Seq<u8>>,
    mark: bool,
    dir: Option<Seq<u8>>,
)
    requires
        line < 0x1_0000_0000,
    ensures
        debug_info::kept_row((true, addr, Some(line), Some((Some(n), sub)), mark), dir) == Some(
            LineRowSeq::EndSequence { addr },
        ),
        debug_info::kept_row((false, addr, None, Some((Some(n), sub)), mark), dir) is None,
        debug_info::kept_row((false, addr, Some(line), None, mark), dir) is None,
        debug_info::kept_row((false, addr, Some(line), Some((Some(n), sub)), mark), dir) matches Some(
            LineRowSeq::Row { file, path, line: l, addr: a, prologue_end },
        ) && l == line && a == addr && prologue_end == mark && path == debug_info::full_path(
            dir,
            sub,
            text::utf8_lossy(n),
        ) && (path::file_name(text::utf8_lossy(n)) matches Some(f) ==> file == f),
{
}

/// A path is the name of the file from its directory, and that from the directory of the compilation; one
/// that begins with a slash stands for itself.
pub proof fn law_paths(dir: Seq<u8>, sub: Seq<u8>, name: Seq<char>)
    ensures
        "/"@.is_prefix_of(name) ==> debug_info::full_path(Some(dir), Some(sub), name) == name,
        !"/"@.is_prefix_of(name) ==> debug_info::full_path(None, None, name) == name,
        debug_info::full_path(Some(dir), None, name) == path::joined(text::utf8_lossy(dir), name),
        debug_info::full_path(Some(dir), Some(sub), name) == path::joined(
            path::joined(text::utf8_lossy(dir), text::utf8_lossy(sub)),
            name,
        ),
        debug_info::full_path(None, Some(sub), name) == path::joined(text::utf8_lossy(sub), name),
        "/"@.is_prefix_of(text::utf8_lossy(sub)) ==> debug_info::full_path(Some(dir), Some(sub), name)
            == path::joined(text::utf8_lossy(sub), name),
{
    let d = text::utf8_lossy(dir);
    let b = text::utf8_lossy(sub);
    assert(Seq::<char>::empty() + d =~= d);
    assert(Seq::<char>::empty() + b =~= b);
    assert(Seq::<char>::empty() + name =~= name);
}

/// A path that does not begin with a slash is put behind a directory, with one slash between them.
pub proof fn law_joined(p: Seq<char>, q: Seq<char>)
    ensures
        q.len() > 0 && q[0] == '/' ==> path::joined(p, q) == q,
        (q.len() == 0 || q[0] != '/') && p.len() > 0 && p.last() != '/' ==> path::joined(p, q) == p + seq!['/']
            + q,
        (q.len() == 0 || q[0] != '/') && p.len() > 0 && p.last() == '/' ==> path::joined(p, q) == p + q,
        (q.len() == 0 || q[0] != '/') && p.len() == 0 ==> path::joined(p, q) == q,
{
    reveal_strlit("/");
    assert("/"@ =~= seq!['/']);
    assert(q.len() > 0 && q[0] == '/' ==> "/"@ =~= q.take(1));
    if "/"@.is_prefix_of(q) {
        assert("/"@[0] == q[0]) by {
            assert("/"@ =~= q.subrange(0, 1));
            assert(q.subrange(0, 1)[0] == q[0]);
        }
    }
    assert(Seq::<char>::empty() + q =~= q);
}

/// The name of a file is the last part of its path, whatever slashes stand behind it; dots alone are no
/// name.
pub proof fn law_file_names(dir: Seq<char>, name: Seq<char>)
    requires
        name.len() > 0,
        forall|i: int| 0 <= i < name.len() ==> #[trigger] name[i] != '/',
        name != "."@ && name != ".."@,
    ensures
        path::file_name(name) == Some(name),
        path::file_name(dir + seq!['/'] + name) == Some(name),
        path::file_name(dir + seq!['/'] + name + seq!['/']) == Some(name),
        path::file_name(Seq::empty()) is None,
{
    reveal_strlit("");
    reveal_strlit(".");
    let p = dir + seq!['/'] + name;
    assert(name.last() == name[name.len() - 1]);
    assert(p.last() == name.last());
    assert(name.len() == 1 && name[0] == '.' ==> name =~= "."@);
    assert(path::trimmed(name) == name);
    if name.len() > 1 {
        assert(p[p.len() - 2] == name[name.len() - 2]);
    }
    assert(path::trimmed(p) == p);
    let q = p + seq!['/'];
    assert(q.drop_last() =~= p);
    assert(path::trimmed(q) == path::trimmed(p));
    lemma_no_slash(name);
    lemma_last_slash(p, dir.len() as int);
    assert(p.skip(dir.len() as int + 1) =~= name);
    assert(path::trimmed(Seq::<char>::empty()) == Seq::<char>::empty());
    lemma_no_slash(Seq::empty());
    assert(Seq::<char>::empty() =~= ""@);
}

proof fn lemma_no_slash(s: Seq<char>)
    requires
        forall|i: int| 0 <= i < s.len() ==> #[trigger] s[i] != '/',
    ensures
        text::last_index(s, '/') is None,
    decreases s.len(),
{
    if s.len() > 0 {
        let r = s.drop_last();
        assert forall|i: int| 0 <= i < r.len() implies #[trigger] r[i] != '/' by {
            assert(r[i] == s[i]);
        }
        lemma_no_slash(r);
    }
}

proof fn lemma_last_slash(s: Seq<char>, i: int)
    requires
        0 <= i < s.len(),
        s[i] == '/',
        forall|j: int| i < j < s.len() ==> #[trigger] s[j] != '/',
    ensures
        text::last_index(s, '/') == Some(i),
    decreases s.len(),
{
    if i < s.len() - 1 {
        let r = s.drop_last();
        assert(r[i] == s[i]);
        assert forall|j: int| i < j < r.len() implies #[trigger] r[j] != '/' by {
            assert(r[j] == s[j]);
        }
        lemma_last_slash(r, i);
    }
}

/// The debug information of an executable is looked for beside it, under its own name.
pub proof fn law_debug_file(exe: Seq<char>, name: Seq<char>)
    requires
        path::file_name(exe) == Some(name),
        name.len() > 0 && name[0] != '/',
    ensures
        path::dsym(exe) == Some(exe + ".dSYM/Contents/Resources/DWARF/"@ + name),
{
    reveal_strlit("/");
    reveal_strlit(".dSYM");
    reveal_strlit("Contents/Resources/DWARF");
    reveal_strlit(".dSYM/Contents/Resources/DWARF/");
    let a = exe + ".dSYM"@;
    let c = "Contents/Resources/DWARF"@;
    assert(a.last() == 'M');
    assert(c[0] == 'C');
    law_joined(a, c);
    let b = path::joined(a, c);
    assert(b.last() == 'F');
    law_joined(b, name);
    assert(exe + ".dSYM"@ + seq!['/'] + c + seq!['/'] + name =~= exe + ".dSYM/Contents/Resources/DWARF/"@
        + name);
}

/// What is read of an entry is its name, and by its tag the range and the frame base of a function or
/// block, or the place and the type of a variable or parameter.
pub proof fn law_attributes(s: dwarf::SectionSeq, unit: u64, depth: isize, tag: u16, off: u64)
    ensures
        ({
            let e = debug_info::entry_of(s, unit, (depth, tag, off));
            &&& e.depth == depth && e.tag == tag && e.name == dwarf::attr_string(s, unit, off, 0x03)
            &&& tag == 0x2e || tag == 0x0b ==> e.detail == (DetailSeq::Scope {
                low: dwarf::attr(s, unit, off, 0x11),
                high: dwarf::attr(s, unit, off, 0x12),
                frame_base: dwarf::attr(s, unit, off, 0x40),
            })
            &&& tag == 0x34 || tag == 0x05 ==> e.detail == (DetailSeq::Variable {
                location: dwarf::attr(s, unit, off, 0x02),
                types: debug_info::type_chain(s, unit, dwarf::attr(s, unit, off, 0x49), 8),
            })
            &&& tag != 0x2e && tag != 0x0b && tag != 0x34 && tag != 0x05 ==> e.detail is Other
        }),
{
}

/// The way to the size of a type goes from entry to entry by their types, a bounded number of steps; each
/// is noted with its tag, its name and its size.
pub proof fn law_type_chains(s: dwarf::SectionSeq, unit: u64, o: u64, t: u16, left: nat)
    requires
        dwarf::tag(s, unit, o) == Some(t),
        left > 0,
    ensures
        debug_info::type_chain(s, unit, Attr::UnitRef(o), left) == seq![
            TypeDieSeq {
                tag: t,
                name: dwarf::attr_string(s, unit, o, 0x03),
                byte_size: dwarf::attr(s, unit, o, 0x0b),
            },
        ] + debug_info::type_chain(s, unit, dwarf::attr(s, unit, o, 0x49), (left - 1) as nat),
        debug_info::type_chain(s, unit, Attr::UnitRef(o), 0).len() == 0,
        debug_info::type_chain(s, unit, Attr::Udata(o), left).len() == 0,
{
}

/// The debug information of several units is that of one behind the other. A unit that cannot be read has
/// none.
pub proof fn law_units(s: dwarf::SectionSeq, us: Seq<u64>, u: u64)
    ensures
        debug_info::all_rows(s, us.push(u)) == debug_info::all_rows(s, us) + debug_info::unit_rows(s, u),
        debug_info::all_variables(s, us.push(u)) == debug_info::all_variables(s, us)
            + debug_info::variables_of(debug_info::unit_entries(s, u), Seq::empty()),
        debug_info::all_types(s, us.push(u)) == debug_info::all_types(s, us).union(
            debug_info::type_names_of(debug_info::unit_entries(s, u)),
        ),
        dwarf::comp_dir(s, u) matches Some(Some(d)) ==> debug_info::all_dirs(s, us.push(u))
            == debug_info::all_dirs(s, us).insert(text::utf8_lossy(d)),
        dwarf::comp_dir(s, u) is None ==> debug_info::all_dirs(s, us.push(u)) == debug_info::all_dirs(s, us)
            && debug_info::unit_rows(s, u).len() == 0 && debug_info::unit_entries(s, u).len() == 0,
        debug_info::all_rows(s, Seq::empty()).len() == 0 && debug_info::all_variables(
            s,
            Seq::empty(),
        ).len() == 0,
{
    assert(us.push(u).drop_last() =~= us);
}

/// The names of types that are shown are those of the entries of types that have a name, with their kind
/// before it.
pub proof fn law_type_names(es: Seq<EntrySeq>, i: int, n: Seq<u8>)
    requires
        0 <= i < es.len(),
        es[i].name == Some(n),
        text::trim(text::utf8_lossy(n)).len() > 0,
    ensures
        es[i].tag == 0x13 ==> debug_info::type_names_of(es).contains(
            "struct "@ + text::trim(text::utf8_lossy(n)),
        ),
        es[i].tag == 0x24 ==> debug_info::type_names_of(es).contains(""@ + text::trim(text::utf8_lossy(n))),
        es[i].tag == 0x16 ==> debug_info::type_names_of(es).contains(
            "typedef "@ + text::trim(text::utf8_lossy(n)),
        ),
        debug_info::type_prefix(es[i].tag) is None ==> debug_info::shown_type(es[i]) is None,
{
    if let Some(x) = debug_info::shown_type(es[i]) {
        assert(debug_info::type_names_of(es).contains(x));
    }
}

/// The rows that are kept of a unit are those of its raw rows that have a line and a file, and the ends of
/// sequences, in their order.
pub proof fn law_kept_rows(rs: Seq<dwarf::RawRowSeq>, r: dwarf::RawRowSeq, dir: Option<Seq<u8>>)
    ensures
        debug_info::kept_row(r, dir) matches Some(k) ==> debug_info::kept_rows(rs.push(r), dir)
            == debug_info::kept_rows(rs, dir).push(k),
        debug_info::kept_row(r, dir) is None ==> debug_info::kept_rows(rs.push(r), dir)
            == debug_info::kept_rows(rs, dir),
        debug_info::kept_rows(Seq::empty(), dir).len() == 0,
{
    assert(rs.push(r).drop_last() =~= rs);
}

/// Every row of a line table keeps its own address, line and mark, and has the file that belongs to it.
pub proof fn law_rows_have_their_files(
    s: dwarf::SectionSeq,
    unit: u64,
    a: Seq<(bool, u64, Option<u64>, bool)>,
    f: Seq<Option<(Option<Seq<u8>>, Option<Seq<u8>>)>>,
    i: int,
)
    requires
        dwarf::can_run(dwarf::line_ops(s, unit)),
        dwarf::steps(s, unit) == Some(a),
        dwarf::files(s, unit) == Some(f),
        0 <= i < a.len(),
    ensures
        dwarf::rows(s, unit) matches Some(r) && r.len() == a.len() && r[i].0 == a[i].0 && r[i].1 == a[i].1
            && r[i].2 == a[i].2 && r[i].4 == a[i].3 && r[i].3 == (if i < f.len() {
            f[i]
        } else {
            None
        }),
{
    crate::line_program::law_runnable_changes_no_other(s, unit);
}

/// The contents of a section of debug information are those that the file has under its name, and nothing
/// where it has none.
pub proof fn law_debug_sections(data: Seq<u8>, i: int)
    requires
        0 <= i < 13,
    ensures
        dwarf::sections_of(data).len() == 13,
        dwarf::sections_of(data)[i].1 == (match crate::object_file::section_contents(
            data,
            dwarf::sections_of(data)[i].0,
        ) {
            Some(b) => b,
            None => Seq::empty(),
        }),
        dwarf::sections_of(data)[3].0 == ".debug_info"@ && dwarf::sections_of(data)[4].0 == ".debug_line"@
            && dwarf::sections_of(data)[0].0 == ".debug_abbrev"@ && dwarf::sections_of(data)[6].0
            == ".debug_str"@,
{
}

} // verus!
