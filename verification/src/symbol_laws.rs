//! What holds of the symbols, the line table and the variables of a file, in terms of their entries.
use crate::arch::Arch;
use crate::debug_info;
use crate::debug_info::{LineRow, Variable};
use crate::dwarf;
use crate::numerals;
use crate::object_file;
use crate::path;
use crate::stub_finder;
use crate::symbols;
use crate::symbols::Symbols;
use crate::text;
use vstd::prelude::*;

verus! {

/// A symbol is found by its name, with or without the underscore of C before it: the first in the table
/// counts.
pub proof fn law_symbol_is_found_by_name(s: Symbols, name: Seq<char>, i: int)
    requires
        0 <= i < s.symbols@.len(),
        s.symbols@[i].0@ == name || s.symbols@[i].0@ == "_"@ + name,
        forall|j: int|
            0 <= j < i ==> (#[trigger] s.symbols@[j]).0@ != name && s.symbols@[j].0@ != "_"@ + name,
    ensures
        s.symbol_addr(name) == Some(s.symbols@[i].1),
{
    lemma_first_named(symbols::symbol_seq(s.symbols@), name, i);
}

proof fn lemma_first_named(t: Seq<(Seq<char>, u64)>, name: Seq<char>, i: int)
    requires
        0 <= i < t.len(),
        t[i].0 == name || t[i].0 == "_"@ + name,
        forall|j: int| 0 <= j < i ==> (#[trigger] t[j]).0 != name && t[j].0 != "_"@ + name,
    ensures
        symbols::first_named(t, name) == Some(t[i].1),
    decreases t.len(),
{
    if i > 0 {
        assert(t[0].0 != name && t[0].0 != "_"@ + name);
        let r = t.skip(1);
        assert forall|j: int| 0 <= j < i - 1 implies (#[trigger] r[j]).0 != name && r[j].0 != "_"@ + name by {
            assert(r[j] == t[j + 1]);
        }
        lemma_first_named(r, name, i - 1);
    }
}

/// A name that no symbol has, with or without an underscore, finds none.
pub proof fn law_no_symbol_of_that_name(s: Symbols, name: Seq<char>)
    requires
        forall|j: int|
            0 <= j < s.symbols@.len() ==> (#[trigger] s.symbols@[j]).0@ != name && s.symbols@[j].0@ != "_"@
                + name,
    ensures
        s.symbol_addr(name) is None,
{
    lemma_none_named(symbols::symbol_seq(s.symbols@), name);
}

proof fn lemma_none_named(t: Seq<(Seq<char>, u64)>, name: Seq<char>)
    requires
        forall|j: int| 0 <= j < t.len() ==> (#[trigger] t[j]).0 != name && t[j].0 != "_"@ + name,
    ensures
        symbols::first_named(t, name) is None,
    decreases t.len(),
{
    if t.len() > 0 {
        let r = t.skip(1);
        assert forall|j: int| 0 <= j < r.len() implies (#[trigger] r[j]).0 != name && r[j].0 != "_"@ + name by {
            assert(r[j] == t[j + 1]);
        }
        lemma_none_named(r, name);
    }
}

/// The symbol that holds an address is the nearest at or before it that has an address and is not the
/// header of the file; of several at one address the last. The distance is that from its beginning.
pub proof fn law_holder_is_the_nearest(s: Symbols, v: u64)
    ensures
        s.holder(v) matches Some((name, off)) ==> exists|i: int|
            0 <= i < s.symbols@.len() && (#[trigger] s.symbols@[i]).0@ == name && s.symbols@[i].1 + off == v
                && s.symbols@[i].1 != 0 && name != "__mh_execute_header"@ && forall|j: int|
                0 <= j < s.symbols@.len() && #[trigger] s.symbols@[j].0@ != "__mh_execute_header"@
                    && s.symbols@[j].1 <= v ==> s.symbols@[j].1 <= s.symbols@[i].1 && (s.symbols@[j].1
                    == s.symbols@[i].1 ==> j <= i),
        s.holder(v) is None ==> forall|j: int|
            0 <= j < s.symbols@.len() ==> (#[trigger] s.symbols@[j]).1 == 0 || s.symbols@[j].1 > v
                || s.symbols@[j].0@ == "__mh_execute_header"@,
{
    if exists|i: int| symbols::holds(s.symbols@, v, i) {
        let i = choose|i: int| symbols::holds(s.symbols@, v, i);
        let x = s.symbols@[i];
        assert forall|j: int|
            0 <= j < s.symbols@.len() && #[trigger] s.symbols@[j].0@ != "__mh_execute_header"@
                && s.symbols@[j].1 <= v implies s.symbols@[j].1 <= s.symbols@[i].1 && (s.symbols@[j].1
            == s.symbols@[i].1 ==> j <= i) by {
            if s.symbols@[j].1 != 0 {
                assert(symbols::can_hold(s.symbols@[j], v));
            }
        }
    } else {
        assert forall|j: int| 0 <= j < s.symbols@.len() implies (#[trigger] s.symbols@[j]).1 == 0
            || s.symbols@[j].1 > v || s.symbols@[j].0@ == "__mh_execute_header"@ by {
            if symbols::can_hold(s.symbols@[j], v) {
                lemma_some_holder(s.symbols@, v, s.symbols@.len() as int, j);
            }
        }
    }
}

/// Where a symbol can hold an address, one of the first `n` is the nearest.
proof fn lemma_some_holder(t: Seq<(String, u64)>, v: u64, n: int, j: int)
    requires
        0 <= j < n <= t.len(),
        symbols::can_hold(t[j], v),
    ensures
        exists|i: int| #[trigger] symbols::holds(t.take(n), v, i),
        n == t.len() ==> exists|i: int| #[trigger] symbols::holds(t, v, i),
    decreases n,
{
    let p = t.take(n);
    let last = n - 1;
    if n == 1 {
        assert(symbols::holds(p, v, 0));
    } else if exists|k: int| 0 <= k < last && symbols::can_hold(#[trigger] t[k], v) {
        let k = choose|k: int| 0 <= k < last && symbols::can_hold(#[trigger] t[k], v);
        lemma_some_holder(t, v, last, k);
        let q = t.take(last);
        let i = choose|i: int| #[trigger] symbols::holds(q, v, i);
        assert forall|a: int| 0 <= a < last implies q[a] == #[trigger] p[a] by {}
        if symbols::can_hold(t[last], v) && t[last].1 >= t[i].1 {
            assert forall|a: int| 0 <= a < p.len() && symbols::can_hold(#[trigger] p[a], v) implies p[a].1
                < p[last].1 || (p[a].1 == p[last].1 && a <= last) by {
                if a < last {
                    assert(q[a] == p[a]);
                    assert(q[i] == t[i]);
                }
            }
            assert(symbols::holds(p, v, last));
        } else {
            assert(q[i] == p[i]);
            assert forall|a: int| 0 <= a < p.len() && symbols::can_hold(#[trigger] p[a], v) implies p[a].1
                < p[i].1 || (p[a].1 == p[i].1 && a <= i) by {
                if a < last {
                    assert(q[a] == p[a]);
                }
            }
            assert(symbols::holds(p, v, i));
        }
    } else {
        assert(j == last);
        assert forall|a: int| 0 <= a < p.len() && symbols::can_hold(#[trigger] p[a], v) implies p[a].1
            < p[last].1 || (p[a].1 == p[last].1 && a <= last) by {
            if a < last {
                assert(p[a] == t[a]);
            }
        }
        assert(symbols::holds(p, v, last));
    }
    if n == t.len() {
        assert(p =~= t);
    }
}

/// The address of a line is that of the nearest line at or below it in the file of that name, and of its
/// rows the lowest.
pub proof fn law_line_address_is_the_nearest(s: Symbols, file: Seq<char>, line: u32, v: u64)
    requires
        s.spec_line(file, line) == Some(v),
    ensures
        exists|i: int|
            0 <= i < s.line_rows@.len() && (#[trigger] s.line_rows@[i] matches LineRow::Row {
                file: f,
                line: l,
                addr,
                ..
            } && Some(f@) == path::file_name(file) && l >= line && addr == v && forall|j: int|
                0 <= j < s.line_rows@.len() ==> (#[trigger] s.line_rows@[j] matches LineRow::Row {
                    file: g,
                    line: m,
                    addr: a,
                    ..
                } ==> (g@ == f@ && m >= line ==> l < m || (l == m && v <= a)))),
{
    let f = path::file_name(file)->0;
    let rows = s.line_rows@;
    let i = choose|i: int| symbols::is_nearest(rows, f, line, i);
    assert(symbols::is_nearest(rows, f, line, i));
    assert forall|j: int| 0 <= j < rows.len() implies (#[trigger] rows[j] matches LineRow::Row {
        file: g,
        line: m,
        addr: a,
        ..
    } ==> (g@ == f && m >= line ==> rows[i]->Row_line < m || (rows[i]->Row_line == m && v <= a))) by {
        if rows[j] is Row && rows[j]->file@ == f && rows[j]->Row_line >= line {
            assert(symbols::at_or_below(rows[j], f, line));
        }
    }
    assert(rows[i] is Row);
}

/// A line is known exactly if some row of the file of that name is at or below it.
pub proof fn law_line_address_is_known(s: Symbols, file: Seq<char>, line: u32)
    ensures
        s.spec_line(file, line) is Some <==> exists|i: int|
            0 <= i < s.line_rows@.len() && (#[trigger] s.line_rows@[i] matches LineRow::Row {
                file: f,
                line: l,
                ..
            } && Some(f@) == path::file_name(file) && l >= line),
{
    let rows = s.line_rows@;
    match path::file_name(file) {
        Some(f) => {
            symbols::law_line_is_found(rows, f, line);
            if s.spec_line(file, line) is Some {
                let i = choose|i: int| 0 <= i < rows.len() && symbols::at_or_below(#[trigger] rows[i], f, line);
                assert(rows[i] matches LineRow::Row { file: g, line: l, .. } && g@ == f && l >= line);
            }
            if exists|i: int|
                0 <= i < rows.len() && (#[trigger] rows[i] matches LineRow::Row { file: g, line: l, .. }
                    && Some(g@) == path::file_name(file) && l >= line) {
                let i = choose|i: int|
                    0 <= i < rows.len() && (#[trigger] rows[i] matches LineRow::Row { file: g, line: l, .. }
                        && Some(g@) == path::file_name(file) && l >= line);
                assert(symbols::at_or_below(rows[i], f, line));
            }
        },
        None => {},
    }
}

/// The place of an address is that of the first row that begins at or before it and whose next row begins
/// behind it.
pub proof fn law_place_is_that_of_its_row(s: Symbols, v: u64, i: int)
    requires
        0 <= i < s.line_rows@.len() - 1,
        s.line_rows@[i] matches LineRow::Row { addr, .. } && addr <= v,
        v < symbols::row_addr(s.line_rows@[i + 1]),
        forall|j: int|
            0 <= j < i ==> !((#[trigger] s.line_rows@[j] matches LineRow::Row { addr, .. } && addr <= v) && v
                < symbols::row_addr(s.line_rows@[j + 1])),
    ensures
        s.line_rows@[i] matches LineRow::Row { path, line, .. } && s.spec_location(v) == Some((path@, line)),
{
    let rows = s.line_rows@;
    assert(symbols::covers(rows, v, i));
    assert forall|j: int| 0 <= j < i implies !#[trigger] symbols::covers(rows, v, j) by {
        assert(rows[j] == rows[j]);
    }
    symbols::lemma_location(rows, v, i);
}

/// The address of a row is that which it holds, be it the end of a sequence or not.
pub proof fn law_row_address(row: LineRow)
    ensures
        row matches LineRow::Row { addr, .. } ==> symbols::row_addr(row) == addr,
        row matches LineRow::EndSequence { addr } ==> symbols::row_addr(row) == addr,
{
}

/// No row that is the end of a sequence, and none behind which the next row does not begin, is a place.
pub proof fn law_no_place(s: Symbols, v: u64)
    requires
        forall|j: int|
            0 <= j < s.line_rows@.len() - 1 ==> !((#[trigger] s.line_rows@[j] matches LineRow::Row {
                addr,
                ..
            } && addr <= v) && v < symbols::row_addr(s.line_rows@[j + 1])),
    ensures
        s.spec_location(v) is None,
{
    let rows = s.line_rows@;
    assert forall|i: int| !symbols::is_location(rows, v, i) by {
        if symbols::is_location(rows, v, i) {
            assert(symbols::covers(rows, v, i));
            assert(rows[i] == rows[i]);
        }
    }
}

/// The next symbol is the lowest address above another in the table.
pub proof fn law_next_symbol_is_the_lowest_above(t: Seq<(String, u64)>, addr: u64)
    ensures
        symbols::next_symbol(t, addr) matches Some(n) ==> n > addr && (exists|i: int|
            0 <= i < t.len() && (#[trigger] t[i]).1 == n) && forall|j: int|
            0 <= j < t.len() ==> (#[trigger] t[j]).1 <= addr || t[j].1 >= n,
        symbols::next_symbol(t, addr) is None ==> forall|j: int|
            0 <= j < t.len() ==> (#[trigger] t[j]).1 <= addr,
    decreases t.len(),
{
    if t.len() > 0 {
        let r = t.drop_last();
        law_next_symbol_is_the_lowest_above(r, addr);
        assert forall|j: int| 0 <= j < t.len() - 1 implies r[j] == #[trigger] t[j] by {}
        if let Some(b) = symbols::next_symbol(r, addr) {
            let i = choose|i: int| 0 <= i < r.len() && (#[trigger] r[i]).1 == b;
            assert(t[i].1 == b);
        }
        assert(t[t.len() - 1] == t.last());
    }
}

/// Whether rows from `i` up to `j` are of the function at `func` and none is marked as the end of its
/// prologue.
pub open spec fn plain_rows(rows: Seq<LineRow>, func: u64, bound: Option<u64>, i: int, j: int) -> bool {
    0 <= i <= j <= rows.len() && forall|k: int|
        i <= k < j ==> (#[trigger] rows[k] matches LineRow::Row { addr, prologue_end, .. } && addr >= func
            && (bound matches Some(b) ==> addr < b) && !prologue_end)
}

/// Whether row `i` is the first that begins where the function does.
pub open spec fn opens_function(rows: Seq<LineRow>, func: u64, i: int) -> bool {
    &&& 0 <= i < rows.len()
    &&& rows[i] matches LineRow::Row { addr, .. } && addr == func
    &&& forall|k: int|
        0 <= k < i ==> (#[trigger] rows[k] matches LineRow::Row { addr, .. } ==> addr != func)
}

proof fn lemma_outside(rows: Seq<LineRow>, func: u64, bound: Option<u64>, i: int)
    requires
        0 <= i <= rows.len(),
        forall|k: int| 0 <= k < i ==> (#[trigger] rows[k] matches LineRow::Row { addr, .. } ==> addr != func),
    ensures
        symbols::prologue_end(rows, func, bound, false, None) == symbols::prologue_end(
            rows.skip(i),
            func,
            bound,
            false,
            None,
        ),
    decreases i,
{
    if i > 0 {
        let r = rows.skip(1);
        assert(rows[0] == rows[0]);
        assert forall|k: int| 0 <= k < i - 1 implies (#[trigger] r[k] matches LineRow::Row { addr, .. }
            ==> addr != func) by {
            assert(r[k] == rows[k + 1]);
        }
        lemma_outside(r, func, bound, i - 1);
        assert(r.skip(i - 1) =~= rows.skip(i));
    } else {
        assert(rows.skip(0) =~= rows);
    }
}

/// The second row of a function among those from `i` up to `j`: the first that is not at its beginning.
pub open spec fn second_row(rows: Seq<LineRow>, func: u64, i: int, j: int) -> Option<u64>
    decreases j - i,
{
    if i >= j {
        None
    } else if symbols::row_addr(rows[i]) > func {
        Some(symbols::row_addr(rows[i]))
    } else {
        second_row(rows, func, i + 1, j)
    }
}

proof fn lemma_inside(
    rows: Seq<LineRow>,
    func: u64,
    bound: Option<u64>,
    i: int,
    j: int,
    second: Option<u64>,
)
    requires
        plain_rows(rows, func, bound, i, j),
    ensures
        symbols::prologue_end(rows.skip(i), func, bound, true, second) == symbols::prologue_end(
            rows.skip(j),
            func,
            bound,
            true,
            match second {
                Some(a) => Some(a),
                None => second_row(rows, func, i, j),
            },
        ),
    decreases j - i,
{
    if i < j {
        let r = rows.skip(i);
        assert(r[0] == rows[i]);
        assert(r.skip(1) =~= rows.skip(i + 1));
        let now = if symbols::row_addr(rows[i]) > func && second is None {
            Some(symbols::row_addr(rows[i]))
        } else {
            second
        };
        lemma_inside(rows, func, bound, i + 1, j, now);
    }
}

/// Where the prologue of a function ends: at the first of its rows that is marked so.
pub proof fn law_prologue_ends_at_the_mark(
    rows: Seq<LineRow>,
    func: u64,
    bound: Option<u64>,
    i: int,
    j: int,
)
    requires
        opens_function(rows, func, i),
        plain_rows(rows, func, bound, i, j),
        j < rows.len(),
        rows[j] matches LineRow::Row { addr, prologue_end, .. } && addr >= func && (bound matches Some(b)
            ==> addr < b) && prologue_end,
    ensures
        symbols::prologue_end(rows, func, bound, false, None) == symbols::row_addr(rows[j]),
{
    lemma_outside(rows, func, bound, i);
    let r = rows.skip(i);
    assert(r[0] == rows[i]);
    if j > i {
        assert(symbols::prologue_end(r, func, bound, false, None) == symbols::prologue_end(
            r,
            func,
            bound,
            true,
            None,
        ));
        lemma_inside(rows, func, bound, i, j, None);
        assert(rows.skip(j)[0] == rows[j]);
    }
}

/// Without such a mark it ends at the second row of the function, the first behind its beginning; where
/// there is none, at the beginning. The rows of the function end where the next symbol begins and with the
/// table.
pub proof fn law_prologue_ends_at_the_second_row(
    rows: Seq<LineRow>,
    func: u64,
    bound: Option<u64>,
    i: int,
    j: int,
)
    requires
        opens_function(rows, func, i),
        plain_rows(rows, func, bound, i, j),
        i < j,
        j == rows.len() || (rows[j] matches LineRow::Row { addr, .. } && addr >= func && (bound matches Some(b)
            && addr >= b)),
    ensures
        symbols::prologue_end(rows, func, bound, false, None) == (match second_row(rows, func, i, j) {
            Some(a) => a,
            None => func,
        }),
{
    lemma_outside(rows, func, bound, i);
    let r = rows.skip(i);
    assert(r[0] == rows[i]);
    assert(symbols::prologue_end(r, func, bound, false, None) == symbols::prologue_end(
        r,
        func,
        bound,
        true,
        None,
    ));
    lemma_inside(rows, func, bound, i, j, None);
    if j < rows.len() {
        assert(rows.skip(j)[0] == rows[j]);
    } else {
        assert(rows.skip(j).len() == 0);
    }
}

/// A function at which no row begins has no prologue that is known.
pub proof fn law_no_prologue(rows: Seq<LineRow>, func: u64, bound: Option<u64>)
    requires
        forall|k: int|
            0 <= k < rows.len() ==> (#[trigger] rows[k] matches LineRow::Row { addr, .. } ==> addr != func),
    ensures
        symbols::prologue_end(rows, func, bound, false, None) == func,
{
    lemma_outside(rows, func, bound, rows.len() as int);
    assert(rows.skip(rows.len() as int).len() == 0);
}

/// The address of `__TEXT` is that of the first segment of that name, and zero where there is none.
pub proof fn law_text_segment(t: Seq<(Option<Seq<char>>, u64)>, i: int)
    requires
        0 <= i <= t.len(),
        forall|j: int| 0 <= j < i ==> (#[trigger] t[j]).0 != Some("__TEXT"@),
        i < t.len() ==> t[i].0 == Some("__TEXT"@),
    ensures
        symbols::text_address(t) == (if i < t.len() {
            t[i].1
        } else {
            0
        }),
    decreases t.len(),
{
    if i > 0 {
        let r = t.skip(1);
        assert(t[0].0 != Some("__TEXT"@));
        assert forall|j: int| 0 <= j < i - 1 implies (#[trigger] r[j]).0 != Some("__TEXT"@) by {
            assert(r[j] == t[j + 1]);
        }
        law_text_segment(r, i - 1);
    }
}

/// Every symbol with a name is kept, with its address, and no other; their order stays.
pub proof fn law_named_symbols_are_kept(t: Seq<(Option<Seq<char>>, u64)>)
    ensures
        symbols::kept_symbols(t) == t.filter(
            |p: (Option<Seq<char>>, u64)| p.0 matches Some(n) && n.len() > 0,
        ).map_values(|p: (Option<Seq<char>>, u64)| (p.0->0, p.1)),
    decreases t.len(),
{
    let named = |p: (Option<Seq<char>>, u64)| p.0 matches Some(n) && n.len() > 0;
    let pair = |p: (Option<Seq<char>>, u64)| (p.0->0, p.1);
    reveal(Seq::filter);
    if t.len() > 0 {
        law_named_symbols_are_kept(t.drop_last());
        assert(symbols::kept_symbols(t) =~= t.filter(named).map_values(pair));
    } else {
        assert(symbols::kept_symbols(t) =~= t.filter(named).map_values(pair));
    }
}

/// Whether a variable is a local of that name whose scope holds the address.
pub open spec fn seen_at(v: Variable, name: Seq<char>, pc: u64) -> bool {
    v.name@ == name && (v.scope matches Some((low, high)) && low <= pc < high)
}

/// How many addresses the scope of a local has.
pub open spec fn wide(v: Variable) -> int {
    match v.scope {
        Some((low, high)) => high as int - low as int,
        None => 0,
    }
}

/// A variable that a name means at an address is one of that name that can be seen there: a local whose
/// scope holds the address, of several the one with the narrowest scope, and only where there is no such
/// local a global.
pub proof fn law_variable_is_the_innermost(s: Symbols, name: Seq<char>, pc: u64, v: Variable)
    requires
        s.spec_variable(name, pc) == Some(v),
    ensures
        v.name@ == name,
        s.variables@.contains(v),
        v.scope is Some ==> seen_at(v, name, pc) && forall|j: int|
            0 <= j < s.variables@.len() && seen_at(#[trigger] s.variables@[j], name, pc) ==> wide(v) <= wide(
                s.variables@[j],
            ),
        v.scope is None ==> forall|j: int|
            0 <= j < s.variables@.len() ==> !seen_at(#[trigger] s.variables@[j], name, pc),
{
    let vs = s.variables@;
    let i = choose|i: int| symbols::is_found(vs, name, pc, i);
    assert(symbols::is_found(vs, name, pc, i));
    assert(vs[i] == v);
    assert forall|j: int| 0 <= j < vs.len() implies seen_at(#[trigger] vs[j], name, pc) == symbols::is_local(
        vs[j],
        name,
        pc,
    ) by {}
    if v.scope is Some {
        assert(symbols::is_innermost(vs, name, pc, i));
    }
}

/// A variable is found wherever a local of that name can be seen, or a global has it.
pub proof fn law_variable_is_found(s: Symbols, name: Seq<char>, pc: u64, i: int)
    requires
        0 <= i < s.variables@.len(),
        s.variables@[i].name@ == name,
        s.variables@[i].scope is None || (s.variables@[i].scope matches Some((l, h)) && l <= pc < h),
    ensures
        s.spec_variable(name, pc) is Some,
{
    let vs = s.variables@;
    if exists|j: int| 0 <= j < vs.len() && symbols::is_local(#[trigger] vs[j], name, pc) {
        let j = choose|j: int| 0 <= j < vs.len() && symbols::is_local(#[trigger] vs[j], name, pc);
        lemma_innermost(vs, name, pc, j);
        let k = choose|k: int| #[trigger] symbols::is_innermost(vs, name, pc, k);
        assert(symbols::is_found(vs, name, pc, k));
    } else {
        assert(!symbols::is_local(vs[i], name, pc));
        assert(symbols::is_global(vs[i], name));
        lemma_first_global(vs, name, i);
        let k = choose|k: int| #[trigger] symbols::is_first_global(vs, name, k);
        assert(symbols::is_found(vs, name, pc, k));
    }
}

proof fn lemma_first_global(vs: Seq<Variable>, name: Seq<char>, i: int)
    requires
        0 <= i < vs.len(),
        symbols::is_global(vs[i], name),
    ensures
        exists|k: int| #[trigger] symbols::is_first_global(vs, name, k),
    decreases i,
{
    if exists|j: int| 0 <= j < i && symbols::is_global(#[trigger] vs[j], name) {
        let j = choose|j: int| 0 <= j < i && symbols::is_global(#[trigger] vs[j], name);
        lemma_first_global(vs, name, j);
    } else {
        assert(symbols::is_first_global(vs, name, i));
    }
}

proof fn lemma_innermost(vs: Seq<Variable>, name: Seq<char>, pc: u64, i: int)
    requires
        0 <= i < vs.len(),
        symbols::is_local(vs[i], name, pc),
    ensures
        exists|k: int| #[trigger] symbols::is_innermost(vs, name, pc, k),
    decreases symbols::scope_width(vs[i]), i,
{
    let better = |j: int|
        0 <= j < vs.len() && symbols::is_local(vs[j], name, pc) && (symbols::scope_width(vs[j])
            < symbols::scope_width(vs[i]) || (symbols::scope_width(vs[j]) == symbols::scope_width(vs[i]) && j
            < i));
    if exists|j: int| #[trigger] better(j) {
        let j = choose|j: int| #[trigger] better(j);
        lemma_innermost(vs, name, pc, j);
    } else {
        assert forall|j: int| 0 <= j < vs.len() && symbols::is_local(#[trigger] vs[j], name, pc) implies
            symbols::scope_width(vs[i]) < symbols::scope_width(vs[j]) || (symbols::scope_width(vs[i])
            == symbols::scope_width(vs[j]) && i <= j) by {
            assert(!better(j));
        }
        assert(symbols::is_innermost(vs, name, pc, i));
    }
}

/// The distance from the addresses of the file to those of the loaded program is that between the base
/// and `__TEXT`; the stubs of the allocation functions move with it.
pub proof fn law_stubs_move_with_the_base(s: Symbols, name: Seq<char>, b: u64)
    ensures
        s.text_vmaddr.wrapping_add(s.spec_slide(b)) == b,
        s.stubs@.contains_key(name) ==> (s.spec_stub(name, b) matches Some(a) && a.wrapping_sub(b)
            == s.stubs@[name].wrapping_sub(s.text_vmaddr)),
        !s.stubs@.contains_key(name) ==> s.spec_stub(name, b) is None,
{
}

/// Whether a text passes a filter: without one every text does; else the filter stands in it somewhere,
/// whatever letters are capitals.
pub open spec fn shown_by(s: Seq<char>, filter: Option<Seq<char>>) -> bool {
    match filter {
        None => true,
        Some(f) => exists|i: int|
            0 <= i && i + text::lowercase(f).len() <= text::lowercase(s).len() && #[trigger] text::lowercase(
                s,
            ).subrange(i, i + text::lowercase(f).len()) == text::lowercase(f),
    }
}

/// Symbols that have an address and pass the filter are listed in their order, each on a line with its
/// address, its name and its place where one is known.
pub proof fn law_symbols_are_listed(s: Symbols, filter: Option<Seq<char>>, n: int)
    requires
        0 < n <= s.symbols@.len(),
    ensures
        ({
            let (name, addr) = (s.symbols@[n - 1].0@, s.symbols@[n - 1].1);
            let before = s.symbol_lines(filter, n - 1);
            let now = s.symbol_lines(filter, n);
            let head = "0x"@ + numerals::pad_left(numerals::numeral(addr as nat, 16), 16, '0') + "  "@ + name;
            &&& addr == 0 || !shown_by(name, filter) ==> now == before
            &&& addr != 0 && shown_by(name, filter) && s.spec_location(addr) is None ==> now == before + (head
                + "\n"@)
            &&& addr != 0 && shown_by(name, filter) ==> (s.spec_location(addr) matches Some((p, l)) ==> now
                == before + (head + ("  ("@ + p + ":"@ + numerals::dec(l as nat) + ")"@) + "\n"@))
        }),
        s.symbol_lines(filter, 0).len() == 0,
{
    let (name, addr) = (s.symbols@[n - 1].0@, s.symbols@[n - 1].1);
    lemma_passes(name, filter);
    let before = s.symbol_lines(filter, n - 1);
    assert(before + Seq::<char>::empty() =~= before);
    let head = "0x"@ + numerals::pad_left(numerals::numeral(addr as nat, 16), 16, '0') + "  "@ + name;
    assert(head + Seq::<char>::empty() =~= head);
}

proof fn lemma_passes(s: Seq<char>, filter: Option<Seq<char>>)
    ensures
        symbols::passes(s, filter) == shown_by(s, filter),
{
    if let Some(f) = filter {
        let a = text::lowercase(s);
        let b = text::lowercase(f);
        if text::contains(a, b) {
            let i = choose|i: int| 0 <= i <= a.len() - b.len() && #[trigger] a.subrange(i, i + b.len()) == b;
            assert(0 <= i && i + b.len() <= a.len() && a.subrange(i, i + b.len()) == b);
        }
        if shown_by(s, filter) {
            let i = choose|i: int|
                0 <= i && i + b.len() <= a.len() && #[trigger] a.subrange(i, i + b.len()) == b;
            assert(0 <= i <= a.len() - b.len() && a.subrange(i, i + b.len()) == b);
        }
    }
}

/// Rows of the line table whose file or path passes the filter are listed in their order, with their
/// address, path, line and file, and whether the prologue ends there. The ends of sequences are not.
pub proof fn law_rows_are_listed(s: Symbols, filter: Option<Seq<char>>, n: int)
    requires
        0 < n <= s.line_rows@.len(),
    ensures
        ({
            let before = s.row_lines(filter, n - 1);
            let now = s.row_lines(filter, n);
            &&& s.line_rows@[n - 1] is EndSequence ==> now == before
            &&& s.line_rows@[n - 1] matches LineRow::Row { file, path, line, addr, prologue_end } ==> {
                &&& !shown_by(file@, filter) && !shown_by(path@, filter) ==> now == before
                &&& shown_by(file@, filter) || shown_by(path@, filter) ==> now == before + (("0x"@
                    + numerals::pad_left(numerals::numeral(addr as nat, 16), 16, '0')) + "  "@ + path@ + ":"@
                    + numerals::dec(line as nat) + "  ["@ + file@ + "]"@ + (if prologue_end {
                    " (prologue_end)"@
                } else {
                    ""@
                }) + "\n"@)
            }
        }),
        s.row_lines(filter, 0).len() == 0,
{
    reveal_strlit("");
    assert(""@ =~= Seq::<char>::empty());
    let before = s.row_lines(filter, n - 1);
    assert(before + Seq::<char>::empty() =~= before);
    if let LineRow::Row { file, path, line, addr, prologue_end } = s.line_rows@[n - 1] {
        lemma_passes(file@, filter);
        lemma_passes(path@, filter);
    }
}

/// The summary tells the base and the distance to the addresses of the file where the base is known, and
/// how many symbols, rows and types there are.
pub proof fn law_summary(s: Symbols, b: u64)
    ensures
        ({
            let head = "debug file: "@ + s.debug_file@ + "\ntext vmaddr: "@ + numerals::addr_text(
                s.text_vmaddr as nat,
            ) + "\n"@;
            let counts = "symbols: "@ + numerals::dec(s.symbols@.len()) + "\nline rows: "@ + numerals::dec(
                s.line_rows@.len(),
            ) + "\ntypes: "@ + numerals::dec(s.type_names.list@.len()) + "\n"@;
            &&& (head + counts).is_prefix_of(s.summary(None))
            &&& (head + ("image base: "@ + numerals::addr_text(b as nat) + "\nslide: "@ + numerals::addr_text(
                b.wrapping_sub(s.text_vmaddr) as nat,
            ) + "\n"@) + counts).is_prefix_of(s.summary(Some(b)))
        }),
{
    let head = "debug file: "@ + s.debug_file@ + "\ntext vmaddr: "@ + numerals::addr_text(
        s.text_vmaddr as nat,
    ) + "\n"@;
    let counts = "symbols: "@ + numerals::dec(s.symbols@.len()) + "\nline rows: "@ + numerals::dec(
        s.line_rows@.len(),
    ) + "\ntypes: "@ + numerals::dec(s.type_names.list@.len()) + "\n"@;
    let base = "image base: "@ + numerals::addr_text(b as nat) + "\nslide: "@ + numerals::addr_text(
        b.wrapping_sub(s.text_vmaddr) as nat,
    ) + "\n"@;
    let a = head + counts;
    let c = head + base + counts;
    assert(s.summary(None).subrange(0, a.len() as int) =~= a);
    assert(s.summary(Some(b)).subrange(0, c.len() as int) =~= c);
}

/// The rows of a function also end with its sequence, once a second row has been met.
pub proof fn law_prologue_ends_with_the_sequence(
    rows: Seq<LineRow>,
    func: u64,
    bound: Option<u64>,
    i: int,
    j: int,
    a: u64,
)
    requires
        opens_function(rows, func, i),
        plain_rows(rows, func, bound, i, j),
        i < j < rows.len(),
        rows[j] is EndSequence,
        second_row(rows, func, i, j) == Some(a),
    ensures
        symbols::prologue_end(rows, func, bound, false, None) == a,
{
    lemma_outside(rows, func, bound, i);
    let r = rows.skip(i);
    assert(r[0] == rows[i]);
    assert(symbols::prologue_end(r, func, bound, false, None) == symbols::prologue_end(
        r,
        func,
        bound,
        true,
        None,
    ));
    lemma_inside(rows, func, bound, i, j, None);
    assert(rows.skip(j)[0] == rows[j]);
}

/// What is loaded of an executable: its named symbols, the address of its first `__TEXT` segment, and the
/// stubs of the allocation functions of its program for the machine, of which only those four are looked
/// for. Without a debug file there are no lines, no variables and no types.
pub proof fn law_loaded(
    s: Symbols,
    data: Seq<u8>,
    arch: Arch,
    file: Seq<char>,
    debug: Option<Seq<u8>>,
    name: Seq<char>,
)
    requires
        symbols::loaded(s, data, arch, file, debug),
    ensures
        s.debug_file@ == file,
        object_file::symbol_table(data) matches Ok(t) && symbols::symbol_seq(s.symbols@) == t.filter(
            |p: (Option<Seq<char>>, u64)| p.0 matches Some(n) && n.len() > 0,
        ).map_values(|p: (Option<Seq<char>>, u64)| (p.0->0, p.1)),
        object_file::segment_table(data) is None ==> s.text_vmaddr == 0,
        object_file::segment_table(data) matches Some(t) ==> s.text_vmaddr == symbols::text_address(t),
        s.stubs@.contains_key(name) ==> name == "malloc"@ || name == "calloc"@ || name == "realloc"@ || name
            == "free"@,
        debug is None ==> s.line_rows@.len() == 0 && s.variables@.len() == 0,
        debug matches Some(d) ==> debug_info::row_seqs(s.line_rows@) == debug_info::all_rows(
            dwarf::sections_of(d),
            dwarf::units(dwarf::sections_of(d)),
        ) && debug_info::variable_seq(s.variables@) == debug_info::all_variables(
            dwarf::sections_of(d),
            dwarf::units(dwarf::sections_of(d)),
        ),
{
    law_named_symbols_are_kept(object_file::symbol_table(data)->Ok_0);
    if s.stubs@.contains_key(name) {
        stub_finder::law_stubs_are_wanted(stub_finder::thin(data, arch), symbols::stub_names(), name);
        let want = symbols::stub_names();
        let j = choose|j: int| 0 <= j < want.len() && (#[trigger] want[j])@ == name;
        assert(want[0] == "malloc" && want[1] == "calloc" && want[2] == "realloc" && want[3] == "free");
    }
}

/// All four functions are looked for.
pub proof fn law_stub_names()
    ensures
        stub_finder::wanted(symbols::stub_names(), "malloc"@),
        stub_finder::wanted(symbols::stub_names(), "calloc"@),
        stub_finder::wanted(symbols::stub_names(), "realloc"@),
        stub_finder::wanted(symbols::stub_names(), "free"@),
{
    let want = symbols::stub_names();
    assert(want[0] == "malloc" && want[1] == "calloc" && want[2] == "realloc" && want[3] == "free");
}

/// Names are listed below their heading, each on a line of its own, in their order; without names there is
/// no heading.
pub proof fn law_names_are_listed(heading: Seq<char>, names: Seq<String>, n: int)
    requires
        0 < n <= names.len(),
    ensures
        symbols::name_lines(heading, Seq::empty()).len() == 0,
        symbols::name_lines(heading, names) == heading + symbols::indented(names, names.len() as int),
        symbols::indented(names, n) == symbols::indented(names, n - 1) + ("  "@ + names[n - 1]@ + "\n"@),
        symbols::indented(names, 0).len() == 0,
{
}

/// The summary ends with the directories and then the types.
pub proof fn law_summary_lists_names(s: Symbols, base: Option<u64>)
    ensures
        ({
            let tail = symbols::name_lines("compilation directories:\n"@, s.comp_dirs.list@)
                + symbols::name_lines("types:\n"@, s.type_names.list@);
            &&& tail.len() <= s.summary(base).len()
            &&& s.summary(base).skip(s.summary(base).len() - tail.len()) == tail
        }),
{
    let tail = symbols::name_lines("compilation directories:\n"@, s.comp_dirs.list@) + symbols::name_lines(
        "types:\n"@,
        s.type_names.list@,
    );
    assert(s.summary(base).skip(s.summary(base).len() - tail.len()) =~= tail);
}

} // verus!
