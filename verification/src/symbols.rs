//! The symbols and the debug information of an executable, and what is looked up in them.
use crate::arch::Arch;
use crate::debug_info;
use crate::debug_info::{load_debug_info, DebugInfo, LineRow, Variable};
use crate::dwarf;
use crate::dwarf::Sections;
use crate::names::NameSet;
use crate::numerals;
use crate::numerals::{push_addr, push_dec};
use crate::object_file;
use crate::object_file::{read_segments, read_symbols};
use crate::path;
use crate::path::file_name_of;
use crate::stub_finder;
use crate::stub_finder::find_stubs;
use crate::text;
use crate::text::{owned, str_contains, str_eq, to_lower};
use vstd::hash_map::StringHashMap;
use vstd::prelude::*;

verus! {

/// The symbols and the debug information of an executable.
pub struct Symbols {
    /// Names and addresses of the file, in the order of the symbol table.
    pub symbols: Vec<(String, u64)>,
    /// The address of the `__TEXT` segment.
    pub text_vmaddr: u64,
    /// The line table.
    pub line_rows: Vec<LineRow>,
    /// The file that the debug information was read from.
    pub debug_file: String,
    pub comp_dirs: NameSet,
    pub type_names: NameSet,
    pub variables: Vec<Variable>,
    /// The stubs of the allocation functions.
    pub stubs: StringHashMap<u64>,
}

/// Names and addresses, the names as sequences of characters.
pub open spec fn symbol_seq(v: Seq<(String, u64)>) -> Seq<(Seq<char>, u64)> {
    v.map_values(|p: (String, u64)| (p.0@, p.1))
}

/// The symbols of a table that are kept: those with a name.
pub open spec fn kept_symbols(t: Seq<(Option<Seq<char>>, u64)>) -> Seq<(Seq<char>, u64)>
    decreases t.len(),
{
    if t.len() == 0 {
        Seq::empty()
    } else {
        let before = kept_symbols(t.drop_last());
        match t.last().0 {
            Some(n) => if n.len() > 0 {
                before.push((n, t.last().1))
            } else {
                before
            },
            None => before,
        }
    }
}

/// The symbols of a table that are kept.
pub fn keep_symbols(t: Vec<(Option<String>, u64)>) -> (r: Vec<(String, u64)>)
    ensures
        symbol_seq(r@) == kept_symbols(object_file::table_view(t@)),
{
    let ghost all = object_file::table_view(t@);
    let mut out: Vec<(String, u64)> = Vec::new();
    let mut i: usize = 0;
    assert(all.take(0) =~= Seq::empty());
    assert(symbol_seq(out@) =~= Seq::empty());
    while i < t.len()
        invariant
            i <= t@.len(),
            all == object_file::table_view(t@),
            symbol_seq(out@) == kept_symbols(all.take(i as int)),
        decreases t.len() - i,
    {
        let ghost next = all.take(i + 1);
        let ghost before = symbol_seq(out@);
        assert(next.drop_last() =~= all.take(i as int));
        if let Some(n) = &t[i].0 {
            if n.as_str().unicode_len() > 0 {
                let copy = owned(n.as_str());
                let ghost c = copy@;
                out.push((copy, t[i].1));
                assert(symbol_seq(out@) =~= before.push((c, t@[i as int].1)));
            }
        }
        i = i + 1;
    }
    assert(all.take(i as int) =~= all);
    out
}

/// The address of the first segment named `__TEXT`, or zero.
pub open spec fn text_address(t: Seq<(Option<Seq<char>>, u64)>) -> u64
    decreases t.len(),
{
    if t.len() == 0 {
        0
    } else if t[0].0 == Some("__TEXT"@) {
        t[0].1
    } else {
        text_address(t.skip(1))
    }
}

/// The address of the first segment named `__TEXT`, or zero.
pub fn find_text_address(t: &Vec<(Option<String>, u64)>) -> (r: u64)
    ensures
        r == text_address(object_file::table_view(t@)),
{
    let ghost all = object_file::table_view(t@);
    let mut i: usize = 0;
    assert(all.skip(0) =~= all);
    while i < t.len()
        invariant
            i <= t@.len(),
            all == object_file::table_view(t@),
            text_address(all) == text_address(all.skip(i as int)),
        decreases t.len() - i,
    {
        assert(all.skip(i as int).skip(1) =~= all.skip(i + 1));
        if let Some(n) = &t[i].0 {
            if str_eq(n.as_str(), "__TEXT") {
                return t[i].1;
            }
        }
        i = i + 1;
    }
    0
}

/// Whether `s` is what an executable and its debug file hold.
pub open spec fn loaded(s: Symbols, data: Seq<u8>, arch: Arch, debug_file: Seq<char>, debug: Option<Seq<u8>>) -> bool {
    &&& object_file::symbol_table(data) matches Ok(t) && symbol_seq(s.symbols@) == kept_symbols(t)
    &&& s.text_vmaddr == (match object_file::segment_table(data) {
        Some(t) => text_address(t),
        None => 0,
    })
    &&& s.debug_file@ == debug_file
    &&& s.stubs@ == stub_finder::thin_stubs(stub_finder::thin(data, arch), stub_names())
    &&& s.comp_dirs.sorted()
    &&& s.type_names.sorted()
    &&& match debug {
        Some(d) => {
            let sections = dwarf::sections_of(d);
            let us = dwarf::units(sections);
            &&& debug_info::row_seqs(s.line_rows@) == debug_info::all_rows(sections, us)
            &&& debug_info::variable_seq(s.variables@) == debug_info::all_variables(sections, us)
            &&& s.comp_dirs.names() == debug_info::all_dirs(sections, us)
            &&& s.type_names.names() == debug_info::all_types(sections, us)
        },
        None => s.line_rows@.len() == 0 && s.variables@.len() == 0 && s.comp_dirs.list@.len() == 0
            && s.type_names.list@.len() == 0,
    }
}

/// The names of the allocation functions.
pub open spec fn stub_names() -> Seq<&'static str> {
    seq!["malloc", "calloc", "realloc", "free"]
}

/// A symbol that is found by `name`: with it or with an underscore before it.
pub open spec fn is_named(sym: Seq<char>, name: Seq<char>) -> bool {
    sym == name || sym == "_"@ + name
}

/// A symbol that an address can be inside of.
pub open spec fn can_hold(sym: (String, u64), vaddr: u64) -> bool {
    sym.1 <= vaddr && sym.1 != 0 && sym.0@ != "__mh_execute_header"@
}

/// Whether symbol `i` is the one that holds `vaddr`: of those that can, the nearest before it, and of
/// several at one address the last.
pub open spec fn holds(syms: Seq<(String, u64)>, vaddr: u64, i: int) -> bool {
    &&& 0 <= i < syms.len()
    &&& can_hold(syms[i], vaddr)
    &&& forall|j: int|
        0 <= j < syms.len() && can_hold(#[trigger] syms[j], vaddr) ==> syms[j].1 < syms[i].1 || (syms[j].1
            == syms[i].1 && j <= i)
}

/// Whether a variable is the local `name` at `pc`.
pub open spec fn is_local(v: Variable, name: Seq<char>, pc: u64) -> bool {
    v.name@ == name && in_scope(v, pc)
}

/// Whether `pc` is in the scope of a variable that has one.
pub open spec fn in_scope(v: Variable, pc: u64) -> bool {
    v.scope matches Some((low, high)) && low <= pc < high
}

/// The width of the scope of a variable.
pub open spec fn scope_width(v: Variable) -> int {
    match v.scope {
        Some((low, high)) => high - low,
        None => 0,
    }
}

/// Whether variable `i` is the innermost local `name` at `pc`: of the narrowest scope, and the first of
/// those.
pub open spec fn is_innermost(vs: Seq<Variable>, name: Seq<char>, pc: u64, i: int) -> bool {
    &&& 0 <= i < vs.len()
    &&& is_local(vs[i], name, pc)
    &&& forall|j: int|
        0 <= j < vs.len() && is_local(#[trigger] vs[j], name, pc) ==> scope_width(vs[i]) < scope_width(
            vs[j],
        ) || (scope_width(vs[i]) == scope_width(vs[j]) && i <= j)
}

/// Whether variable `i` is the first global `name`.
pub open spec fn is_first_global(vs: Seq<Variable>, name: Seq<char>, i: int) -> bool {
    &&& 0 <= i < vs.len()
    &&& is_global(vs[i], name)
    &&& forall|j: int| 0 <= j < i ==> !is_global(#[trigger] vs[j], name)
}

/// Whether a variable is the global `name`.
pub open spec fn is_global(v: Variable, name: Seq<char>) -> bool {
    v.name@ == name && v.scope is None
}

/// Whether a row is of that file and at that line or below it.
pub open spec fn at_or_below(row: LineRow, file: Seq<char>, line: u32) -> bool {
    row matches LineRow::Row { file: f, line: l, .. } && f@ == file && l >= line
}

/// Whether row `i` is the best for a line: the nearest line, and of its rows the lowest address.
pub open spec fn is_nearest(rows: Seq<LineRow>, file: Seq<char>, line: u32, i: int) -> bool {
    &&& 0 <= i < rows.len()
    &&& at_or_below(rows[i], file, line)
    &&& forall|j: int|
        0 <= j < rows.len() && at_or_below(#[trigger] rows[j], file, line) ==> rows[i]->line
            < rows[j]->line || (rows[i]->line == rows[j]->line && row_addr(rows[i]) <= row_addr(rows[j]))
}

/// The address of a row.
pub open spec fn row_addr(row: LineRow) -> u64 {
    match row {
        LineRow::Row { addr, .. } => addr,
        LineRow::EndSequence { addr } => addr,
    }
}

/// The address of the best row for a line, if there is one.
pub open spec fn nearest(rows: Seq<LineRow>, file: Seq<char>, line: u32) -> Option<u64> {
    if exists|i: int| is_nearest(rows, file, line, i) {
        Some(row_addr(rows[choose|i: int| is_nearest(rows, file, line, i)]))
    } else {
        None
    }
}

/// All best rows have one address.
pub proof fn lemma_nearest(rows: Seq<LineRow>, file: Seq<char>, line: u32, i: int)
    requires
        is_nearest(rows, file, line, i),
    ensures
        nearest(rows, file, line) == Some(row_addr(rows[i])),
{
    let k = choose|k: int| is_nearest(rows, file, line, k);
    assert(at_or_below(rows[i], file, line) && at_or_below(rows[k], file, line));
}

/// A line is found exactly if some row of the file is at or below it.
pub proof fn law_line_is_found(rows: Seq<LineRow>, file: Seq<char>, line: u32)
    ensures
        nearest(rows, file, line) is Some <==> exists|i: int|
            0 <= i < rows.len() && at_or_below(#[trigger] rows[i], file, line),
    decreases rows.len(),
{
    if rows.len() > 0 {
        let p = rows.drop_last();
        let n = rows.len() - 1;
        law_line_is_found(p, file, line);
        assert(forall|j: int| 0 <= j < n ==> p[j] == #[trigger] rows[j]);
        if exists|i: int| 0 <= i < p.len() && at_or_below(#[trigger] p[i], file, line) {
            let b = choose|i: int| is_nearest(p, file, line, i);
            assert(is_nearest(p, file, line, b));
            let better = at_or_below(rows[n], file, line) && (rows[n]->Row_line < rows[b]->Row_line || (
            rows[n]->Row_line == rows[b]->Row_line && row_addr(rows[n]) < row_addr(rows[b])));
            let k = if better {
                n
            } else {
                b
            };
            assert forall|j: int| 0 <= j < rows.len() && at_or_below(#[trigger] rows[j], file, line) implies rows[k]->Row_line
                < rows[j]->Row_line || (rows[k]->Row_line == rows[j]->Row_line && row_addr(rows[k])
                <= row_addr(rows[j])) by {
                if j < n {
                    assert(p[j] == rows[j]);
                }
            }
            assert(p[b] == rows[b]);
            assert(is_nearest(rows, file, line, k));
        } else if at_or_below(rows[n], file, line) {
            assert forall|j: int| 0 <= j < n implies !at_or_below(#[trigger] rows[j], file, line) by {
                assert(p[j] == rows[j]);
            }
            assert(is_nearest(rows, file, line, n as int));
        }
        if nearest(rows, file, line) is Some {
            let k = choose|k: int| is_nearest(rows, file, line, k);
            assert(at_or_below(rows[k], file, line));
        }
    }
}

/// Whether the addresses from row `i` up to the next row hold `vaddr`.
pub open spec fn covers(rows: Seq<LineRow>, vaddr: u64, i: int) -> bool {
    &&& 0 <= i < rows.len() - 1
    &&& rows[i] is Row
    &&& row_addr(rows[i]) <= vaddr < row_addr(rows[i + 1])
}

/// Whether row `i` is the first whose addresses hold `vaddr`.
pub open spec fn is_location(rows: Seq<LineRow>, vaddr: u64, i: int) -> bool {
    covers(rows, vaddr, i) && forall|j: int| 0 <= j < i ==> !#[trigger] covers(rows, vaddr, j)
}

/// The path and the line of the place that holds `vaddr`, if a row does.
pub open spec fn location(rows: Seq<LineRow>, vaddr: u64) -> Option<(Seq<char>, u32)> {
    if exists|i: int| is_location(rows, vaddr, i) {
        let i = choose|i: int| is_location(rows, vaddr, i);
        Some((rows[i]->path@, rows[i]->Row_line))
    } else {
        None
    }
}

/// Two rows cannot both be the first.
pub proof fn lemma_location(rows: Seq<LineRow>, vaddr: u64, i: int)
    requires
        is_location(rows, vaddr, i),
    ensures
        location(rows, vaddr) == Some((rows[i]->path@, rows[i]->Row_line)),
{
    let k = choose|k: int| is_location(rows, vaddr, k);
    if k < i {
        assert(!covers(rows, vaddr, k));
    } else if i < k {
        assert(!covers(rows, vaddr, i));
    }
}

/// The lowest symbol address above `addr`.
pub open spec fn next_symbol(syms: Seq<(String, u64)>, addr: u64) -> Option<u64>
    decreases syms.len(),
{
    if syms.len() == 0 {
        None
    } else {
        let a = syms.last().1;
        match next_symbol(syms.drop_last(), addr) {
            Some(b) => if addr < a < b {
                Some(a)
            } else {
                Some(b)
            },
            None => if addr < a {
                Some(a)
            } else {
                None
            },
        }
    }
}

/// Whether `addr` is below the bound, if there is one.
pub open spec fn below(addr: u64, bound: Option<u64>) -> bool {
    bound matches Some(b) ==> addr < b
}

/// Where the prologue of the function at `func` ends, from the rows: at the first row of the function
/// that is marked as the end of the prologue; else at the function's second row; else at its beginning.
/// The rows of the function are those of the sequence in which a row is at `func`, from there up to the
/// bound. `inside` says that such a row was met, `second` is the second row so far.
pub open spec fn prologue_end(
    rows: Seq<LineRow>,
    func: u64,
    bound: Option<u64>,
    inside: bool,
    second: Option<u64>,
) -> u64
    decreases rows.len(),
{
    let fallback = match second {
        Some(a) => a,
        None => func,
    };
    if rows.len() == 0 {
        fallback
    } else {
        match rows[0] {
            LineRow::Row { addr, prologue_end: marked, .. } => {
                let within = inside || addr == func;
                if within && addr >= func {
                    if !below(addr, bound) {
                        fallback
                    } else if marked {
                        addr
                    } else {
                        prologue_end(
                            rows.skip(1),
                            func,
                            bound,
                            true,
                            if addr > func && second is None {
                                Some(addr)
                            } else {
                                second
                            },
                        )
                    }
                } else {
                    prologue_end(rows.skip(1), func, bound, within, second)
                }
            },
            LineRow::EndSequence { .. } => if inside && second is Some {
                fallback
            } else {
                prologue_end(rows.skip(1), func, bound, false, second)
            },
        }
    }
}

proof fn lemma_next_symbol(syms: Seq<(String, u64)>, addr: u64)
    ensures
        next_symbol(syms, addr) matches Some(b) ==> addr < b,
    decreases syms.len(),
{
    if syms.len() > 0 {
        lemma_next_symbol(syms.drop_last(), addr);
    }
}

/// The end of the prologue is not before the function and not in the next one.
pub proof fn law_prologue_end_in_function(
    rows: Seq<LineRow>,
    func: u64,
    bound: Option<u64>,
    inside: bool,
    second: Option<u64>,
)
    requires
        below(func, bound),
        second matches Some(a) ==> func <= a && below(a, bound),
    ensures
        func <= prologue_end(rows, func, bound, inside, second),
        below(prologue_end(rows, func, bound, inside, second), bound),
    decreases rows.len(),
{
    if rows.len() > 0 {
        match rows[0] {
            LineRow::Row { addr, prologue_end: marked, .. } => {
                let within = inside || addr == func;
                if within && addr >= func {
                    if below(addr, bound) && !marked {
                        let s = if addr > func && second is None {
                            Some(addr)
                        } else {
                            second
                        };
                        law_prologue_end_in_function(rows.skip(1), func, bound, true, s);
                    }
                } else {
                    law_prologue_end_in_function(rows.skip(1), func, bound, within, second);
                }
            },
            LineRow::EndSequence { .. } => {
                if !(inside && second is Some) {
                    law_prologue_end_in_function(rows.skip(1), func, bound, false, second);
                }
            },
        }
    }
}

/// The place in a text: path and line in brackets.
pub open spec fn place_text(p: (Seq<char>, u32)) -> Seq<char> {
    "  ("@ + p.0 + ":"@ + numerals::dec(p.1 as nat) + ")"@
}

/// Whether a text passes a filter: it stands in it somewhere, capitals or not.
pub open spec fn passes(s: Seq<char>, filter: Option<Seq<char>>) -> bool {
    filter matches Some(f) ==> text::contains(text::lowercase(s), text::lowercase(f))
}

/// Appends the place: path and line in brackets.
pub fn push_place(out: &mut String, path: &str, line: u32)
    ensures
        final(out)@ == old(out)@ + place_text((path@, line)),
{
    let ghost before = out@;
    out.append("  (");
    out.append(path);
    out.append(":");
    push_dec(out, line as u64);
    out.append(")");
    assert(out@ =~= before + place_text((path@, line)));
}

/// Whether a text passes a filter.
fn passes_filter(s: &str, filter: Option<&str>) -> (r: bool)
    ensures
        r == passes(s@, opt_text(filter)),
{
    match filter {
        Some(f) => str_contains(to_lower(s).as_str(), to_lower(f).as_str()),
        None => true,
    }
}

impl Symbols {
    /// The symbols of an executable, and the debug information of its debug file where that was read.
    /// Fails with the message of why the executable is no object file.
    pub fn load(data: &[u8], arch: Arch, debug_file: &str, debug: Option<&[u8]>) -> (r: Result<
        Self,
        String,
    >)
        ensures
            match r {
                Ok(s) => loaded(
                    s,
                    data@,
                    arch,
                    debug_file@,
                    match debug {
                        Some(d) => Some(d@),
                        None => None,
                    },
                ),
                Err(m) => object_file::symbol_table(data@) == Err::<Seq<(Option<Seq<char>>, u64)>, _>(
                    m@,
                ),
            },
    {
        let table = match read_symbols(data) {
            Ok(t) => t,
            Err(m) => return Err(m),
        };
        let symbols = keep_symbols(table);
        let text_vmaddr: u64 = match read_segments(data) {
            Some(t) => find_text_address(&t),
            None => 0,
        };
        let info = match debug {
            Some(d) => load_debug_info(&Sections::load(d)),
            None => DebugInfo {
                line_rows: Vec::new(),
                comp_dirs: NameSet::new(),
                type_names: NameSet::new(),
                variables: Vec::new(),
            },
        };
        let want = ["malloc", "calloc", "realloc", "free"];
        assert(want@ =~= stub_names());
        let stubs = find_stubs(data, &want, arch);
        Ok(
            Symbols {
                symbols,
                text_vmaddr,
                line_rows: info.line_rows,
                debug_file: owned(debug_file),
                comp_dirs: info.comp_dirs,
                type_names: info.type_names,
                variables: info.variables,
                stubs,
            },
        )
    }

    /// The number of symbols.
    pub fn symbol_count(&self) -> (r: usize)
        ensures
            r == self.symbols@.len(),
    {
        self.symbols.len()
    }

    /// The number of rows of the line table.
    pub fn line_row_count(&self) -> (r: usize)
        ensures
            r == self.line_rows@.len(),
    {
        self.line_rows.len()
    }

    /// The number of type names.
    pub fn type_count(&self) -> (r: usize)
        ensures
            r == self.type_names.list@.len(),
    {
        self.type_names.list.len()
    }

    /// The distance from the addresses of the file to those of the loaded program.
    pub open spec fn spec_slide(self, base: u64) -> u64 {
        base.wrapping_sub(self.text_vmaddr)
    }

    /// The distance from the addresses of the file to those of the loaded program.
    pub fn slide(&self, runtime_base: u64) -> (r: u64)
        ensures
            r == self.spec_slide(runtime_base),
    {
        runtime_base.wrapping_sub(self.text_vmaddr)
    }

    /// The variable `name` at `pc`: the innermost local, or else the first global.
    pub open spec fn spec_variable(self, name: Seq<char>, pc: u64) -> Option<Variable> {
        if exists|i: int| is_found(self.variables@, name, pc, i) {
            Some(self.variables@[choose|i: int| is_found(self.variables@, name, pc, i)])
        } else {
            None
        }
    }

    /// The variable `name` at `pc_vaddr`: the innermost local, or else the first global.
    pub fn find_variable(&self, name: &str, pc_vaddr: u64) -> (r: Option<&Variable>)
        ensures
            match r {
                Some(v) => self.spec_variable(name@, pc_vaddr) == Some(*v),
                None => self.spec_variable(name@, pc_vaddr) is None,
            },
    {
        let vs = &self.variables;
        let mut best: Option<usize> = None;
        let mut i: usize = 0;
        while i < vs.len()
            invariant
                i <= vs@.len(),
                vs@ == self.variables@,
                match best {
                    Some(b) => b < i && is_innermost(vs@.take(i as int), name@, pc_vaddr, b as int),
                    None => forall|j: int| 0 <= j < i ==> !is_local(#[trigger] vs@[j], name@, pc_vaddr),
                },
            decreases vs.len() - i,
        {
            let ghost t = vs@.take(i as int);
            let ghost u = vs@.take(i + 1);
            assert(forall|j: int| 0 <= j < i ==> u[j] == t[j] && t[j] == vs@[j]);
            assert(u[i as int] == vs@[i as int]);
            if str_eq(vs[i].name.as_str(), name) {
                if let Some((low, high)) = vs[i].scope {
                    if low <= pc_vaddr && pc_vaddr < high {
                        let better: bool = match best {
                            Some(b) => match vs[b].scope {
                                Some((l, h)) => {
                                    assert(is_local(t[b as int], name@, pc_vaddr));
                                    high - low < h - l
                                },
                                None => false,
                            },
                            None => true,
                        };
                        if better {
                            best = Some(i);
                        }
                    }
                }
            }
            i = i + 1;
        }
        assert(vs@.take(i as int) =~= vs@);
        if let Some(b) = best {
            proof {
                assert(is_found(self.variables@, name@, pc_vaddr, b as int));
                let k = choose|k: int| is_found(self.variables@, name@, pc_vaddr, k);
                law_variable_is_unique(vs@, name@, pc_vaddr, b as int, k);
            }
            return Some(&vs[b]);
        }
        let mut k: usize = 0;
        while k < vs.len()
            invariant
                k <= vs@.len(),
                vs@ == self.variables@,
                forall|j: int| 0 <= j < vs@.len() ==> !is_local(#[trigger] vs@[j], name@, pc_vaddr),
                forall|j: int| 0 <= j < k ==> !is_global(#[trigger] vs@[j], name@),
            decreases vs.len() - k,
        {
            if str_eq(vs[k].name.as_str(), name) && vs[k].scope.is_none() {
                proof {
                    assert(is_first_global(vs@, name@, k as int));
                    assert(is_found(self.variables@, name@, pc_vaddr, k as int));
                    let m = choose|m: int| is_found(self.variables@, name@, pc_vaddr, m);
                    law_variable_is_unique(vs@, name@, pc_vaddr, k as int, m);
                }
                return Some(&vs[k]);
            }
            k = k + 1;
        }
        None
    }

    /// The address of the first symbol of that name, with or without an underscore before it.
    pub open spec fn symbol_addr(self, name: Seq<char>) -> Option<u64> {
        first_named(symbol_seq(self.symbols@), name)
    }

    /// The address of the first symbol of that name, with or without an underscore before it.
    pub fn find_symbol(&self, name: &str) -> (r: Option<u64>)
        ensures
            r == self.symbol_addr(name@),
    {
        let mut underscored = owned("_");
        underscored.append(name);
        let ghost all = symbol_seq(self.symbols@);
        let mut i: usize = 0;
        assert(all.skip(0) =~= all);
        while i < self.symbols.len()
            invariant
                i <= self.symbols@.len(),
                all == symbol_seq(self.symbols@),
                underscored@ == "_"@ + name@,
                first_named(all, name@) == first_named(all.skip(i as int), name@),
            decreases self.symbols.len() - i,
        {
            assert(all.skip(i as int).skip(1) =~= all.skip(i + 1));
            let n = self.symbols[i].0.as_str();
            if str_eq(n, name) || str_eq(n, underscored.as_str()) {
                return Some(self.symbols[i].1);
            }
            i = i + 1;
        }
        None
    }

    /// The symbol that holds `vaddr` and how far `vaddr` is from its beginning.
    pub open spec fn holder(self, vaddr: u64) -> Option<(Seq<char>, u64)> {
        if exists|i: int| holds(self.symbols@, vaddr, i) {
            let i = choose|i: int| holds(self.symbols@, vaddr, i);
            Some((self.symbols@[i].0@, (vaddr - self.symbols@[i].1) as u64))
        } else {
            None
        }
    }

    /// The symbol that holds `vaddr` and how far `vaddr` is from its beginning.
    pub fn find_symbol_for_addr(&self, vaddr: u64) -> (r: Option<(&str, u64)>)
        ensures
            match r {
                Some(p) => self.holder(vaddr) == Some((p.0@, p.1)),
                None => self.holder(vaddr) is None,
            },
    {
        let s = &self.symbols;
        let mut best: Option<usize> = None;
        let mut i: usize = 0;
        while i < s.len()
            invariant
                i <= s@.len(),
                s@ == self.symbols@,
                match best {
                    Some(b) => b < i && holds(s@.take(i as int), vaddr, b as int),
                    None => forall|j: int| 0 <= j < i ==> !can_hold(#[trigger] s@[j], vaddr),
                },
            decreases s.len() - i,
        {
            let ghost t = s@.take(i as int);
            let ghost u = s@.take(i + 1);
            assert(forall|j: int| 0 <= j < i ==> u[j] == t[j] && t[j] == s@[j]);
            assert(u[i as int] == s@[i as int]);
            let a: u64 = s[i].1;
            if a <= vaddr && a != 0 && !str_eq(s[i].0.as_str(), "__mh_execute_header") {
                let better: bool = match best {
                    Some(b) => s[b].1 <= a,
                    None => true,
                };
                if better {
                    best = Some(i);
                }
            }
            i = i + 1;
        }
        assert(s@.take(i as int) =~= s@);
        match best {
            Some(b) => {
                proof {
                    assert(holds(s@, vaddr, b as int));
                    let k = choose|k: int| holds(self.symbols@, vaddr, k);
                    assert(can_hold(s@[k], vaddr) && can_hold(s@[b as int], vaddr));
                    assert(k == b);
                }
                Some((s[b].0.as_str(), vaddr - s[b].1))
            },
            None => None,
        }
    }

    /// The address of a line of a file: of the nearest line at or below it that has one, the lowest.
    pub open spec fn spec_line(self, file: Seq<char>, line: u32) -> Option<u64> {
        match path::file_name(file) {
            Some(f) => nearest(self.line_rows@, f, line),
            None => None,
        }
    }

    /// The address of a line of a file: of the nearest line at or below it that has one, the lowest.
    pub fn find_line(&self, file: &str, line: u32) -> (r: Option<u64>)
        ensures
            r == self.spec_line(file@, line),
    {
        let want = match file_name_of(file) {
            Some(w) => w,
            None => return None,
        };
        let rows = &self.line_rows;
        let mut best: Option<(u32, u64)> = None;
        let ghost mut at: int = 0;
        let mut i: usize = 0;
        while i < rows.len()
            invariant
                i <= rows@.len(),
                rows@ == self.line_rows@,
                path::file_name(file@) == Some(want@),
                match best {
                    Some(p) => is_nearest(rows@.take(i as int), want@, line, at) && p.0
                        == rows@[at]->Row_line - line && p.1 == row_addr(rows@[at]),
                    None => forall|j: int| 0 <= j < i ==> !at_or_below(#[trigger] rows@[j], want@, line),
                },
            decreases rows.len() - i,
        {
            let ghost t = rows@.take(i as int);
            let ghost u = rows@.take(i + 1);
            assert(forall|j: int| 0 <= j < i ==> u[j] == t[j] && t[j] == rows@[j]);
            assert(u[i as int] == rows@[i as int]);
            if let LineRow::Row { file: f, line: l, addr, .. } = &rows[i] {
                if *l >= line && str_eq(f.as_str(), want.as_str()) {
                    assert(at_or_below(rows@[i as int], want@, line));
                    let delta: u32 = *l - line;
                    let better: bool = match best {
                        Some((d, a)) => delta < d || (delta == d && *addr < a),
                        None => true,
                    };
                    if better {
                        best = Some((delta, *addr));
                        proof {
                            at = i as int;
                        }
                    }
                }
            }
            i = i + 1;
        }
        assert(rows@.take(i as int) =~= rows@);
        match best {
            Some((_, a)) => {
                proof {
                    assert(is_nearest(rows@, want@, line, at));
                    lemma_nearest(rows@, want@, line, at);
                }
                Some(a)
            },
            None => None,
        }
    }

    /// Where the prologue of the function at `func_vaddr` ends: by the line table, within the function.
    pub fn skip_prologue(&self, func_vaddr: u64) -> (r: u64)
        ensures
            r == prologue_end(
                self.line_rows@,
                func_vaddr,
                next_symbol(self.symbols@, func_vaddr),
                false,
                None,
            ),
            func_vaddr <= r,
            below(r, next_symbol(self.symbols@, func_vaddr)),
    {
        let mut bound: Option<u64> = None;
        let mut k: usize = 0;
        assert(self.symbols@.take(0) =~= Seq::empty());
        while k < self.symbols.len()
            invariant
                k <= self.symbols@.len(),
                bound == next_symbol(self.symbols@.take(k as int), func_vaddr),
            decreases self.symbols.len() - k,
        {
            let ghost u = self.symbols@.take(k + 1);
            assert(u.drop_last() =~= self.symbols@.take(k as int));
            let a: u64 = self.symbols[k].1;
            if a > func_vaddr {
                bound = match bound {
                    Some(b) => if a < b {
                        Some(a)
                    } else {
                        Some(b)
                    },
                    None => Some(a),
                };
            }
            k = k + 1;
        }
        assert(self.symbols@.take(k as int) =~= self.symbols@);
        proof {
            lemma_next_symbol(self.symbols@, func_vaddr);
            law_prologue_end_in_function(self.line_rows@, func_vaddr, bound, false, None);
        }
        let rows = &self.line_rows;
        let mut inside: bool = false;
        let mut second: Option<u64> = None;
        let mut i: usize = 0;
        let ghost whole = prologue_end(rows@, func_vaddr, bound, false, None);
        assert(rows@.skip(0) =~= rows@);
        while i < rows.len()
            invariant
                i <= rows@.len(),
                rows@ == self.line_rows@,
                bound == next_symbol(self.symbols@, func_vaddr),
                whole == prologue_end(self.line_rows@, func_vaddr, bound, false, None),
                func_vaddr <= whole,
                below(whole, bound),
                whole == prologue_end(rows@.skip(i as int), func_vaddr, bound, inside, second),
            decreases rows.len() - i,
        {
            assert(rows@.skip(i as int).skip(1) =~= rows@.skip(i + 1));
            let fallback: u64 = match second {
                Some(a) => a,
                None => func_vaddr,
            };
            match &rows[i] {
                LineRow::Row { addr, prologue_end, .. } => {
                    if *addr == func_vaddr {
                        inside = true;
                    }
                    if inside && *addr >= func_vaddr {
                        let in_bound: bool = match bound {
                            Some(b) => *addr < b,
                            None => true,
                        };
                        if !in_bound {
                            return fallback;
                        }
                        if *prologue_end {
                            return *addr;
                        }
                        if *addr > func_vaddr && second.is_none() {
                            second = Some(*addr);
                        }
                    }
                },
                LineRow::EndSequence { .. } => {
                    if inside && second.is_some() {
                        return fallback;
                    }
                    inside = false;
                },
            }
            i = i + 1;
        }
        match second {
            Some(a) => a,
            None => func_vaddr,
        }
    }

    /// The path and the line of the place that holds `vaddr`.
    pub open spec fn spec_location(self, vaddr: u64) -> Option<(Seq<char>, u32)> {
        location(self.line_rows@, vaddr)
    }

    /// The path and the line of the place that holds `vaddr`.
    pub fn find_location(&self, vaddr: u64) -> (r: Option<(String, u32)>)
        ensures
            match r {
                Some(p) => self.spec_location(vaddr) == Some((p.0@, p.1)),
                None => self.spec_location(vaddr) is None,
            },
    {
        let rows = &self.line_rows;
        let mut i: usize = 0;
        while i < rows.len() && rows.len() - i > 1
            invariant
                i <= rows@.len(),
                rows@ == self.line_rows@,
                forall|j: int| 0 <= j < i ==> !#[trigger] covers(rows@, vaddr, j),
            decreases rows.len() - i,
        {
            if let LineRow::Row { path, line, addr, .. } = &rows[i] {
                let next: u64 = match &rows[i + 1] {
                    LineRow::Row { addr, .. } => *addr,
                    LineRow::EndSequence { addr } => *addr,
                };
                if *addr <= vaddr && vaddr < next {
                    proof {
                        assert(covers(rows@, vaddr, i as int));
                        lemma_location(rows@, vaddr, i as int);
                    }
                    return Some((owned(path.as_str()), *line));
                }
            }
            i = i + 1;
        }
        None
    }

    /// The line of a symbol: its address, its name and its place if one is known.
    pub open spec fn symbol_line(self, name: Seq<char>, addr: u64) -> Seq<char> {
        numerals::addr_text(addr as nat) + "  "@ + name + (match self.spec_location(addr) {
            Some(p) => place_text(p),
            None => Seq::empty(),
        }) + "\n"@
    }

    /// The lines of the first `n` symbols that have an address and pass the filter.
    pub open spec fn symbol_lines(self, filter: Option<Seq<char>>, n: int) -> Seq<char>
        decreases n,
    {
        if n <= 0 {
            Seq::empty()
        } else {
            let (name, addr) = (self.symbols@[n - 1].0@, self.symbols@[n - 1].1);
            self.symbol_lines(filter, n - 1) + (if addr != 0 && passes(name, filter) {
                self.symbol_line(name, addr)
            } else {
                Seq::empty()
            })
        }
    }

    /// The lines of the symbols that have an address and pass the filter.
    pub fn print_symbols(&self, filter: Option<&str>) -> (r: String)
        ensures
            r@ == self.symbol_lines(opt_text(filter), self.symbols@.len() as int),
    {
        let mut out = String::new();
        let mut i: usize = 0;
        assert(out@ =~= self.symbol_lines(opt_text(filter), 0));
        while i < self.symbols.len()
            invariant
                i <= self.symbols@.len(),
                out@ == self.symbol_lines(opt_text(filter), i as int),
            decreases self.symbols.len() - i,
        {
            let ghost before = out@;
            let name = self.symbols[i].0.as_str();
            let addr: u64 = self.symbols[i].1;
            if addr != 0 && passes_filter(name, filter) {
                push_addr(&mut out, addr);
                out.append("  ");
                out.append(name);
                if let Some((p, l)) = self.find_location(addr) {
                    push_place(&mut out, p.as_str(), l);
                }
                out.append("\n");
                assert(out@ =~= before + self.symbol_line(name@, addr));
            }
            i = i + 1;
            assert(out@ =~= self.symbol_lines(opt_text(filter), i as int));
        }
        out
    }

    /// The lines of the first `n` rows whose file or path passes the filter.
    pub open spec fn row_lines(self, filter: Option<Seq<char>>, n: int) -> Seq<char>
        decreases n,
    {
        if n <= 0 {
            Seq::empty()
        } else {
            self.row_lines(filter, n - 1) + (match self.line_rows@[n - 1] {
                LineRow::Row { file, path, line, addr, prologue_end } => if passes(file@, filter)
                    || passes(path@, filter) {
                    row_line(file@, path@, line, addr, prologue_end)
                } else {
                    Seq::empty()
                },
                LineRow::EndSequence { .. } => Seq::empty(),
            })
        }
    }

    /// The lines of the rows whose file or path passes the filter.
    pub fn print_lines(&self, filter: Option<&str>) -> (r: String)
        ensures
            r@ == self.row_lines(opt_text(filter), self.line_rows@.len() as int),
    {
        let mut out = String::new();
        let mut i: usize = 0;
        assert(out@ =~= self.row_lines(opt_text(filter), 0));
        while i < self.line_rows.len()
            invariant
                i <= self.line_rows@.len(),
                out@ == self.row_lines(opt_text(filter), i as int),
            decreases self.line_rows.len() - i,
        {
            let ghost before = out@;
            if let LineRow::Row { file, path, line, addr, prologue_end } = &self.line_rows[i] {
                if passes_filter(file.as_str(), filter) || passes_filter(path.as_str(), filter) {
                    push_addr(&mut out, *addr);
                    out.append("  ");
                    out.append(path.as_str());
                    out.append(":");
                    push_dec(&mut out, *line as u64);
                    out.append("  [");
                    out.append(file.as_str());
                    out.append("]");
                    if *prologue_end {
                        out.append(" (prologue_end)");
                    }
                    out.append("\n");
                    assert(out@ =~= before + row_line(file@, path@, *line, *addr, *prologue_end));
                }
            }
            i = i + 1;
            assert(out@ =~= self.row_lines(opt_text(filter), i as int));
        }
        out
    }

    /// The summary of what was loaded.
    pub open spec fn summary(self, base: Option<u64>) -> Seq<char> {
        "debug file: "@ + self.debug_file@ + "\ntext vmaddr: "@ + numerals::addr_text(
            self.text_vmaddr as nat,
        ) + "\n"@ + (match base {
            Some(b) => "image base: "@ + numerals::addr_text(b as nat) + "\nslide: "@
                + numerals::addr_text(self.spec_slide(b) as nat) + "\n"@,
            None => Seq::empty(),
        }) + "symbols: "@ + numerals::dec(self.symbols@.len()) + "\nline rows: "@ + numerals::dec(
            self.line_rows@.len(),
        ) + "\ntypes: "@ + numerals::dec(self.type_names.list@.len()) + "\n"@ + name_lines(
            "compilation directories:\n"@,
            self.comp_dirs.list@,
        ) + name_lines("types:\n"@, self.type_names.list@)
    }

    /// The summary of what was loaded.
    pub fn print_debug_info(&self, runtime_base: Option<u64>) -> (r: String)
        ensures
            r@ == self.summary(runtime_base),
    {
        let mut out = owned("debug file: ");
        out.append(self.debug_file.as_str());
        out.append("\ntext vmaddr: ");
        push_addr(&mut out, self.text_vmaddr);
        out.append("\n");
        if let Some(b) = runtime_base {
            out.append("image base: ");
            push_addr(&mut out, b);
            out.append("\nslide: ");
            push_addr(&mut out, self.slide(b));
            out.append("\n");
        }
        out.append("symbols: ");
        push_dec(&mut out, self.symbol_count() as u64);
        out.append("\nline rows: ");
        push_dec(&mut out, self.line_row_count() as u64);
        out.append("\ntypes: ");
        push_dec(&mut out, self.type_count() as u64);
        out.append("\n");
        push_name_lines(&mut out, "compilation directories:\n", &self.comp_dirs.list);
        push_name_lines(&mut out, "types:\n", &self.type_names.list);
        assert(out@ =~= self.summary(runtime_base));
        out
    }

    /// The local variables at `pc`, in their order.
    pub fn locals_at_pc(&self, pc_vaddr: u64) -> (r: Vec<&Variable>)
        ensures
            r@.map_values(|v: &Variable| *v) == self.variables@.filter(
                |v: Variable| in_scope(v, pc_vaddr) && !v.is_argument,
            ),
    {
        self.visible(pc_vaddr, false)
    }

    /// The arguments of the function at `pc`, in their order.
    pub fn args_at_pc(&self, pc_vaddr: u64) -> (r: Vec<&Variable>)
        ensures
            r@.map_values(|v: &Variable| *v) == self.variables@.filter(
                |v: Variable| in_scope(v, pc_vaddr) && v.is_argument,
            ),
    {
        let r = self.visible(pc_vaddr, true);
        proof {
            lemma_filter_same(
                self.variables@,
                |v: Variable| in_scope(v, pc_vaddr) && v.is_argument == true,
                |v: Variable| in_scope(v, pc_vaddr) && v.is_argument,
            );
        }
        r
    }

    /// The variables or the arguments that can be seen at `pc`.
    fn visible(&self, pc_vaddr: u64, arguments: bool) -> (r: Vec<&Variable>)
        ensures
            r@.map_values(|v: &Variable| *v) == self.variables@.filter(
                |v: Variable| in_scope(v, pc_vaddr) && v.is_argument == arguments,
            ),
            !arguments ==> r@.map_values(|v: &Variable| *v) == self.variables@.filter(
                |v: Variable| in_scope(v, pc_vaddr) && !v.is_argument,
            ),
    {
        let ghost p = |v: Variable| in_scope(v, pc_vaddr) && v.is_argument == arguments;
        let mut out: Vec<&Variable> = Vec::new();
        let mut i: usize = 0;
        proof {
            reveal(Seq::filter);
            assert(self.variables@.take(0) =~= Seq::empty());
            assert(out@.map_values(|v: &Variable| *v) =~= Seq::empty());
        }
        while i < self.variables.len()
            invariant
                i <= self.variables@.len(),
                p == (|v: Variable| in_scope(v, pc_vaddr) && v.is_argument == arguments),
                out@.map_values(|v: &Variable| *v) == self.variables@.take(i as int).filter(p),
            decreases self.variables.len() - i,
        {
            let ghost before = out@.map_values(|v: &Variable| *v);
            let ghost u = self.variables@.take(i + 1);
            proof {
                reveal(Seq::filter);
                assert(u.drop_last() =~= self.variables@.take(i as int));
                assert(u.last() == self.variables@[i as int]);
            }
            if let Some((low, high)) = self.variables[i].scope {
                if low <= pc_vaddr && pc_vaddr < high && self.variables[i].is_argument == arguments {
                    out.push(&self.variables[i]);
                    assert(out@.map_values(|v: &Variable| *v) =~= before.push(self.variables@[i as int]));
                }
            }
            i = i + 1;
        }
        assert(self.variables@.take(i as int) =~= self.variables@);
        proof {
            if !arguments {
                lemma_filter_same(
                    self.variables@,
                    p,
                    |v: Variable| in_scope(v, pc_vaddr) && !v.is_argument,
                );
            }
        }
        out
    }

    /// The global variables, in their order.
    pub fn global_variables(&self) -> (r: Vec<&Variable>)
        ensures
            r@.map_values(|v: &Variable| *v) == self.variables@.filter(|v: Variable| v.scope is None),
    {
        let ghost p = |v: Variable| v.scope is None;
        let mut out: Vec<&Variable> = Vec::new();
        let mut i: usize = 0;
        proof {
            reveal(Seq::filter);
            assert(self.variables@.take(0) =~= Seq::empty());
            assert(out@.map_values(|v: &Variable| *v) =~= Seq::empty());
        }
        while i < self.variables.len()
            invariant
                i <= self.variables@.len(),
                p == (|v: Variable| v.scope is None),
                out@.map_values(|v: &Variable| *v) == self.variables@.take(i as int).filter(p),
            decreases self.variables.len() - i,
        {
            let ghost before = out@.map_values(|v: &Variable| *v);
            let ghost u = self.variables@.take(i + 1);
            proof {
                reveal(Seq::filter);
                assert(u.drop_last() =~= self.variables@.take(i as int));
                assert(u.last() == self.variables@[i as int]);
            }
            if self.variables[i].scope.is_none() {
                out.push(&self.variables[i]);
                assert(out@.map_values(|v: &Variable| *v) =~= before.push(self.variables@[i as int]));
            }
            i = i + 1;
        }
        assert(self.variables@.take(i as int) =~= self.variables@);
        out
    }

    /// The address of an allocation function's stub in the loaded program.
    pub open spec fn spec_stub(self, name: Seq<char>, base: u64) -> Option<u64> {
        if self.stubs@.contains_key(name) {
            Some(self.stubs@[name].wrapping_add(self.spec_slide(base)))
        } else {
            None
        }
    }

    /// The address of an allocation function's stub in the loaded program.
    pub fn stub_address(&self, name: &str, runtime_base: u64) -> (r: Option<u64>)
        ensures
            r == self.spec_stub(name@, runtime_base),
    {
        match self.stubs.get(name) {
            Some(a) => Some(a.wrapping_add(self.slide(runtime_base))),
            None => None,
        }
    }
}

/// A text as a sequence of characters, if there is one.
pub open spec fn opt_text(s: Option<&str>) -> Option<Seq<char>> {
    match s {
        Some(t) => Some(t@),
        None => None,
    }
}

/// The line of a row of the line table.
pub open spec fn row_line(file: Seq<char>, path: Seq<char>, line: u32, addr: u64, marked: bool) -> Seq<
    char,
> {
    numerals::addr_text(addr as nat) + "  "@ + path + ":"@ + numerals::dec(line as nat) + "  ["@ + file
        + "]"@ + (if marked {
        " (prologue_end)"@
    } else {
        Seq::empty()
    }) + "\n"@
}

/// The first `n` names, one on a line.
pub open spec fn indented(names: Seq<String>, n: int) -> Seq<char>
    decreases n,
{
    if n <= 0 {
        Seq::empty()
    } else {
        indented(names, n - 1) + ("  "@ + names[n - 1]@ + "\n"@)
    }
}

/// A heading and the names below it; nothing if there are none.
pub open spec fn name_lines(heading: Seq<char>, names: Seq<String>) -> Seq<char> {
    if names.len() == 0 {
        Seq::empty()
    } else {
        heading + indented(names, names.len() as int)
    }
}

/// Appends a heading and the names below it; nothing if there are none.
fn push_name_lines(out: &mut String, heading: &str, names: &Vec<String>)
    ensures
        final(out)@ == old(out)@ + name_lines(heading@, names@),
{
    if names.len() == 0 {
        assert(out@ =~= out@ + name_lines(heading@, names@));
        return;
    }
    let ghost before = out@;
    out.append(heading);
    let mut i: usize = 0;
    assert(out@ =~= before + heading@ + indented(names@, 0));
    while i < names.len()
        invariant
            i <= names@.len(),
            out@ == before + heading@ + indented(names@, i as int),
        decreases names.len() - i,
    {
        out.append("  ");
        out.append(names[i].as_str());
        out.append("\n");
        i = i + 1;
        assert(out@ =~= before + heading@ + indented(names@, i as int));
    }
    assert(out@ =~= before + name_lines(heading@, names@));
}

/// Whether variable `i` is the one that a name means at `pc`: the innermost local, or where there is
/// none the first global.
pub open spec fn is_found(vs: Seq<Variable>, name: Seq<char>, pc: u64, i: int) -> bool {
    ||| is_innermost(vs, name, pc, i)
    ||| (is_first_global(vs, name, i) && forall|j: int|
        0 <= j < vs.len() ==> !is_local(#[trigger] vs[j], name, pc))
}

/// The address of the first symbol that is found by `name`.
pub open spec fn first_named(syms: Seq<(Seq<char>, u64)>, name: Seq<char>) -> Option<u64>
    decreases syms.len(),
{
    if syms.len() == 0 {
        None
    } else if is_named(syms[0].0, name) {
        Some(syms[0].1)
    } else {
        first_named(syms.skip(1), name)
    }
}

proof fn lemma_filter_same(
    vs: Seq<Variable>,
    p: spec_fn(Variable) -> bool,
    q: spec_fn(Variable) -> bool,
)
    requires
        forall|v: Variable| #[trigger] p(v) == q(v),
    ensures
        vs.filter(p) == vs.filter(q),
    decreases vs.len(),
{
    reveal(Seq::filter);
    if vs.len() > 0 {
        lemma_filter_same(vs.drop_last(), p, q);
        assert(p(vs.last()) == q(vs.last()));
    }
}

/// A name means at most one variable.
pub proof fn law_variable_is_unique(vs: Seq<Variable>, name: Seq<char>, pc: u64, i: int, j: int)
    requires
        is_found(vs, name, pc, i),
        is_found(vs, name, pc, j),
    ensures
        i == j,
{
    if is_innermost(vs, name, pc, i) {
        assert(is_local(vs[i], name, pc));
        if is_innermost(vs, name, pc, j) {
            assert(is_local(vs[j], name, pc));
        }
    } else if is_innermost(vs, name, pc, j) {
        assert(is_local(vs[j], name, pc));
    } else {
        assert(is_global(vs[i], name) && is_global(vs[j], name));
    }
}

} // verus!
