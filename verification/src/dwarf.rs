//! DWARF debug information, read by the `gimli` crate. Both architectures that the debugger knows are
//! 64-bit ones, so an offset or an index of the file fits in `usize`.
use crate::bytes::copy_bytes;
use crate::line_program;
use crate::line_program::{find_least, make_runnable};
use crate::object_file;
use crate::object_file::read_section;
use crate::text::{owned, str_eq};
use gimli::{AttributeValue, DebugInfoOffset, Dwarf, EndianSlice, LineInstruction, LittleEndian, UnitOffset};
use vstd::prelude::*;

verus! {

/// The sections that hold debug information, each with its name and contents.
pub struct Sections {
    pub list: Vec<(String, Vec<u8>)>,
}

/// Sections with their names and contents as sequences.
pub type SectionSeq = Seq<(Seq<char>, Seq<u8>)>;

impl View for Sections {
    type V = SectionSeq;

    open spec fn view(&self) -> SectionSeq {
        self.list@.map_values(|p: (String, Vec<u8>)| (p.0@, p.1@))
    }
}

/// The contents of the first section of that name; nothing if there is none.
pub open spec fn contents(s: SectionSeq, name: Seq<char>) -> Seq<u8>
    decreases s.len(),
{
    if s.len() == 0 {
        Seq::empty()
    } else if s[0].0 == name {
        s[0].1
    } else {
        contents(s.skip(1), name)
    }
}

/// The names of the sections with debug information.
pub open spec fn section_names() -> Seq<Seq<char>> {
    seq![
        ".debug_abbrev"@,
        ".debug_addr"@,
        ".debug_aranges"@,
        ".debug_info"@,
        ".debug_line"@,
        ".debug_line_str"@,
        ".debug_str"@,
        ".debug_str_offsets"@,
        ".debug_types"@,
        ".debug_loc"@,
        ".debug_loclists"@,
        ".debug_ranges"@,
        ".debug_rnglists"@,
    ]
}

/// The sections with debug information of a file; one that cannot be read is empty.
pub open spec fn sections_of(data: Seq<u8>) -> SectionSeq {
    section_names().map_values(
        |n: Seq<char>|
            (
                n,
                match object_file::section_contents(data, n) {
                    Some(b) => b,
                    None => Seq::empty(),
                },
            ),
    )
}

impl Sections {
    /// The contents of the section of that name; nothing if there is none.
    pub fn get(&self, name: &str) -> (r: &[u8])
        ensures
            r@ == contents(self@, name@),
    {
        let mut i: usize = 0;
        assert(self@.skip(0) =~= self@);
        while i < self.list.len()
            invariant
                i <= self.list@.len(),
                contents(self@, name@) == contents(self@.skip(i as int), name@),
            decreases self.list.len() - i,
        {
            if str_eq(self.list[i].0.as_str(), name) {
                return self.list[i].1.as_slice();
            }
            assert(self@.skip(i as int).skip(1) =~= self@.skip(i + 1));
            i = i + 1;
        }
        let none: &[u8] = &[];
        assert(none@ =~= Seq::empty());
        none
    }

    /// A copy of the sections.
    pub fn copy(&self) -> (r: Self)
        ensures
            r@ == self@,
    {
        let mut list: Vec<(String, Vec<u8>)> = Vec::new();
        let mut i: usize = 0;
        while i < self.list.len()
            invariant
                i <= self.list@.len(),
                list@.len() == i,
                forall|j: int|
                    0 <= j < i ==> (#[trigger] list@[j]).0@ == self@[j].0 && list@[j].1@ == self@[j].1,
            decreases self.list.len() - i,
        {
            list.push((owned(self.list[i].0.as_str()), copy_bytes(self.list[i].1.as_slice())));
            i = i + 1;
        }
        let r = Sections { list };
        assert(r@ =~= self@);
        r
    }

    /// The sections with debug information of a file.
    pub fn load(data: &[u8]) -> (r: Self)
        ensures
            r@ == sections_of(data@),
    {
        let names = [
            ".debug_abbrev",
            ".debug_addr",
            ".debug_aranges",
            ".debug_info",
            ".debug_line",
            ".debug_line_str",
            ".debug_str",
            ".debug_str_offsets",
            ".debug_types",
            ".debug_loc",
            ".debug_loclists",
            ".debug_ranges",
            ".debug_rnglists",
        ];
        assert(names@.map_values(|n: &str| n@) =~= section_names());
        let mut list: Vec<(String, Vec<u8>)> = Vec::new();
        let mut i: usize = 0;
        while i < 13
            invariant
                i <= 13,
                list@.len() == i,
                names@.map_values(|n: &str| n@) == section_names(),
                forall|k: int|
                    0 <= k < i ==> (#[trigger] list@[k]).0@ == sections_of(data@)[k].0 && list@[k].1@
                        == sections_of(data@)[k].1,
            decreases 13 - i,
        {
            let b: Vec<u8> = match read_section(data, names[i]) {
                Some(b) => b,
                None => Vec::new(),
            };
            proof {
                assert(section_names()[i as int] == names@[i as int]@) by {
                    assert(names@.map_values(|n: &str| n@)[i as int] == names@[i as int]@);
                }
                assert(b@ =~= sections_of(data@)[i as int].1);
            }
            list.push((owned(names[i]), b));
            i = i + 1;
        }
        let r = Sections { list };
        assert(r@ =~= sections_of(data@));
        r
    }
}

/// The value of an attribute, as far as the debugger reads it. Of the attributes that it asks for, one
/// that is a constant comes as `Udata`, whatever its size in the file.
pub enum Attr<B> {
    Addr(u64),
    Udata(u64),
    Exprloc(B),
    UnitRef(u64),
    Other,
}

impl Attr<Vec<u8>> {
    /// The value with its bytes as a sequence.
    pub open spec fn seq(self) -> Attr<Seq<u8>> {
        match self {
            Attr::Addr(v) => Attr::Addr(v),
            Attr::Udata(v) => Attr::Udata(v),
            Attr::Exprloc(b) => Attr::Exprloc(b@),
            Attr::UnitRef(v) => Attr::UnitRef(v),
            Attr::Other => Attr::Other,
        }
    }
}

/// A row of a line table: whether it ends a sequence, its address, its line if it has one, its file if
/// there is one (the name and the directory, each if it can be read), and whether a prologue ends.
pub type RawRow = (bool, u64, Option<u64>, Option<(Option<Vec<u8>>, Option<Vec<u8>>)>, bool);

/// A row with its names as sequences.
pub type RawRowSeq = (bool, u64, Option<u64>, Option<(Option<Seq<u8>>, Option<Seq<u8>>)>, bool);

/// Bytes as a sequence, if there are any.
pub open spec fn opt_seq(b: Option<Vec<u8>>) -> Option<Seq<u8>> {
    match b {
        Some(v) => Some(v@),
        None => None,
    }
}

/// A row with its names as sequences.
pub open spec fn row_seq(r: RawRow) -> RawRowSeq {
    (
        r.0,
        r.1,
        r.2,
        match r.3 {
            Some(f) => Some((opt_seq(f.0), opt_seq(f.1))),
            None => None,
        },
        r.4,
    )
}

/// The offsets of the units of `.debug_info`, up to the first that cannot be read.
pub uninterp spec fn units(s: SectionSeq) -> Seq<u64>;

/// The compilation directory of the unit at an offset, if it has one; nothing if the unit cannot be
/// read.
pub uninterp spec fn comp_dir(s: SectionSeq, unit: u64) -> Option<Option<Seq<u8>>>;

/// The entries of a unit in depth-first order, up to the first that cannot be read: how deep an entry
/// stands, its tag and its offset.
pub uninterp spec fn entries(s: SectionSeq, unit: u64) -> Seq<(isize, u16, u64)>;

/// The tag of the entry at an offset, if there is one.
pub uninterp spec fn tag(s: SectionSeq, unit: u64, entry: u64) -> Option<u16>;

/// An attribute of the entry at an offset.
pub uninterp spec fn attr(s: SectionSeq, unit: u64, entry: u64, name: u16) -> Attr<Seq<u8>>;

/// The bytes of an attribute that is a string, if the entry has it.
pub uninterp spec fn attr_string(s: SectionSeq, unit: u64, entry: u64, name: u16) -> Option<Seq<u8>>;

/// The instructions of a unit's line program, up to the first that cannot be read: of one that advances
/// the line, by how much. None if the unit cannot be read or has no program.
pub uninterp spec fn line_ops(s: SectionSeq, unit: u64) -> Seq<Option<i64>>;

/// Whether the line program of a unit can be run: no instruction advances the line by the least of all
/// 64-bit numbers, which has no negation.
pub open spec fn can_run(ops: Seq<Option<i64>>) -> bool {
    forall|k: int| 0 <= k < ops.len() ==> ops[k] != Some(i64::MIN)
}

/// Where the line table of a unit begins in `.debug_line`; nothing if the unit cannot be read or has none.
pub uninterp spec fn line_offset(s: SectionSeq, unit: u64) -> Option<u64>;

/// The rows of a unit's line table, up to the first that cannot be read: whether a row ends a sequence,
/// its address, its line if it has one and whether a prologue ends. Nothing if there is no table.
pub uninterp spec fn steps(s: SectionSeq, unit: u64) -> Option<Seq<(bool, u64, Option<u64>, bool)>>;

/// The file of each row of a unit's line table, if it has one: the name and the directory, each if it
/// can be read. Nothing if there is no table.
pub uninterp spec fn files(s: SectionSeq, unit: u64) -> Option<
    Seq<Option<(Option<Seq<u8>>, Option<Seq<u8>>)>>,
>;

/// The rows of a unit's line table with their files; nothing if there is no table.
pub open spec fn joined(s: SectionSeq, unit: u64) -> Option<Seq<RawRowSeq>> {
    match (steps(s, unit), files(s, unit)) {
        (Some(a), Some(f)) => Some(
            Seq::new(
                a.len(),
                |i: int|
                    (
                        a[i].0,
                        a[i].1,
                        a[i].2,
                        if i < f.len() {
                            f[i]
                        } else {
                            None
                        },
                        a[i].3,
                    ),
            ),
        ),
        _ => None,
    }
}

/// The rows of a unit's line table with their files, once its program is written so that it can be run.
pub open spec fn rows(s: SectionSeq, unit: u64) -> Option<Seq<RawRowSeq>> {
    match line_program::runnable(s, unit) {
        Some(m) => joined(m, unit),
        None => None,
    }
}

/// `gimli::Dwarf::units` and the `debug_info_offset` of each header.
#[verifier::external_body]
pub(crate) fn read_units(s: &Sections) -> (r: Vec<u64>)
    ensures
        r@ == units(s@),
{
    let mut out = Vec::new();
    let load = |id: gimli::SectionId| gimli::Result::Ok(EndianSlice::new(s.get(id.name()), LittleEndian));
    if let Ok(dwarf) = Dwarf::load(load) {
        let mut headers = dwarf.units();
        while let Ok(Some(h)) = headers.next() {
            out.extend(h.debug_info_offset().map(|o| o.0 as u64));
        }
    }
    out
}

/// `gimli::Dwarf::unit` and its `comp_dir`.
#[verifier::external_body]
pub(crate) fn read_comp_dir(s: &Sections, unit: u64) -> (r: Option<Option<Vec<u8>>>)
    ensures
        match r {
            Some(d) => comp_dir(s@, unit) == Some(opt_seq(d)),
            None => comp_dir(s@, unit) is None,
        },
{
    let dwarf = Dwarf::load(|id| gimli::Result::Ok(EndianSlice::new(s.get(id.name()), LittleEndian))).ok()?;
    let header = dwarf.debug_info.header_from_offset(DebugInfoOffset(unit as usize)).ok()?;
    Some(dwarf.unit(header).ok()?.comp_dir.map(|d| d.slice().to_vec()))
}

/// `gimli::Unit::entries` and the `depth`, `tag` and `offset` of each entry that `next_dfs` gives.
#[verifier::external_body]
pub(crate) fn read_entries(s: &Sections, unit: u64) -> (r: Option<Vec<(isize, u16, u64)>>)
    ensures
        match r {
            Some(v) => comp_dir(s@, unit) is Some && v@ == entries(s@, unit),
            None => comp_dir(s@, unit) is None,
        },
{
    let dwarf = Dwarf::load(|id| gimli::Result::Ok(EndianSlice::new(s.get(id.name()), LittleEndian))).ok()?;
    let header = dwarf.debug_info.header_from_offset(DebugInfoOffset(unit as usize)).ok()?;
    let unit = dwarf.unit(header).ok()?;
    let mut cursor = unit.entries();
    let mut out = Vec::new();
    while let Ok(Some(e)) = cursor.next_dfs() {
        out.push((e.depth(), e.tag().0, e.offset().0 as u64));
    }
    Some(out)
}

/// `gimli::Unit::entry` and its `tag`.
#[verifier::external_body]
pub(crate) fn read_tag(s: &Sections, unit: u64, entry: u64) -> (r: Option<u16>)
    ensures
        r == tag(s@, unit, entry),
{
    let dwarf = Dwarf::load(|id| gimli::Result::Ok(EndianSlice::new(s.get(id.name()), LittleEndian))).ok()?;
    let header = dwarf.debug_info.header_from_offset(DebugInfoOffset(unit as usize)).ok()?;
    let unit = dwarf.unit(header).ok()?;
    let found = unit.entry(UnitOffset(entry as usize)).ok()?.tag().0;
    Some(found)
}

/// `gimli::Unit::entry` and its `attr_value`.
#[verifier::external_body]
pub(crate) fn read_attr(s: &Sections, unit: u64, entry: u64, name: u16) -> (r: Option<Attr<Vec<u8>>>)
    ensures
        match r {
            Some(a) => attr(s@, unit, entry, name) == a.seq(),
            None => attr(s@, unit, entry, name) is Other,
        },
{
    let dwarf = Dwarf::load(|id| gimli::Result::Ok(EndianSlice::new(s.get(id.name()), LittleEndian))).ok()?;
    let header = dwarf.debug_info.header_from_offset(DebugInfoOffset(unit as usize)).ok()?;
    let unit = dwarf.unit(header).ok()?;
    Some(match unit.entry(UnitOffset(entry as usize)).ok()?.attr_value(gimli::DwAt(name))? {
        AttributeValue::Addr(v) => Attr::Addr(v),
        AttributeValue::Udata(v) => Attr::Udata(v),
        AttributeValue::Exprloc(e) => Attr::Exprloc(e.0.slice().to_vec()),
        AttributeValue::UnitRef(o) => Attr::UnitRef(o.0 as u64),
        _ => Attr::Other,
    })
}

/// `gimli::Unit::entry`, its `attr_value`, and `gimli::Dwarf::attr_string` of it.
#[verifier::external_body]
pub(crate) fn read_attr_string(s: &Sections, unit: u64, entry: u64, name: u16) -> (r: Option<Vec<u8>>)
    ensures
        attr_string(s@, unit, entry, name) == opt_seq(r),
{
    let dwarf = Dwarf::load(|id| gimli::Result::Ok(EndianSlice::new(s.get(id.name()), LittleEndian))).ok()?;
    let header = dwarf.debug_info.header_from_offset(DebugInfoOffset(unit as usize)).ok()?;
    let unit = dwarf.unit(header).ok()?;
    let value = unit.entry(UnitOffset(entry as usize)).ok()?.attr_value(gimli::DwAt(name))?;
    Some(dwarf.attr_string(&unit, value).ok()?.slice().to_vec())
}

/// `gimli::Unit::line_program` and the `next_instruction` of its `instructions`: of an `AdvanceLine` its
/// increment.
#[verifier::external_body]
pub(crate) fn read_line_ops(s: &Sections, unit: u64) -> (r: Option<Vec<Option<i64>>>)
    ensures
        match r {
            Some(v) => line_ops(s@, unit) == v@,
            None => line_ops(s@, unit).len() == 0,
        },
{
    let dwarf = Dwarf::load(|id| gimli::Result::Ok(EndianSlice::new(s.get(id.name()), LittleEndian))).ok()?;
    let header = dwarf.debug_info.header_from_offset(DebugInfoOffset(unit as usize)).ok()?;
    let program = dwarf.unit(header).ok()?.line_program?;
    let mut instructions = program.header().instructions();
    let mut out = Vec::new();
    while let Ok(Some(i)) = instructions.next_instruction(program.header()) {
        out.push(match i {
            LineInstruction::AdvanceLine(n) => Some(n),
            _ => None,
        });
    }
    Some(out)
}

/// `gimli::Unit::line_program` and the `offset` of its header.
#[verifier::external_body]
pub(crate) fn read_line_offset(s: &Sections, unit: u64) -> (r: Option<u64>)
    ensures
        r == line_offset(s@, unit),
{
    let dwarf = Dwarf::load(|id| gimli::Result::Ok(EndianSlice::new(s.get(id.name()), LittleEndian))).ok()?;
    let header = dwarf.debug_info.header_from_offset(DebugInfoOffset(unit as usize)).ok()?;
    Some(dwarf.unit(header).ok()?.line_program?.header().offset().0 as u64)
}

/// `gimli::Unit::line_program` and the rows of `next_row`: the `end_sequence`, `address`, `line` and
/// `prologue_end` of each. Running an `AdvanceLine` negates a negative increment, so the least number must
/// not be among them.
#[verifier::external_body]
pub(crate) fn read_steps(s: &Sections, unit: u64) -> (r: Option<Vec<(bool, u64, Option<u64>, bool)>>)
    requires
        can_run(line_ops(s@, unit)),
    ensures
        match r {
            Some(v) => steps(s@, unit) == Some(v@),
            None => steps(s@, unit) is None,
        },
{
    let dwarf = Dwarf::load(|id| gimli::Result::Ok(EndianSlice::new(s.get(id.name()), LittleEndian))).ok()?;
    let header = dwarf.debug_info.header_from_offset(DebugInfoOffset(unit as usize)).ok()?;
    let unit = dwarf.unit(header).ok()?;
    let mut program = unit.line_program.clone()?.rows();
    let mut out = Vec::new();
    while let Ok(Some((_, row))) = program.next_row() {
        out.push((row.end_sequence(), row.address(), row.line().map(u64::from), row.prologue_end()));
    }
    Some(out)
}

/// A file with its names as sequences.
pub open spec fn file_seq(f: Option<(Option<Vec<u8>>, Option<Vec<u8>>)>) -> Option<
    (Option<Seq<u8>>, Option<Seq<u8>>),
> {
    match f {
        Some((n, d)) => Some((opt_seq(n), opt_seq(d))),
        None => None,
    }
}

/// `gimli::LineRow::file` of each row of `next_row`, with the `path_name` and `directory` of the file
/// read by `gimli::Dwarf::attr_string`. The increments of the lines are as for the rows.
#[verifier::external_body]
pub(crate) fn read_files(s: &Sections, unit: u64) -> (r: Option<Vec<Option<(Option<Vec<u8>>, Option<Vec<u8>>)>>>)
    requires
        can_run(line_ops(s@, unit)),
    ensures
        match r {
            Some(v) => files(s@, unit) == Some(
                v@.map_values(|f: Option<(Option<Vec<u8>>, Option<Vec<u8>>)>| file_seq(f)),
            ),
            None => files(s@, unit) is None,
        },
{
    let dwarf = Dwarf::load(|id| gimli::Result::Ok(EndianSlice::new(s.get(id.name()), LittleEndian))).ok()?;
    let unit = dwarf.unit(dwarf.debug_info.header_from_offset(DebugInfoOffset(unit as usize)).ok()?).ok()?;
    let mut program = unit.line_program.clone()?.rows();
    let text = |v| Some(dwarf.attr_string(&unit, v).ok()?.to_vec());
    let mut out = vec![];
    while let Ok(Some((h, row))) = program.next_row() {
        out.push(row.file(h).map(|f| (text(f.path_name()), f.directory(h).and_then(text))));
    }
    Some(out)
}

/// Takes a file out of the list, where there is one at the index.
fn file_at(files: &Vec<Option<(Option<Vec<u8>>, Option<Vec<u8>>)>>, i: usize) -> (r: Option<
    (Option<Vec<u8>>, Option<Vec<u8>>),
>)
    ensures
        file_seq(r) == (if i < files@.len() {
            file_seq(files@[i as int])
        } else {
            None
        }),
{
    if i < files.len() {
        match &files[i] {
            Some((n, d)) => Some((copy_name(n), copy_name(d))),
            None => None,
        }
    } else {
        None
    }
}

/// A copy of a name.
fn copy_name(n: &Option<Vec<u8>>) -> (r: Option<Vec<u8>>)
    ensures
        opt_seq(r) == opt_seq(*n),
{
    match n {
        Some(v) => Some(copy_bytes(v.as_slice())),
        None => None,
    }
}

/// The instructions of a unit's line program.
pub fn ops_of(s: &Sections, unit: u64) -> (r: Vec<Option<i64>>)
    ensures
        r@ == line_ops(s@, unit),
{
    match read_line_ops(s, unit) {
        Some(v) => v,
        None => {
            let none: Vec<Option<i64>> = Vec::new();
            assert(none@ =~= line_ops(s@, unit));
            none
        },
    }
}

/// The rows of a unit's line table with their files.
fn join_rows(s: &Sections, unit: u64) -> (r: Option<Vec<RawRow>>)
    requires
        can_run(line_ops(s@, unit)),
    ensures
        match r {
            Some(v) => joined(s@, unit) == Some(v@.map_values(|x: RawRow| row_seq(x))),
            None => joined(s@, unit) is None,
        },
{
    let from = read_steps(s, unit)?;
    let of = read_files(s, unit)?;
    let ghost all = joined(s@, unit)->0;
    let mut out: Vec<RawRow> = Vec::new();
    let mut i: usize = 0;
    while i < from.len()
        invariant
            i <= from@.len(),
            out@.len() == i,
            steps(s@, unit) == Some(from@),
            files(s@, unit) == Some(
                of@.map_values(|f: Option<(Option<Vec<u8>>, Option<Vec<u8>>)>| file_seq(f)),
            ),
            all == joined(s@, unit)->0,
            forall|k: int| 0 <= k < i ==> row_seq(#[trigger] out@[k]) == all[k],
        decreases from.len() - i,
    {
        let (end, addr, line, prologue) = from[i];
        out.push((end, addr, line, file_at(&of, i), prologue));
        i = i + 1;
    }
    assert(out@.map_values(|x: RawRow| row_seq(x)) =~= all);
    Some(out)
}

/// The rows of a unit's line table with their files.
pub fn read_rows(s: &Sections, unit: u64) -> (r: Option<Vec<RawRow>>)
    ensures
        match r {
            Some(v) => rows(s@, unit) == Some(v@.map_values(|x: RawRow| row_seq(x))),
            None => rows(s@, unit) is None,
        },
{
    proof {
        line_program::law_runnable_can_run(s@, unit);
    }
    let ops = ops_of(s, unit);
    if find_least(ops.as_slice()).is_none() {
        return join_rows(s, unit);
    }
    let m = make_runnable(s, unit)?;
    join_rows(&m, unit)
}

} // verus!
