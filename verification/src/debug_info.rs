//! What the debugger keeps of the debug information: line rows, variables and type names.
use crate::bytes;
use crate::bytes::le_u64;
use crate::dwarf;
use crate::dwarf::{
    read_attr, read_attr_string, read_comp_dir, read_entries, read_rows, read_tag, read_units, Attr,
    RawRow, Sections,
};
use crate::names::NameSet;
use crate::path;
use crate::path::{file_name_of, push_path};
use crate::text;
use crate::text::{chars_of, from_utf8_lossy, owned, string_of, trim_chars};
use vstd::prelude::*;

verus! {

pub const DW_TAG_CLASS_TYPE: u16 = 0x02;

pub const DW_TAG_ENUMERATION_TYPE: u16 = 0x04;

pub const DW_TAG_FORMAL_PARAMETER: u16 = 0x05;

pub const DW_TAG_LEXICAL_BLOCK: u16 = 0x0b;

pub const DW_TAG_POINTER_TYPE: u16 = 0x0f;

pub const DW_TAG_STRUCTURE_TYPE: u16 = 0x13;

pub const DW_TAG_TYPEDEF: u16 = 0x16;

pub const DW_TAG_UNION_TYPE: u16 = 0x17;

pub const DW_TAG_BASE_TYPE: u16 = 0x24;

pub const DW_TAG_SUBPROGRAM: u16 = 0x2e;

pub const DW_TAG_VARIABLE: u16 = 0x34;

pub const DW_TAG_INTERFACE_TYPE: u16 = 0x38;

pub const DW_AT_LOCATION: u16 = 0x02;

pub const DW_AT_NAME: u16 = 0x03;

pub const DW_AT_BYTE_SIZE: u16 = 0x0b;

pub const DW_AT_LOW_PC: u16 = 0x11;

pub const DW_AT_HIGH_PC: u16 = 0x12;

pub const DW_AT_FRAME_BASE: u16 = 0x40;

pub const DW_AT_TYPE: u16 = 0x49;

/// Where a variable is.
#[derive(Debug, Clone, Copy, PartialEq, Eq, Structural)]
pub enum VarLocation {
    /// At an offset from the frame base.
    FrameOffset(i64),
    /// At a fixed address of the file.
    Addr(u64),
}

/// What the frame base of a function is.
#[derive(Debug, Clone, Copy, PartialEq, Eq, Structural)]
pub enum FrameBaseDef {
    /// The frame pointer.
    Register,
    /// The canonical frame address.
    CallFrameCfa,
}

/// A variable or an argument.
#[derive(Debug, Clone)]
pub struct Variable {
    pub name: String,
    /// The addresses of the file at which it can be seen; nothing if it is global.
    pub scope: Option<(u64, u64)>,
    pub location: VarLocation,
    /// The size of its type: at most eight.
    pub byte_size: u8,
    pub frame_base: FrameBaseDef,
    pub is_argument: bool,
}

/// A variable with its name as a sequence of characters.
#[verifier::ext_equal]
pub struct VariableSeq {
    pub name: Seq<char>,
    pub scope: Option<(u64, u64)>,
    pub location: VarLocation,
    pub byte_size: u8,
    pub frame_base: FrameBaseDef,
    pub is_argument: bool,
}

impl Variable {
    /// The variable with its name as a sequence of characters.
    pub open spec fn seq(self) -> VariableSeq {
        VariableSeq {
            name: self.name@,
            scope: self.scope,
            location: self.location,
            byte_size: self.byte_size,
            frame_base: self.frame_base,
            is_argument: self.is_argument,
        }
    }
}

/// Variables with their names as sequences of characters.
pub open spec fn variable_seq(v: Seq<Variable>) -> Seq<VariableSeq> {
    v.map_values(|x: Variable| x.seq())
}

/// A row of the line table.
pub enum LineRow {
    Row { file: String, path: String, line: u32, addr: u64, prologue_end: bool },
    /// The end of a sequence; the address is the end of its range.
    EndSequence { addr: u64 },
}

/// A row with its texts as sequences of characters.
pub enum LineRowSeq {
    Row { file: Seq<char>, path: Seq<char>, line: u32, addr: u64, prologue_end: bool },
    EndSequence { addr: u64 },
}

impl LineRow {
    /// The row with its texts as sequences of characters.
    pub open spec fn seq(self) -> LineRowSeq {
        match self {
            LineRow::Row { file, path, line, addr, prologue_end } => LineRowSeq::Row {
                file: file@,
                path: path@,
                line,
                addr,
                prologue_end,
            },
            LineRow::EndSequence { addr } => LineRowSeq::EndSequence { addr },
        }
    }
}

/// Rows with their texts as sequences of characters.
pub open spec fn row_seqs(v: Seq<LineRow>) -> Seq<LineRowSeq> {
    v.map_values(|x: LineRow| x.seq())
}

/// `128` to the power `n`.
pub open spec fn pow128(n: nat) -> nat
    decreases n,
{
    if n == 0 {
        1
    } else {
        128 * pow128((n - 1) as nat)
    }
}

/// How many bytes the number that `b` begins with takes: up to the first below `0x80`. Nothing if there
/// is none among the first ten.
pub open spec fn leb_len(b: Seq<u8>, i: nat) -> Option<nat>
    decreases b.len() - i,
{
    if i >= b.len() || i >= 10 {
        None
    } else if b[i as int] < 0x80 {
        Some(i + 1)
    } else {
        leb_len(b, i + 1)
    }
}

/// The number in the low seven bits of each of the first `n` bytes, the least significant first.
pub open spec fn leb_bits(b: Seq<u8>, n: nat) -> nat
    decreases n,
{
    if n == 0 {
        0
    } else {
        leb_bits(b, (n - 1) as nat) + (b[n - 1] % 128) as nat * pow128((n - 1) as nat)
    }
}

/// The signed number that `b` begins with in the variable-length encoding, and how many bytes it takes.
/// The top bit of the last byte's seven is the sign; a number of ten bytes is taken in 64 bits.
pub open spec fn sleb128(b: Seq<u8>) -> Option<(i64, nat)> {
    match leb_len(b, 0) {
        None => None,
        Some(n) => {
            let v = leb_bits(b, n);
            if n == 10 {
                Some(((v % 0x1_0000_0000_0000_0000) as u64 as i64, n))
            } else if b[n - 1] % 128 >= 64 {
                Some(((v - pow128(n)) as i64, n))
            } else {
                Some((v as i64, n))
            }
        },
    }
}

proof fn lemma_pow128_values()
    ensures
        pow128(0) == 1,
        pow128(1) == 0x80,
        pow128(2) == 0x4000,
        pow128(3) == 0x20_0000,
        pow128(4) == 0x1000_0000,
        pow128(5) == 0x8_0000_0000,
        pow128(6) == 0x400_0000_0000,
        pow128(7) == 0x2_0000_0000_0000,
        pow128(8) == 0x100_0000_0000_0000,
        pow128(9) == 0x8000_0000_0000_0000,
        pow128(10) == 0x40_0000_0000_0000_0000,
{
    reveal_with_fuel(pow128, 11);
}

proof fn lemma_leb_bound(b: Seq<u8>, n: nat)
    requires
        n <= b.len(),
    ensures
        leb_bits(b, n) < pow128(n),
    decreases n,
{
    if n > 0 {
        lemma_leb_bound(b, (n - 1) as nat);
        let d = (b[n - 1] % 128) as nat;
        let p = pow128((n - 1) as nat);
        assert(d * p <= 127 * p) by (nonlinear_arith)
            requires
                d <= 127,
        ;
    }
}

/// Decodes the signed number that `b` begins with: the number and how many bytes it takes.
pub fn decode_sleb128(b: &[u8]) -> (r: Option<(i64, usize)>)
    ensures
        match r {
            Some(p) => sleb128(b@) == Some((p.0, p.1 as nat)),
            None => sleb128(b@) is None,
        },
{
    let mut acc: u128 = 0;
    let mut unit: u128 = 1;
    let mut i: usize = 0;
    while i < b.len() && i < 10
        invariant
            i <= b@.len(),
            i <= 10,
            acc == leb_bits(b@, i as nat),
            unit == pow128(i as nat),
            leb_len(b@, 0) == leb_len(b@, i as nat),
        decreases b.len() - i,
    {
        proof {
            lemma_pow128_values();
            lemma_leb_bound(b@, i as nat);
            lemma_leb_bound(b@, (i + 1) as nat);
            assert(unit <= 0x8000_0000_0000_0000);
        }
        let d: u128 = (b[i] % 128) as u128;
        assert(d * unit <= 127 * 0x8000_0000_0000_0000) by (nonlinear_arith)
            requires
                d <= 127,
                unit <= 0x8000_0000_0000_0000,
        ;
        acc = acc + d * unit;
        unit = unit * 128;
        i = i + 1;
        if b[i - 1] < 0x80 {
            assert(leb_len(b@, 0) == Some(i as nat));
            if i == 10 {
                return Some(((acc % 0x1_0000_0000_0000_0000) as u64 as i64, i));
            }
            proof {
                if i < 10 {
                    assert(unit <= 0x8000_0000_0000_0000);
                }
            }
            if b[i - 1] % 128 >= 64 {
                proof {
                    lemma_leb_top(b@, i as nat);
                    assert(acc - unit == leb_bits(b@, i as nat) - pow128(i as nat));
                }
                let v: i128 = acc as i128 - unit as i128;
                return Some((v as i64, i));
            }
            return Some((acc as i64, i));
        }
    }
    None
}

proof fn lemma_leb_top(b: Seq<u8>, n: nat)
    requires
        0 < n <= b.len(),
        b[n - 1] % 128 >= 64,
    ensures
        2 * leb_bits(b, n) >= pow128(n),
{
    let d = (b[n - 1] % 128) as nat;
    let p = pow128((n - 1) as nat);
    assert(d * p >= 64 * p) by (nonlinear_arith)
        requires
            d >= 64,
    ;
}

/// The place that a location expression stands for: an offset from the frame base, or a fixed address.
pub open spec fn var_location(a: Attr<Seq<u8>>) -> Option<VarLocation> {
    match a {
        Attr::Exprloc(b) => if b.len() > 0 && b[0] == 0x91 {
            match sleb128(b.skip(1)) {
                Some(p) => Some(VarLocation::FrameOffset(p.0)),
                None => None,
            }
        } else if b.len() >= 9 && b[0] == 0x03 {
            Some(VarLocation::Addr(bytes::le(b.subrange(1, 9)) as u64))
        } else {
            None
        },
        _ => None,
    }
}

/// The place that a location expression stands for.
pub fn parse_var_location(a: &Attr<Vec<u8>>) -> (r: Option<VarLocation>)
    ensures
        r == var_location(a.seq()),
{
    match a {
        Attr::Exprloc(b) => {
            let s: &[u8] = b.as_slice();
            let n: usize = s.len();
            if n > 0 && s[0] == 0x91 {
                let rest = vstd::slice::slice_subrange(s, 1, n);
                assert(rest@ =~= b@.skip(1));
                match decode_sleb128(rest) {
                    Some((off, _)) => Some(VarLocation::FrameOffset(off)),
                    None => None,
                }
            } else if n >= 9 && s[0] == 0x03 {
                Some(VarLocation::Addr(le_u64(vstd::slice::slice_subrange(s, 1, 9))))
            } else {
                None
            }
        },
        _ => None,
    }
}

/// The range of addresses of a function or block: the second attribute is its end or its length.
pub open spec fn pc_range(low: Attr<Seq<u8>>, high: Attr<Seq<u8>>) -> Option<(u64, u64)> {
    match low {
        Attr::Addr(l) => match high {
            Attr::Addr(h) => Some((l, h)),
            Attr::Udata(n) => Some((l, l.wrapping_add(n))),
            _ => None,
        },
        _ => None,
    }
}

/// The range of addresses of a function or block.
pub fn entry_pc_range(low: &Attr<Vec<u8>>, high: &Attr<Vec<u8>>) -> (r: Option<(u64, u64)>)
    ensures
        r == pc_range(low.seq(), high.seq()),
{
    match low {
        Attr::Addr(l) => match high {
            Attr::Addr(h) => Some((*l, *h)),
            Attr::Udata(n) => Some((*l, l.wrapping_add(*n))),
            _ => None,
        },
        _ => None,
    }
}

/// What the frame base attribute of a function says: the canonical frame address, or else the frame
/// pointer.
pub open spec fn frame_base_def(a: Attr<Seq<u8>>) -> FrameBaseDef {
    match a {
        Attr::Exprloc(b) => if b.len() > 0 && b[0] == 0x9c {
            FrameBaseDef::CallFrameCfa
        } else {
            FrameBaseDef::Register
        },
        _ => FrameBaseDef::Register,
    }
}

/// What the frame base attribute of a function says.
pub fn parse_frame_base(a: &Attr<Vec<u8>>) -> (r: FrameBaseDef)
    ensures
        r == frame_base_def(a.seq()),
{
    match a {
        Attr::Exprloc(b) => if b.len() > 0 && b[0] == 0x9c {
            FrameBaseDef::CallFrameCfa
        } else {
            FrameBaseDef::Register
        },
        _ => FrameBaseDef::Register,
    }
}

/// An entry on the way from a variable to the size of its type.
pub struct TypeDie {
    pub tag: u16,
    pub name: Option<Vec<u8>>,
    pub byte_size: Attr<Vec<u8>>,
}

/// Such an entry with its bytes as sequences.
pub struct TypeDieSeq {
    pub tag: u16,
    pub name: Option<Seq<u8>>,
    pub byte_size: Attr<Seq<u8>>,
}

impl TypeDie {
    /// The entry with its bytes as sequences.
    pub open spec fn seq(self) -> TypeDieSeq {
        TypeDieSeq { tag: self.tag, name: dwarf::opt_seq(self.name), byte_size: self.byte_size.seq() }
    }
}

/// Entries with their bytes as sequences.
pub open spec fn chain_seq(c: Seq<TypeDie>) -> Seq<TypeDieSeq> {
    c.map_values(|d: TypeDie| d.seq())
}

/// The size and the name of the type at the end of a chain of entries: the size of the first that has
/// one or is a pointer, and of the names up to there the first that is not empty. A size above eight
/// counts as eight, and so does an unknown one.
pub open spec fn type_info(chain: Seq<TypeDieSeq>, name: Seq<char>) -> (u8, Seq<char>)
    decreases chain.len(),
{
    if chain.len() == 0 {
        (8, name)
    } else {
        let d = chain[0];
        let known = match d.name {
            Some(b) => if name.len() == 0 {
                text::utf8_lossy(b)
            } else {
                name
            },
            None => name,
        };
        match d.byte_size {
            Attr::Udata(n) => (if n < 8 {
                n as u8
            } else {
                8
            }, known),
            _ => if d.tag == DW_TAG_POINTER_TYPE {
                (8, known)
            } else {
                type_info(chain.skip(1), known)
            },
        }
    }
}

/// The size and the name of the type at the end of a chain of entries.
pub fn resolve_type_info(chain: &[TypeDie]) -> (r: (u8, String))
    ensures
        (r.0, r.1@) == type_info(chain_seq(chain@), ""@),
{
    let mut name = owned("");
    let mut i: usize = 0;
    let ghost all = chain_seq(chain@);
    assert(all.skip(0) =~= all);
    while i < chain.len()
        invariant
            i <= chain@.len(),
            all == chain_seq(chain@),
            type_info(all, ""@) == type_info(all.skip(i as int), name@),
        decreases chain.len() - i,
    {
        assert(all.skip(i as int)[0] == chain@[i as int].seq());
        assert(all.skip(i as int).skip(1) =~= all.skip(i + 1));
        if name.as_str().unicode_len() == 0 {
            if let Some(b) = &chain[i].name {
                name = from_utf8_lossy(b.as_slice());
            }
        }
        if let Attr::Udata(n) = &chain[i].byte_size {
            return (if *n < 8 {
                *n as u8
            } else {
                8
            }, name);
        }
        if chain[i].tag == DW_TAG_POINTER_TYPE {
            return (8, name);
        }
        i = i + 1;
    }
    (8, name)
}

/// What the debugger reads of an entry, by its tag.
pub enum Detail {
    /// A function or a block.
    Scope { low: Attr<Vec<u8>>, high: Attr<Vec<u8>>, frame_base: Attr<Vec<u8>> },
    /// A variable or an argument.
    Variable { location: Attr<Vec<u8>>, types: Vec<TypeDie> },
    Other,
}

/// That with its bytes as sequences.
pub enum DetailSeq {
    Scope { low: Attr<Seq<u8>>, high: Attr<Seq<u8>>, frame_base: Attr<Seq<u8>> },
    Variable { location: Attr<Seq<u8>>, types: Seq<TypeDieSeq> },
    Other,
}

/// An entry of a unit.
pub struct Entry {
    /// How deep it stands; the root stands at zero.
    pub depth: isize,
    pub tag: u16,
    pub name: Option<Vec<u8>>,
    pub detail: Detail,
}

/// An entry with its bytes as sequences.
pub struct EntrySeq {
    pub depth: isize,
    pub tag: u16,
    pub name: Option<Seq<u8>>,
    pub detail: DetailSeq,
}

impl Entry {
    /// The entry with its bytes as sequences.
    pub open spec fn seq(self) -> EntrySeq {
        EntrySeq {
            depth: self.depth,
            tag: self.tag,
            name: dwarf::opt_seq(self.name),
            detail: match self.detail {
                Detail::Scope { low, high, frame_base } => DetailSeq::Scope {
                    low: low.seq(),
                    high: high.seq(),
                    frame_base: frame_base.seq(),
                },
                Detail::Variable { location, types } => DetailSeq::Variable {
                    location: location.seq(),
                    types: chain_seq(types@),
                },
                Detail::Other => DetailSeq::Other,
            },
        }
    }
}

/// Entries with their bytes as sequences.
pub open spec fn entry_seqs(v: Seq<Entry>) -> Seq<EntrySeq> {
    v.map_values(|e: Entry| e.seq())
}

/// An open scope: its depth, its range of addresses and the frame base of its function.
pub type OpenScope = (isize, (u64, u64), FrameBaseDef);

/// The scopes that are still open at `depth`.
pub open spec fn open_at(stack: Seq<OpenScope>, depth: isize) -> Seq<OpenScope>
    decreases stack.len(),
{
    if stack.len() > 0 && stack.last().0 >= depth {
        open_at(stack.drop_last(), depth)
    } else {
        stack
    }
}

/// The frame base that holds inside the scopes of `stack`.
pub open spec fn inner_frame_base(stack: Seq<OpenScope>) -> FrameBaseDef {
    if stack.len() > 0 {
        stack.last().2
    } else {
        FrameBaseDef::Register
    }
}

/// The scopes after an entry: a function or block with a range opens one. A block has the frame base of
/// what it stands in.
pub open spec fn scopes_after(stack: Seq<OpenScope>, e: EntrySeq) -> Seq<OpenScope> {
    let open = open_at(stack, e.depth);
    match e.detail {
        DetailSeq::Scope { low, high, frame_base } => match pc_range(low, high) {
            Some(range) => open.push(
                (
                    e.depth,
                    range,
                    if e.tag == DW_TAG_SUBPROGRAM {
                        frame_base_def(frame_base)
                    } else {
                        inner_frame_base(open)
                    },
                ),
            ),
            None => open,
        },
        _ => open,
    }
}

/// The variable that an entry declares inside the scopes of `open`: it needs a name and a place.
pub open spec fn declared(open: Seq<OpenScope>, e: EntrySeq) -> Option<VariableSeq> {
    match e.detail {
        DetailSeq::Variable { location, types } => match (e.name, var_location(location)) {
            (Some(name), Some(place)) => Some(
                VariableSeq {
                    name: text::utf8_lossy(name),
                    scope: if open.len() > 0 {
                        Some(open.last().1)
                    } else {
                        None
                    },
                    location: place,
                    byte_size: type_info(types, ""@).0,
                    frame_base: inner_frame_base(open),
                    is_argument: e.tag == DW_TAG_FORMAL_PARAMETER,
                },
            ),
            _ => None,
        },
        _ => None,
    }
}

/// The variables that the entries declare, in their order. Each has the innermost scope around it.
pub open spec fn variables_of(es: Seq<EntrySeq>, stack: Seq<OpenScope>) -> Seq<VariableSeq>
    decreases es.len(),
{
    if es.len() == 0 {
        Seq::empty()
    } else {
        let first = match declared(open_at(stack, es[0].depth), es[0]) {
            Some(v) => seq![v],
            None => Seq::empty(),
        };
        first + variables_of(es.skip(1), scopes_after(stack, es[0]))
    }
}

/// Closes the scopes that are not open at `depth`.
fn close_scopes(stack: &mut Vec<OpenScope>, depth: isize)
    ensures
        final(stack)@ == open_at(old(stack)@, depth),
{
    let ghost start = stack@;
    while stack.len() > 0 && stack[stack.len() - 1].0 >= depth
        invariant
            open_at(stack@, depth) == open_at(start, depth),
        decreases stack.len(),
    {
        let ghost s = stack@;
        stack.pop();
        assert(stack@ =~= s.drop_last());
    }
}

/// The variables that the entries of a unit declare.
pub fn collect_variables(es: &[Entry]) -> (r: Vec<Variable>)
    ensures
        variable_seq(r@) == variables_of(entry_seqs(es@), Seq::empty()),
{
    let mut out: Vec<Variable> = Vec::new();
    let mut stack: Vec<OpenScope> = Vec::new();
    let mut i: usize = 0;
    let ghost all = entry_seqs(es@);
    let ghost whole = variables_of(all, Seq::empty());
    assert(all.skip(0) =~= all);
    assert(stack@ =~= Seq::empty());
    assert(variable_seq(out@) + whole =~= whole);
    while i < es.len()
        invariant
            i <= es@.len(),
            all == entry_seqs(es@),
            variable_seq(out@) + variables_of(all.skip(i as int), stack@) == whole,
        decreases es.len() - i,
    {
        let ghost e = es@[i as int].seq();
        let ghost before = stack@;
        let ghost done = variable_seq(out@);
        assert(all.skip(i as int)[0] == e);
        assert(all.skip(i as int).skip(1) =~= all.skip(i + 1));
        let depth: isize = es[i].depth;
        close_scopes(&mut stack, depth);
        let ghost open = stack@;
        let inner: FrameBaseDef = if stack.len() > 0 {
            stack[stack.len() - 1].2
        } else {
            FrameBaseDef::Register
        };
        match &es[i].detail {
            Detail::Scope { low, high, frame_base } => {
                if let Some(range) = entry_pc_range(low, high) {
                    let fb: FrameBaseDef = if es[i].tag == DW_TAG_SUBPROGRAM {
                        parse_frame_base(frame_base)
                    } else {
                        inner
                    };
                    stack.push((depth, range, fb));
                }
            },
            Detail::Variable { location, types } => {
                if let Some(name) = &es[i].name {
                    if let Some(place) = parse_var_location(location) {
                        let (byte_size, _) = resolve_type_info(types.as_slice());
                        let scope: Option<(u64, u64)> = if stack.len() > 0 {
                            Some(stack[stack.len() - 1].1)
                        } else {
                            None
                        };
                        let v = Variable {
                            name: from_utf8_lossy(name.as_slice()),
                            scope,
                            location: place,
                            byte_size,
                            frame_base: inner,
                            is_argument: es[i].tag == DW_TAG_FORMAL_PARAMETER,
                        };
                        let ghost vs = v.seq();
                        out.push(v);
                        assert(variable_seq(out@) =~= done.push(vs));
                        assert(declared(open, e) == Some(vs));
                    }
                }
            },
            Detail::Other => {},
        }
        proof {
            assert(stack@ == scopes_after(before, e));
            let first = match declared(open, e) {
                Some(v) => seq![v],
                None => Seq::empty(),
            };
            assert(variable_seq(out@) =~= done + first);
            let rest = variables_of(all.skip(i + 1), stack@);
            assert(done + (first + rest) =~= variable_seq(out@) + rest);
        }
        i = i + 1;
    }
    assert(variable_seq(out@) =~= whole);
    out
}

/// What stands before the name of a type of that tag; nothing if the tag is no type's.
pub open spec fn type_prefix(tag: u16) -> Option<Seq<char>> {
    if tag == DW_TAG_BASE_TYPE {
        Some(""@)
    } else if tag == DW_TAG_TYPEDEF {
        Some("typedef "@)
    } else if tag == DW_TAG_STRUCTURE_TYPE {
        Some("struct "@)
    } else if tag == DW_TAG_UNION_TYPE {
        Some("union "@)
    } else if tag == DW_TAG_CLASS_TYPE {
        Some("class "@)
    } else if tag == DW_TAG_ENUMERATION_TYPE {
        Some("enum "@)
    } else if tag == DW_TAG_INTERFACE_TYPE {
        Some("interface "@)
    } else {
        None
    }
}

/// The name of a type of that tag with what stands before it.
pub fn format_type_name(tag: u16, name: &str) -> (r: Option<String>)
    ensures
        match r {
            Some(s) => type_prefix(tag) is Some && s@ == type_prefix(tag)->0 + name@,
            None => type_prefix(tag) is None,
        },
{
    let prefix = if tag == DW_TAG_BASE_TYPE {
        ""
    } else if tag == DW_TAG_TYPEDEF {
        "typedef "
    } else if tag == DW_TAG_STRUCTURE_TYPE {
        "struct "
    } else if tag == DW_TAG_UNION_TYPE {
        "union "
    } else if tag == DW_TAG_CLASS_TYPE {
        "class "
    } else if tag == DW_TAG_ENUMERATION_TYPE {
        "enum "
    } else if tag == DW_TAG_INTERFACE_TYPE {
        "interface "
    } else {
        return None;
    };
    let mut s = owned(prefix);
    s.append(name);
    Some(s)
}

/// The type name of an entry: it needs a name that is more than blanks, and the tag of a type.
pub open spec fn shown_type(e: EntrySeq) -> Option<Seq<char>> {
    match (e.name, type_prefix(e.tag)) {
        (Some(b), Some(prefix)) => {
            let name = text::trim(text::utf8_lossy(b));
            if name.len() > 0 {
                Some(prefix + name)
            } else {
                None
            }
        },
        _ => None,
    }
}

/// The type names of the entries.
pub open spec fn type_names_of(es: Seq<EntrySeq>) -> Set<Seq<char>> {
    Set::new(|n: Seq<char>| exists|i: int| 0 <= i < es.len() && shown_type(#[trigger] es[i]) == Some(n))
}

/// Adds the type names of the entries of a unit.
pub fn collect_type_names(es: &[Entry], names: &mut NameSet)
    requires
        old(names).sorted(),
    ensures
        final(names).sorted(),
        final(names).names() == old(names).names().union(type_names_of(entry_seqs(es@))),
{
    let ghost all = entry_seqs(es@);
    let ghost start = names.names();
    let mut i: usize = 0;
    assert(all.take(0) =~= Seq::empty());
    assert(names.names() =~= start.union(type_names_of(all.take(0))));
    while i < es.len()
        invariant
            i <= es@.len(),
            all == entry_seqs(es@),
            names.sorted(),
            names.names() == start.union(type_names_of(all.take(i as int))),
        decreases es.len() - i,
    {
        let ghost before = names.names();
        let ghost e = es@[i as int].seq();
        if let Some(b) = &es[i].name {
            let full = from_utf8_lossy(b.as_slice());
            let chars = chars_of(full.as_str());
            let trimmed = trim_chars(chars.as_slice());
            if trimmed.len() > 0 {
                let name = string_of(trimmed.as_slice());
                if let Some(t) = format_type_name(es[i].tag, name.as_str()) {
                    names.insert(t);
                }
            }
        }
        proof {
            assert(names.names() == (match shown_type(e) {
                Some(n) => before.insert(n),
                None => before,
            }));
            let p = all.take(i as int);
            let q = all.take(i + 1);
            assert(q[i as int] == e);
            assert forall|n: Seq<char>| type_names_of(q).contains(n) == (type_names_of(p).contains(n)
                || shown_type(e) == Some(n)) by {
                if type_names_of(p).contains(n) {
                    let k = choose|k: int| 0 <= k < p.len() && shown_type(#[trigger] p[k]) == Some(n);
                    assert(q[k] == p[k]);
                }
                if type_names_of(q).contains(n) {
                    let k = choose|k: int| 0 <= k < q.len() && shown_type(#[trigger] q[k]) == Some(n);
                    if k < i {
                        assert(p[k] == q[k]);
                    }
                }
            }
            assert(names.names() =~= start.union(type_names_of(q)));
        }
        i = i + 1;
    }
    assert(all.take(i as int) =~= all);
}

/// The path of a file: its name from its directory, that from the compilation directory.
pub open spec fn full_path(dir: Option<Seq<u8>>, sub: Option<Seq<u8>>, name: Seq<char>) -> Seq<char> {
    let top = match dir {
        Some(d) => path::joined(Seq::empty(), text::utf8_lossy(d)),
        None => Seq::empty(),
    };
    let inner = match sub {
        Some(d) => path::joined(top, text::utf8_lossy(d)),
        None => top,
    };
    path::joined(inner, name)
}

/// The row that is kept of a raw row: the end of a sequence, or a row with a line and a file.
pub open spec fn kept_row(r: dwarf::RawRowSeq, dir: Option<Seq<u8>>) -> Option<LineRowSeq> {
    if r.0 {
        Some(LineRowSeq::EndSequence { addr: r.1 })
    } else {
        match (r.2, r.3) {
            (Some(line), Some((Some(n), sub))) => {
                let name = text::utf8_lossy(n);
                Some(
                    LineRowSeq::Row {
                        file: match path::file_name(name) {
                            Some(f) => f,
                            None => name,
                        },
                        path: full_path(dir, sub, name),
                        line: line as u32,
                        addr: r.1,
                        prologue_end: r.4,
                    },
                )
            },
            _ => None,
        }
    }
}

/// The rows that are kept of raw rows.
pub open spec fn kept_rows(rs: Seq<dwarf::RawRowSeq>, dir: Option<Seq<u8>>) -> Seq<LineRowSeq>
    decreases rs.len(),
{
    if rs.len() == 0 {
        Seq::empty()
    } else {
        let before = kept_rows(rs.drop_last(), dir);
        match kept_row(rs.last(), dir) {
            Some(r) => before.push(r),
            None => before,
        }
    }
}

/// The row that is kept of a raw row.
pub fn keep_row(r: &RawRow, dir: Option<&[u8]>) -> (k: Option<LineRow>)
    ensures
        match k {
            Some(x) => kept_row(
                dwarf::row_seq(*r),
                match dir {
                    Some(d) => Some(d@),
                    None => None,
                },
            ) == Some(x.seq()),
            None => kept_row(
                dwarf::row_seq(*r),
                match dir {
                    Some(d) => Some(d@),
                    None => None,
                },
            ) is None,
        },
{
    if r.0 {
        return Some(LineRow::EndSequence { addr: r.1 });
    }
    let line: u64 = match r.2 {
        Some(l) => l,
        None => return None,
    };
    let (raw_name, sub) = match &r.3 {
        Some((Some(n), sub)) => (n, sub),
        _ => return None,
    };
    let name = from_utf8_lossy(raw_name.as_slice());
    let file = match file_name_of(name.as_str()) {
        Some(f) => f,
        None => owned(name.as_str()),
    };
    let mut full = String::new();
    if let Some(d) = dir {
        push_path(&mut full, from_utf8_lossy(d).as_str());
    }
    if let Some(d) = sub {
        push_path(&mut full, from_utf8_lossy(d.as_slice()).as_str());
    }
    push_path(&mut full, name.as_str());
    Some(LineRow::Row { file, path: full, line: line as u32, addr: r.1, prologue_end: r.4 })
}

/// Adds the rows that are kept of a unit's raw rows.
pub fn collect_rows(rs: &[RawRow], dir: Option<&[u8]>, out: &mut Vec<LineRow>)
    ensures
        row_seqs(final(out)@) == row_seqs(old(out)@) + kept_rows(
            rs@.map_values(|x: RawRow| dwarf::row_seq(x)),
            match dir {
                Some(d) => Some(d@),
                None => None,
            },
        ),
{
    let ghost all = rs@.map_values(|x: RawRow| dwarf::row_seq(x));
    let ghost d = match dir {
        Some(d) => Some(d@),
        None => None,
    };
    let ghost start = row_seqs(out@);
    let mut i: usize = 0;
    assert(all.take(0) =~= Seq::empty());
    assert(row_seqs(out@) =~= start + kept_rows(all.take(0), d));
    while i < rs.len()
        invariant
            i <= rs@.len(),
            all == rs@.map_values(|x: RawRow| dwarf::row_seq(x)),
            d == (match dir {
                Some(d) => Some(d@),
                None => None,
            }),
            row_seqs(out@) == start + kept_rows(all.take(i as int), d),
        decreases rs.len() - i,
    {
        let ghost before = row_seqs(out@);
        let ghost t = all.take(i + 1);
        assert(t.drop_last() =~= all.take(i as int));
        assert(t.last() == dwarf::row_seq(rs@[i as int]));
        if let Some(row) = keep_row(&rs[i], dir) {
            let ghost x = row.seq();
            out.push(row);
            assert(row_seqs(out@) =~= before.push(x));
        }
        assert(row_seqs(out@) =~= start + kept_rows(t, d));
        i = i + 1;
    }
    assert(all.take(i as int) =~= all);
}

/// The entries from a type attribute to the size of the type, at most `left` of them.
pub open spec fn type_chain(
    s: dwarf::SectionSeq,
    unit: u64,
    a: Attr<Seq<u8>>,
    left: nat,
) -> Seq<TypeDieSeq>
    decreases left,
{
    match a {
        Attr::UnitRef(o) => match dwarf::tag(s, unit, o) {
            Some(t) => if left == 0 {
                Seq::empty()
            } else {
                seq![
                    TypeDieSeq {
                        tag: t,
                        name: dwarf::attr_string(s, unit, o, DW_AT_NAME),
                        byte_size: dwarf::attr(s, unit, o, DW_AT_BYTE_SIZE),
                    },
                ] + type_chain(s, unit, dwarf::attr(s, unit, o, DW_AT_TYPE), (left - 1) as nat)
            },
            None => Seq::empty(),
        },
        _ => Seq::empty(),
    }
}

/// What the debugger reads of an entry with that tag and offset.
pub open spec fn entry_of(s: dwarf::SectionSeq, unit: u64, e: (isize, u16, u64)) -> EntrySeq {
    EntrySeq {
        depth: e.0,
        tag: e.1,
        name: dwarf::attr_string(s, unit, e.2, DW_AT_NAME),
        detail: if e.1 == DW_TAG_SUBPROGRAM || e.1 == DW_TAG_LEXICAL_BLOCK {
            DetailSeq::Scope {
                low: dwarf::attr(s, unit, e.2, DW_AT_LOW_PC),
                high: dwarf::attr(s, unit, e.2, DW_AT_HIGH_PC),
                frame_base: dwarf::attr(s, unit, e.2, DW_AT_FRAME_BASE),
            }
        } else if e.1 == DW_TAG_VARIABLE || e.1 == DW_TAG_FORMAL_PARAMETER {
            DetailSeq::Variable {
                location: dwarf::attr(s, unit, e.2, DW_AT_LOCATION),
                types: type_chain(s, unit, dwarf::attr(s, unit, e.2, DW_AT_TYPE), 8),
            }
        } else {
            DetailSeq::Other
        },
    }
}

/// The entries of a unit; none if the unit cannot be read.
pub open spec fn unit_entries(s: dwarf::SectionSeq, unit: u64) -> Seq<EntrySeq> {
    if dwarf::comp_dir(s, unit) is Some {
        dwarf::entries(s, unit).map_values(|e: (isize, u16, u64)| entry_of(s, unit, e))
    } else {
        Seq::empty()
    }
}

/// The line rows that are kept of a unit.
pub open spec fn unit_rows(s: dwarf::SectionSeq, unit: u64) -> Seq<LineRowSeq> {
    match (dwarf::comp_dir(s, unit), dwarf::rows(s, unit)) {
        (Some(d), Some(r)) => kept_rows(r, d),
        _ => Seq::empty(),
    }
}

/// The compilation directory of a unit.
pub open spec fn unit_dir(s: dwarf::SectionSeq, unit: u64) -> Option<Seq<char>> {
    match dwarf::comp_dir(s, unit) {
        Some(Some(d)) => Some(text::utf8_lossy(d)),
        _ => None,
    }
}

/// The line rows of the units, one unit behind the other.
pub open spec fn all_rows(s: dwarf::SectionSeq, us: Seq<u64>) -> Seq<LineRowSeq>
    decreases us.len(),
{
    if us.len() == 0 {
        Seq::empty()
    } else {
        all_rows(s, us.drop_last()) + unit_rows(s, us.last())
    }
}

/// The variables of the units, one unit behind the other.
pub open spec fn all_variables(s: dwarf::SectionSeq, us: Seq<u64>) -> Seq<VariableSeq>
    decreases us.len(),
{
    if us.len() == 0 {
        Seq::empty()
    } else {
        all_variables(s, us.drop_last()) + variables_of(unit_entries(s, us.last()), Seq::empty())
    }
}

/// The compilation directories of the units.
pub open spec fn all_dirs(s: dwarf::SectionSeq, us: Seq<u64>) -> Set<Seq<char>>
    decreases us.len(),
{
    if us.len() == 0 {
        Set::empty()
    } else {
        let before = all_dirs(s, us.drop_last());
        match unit_dir(s, us.last()) {
            Some(d) => before.insert(d),
            None => before,
        }
    }
}

/// The type names of the units.
pub open spec fn all_types(s: dwarf::SectionSeq, us: Seq<u64>) -> Set<Seq<char>>
    decreases us.len(),
{
    if us.len() == 0 {
        Set::empty()
    } else {
        all_types(s, us.drop_last()).union(type_names_of(unit_entries(s, us.last())))
    }
}

/// What is kept of the debug information of a file.
pub struct DebugInfo {
    pub line_rows: Vec<LineRow>,
    pub comp_dirs: NameSet,
    pub type_names: NameSet,
    pub variables: Vec<Variable>,
}

impl DebugInfo {
    /// Whether this is what is kept of the first units of the sections.
    pub open spec fn is_of(self, s: dwarf::SectionSeq, us: Seq<u64>) -> bool {
        &&& row_seqs(self.line_rows@) == all_rows(s, us)
        &&& variable_seq(self.variables@) == all_variables(s, us)
        &&& self.comp_dirs.sorted()
        &&& self.comp_dirs.names() == all_dirs(s, us)
        &&& self.type_names.sorted()
        &&& self.type_names.names() == all_types(s, us)
    }
}

/// An attribute of the entry at an offset.
fn get_attr(s: &Sections, unit: u64, entry: u64, name: u16) -> (r: Attr<Vec<u8>>)
    ensures
        r.seq() == dwarf::attr(s@, unit, entry, name),
{
    match read_attr(s, unit, entry, name) {
        Some(a) => a,
        None => Attr::Other,
    }
}

/// The entries from a type attribute to the size of the type, at most eight.
fn read_type_chain(s: &Sections, unit: u64, first: Attr<Vec<u8>>) -> (r: Vec<TypeDie>)
    ensures
        chain_seq(r@) == type_chain(s@, unit, first.seq(), 8),
{
    let mut out: Vec<TypeDie> = Vec::new();
    let ghost whole = type_chain(s@, unit, first.seq(), 8);
    let mut a: Attr<Vec<u8>> = first;
    let mut i: usize = 0;
    assert(chain_seq(out@) + whole =~= whole);
    while i < 8
        invariant
            i <= 8,
            whole == type_chain(s@, unit, first.seq(), 8),
            chain_seq(out@) + type_chain(s@, unit, a.seq(), (8 - i) as nat) == whole,
        decreases 8 - i,
    {
        let ghost done = chain_seq(out@);
        let at: Option<u64> = match &a {
            Attr::UnitRef(o) => Some(*o),
            _ => None,
        };
        let (o, t): (u64, u16) = match at {
            Some(o) => match read_tag(s, unit, o) {
                Some(t) => (o, t),
                None => {
                    assert(done + Seq::empty() =~= done);
                    return out;
                },
            },
            None => {
                assert(done + Seq::empty() =~= done);
                return out;
            },
        };
        let d = TypeDie {
            tag: t,
            name: read_attr_string(s, unit, o, DW_AT_NAME),
            byte_size: get_attr(s, unit, o, DW_AT_BYTE_SIZE),
        };
        let ghost ds = d.seq();
        out.push(d);
        a = get_attr(s, unit, o, DW_AT_TYPE);
        i = i + 1;
        proof {
            assert(chain_seq(out@) =~= done.push(ds));
            let rest = type_chain(s@, unit, a.seq(), (8 - i) as nat);
            assert(done + (seq![ds] + rest) =~= chain_seq(out@) + rest);
        }
    }
    assert(chain_seq(out@) + type_chain(s@, unit, a.seq(), 0) =~= chain_seq(out@));
    out
}

/// What the debugger reads of an entry with that tag and offset.
fn read_entry(s: &Sections, unit: u64, e: (isize, u16, u64)) -> (r: Entry)
    ensures
        r.seq() == entry_of(s@, unit, e),
{
    let detail: Detail = if e.1 == DW_TAG_SUBPROGRAM || e.1 == DW_TAG_LEXICAL_BLOCK {
        Detail::Scope {
            low: get_attr(s, unit, e.2, DW_AT_LOW_PC),
            high: get_attr(s, unit, e.2, DW_AT_HIGH_PC),
            frame_base: get_attr(s, unit, e.2, DW_AT_FRAME_BASE),
        }
    } else if e.1 == DW_TAG_VARIABLE || e.1 == DW_TAG_FORMAL_PARAMETER {
        Detail::Variable {
            location: get_attr(s, unit, e.2, DW_AT_LOCATION),
            types: read_type_chain(s, unit, get_attr(s, unit, e.2, DW_AT_TYPE)),
        }
    } else {
        Detail::Other
    };
    Entry { depth: e.0, tag: e.1, name: read_attr_string(s, unit, e.2, DW_AT_NAME), detail }
}

/// The entries of a unit.
fn read_unit_entries(s: &Sections, unit: u64) -> (r: Vec<Entry>)
    ensures
        entry_seqs(r@) == unit_entries(s@, unit),
{
    let mut out: Vec<Entry> = Vec::new();
    let raw: Vec<(isize, u16, u64)> = match read_entries(s, unit) {
        Some(v) => v,
        None => {
            assert(entry_seqs(out@) =~= Seq::empty());
            return out;
        },
    };
    let mut i: usize = 0;
    while i < raw.len()
        invariant
            i <= raw@.len(),
            out@.len() == i,
            forall|k: int| 0 <= k < i ==> (#[trigger] out@[k]).seq() == entry_of(s@, unit, raw@[k]),
        decreases raw.len() - i,
    {
        out.push(read_entry(s, unit, raw[i]));
        i = i + 1;
    }
    assert(entry_seqs(out@) =~= unit_entries(s@, unit));
    out
}

/// Adds what is kept of one more unit.
fn add_unit(s: &Sections, unit: u64, info: &mut DebugInfo, us: Ghost<Seq<u64>>)
    requires
        old(info).is_of(s@, us@),
    ensures
        final(info).is_of(s@, us@.push(unit)),
{
    let ghost next = us@.push(unit);
    assert(next.drop_last() =~= us@);
    let dir: Option<Vec<u8>> = match read_comp_dir(s, unit) {
        Some(d) => d,
        None => {
            proof {
                assert(unit_entries(s@, unit) =~= Seq::empty());
                assert(all_rows(s@, next) =~= all_rows(s@, us@));
                assert(all_variables(s@, next) =~= all_variables(s@, us@));
                assert(type_names_of(Seq::empty()) =~= Set::empty());
                assert(all_types(s@, next) =~= all_types(s@, us@));
            }
            return;
        },
    };
    if let Some(d) = &dir {
        info.comp_dirs.insert(from_utf8_lossy(d.as_slice()));
    }
    let es = read_unit_entries(s, unit);
    collect_type_names(es.as_slice(), &mut info.type_names);
    let ghost vars = variable_seq(info.variables@);
    let mut found = collect_variables(es.as_slice());
    let ghost more = variable_seq(found@);
    info.variables.append(&mut found);
    assert(variable_seq(info.variables@) =~= vars + more);
    let ghost rows = row_seqs(info.line_rows@);
    if let Some(raw) = read_rows(s, unit) {
        let d: Option<&[u8]> = match &dir {
            Some(d) => Some(d.as_slice()),
            None => None,
        };
        collect_rows(raw.as_slice(), d, &mut info.line_rows);
    } else {
        assert(rows + Seq::empty() =~= rows);
    }
}

/// What is kept of the debug information of the sections: of every unit that can be read its line rows,
/// its variables, its directory and its type names.
pub fn load_debug_info(s: &Sections) -> (r: DebugInfo)
    ensures
        r.is_of(s@, dwarf::units(s@)),
{
    let us = read_units(s);
    let mut info = DebugInfo {
        line_rows: Vec::new(),
        comp_dirs: NameSet::new(),
        type_names: NameSet::new(),
        variables: Vec::new(),
    };
    let mut i: usize = 0;
    proof {
        assert(us@.take(0) =~= Seq::empty());
        assert(row_seqs(info.line_rows@) =~= Seq::empty());
        assert(variable_seq(info.variables@) =~= Seq::empty());
    }
    while i < us.len()
        invariant
            i <= us@.len(),
            info.is_of(s@, us@.take(i as int)),
        decreases us.len() - i,
    {
        add_unit(s, us[i], &mut info, Ghost(us@.take(i as int)));
        i = i + 1;
        assert(us@.take(i - 1).push(us@[i - 1]) =~= us@.take(i as int));
    }
    assert(us@.take(i as int) =~= us@);
    info
}

} // verus!
