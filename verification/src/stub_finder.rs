//! The addresses of the stubs through which a Mach-O executable calls outside functions, in thin
//! and in fat files.
use crate::arch::Arch;
use crate::bytes;
use crate::bytes::{get_slice, read_u32_be, read_u32_le, read_u64_be, read_u64_le, starts_with};
use crate::text::{chars_between, chars_of, from_utf8, str_eq, string_of};
use vstd::hash_map::StringHashMap;
use vstd::prelude::*;

verus! {

pub const MH_MAGIC_64: u32 = 0xFEED_FACF;

pub const FAT_MAGIC_BE: u32 = 0xCAFE_BABE;

pub const FAT_MAGIC_64_BE: u32 = 0xCAFE_BABF;

pub const LC_SYMTAB: u32 = 0x2;

pub const LC_DYSYMTAB: u32 = 0xB;

pub const LC_SEGMENT_64: u32 = 0x19;

/// Where the load commands say that the symbol table and the stubs are.
#[derive(Clone, Copy)]
pub struct StubLayout {
    pub symoff: u32,
    pub nsyms: u32,
    pub stroff: u32,
    pub indirectsymoff: u32,
    pub stubs_addr: u64,
    pub stubs_size: u64,
    pub stubs_entry_size: u32,
    pub stubs_indirect_start: u32,
}

/// A file in which no load command has been read.
pub open spec fn empty_layout() -> StubLayout {
    StubLayout {
        symoff: 0,
        nsyms: 0,
        stroff: 0,
        indirectsymoff: 0,
        stubs_addr: 0,
        stubs_size: 0,
        stubs_entry_size: 0,
        stubs_indirect_start: 0,
    }
}

/// The length of one architecture entry of a fat header.
pub open spec fn fat_entry_size(fat64: bool) -> int {
    if fat64 {
        32
    } else {
        20
    }
}

/// The part of a fat file that the architecture entry at `off` describes.
pub open spec fn fat_entry_slice(data: Seq<u8>, fat64: bool, off: int) -> Option<Seq<u8>> {
    let width = if fat64 {
        8int
    } else {
        4
    };
    match (bytes::be_at(data, off + 8, width), bytes::be_at(data, off + 8 + width, width)) {
        (Some(o), Some(s)) => bytes::slice_at(data, o as int, s as int),
        _ => None,
    }
}

/// The slice of the first of `left` entries, from the one at `off` on, that is for `cputype` and
/// lies inside the file; the whole file if there is none.
pub open spec fn thin_from(data: Seq<u8>, fat64: bool, cputype: nat, off: int, left: nat) -> Seq<u8>
    decreases left,
{
    if left == 0 {
        data
    } else {
        match bytes::be_at(data, off, 4) {
            None => data,
            Some(c) => match fat_entry_slice(data, fat64, off) {
                Some(s) if c == cputype => s,
                _ => thin_from(data, fat64, cputype, off + fat_entry_size(fat64), (left - 1) as nat),
            },
        }
    }
}

/// The part of a file that holds the program for `arch`: of a fat file the matching slice, of any
/// other file the whole.
pub open spec fn thin(data: Seq<u8>, arch: Arch) -> Seq<u8> {
    if data.len() < 8 {
        data
    } else {
        let magic = bytes::be(data.subrange(0, 4));
        if magic == FAT_MAGIC_BE || magic == FAT_MAGIC_64_BE {
            thin_from(
                data,
                magic == FAT_MAGIC_64_BE,
                arch.cpu_type() as nat,
                8,
                bytes::be(data.subrange(4, 8)),
            )
        } else {
            data
        }
    }
}

/// The part of a file that holds the program for `arch`.
pub fn get_thin_slice(data: &[u8], arch: Arch) -> (r: &[u8])
    ensures
        r@ == thin(data@, arch),
{
    if data.len() < 8 {
        return data;
    }
    let magic: u32 = match read_u32_be(data, 0) {
        Some(m) => m,
        None => return data,
    };
    if magic != FAT_MAGIC_BE && magic != FAT_MAGIC_64_BE {
        return data;
    }
    let fat64: bool = magic == FAT_MAGIC_64_BE;
    let count: u32 = match read_u32_be(data, 4) {
        Some(n) => n,
        None => return data,
    };
    let size: u128 = if fat64 {
        32
    } else {
        20
    };
    let cputype: u32 = arch.cputype();
    let mut off: u128 = 8;
    let mut i: u32 = 0;
    while i < count
        invariant
            i <= count,
            off == 8 + i * size,
            size == fat_entry_size(fat64),
            cputype == arch.cpu_type(),
            thin(data@, arch) == thin_from(
                data@,
                fat64,
                cputype as nat,
                off as int,
                (count - i) as nat,
            ),
        decreases count - i,
    {
        let c: u32 = match read_u32_be(data, off) {
            Some(v) => v,
            None => return data,
        };
        if c == cputype {
            let range: Option<(u64, u64)> = if fat64 {
                match (read_u64_be(data, off + 8), read_u64_be(data, off + 16)) {
                    (Some(o), Some(s)) => Some((o, s)),
                    _ => None,
                }
            } else {
                match (read_u32_be(data, off + 8), read_u32_be(data, off + 12)) {
                    (Some(o), Some(s)) => Some((o as u64, s as u64)),
                    _ => None,
                }
            };
            if let Some((o, s)) = range {
                if let Some(slice) = get_slice(data, o as u128, s as u128) {
                    return slice;
                }
            }
        }
        off = off + size;
        i = i + 1;
    }
    data
}

/// Whether a field that holds a name begins with `name` and the zero that ends it.
pub open spec fn names(field: Seq<u8>, name: Seq<u8>) -> bool {
    name.push(0).is_prefix_of(field)
}

/// `__TEXT`.
pub open spec fn text_name() -> Seq<u8> {
    seq![0x5f, 0x5f, 0x54, 0x45, 0x58, 0x54]
}

/// `__stubs`.
pub open spec fn stubs_name() -> Seq<u8> {
    seq![0x5f, 0x5f, 0x73, 0x74, 0x75, 0x62, 0x73]
}

/// What the section header at `off` adds: the `__stubs` section of `__TEXT` says where the stubs
/// are, how long one is, and where their indirect symbols begin.
pub open spec fn with_section(data: Seq<u8>, segname: Seq<u8>, off: int, lay: StubLayout) -> StubLayout {
    let in_text = names(segname, text_name()) || names(
        data.subrange(off + 16, off + 32),
        text_name(),
    );
    if in_text && names(data.subrange(off, off + 16), stubs_name()) {
        StubLayout {
            stubs_addr: bytes::le(data.subrange(off + 32, off + 40)) as u64,
            stubs_size: bytes::le(data.subrange(off + 40, off + 48)) as u64,
            stubs_indirect_start: bytes::le(data.subrange(off + 68, off + 72)) as u32,
            stubs_entry_size: bytes::le(data.subrange(off + 72, off + 76)) as u32,
            ..lay
        }
    } else {
        lay
    }
}

/// What `left` section headers, the first at `off`, add; those that the file cuts off add nothing.
pub open spec fn with_sections(
    data: Seq<u8>,
    segname: Seq<u8>,
    off: int,
    left: nat,
    lay: StubLayout,
) -> StubLayout
    decreases left,
{
    if left == 0 || off + 80 > data.len() {
        lay
    } else {
        with_sections(data, segname, off + 80, (left - 1) as nat, with_section(data, segname, off, lay))
    }
}

/// What the load command `cmd` at `off` adds.
pub open spec fn with_command(data: Seq<u8>, off: int, cmd: nat, lay: StubLayout) -> StubLayout {
    if cmd == LC_SYMTAB {
        match (
            bytes::le_at(data, off + 8, 4),
            bytes::le_at(data, off + 12, 4),
            bytes::le_at(data, off + 16, 4),
        ) {
            (Some(so), Some(ns), Some(st)) => StubLayout {
                symoff: so as u32,
                nsyms: ns as u32,
                stroff: st as u32,
                ..lay
            },
            _ => lay,
        }
    } else if cmd == LC_DYSYMTAB {
        match bytes::le_at(data, off + 56, 4) {
            Some(iso) => StubLayout { indirectsymoff: iso as u32, ..lay },
            None => lay,
        }
    } else if cmd == LC_SEGMENT_64 {
        match bytes::le_at(data, off + 64, 4) {
            Some(n) => with_sections(
                data,
                match bytes::slice_at(data, off + 8, 16) {
                    Some(s) => s,
                    None => Seq::empty(),
                },
                off + 72,
                n,
                lay,
            ),
            None => lay,
        }
    } else {
        lay
    }
}

/// What `left` load commands, the first at `off`, add; reading stops at the end of the file and at a
/// command of size zero.
pub open spec fn with_commands(data: Seq<u8>, off: int, left: nat, lay: StubLayout) -> StubLayout
    decreases left,
{
    if left == 0 {
        lay
    } else {
        match (bytes::le_at(data, off, 4), bytes::le_at(data, off + 4, 4)) {
            (Some(cmd), Some(size)) => if size == 0 {
                lay
            } else {
                with_commands(data, off + size, (left - 1) as nat, with_command(data, off, cmd, lay))
            },
            _ => lay,
        }
    }
}

/// The bytes from `off` up to the next zero; none where no zero follows.
pub open spec fn c_string(data: Seq<u8>, off: int) -> Seq<u8> {
    let tail = data.skip(off);
    if tail.contains(0) {
        tail.take(zero_index(tail))
    } else {
        Seq::empty()
    }
}

/// The index of the first zero of `s`, or its length.
pub open spec fn zero_index(s: Seq<u8>) -> int
    decreases s.len(),
{
    if s.len() == 0 || s[0] == 0 {
        0
    } else {
        1 + zero_index(s.skip(1))
    }
}

/// A C name in a symbol table has an underscore before it.
pub open spec fn without_underscore(s: Seq<char>) -> Seq<char> {
    if s.len() > 0 && s[0] == '_' {
        s.skip(1)
    } else {
        s
    }
}

/// The name of the symbol `index`, without its underscore; nothing if the symbol table or the
/// string table does not reach that far, or if the name is not UTF-8.
pub open spec fn symbol_name(data: Seq<u8>, lay: StubLayout, index: nat) -> Option<Seq<char>> {
    if index >= lay.nsyms {
        None
    } else {
        match bytes::le_at(data, lay.symoff + index * 16, 4) {
            None => None,
            Some(strx) => {
                let start = lay.stroff + strx;
                if start >= data.len() {
                    None
                } else {
                    let name = c_string(data, start as int);
                    if vstd::utf8::valid_utf8(name) {
                        Some(without_underscore(vstd::utf8::decode_utf8(name)))
                    } else {
                        None
                    }
                }
            },
        }
    }
}

/// Whether `name` is among the wanted names.
pub open spec fn wanted(want: Seq<&str>, name: Seq<char>) -> bool {
    exists|j: int| 0 <= j < want.len() && (#[trigger] want[j])@ == name
}

/// The address of stub `i`.
pub open spec fn stub_addr(lay: StubLayout, i: int) -> u64 {
    lay.stubs_addr.wrapping_add((i * lay.stubs_entry_size) as u64)
}

/// The wanted stubs among those from `i` up to `count`, added to `found`. Reading stops where the
/// table of indirect symbols does; of two stubs with one name the later is kept.
pub open spec fn with_stubs(
    data: Seq<u8>,
    lay: StubLayout,
    want: Seq<&str>,
    i: int,
    count: int,
    found: Map<Seq<char>, u64>,
) -> Map<Seq<char>, u64>
    decreases count - i,
{
    if i >= count {
        found
    } else {
        match bytes::le_at(data, lay.indirectsymoff + (lay.stubs_indirect_start + i) * 4, 4) {
            None => found,
            Some(index) => with_stubs(
                data,
                lay,
                want,
                i + 1,
                count,
                match symbol_name(data, lay, index) {
                    Some(n) => if wanted(want, n) {
                        found.insert(n, stub_addr(lay, i))
                    } else {
                        found
                    },
                    None => found,
                },
            ),
        }
    }
}

/// What the load commands of a thin 64-bit Mach-O file say, if it is one.
pub open spec fn layout_of(data: Seq<u8>) -> Option<StubLayout> {
    match (bytes::le_at(data, 0, 4), bytes::le_at(data, 16, 4)) {
        (Some(magic), Some(ncmds)) => if magic == MH_MAGIC_64 {
            Some(with_commands(data, 32, ncmds, empty_layout()))
        } else {
            None
        },
        _ => None,
    }
}

/// The wanted stubs of a thin 64-bit Mach-O file: their names and their addresses.
pub open spec fn thin_stubs(data: Seq<u8>, want: Seq<&str>) -> Map<Seq<char>, u64> {
    match layout_of(data) {
        None => Map::empty(),
        Some(lay) => if lay.stubs_addr == 0 || lay.stubs_entry_size == 0 || lay.indirectsymoff == 0
            || lay.nsyms == 0 {
            Map::empty()
        } else {
            with_stubs(
                data,
                lay,
                want,
                0,
                (lay.stubs_size / lay.stubs_entry_size as u64) as int,
                Map::empty(),
            )
        },
    }
}

/// Reads the section header at `off`.
fn read_section(data: &[u8], segname: &[u8], off: u128, lay: StubLayout) -> (r: StubLayout)
    requires
        off + 80 <= data@.len(),
        off <= 0x1_0000_0000_0000_0000_0000,
    ensures
        r == with_section(data@, segname@, off as int, lay),
{
    let text: [u8; 7] = [0x5f, 0x5f, 0x54, 0x45, 0x58, 0x54, 0];
    let stubs: [u8; 8] = [0x5f, 0x5f, 0x73, 0x74, 0x75, 0x62, 0x73, 0];
    assert(text@ =~= text_name().push(0));
    assert(stubs@ =~= stubs_name().push(0));
    let (sectname, sec_segname) = match (get_slice(data, off, 16), get_slice(data, off + 16, 16)) {
        (Some(a), Some(b)) => (a, b),
        _ => return lay,
    };
    let in_text: bool = starts_with(segname, &text) || starts_with(sec_segname, &text);
    if in_text && starts_with(sectname, &stubs) {
        match (
            read_u64_le(data, off + 32),
            read_u64_le(data, off + 40),
            read_u32_le(data, off + 68),
            read_u32_le(data, off + 72),
        ) {
            (Some(addr), Some(size), Some(start), Some(entry)) => StubLayout {
                stubs_addr: addr,
                stubs_size: size,
                stubs_indirect_start: start,
                stubs_entry_size: entry,
                ..lay
            },
            _ => lay,
        }
    } else {
        lay
    }
}

/// Reads the segment command at `off`.
fn read_segment(data: &[u8], off: u128, lay: StubLayout) -> (r: StubLayout)
    requires
        off <= 0x1_0000_0000_0000_0000_0000,
    ensures
        r == with_command(data@, off as int, LC_SEGMENT_64 as nat, lay),
{
    let nsects: u32 = match read_u32_le(data, off + 64) {
        Some(n) => n,
        None => return lay,
    };
    let segname: &[u8] = match get_slice(data, off + 8, 16) {
        Some(s) => s,
        None => vstd::slice::slice_subrange(data, 0, 0),
    };
    let ghost name = match bytes::slice_at(data@, off + 8, 16) {
        Some(s) => s,
        None => Seq::empty(),
    };
    assert(segname@ =~= name);
    let mut now: StubLayout = lay;
    let mut sec: u128 = off + 72;
    let mut i: u32 = 0;
    while i < nsects && sec + 80 <= data.len() as u128
        invariant
            i <= nsects,
            off <= 0x1_0000_0000_0000_0000_0000,
            sec == off + 72 + 80 * i,
            segname@ == name,
            with_sections(data@, name, off + 72, nsects as nat, lay) == with_sections(
                data@,
                name,
                sec as int,
                (nsects - i) as nat,
                now,
            ),
        decreases nsects - i,
    {
        now = read_section(data, segname, sec, now);
        sec = sec + 80;
        i = i + 1;
    }
    now
}

/// Reads the load command `cmd` at `off`.
fn read_command(data: &[u8], off: u128, cmd: u32, lay: StubLayout) -> (r: StubLayout)
    requires
        off <= 0x1_0000_0000_0000_0000_0000,
    ensures
        r == with_command(data@, off as int, cmd as nat, lay),
{
    if cmd == LC_SYMTAB {
        match (
            read_u32_le(data, off + 8),
            read_u32_le(data, off + 12),
            read_u32_le(data, off + 16),
        ) {
            (Some(so), Some(ns), Some(st)) => StubLayout { symoff: so, nsyms: ns, stroff: st, ..lay },
            _ => lay,
        }
    } else if cmd == LC_DYSYMTAB {
        match read_u32_le(data, off + 56) {
            Some(iso) => StubLayout { indirectsymoff: iso, ..lay },
            None => lay,
        }
    } else if cmd == LC_SEGMENT_64 {
        read_segment(data, off, lay)
    } else {
        lay
    }
}

/// Reads the load commands of a thin 64-bit Mach-O file.
fn read_layout(data: &[u8]) -> (r: Option<StubLayout>)
    ensures
        r == layout_of(data@),
{
    let magic: u32 = match read_u32_le(data, 0) {
        Some(m) => m,
        None => return None,
    };
    if magic != MH_MAGIC_64 {
        return None;
    }
    let ncmds: u32 = match read_u32_le(data, 16) {
        Some(n) => n,
        None => return None,
    };
    let mut lay = StubLayout {
        symoff: 0,
        nsyms: 0,
        stroff: 0,
        indirectsymoff: 0,
        stubs_addr: 0,
        stubs_size: 0,
        stubs_entry_size: 0,
        stubs_indirect_start: 0,
    };
    let mut off: u128 = 32;
    let mut i: u32 = 0;
    while i < ncmds
        invariant
            i <= ncmds,
            off <= 32 + i * 0x1_0000_0000,
            layout_of(data@) == Some(with_commands(data@, off as int, (ncmds - i) as nat, lay)),
        decreases ncmds - i,
    {
        let cmd: u32 = match read_u32_le(data, off) {
            Some(v) => v,
            None => return Some(lay),
        };
        let size: u32 = match read_u32_le(data, off + 4) {
            Some(v) => v,
            None => return Some(lay),
        };
        if size == 0 {
            return Some(lay);
        }
        lay = read_command(data, off, cmd, lay);
        off = off + size as u128;
        i = i + 1;
    }
    Some(lay)
}

/// The bytes from `off` up to the next zero.
fn read_c_string(data: &[u8], off: usize) -> (r: &[u8])
    requires
        off < data@.len(),
    ensures
        r@ == c_string(data@, off as int),
{
    let ghost tail = data@.skip(off as int);
    let n: usize = data.len();
    let mut i: usize = off;
    assert(tail.skip(0) =~= tail);
    while i < n
        invariant
            off <= i <= n,
            n == data@.len(),
            tail == data@.skip(off as int),
            zero_index(tail) == (i - off) + zero_index(tail.skip(i - off)),
            forall|k: int| 0 <= k < i - off ==> tail[k] != 0,
        decreases n - i,
    {
        if data[i] == 0 {
            assert(tail[i - off] == 0);
            assert(tail.contains(0));
            let s = vstd::slice::slice_subrange(data, off, i);
            assert(s@ =~= tail.take(i - off));
            return s;
        }
        assert(tail.skip(i - off).skip(1) =~= tail.skip(i - off + 1));
        i = i + 1;
    }
    let s = vstd::slice::slice_subrange(data, off, off);
    assert(s@ =~= Seq::empty());
    s
}

/// The name of the symbol `index`, without its underscore.
fn read_symbol_name(data: &[u8], lay: StubLayout, index: u32) -> (r: Option<String>)
    ensures
        match r {
            Some(s) => symbol_name(data@, lay, index as nat) == Some(s@),
            None => symbol_name(data@, lay, index as nat) is None,
        },
{
    if index >= lay.nsyms {
        return None;
    }
    let strx: u32 = match read_u32_le(data, lay.symoff as u128 + index as u128 * 16) {
        Some(v) => v,
        None => return None,
    };
    let start: u128 = lay.stroff as u128 + strx as u128;
    if start >= data.len() as u128 {
        return None;
    }
    let raw: String = match from_utf8(read_c_string(data, start as usize)) {
        Some(s) => s,
        None => return None,
    };
    let chars = chars_of(raw.as_str());
    if chars.len() > 0 && chars[0] == '_' {
        let rest = chars_between(chars.as_slice(), 1, chars.len());
        assert(rest@ =~= raw@.skip(1));
        Some(string_of(rest.as_slice()))
    } else {
        Some(raw)
    }
}

/// Whether `name` is among the wanted names.
fn is_wanted(want: &[&str], name: &str) -> (r: bool)
    ensures
        r == wanted(want@, name@),
{
    let mut i: usize = 0;
    while i < want.len()
        invariant
            i <= want@.len(),
            forall|j: int| 0 <= j < i ==> (#[trigger] want@[j])@ != name@,
        decreases want.len() - i,
    {
        if str_eq(want[i], name) {
            assert(want@[i as int]@ == name@);
            return true;
        }
        i = i + 1;
    }
    false
}

/// The wanted stubs of a thin 64-bit Mach-O file: their names and their addresses.
pub fn parse_thin_macho64(data: &[u8], want: &[&str]) -> (r: StringHashMap<u64>)
    ensures
        r@ == thin_stubs(data@, want@),
{
    let mut result: StringHashMap<u64> = StringHashMap::new();
    let lay: StubLayout = match read_layout(data) {
        Some(l) => l,
        None => return result,
    };
    if lay.stubs_addr == 0 || lay.stubs_entry_size == 0 || lay.indirectsymoff == 0 || lay.nsyms == 0 {
        return result;
    }
    let entry: u64 = lay.stubs_entry_size as u64;
    let count: u64 = lay.stubs_size / entry;
    let mut i: u64 = 0;
    while i < count
        invariant
            i <= count,
            entry == lay.stubs_entry_size,
            entry > 0,
            count == lay.stubs_size / entry,
            thin_stubs(data@, want@) == with_stubs(
                data@,
                lay,
                want@,
                i as int,
                count as int,
                result@,
            ),
        decreases count - i,
    {
        let at: u128 = lay.indirectsymoff as u128 + (lay.stubs_indirect_start as u128 + i as u128) * 4;
        let index: u32 = match read_u32_le(data, at) {
            Some(v) => v,
            None => return result,
        };
        if let Some(name) = read_symbol_name(data, lay, index) {
            if is_wanted(want, name.as_str()) {
                assert(i * entry <= lay.stubs_size) by (nonlinear_arith)
                    requires
                        i <= count,
                        count == lay.stubs_size / entry,
                        entry > 0,
                ;
                let addr: u64 = lay.stubs_addr.wrapping_add(i * entry);
                result.insert(name, addr);
            }
        }
        i = i + 1;
    }
    result
}

/// The wanted stubs of the program for `arch` in an executable: their names and their addresses.
pub fn find_stubs(data: &[u8], want: &[&str], arch: Arch) -> (r: StringHashMap<u64>)
    ensures
        r@ == thin_stubs(thin(data@, arch), want@),
{
    parse_thin_macho64(get_thin_slice(data, arch), want)
}

proof fn lemma_stubs_only_wanted(
    data: Seq<u8>,
    lay: StubLayout,
    want: Seq<&str>,
    i: int,
    count: int,
    found: Map<Seq<char>, u64>,
    name: Seq<char>,
)
    requires
        0 <= i,
        found.contains_key(name) ==> wanted(want, name) && is_stub(lay, count, found[name]),
    ensures
        with_stubs(data, lay, want, i, count, found).contains_key(name) ==> wanted(want, name)
            && is_stub(lay, count, with_stubs(data, lay, want, i, count, found)[name]),
    decreases count - i,
{
    if i < count {
        match bytes::le_at(data, lay.indirectsymoff + (lay.stubs_indirect_start + i) * 4, 4) {
            None => {},
            Some(index) => {
                assert(is_stub(lay, count, stub_addr(lay, i)));
                let next = match symbol_name(data, lay, index) {
                    Some(n) => if wanted(want, n) {
                        found.insert(n, stub_addr(lay, i))
                    } else {
                        found
                    },
                    None => found,
                };
                lemma_stubs_only_wanted(data, lay, want, i + 1, count, next, name);
            },
        }
    }
}

/// Whether `addr` is the address of one of the first `count` stubs.
pub open spec fn is_stub(lay: StubLayout, count: int, addr: u64) -> bool {
    exists|i: int| 0 <= i < count && addr == #[trigger] stub_addr(lay, i)
}

/// Only wanted names are found, and each at the address of a stub of the `__stubs` section.
pub proof fn law_stubs_are_wanted(data: Seq<u8>, want: Seq<&str>, name: Seq<char>)
    requires
        thin_stubs(data, want).contains_key(name),
    ensures
        wanted(want, name),
        layout_of(data) is Some,
        is_stub(
            layout_of(data)->0,
            (layout_of(data)->0.stubs_size / layout_of(data)->0.stubs_entry_size as u64) as int,
            thin_stubs(data, want)[name],
        ),
{
    let lay = layout_of(data)->0;
    lemma_stubs_only_wanted(
        data,
        lay,
        want,
        0,
        (lay.stubs_size / lay.stubs_entry_size as u64) as int,
        Map::empty(),
        name,
    );
}

} // verus!
