//! What holds of the stubs that are found in an executable: where the fields are that lead to them.
use crate::arch::Arch;
use crate::bytes;
use crate::stub_finder;
use crate::stub_finder::StubLayout;
use vstd::prelude::*;

verus! {

/// The number in the four bytes at an offset, the least significant first.
pub open spec fn word_at(data: Seq<u8>, off: int) -> nat {
    bytes::le(data.subrange(off, off + 4))
}

/// A file that does not begin with the magic of a fat file is taken as a whole.
pub proof fn law_thin_file(data: Seq<u8>, arch: Arch)
    requires
        data.len() < 8 || (bytes::be(data.subrange(0, 4)) != 0xcafe_babe && bytes::be(data.subrange(0, 4))
            != 0xcafe_babf),
    ensures
        stub_finder::thin(data, arch) == data,
{
}

/// A fat file begins with its magic and the number of its entries, and the first entry stands behind them.
/// Of the entries the first is taken that is for the architecture and lies inside the file; where there is
/// none, the whole file.
pub proof fn law_fat_file(data: Seq<u8>, arch: Arch, wide: bool, off: int, left: nat)
    requires
        data.len() >= 8,
        bytes::be(data.subrange(0, 4)) == (if wide {
            0xcafe_babfnat
        } else {
            0xcafe_babenat
        }),
        off >= 0,
    ensures
        ({
            let cpu: nat = match arch {
                Arch::X86_64 => 0x0100_0007,
                Arch::Aarch64 => 0x0100_000c,
            };
            let entry: int = if wide {
                32
            } else {
                20
            };
            let width: int = if wide {
                8
            } else {
                4
            };
            &&& stub_finder::thin(data, arch) == stub_finder::thin_from(
                data,
                wide,
                cpu,
                8,
                bytes::be(data.subrange(4, 8)),
            )
            &&& stub_finder::thin_from(data, wide, cpu, off, 0) == data
            &&& left > 0 && off + entry <= data.len() ==> ({
                let c = bytes::be(data.subrange(off, off + 4));
                let at = bytes::be(data.subrange(off + 8, off + 8 + width));
                let size = bytes::be(data.subrange(off + 8 + width, off + 8 + 2 * width));
                &&& c == cpu && at + size <= data.len() ==> stub_finder::thin_from(data, wide, cpu, off, left)
                    == data.subrange(at as int, at as int + size)
                &&& c != cpu || at + size > data.len() ==> stub_finder::thin_from(data, wide, cpu, off, left)
                    == stub_finder::thin_from(data, wide, cpu, off + entry, (left - 1) as nat)
            })
        }),
{
}

/// The load commands of a 64-bit Mach-O file begin behind its header of thirty-two bytes, which holds
/// their number at sixteen.
pub proof fn law_header(data: Seq<u8>)
    requires
        data.len() >= 32,
    ensures
        word_at(data, 0) == 0xfeed_facf ==> stub_finder::layout_of(data) == Some(
            stub_finder::with_commands(data, 32, word_at(data, 16), stub_finder::empty_layout()),
        ),
        word_at(data, 0) != 0xfeed_facf ==> stub_finder::layout_of(data) is None,
{
}

/// A load command begins with its kind and its size, and the next one stands behind it; a size of zero
/// ends them, and so does the end of the file.
pub proof fn law_commands(data: Seq<u8>, off: int, left: nat, lay: StubLayout)
    requires
        off >= 0,
        left > 0,
    ensures
        off + 8 <= data.len() && word_at(data, off + 4) != 0 ==> stub_finder::with_commands(
            data,
            off,
            left,
            lay,
        ) == stub_finder::with_commands(
            data,
            off + word_at(data, off + 4),
            (left - 1) as nat,
            stub_finder::with_command(data, off, word_at(data, off), lay),
        ),
        off + 8 <= data.len() && word_at(data, off + 4) == 0 ==> stub_finder::with_commands(
            data,
            off,
            left,
            lay,
        ) == lay,
        off + 8 > data.len() ==> stub_finder::with_commands(data, off, left, lay) == lay,
        stub_finder::with_commands(data, off, 0, lay) == lay,
{
}

/// The symbol table, the table of indirect symbols and the sections of a segment are found by their
/// commands: the fields are where the format has them, and everything else stays.
pub proof fn law_command_fields(data: Seq<u8>, off: int, lay: StubLayout, cmd: nat)
    requires
        off >= 0,
        off + 72 <= data.len(),
    ensures
        ({
            let n = stub_finder::with_command(data, off, 2, lay);
            &&& n.symoff == word_at(data, off + 8) && n.nsyms == word_at(data, off + 12) && n.stroff
                == word_at(data, off + 16)
            &&& n.indirectsymoff == lay.indirectsymoff && n.stubs_addr == lay.stubs_addr && n.stubs_size
                == lay.stubs_size && n.stubs_entry_size == lay.stubs_entry_size && n.stubs_indirect_start
                == lay.stubs_indirect_start
        }),
        stub_finder::with_command(data, off, 0xb, lay) == (StubLayout {
            indirectsymoff: word_at(data, off + 56) as u32,
            ..lay
        }),
        stub_finder::with_command(data, off, 0x19, lay) == stub_finder::with_sections(
            data,
            data.subrange(off + 8, off + 24),
            off + 72,
            word_at(data, off + 64),
            lay,
        ),
        cmd != 2 && cmd != 0xb && cmd != 0x19 ==> stub_finder::with_command(data, off, cmd, lay) == lay,
{
    bytes::lemma_le_bound(data.subrange(off + 8, off + 12));
    bytes::lemma_le_bound(data.subrange(off + 12, off + 16));
    bytes::lemma_le_bound(data.subrange(off + 16, off + 20));
    bytes::lemma_pow256_values();
}

/// Section headers of eighty bytes stand one behind the other.
pub proof fn law_sections(data: Seq<u8>, segname: Seq<u8>, off: int, left: nat, lay: StubLayout)
    ensures
        left > 0 && off + 80 <= data.len() ==> stub_finder::with_sections(data, segname, off, left, lay)
            == stub_finder::with_sections(
            data,
            segname,
            off + 80,
            (left - 1) as nat,
            stub_finder::with_section(data, segname, off, lay),
        ),
        left == 0 || off + 80 > data.len() ==> stub_finder::with_sections(data, segname, off, left, lay) == lay,
{
}

/// Whether a field begins with a text of ASCII and a zero.
pub open spec fn reads(field: Seq<u8>, name: Seq<char>) -> bool {
    &&& name.len() < field.len()
    &&& forall|i: int| 0 <= i < name.len() ==> #[trigger] field[i] as int == name[i] as int
    &&& field[name.len() as int] == 0
}

/// The section `__stubs` of the segment `__TEXT` says where the stubs are, how long they are together and
/// each, and where their indirect symbols begin. Any other section says nothing.
pub proof fn law_stub_section(data: Seq<u8>, segname: Seq<u8>, off: int, lay: StubLayout)
    requires
        off >= 0,
        off + 80 <= data.len(),
    ensures
        ({
            let text = reads(segname, "__TEXT"@) || reads(data.subrange(off + 16, off + 32), "__TEXT"@);
            let stubs = reads(data.subrange(off, off + 16), "__stubs"@);
            let n = stub_finder::with_section(data, segname, off, lay);
            &&& text && stubs ==> n.stubs_addr == bytes::le(data.subrange(off + 32, off + 40)) && n.stubs_size
                == bytes::le(data.subrange(off + 40, off + 48)) && n.stubs_indirect_start == word_at(
                data,
                off + 68,
            ) && n.stubs_entry_size == word_at(data, off + 72) && n.symoff == lay.symoff && n.nsyms
                == lay.nsyms && n.stroff == lay.stroff && n.indirectsymoff == lay.indirectsymoff
            &&& !(text && stubs) ==> n == lay
        }),
{
    reveal_strlit("__TEXT");
    reveal_strlit("__stubs");
    lemma_reads(segname, stub_finder::text_name(), "__TEXT"@);
    lemma_reads(data.subrange(off + 16, off + 32), stub_finder::text_name(), "__TEXT"@);
    lemma_reads(data.subrange(off, off + 16), stub_finder::stubs_name(), "__stubs"@);
    bytes::lemma_le_bound(data.subrange(off + 32, off + 40));
    bytes::lemma_le_bound(data.subrange(off + 40, off + 48));
    bytes::lemma_le_bound(data.subrange(off + 68, off + 72));
    bytes::lemma_le_bound(data.subrange(off + 72, off + 76));
    bytes::lemma_pow256_values();
}

proof fn lemma_reads(field: Seq<u8>, name: Seq<u8>, s: Seq<char>)
    requires
        name.len() == s.len(),
        forall|i: int| 0 <= i < name.len() ==> #[trigger] name[i] as int == s[i] as int,
    ensures
        stub_finder::names(field, name) == reads(field, s),
{
    let z = name.push(0);
    if stub_finder::names(field, name) {
        assert(z =~= field.subrange(0, z.len() as int));
        assert forall|i: int| 0 <= i < s.len() implies #[trigger] field[i] as int == s[i] as int by {
            assert(z[i] == field.subrange(0, z.len() as int)[i]);
            assert(z[i] == name[i]);
        }
        assert(z[name.len() as int] == field.subrange(0, z.len() as int)[name.len() as int]);
    }
    if reads(field, s) {
        assert(z =~= field.subrange(0, z.len() as int)) by {
            assert forall|i: int| 0 <= i < z.len() implies z[i] == field.subrange(0, z.len() as int)[i] by {
                if i < name.len() {
                    assert(field[i] as int == s[i] as int);
                    assert(name[i] as int == s[i] as int);
                }
            }
        }
    }
}

/// Stub `i` stands at `i` times the length of a stub from the first on, and its symbol is that of entry
/// `i` of the indirect symbols of the section. It is kept where its name is wanted.
pub proof fn law_stubs(
    data: Seq<u8>,
    lay: StubLayout,
    want: Seq<&str>,
    i: int,
    count: int,
    found: Map<Seq<char>, u64>,
    name: Seq<char>,
)
    requires
        0 <= i < count,
        lay.stubs_addr + i * lay.stubs_entry_size < 0x1_0000_0000_0000_0000,
    ensures
        ({
            let at = lay.indirectsymoff + 4 * (lay.stubs_indirect_start + i);
            let addr = (lay.stubs_addr + i * lay.stubs_entry_size) as u64;
            let hit = exists|j: int| 0 <= j < want.len() && (#[trigger] want[j])@ == name;
            &&& at + 4 <= data.len() && stub_finder::symbol_name(data, lay, word_at(data, at)) == Some(name)
                && hit ==> stub_finder::with_stubs(data, lay, want, i, count, found)
                == stub_finder::with_stubs(data, lay, want, i + 1, count, found.insert(name, addr))
            &&& at + 4 <= data.len() && stub_finder::symbol_name(data, lay, word_at(data, at)) == Some(name)
                && !hit ==> stub_finder::with_stubs(data, lay, want, i, count, found)
                == stub_finder::with_stubs(data, lay, want, i + 1, count, found)
            &&& at + 4 > data.len() ==> stub_finder::with_stubs(data, lay, want, i, count, found) == found
        }),
        stub_finder::with_stubs(data, lay, want, count, count, found) == found,
{
    assert(i * lay.stubs_entry_size >= 0) by (nonlinear_arith)
        requires
            i >= 0,
    ;
    assert((lay.stubs_indirect_start + i) * 4 == 4 * (lay.stubs_indirect_start + i));
}

/// The name of a symbol begins in the string table where its entry of sixteen bytes says, and ends before
/// the next zero; the underscore of C before it is left out.
pub proof fn law_symbol_names(data: Seq<u8>, lay: StubLayout, index: nat, n: int)
    requires
        index < lay.nsyms,
        lay.symoff + 16 * index + 4 <= data.len(),
        n >= 0,
        ({
            let start = lay.stroff + word_at(data, lay.symoff + 16 * index);
            &&& start + n < data.len()
            &&& data[start + n] == 0
            &&& forall|i: int| start <= i < start + n ==> #[trigger] data[i] != 0
        }),
    ensures
        ({
            let start = lay.stroff + word_at(data, lay.symoff + 16 * index);
            let b = data.subrange(start, start + n);
            let s = vstd::utf8::decode_utf8(b);
            &&& vstd::utf8::valid_utf8(b) && s.len() > 0 && s[0] == '_' ==> stub_finder::symbol_name(
                data,
                lay,
                index,
            ) == Some(s.skip(1))
            &&& vstd::utf8::valid_utf8(b) && (s.len() == 0 || s[0] != '_') ==> stub_finder::symbol_name(
                data,
                lay,
                index,
            ) == Some(s)
            &&& !vstd::utf8::valid_utf8(b) ==> stub_finder::symbol_name(data, lay, index) is None
        }),
        stub_finder::symbol_name(data, lay, lay.nsyms as nat) is None,
{
    assert(index * 16 == 16 * index);
    let start = lay.stroff + word_at(data, lay.symoff + 16 * index);
    let tail = data.skip(start);
    assert forall|i: int| 0 <= i < n implies #[trigger] tail[i] != 0 by {
        assert(tail[i] == data[start + i]);
    }
    assert(tail[n] == data[start + n]);
    assert(tail.contains(0));
    lemma_zero(tail, n);
    assert(tail.take(n) =~= data.subrange(start, start + n));
}

proof fn lemma_zero(s: Seq<u8>, n: int)
    requires
        0 <= n < s.len(),
        s[n] == 0,
        forall|i: int| 0 <= i < n ==> #[trigger] s[i] != 0,
    ensures
        stub_finder::zero_index(s) == n,
    decreases s.len(),
{
    if n > 0 {
        assert(s[0] != 0);
        let r = s.skip(1);
        assert forall|i: int| 0 <= i < n - 1 implies #[trigger] r[i] != 0 by {
            assert(r[i] == s[i + 1]);
        }
        lemma_zero(r, n - 1);
    }
}

/// As many stubs are looked at as the section has room for; without stubs, without indirect symbols and
/// without symbols there is nothing to find.
pub proof fn law_count_of_stubs(data: Seq<u8>, want: Seq<&str>, lay: StubLayout)
    requires
        stub_finder::layout_of(data) == Some(lay),
    ensures
        lay.stubs_addr != 0 && lay.stubs_entry_size != 0 && lay.indirectsymoff != 0 && lay.nsyms != 0
            ==> stub_finder::thin_stubs(data, want) == stub_finder::with_stubs(
            data,
            lay,
            want,
            0,
            (lay.stubs_size / lay.stubs_entry_size as u64) as int,
            Map::empty(),
        ),
        lay.stubs_addr == 0 || lay.stubs_entry_size == 0 || lay.indirectsymoff == 0 || lay.nsyms == 0
            ==> stub_finder::thin_stubs(data, want).dom() =~= Set::empty(),
{
}

} // verus!
