//! What holds of the calls of the kernel: what is asked, and what the answers come to.
use crate::arch::Arch;
use crate::bytes;
use crate::mach;
use crate::mach::SlotEdit;
use crate::numerals;
use crate::register::x86_64::X86DebugState64;
use crate::register::{aarch64, x86_64, Floats, Registers, WatchCondition, WatchLen};
use crate::tape::{Answer, AnsSeq, DebugSeq, Halt, Request, Rest, StopSeq};
use vstd::prelude::*;

verus! {

/// Memory is read by one request for the address and the size; nothing is asked for no bytes.
pub proof fn law_memory_is_read(t: Rest, addr: usize, size: usize)
    ensures
        size == 0 ==> mach::mem_read(t, addr, size) == (Ok::<Seq<u8>, StopSeq>(Seq::empty()), t),
        size > 0 && t.len() == 0 ==> mach::mem_read(t, addr, size).0 == Err::<Seq<u8>, StopSeq>(
            Halt::Ask(Request::Read { addr, len: size }),
        ),
        size > 0 && t.len() > 0 ==> mach::mem_read(t, addr, size).1 == t.skip(1),
        size > 0 && t.len() > 0 ==> (t[0] matches Answer::Bytes(b) ==> mach::mem_read(t, addr, size).0
            == Ok::<Seq<u8>, StopSeq>(b)),
        size > 0 && t.len() > 0 ==> (t[0] matches Answer::Failed(m) ==> mach::mem_read(t, addr, size).0
            == Err::<Seq<u8>, StopSeq>(Halt::Fail(m))),
        size > 0 && t.len() > 0 ==> (t[0] is Code ==> mach::mem_read(t, addr, size).0 matches Err(
            Halt::Fail(_),
        )),
{
}

/// A number in memory has its least significant byte first.
pub proof fn law_word_is_read(t: Rest, addr: usize, b: Seq<u8>)
    requires
        t.len() > 0 && t[0] == AnsSeq::Bytes(b),
    ensures
        b.len() >= 4 ==> mach::number_read(t, addr, 4).0 == Ok::<nat, StopSeq>(
            (b[0] + 0x100 * b[1] + 0x1_0000 * b[2] + 0x100_0000 * b[3]) as nat,
        ),
        b.len() >= 1 ==> mach::number_read(t, addr, 1).0 == Ok::<nat, StopSeq>(b[0] as nat),
        b.len() < 4 ==> mach::number_read(t, addr, 4).0 is Err,
        mach::number_read(Seq::empty(), addr, 4).0 == Err::<nat, StopSeq>(
            Halt::Ask(Request::Read { addr, len: 4 }),
        ),
        mach::number_read(Seq::empty(), addr, 1).0 == Err::<nat, StopSeq>(
            Halt::Ask(Request::Read { addr, len: 1 }),
        ),
{
    if b.len() >= 4 {
        let s = b.take(4);
        reveal_with_fuel(bytes::le, 5);
        assert(s.skip(1).skip(1).skip(1).skip(1).len() == 0);
        assert(bytes::le(s) == s[0] as nat + 256 * (s[1] as nat + 256 * (s[2] as nat + 256 * (s[3] as nat))));
    }
    if b.len() >= 1 {
        let s = b.take(1);
        reveal_with_fuel(bytes::le, 2);
        assert(s.skip(1).len() == 0);
        assert(bytes::le(s) == s[0] as nat);
    }
}

/// The page of an address holds it, begins at a multiple of the size of a page, and has four thousand and
/// ninety-six bytes on x86_64, four times as many on aarch64.
pub proof fn law_page_holds_the_address(addr: usize, host: Arch)
    ensures
        mach::page_size(host) == (if host == Arch::X86_64 {
            4096u64
        } else {
            16384u64
        }),
        mach::page_of(addr, host) <= addr,
        addr < mach::page_of(addr, host) + mach::page_size(host),
        mach::page_of(addr, host) % mach::page_size(host) == 0,
{
    let a = addr as u64;
    assert((a & !4095u64) <= a && a - (a & !4095u64) < 4096 && (a & !4095u64) % 4096 == 0) by (bit_vector);
    assert((a & !16383u64) <= a && a - (a & !16383u64) < 16384 && (a & !16383u64) % 16384 == 0)
        by (bit_vector);
}

/// Where a page can be written, what is written is the data, at the address, and the code of that write
/// decides.
pub proof fn law_write_to_writable_memory(t: Rest, addr: usize, data: Seq<u8>, host: Arch, c: i32)
    ensures
        t.len() == 0 ==> mach::mem_write(t, addr, data, host).0 == Err::<(), StopSeq>(
            Halt::Ask(Request::Region { addr: addr as u64 }),
        ),
        t.len() > 0 && (t[0] matches Answer::Region { prot, .. } && prot & 2 != 0) ==> {
            &&& t.len() == 1 ==> mach::mem_write(t, addr, data, host).0 == Err::<(), StopSeq>(
                Halt::Ask(Request::Write { addr, data }),
            )
            &&& t.len() > 1 && t[1] == AnsSeq::Code(0) ==> mach::mem_write(t, addr, data, host) == (
                Ok::<(), StopSeq>(()),
                t.skip(2),
            )
            &&& t.len() > 1 && t[1] == AnsSeq::Code(c) && c != 0 && host == Arch::X86_64
                ==> mach::mem_write(t, addr, data, host).0 matches Err(Halt::Fail(_))
        },
{
    if t.len() > 1 {
        assert(t.skip(1)[0] == t[1]);
        assert(t.skip(1).skip(1) =~= t.skip(2));
    }
}

/// Where a page cannot be written it is made writable before the write, and gets its own protection back
/// behind it: the page that holds the address, the old protection and writing, or, where the region may
/// never be written, that of a private copy. Where that is refused the write is tried all the same.
pub proof fn law_write_to_protected_memory(
    t: Rest,
    addr: usize,
    data: Seq<u8>,
    host: Arch,
    prot: i32,
    max_prot: i32,
    from: u64,
    size: u64,
)
    requires
        t.len() > 0 && t[0] == (AnsSeq::Region { addr: from, size, prot, max_prot }),
        prot & 2 == 0,
    ensures
        ({
            let page = mach::page_of(addr, host);
            let width = mach::page_size(host);
            let g = mach::mem_write(t, addr, data, host);
            &&& t.len() == 1 ==> (g.0 matches Err(Halt::Ask(Request::Protect { addr: a, size: s, prot: p }))
                && a == page && s == width && p == (if max_prot & 2 != 0 {
                prot | 2
            } else {
                0x13
            }))
            &&& t.len() == 2 && t[1] is Code ==> g.0 == Err::<(), StopSeq>(
                Halt::Ask(Request::Write { addr, data }),
            )
            &&& t.len() == 3 && t[1] == AnsSeq::Code(0) && t[2] is Code ==> g.0 == Err::<(), StopSeq>(
                Halt::Ask(Request::Protect { addr: page, size: width, prot }),
            )
            &&& t.len() >= 4 && t[1] == AnsSeq::Code(0) && t[2] == AnsSeq::Code(0) && t[3] is Code ==> g == (
                Ok::<(), StopSeq>(()),
                t.skip(4),
            )
            &&& t.len() >= 3 && (t[1] matches Answer::Code(c) && c != 0) && t[2] == AnsSeq::Code(0) ==> g == (
                Ok::<(), StopSeq>(()),
                t.skip(3),
            )
        }),
{
    assert(1i32 | 2i32 | 0x10i32 == 0x13) by (bit_vector);
    if t.len() > 1 {
        assert(t.skip(1)[0] == t[1]);
    }
    if t.len() > 2 {
        assert(t.skip(1).skip(1)[0] == t[2]);
        assert(t.skip(1).skip(1).skip(1) =~= t.skip(3));
    }
    if t.len() > 3 {
        assert(t.skip(1).skip(1).skip(1)[0] == t[3]);
        assert(t.skip(1).skip(1).skip(1).skip(1) =~= t.skip(4));
    }
}

/// Where a write fails on aarch64, a whole word of code at its place is written by the tracing interface.
pub proof fn law_code_word_is_tried(t: Rest, addr: usize, data: Seq<u8>, c: i32)
    requires
        t.len() >= 2 && (t[0] matches Answer::Region { prot, .. } && prot & 2 != 0),
        t[1] == AnsSeq::Code(c),
        c != 0,
    ensures
        data.len() == 4 && addr % 4 == 0 && t.len() == 2 ==> mach::mem_write(
            t,
            addr,
            data,
            Arch::Aarch64,
        ).0 == Err::<(), StopSeq>(
            Halt::Ask(Request::WriteCode { addr, word: bytes::le(data) as u32 }),
        ),
        data.len() == 4 && addr % 4 == 0 && t.len() > 2 && t[2] is Done ==> mach::mem_write(
            t,
            addr,
            data,
            Arch::Aarch64,
        ).0 is Ok,
        data.len() != 4 || addr % 4 != 0 ==> mach::mem_write(t, addr, data, Arch::Aarch64).0 matches Err(
            Halt::Fail(_),
        ),
{
    assert(t.skip(1)[0] == t[1]);
    if t.len() > 2 {
        assert(t.skip(1).skip(1)[0] == t[2]);
    }
}

/// The main executable is looked for region by region: it is the first that begins with the Mach-O magic,
/// and the next region is looked for behind the one that does not.
pub proof fn law_base_is_the_first_macho_region(
    t: Rest,
    addr: u64,
    left: nat,
    b: u64,
    size: u64,
    magic: Seq<u8>,
)
    requires
        left > 0,
        t.len() >= 2 && (t[0] matches Answer::Region { addr: x, size: y, .. } && x == b && y == size),
        t[1] == AnsSeq::Bytes(magic),
    ensures
        mach::base_from(Seq::empty(), addr, left).0 == Err::<u64, StopSeq>(
            Halt::Ask(Request::Region { addr }),
        ),
        mach::base_from(seq![t[0]], addr, left).0 == Err::<u64, StopSeq>(
            Halt::Ask(Request::Read { addr: b as usize, len: 4 }),
        ),
        magic == seq![0xcfu8, 0xfa, 0xed, 0xfe] ==> mach::base_from(t, addr, left) == (
            Ok::<u64, StopSeq>(b),
            t.skip(2),
        ),
        magic != seq![0xcfu8, 0xfa, 0xed, 0xfe] && size != 0 ==> mach::base_from(t, addr, left)
            == mach::base_from(t.skip(2), b.wrapping_add(size), (left - 1) as nat),
        magic != seq![0xcfu8, 0xfa, 0xed, 0xfe] && size == 0 ==> mach::base_from(t, addr, left).0 is Err,
        mach::base_from(t, addr, 0).0 matches Err(Halt::Fail(_)),
        mach::FIRST_BASE == 0x1_0000_0000,
{
    assert(t.skip(1)[0] == t[1]);
    assert(t.skip(1).skip(1) =~= t.skip(2));
    assert(seq![t[0]].skip(1).len() == 0);
}

/// The architecture is that of the `cputype` field, the four bytes behind the magic of the first of at
/// most thirty-two regions from four gigabytes on.
pub proof fn law_architecture_is_in_the_header(t: Rest, base: u64, u: Rest, field: Seq<u8>)
    requires
        mach::base_from(t, 0x1_0000_0000, 32) == (Ok::<u64, StopSeq>(base), u),
    ensures
        u.len() == 0 ==> mach::arch_read(t).0 == Err::<Arch, StopSeq>(
            Halt::Ask(Request::Read { addr: (base as usize).wrapping_add(4), len: 4 }),
        ),
        u.len() > 0 && u[0] == AnsSeq::Bytes(seq![7u8, 0, 0, 1]) ==> mach::arch_read(t) == (
            Ok::<Arch, StopSeq>(Arch::X86_64),
            u.skip(1),
        ),
        u.len() > 0 && u[0] == AnsSeq::Bytes(seq![12u8, 0, 0, 1]) ==> mach::arch_read(t) == (
            Ok::<Arch, StopSeq>(Arch::Aarch64),
            u.skip(1),
        ),
        mach::arch_read(t).0 is Ok ==> u.len() > 0 && (u[0] matches Answer::Bytes(f) && f.len() >= 4 && (
        f[0] == 7 || f[0] == 12) && f[1] == 0 && f[2] == 0 && f[3] == 1),
        mach::arch_read(Seq::empty()).0 == Err::<Arch, StopSeq>(
            Halt::Ask(Request::Region { addr: 0x1_0000_0000 }),
        ),
{
    if u.len() > 0 {
        let at = (base as usize).wrapping_add(4);
        if let Answer::Bytes(f) = u[0] {
            law_word_is_read(u, at, f);
            if f.len() >= 4 {
                let v = f[0] + 0x100 * f[1] + 0x1_0000 * f[2] + 0x100_0000 * f[3];
                assert(v == 0x0100_0007 ==> f[0] == 7 && f[1] == 0 && f[2] == 0 && f[3] == 1);
                assert(v == 0x0100_000c ==> f[0] == 12 && f[1] == 0 && f[2] == 0 && f[3] == 1);
            }
        }
    }
}

/// The registers of a thread are read and written by requests for its port; what is written are the
/// registers that are given.
pub proof fn law_thread_state_requests(
    t: Rest,
    port: u32,
    regs: Registers,
    floats: Floats,
    debug: DebugSeq,
    host: Arch,
)
    ensures
        t.len() == 0 ==> mach::regs_read(t, port).0 == Err::<Registers, StopSeq>(
            Halt::Ask(Request::GetRegisters { port }),
        ) && mach::regs_write(t, port, regs).0 == Err::<(), StopSeq>(
            Halt::Ask(Request::SetRegisters { port, regs }),
        ) && mach::floats_read(t, port).0 == Err::<Floats, StopSeq>(
            Halt::Ask(Request::GetFloats { port }),
        ) && mach::floats_write(t, port, floats).0 == Err::<(), StopSeq>(
            Halt::Ask(Request::SetFloats { port, state: floats }),
        ) && mach::debug_read(t, port, host).0 == Err::<DebugSeq, StopSeq>(
            Halt::Ask(Request::GetDebug { port }),
        ) && mach::debug_write(t, port, debug).0 == Err::<(), StopSeq>(
            Halt::Ask(Request::SetDebug { port, state: debug }),
        ),
        t.len() > 0 && t[0] == AnsSeq::Registers(regs) ==> mach::regs_read(t, port) == (
            Ok::<Registers, StopSeq>(regs),
            t.skip(1),
        ),
        t.len() > 0 && t[0] == AnsSeq::Floats(floats) ==> mach::floats_read(t, port) == (
            Ok::<Floats, StopSeq>(floats),
            t.skip(1),
        ),
        t.len() > 0 && t[0] == AnsSeq::Debug(debug) ==> mach::debug_read(t, port, host) == (
            Ok::<DebugSeq, StopSeq>(debug),
            t.skip(1),
        ),
        t.len() > 0 && t[0] == AnsSeq::Code(0) ==> mach::regs_write(t, port, regs).0 is Ok
            && mach::floats_write(t, port, floats).0 is Ok && mach::debug_write(t, port, debug).0 is Ok,
        t.len() > 0 && (t[0] matches Answer::Code(c) && c != 0) ==> mach::regs_read(t, port).0 is Err
            && mach::floats_read(t, port).0 is Err && mach::debug_read(t, port, host).0 is Err
            && mach::regs_write(t, port, regs).0 is Err && mach::floats_write(t, port, floats).0 is Err
            && mach::debug_write(t, port, debug).0 is Err,
{
}

/// A slot of a thread is changed by reading its debug registers and writing them back with that slot
/// changed.
pub proof fn law_slot_is_read_and_written(
    t: Rest,
    port: u32,
    host: Arch,
    e: SlotEdit,
    d: DebugSeq,
    n: DebugSeq,
)
    requires
        mach::edited(d, e) == Some(n),
    ensures
        mach::slot_write(Seq::empty(), port, host, e).0 == Err::<(), StopSeq>(
            Halt::Ask(Request::GetDebug { port }),
        ),
        t.len() == 1 && t[0] == AnsSeq::Debug(d) ==> mach::slot_write(t, port, host, e).0 == Err::<
            (),
            StopSeq,
        >(Halt::Ask(Request::SetDebug { port, state: n })),
        t.len() >= 2 && t[0] == AnsSeq::Debug(d) && t[1] == AnsSeq::Code(0) ==> mach::slot_write(
            t,
            port,
            host,
            e,
        ) == (Ok::<(), StopSeq>(()), t.skip(2)),
        t.len() >= 2 && t[0] == AnsSeq::Debug(d) && (t[1] matches Answer::Code(c) && c != 0)
            ==> mach::slot_write(t, port, host, e).0 matches Err(Halt::Fail(_)),
{
    if t.len() > 1 {
        assert(t.skip(1)[0] == t[1]);
        assert(t.skip(1).skip(1) =~= t.skip(2));
    }
}

/// The address register of a slot.
pub open spec fn address_register(s: X86DebugState64, slot: int) -> u64 {
    if slot == 0 {
        s.__dr0
    } else if slot == 1 {
        s.__dr1
    } else if slot == 2 {
        s.__dr2
    } else {
        s.__dr3
    }
}

/// A watchpoint on x86_64 has its address in the address register of its slot, and in the control
/// register the bit that enables it, its kind of access and its length. Clearing the slot clears all of
/// them. No other register changes.
pub proof fn law_x86_watch_slot(
    s: X86DebugState64,
    slot: usize,
    addr: usize,
    cond: WatchCondition,
    len: WatchLen,
    other: int,
)
    requires
        slot < 4,
        0 <= other < 4,
    ensures
        mach::edited(DebugSeq::X86(s), SlotEdit::SetWatch { slot, addr, cond, len }) matches Some(
            DebugSeq::X86(n),
        ) && {
            &&& address_register(n, other) == (if other == slot {
                addr as u64
            } else {
                address_register(s, other)
            })
            &&& n.__dr4 == s.__dr4 && n.__dr5 == s.__dr5 && n.__dr6 == s.__dr6
            &&& (n.__dr7 >> (2 * slot) as u64) & 3 == 1
            &&& (n.__dr7 >> (16 + 4 * slot) as u64) & 3 == (match cond {
                WatchCondition::Execute => 0u64,
                WatchCondition::Write => 1,
                WatchCondition::IoRW => 2,
                WatchCondition::ReadWrite => 3,
            })
            &&& (n.__dr7 >> (18 + 4 * slot) as u64) & 3 == (match len {
                WatchLen::Byte1 => 0u64,
                WatchLen::Word2 => 1,
                WatchLen::QWord8 => 2,
                WatchLen::Dword4 => 3,
            })
        },
        mach::edited(DebugSeq::X86(s), SlotEdit::ClearWatch { slot }) matches Some(DebugSeq::X86(n)) && {
            &&& address_register(n, other) == (if other == slot {
                0u64
            } else {
                address_register(s, other)
            })
            &&& n.__dr4 == s.__dr4 && n.__dr5 == s.__dr5 && n.__dr6 == s.__dr6
            &&& (n.__dr7 >> (2 * slot) as u64) & 3 == 0
            &&& (n.__dr7 >> (16 + 4 * slot) as u64) & 15 == 0
        },
        mach::edited(DebugSeq::X86(s), SlotEdit::SetBreak { slot, addr }) is None,
        mach::edited(DebugSeq::X86(s), SlotEdit::ClearBreak { slot }) is None,
{
    let d = s.__dr7;
    let k = slot as u64;
    let c = cond.code();
    let l = len.code();
    lemma_control_bits(d, k, c, l);
}

/// What setting and clearing a slot does to the control register.
proof fn lemma_control_bits(d: u64, k: u64, c: u64, l: u64)
    requires
        k < 4,
        c < 4,
        l < 4,
    ensures
        ({
            let w = x86_64::without_slot(d, k as usize);
            let n = x86_64::with_slot(d, k as usize, c, l);
            &&& (n >> (2 * k) as u64) & 3 == 1
            &&& (n >> (16 + 4 * k) as u64) & 3 == c
            &&& (n >> (18 + 4 * k) as u64) & 3 == l
            &&& (w >> (2 * k) as u64) & 3 == 0
            &&& (w >> (16 + 4 * k) as u64) & 15 == 0
        }),
{
    let a = (2 * k) as u64;
    let b = (16 + 4 * k) as u64;
    let e = (18 + 4 * k) as u64;
    let m = (3u64 << b) | (3u64 << e) | (3u64 << a);
    let w = d & !m;
    let n = w | (1u64 << a) | (c << b) | (l << e);
    assert((n >> a) & 3 == 1 && (n >> b) & 3 == c && (n >> e) & 3 == l && (w >> a) & 3 == 0 && (w >> b) & 15
        == 0) by (bit_vector)
        requires
            c < 4,
            l < 4,
            (a == 0 && b == 16 && e == 18) || (a == 2 && b == 20 && e == 22) || (a == 4 && b == 24 && e
                == 26) || (a == 6 && b == 28 && e == 30),
            m == (3u64 << b) | (3u64 << e) | (3u64 << a),
            w == d & !m,
            n == w | (1u64 << a) | (c << b) | (l << e),
    ;
}

/// A breakpoint on aarch64 has its address and an enabled control value in its slot; a cleared slot has
/// zeros. No other slot changes.
pub proof fn law_arm_break_slot(d: DebugSeq, slot: usize, addr: usize, other: int)
    requires
        slot < 16,
        0 <= other < 16,
        d matches DebugSeq::Arm { bvr, bcr, wvr, wcr, .. } && bvr.len() == 16 && bcr.len() == 16 && wvr.len()
            == 16 && wcr.len() == 16,
    ensures
        ({
            let n = mach::edited(d, SlotEdit::SetBreak { slot, addr })->0;
            let c = mach::edited(d, SlotEdit::ClearBreak { slot })->0;
            &&& mach::edited(d, SlotEdit::SetBreak { slot, addr }) is Some && n is Arm
            &&& mach::edited(d, SlotEdit::ClearBreak { slot }) is Some && c is Arm
            &&& n->bvr[other] == (if other == slot {
                addr as u64
            } else {
                d->bvr[other]
            })
            &&& n->bcr[other] == (if other == slot {
                0x1e5u64
            } else {
                d->bcr[other]
            })
            &&& c->bvr[other] == (if other == slot {
                0u64
            } else {
                d->bvr[other]
            })
            &&& c->bcr[other] == (if other == slot {
                0u64
            } else {
                d->bcr[other]
            })
            &&& n->wvr == d->wvr && n->wcr == d->wcr && n->mdscr_el1 == d->mdscr_el1
            &&& c->wvr == d->wvr && c->wcr == d->wcr && c->mdscr_el1 == d->mdscr_el1
        }),
{
}

/// A watchpoint on aarch64 has in its slot the beginning of the doubleword that holds its address, and a
/// control value that is enabled, for user code, stops on writes or on every access, and has one bit for
/// each byte that is watched.
pub proof fn law_arm_watch_slot(
    d: DebugSeq,
    slot: usize,
    addr: usize,
    cond: WatchCondition,
    len: WatchLen,
    other: int,
    k: u64,
)
    requires
        slot < 4,
        0 <= other < 16,
        k < 8,
        d matches DebugSeq::Arm { bvr, bcr, wvr, wcr, .. } && bvr.len() == 16 && bcr.len() == 16 && wvr.len()
            == 16 && wcr.len() == 16,
    ensures
        ({
            let n = mach::edited(d, SlotEdit::SetWatch { slot, addr, cond, len })->0;
            let c = mach::edited(d, SlotEdit::ClearWatch { slot })->0;
            let control = n->wcr[slot as int];
            &&& mach::edited(d, SlotEdit::SetWatch { slot, addr, cond, len }) is Some && n is Arm
            &&& mach::edited(d, SlotEdit::ClearWatch { slot }) is Some && c is Arm
            &&& n->wvr[slot as int] == addr - addr % 8
            &&& control & 1 == 1
            &&& (control >> 1u64) & 3 == 2
            &&& (control >> 3u64) & 3 == (if cond is Write {
                2u64
            } else {
                3u64
            })
            &&& (control >> (5 + k) as u64) & 1 == (if addr % 8 <= k < addr % 8 + len.width() {
                1u64
            } else {
                0u64
            })
            &&& c->wvr[slot as int] == 0 && c->wcr[slot as int] == 0
            &&& other != slot ==> n->wvr[other] == d->wvr[other] && n->wcr[other] == d->wcr[other]
                && c->wvr[other] == d->wvr[other] && c->wcr[other] == d->wcr[other]
            &&& n->bvr == d->bvr && n->bcr == d->bcr && c->bvr == d->bvr && c->bcr == d->bcr
        }),
{
    let a = addr as u64;
    let rw: u64 = if cond is Write {
        2
    } else {
        3
    };
    let w = len.width() as u64;
    let m = aarch64::byte_mask(w, a & 7);
    assert((a & !7u64) == a - a % 8 && (a & 7) == a % 8) by (bit_vector);
    aarch64::law_watch_mask(w, a & 7, k);
    assert(aarch64::byte_mask(w, a & 7) <= 0xff) by (bit_vector);
    let control = 1u64 | (2u64 << 1u64) | (rw << 3u64) | (m << 5u64);
    let j = (5 + k) as u64;
    assert(control & 1 == 1 && (control >> 1u64) & 3 == 2 && (control >> 3u64) & 3 == rw && (control >> j) & 1
        == (m >> k) & 1) by (bit_vector)
        requires
            rw < 4,
            m <= 0xff,
            k < 8,
            j == 5 + k,
            control == 1u64 | (2u64 << 1u64) | (rw << 3u64) | (m << 5u64),
    ;
}

/// The slots that were hit are those whose bit is set in the status register, in rising order.
pub proof fn law_hits_are_the_bits(dr6: u64, from: nat, k: usize)
    requires
        from <= 4,
    ensures
        mach::hits_from(dr6, from).contains(k) <==> from <= k < 4 && (dr6 >> (k as u64)) & 1 == 1,
        forall|i: int, j: int|
            0 <= i < j < mach::hits_from(dr6, from).len() ==> mach::hits_from(dr6, from)[i]
                < mach::hits_from(dr6, from)[j],
        forall|i: int|
            0 <= i < mach::hits_from(dr6, from).len() ==> from <= #[trigger] mach::hits_from(dr6, from)[i] < 4,
    decreases 4 - from,
{
    let s = mach::hits_from(dr6, from);
    if from < 4 {
        law_hits_are_the_bits(dr6, from + 1, k);
        let r = mach::hits_from(dr6, from + 1);
        let f = from as u64;
        assert((dr6 & (1u64 << f) != 0) == ((dr6 >> f) & 1 == 1)) by (bit_vector)
            requires
                f < 4,
        ;
        if dr6 & (1u64 << f) != 0 {
            assert(s =~= seq![from as usize] + r);
            assert(s[0] == from as usize);
            if r.contains(k) {
                let j = choose|j: int| 0 <= j < r.len() && r[j] == k;
                assert(s[j + 1] == k);
            }
            if s.contains(k) && k != from {
                let j = choose|j: int| 0 <= j < s.len() && s[j] == k;
                assert(r[j - 1] == k);
            }
            assert forall|i: int, j: int| 0 <= i < j < s.len() implies s[i] < s[j] by {
                assert(s[j] == r[j - 1]);
                if i > 0 {
                    assert(s[i] == r[i - 1]);
                }
            }
        } else {
            assert(s =~= r);
        }
    }
}

/// The status register is read and then cleared, and nothing else in the debug registers changes. What it
/// said counts whether or not it could be cleared.
pub proof fn law_hits_are_read_and_cleared(t: Rest, port: u32, s: X86DebugState64)
    requires
        t.len() > 0 && t[0] == AnsSeq::Debug(DebugSeq::X86(s)),
    ensures
        mach::hits_read(Seq::empty(), port).0 == Err::<Seq<usize>, StopSeq>(
            Halt::Ask(Request::GetDebug { port }),
        ),
        t.len() == 1 ==> mach::hits_read(t, port).0 == Err::<Seq<usize>, StopSeq>(
            Halt::Ask(
                Request::SetDebug {
                    port,
                    state: DebugSeq::X86(
                        X86DebugState64 {
                            __dr0: s.__dr0,
                            __dr1: s.__dr1,
                            __dr2: s.__dr2,
                            __dr3: s.__dr3,
                            __dr4: s.__dr4,
                            __dr5: s.__dr5,
                            __dr6: 0,
                            __dr7: s.__dr7,
                        },
                    ),
                },
            ),
        ),
        t.len() >= 2 ==> mach::hits_read(t, port) == (
            Ok::<Seq<usize>, StopSeq>(mach::hits_from(s.__dr6, 0)),
            t.skip(2),
        ),
{
    if t.len() >= 2 {
        assert(t.skip(1).skip(1) =~= t.skip(2));
    }
}

/// A kernel call that fails is told with its name and its code, and what fails otherwise with its message.
pub proof fn law_failures_are_told(t: Rest, c: i32, m: Seq<char>, addr: usize, port: u32, regs: Registers)
    requires
        t.len() > 0,
        c != 0,
    ensures
        t[0] == AnsSeq::Code(c) ==> mach::mem_read(t, addr, 1).0 == Err::<Seq<u8>, StopSeq>(
            Halt::Fail("mach_vm_read: error "@ + numerals::signed_dec(c as int)),
        ),
        t[0] == AnsSeq::Code(c) ==> mach::regs_read(t, port).0 == Err::<Registers, StopSeq>(
            Halt::Fail("thread_get_state"@ + ": mach error "@ + numerals::signed_dec(c as int)),
        ),
        t[0] == AnsSeq::Code(c) ==> mach::regs_write(t, port, regs).0 == Err::<(), StopSeq>(
            Halt::Fail("thread_set_state"@ + ": mach error "@ + numerals::signed_dec(c as int)),
        ),
        t[0] == AnsSeq::Failed(m) ==> mach::regs_read(t, port).0 == Err::<Registers, StopSeq>(Halt::Fail(m))
            && mach::regs_write(t, port, regs).0 == Err::<(), StopSeq>(Halt::Fail(m)) && mach::debug_read(
            t,
            port,
            Arch::X86_64,
        ).0 == Err::<DebugSeq, StopSeq>(Halt::Fail(m)) && mach::mem_read(t, addr, 1).0 == Err::<
            Seq<u8>,
            StopSeq,
        >(Halt::Fail(m)),
{
}

/// A write that fails is told with the code of the write, and where the page could not be made writable
/// with the code of that too.
pub proof fn law_failed_writes_are_told(t: Rest, addr: usize, data: Seq<u8>, c: i32, e: i32)
    requires
        c != 0,
        e != 0,
    ensures
        t.len() >= 2 && (t[0] matches Answer::Region { prot, .. } && prot & 2 != 0) && t[1] == AnsSeq::Code(c)
            ==> mach::mem_write(t, addr, data, Arch::X86_64).0 == Err::<(), StopSeq>(
            Halt::Fail("mach_vm_write: error "@ + numerals::signed_dec(c as int)),
        ),
        t.len() >= 3 && (t[0] matches Answer::Region { prot, .. } && prot & 2 == 0) && t[1] == AnsSeq::Code(e)
            && t[2] == AnsSeq::Code(c) ==> mach::mem_write(t, addr, data, Arch::X86_64).0 == Err::<
            (),
            StopSeq,
        >(
            Halt::Fail(
                "mach_vm_protect: error "@ + numerals::signed_dec(e as int) + " (write also failed: "@
                    + numerals::signed_dec(c as int) + ")"@,
            ),
        ),
{
    if t.len() >= 2 {
        assert(t.skip(1)[0] == t[1]);
    }
    if t.len() >= 3 {
        assert(t.skip(1).skip(1)[0] == t[2]);
    }
}

} // verus!
