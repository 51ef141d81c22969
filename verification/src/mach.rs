//! Memory, registers and debug registers of the debugged process, by kernel calls.
use crate::arch::Arch;
use crate::bytes;
use crate::bytes::{copy_bytes, le_u64, u64_to_le};
use crate::numerals;
use crate::numerals::{push_hex_wide, push_signed};
use crate::register::aarch64;
use crate::register::aarch64::{wcr_encode, ArmDebugState64, HW_BP_BCR_ENABLE};
use crate::register::x86_64;
use crate::register::x86_64::{dr7_clear_slot, dr7_set_slot, X86DebugState64};
use crate::register::{Floats, Registers, WatchCondition, WatchLen};
use crate::tape;
use crate::tape::{
    kernel_failure, unfit_stop, Answer, DebugSeq, DebugState, Got, Halt, Request, Rest, Stop, StopSeq,
    Tape,
};
use crate::text::owned;
use vstd::prelude::*;

verus! {

pub const VM_PROT_READ: i32 = 0x01;

pub const VM_PROT_WRITE: i32 = 0x02;

pub const VM_PROT_COPY: i32 = 0x10;

/// The size of a page.
pub open spec fn page_size(host: Arch) -> u64 {
    match host {
        Arch::X86_64 => 4096,
        Arch::Aarch64 => 16384,
    }
}

/// The beginning of the page of an address.
pub open spec fn page_of(addr: usize, host: Arch) -> u64 {
    (addr as u64) & !((page_size(host) - 1) as u64)
}

/// A message with the code of a kernel call.
pub open spec fn coded(text: Seq<char>, code: i32) -> Seq<char> {
    text + numerals::signed_dec(code as int)
}

/// A message with the code of a kernel call.
fn coded_message(text: &str, code: i32) -> (r: String)
    ensures
        r@ == coded(text@, code),
{
    let mut m = owned(text);
    push_signed(&mut m, code as i64);
    m
}

/// Reads `size` bytes at `addr`; fewer may come.
pub open spec fn mem_read(t: Rest, addr: usize, size: usize) -> Got<Seq<u8>> {
    if size == 0 {
        (Ok(Seq::empty()), t)
    } else {
        match tape::ask(t, Request::Read { addr, len: size }) {
            (Ok(a), u) => (
                match a {
                    Answer::Bytes(b) => Ok(b),
                    Answer::Code(c) => Err(Halt::Fail(coded("mach_vm_read: error "@, c))),
                    Answer::Failed(m) => Err(Halt::Fail(m)),
                    _ => tape::unfit(),
                },
                u,
            ),
            (Err(h), u) => (Err(h), u),
        }
    }
}

/// Reads `size` bytes at `addr`; fewer may come.
pub fn read_memory(io: &mut Tape, addr: usize, size: usize) -> (r: Result<Vec<u8>, Stop>)
    ensures
        (tape::step_bytes(r), final(io)@) == mem_read(old(io)@, addr, size),
{
    if size == 0 {
        let v: Vec<u8> = Vec::new();
        assert(v@ =~= Seq::empty());
        return Ok(v);
    }
    match io.ask(Request::Read { addr, len: size }) {
        Ok(Answer::Bytes(b)) => Ok(b),
        Ok(Answer::Code(c)) => Err(Halt::Fail(coded_message("mach_vm_read: error ", c))),
        Ok(Answer::Failed(m)) => Err(Halt::Fail(m)),
        Ok(_) => Err(unfit_stop()),
        Err(h) => Err(h),
    }
}

/// Asks for a kernel call whose code decides what comes next.
pub open spec fn ask_code(t: Rest, r: tape::ReqSeq) -> Got<i32> {
    match tape::ask(t, r) {
        (Ok(Answer::Code(c)), u) => (Ok(c), u),
        (Ok(Answer::Failed(m)), u) => (Err(Halt::Fail(m)), u),
        (Ok(_), u) => (tape::unfit(), u),
        (Err(h), u) => (Err(h), u),
    }
}

/// Asks for a kernel call whose code decides what comes next.
fn ask_for_code(io: &mut Tape, r: tape::Req) -> (a: Result<i32, Stop>)
    ensures
        (tape::step(a), final(io)@) == ask_code(old(io)@, r.seq()),
{
    match io.ask(r) {
        Ok(Answer::Code(c)) => Ok(c),
        Ok(Answer::Failed(m)) => Err(Halt::Fail(m)),
        Ok(_) => Err(unfit_stop()),
        Err(h) => Err(h),
    }
}

/// The region at or above an address: its beginning, its size, its protection and the most that it may
/// have.
pub open spec fn region(t: Rest, addr: u64) -> Got<(u64, u64, i32, i32)> {
    match tape::ask(t, Request::Region { addr }) {
        (Ok(a), u) => (
            match a {
                Answer::Region { addr: b, size, prot, max_prot } => Ok((b, size, prot, max_prot)),
                Answer::Code(c) => Err(Halt::Fail(coded("mach_vm_region: error "@, c))),
                Answer::Failed(m) => Err(Halt::Fail(m)),
                _ => tape::unfit(),
            },
            u,
        ),
        (Err(h), u) => (Err(h), u),
    }
}

/// The region at or above an address.
fn get_region(io: &mut Tape, addr: u64) -> (r: Result<(u64, u64, i32, i32), Stop>)
    ensures
        (tape::step(r), final(io)@) == region(old(io)@, addr),
{
    match io.ask(Request::Region { addr }) {
        Ok(Answer::Region { addr: b, size, prot, max_prot }) => Ok((b, size, prot, max_prot)),
        Ok(Answer::Code(c)) => Err(Halt::Fail(coded_message("mach_vm_region: error ", c))),
        Ok(Answer::Failed(m)) => Err(Halt::Fail(m)),
        Ok(_) => Err(unfit_stop()),
        Err(h) => Err(h),
    }
}

/// The protection under which a page can be written: the old one and writing, or where the region may
/// never be written that of a private copy.
pub open spec fn write_prot(prot: i32, max_prot: i32) -> i32 {
    if max_prot & VM_PROT_WRITE != 0 {
        prot | VM_PROT_WRITE
    } else {
        VM_PROT_READ | VM_PROT_WRITE | VM_PROT_COPY
    }
}

/// Whether code can be written word by word there.
pub open spec fn is_code_word(addr: usize, data: Seq<u8>, host: Arch) -> bool {
    host == Arch::Aarch64 && data.len() == 4 && addr % 4 == 0
}

/// The end of a write whose code is `ret`: where it failed a word of code is tried by the tracing
/// interface; else the failure says whether the page could be made writable. `refused` is the code with
/// which that was refused.
pub open spec fn write_end(
    t: Rest,
    addr: usize,
    data: Seq<u8>,
    host: Arch,
    ret: i32,
    refused: Option<i32>,
) -> Got<()> {
    let error = Err(
        Halt::Fail(
            match refused {
                Some(c) => coded("mach_vm_protect: error "@, c) + " (write also failed: "@
                    + numerals::signed_dec(ret as int) + ")"@,
                None => coded("mach_vm_write: error "@, ret),
            },
        ),
    );
    if ret == 0 {
        (Ok(()), t)
    } else if is_code_word(addr, data, host) {
        match tape::ask_traced(t, Request::WriteCode { addr, word: bytes::le(data) as u32 }) {
            (Ok(_), u) => (Ok(()), u),
            (Err(Halt::Ask(q)), u) => (Err(Halt::Ask(q)), u),
            (Err(_), u) => (error, u),
        }
    } else {
        (error, t)
    }
}

/// Writes at `addr`. A page that cannot be written is made writable for the time; where that is refused
/// the write is tried all the same.
pub open spec fn mem_write(t: Rest, addr: usize, data: Seq<u8>, host: Arch) -> Got<()> {
    let page = page_of(addr, host);
    let size = page_size(host);
    match region(t, addr as u64) {
        (Err(h), u) => (Err(h), u),
        (Ok((_, _, prot, max_prot)), u) => if prot & VM_PROT_WRITE != 0 {
            match ask_code(u, Request::Write { addr, data }) {
                (Err(h), v) => (Err(h), v),
                (Ok(ret), v) => write_end(v, addr, data, host, ret, None),
            }
        } else {
            match ask_code(
                u,
                Request::Protect { addr: page, size, prot: write_prot(prot, max_prot) },
            ) {
                (Err(h), v) => (Err(h), v),
                (Ok(c), v) => match ask_code(v, Request::Write { addr, data }) {
                    (Err(h), w) => (Err(h), w),
                    (Ok(ret), w) => if c == 0 {
                        match ask_code(w, Request::Protect { addr: page, size, prot }) {
                            (Err(h), x) => (Err(h), x),
                            (Ok(_), x) => write_end(x, addr, data, host, ret, None),
                        }
                    } else {
                        write_end(w, addr, data, host, ret, Some(c))
                    },
                },
            }
        },
    }
}

/// The end of a write whose code is `ret`.
fn finish_write(
    io: &mut Tape,
    addr: usize,
    data: &[u8],
    host: Arch,
    ret: i32,
    refused: Option<i32>,
) -> (r: Result<(), Stop>)
    ensures
        (tape::step(r), final(io)@) == write_end(old(io)@, addr, data@, host, ret, refused),
{
    if ret == 0 {
        return Ok(());
    }
    if host == Arch::Aarch64 && data.len() == 4 && addr % 4 == 0 {
        proof {
            bytes::lemma_le_bound(data@);
            bytes::lemma_pow256_values();
        }
        let word: u32 = le_u64(data) as u32;
        match io.ask_traced(Request::WriteCode { addr, word }) {
            Ok(_) => {
                return Ok(());
            },
            Err(Halt::Ask(q)) => {
                return Err(Halt::Ask(q));
            },
            Err(_) => {},
        }
    }
    let m: String = match refused {
        Some(c) => {
            let mut m = coded_message("mach_vm_protect: error ", c);
            m.append(" (write also failed: ");
            push_signed(&mut m, ret as i64);
            m.append(")");
            m
        },
        None => coded_message("mach_vm_write: error ", ret),
    };
    Err(Halt::Fail(m))
}

/// Writes at `addr`.
pub fn write_memory(io: &mut Tape, addr: usize, data: &[u8], host: Arch) -> (r: Result<(), Stop>)
    ensures
        (tape::step(r), final(io)@) == mem_write(old(io)@, addr, data@, host),
{
    let size: u64 = match host {
        Arch::X86_64 => 4096,
        Arch::Aarch64 => 16384,
    };
    let page: u64 = (addr as u64) & !(size - 1);
    let (_, _, prot, max_prot) = match get_region(io, addr as u64) {
        Ok(p) => p,
        Err(h) => return Err(h),
    };
    let mut refused: Option<i32> = None;
    let closed: bool = prot & VM_PROT_WRITE == 0;
    if closed {
        let open: i32 = if max_prot & VM_PROT_WRITE != 0 {
            prot | VM_PROT_WRITE
        } else {
            VM_PROT_READ | VM_PROT_WRITE | VM_PROT_COPY
        };
        match ask_for_code(io, Request::Protect { addr: page, size, prot: open }) {
            Ok(c) => {
                if c != 0 {
                    refused = Some(c);
                }
            },
            Err(h) => return Err(h),
        }
    }
    let ret: i32 = match ask_for_code(io, Request::Write { addr, data: copy_bytes(data) }) {
        Ok(c) => c,
        Err(h) => return Err(h),
    };
    if closed && refused.is_none() {
        if let Err(h) = ask_for_code(io, Request::Protect { addr: page, size, prot }) {
            return Err(h);
        }
    }
    finish_write(io, addr, data, host, ret, refused)
}

/// A number of `n` bytes at `addr`.
pub open spec fn number_read(t: Rest, addr: usize, n: usize) -> Got<nat> {
    match mem_read(t, addr, n) {
        (Ok(b), u) => (
            if b.len() >= n {
                Ok(bytes::le(b.take(n as int)))
            } else {
                tape::unfit()
            },
            u,
        ),
        (Err(h), u) => (Err(h), u),
    }
}

/// A number of at most eight bytes at `addr`.
pub fn read_number_at(io: &mut Tape, addr: usize, n: usize) -> (r: Result<u64, Stop>)
    requires
        n <= 8,
    ensures
        match r {
            Ok(v) => number_read(old(io)@, addr, n) == (Ok::<nat, StopSeq>(v as nat), final(io)@) && v
                < bytes::pow256(n as nat),
            Err(h) => number_read(old(io)@, addr, n) == (Err::<nat, StopSeq>(h.seq()), final(io)@),
        },
{
    match read_memory(io, addr, n) {
        Ok(b) => if b.len() >= n {
            let s = vstd::slice::slice_subrange(b.as_slice(), 0, n);
            assert(s@ =~= b@.take(n as int));
            proof {
                bytes::lemma_le_bound(s@);
            }
            Ok(le_u64(s))
        } else {
            Err(unfit_stop())
        },
        Err(h) => Err(h),
    }
}

/// The four bytes at `addr` as a number.
pub fn read_word(io: &mut Tape, addr: usize) -> (r: Result<u32, Stop>)
    ensures
        match r {
            Ok(v) => number_read(old(io)@, addr, 4) == (Ok::<nat, StopSeq>(v as nat), final(io)@),
            Err(h) => number_read(old(io)@, addr, 4) == (Err::<nat, StopSeq>(h.seq()), final(io)@),
        },
{
    proof {
        bytes::lemma_pow256_values();
    }
    match read_number_at(io, addr, 4) {
        Ok(v) => Ok(v as u32),
        Err(h) => Err(h),
    }
}

/// The byte at `addr`.
pub fn read_byte(io: &mut Tape, addr: usize) -> (r: Result<u8, Stop>)
    ensures
        match r {
            Ok(v) => number_read(old(io)@, addr, 1) == (Ok::<nat, StopSeq>(v as nat), final(io)@),
            Err(h) => number_read(old(io)@, addr, 1) == (Err::<nat, StopSeq>(h.seq()), final(io)@),
        },
{
    proof {
        bytes::lemma_pow256_values();
    }
    match read_number_at(io, addr, 1) {
        Ok(v) => Ok(v as u8),
        Err(h) => Err(h),
    }
}

/// Writes a number in four bytes at `addr`.
pub fn write_word(io: &mut Tape, addr: usize, value: u32, host: Arch) -> (r: Result<(), Stop>)
    ensures
        (tape::step(r), final(io)@) == mem_write(
            old(io)@,
            addr,
            bytes::le_bytes(value as nat, 4),
            host,
        ),
{
    let b = u64_to_le(value as u64, 4);
    write_memory(io, addr, b.as_slice(), host)
}

/// Writes a byte at `addr`.
pub fn write_byte(io: &mut Tape, addr: usize, value: u8, host: Arch) -> (r: Result<(), Stop>)
    ensures
        (tape::step(r), final(io)@) == mem_write(old(io)@, addr, seq![value], host),
{
    let b = [value];
    assert(b@ =~= seq![value]);
    write_memory(io, addr, &b, host)
}

/// Where the search for the main executable begins.
pub const FIRST_BASE: u64 = 0x1_0000_0000;

/// The first four bytes of a 64-bit Mach-O file.
pub open spec fn macho_magic() -> Seq<u8> {
    seq![0xcfu8, 0xfa, 0xed, 0xfe]
}

/// The first of at most `left` regions from `addr` on that begins with the Mach-O magic.
pub open spec fn base_from(t: Rest, addr: u64, left: nat) -> Got<u64>
    decreases left,
{
    let none = Err(Halt::Fail("main executable base not found"@));
    if left == 0 {
        (none, t)
    } else {
        match region(t, addr) {
            (Err(Halt::Ask(q)), u) => (Err(Halt::Ask(q)), u),
            (Err(_), u) => (none, u),
            (Ok((b, size, _, _)), u) => match mem_read(u, b as usize, 4) {
                (Err(Halt::Ask(q)), v) => (Err(Halt::Ask(q)), v),
                (r, v) => if r == Ok::<Seq<u8>, StopSeq>(macho_magic()) {
                    (Ok(b), v)
                } else if size == 0 {
                    (none, v)
                } else {
                    base_from(v, b.wrapping_add(size), (left - 1) as nat)
                },
            },
        }
    }
}

/// The address at which the main executable is loaded: the first of 32 regions that begins with the
/// Mach-O magic.
pub fn get_text_base(io: &mut Tape) -> (r: Result<u64, Stop>)
    ensures
        (tape::step(r), final(io)@) == base_from(old(io)@, FIRST_BASE, 32),
{
    let mut addr: u64 = FIRST_BASE;
    let mut i: usize = 0;
    let ghost whole = base_from(io@, FIRST_BASE, 32);
    while i < 32
        invariant
            i <= 32,
            whole == base_from(old(io)@, FIRST_BASE, 32),
            whole == base_from(io@, addr, (32 - i) as nat),
        decreases 32 - i,
    {
        let (b, size): (u64, u64) = match get_region(io, addr) {
            Ok(p) => (p.0, p.1),
            Err(Halt::Ask(q)) => return Err(Halt::Ask(q)),
            Err(_) => return Err(Halt::Fail(owned("main executable base not found"))),
        };
        match read_memory(io, b as usize, 4) {
            Ok(m) => {
                if m.len() == 4 && m[0] == 0xcf && m[1] == 0xfa && m[2] == 0xed && m[3] == 0xfe {
                    assert(m@ =~= macho_magic());
                    return Ok(b);
                }
            },
            Err(Halt::Ask(q)) => return Err(Halt::Ask(q)),
            Err(_) => {},
        }
        if size == 0 {
            return Err(Halt::Fail(owned("main executable base not found")));
        }
        addr = b.wrapping_add(size);
        i = i + 1;
    }
    Err(Halt::Fail(owned("main executable base not found")))
}

/// The architecture that the header of the main executable names.
pub open spec fn arch_read(t: Rest) -> Got<Arch> {
    match base_from(t, FIRST_BASE, 32) {
        (Err(h), u) => (Err(h), u),
        (Ok(base), u) => match number_read(u, (base as usize).wrapping_add(4), 4) {
            (Err(h), v) => (Err(h), v),
            (Ok(c), v) => (
                if c == Arch::X86_64.cpu_type() {
                    Ok(Arch::X86_64)
                } else if c == Arch::Aarch64.cpu_type() {
                    Ok(Arch::Aarch64)
                } else {
                    Err(
                        Halt::Fail(
                            "unknown cpu_type in Mach-O header: "@ + numerals::hex_wide(c, 8),
                        ),
                    )
                },
                v,
            ),
        },
    }
}

/// The architecture that the header of the main executable names.
pub fn detect_arch(io: &mut Tape) -> (r: Result<Arch, Stop>)
    ensures
        (tape::step(r), final(io)@) == arch_read(old(io)@),
{
    let base: u64 = match get_text_base(io) {
        Ok(b) => b,
        Err(h) => return Err(h),
    };
    let c: u32 = match read_word(io, (base as usize).wrapping_add(4)) {
        Ok(c) => c,
        Err(h) => return Err(h),
    };
    match Arch::from_cputype(c) {
        Some(a) => Ok(a),
        None => {
            assert(Arch::X86_64.cpu_type() != c && Arch::Aarch64.cpu_type() != c);
            let mut m = owned("unknown cpu_type in Mach-O header: ");
            push_hex_wide(&mut m, c as u64, 8);
            Err(Halt::Fail(m))
        },
    }
}

/// The general-purpose registers of a thread.
pub open spec fn regs_read(t: Rest, port: u32) -> Got<Registers> {
    match tape::ask(t, Request::GetRegisters { port }) {
        (Ok(Answer::Registers(r)), u) => (Ok(r), u),
        (Ok(a), u) => (tape::kernel_error(a, "thread_get_state"@), u),
        (Err(h), u) => (Err(h), u),
    }
}

/// The general-purpose registers of a thread.
pub fn get_registers(io: &mut Tape, port: u32) -> (r: Result<Registers, Stop>)
    ensures
        (tape::step(r), final(io)@) == regs_read(old(io)@, port),
{
    match io.ask(Request::GetRegisters { port }) {
        Ok(Answer::Registers(r)) => Ok(r),
        Ok(a) => Err(kernel_failure(a, "thread_get_state")),
        Err(h) => Err(h),
    }
}

/// Sets the general-purpose registers of a thread.
pub open spec fn regs_write(t: Rest, port: u32, regs: Registers) -> Got<()> {
    tape::ask_kernel(t, Request::SetRegisters { port, regs }, "thread_set_state"@)
}

/// Sets the general-purpose registers of a thread.
pub fn set_registers(io: &mut Tape, port: u32, regs: Registers) -> (r: Result<(), Stop>)
    ensures
        (tape::step(r), final(io)@) == regs_write(old(io)@, port, regs),
{
    io.ask_kernel(Request::SetRegisters { port, regs }, "thread_set_state")
}

/// The floating-point and vector registers of a thread.
pub open spec fn floats_read(t: Rest, port: u32) -> Got<Floats> {
    match tape::ask(t, Request::GetFloats { port }) {
        (Ok(Answer::Floats(f)), u) => (Ok(f), u),
        (Ok(a), u) => (tape::kernel_error(a, "thread_get_state (float)"@), u),
        (Err(h), u) => (Err(h), u),
    }
}

/// The floating-point and vector registers of a thread.
pub fn get_float_registers(io: &mut Tape, port: u32) -> (r: Result<Floats, Stop>)
    ensures
        (tape::step(r), final(io)@) == floats_read(old(io)@, port),
{
    match io.ask(Request::GetFloats { port }) {
        Ok(Answer::Floats(f)) => Ok(f),
        Ok(a) => Err(kernel_failure(a, "thread_get_state (float)")),
        Err(h) => Err(h),
    }
}

/// Sets the floating-point and vector registers of a thread.
pub open spec fn floats_write(t: Rest, port: u32, state: Floats) -> Got<()> {
    tape::ask_kernel(t, Request::SetFloats { port, state }, "thread_set_state (float)"@)
}

/// Sets the floating-point and vector registers of a thread.
pub fn set_float_registers(io: &mut Tape, port: u32, state: Floats) -> (r: Result<(), Stop>)
    ensures
        (tape::step(r), final(io)@) == floats_write(old(io)@, port, state),
{
    io.ask_kernel(Request::SetFloats { port, state }, "thread_set_state (float)")
}

/// What is said where the debug registers cannot be read.
pub open spec fn debug_read_error(host: Arch, code: i32) -> Seq<char> {
    match host {
        Arch::X86_64 => coded("thread_get_state (x86_DEBUG_STATE64): mach error "@, code)
            + " — デバッグレジスタへのアクセスには cs.debugger エンタイトルメントが必要です。`make sign` を実行してデバッガーに署名してください。Apple Silicon + Rosetta 2 環境では x86 デバッグレジスタは使用できません。"@,
        Arch::Aarch64 => coded("thread_get_state (debug): mach error "@, code),
    }
}

/// The debug registers of a thread.
pub open spec fn debug_read(t: Rest, port: u32, host: Arch) -> Got<DebugSeq> {
    match tape::ask(t, Request::GetDebug { port }) {
        (Ok(Answer::Debug(d)), u) => (Ok(d), u),
        (Ok(Answer::Code(c)), u) => (
            if c == 0 {
                tape::unfit()
            } else {
                Err(Halt::Fail(debug_read_error(host, c)))
            },
            u,
        ),
        (Ok(Answer::Failed(m)), u) => (Err(Halt::Fail(m)), u),
        (Ok(_), u) => (tape::unfit(), u),
        (Err(h), u) => (Err(h), u),
    }
}

/// The debug registers of a thread.
pub fn get_debug_state(io: &mut Tape, port: u32, host: Arch) -> (r: Result<DebugState, Stop>)
    ensures
        match r {
            Ok(d) => debug_read(old(io)@, port, host) == (Ok::<DebugSeq, StopSeq>(d.seq()), final(io)@),
            Err(h) => debug_read(old(io)@, port, host) == (
                Err::<DebugSeq, StopSeq>(h.seq()),
                final(io)@,
            ),
        },
{
    match io.ask(Request::GetDebug { port }) {
        Ok(Answer::Debug(d)) => Ok(d),
        Ok(Answer::Code(c)) => if c == 0 {
            Err(unfit_stop())
        } else {
            let m: String = match host {
                Arch::X86_64 => {
                    let mut m = coded_message("thread_get_state (x86_DEBUG_STATE64): mach error ", c);
                    m.append(
                        " — デバッグレジスタへのアクセスには cs.debugger エンタイトルメントが必要です。`make sign` を実行してデバッガーに署名してください。Apple Silicon + Rosetta 2 環境では x86 デバッグレジスタは使用できません。",
                    );
                    m
                },
                Arch::Aarch64 => coded_message("thread_get_state (debug): mach error ", c),
            };
            Err(Halt::Fail(m))
        },
        Ok(Answer::Failed(m)) => Err(Halt::Fail(m)),
        Ok(_) => Err(unfit_stop()),
        Err(h) => Err(h),
    }
}

/// Sets the debug registers of a thread.
pub open spec fn debug_write(t: Rest, port: u32, state: DebugSeq) -> Got<()> {
    tape::ask_kernel(t, Request::SetDebug { port, state }, "thread_set_state (debug)"@)
}

/// Sets the debug registers of a thread.
pub fn set_debug_state(io: &mut Tape, port: u32, state: DebugState) -> (r: Result<(), Stop>)
    ensures
        (tape::step(r), final(io)@) == debug_write(old(io)@, port, state.seq()),
{
    io.ask_kernel(Request::SetDebug { port, state }, "thread_set_state (debug)")
}

/// What a slot of the debug registers is set to.
#[derive(Clone, Copy, Debug)]
pub enum SlotEdit {
    /// A breakpoint in one of the sixteen breakpoint slots of aarch64.
    SetBreak { slot: usize, addr: usize },
    ClearBreak { slot: usize },
    /// A watchpoint in one of four slots.
    SetWatch { slot: usize, addr: usize, cond: WatchCondition, len: WatchLen },
    ClearWatch { slot: usize },
}

impl SlotEdit {
    /// The slot exists.
    pub open spec fn valid(self) -> bool {
        match self {
            SlotEdit::SetBreak { slot, .. } => slot < 16,
            SlotEdit::ClearBreak { slot } => slot < 16,
            SlotEdit::SetWatch { slot, .. } => slot < 4,
            SlotEdit::ClearWatch { slot } => slot < 4,
        }
    }
}

/// The x86_64 address registers with that of `slot` changed.
pub open spec fn with_address(s: X86DebugState64, slot: usize, addr: u64) -> X86DebugState64 {
    if slot == 0 {
        X86DebugState64 { __dr0: addr, ..s }
    } else if slot == 1 {
        X86DebugState64 { __dr1: addr, ..s }
    } else if slot == 2 {
        X86DebugState64 { __dr2: addr, ..s }
    } else {
        X86DebugState64 { __dr3: addr, ..s }
    }
}

/// The debug registers with a slot set or cleared; nothing if the architecture has no such slot.
pub open spec fn edited(d: DebugSeq, e: SlotEdit) -> Option<DebugSeq> {
    match d {
        DebugSeq::X86(s) => match e {
            SlotEdit::SetWatch { slot, addr, cond, len } => Some(
                DebugSeq::X86(
                    X86DebugState64 {
                        __dr7: x86_64::with_slot(s.__dr7, slot, cond.code(), len.code()),
                        ..with_address(s, slot, addr as u64)
                    },
                ),
            ),
            SlotEdit::ClearWatch { slot } => Some(
                DebugSeq::X86(
                    X86DebugState64 {
                        __dr7: x86_64::without_slot(s.__dr7, slot),
                        ..with_address(s, slot, 0)
                    },
                ),
            ),
            _ => None,
        },
        DebugSeq::Arm { bvr, bcr, wvr, wcr, mdscr_el1 } => Some(
            match e {
                SlotEdit::SetBreak { slot, addr } => DebugSeq::Arm {
                    bvr: bvr.update(slot as int, addr as u64),
                    bcr: bcr.update(slot as int, HW_BP_BCR_ENABLE),
                    wvr,
                    wcr,
                    mdscr_el1,
                },
                SlotEdit::ClearBreak { slot } => DebugSeq::Arm {
                    bvr: bvr.update(slot as int, 0),
                    bcr: bcr.update(slot as int, 0),
                    wvr,
                    wcr,
                    mdscr_el1,
                },
                SlotEdit::SetWatch { slot, addr, cond, len } => DebugSeq::Arm {
                    bvr,
                    bcr,
                    wvr: wvr.update(slot as int, aarch64::watch_words(addr as u64, cond, len).0),
                    wcr: wcr.update(slot as int, aarch64::watch_words(addr as u64, cond, len).1),
                    mdscr_el1,
                },
                SlotEdit::ClearWatch { slot } => DebugSeq::Arm {
                    bvr,
                    bcr,
                    wvr: wvr.update(slot as int, 0),
                    wcr: wcr.update(slot as int, 0),
                    mdscr_el1,
                },
            },
        ),
    }
}

/// Changes the address register of `slot`.
fn set_address(s: X86DebugState64, slot: usize, addr: u64) -> (r: X86DebugState64)
    requires
        slot < 4,
    ensures
        r == with_address(s, slot, addr),
{
    if slot == 0 {
        X86DebugState64 { __dr0: addr, ..s }
    } else if slot == 1 {
        X86DebugState64 { __dr1: addr, ..s }
    } else if slot == 2 {
        X86DebugState64 { __dr2: addr, ..s }
    } else {
        X86DebugState64 { __dr3: addr, ..s }
    }
}

/// The debug registers with a slot set or cleared.
pub fn edit_slot(d: DebugState, e: SlotEdit) -> (r: Option<DebugState>)
    requires
        e.valid(),
    ensures
        match r {
            Some(n) => edited(d.seq(), e) == Some(n.seq()),
            None => edited(d.seq(), e) is None,
        },
{
    match d {
        DebugState::X86(s) => match e {
            SlotEdit::SetWatch { slot, addr, cond, len } => {
                let dr7: u64 = dr7_set_slot(s.__dr7, slot, cond, len);
                let n = set_address(s, slot, addr as u64);
                Some(DebugState::X86(X86DebugState64 { __dr7: dr7, ..n }))
            },
            SlotEdit::ClearWatch { slot } => {
                let dr7: u64 = dr7_clear_slot(s.__dr7, slot);
                let n = set_address(s, slot, 0);
                Some(DebugState::X86(X86DebugState64 { __dr7: dr7, ..n }))
            },
            _ => None,
        },
        DebugState::Arm(s) => {
            let mut n: ArmDebugState64 = s;
            match e {
                SlotEdit::SetBreak { slot, addr } => {
                    n.bvr[slot] = addr as u64;
                    n.bcr[slot] = HW_BP_BCR_ENABLE;
                },
                SlotEdit::ClearBreak { slot } => {
                    n.bvr[slot] = 0;
                    n.bcr[slot] = 0;
                },
                SlotEdit::SetWatch { slot, addr, cond, len } => {
                    let (wvr, wcr) = wcr_encode(addr, cond, len);
                    n.wvr[slot] = wvr;
                    n.wcr[slot] = wcr;
                },
                SlotEdit::ClearWatch { slot } => {
                    n.wvr[slot] = 0;
                    n.wcr[slot] = 0;
                },
            }
            Some(DebugState::Arm(n))
        },
    }
}

/// Sets or clears a slot of a thread's debug registers.
pub open spec fn slot_write(t: Rest, port: u32, host: Arch, e: SlotEdit) -> Got<()> {
    match debug_read(t, port, host) {
        (Err(h), u) => (Err(h), u),
        (Ok(d), u) => match edited(d, e) {
            Some(n) => debug_write(u, port, n),
            None => (tape::unfit(), u),
        },
    }
}

/// Sets or clears a slot of a thread's debug registers.
pub fn write_slot(io: &mut Tape, port: u32, host: Arch, e: SlotEdit) -> (r: Result<(), Stop>)
    requires
        e.valid(),
    ensures
        (tape::step(r), final(io)@) == slot_write(old(io)@, port, host, e),
{
    let d: DebugState = get_debug_state(io, port, host)?;
    match edit_slot(d, e) {
        Some(n) => set_debug_state(io, port, n),
        None => Err(unfit_stop()),
    }
}

/// Sets a breakpoint slot of a thread.
pub fn set_hw_breakpoint_slot(io: &mut Tape, port: u32, slot: usize, addr: usize) -> (r: Result<
    (),
    Stop,
>)
    requires
        slot < 16,
    ensures
        (tape::step(r), final(io)@) == slot_write(
            old(io)@,
            port,
            Arch::Aarch64,
            SlotEdit::SetBreak { slot, addr },
        ),
{
    write_slot(io, port, Arch::Aarch64, SlotEdit::SetBreak { slot, addr })
}

/// Clears a breakpoint slot of a thread.
pub fn clear_hw_breakpoint_slot(io: &mut Tape, port: u32, slot: usize) -> (r: Result<(), Stop>)
    requires
        slot < 16,
    ensures
        (tape::step(r), final(io)@) == slot_write(
            old(io)@,
            port,
            Arch::Aarch64,
            SlotEdit::ClearBreak { slot },
        ),
{
    write_slot(io, port, Arch::Aarch64, SlotEdit::ClearBreak { slot })
}

/// Sets a watchpoint slot of an aarch64 thread.
pub fn set_hw_watchpoint_slot(
    io: &mut Tape,
    port: u32,
    slot: usize,
    addr: usize,
    cond: WatchCondition,
    len: WatchLen,
) -> (r: Result<(), Stop>)
    requires
        slot < 4,
    ensures
        (tape::step(r), final(io)@) == slot_write(
            old(io)@,
            port,
            Arch::Aarch64,
            SlotEdit::SetWatch { slot, addr, cond, len },
        ),
{
    write_slot(io, port, Arch::Aarch64, SlotEdit::SetWatch { slot, addr, cond, len })
}

/// Clears a watchpoint slot of an aarch64 thread.
pub fn clear_hw_watchpoint_slot(io: &mut Tape, port: u32, slot: usize) -> (r: Result<(), Stop>)
    requires
        slot < 4,
    ensures
        (tape::step(r), final(io)@) == slot_write(
            old(io)@,
            port,
            Arch::Aarch64,
            SlotEdit::ClearWatch { slot },
        ),
{
    write_slot(io, port, Arch::Aarch64, SlotEdit::ClearWatch { slot })
}

/// Sets a watchpoint slot of an x86_64 thread.
pub fn set_watchpoint_slot(
    io: &mut Tape,
    port: u32,
    slot: usize,
    addr: usize,
    cond: WatchCondition,
    len: WatchLen,
) -> (r: Result<(), Stop>)
    requires
        slot < 4,
    ensures
        (tape::step(r), final(io)@) == slot_write(
            old(io)@,
            port,
            Arch::X86_64,
            SlotEdit::SetWatch { slot, addr, cond, len },
        ),
{
    write_slot(io, port, Arch::X86_64, SlotEdit::SetWatch { slot, addr, cond, len })
}

/// Clears a watchpoint slot of an x86_64 thread.
pub fn clear_watchpoint_slot(io: &mut Tape, port: u32, slot: usize) -> (r: Result<(), Stop>)
    requires
        slot < 4,
    ensures
        (tape::step(r), final(io)@) == slot_write(
            old(io)@,
            port,
            Arch::X86_64,
            SlotEdit::ClearWatch { slot },
        ),
{
    write_slot(io, port, Arch::X86_64, SlotEdit::ClearWatch { slot })
}

/// The slots from `slot` on whose bit is set in the status register.
pub open spec fn hits_from(dr6: u64, slot: nat) -> Seq<usize>
    decreases 4 - slot,
{
    if slot >= 4 {
        Seq::empty()
    } else {
        (if dr6 & (1u64 << (slot as u64)) != 0 {
            seq![slot as usize]
        } else {
            Seq::empty()
        }) + hits_from(dr6, slot + 1)
    }
}

/// The watchpoint slots that the status register of an x86_64 thread names. The register is cleared;
/// whether that succeeds does not matter.
pub open spec fn hits_read(t: Rest, port: u32) -> Got<Seq<usize>> {
    match debug_read(t, port, Arch::X86_64) {
        (Err(h), u) => (Err(h), u),
        (Ok(DebugSeq::X86(s)), u) => match debug_write(
            u,
            port,
            DebugSeq::X86(X86DebugState64 { __dr6: 0, ..s }),
        ) {
            (Err(Halt::Ask(q)), v) => (Err(Halt::Ask(q)), v),
            (_, v) => (Ok(hits_from(s.__dr6, 0)), v),
        },
        (Ok(_), u) => (tape::unfit(), u),
    }
}

/// The watchpoint slots that the status register of an x86_64 thread names.
pub fn watchpoint_hit_slots(io: &mut Tape, port: u32) -> (r: Result<Vec<usize>, Stop>)
    ensures
        match r {
            Ok(v) => hits_read(old(io)@, port) == (Ok::<Seq<usize>, StopSeq>(v@), final(io)@),
            Err(h) => hits_read(old(io)@, port) == (Err::<Seq<usize>, StopSeq>(h.seq()), final(io)@),
        },
{
    let s: X86DebugState64 = match get_debug_state(io, port, Arch::X86_64) {
        Ok(DebugState::X86(s)) => s,
        Ok(_) => return Err(unfit_stop()),
        Err(h) => return Err(h),
    };
    let mut hits: Vec<usize> = Vec::new();
    let mut slot: usize = 0;
    assert(hits@ + hits_from(s.__dr6, 0) =~= hits_from(s.__dr6, 0));
    while slot < 4
        invariant
            slot <= 4,
            hits@ + hits_from(s.__dr6, slot as nat) == hits_from(s.__dr6, 0),
        decreases 4 - slot,
    {
        let ghost before = hits@;
        let ghost rest = hits_from(s.__dr6, (slot + 1) as nat);
        if s.__dr6 & (1u64 << (slot as u64)) != 0 {
            hits.push(slot);
            assert(hits@ + rest =~= before + (seq![slot] + rest));
        } else {
            assert(before + (Seq::empty() + rest) =~= before + rest);
        }
        slot = slot + 1;
    }
    assert(hits@ + hits_from(s.__dr6, 4) =~= hits@);
    match set_debug_state(io, port, DebugState::X86(X86DebugState64 { __dr6: 0, ..s })) {
        Err(Halt::Ask(q)) => Err(Halt::Ask(q)),
        _ => Ok(hits),
    }
}

/// Setting a slot and clearing it again leaves the debug registers as if it had been cleared at once.
pub proof fn law_clear_undoes_set(d: DebugSeq, slot: usize, addr: usize, cond: WatchCondition, len: WatchLen)
    requires
        slot < 4,
        d matches DebugSeq::Arm { bvr, bcr, wvr, wcr, .. } ==> bvr.len() == 16 && bcr.len() == 16
            && wvr.len() == 16 && wcr.len() == 16,
    ensures
        edited(d, SlotEdit::SetWatch { slot, addr, cond, len }) matches Some(set) && edited(
            set,
            SlotEdit::ClearWatch { slot },
        ) == edited(d, SlotEdit::ClearWatch { slot }),
        d is Arm ==> (edited(d, SlotEdit::SetBreak { slot, addr }) matches Some(set) && edited(
            set,
            SlotEdit::ClearBreak { slot },
        ) == edited(d, SlotEdit::ClearBreak { slot })),
{
    match d {
        DebugSeq::X86(s) => {
            let other: usize = if slot == 0 {
                1
            } else {
                0
            };
            x86_64::law_dr7_slots(s.__dr7, slot, other, cond, len);
        },
        DebugSeq::Arm { bvr, bcr, wvr, wcr, .. } => {
            let w = aarch64::watch_words(addr as u64, cond, len);
            let i = slot as int;
            assert(wvr.update(i, w.0).update(i, 0) =~= wvr.update(i, 0));
            assert(wcr.update(i, w.1).update(i, 0) =~= wcr.update(i, 0));
            assert(bvr.update(i, addr as u64).update(i, 0) =~= bvr.update(i, 0));
            assert(bcr.update(i, HW_BP_BCR_ENABLE).update(i, 0) =~= bcr.update(i, 0));
        },
    }
}

} // verus!
