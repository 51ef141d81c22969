//! Tracking of heap allocations: breakpoints at the functions that allocate and free, and at the places
//! to which the former return.
use crate::addr_map;
use crate::addr_map::AddrMap;
use crate::debugger;
use crate::debugger::points;
use crate::debugger::run;
use crate::debugger::{Dbg, Debugger, WaitStatus};
use crate::numerals;
use crate::numerals::{dec_string, push_addr, push_dec, push_padded_right};
use crate::path;
use crate::path::file_name_of;
use crate::register::Registers;
use crate::symbols::Symbols;
use crate::tape;
use crate::tape::{Got, Halt, Rest, Stop, StopSeq, Tape};
use crate::text::owned;
use vstd::prelude::*;

verus! {

/// A block that is in use.
#[derive(Clone, Copy, Debug, PartialEq, Eq, Structural)]
pub struct AllocInfo {
    pub size: usize,
    /// The address to which the allocating function returned.
    pub call_site: usize,
}

/// An allocation that is under way.
#[derive(Clone, Copy, Debug, PartialEq, Eq, Structural)]
pub struct PendingAlloc {
    pub size: usize,
    pub call_site: usize,
}

/// The tracker.
#[derive(Clone)]
pub struct LeakTracker {
    pub enabled: bool,
    /// The blocks in use, by their addresses.
    pub live: AddrMap<AllocInfo>,
    pub malloc_addr: Option<usize>,
    pub calloc_addr: Option<usize>,
    pub realloc_addr: Option<usize>,
    pub free_addr: Option<usize>,
    /// The allocations under way, by the addresses to which they return; the latest is the last.
    pub pending_returns: AddrMap<Vec<PendingAlloc>>,
}

/// The state of the tracker.
#[verifier::ext_equal]
pub struct Leaks {
    pub enabled: bool,
    pub live: Map<usize, AllocInfo>,
    pub malloc: Option<usize>,
    pub calloc: Option<usize>,
    pub realloc: Option<usize>,
    pub free: Option<usize>,
    pub pending: Map<usize, Seq<PendingAlloc>>,
}

/// The functions that are watched.
pub enum Call {
    Malloc,
    Calloc,
    Realloc,
    Free,
}

impl LeakTracker {
    /// The state of the tracker.
    pub closed spec fn state(self) -> Leaks {
        Leaks {
            enabled: self.enabled,
            live: self.live@,
            malloc: self.malloc_addr,
            calloc: self.calloc_addr,
            realloc: self.realloc_addr,
            free: self.free_addr,
            pending: self.pending_returns@.map_values(|v: Vec<PendingAlloc>| v@),
        }
    }
}

/// What an operation on the tracker came to: its outcome, the answers that are left and both states.
pub struct LeakOut<A> {
    pub r: Result<A, StopSeq>,
    pub t: Rest,
    pub d: Dbg,
    pub k: Leaks,
}

/// What an operation on the tracker came to.
pub open spec fn leak_out<A>(r: Result<A, StopSeq>, t: Rest, d: Dbg, k: Leaks) -> LeakOut<A> {
    LeakOut { r, t, d, k }
}

/// The function that begins at `pc`.
pub open spec fn call_at(k: Leaks, pc: usize) -> Option<Call> {
    if k.malloc == Some(pc) {
        Some(Call::Malloc)
    } else if k.calloc == Some(pc) {
        Some(Call::Calloc)
    } else if k.realloc == Some(pc) {
        Some(Call::Realloc)
    } else if k.free == Some(pc) {
        Some(Call::Free)
    } else {
        None
    }
}

/// The first argument of a function at its beginning.
pub open spec fn first_arg(regs: Registers) -> u64 {
    match regs {
        Registers::X86(g) => g.__rdi,
        Registers::Arm(g) => g.__x@[0],
    }
}

/// The second argument of a function at its beginning.
pub open spec fn second_arg(regs: Registers) -> u64 {
    match regs {
        Registers::X86(g) => g.__rsi,
        Registers::Arm(g) => g.__x@[1],
    }
}

/// What a function returned.
pub open spec fn returned(regs: Registers) -> u64 {
    match regs {
        Registers::X86(g) => g.__rax,
        Registers::Arm(g) => g.__x@[0],
    }
}

/// The product, or the largest number where that is too large.
pub open spec fn capped_product(a: usize, b: usize) -> usize {
    if a * b <= usize::MAX {
        (a * b) as usize
    } else {
        usize::MAX
    }
}

/// The size that is asked for.
pub open spec fn requested(c: Call, regs: Registers) -> usize {
    match c {
        Call::Malloc => first_arg(regs) as usize,
        Call::Calloc => capped_product(first_arg(regs) as usize, second_arg(regs) as usize),
        _ => second_arg(regs) as usize,
    }
}

/// The blocks in use without the one at `ptr`.
pub open spec fn without(live: Map<usize, AllocInfo>, ptr: usize) -> Map<usize, AllocInfo> {
    if ptr != 0 {
        live.remove(ptr)
    } else {
        live
    }
}

/// The address to which a function returns, at its beginning: on x86_64 it is on top of the stack, on
/// aarch64 in the link register.
pub open spec fn caller_read(d: Dbg, t: Rest, regs: Registers) -> Got<usize> {
    match regs {
        Registers::X86(g) => run::address_at(d, t, g.__rsp as usize),
        Registers::Arm(g) => (Ok(g.__lr as usize), t),
    }
}

/// The allocations that return to `at`.
pub open spec fn waiting(k: Leaks, at: usize) -> Seq<PendingAlloc> {
    if k.pending.contains_key(at) {
        k.pending[at]
    } else {
        Seq::empty()
    }
}

/// Notes an allocation that is under way. The first one that returns to an address sets a breakpoint
/// there.
pub open spec fn pending_pushed(k: Leaks, d: Dbg, t: Rest, regs: Registers, size: usize) -> LeakOut<bool> {
    match caller_read(d, t, regs) {
        (Err(h), u) => leak_out(Err(h), u, d, k),
        (Ok(at), u) => {
            let o = if k.pending.contains_key(at) {
                debugger::out(Ok(()), u, d)
            } else {
                points::break_set(d, u, at)
            };
            match o.r {
                Err(h) => leak_out(Err(h), o.t, o.d, k),
                Ok(_) => leak_out(
                    Ok(true),
                    o.t,
                    o.d,
                    Leaks {
                        pending: k.pending.insert(
                            at,
                            waiting(k, at).push(PendingAlloc { size, call_site: at }),
                        ),
                        ..k
                    },
                ),
            }
        },
    }
}

/// The tracker after the latest allocation that returns to `pc` has returned `ptr`.
pub open spec fn alloc_returned(k: Leaks, pc: usize, ptr: usize) -> Leaks {
    let list = k.pending[pc];
    let rest = if list.len() > 0 {
        list.drop_last()
    } else {
        list
    };
    Leaks {
        live: if list.len() > 0 && ptr != 0 {
            k.live.insert(
                ptr,
                AllocInfo { size: list.last().size, call_site: list.last().call_site },
            )
        } else {
            k.live
        },
        pending: if rest.len() > 0 {
            k.pending.insert(pc, rest)
        } else {
            k.pending.remove(pc)
        },
        ..k
    }
}

/// Whether a stop at `pc` was the tracker's, and what it makes of it.
pub open spec fn stop_at(k: Leaks, d: Dbg, t: Rest, pc: usize, regs: Registers) -> LeakOut<bool> {
    match call_at(k, pc) {
        Some(Call::Free) => leak_out(
            Ok(true),
            t,
            d,
            Leaks { live: without(k.live, first_arg(regs) as usize), ..k },
        ),
        Some(Call::Realloc) => pending_pushed(
            Leaks { live: without(k.live, first_arg(regs) as usize), ..k },
            d,
            t,
            regs,
            requested(Call::Realloc, regs),
        ),
        Some(c) => pending_pushed(k, d, t, regs, requested(c, regs)),
        None => if k.pending.contains_key(pc) {
            let now = alloc_returned(k, pc, returned(regs) as usize);
            if now.pending.contains_key(pc) {
                leak_out(Ok(true), t, d, now)
            } else {
                let o = points::break_removed(d, t, pc);
                match o.r {
                    Err(Halt::Ask(q)) => leak_out(Err(Halt::Ask(q)), o.t, o.d, now),
                    _ => leak_out(Ok(true), o.t, o.d, now),
                }
            }
        } else {
            leak_out(Ok(false), t, d, k)
        },
    }
}

/// Whether a stop was the tracker's, and what it makes of it.
#[verifier::opaque]
pub open spec fn stop_handled(k: Leaks, d: Dbg, t: Rest) -> LeakOut<bool> {
    if !k.enabled {
        leak_out(Ok(false), t, d, k)
    } else {
        match debugger::pc_of(d, t) {
            (Err(h), u) => leak_out(Err(h), u, d, k),
            (Ok(pc), u) => match debugger::regs_of(d, u) {
                (Err(h), v) => leak_out(Err(h), v, d, k),
                (Ok(regs), v) => stop_at(k, d, v, pc as usize, regs),
            },
        }
    }
}

/// The addresses that are there, in their order.
pub open spec fn hooks(
    malloc: Option<usize>,
    calloc: Option<usize>,
    realloc: Option<usize>,
    free: Option<usize>,
) -> Seq<usize> {
    one(malloc) + one(calloc) + one(realloc) + one(free)
}

/// The address if there is one.
pub open spec fn one(a: Option<usize>) -> Seq<usize> {
    match a {
        Some(x) => seq![x],
        None => Seq::empty(),
    }
}

/// Sets breakpoints at the addresses from `i` on, up to the first failure.
pub open spec fn hooked(d: Dbg, t: Rest, at: Seq<usize>, i: nat) -> debugger::Out<()>
    decreases at.len() - i,
{
    if i >= at.len() {
        debugger::out(Ok(()), t, d)
    } else {
        let o = points::break_set(d, t, at[i as int]);
        match o.r {
            Err(h) => debugger::out(Err(h), o.t, o.d),
            Ok(_) => hooked(o.d, o.t, at, i + 1),
        }
    }
}

/// Begins to track: breakpoints at the functions, and nothing in use. Where a breakpoint cannot be set
/// the tracker stays as it is.
pub open spec fn tracking(
    k: Leaks,
    d: Dbg,
    t: Rest,
    malloc: Option<usize>,
    calloc: Option<usize>,
    realloc: Option<usize>,
    free: Option<usize>,
) -> LeakOut<()> {
    let o = hooked(d, t, hooks(malloc, calloc, realloc, free), 0);
    match o.r {
        Err(h) => leak_out(Err(h), o.t, o.d, k),
        Ok(_) => leak_out(
            Ok(()),
            o.t,
            o.d,
            Leaks {
                enabled: true,
                live: Map::empty(),
                malloc,
                calloc,
                realloc,
                free,
                pending: Map::empty(),
            },
        ),
    }
}

/// Ends the tracking: the breakpoints of the functions and then those of the returns, `at`, are taken
/// away as far as that succeeds. What is in use is kept.
pub open spec fn untracked(k: Leaks, d: Dbg, t: Rest, at: Seq<usize>) -> LeakOut<()> {
    let o = run::uninstalled(d, t, hooks(k.malloc, k.calloc, k.realloc, k.free), 0);
    match o.r {
        Err(h) => leak_out(Err(h), o.t, o.d, k),
        Ok(_) => {
            let p = run::uninstalled(o.d, o.t, at, 0);
            match p.r {
                Err(h) => leak_out(Err(h), p.t, p.d, k),
                Ok(_) => leak_out(
                    Ok(()),
                    p.t,
                    p.d,
                    Leaks { enabled: false, pending: Map::empty(), ..k },
                ),
            }
        },
    }
}

/// Appends the address if there is one.
fn push_one(v: &mut Vec<usize>, a: Option<usize>)
    ensures
        final(v)@ == old(v)@ + one(a),
{
    let ghost before = v@;
    if let Some(x) = a {
        v.push(x);
    }
    assert(v@ =~= before + one(a));
}

/// The addresses that are there.
fn hook_list(
    malloc: Option<usize>,
    calloc: Option<usize>,
    realloc: Option<usize>,
    free: Option<usize>,
) -> (r: Vec<usize>)
    ensures
        r@ == hooks(malloc, calloc, realloc, free),
{
    let mut v: Vec<usize> = Vec::new();
    push_one(&mut v, malloc);
    assert(v@ =~= one(malloc));
    push_one(&mut v, calloc);
    push_one(&mut v, realloc);
    push_one(&mut v, free);
    v
}

impl LeakTracker {
    /// A tracker that is not enabled.
    pub fn new() -> (r: Self)
        ensures
            r.enabled == false,
            r.state() == (Leaks {
                enabled: false,
                live: Map::empty(),
                malloc: None,
                calloc: None,
                realloc: None,
                free: None,
                pending: Map::empty(),
            }),
    {
        let r = LeakTracker {
            enabled: false,
            live: AddrMap::new(),
            malloc_addr: None,
            calloc_addr: None,
            realloc_addr: None,
            free_addr: None,
            pending_returns: AddrMap::new(),
        };
        assert(r.state().pending =~= Map::empty());
        r
    }

    /// Begins to track. A function without an address is not watched.
    pub fn enable(
        &mut self,
        io: &mut Tape,
        dbg: &mut Debugger,
        malloc: Option<usize>,
        calloc: Option<usize>,
        realloc: Option<usize>,
        free: Option<usize>,
    ) -> (r: Result<(), Stop>)
        ensures
            leak_out(tape::step(r), final(io)@, final(dbg).state(), final(self).state()) == tracking(
                old(self).state(),
                old(dbg).state(),
                old(io)@,
                malloc,
                calloc,
                realloc,
                free,
            ),
    {
        let at = hook_list(malloc, calloc, realloc, free);
        let ghost whole = hooked(dbg.state(), io@, at@, 0);
        let mut i: usize = 0;
        while i < at.len()
            invariant
                i <= at@.len(),
                *self == *old(self),
                whole == hooked(old(dbg).state(), old(io)@, at@, 0),
                whole == hooked(dbg.state(), io@, at@, i as nat),
                at@ == hooks(malloc, calloc, realloc, free),
            decreases at.len() - i,
        {
            dbg.set_breakpoint(io, at[i])?;
            i = i + 1;
        }
        self.malloc_addr = malloc;
        self.calloc_addr = calloc;
        self.realloc_addr = realloc;
        self.free_addr = free;
        self.live.clear();
        self.pending_returns.clear();
        self.enabled = true;
        assert(self.state().pending =~= Map::empty());
        Ok(())
    }

    /// Ends the tracking.
    pub fn disable(&mut self, io: &mut Tape, dbg: &mut Debugger) -> (r: Result<(), Stop>)
        ensures
            forall|at: Seq<usize>|
                addr_map::is_key_list(at, old(self).state().pending.dom()) ==> leak_out(
                    tape::step(r),
                    final(io)@,
                    final(dbg).state(),
                    final(self).state(),
                ) == #[trigger] untracked(old(self).state(), old(dbg).state(), old(io)@, at),
    {
        let first = hook_list(self.malloc_addr, self.calloc_addr, self.realloc_addr, self.free_addr);
        let second = self.pending_returns.keys();
        proof {
            let dom = self.state().pending.dom();
            assert(dom =~= self.pending_returns@.dom());
            assert forall|at: Seq<usize>| addr_map::is_key_list(at, dom) implies at == second@ by {
                addr_map::law_key_list_unique(at, second@, dom);
            }
        }
        dbg.uninstall(io, &first)?;
        dbg.uninstall(io, &second)?;
        self.pending_returns.clear();
        self.enabled = false;
        assert(self.state().pending =~= Map::empty());
        Ok(())
    }
}

/// The first argument of a function at its beginning.
fn arg0(regs: &Registers) -> (r: u64)
    ensures
        r == first_arg(*regs),
{
    match regs {
        Registers::X86(g) => g.__rdi,
        Registers::Arm(g) => g.__x[0],
    }
}

/// The second argument of a function at its beginning.
fn arg1(regs: &Registers) -> (r: u64)
    ensures
        r == second_arg(*regs),
{
    match regs {
        Registers::X86(g) => g.__rsi,
        Registers::Arm(g) => g.__x[1],
    }
}

/// What a function returned.
fn retval(regs: &Registers) -> (r: u64)
    ensures
        r == returned(*regs),
{
    match regs {
        Registers::X86(g) => g.__rax,
        Registers::Arm(g) => g.__x[0],
    }
}

/// The address to which a function returns, at its beginning.
fn return_addr(dbg: &Debugger, io: &mut Tape, regs: &Registers) -> (r: Result<usize, Stop>)
    ensures
        (tape::step(r), final(io)@) == caller_read(dbg.state(), old(io)@, *regs),
{
    match regs {
        Registers::X86(g) => dbg.stored_address(io, g.__rsp as usize),
        Registers::Arm(g) => Ok(g.__lr as usize),
    }
}

impl LeakTracker {
    /// Takes a block out of those in use.
    fn drop_block(&mut self, ptr: usize)
        ensures
            final(self).state() == (Leaks {
                live: without(old(self).state().live, ptr),
                ..old(self).state()
            }),
    {
        if ptr != 0 {
            let _ = self.live.remove(ptr);
        }
        assert(self.state() =~= (Leaks {
            live: without(old(self).state().live, ptr),
            ..old(self).state()
        }));
    }

    /// Notes an allocation that is under way.
    fn push_pending(
        &mut self,
        io: &mut Tape,
        dbg: &mut Debugger,
        regs: &Registers,
        size: usize,
    ) -> (r: Result<bool, Stop>)
        ensures
            leak_out(tape::step(r), final(io)@, final(dbg).state(), final(self).state())
                == pending_pushed(old(self).state(), old(dbg).state(), old(io)@, *regs, size),
    {
        let at: usize = return_addr(dbg, io, regs)?;
        if !self.pending_returns.contains_key(at) {
            dbg.set_breakpoint(io, at)?;
        }
        let ghost k = self.state();
        let mut list: Vec<PendingAlloc> = match self.pending_returns.remove(at) {
            Some(l) => l,
            None => Vec::new(),
        };
        assert(list@ =~= waiting(k, at));
        list.push(PendingAlloc { size, call_site: at });
        let ghost all = list@;
        self.pending_returns.insert(at, list);
        proof {
            assert(self.state().pending =~= k.pending.insert(at, all));
            assert(self.state() =~= (Leaks { pending: k.pending.insert(at, all), ..k }));
        }
        Ok(true)
    }

    /// Notes that the latest allocation that returns to `pc` has returned `ptr`. Gives whether it was
    /// the last one.
    fn note_return(&mut self, pc: usize, ptr: usize) -> (r: bool)
        requires
            old(self).state().pending.contains_key(pc),
        ensures
            final(self).state() == alloc_returned(old(self).state(), pc, ptr),
            r == !final(self).state().pending.contains_key(pc),
    {
        let ghost k = self.state();
        let mut list: Vec<PendingAlloc> = match self.pending_returns.remove(pc) {
            Some(l) => l,
            None => Vec::new(),
        };
        assert(list@ =~= k.pending[pc]);
        if let Some(p) = list.pop() {
            if ptr != 0 {
                self.live.insert(ptr, AllocInfo { size: p.size, call_site: p.call_site });
            }
        }
        let last: bool = list.len() == 0;
        let ghost rest = list@;
        if !last {
            self.pending_returns.insert(pc, list);
        }
        proof {
            let now = alloc_returned(k, pc, ptr);
            assert(rest =~= (if k.pending[pc].len() > 0 {
                k.pending[pc].drop_last()
            } else {
                k.pending[pc]
            }));
            assert(self.state().pending =~= now.pending);
            assert(self.state() =~= now);
        }
        last
    }

    /// Whether the stop of the process was the tracker's, which then lets it run on.
    pub fn handle_stop(&mut self, io: &mut Tape, dbg: &mut Debugger) -> (r: Result<bool, Stop>)
        ensures
            leak_out(tape::step(r), final(io)@, final(dbg).state(), final(self).state())
                == stop_handled(old(self).state(), old(dbg).state(), old(io)@),
    {
        proof {
            reveal(stop_handled);
        }
        if !self.enabled {
            return Ok(false);
        }
        let pc: usize = dbg.pc(io)? as usize;
        let regs = dbg.registers(io)?;
        if self.malloc_addr == Some(pc) {
            return self.push_pending(io, dbg, &regs, arg0(&regs) as usize);
        }
        if self.calloc_addr == Some(pc) {
            let size: usize = match (arg0(&regs) as usize).checked_mul(arg1(&regs) as usize) {
                Some(n) => n,
                None => usize::MAX,
            };
            return self.push_pending(io, dbg, &regs, size);
        }
        if self.realloc_addr == Some(pc) {
            self.drop_block(arg0(&regs) as usize);
            return self.push_pending(io, dbg, &regs, arg1(&regs) as usize);
        }
        if self.free_addr == Some(pc) {
            self.drop_block(arg0(&regs) as usize);
            return Ok(true);
        }
        if self.pending_returns.contains_key(pc) {
            assert(self.state().pending.contains_key(pc));
            if self.note_return(pc, retval(&regs) as usize) {
                if let Err(Halt::Ask(q)) = dbg.remove_breakpoint(io, pc) {
                    return Err(Halt::Ask(q));
                }
            }
            return Ok(true);
        }
        assert(!self.state().pending.contains_key(pc));
        Ok(false)
    }

    /// The number of blocks in use.
    pub fn live_count(&self) -> (r: usize)
        ensures
            self.state().live.dom().finite(),
            r == self.state().live.dom().len(),
    {
        self.live.len()
    }
}

/// The place of a call: that of the instruction before the one to which it returns.
pub open spec fn call_place(syms: Option<&Symbols>, base: Option<u64>, site: usize) -> Option<
    (Seq<char>, u32),
> {
    match (syms, base) {
        (Some(s), Some(b)) => s.spec_location(
            (site as u64).wrapping_sub(s.spec_slide(b)).wrapping_sub(1),
        ),
        _ => None,
    }
}

/// The file name of a path; the path itself where it has none.
pub open spec fn short_path(p: Seq<char>) -> Seq<char> {
    match path::file_name(p) {
        Some(n) => n,
        None => p,
    }
}

/// The line of a block in use: its address, its size and the place where it was allocated.
pub open spec fn block_line(syms: Option<&Symbols>, base: Option<u64>, ptr: usize, info: AllocInfo) -> Seq<
    char,
> {
    "  "@ + numerals::addr_text(ptr as nat) + "  size="@ + numerals::pad_right(
        numerals::dec(info.size as nat),
        6,
        ' ',
    ) + "  caller="@ + numerals::addr_text(info.call_site as nat) + (match call_place(
        syms,
        base,
        info.call_site,
    ) {
        Some((p, line)) => "  ("@ + short_path(p) + ":"@ + numerals::dec(line as nat) + ")"@,
        None => Seq::empty(),
    }) + "\n"@
}

/// The lines of the first `n` blocks of `at`.
pub open spec fn block_lines(
    syms: Option<&Symbols>,
    base: Option<u64>,
    live: Map<usize, AllocInfo>,
    at: Seq<usize>,
    n: int,
) -> Seq<char>
    decreases n,
{
    if n <= 0 {
        Seq::empty()
    } else {
        block_lines(syms, base, live, at, n - 1) + block_line(syms, base, at[n - 1], live[at[n - 1]])
    }
}

/// What is shown of the blocks in use, which are at `at`.
pub open spec fn leaks_text(
    syms: Option<&Symbols>,
    base: Option<u64>,
    live: Map<usize, AllocInfo>,
    at: Seq<usize>,
) -> Seq<char> {
    if at.len() == 0 {
        "No leaks detected.\n"@
    } else {
        numerals::dec(at.len()) + " live allocation(s) (possible leaks):\n"@ + block_lines(
            syms,
            base,
            live,
            at,
            at.len() as int,
        )
    }
}

/// Appends the line of a block in use.
fn push_block(
    out: &mut String,
    syms: Option<&Symbols>,
    base: Option<u64>,
    ptr: usize,
    info: AllocInfo,
)
    ensures
        final(out)@ == old(out)@ + block_line(syms, base, ptr, info),
{
    let ghost before = out@;
    out.append("  ");
    push_addr(out, ptr as u64);
    out.append("  size=");
    let size = dec_string(info.size as u64);
    push_padded_right(out, size.as_str(), 6, ' ');
    out.append("  caller=");
    push_addr(out, info.call_site as u64);
    let place: Option<(String, u32)> = match (syms, base) {
        (Some(s), Some(b)) => {
            let slide: u64 = s.slide(b);
            s.find_location((info.call_site as u64).wrapping_sub(slide).wrapping_sub(1))
        },
        _ => None,
    };
    if let Some((p, line)) = place {
        out.append("  (");
        match file_name_of(p.as_str()) {
            Some(n) => out.append(n.as_str()),
            None => out.append(p.as_str()),
        }
        out.append(":");
        push_dec(out, line as u64);
        out.append(")");
    }
    out.append("\n");
    assert(out@ =~= before + block_line(syms, base, ptr, info));
}

impl LeakTracker {
    /// What is shown of the blocks in use: one line for each, in the order of their addresses.
    pub fn show_leaks(&self, syms: Option<&Symbols>, runtime_base: Option<u64>) -> (r: String)
        ensures
            forall|at: Seq<usize>|
                addr_map::is_key_list(at, self.state().live.dom()) ==> r@ == #[trigger] leaks_text(
                    syms,
                    runtime_base,
                    self.state().live,
                    at,
                ),
    {
        let at = self.live.keys();
        let ghost live = self.live@;
        proof {
            assert forall|k: Seq<usize>| addr_map::is_key_list(k, live.dom()) implies k == at@ by {
                addr_map::law_key_list_unique(k, at@, live.dom());
            }
        }
        if at.len() == 0 {
            return owned("No leaks detected.\n");
        }
        let mut out = dec_string(at.len() as u64);
        out.append(" live allocation(s) (possible leaks):\n");
        let ghost head = out@;
        let mut i: usize = 0;
        assert(out@ =~= head + block_lines(syms, runtime_base, live, at@, 0));
        while i < at.len()
            invariant
                i <= at@.len(),
                live == self.live@,
                addr_map::is_key_list(at@, live.dom()),
                out@ == head + block_lines(syms, runtime_base, live, at@, i as int),
            decreases at.len() - i,
        {
            assert(at@.contains(at@[i as int]));
            if let Some(info) = self.live.get(at[i]) {
                push_block(&mut out, syms, runtime_base, at[i], *info);
            }
            i = i + 1;
            assert(out@ =~= head + block_lines(syms, runtime_base, live, at@, i as int));
        }
        out
    }
}

/// What comes of a stop: the process ran on and did that, or the stop is for the user.
#[derive(Clone, Copy, Debug, PartialEq, Eq, Structural)]
pub enum Round {
    Again(WaitStatus),
    Done(WaitStatus),
}

/// The state of a tracker that may be absent.
pub open spec fn opt_state(tr: Option<LeakTracker>) -> Option<Leaks> {
    match tr {
        Some(x) => Some(x.state()),
        None => None,
    }
}

/// Lets the process run on to its next stop.
#[verifier::opaque]
pub open spec fn ran_on(d: Dbg, t: Rest) -> debugger::Out<Round> {
    let c = run::continued(d, t);
    debugger::out(
        match c.r {
            Ok(s) => Ok(Round::Again(s)),
            Err(h) => Err(h),
        },
        c.t,
        c.d,
    )
}

/// A stop with a tracker that may be absent: where the stop was the tracker's, the process runs on to
/// its next stop.
pub open spec fn round(k: Option<Leaks>, d: Dbg, t: Rest, status: WaitStatus) -> (
    Result<Round, StopSeq>,
    Rest,
    Dbg,
    Option<Leaks>,
) {
    match k {
        None => (Ok(Round::Done(status)), t, d, k),
        Some(l) => if !(status is Stopped) {
            (Ok(Round::Done(status)), t, d, k)
        } else {
            let o = stop_handled(l, d, t);
            match o.r {
                Err(h) => (Err(h), o.t, o.d, Some(o.k)),
                Ok(false) => (Ok(Round::Done(status)), o.t, o.d, Some(o.k)),
                Ok(true) => {
                    let c = ran_on(o.d, o.t);
                    (c.r, c.t, c.d, Some(o.k))
                },
            }
        },
    }
}

/// Lets the process run on to its next stop.
fn run_on(io: &mut Tape, dbg: &mut Debugger) -> (r: Result<Round, Stop>)
    ensures
        debugger::out(tape::step(r), final(io)@, final(dbg).state()) == ran_on(
            old(dbg).state(),
            old(io)@,
        ),
{
    proof {
        reveal(ran_on);
    }
    let s = dbg.cont(io)?;
    Ok(Round::Again(s))
}

/// Takes up a stop: where it was the tracker's the process runs on, and its next stop is to be taken up
/// in the same way.
pub fn auto_cont(
    io: &mut Tape,
    dbg: &mut Debugger,
    tracker: &mut Option<LeakTracker>,
    status: WaitStatus,
) -> (r: Result<Round, Stop>)
    ensures
        (tape::step(r), final(io)@, final(dbg).state(), opt_state(*final(tracker))) == round(
            opt_state(*old(tracker)),
            old(dbg).state(),
            old(io)@,
            status,
        ),
{
    if !matches!(status, WaitStatus::Stopped { .. }) {
        return Ok(Round::Done(status));
    }
    let mut tr = match tracker.take() {
        Some(tr) => tr,
        None => return Ok(Round::Done(status)),
    };
    let handled = tr.handle_stop(io, dbg);
    *tracker = Some(tr);
    match handled {
        Ok(true) => run_on(io, dbg),
        Ok(false) => Ok(Round::Done(status)),
        Err(h) => Err(h),
    }
}

/// The field says whether the tracker is enabled.
pub proof fn law_enabled_is_shown(k: LeakTracker)
    ensures
        k.enabled == k.state().enabled,
{
}

/// What holds of every tracker: no block is at zero, and no address is waited for without an allocation
/// under way.
pub open spec fn sound(k: Leaks) -> bool {
    &&& !k.live.contains_key(0)
    &&& forall|a: usize| #[trigger] k.pending.contains_key(a) ==> k.pending[a].len() > 0
}

/// The tracker stays sound, whatever stops the process.
pub proof fn law_stays_sound(k: Leaks, d: Dbg, t: Rest)
    requires
        sound(k),
    ensures
        sound(stop_handled(k, d, t).k),
{
    reveal(stop_handled);
}

/// An allocation that returns a block puts it in use, with the size that was asked for and the place of
/// the call, and nothing else is in use that was not before; one that fails changes nothing. What was
/// waited for before is waited for after.
pub proof fn law_allocation(k: Leaks, d: Dbg, t: Rest, pc: usize, regs: Registers, ptr: usize)
    requires
        sound(k),
        call_at(k, pc) is Some,
        !(call_at(k, pc)->0 is Free),
        stop_at(k, d, t, pc, regs).r is Ok,
    ensures
        ({
            let site = caller_read(d, t, regs).0->Ok_0;
            let size = requested(call_at(k, pc)->0, regs);
            let before = if call_at(k, pc)->0 is Realloc {
                without(k.live, first_arg(regs) as usize)
            } else {
                k.live
            };
            let after = alloc_returned(stop_at(k, d, t, pc, regs).k, site, ptr);
            &&& after.pending == k.pending
            &&& ptr != 0 ==> after.live == before.insert(ptr, AllocInfo { size, call_site: site })
            &&& ptr == 0 ==> after.live == before
        }),
{
    let site = caller_read(d, t, regs).0->Ok_0;
    let mid = stop_at(k, d, t, pc, regs).k;
    let after = alloc_returned(mid, site, ptr);
    let list = waiting(k, site);
    assert(mid.pending[site].drop_last() =~= list);
    assert(after.pending =~= k.pending);
}

/// A block that is freed is no longer in use, and every other block is as before.
pub proof fn law_free(k: Leaks, d: Dbg, t: Rest, pc: usize, regs: Registers)
    requires
        call_at(k, pc) matches Some(Call::Free),
        sound(k),
    ensures
        stop_at(k, d, t, pc, regs).r == Ok::<bool, StopSeq>(true),
        stop_at(k, d, t, pc, regs).k == (Leaks { live: k.live.remove(first_arg(regs) as usize), ..k }),
{
    assert(first_arg(regs) as usize == 0 ==> k.live.remove(0) =~= k.live);
}

} // verus!
