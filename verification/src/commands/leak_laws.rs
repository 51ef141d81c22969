//! What holds of the tracking of leaks, in terms of the registers at a stop.
use crate::arch::Arch;
use crate::debugger;
use crate::debugger::points;
use crate::debugger::run;
use crate::debugger::{Dbg, WaitStatus};
use crate::leak_tracker;
use crate::leak_tracker::{AllocInfo, LeakOut, Leaks, Round};
use crate::numerals;
use crate::path;
use crate::register::Registers;
use crate::symbols;
use crate::symbols::Symbols;
use crate::tape::{Answer, DebugSeq, Got, Halt, Request, Rest, StopSeq};
use vstd::prelude::*;

verus! {

/// Argument `i` of a function at its beginning, the first or the second: in `rdi` and `rsi`, or in `x0`
/// and `x1`.
pub open spec fn argument(regs: Registers, i: int) -> usize {
    match regs {
        Registers::X86(g) => (if i == 0 {
            g.__rdi
        } else {
            g.__rsi
        }) as usize,
        Registers::Arm(g) => g.__x@[i] as usize,
    }
}

/// What a function has returned: `rax`, or `x0`.
pub open spec fn result(regs: Registers) -> usize {
    match regs {
        Registers::X86(g) => g.__rax as usize,
        Registers::Arm(g) => g.__x@[0] as usize,
    }
}

/// The program counter: `rip`, or `pc`.
pub open spec fn counter(regs: Registers) -> usize {
    match regs {
        Registers::X86(g) => g.__rip as usize,
        Registers::Arm(g) => g.__pc as usize,
    }
}

/// The address to which a function returns, at its beginning: the number on top of the stack, or the link
/// register.
pub open spec fn goes_back_to(d: Dbg, t: Rest, regs: Registers) -> Got<usize> {
    match regs {
        Registers::X86(g) => run::address_at(d, t, g.__rsp as usize),
        Registers::Arm(g) => (Ok(g.__lr as usize), t),
    }
}

/// Whether a stop shows those registers, which are read twice.
pub open spec fn stops_with(d: Dbg, t: Rest, regs: Registers) -> bool {
    let a = Answer::<Seq<u8>, Seq<u32>, Seq<char>, DebugSeq>::Registers(regs);
    d.current < d.threads.len() && t.len() >= 2 && t[0] == a && t[1] == a
}

/// Whether the addresses of the functions that are watched are all different.
pub open spec fn told_apart(k: Leaks) -> bool {
    &&& k.malloc is Some ==> k.malloc != k.calloc && k.malloc != k.realloc && k.malloc != k.free
    &&& k.calloc is Some ==> k.calloc != k.realloc && k.calloc != k.free
    &&& k.realloc is Some ==> k.realloc != k.free
}

/// Whether an allocation function begins at `pc`.
pub open spec fn allocates(k: Leaks, pc: usize) -> bool {
    k.malloc == Some(pc) || k.calloc == Some(pc) || k.realloc == Some(pc)
}

/// Whether `size` is what the allocation function at `pc` was asked for: the argument of `malloc`, the
/// product of both arguments of `calloc` (the greatest number where that does not fit), the second
/// argument of `realloc`.
pub open spec fn asked_for(k: Leaks, pc: usize, regs: Registers, size: usize) -> bool {
    &&& k.malloc == Some(pc) ==> size == argument(regs, 0)
    &&& k.calloc == Some(pc) ==> if argument(regs, 0) * argument(regs, 1) <= usize::MAX {
        size == argument(regs, 0) * argument(regs, 1)
    } else {
        size == usize::MAX
    }
    &&& k.realloc == Some(pc) ==> size == argument(regs, 1)
}

/// A stop at an allocation function is the tracker's: the size that is asked for waits for the return, at
/// the address to which the function returns, on top of what waits there already; a breakpoint is set there
/// unless something waits there already. The block that `realloc` is given is no longer in use.
pub proof fn law_call_is_noted(k: Leaks, d: Dbg, t: Rest, regs: Registers, at: usize)
    requires
        k.enabled,
        told_apart(k),
        stops_with(d, t, regs),
        allocates(k, counter(regs)),
        goes_back_to(d, t.skip(2), regs).0 == Ok::<usize, StopSeq>(at),
        leak_tracker::stop_handled(k, d, t).r is Ok,
    ensures
        ({
            let o = leak_tracker::stop_handled(k, d, t);
            let before = if k.pending.contains_key(at) {
                k.pending[at]
            } else {
                Seq::empty()
            };
            &&& o.r == Ok::<bool, StopSeq>(true)
            &&& o.k.enabled && o.k.malloc == k.malloc && o.k.calloc == k.calloc && o.k.realloc == k.realloc
                && o.k.free == k.free
            &&& o.k.pending.contains_key(at) && o.k.pending[at].len() == before.len() + 1
            &&& o.k.pending[at].drop_last() == before
            &&& o.k.pending[at].last().call_site == at
            &&& asked_for(k, counter(regs), regs, o.k.pending[at].last().size)
            &&& forall|b: usize|
                b != at ==> o.k.pending.contains_key(b) == k.pending.contains_key(b) && (
                k.pending.contains_key(b) ==> #[trigger] o.k.pending[b] == k.pending[b])
            &&& o.k.live == (if k.realloc == Some(counter(regs)) && argument(regs, 0) != 0 {
                k.live.remove(argument(regs, 0))
            } else {
                k.live
            })
            &&& debugger::is_set(o.d, at) || k.pending.contains_key(at)
            &&& k.pending.contains_key(at) ==> o.d == d && o.t == goes_back_to(d, t.skip(2), regs).1
            &&& !k.pending.contains_key(at) ==> o.d == points::break_set(
                d,
                goes_back_to(d, t.skip(2), regs).1,
                at,
            ).d
        }),
{
    reveal(leak_tracker::stop_handled);
    assert(t.skip(1)[0] == t[1]);
    assert(t.skip(1).skip(1) =~= t.skip(2));
    let before = if k.pending.contains_key(at) {
        k.pending[at]
    } else {
        Seq::empty()
    };
    let o = leak_tracker::stop_handled(k, d, t);
    assert(o.k.pending[at].drop_last() =~= before);
    assert(points::break_set(d, goes_back_to(d, t.skip(2), regs).1, at).r is Ok ==> debugger::is_set(
        points::break_set(d, goes_back_to(d, t.skip(2), regs).1, at).d,
        at,
    ));
}

/// A block that an allocation function returned is in use with the size that it was asked for, and with
/// the address to which the function returned: of `calloc(n, s)` that is `n` times `s`, where that fits.
/// What is in use otherwise stays so.
pub proof fn law_block_has_the_size_asked_for(
    k: Leaks,
    d: Dbg,
    t: Rest,
    regs: Registers,
    at: usize,
    e: Dbg,
    u: Rest,
    now: Registers,
    o: LeakOut<bool>,
    p: LeakOut<bool>,
)
    requires
        k.enabled,
        told_apart(k),
        stops_with(d, t, regs),
        allocates(k, counter(regs)),
        goes_back_to(d, t.skip(2), regs).0 == Ok::<usize, StopSeq>(at),
        o.r is Ok,
        stops_with(e, u, now),
        counter(now) == at,
        !allocates(k, at) && k.free != Some(at),
        o == leak_tracker::stop_handled(k, d, t),
        p == leak_tracker::stop_handled(o.k, e, u),
    ensures
        p.r == Ok::<bool, StopSeq>(true) || p.r matches Err(Halt::Ask(_)),
        result(now) != 0 ==> p.k.live.contains_key(result(now)) && p.k.live[result(now)].call_site == at
            && asked_for(k, counter(regs), regs, p.k.live[result(now)].size),
        result(now) == 0 ==> p.k.live == o.k.live,
        forall|b: usize|
            b != result(now) ==> p.k.live.contains_key(b) == o.k.live.contains_key(b) && (
            o.k.live.contains_key(b) ==> #[trigger] p.k.live[b] == o.k.live[b]),
        forall|b: usize| #[trigger]
            p.k.pending.contains_key(b) ==> k.pending.contains_key(b) && p.k.pending[b] == k.pending[b],
{
    law_call_is_noted(k, d, t, regs, at);
    law_return_takes_the_latest(o.k, e, u, now, at);
    assert forall|b: usize| #[trigger] p.k.pending.contains_key(b) implies k.pending.contains_key(b)
        && p.k.pending[b] == k.pending[b] by {
        if b != at {
            assert(o.k.pending[b] == k.pending[b]);
        } else {
            assert(k.pending.contains_key(b));
        }
    }
}

/// A stop at an address to which allocations return takes the latest of them. Once none waits there any
/// more, the breakpoint is taken away.
pub proof fn law_return_takes_the_latest(k: Leaks, d: Dbg, t: Rest, regs: Registers, at: usize)
    requires
        k.enabled,
        stops_with(d, t, regs),
        counter(regs) == at,
        !allocates(k, at) && k.free != Some(at),
        k.pending.contains_key(at),
        k.pending[at].len() > 0,
    ensures
        ({
            let p = leak_tracker::stop_handled(k, d, t);
            let ptr = result(regs);
            &&& (p.r == Ok::<bool, StopSeq>(true) || p.r matches Err(Halt::Ask(_)))
            &&& p.k.live == (if ptr != 0 {
                k.live.insert(
                    ptr,
                    AllocInfo {
                        size: k.pending[at].last().size,
                        call_site: k.pending[at].last().call_site,
                    },
                )
            } else {
                k.live
            })
            &&& p.k.pending == (if k.pending[at].len() > 1 {
                k.pending.insert(at, k.pending[at].drop_last())
            } else {
                k.pending.remove(at)
            })
            &&& k.pending[at].len() > 1 ==> p.d == d && p.t == t.skip(2)
            &&& k.pending[at].len() == 1 ==> p.d == points::break_removed(d, t.skip(2), at).d && p.t
                == points::break_removed(d, t.skip(2), at).t
        }),
{
    reveal(leak_tracker::stop_handled);
    assert(t.skip(1)[0] == t[1]);
    assert(t.skip(1).skip(1) =~= t.skip(2));
}

/// A stop at `free` takes the block that it is given out of those in use, and nothing else changes.
pub proof fn law_free_ends_the_use(k: Leaks, d: Dbg, t: Rest, regs: Registers)
    requires
        k.enabled,
        told_apart(k),
        stops_with(d, t, regs),
        k.free == Some(counter(regs)),
    ensures
        ({
            let o = leak_tracker::stop_handled(k, d, t);
            &&& o.r == Ok::<bool, StopSeq>(true)
            &&& o.d == d
            &&& o.k.pending == k.pending
            &&& argument(regs, 0) != 0 ==> !o.k.live.contains_key(argument(regs, 0))
            &&& forall|b: usize|
                b != argument(regs, 0) || b == 0 ==> o.k.live.contains_key(b) == k.live.contains_key(b) && (
                k.live.contains_key(b) ==> #[trigger] o.k.live[b] == k.live[b])
        }),
{
    reveal(leak_tracker::stop_handled);
    assert(t.skip(1)[0] == t[1]);
}

/// Any other stop is the user's: the tracker and the session stay as they are. A tracker that is not
/// enabled does not even look.
pub proof fn law_other_stops_are_the_users(k: Leaks, d: Dbg, t: Rest, regs: Registers)
    ensures
        !k.enabled ==> leak_tracker::stop_handled(k, d, t) == leak_tracker::leak_out(
            Ok::<bool, StopSeq>(false),
            t,
            d,
            k,
        ),
        k.enabled && stops_with(d, t, regs) && !allocates(k, counter(regs)) && k.free != Some(
            counter(regs),
        ) && !k.pending.contains_key(counter(regs)) ==> leak_tracker::stop_handled(k, d, t)
            == leak_tracker::leak_out(Ok::<bool, StopSeq>(false), t.skip(2), d, k),
        k.enabled && d.current < d.threads.len() && t.len() == 0 ==> leak_tracker::stop_handled(k, d, t).r
            == Err::<bool, StopSeq>(
            Halt::Ask(Request::GetRegisters { port: d.threads[d.current as int].port }),
        ),
{
    reveal(leak_tracker::stop_handled);
    if t.len() >= 2 {
        assert(t.skip(1)[0] == t[1]);
        assert(t.skip(1).skip(1) =~= t.skip(2));
    }
}

/// The process runs on exactly after the stops that are the tracker's; any other stop, and the end of the
/// process, is handed to the user with the status that it has.
pub proof fn law_only_own_stops_run_on(l: Leaks, d: Dbg, t: Rest, status: WaitStatus)
    ensures
        leak_tracker::round(None, d, t, status) == (
            Ok::<Round, StopSeq>(Round::Done(status)),
            t,
            d,
            None::<Leaks>,
        ),
        !(status is Stopped) ==> leak_tracker::round(Some(l), d, t, status) == (
            Ok::<Round, StopSeq>(Round::Done(status)),
            t,
            d,
            Some(l),
        ),
        status is Stopped ==> ({
            let o = leak_tracker::stop_handled(l, d, t);
            let n = leak_tracker::round(Some(l), d, t, status);
            &&& n.3 == Some(o.k)
            &&& o.r == Ok::<bool, StopSeq>(false) ==> n.0 == Ok::<Round, StopSeq>(Round::Done(status)) && n.1
                == o.t && n.2 == o.d
            &&& o.r == Ok::<bool, StopSeq>(true) ==> n.0 == leak_tracker::ran_on(o.d, o.t).r && n.2
                == leak_tracker::ran_on(o.d, o.t).d
            &&& o.r matches Err(h) ==> n.0 == Err::<Round, StopSeq>(h)
        }),
{
}

/// To run on is to continue: what comes next is a stop to be taken up, with the status of that run.
pub proof fn law_running_on_continues(d: Dbg, t: Rest, c: debugger::Out<WaitStatus>)
    requires
        c == run::continued(d, t),
    ensures
        leak_tracker::ran_on(d, t).d == c.d && leak_tracker::ran_on(d, t).t == c.t,
        c.r matches Ok(s) ==> leak_tracker::ran_on(d, t).r == Ok::<Round, StopSeq>(Round::Again(s)),
        c.r matches Err(h) ==> leak_tracker::ran_on(d, t).r == Err::<Round, StopSeq>(h),
{
    reveal(leak_tracker::ran_on);
}

/// A breakpoint that was set is set, and those that were set before still are.
proof fn lemma_set(d: Dbg, t: Rest, addr: usize)
    ensures
        points::break_set(d, t, addr).r is Ok ==> debugger::is_set(points::break_set(d, t, addr).d, addr),
        forall|a: usize| #[trigger]
            debugger::is_set(d, a) && points::break_set(d, t, addr).r is Ok ==> debugger::is_set(
                points::break_set(d, t, addr).d,
                a,
            ),
{
}

proof fn lemma_hooked(d: Dbg, t: Rest, at: Seq<usize>, i: nat)
    requires
        leak_tracker::hooked(d, t, at, i).r is Ok,
    ensures
        forall|j: int|
            i <= j < at.len() ==> debugger::is_set(leak_tracker::hooked(d, t, at, i).d, #[trigger] at[j]),
        forall|a: usize| #[trigger]
            debugger::is_set(d, a) ==> debugger::is_set(leak_tracker::hooked(d, t, at, i).d, a),
    decreases at.len() - i,
{
    if i < at.len() {
        let o = points::break_set(d, t, at[i as int]);
        lemma_set(d, t, at[i as int]);
        lemma_hooked(o.d, o.t, at, i + 1);
        assert(debugger::is_set(o.d, at[i as int]));
    }
}

/// When the tracking has begun, a breakpoint stands at each of the functions that were found, the tracker
/// knows them, and nothing is in use or under way.
pub proof fn law_tracking_watches_the_functions(
    k: Leaks,
    d: Dbg,
    t: Rest,
    malloc: Option<usize>,
    calloc: Option<usize>,
    realloc: Option<usize>,
    free: Option<usize>,
)
    requires
        leak_tracker::tracking(k, d, t, malloc, calloc, realloc, free).r is Ok,
    ensures
        ({
            let o = leak_tracker::tracking(k, d, t, malloc, calloc, realloc, free);
            &&& o.k.enabled
            &&& o.k.malloc == malloc && o.k.calloc == calloc && o.k.realloc == realloc && o.k.free == free
            &&& o.k.live.dom() =~= Set::empty() && o.k.pending.dom() =~= Set::empty()
            &&& malloc matches Some(a) ==> debugger::is_set(o.d, a)
            &&& calloc matches Some(a) ==> debugger::is_set(o.d, a)
            &&& realloc matches Some(a) ==> debugger::is_set(o.d, a)
            &&& free matches Some(a) ==> debugger::is_set(o.d, a)
        }),
{
    let at = leak_tracker::hooks(malloc, calloc, realloc, free);
    lemma_hooked(d, t, at, 0);
    let n1: int = if malloc is Some { 1 } else { 0 };
    let n2: int = n1 + if calloc is Some { 1int } else { 0 };
    let n3: int = n2 + if realloc is Some { 1int } else { 0 };
    assert(malloc is Some ==> at[0] == malloc->0);
    assert(calloc is Some ==> at[n1] == calloc->0);
    assert(realloc is Some ==> at[n2] == realloc->0);
    assert(free is Some ==> at[n3] == free->0);
}

proof fn lemma_unhooked(d: Dbg, t: Rest, at: Seq<usize>, i: nat, a: usize)
    requires
        d.host == Arch::X86_64,
        i <= at.len(),
        run::uninstalled(d, t, at, i).r is Ok,
    ensures
        run::uninstalled(d, t, at, i).d.host == Arch::X86_64,
        run::uninstalled(d, t, at, i).d.bps.contains_key(a) <==> d.bps.contains_key(a) && (forall|j: int|
            i <= j < at.len() ==> #[trigger] at[j] != a),
    decreases at.len() - i,
{
    if i < at.len() {
        let o = points::break_removed(d, t, at[i as int]);
        assert(o.d.host == d.host);
        assert(o.d.bps == d.bps.remove(at[i as int]));
        lemma_unhooked(o.d, o.t, at, i + 1, a);
    }
}

/// When the tracking has ended on x86_64, its breakpoints are gone, those of the functions and those of
/// the returns, and no others. What is in use can still be shown.
pub proof fn law_tracking_ends(k: Leaks, d: Dbg, t: Rest, at: Seq<usize>)
    requires
        d.host == Arch::X86_64,
        leak_tracker::untracked(k, d, t, at).r is Ok,
    ensures
        ({
            let o = leak_tracker::untracked(k, d, t, at);
            &&& !o.k.enabled && o.k.live == k.live && o.k.pending.dom() =~= Set::empty()
            &&& forall|a: usize| #[trigger]
                o.d.bps.contains_key(a) <==> d.bps.contains_key(a) && !(k.malloc == Some(a) || k.calloc
                    == Some(a) || k.realloc == Some(a) || k.free == Some(a) || at.contains(a))
        }),
{
    let hs = leak_tracker::hooks(k.malloc, k.calloc, k.realloc, k.free);
    let o = run::uninstalled(d, t, hs, 0);
    let q = leak_tracker::untracked(k, d, t, at);
    let n1: int = if k.malloc is Some { 1 } else { 0 };
    let n2: int = n1 + if k.calloc is Some { 1int } else { 0 };
    let n3: int = n2 + if k.realloc is Some { 1int } else { 0 };
    assert forall|a: usize| #[trigger]
        q.d.bps.contains_key(a) <==> d.bps.contains_key(a) && !(k.malloc == Some(a) || k.calloc == Some(a)
            || k.realloc == Some(a) || k.free == Some(a) || at.contains(a)) by {
        lemma_unhooked(d, t, hs, 0, a);
        lemma_unhooked(o.d, o.t, at, 0, a);
        assert(k.malloc == Some(a) ==> hs[0] == a);
        assert(k.calloc == Some(a) ==> hs[n1] == a);
        assert(k.realloc == Some(a) ==> hs[n2] == a);
        assert(k.free == Some(a) ==> hs[n3] == a);
    }
}

/// The blocks in use are shown one below the other in the order of `at`: each with its address, its size
/// and the address of its caller.
pub proof fn law_blocks_are_shown(
    syms: Option<&Symbols>,
    base: Option<u64>,
    live: Map<usize, AllocInfo>,
    at: Seq<usize>,
    n: int,
)
    requires
        0 <= n < at.len(),
    ensures
        leak_tracker::block_lines(syms, base, live, at, 0).len() == 0,
        ({
            let a = at[n];
            let head = "  "@ + numerals::addr_text(a as nat) + "  size="@ + numerals::pad_right(
                numerals::dec(live[a].size as nat),
                6,
                ' ',
            ) + "  caller="@ + numerals::addr_text(live[a].call_site as nat);
            let before = leak_tracker::block_lines(syms, base, live, at, n);
            let now = leak_tracker::block_lines(syms, base, live, at, n + 1);
            &&& (before + head).is_prefix_of(now)
            &&& now.last() == '\n'
            &&& (syms is None || base is None) ==> now == before + head + "\n"@
        }),
        ({
            let head = numerals::dec(at.len()) + " live allocation(s) (possible leaks):\n"@;
            leak_tracker::leaks_text(syms, base, live, at) == head + leak_tracker::block_lines(
                syms,
                base,
                live,
                at,
                at.len() as int,
            )
        }),
{
    reveal_strlit("\n");
    let a = at[n];
    let head = "  "@ + numerals::addr_text(a as nat) + "  size="@ + numerals::pad_right(
        numerals::dec(live[a].size as nat),
        6,
        ' ',
    ) + "  caller="@ + numerals::addr_text(live[a].call_site as nat);
    let before = leak_tracker::block_lines(syms, base, live, at, n);
    let now = leak_tracker::block_lines(syms, base, live, at, n + 1);
    assert(now == before + leak_tracker::block_line(syms, base, a, live[a]));
    assert(now.take((before + head).len() as int) =~= before + head);
    if syms is None || base is None {
        assert(now =~= before + head + "\n"@);
    }
}

/// The place of a call is that of the byte before the address to which it returns, seen from the base.
pub proof fn law_call_is_before_its_return(s: &Symbols, b: u64, site: usize, v: u64)
    requires
        v.wrapping_sub(s.text_vmaddr) == (site as u64).wrapping_sub(1).wrapping_sub(b),
    ensures
        leak_tracker::call_place(Some(s), Some(b), site) == symbols::location(s.line_rows@, v),
{
    assert((site as u64).wrapping_sub(b.wrapping_sub(s.text_vmaddr)).wrapping_sub(1) == v);
}

/// Without blocks in use no leaks are shown.
pub proof fn law_no_leaks(syms: Option<&Symbols>, base: Option<u64>, live: Map<usize, AllocInfo>)
    ensures
        leak_tracker::leaks_text(syms, base, live, Seq::empty()) == "No leaks detected.\n"@,
{
}

/// A block whose place is known has the name of the file and the line behind its addresses.
pub proof fn law_block_has_its_place(
    s: &Symbols,
    b: u64,
    live: Map<usize, AllocInfo>,
    at: Seq<usize>,
    n: int,
    p: Seq<char>,
    name: Seq<char>,
    line: u32,
)
    requires
        0 <= n < at.len(),
        leak_tracker::call_place(Some(s), Some(b), live[at[n]].call_site) == Some((p, line)),
        path::file_name(p) == Some(name),
    ensures
        ({
            let a = at[n];
            let head = "  "@ + numerals::addr_text(a as nat) + "  size="@ + numerals::pad_right(
                numerals::dec(live[a].size as nat),
                6,
                ' ',
            ) + "  caller="@ + numerals::addr_text(live[a].call_site as nat);
            leak_tracker::block_lines(Some(s), Some(b), live, at, n + 1) == leak_tracker::block_lines(
                Some(s),
                Some(b),
                live,
                at,
                n,
            ) + (head + ("  ("@ + name + ":"@ + numerals::dec(line as nat) + ")"@) + "\n"@)
        }),
{
}

} // verus!
