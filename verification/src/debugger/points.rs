//! Breakpoints and watchpoints.
use crate::arch::Arch;
use crate::breakpoint;
use crate::breakpoint::{BpSeq, Breakpoint};
use crate::debugger;
use crate::debugger::{Dbg, Debugger, Out, ThreadEntry, WatchpointInfo, WpSeq};
use crate::mach;
use crate::mach::{write_slot, SlotEdit};
use crate::register::{WatchCondition, WatchLen};
use crate::tape;
use crate::tape::{Got, Halt, Rest, Stop, StopSeq, Tape};
use crate::text::owned;
use vstd::prelude::*;

verus! {

/// Sets or clears a slot on the threads from `i` on, up to the first failure.
pub open spec fn on_all(t: Rest, ts: Seq<ThreadEntry>, host: Arch, e: SlotEdit, i: nat) -> Got<()>
    decreases ts.len() - i,
{
    if i >= ts.len() {
        (Ok(()), t)
    } else {
        match mach::slot_write(t, ts[i as int].port, host, e) {
            (Ok(_), u) => on_all(u, ts, host, e, i + 1),
            (Err(h), u) => (Err(h), u),
        }
    }
}

/// Sets or clears a slot on the threads from `i` on, as far as that succeeds.
pub open spec fn tried_on_all(t: Rest, ts: Seq<ThreadEntry>, host: Arch, e: SlotEdit, i: nat) -> Got<()>
    decreases ts.len() - i,
{
    if i >= ts.len() {
        (Ok(()), t)
    } else {
        match mach::slot_write(t, ts[i as int].port, host, e) {
            (Err(Halt::Ask(q)), u) => (Err(Halt::Ask(q)), u),
            (_, u) => tried_on_all(u, ts, host, e, i + 1),
        }
    }
}

/// The first free slot.
pub open spec fn free_slot(hw: Seq<Option<usize>>, i: nat) -> Option<nat>
    decreases hw.len() - i,
{
    if i >= hw.len() {
        None
    } else if hw[i as int] is None {
        Some(i)
    } else {
        free_slot(hw, i + 1)
    }
}

/// The first slot with that address.
pub open spec fn slot_of(hw: Seq<Option<usize>>, addr: usize, i: nat) -> Option<nat>
    decreases hw.len() - i,
{
    if i >= hw.len() {
        None
    } else if hw[i as int] == Some(addr) {
        Some(i)
    } else {
        slot_of(hw, addr, i + 1)
    }
}

/// Sets a breakpoint: on x86_64 a trap in the code, on aarch64 a slot of every thread.
pub open spec fn break_set(d: Dbg, t: Rest, addr: usize) -> Out<()> {
    match d.host {
        Arch::Aarch64 => match free_slot(d.hw, 0) {
            None => debugger::out(
                Err(
                    Halt::Fail(
                        "hardware breakpoint slots exhausted (max 16 breakpoints on ARM64)"@,
                    ),
                ),
                t,
                d,
            ),
            Some(slot) => {
                let e = Dbg { hw: d.hw.update(slot as int, Some(addr)), ..d };
                match on_all(
                    t,
                    d.threads,
                    Arch::Aarch64,
                    SlotEdit::SetBreak { slot: slot as usize, addr },
                    0,
                ) {
                    (Err(h), u) => debugger::out(Err(h), u, e),
                    (Ok(_), u) => debugger::out(
                        Ok(()),
                        u,
                        Dbg {
                            bps: d.bps.insert(
                                addr,
                                BpSeq { enabled: true, ..breakpoint::fresh(addr, d.arch) },
                            ),
                            ..e
                        },
                    ),
                }
            },
        },
        Arch::X86_64 => match breakpoint::armed(breakpoint::fresh(addr, d.arch), t, d.host) {
            (Err(h), u, _) => debugger::out(Err(h), u, d),
            (Ok(_), u, b) => debugger::out(Ok(()), u, Dbg { bps: d.bps.insert(addr, b), ..d }),
        },
    }
}

/// The state in which the process no longer stands at `addr`.
pub open spec fn left(d: Dbg, addr: usize) -> Dbg {
    if d.at_bp == Some(addr) {
        Dbg { at_bp: None, ..d }
    } else {
        d
    }
}

/// Takes a breakpoint away. Where there is none only the note that the process stands there goes.
pub open spec fn break_removed(d: Dbg, t: Rest, addr: usize) -> Out<()> {
    match d.host {
        Arch::Aarch64 => match slot_of(d.hw, addr, 0) {
            Some(slot) => match on_all(
                t,
                d.threads,
                Arch::Aarch64,
                SlotEdit::ClearBreak { slot: slot as usize },
                0,
            ) {
                (Err(h), u) => debugger::out(Err(h), u, d),
                (Ok(_), u) => debugger::out(
                    Ok(()),
                    u,
                    left(
                        Dbg { hw: d.hw.update(slot as int, None), bps: d.bps.remove(addr), ..d },
                        addr,
                    ),
                ),
            },
            None => debugger::out(Ok(()), t, left(Dbg { bps: d.bps.remove(addr), ..d }, addr)),
        },
        Arch::X86_64 => {
            let e = Dbg { bps: d.bps.remove(addr), ..d };
            if d.bps.contains_key(addr) {
                match breakpoint::disarmed(d.bps[addr], t, d.host) {
                    (Err(h), u, _) => debugger::out(Err(h), u, e),
                    (Ok(_), u, _) => debugger::out(Ok(()), u, left(e, addr)),
                }
            } else {
                debugger::out(Ok(()), t, left(e, addr))
            }
        },
    }
}

/// The slot of the watchpoint at `addr`.
pub open spec fn watch_at(w: Seq<Option<WpSeq>>, addr: usize, i: nat) -> Option<nat>
    decreases w.len() - i,
{
    if i >= w.len() {
        None
    } else if w[i as int] matches Some(p) && p.addr == addr {
        Some(i)
    } else {
        watch_at(w, addr, i + 1)
    }
}

/// The first slot without a watchpoint.
pub open spec fn watch_free(w: Seq<Option<WpSeq>>, i: nat) -> Option<nat>
    decreases w.len() - i,
{
    if i >= w.len() {
        None
    } else if w[i as int] is None {
        Some(i)
    } else {
        watch_free(w, i + 1)
    }
}

/// Sets the watchpoint in a free slot of every thread, with what its memory holds.
pub open spec fn watch_placed(
    d: Dbg,
    t: Rest,
    slot: nat,
    addr: usize,
    cond: WatchCondition,
    len: WatchLen,
    prev: Seq<u8>,
) -> Out<usize> {
    match on_all(
        t,
        d.threads,
        d.host,
        SlotEdit::SetWatch { slot: slot as usize, addr, cond, len },
        0,
    ) {
        (Err(h), u) => debugger::out(Err(h), u, d),
        (Ok(_), u) => debugger::out(
            Ok(slot as usize),
            u,
            Dbg { wps: d.wps.update(slot as int, Some(WpSeq { addr, cond, len, prev })), ..d },
        ),
    }
}

/// Sets a watchpoint: the slot. An address that is watched already keeps its slot.
pub open spec fn watch_set(
    d: Dbg,
    t: Rest,
    addr: usize,
    cond: WatchCondition,
    len: WatchLen,
) -> Out<usize> {
    match watch_at(d.wps, addr, 0) {
        Some(slot) => debugger::out(Ok(slot as usize), t, d),
        None => match watch_free(d.wps, 0) {
            None => debugger::out(
                Err(
                    Halt::Fail(
                        match d.host {
                            Arch::X86_64 => "watchpoint slots exhausted (max 4 on x86_64)"@,
                            Arch::Aarch64 => "watchpoint slots exhausted (max 4 on ARM64)"@,
                        },
                    ),
                ),
                t,
                d,
            ),
            Some(slot) => match d.host {
                Arch::X86_64 => watch_placed(d, t, slot, addr, cond, len, Seq::empty()),
                Arch::Aarch64 => match debugger::mem_or_empty(d, t, addr, len.width()) {
                    (Err(h), u) => debugger::out(Err(h), u, d),
                    (Ok(prev), u) => watch_placed(d, u, slot, addr, cond, len, prev),
                },
            },
        },
    }
}

/// Takes the watchpoint of a slot away.
pub open spec fn watch_removed(d: Dbg, t: Rest, slot: usize) -> Out<()> {
    if slot >= 4 {
        debugger::out(Err(Halt::Fail("invalid watchpoint slot"@)), t, d)
    } else {
        match on_all(t, d.threads, d.host, SlotEdit::ClearWatch { slot }, 0) {
            (Err(h), u) => debugger::out(Err(h), u, d),
            (Ok(_), u) => debugger::out(Ok(()), u, Dbg { wps: d.wps.update(slot as int, None), ..d }),
        }
    }
}

/// How far the instructions at the beginning of `code` are the prologue of a function. On x86_64 these
/// are `push rbp`, `mov rbp, rsp` and perhaps `sub rsp, N`; on aarch64 `stp x29, x30, [sp, #-16]!`,
/// `mov x29, sp` and perhaps `sub sp, sp, #N`.
pub open spec fn prologue_len(code: Seq<u8>, host: Arch) -> usize {
    match host {
        Arch::X86_64 => if !begins(code, 0, seq![0x55u8]) {
            0
        } else if !begins(code, 1, seq![0x48u8, 0x89, 0xe5]) {
            1
        } else if begins(code, 4, seq![0x48u8, 0x83, 0xec]) {
            8
        } else if begins(code, 4, seq![0x48u8, 0x81, 0xec]) {
            11
        } else {
            4
        },
        Arch::Aarch64 => if !begins(code, 0, seq![0xfdu8, 0x7b, 0xbf, 0xa9]) {
            0
        } else if !begins(code, 4, seq![0xfdu8, 0x03, 0x00, 0x91]) {
            4
        } else if code.len() > 11 && code[8] == 0xff && code[11] == 0xd1 {
            12
        } else {
            8
        },
    }
}

/// Whether `part` stands at `off` in `code`.
pub open spec fn begins(code: Seq<u8>, off: int, part: Seq<u8>) -> bool {
    off + part.len() <= code.len() && code.subrange(off, off + part.len()) == part
}

/// Whether the three bytes `a`, `b`, `c` stand at `off`.
pub fn three_at(code: &Vec<u8>, off: usize, a: u8, b: u8, c: u8) -> (r: bool)
    requires
        off <= 100,
    ensures
        r == begins(code@, off as int, seq![a, b, c]),
{
    let ghost part: Seq<u8> = seq![a, b, c];
    if code.len() >= off + 3 {
        let r: bool = code[off] == a && code[off + 1] == b && code[off + 2] == c;
        proof {
            let s = code@.subrange(off as int, off + 3);
            assert(s[0] == code@[off as int] && s[1] == code@[off + 1] && s[2] == code@[off + 2]);
            if r {
                assert(s =~= part);
            } else {
                assert(part[0] == a && part[1] == b && part[2] == c);
            }
        }
        r
    } else {
        false
    }
}

/// Whether the four bytes `a`, `b`, `c`, `d` stand at `off`.
pub fn four_at(code: &Vec<u8>, off: usize, a: u8, b: u8, c: u8, d: u8) -> (r: bool)
    requires
        off <= 100,
    ensures
        r == begins(code@, off as int, seq![a, b, c, d]),
{
    let ghost part: Seq<u8> = seq![a, b, c, d];
    if code.len() >= off + 4 {
        let r: bool = code[off] == a && code[off + 1] == b && code[off + 2] == c && code[off + 3] == d;
        proof {
            let s = code@.subrange(off as int, off + 4);
            assert(s[0] == code@[off as int] && s[1] == code@[off + 1] && s[2] == code@[off + 2] && s[3]
                == code@[off + 3]);
            if r {
                assert(s =~= part);
            } else {
                assert(part[0] == a && part[1] == b && part[2] == c && part[3] == d);
            }
        }
        r
    } else {
        false
    }
}

/// How far the instructions at the beginning of `code` are the prologue of a function.
pub fn measure_prologue(code: &Vec<u8>, host: Arch) -> (r: usize)
    ensures
        r == prologue_len(code@, host),
{
    match host {
        Arch::X86_64 => {
            let push: bool = code.len() > 0 && code[0] == 0x55;
            proof {
                if code@.len() > 0 {
                    let s = code@.subrange(0, 1);
                    assert(s[0] == code@[0]);
                    if push {
                        assert(s =~= seq![0x55u8]);
                    } else {
                        assert(seq![0x55u8][0] == 0x55);
                    }
                }
            }
            if !push {
                0
            } else if !three_at(code, 1, 0x48, 0x89, 0xe5) {
                1
            } else if three_at(code, 4, 0x48, 0x83, 0xec) {
                8
            } else if three_at(code, 4, 0x48, 0x81, 0xec) {
                11
            } else {
                4
            }
        },
        Arch::Aarch64 => {
            if !four_at(code, 0, 0xfd, 0x7b, 0xbf, 0xa9) {
                0
            } else if !four_at(code, 4, 0xfd, 0x03, 0x00, 0x91) {
                4
            } else if code.len() > 11 && code[8] == 0xff && code[11] == 0xd1 {
                12
            } else {
                8
            }
        },
    }
}

/// The address behind the prologue of the function at `addr`; `addr` where memory cannot be read.
pub open spec fn behind_prologue(d: Dbg, t: Rest, addr: usize) -> Got<usize> {
    match crate::debugger::mem_of(d, t, addr, 16) {
        (Err(Halt::Ask(q)), u) => (Err(Halt::Ask(q)), u),
        (Err(_), u) => (Ok(addr), u),
        (Ok(code), u) => (Ok(addr.wrapping_add(prologue_len(code, d.host))), u),
    }
}

impl Debugger {
    /// Sets or clears a slot on every thread, up to the first failure.
    pub fn write_all(&self, io: &mut Tape, host: Arch, e: SlotEdit) -> (r: Result<(), Stop>)
        requires
            e.valid(),
        ensures
            (tape::step(r), final(io)@) == on_all(old(io)@, self.state().threads, host, e, 0),
    {
        let mut i: usize = 0;
        while i < self.threads.len()
            invariant
                i <= self.threads@.len(),
                e.valid(),
                on_all(old(io)@, self.threads@, host, e, 0) == on_all(
                    io@,
                    self.threads@,
                    host,
                    e,
                    i as nat,
                ),
            decreases self.threads.len() - i,
        {
            write_slot(io, self.threads[i].port, host, e)?;
            i = i + 1;
        }
        Ok(())
    }

    /// Sets or clears a slot on every thread, as far as that succeeds.
    pub fn try_all(&self, io: &mut Tape, host: Arch, e: SlotEdit) -> (r: Result<(), Stop>)
        requires
            e.valid(),
        ensures
            (tape::step(r), final(io)@) == tried_on_all(old(io)@, self.state().threads, host, e, 0),
    {
        let mut i: usize = 0;
        while i < self.threads.len()
            invariant
                i <= self.threads@.len(),
                e.valid(),
                tried_on_all(old(io)@, self.threads@, host, e, 0) == tried_on_all(
                    io@,
                    self.threads@,
                    host,
                    e,
                    i as nat,
                ),
            decreases self.threads.len() - i,
        {
            if let Err(Halt::Ask(q)) = write_slot(io, self.threads[i].port, host, e) {
                return Err(Halt::Ask(q));
            }
            i = i + 1;
        }
        Ok(())
    }

    /// Takes the first free breakpoint slot for `addr`.
    pub fn alloc_hw_slot(&mut self, addr: usize) -> (r: Result<usize, Stop>)
        ensures
            match free_slot(old(self).state().hw, 0) {
                Some(slot) => tape::step(r) == Ok::<usize, StopSeq>(slot as usize) && slot < 16
                    && final(self).state() == (Dbg {
                    hw: old(self).state().hw.update(slot as int, Some(addr)),
                    ..old(self).state()
                }),
                None => tape::step(r) == Err::<usize, StopSeq>(
                    Halt::Fail(
                        "hardware breakpoint slots exhausted (max 16 breakpoints on ARM64)"@,
                    ),
                ) && final(self).state() == old(self).state(),
            },
    {
        let mut i: usize = 0;
        while i < 16
            invariant
                i <= 16,
                *self == *old(self),
                free_slot(self.hw_bp_slots@, 0) == free_slot(self.hw_bp_slots@, i as nat),
            decreases 16 - i,
        {
            if self.hw_bp_slots[i].is_none() {
                self.hw_bp_slots[i] = Some(addr);
                assert(self.state() =~= Dbg {
                    hw: old(self).state().hw.update(i as int, Some(addr)),
                    ..old(self).state()
                });
                return Ok(i);
            }
            i = i + 1;
        }
        Err(Halt::Fail(owned("hardware breakpoint slots exhausted (max 16 breakpoints on ARM64)")))
    }

    /// Frees a breakpoint slot.
    pub fn release_hw_slot(&mut self, slot: usize)
        requires
            slot < 16,
        ensures
            final(self).state() == (Dbg {
                hw: old(self).state().hw.update(slot as int, None),
                ..old(self).state()
            }),
    {
        self.hw_bp_slots[slot] = None;
        assert(self.state() =~= Dbg {
            hw: old(self).state().hw.update(slot as int, None),
            ..old(self).state()
        });
    }

    /// The breakpoint slot of an address.
    pub fn find_hw_slot(&self, addr: usize) -> (r: Option<usize>)
        ensures
            match r {
                Some(i) => i < 16 && slot_of(self.state().hw, addr, 0) == Some(i as nat),
                None => slot_of(self.state().hw, addr, 0) is None,
            },
    {
        let mut i: usize = 0;
        while i < 16
            invariant
                i <= 16,
                slot_of(self.hw_bp_slots@, addr, 0) == slot_of(self.hw_bp_slots@, addr, i as nat),
            decreases 16 - i,
        {
            if let Some(a) = self.hw_bp_slots[i] {
                if a == addr {
                    return Some(i);
                }
            }
            i = i + 1;
        }
        None
    }

    /// Adds a breakpoint to the table.
    pub fn note_breakpoint(&mut self, addr: usize, b: Breakpoint)
        ensures
            final(self).state() == (Dbg {
                bps: old(self).state().bps.insert(addr, b.seq()),
                ..old(self).state()
            }),
    {
        let ghost s = b.seq();
        self.breakpoints.insert(addr, b);
        assert(self.state().bps =~= old(self).state().bps.insert(addr, s));
        assert(self.state() =~= Dbg {
            bps: old(self).state().bps.insert(addr, s),
            ..old(self).state()
        });
    }

    /// Takes a breakpoint out of the table.
    pub fn forget_breakpoint(&mut self, addr: usize) -> (r: Option<Breakpoint>)
        ensures
            final(self).state() == (Dbg { bps: old(self).state().bps.remove(addr), ..old(self).state() }),
            match r {
                Some(b) => old(self).state().bps.contains_key(addr) && old(self).state().bps[addr]
                    == b.seq(),
                None => !old(self).state().bps.contains_key(addr),
            },
    {
        let r = self.breakpoints.remove(addr);
        assert(self.state().bps =~= old(self).state().bps.remove(addr));
        assert(self.state() =~= Dbg { bps: old(self).state().bps.remove(addr), ..old(self).state() });
        r
    }

    /// Notes that the process no longer stands at `addr`.
    fn leave(&mut self, addr: usize)
        ensures
            final(self).state() == left(old(self).state(), addr),
    {
        if let Some(a) = self.at_breakpoint {
            if a == addr {
                self.at_breakpoint = None;
                assert(self.state() =~= left(old(self).state(), addr));
            }
        }
    }

    /// Sets a breakpoint: on x86_64 a trap in the code, on aarch64 a slot of every thread.
    pub fn set_breakpoint(&mut self, io: &mut Tape, addr: usize) -> (r: Result<(), Stop>)
        ensures
            debugger::out(tape::step(r), final(io)@, final(self).state()) == break_set(
                old(self).state(),
                old(io)@,
                addr,
            ),
    {
        if self.host == Arch::Aarch64 {
            let slot: usize = self.alloc_hw_slot(addr)?;
            self.write_all(io, Arch::Aarch64, SlotEdit::SetBreak { slot, addr })?;
            let b = Breakpoint::new_hw_enabled(addr, self.arch);
            self.note_breakpoint(addr, b);
            return Ok(());
        }
        let mut b = Breakpoint::new(addr, self.arch);
        b.enable(io, self.host)?;
        self.note_breakpoint(addr, b);
        Ok(())
    }

    /// Takes a breakpoint away.
    pub fn remove_breakpoint(&mut self, io: &mut Tape, addr: usize) -> (r: Result<(), Stop>)
        ensures
            debugger::out(tape::step(r), final(io)@, final(self).state()) == break_removed(
                old(self).state(),
                old(io)@,
                addr,
            ),
    {
        if self.host == Arch::Aarch64 {
            if let Some(slot) = self.find_hw_slot(addr) {
                self.write_all(io, Arch::Aarch64, SlotEdit::ClearBreak { slot })?;
                self.release_hw_slot(slot);
            }
            self.forget_breakpoint(addr);
            self.leave(addr);
            return Ok(());
        }
        if let Some(mut b) = self.forget_breakpoint(addr) {
            b.disable(io, self.host)?;
        }
        self.leave(addr);
        Ok(())
    }

    /// Sets a watchpoint: the slot. An address that is watched already keeps its slot.
    pub fn set_watchpoint(
        &mut self,
        io: &mut Tape,
        addr: usize,
        cond: WatchCondition,
        len: WatchLen,
    ) -> (r: Result<usize, Stop>)
        ensures
            debugger::out(tape::step(r), final(io)@, final(self).state()) == watch_set(
                old(self).state(),
                old(io)@,
                addr,
                cond,
                len,
            ),
    {
        let ghost w = self.state().wps;
        let mut i: usize = 0;
        while i < 4
            invariant
                i <= 4,
                *self == *old(self),
                io@ == old(io)@,
                w == self.state().wps,
                watch_at(w, addr, 0) == watch_at(w, addr, i as nat),
            decreases 4 - i,
        {
            assert(w[i as int] == debugger::slot_seq(self.wp_slots@[i as int]));
            if let Some(p) = &self.wp_slots[i] {
                if p.addr == addr {
                    return Ok(i);
                }
            }
            i = i + 1;
        }
        let mut slot: usize = 0;
        while slot < 4 && self.wp_slots[slot].is_some()
            invariant
                slot <= 4,
                *self == *old(self),
                w == self.state().wps,
                watch_free(w, 0) == watch_free(w, slot as nat),
            decreases 4 - slot,
        {
            assert(w[slot as int] == debugger::slot_seq(self.wp_slots@[slot as int]));
            slot = slot + 1;
        }
        if slot == 4 {
            return Err(
                Halt::Fail(
                    match self.host {
                        Arch::X86_64 => owned("watchpoint slots exhausted (max 4 on x86_64)"),
                        Arch::Aarch64 => owned("watchpoint slots exhausted (max 4 on ARM64)"),
                    },
                ),
            );
        }
        assert(w[slot as int] == debugger::slot_seq(self.wp_slots@[slot as int]));
        let prev: Vec<u8> = if self.host == Arch::Aarch64 {
            self.read_or_empty(io, addr, len.as_bytes())?
        } else {
            let v: Vec<u8> = Vec::new();
            assert(v@ =~= Seq::empty());
            v
        };
        self.write_all(io, self.host, SlotEdit::SetWatch { slot, addr, cond, len })?;
        let ghost p = prev@;
        self.wp_slots[slot] = Some(WatchpointInfo { addr, cond, len, prev_value: prev });
        proof {
            let now = w.update(slot as int, Some(WpSeq { addr, cond, len, prev: p }));
            assert(self.state().wps =~= now);
            assert(self.state() =~= Dbg { wps: now, ..old(self).state() });
        }
        Ok(slot)
    }

    /// Takes the watchpoint of a slot away.
    pub fn remove_watchpoint_slot(&mut self, io: &mut Tape, slot: usize) -> (r: Result<(), Stop>)
        ensures
            debugger::out(tape::step(r), final(io)@, final(self).state()) == watch_removed(
                old(self).state(),
                old(io)@,
                slot,
            ),
    {
        if slot >= 4 {
            return Err(Halt::Fail(owned("invalid watchpoint slot")));
        }
        self.write_all(io, self.host, SlotEdit::ClearWatch { slot })?;
        self.wp_slots[slot] = None;
        proof {
            let now = old(self).state().wps.update(slot as int, None);
            assert(self.state().wps =~= now);
            assert(self.state() =~= Dbg { wps: now, ..old(self).state() });
        }
        Ok(())
    }

    /// The address behind the prologue of the function at `addr`.
    pub fn skip_prologue_insns(&self, io: &mut Tape, addr: usize) -> (r: Result<usize, Stop>)
        ensures
            (tape::step(r), final(io)@) == behind_prologue(self.state(), old(io)@, addr),
    {
        match self.read_memory(io, addr, 16) {
            Ok(code) => Ok(addr.wrapping_add(measure_prologue(&code, self.host))),
            Err(Halt::Ask(q)) => Err(Halt::Ask(q)),
            Err(_) => Ok(addr),
        }
    }
}

} // verus!
