//! The debugger: the state of a session and the operations on it.
use crate::addr_map;
use crate::addr_map::AddrMap;
use crate::arch::Arch;
use crate::breakpoint;
use crate::breakpoint::{hide_traps, BpSeq, Breakpoint};
use crate::mach;
use crate::register::{Floats, Registers, WatchCondition, WatchLen};
use crate::tape;
use crate::tape::{Got, Halt, Rest, Stop, StopSeq, Tape};
use crate::text::owned;
use vstd::prelude::*;

pub mod dialogue;
pub mod finish_laws;
pub mod laws;
pub mod point_laws;
pub mod points;
pub mod run;
pub mod step_laws;
pub mod thread_laws;
pub mod threads;

verus! {

/// The signal of a trap.
pub const SIGTRAP: i32 = 5;

/// What a process that was waited for did.
#[derive(Debug, Clone, Copy, PartialEq, Eq, Structural)]
pub enum WaitStatus {
    Stopped { signal: i32, pc: u64 },
    Exited { code: i32 },
    Signaled { signal: i32 },
    Unknown { status: i32 },
}

/// A thread of the process.
#[derive(Debug, Clone, Copy, PartialEq, Eq, Structural)]
pub struct ThreadEntry {
    pub port: u32,
    pub tid: u64,
    /// Whether the user has suspended it.
    pub suspended: bool,
}

/// What is shown of a thread.
#[derive(Debug, Clone, Copy, PartialEq, Eq, Structural)]
pub struct ThreadSummary {
    pub index: usize,
    pub tid: u64,
    pub pc: Option<u64>,
    pub suspended: bool,
    pub current: bool,
}

/// A watchpoint.
#[derive(Clone, Debug)]
pub struct WatchpointInfo {
    pub addr: usize,
    pub cond: WatchCondition,
    pub len: WatchLen,
    /// What the watched memory held when it was last looked at. Only aarch64 needs it: there no register
    /// tells which watchpoint was hit.
    pub prev_value: Vec<u8>,
}

/// A watchpoint with its bytes as a sequence.
#[verifier::ext_equal]
pub struct WpSeq {
    pub addr: usize,
    pub cond: WatchCondition,
    pub len: WatchLen,
    pub prev: Seq<u8>,
}

impl WatchpointInfo {
    /// The watchpoint with its bytes as a sequence.
    pub open spec fn seq(self) -> WpSeq {
        WpSeq { addr: self.addr, cond: self.cond, len: self.len, prev: self.prev_value@ }
    }
}

/// A slot with its watchpoint's bytes as a sequence.
pub open spec fn slot_seq(w: Option<WatchpointInfo>) -> Option<WpSeq> {
    match w {
        Some(i) => Some(i.seq()),
        None => None,
    }
}

/// A session.
#[derive(Clone)]
pub struct Debugger {
    pub pid: i32,
    /// Whether the process was started by the debugger, and not attached to.
    pub spawned: bool,
    /// The port of the process; zero until it is known.
    pub task: u32,
    pub threads: Vec<ThreadEntry>,
    /// The index of the thread that registers and steps are about.
    pub current: usize,
    pub breakpoints: AddrMap<Breakpoint>,
    pub last_status: Option<WaitStatus>,
    /// The address of the breakpoint at which the process stands.
    pub at_breakpoint: Option<usize>,
    /// The architecture of the program.
    pub arch: Arch,
    /// The architecture of the machine: on x86_64 breakpoints are traps in the code, on aarch64 they are
    /// slots of the debug registers.
    pub host: Arch,
    pub hw_bp_slots: [Option<usize>; 16],
    pub wp_slots: [Option<WatchpointInfo>; 4],
    /// The address of the watchpoint that stopped the process.
    pub at_watchpoint: Option<usize>,
}

/// The state of a session.
#[verifier::ext_equal]
pub struct Dbg {
    pub pid: i32,
    pub spawned: bool,
    pub task: u32,
    pub threads: Seq<ThreadEntry>,
    pub current: usize,
    pub bps: Map<usize, BpSeq>,
    pub last: Option<WaitStatus>,
    pub at_bp: Option<usize>,
    pub arch: Arch,
    pub host: Arch,
    pub hw: Seq<Option<usize>>,
    pub wps: Seq<Option<WpSeq>>,
    pub at_wp: Option<usize>,
}

/// What an operation came to: its outcome, the answers that are left and the state.
pub struct Out<A> {
    pub r: Result<A, StopSeq>,
    pub t: Rest,
    pub d: Dbg,
}

/// What an operation came to.
pub open spec fn out<A>(r: Result<A, StopSeq>, t: Rest, d: Dbg) -> Out<A> {
    Out { r, t, d }
}

/// An operation that leaves the state as it is.
pub open spec fn kept<A>(g: Got<A>, d: Dbg) -> Out<A> {
    Out { r: g.0, t: g.1, d }
}

impl Debugger {
    /// The state of the session.
    pub open spec fn state(self) -> Dbg {
        Dbg {
            pid: self.pid,
            spawned: self.spawned,
            task: self.task,
            threads: self.threads@,
            current: self.current,
            bps: breakpoint::table(self.breakpoints@),
            last: self.last_status,
            at_bp: self.at_breakpoint,
            arch: self.arch,
            host: self.host,
            hw: self.hw_bp_slots@,
            wps: self.wp_slots@.map_values(|w: Option<WatchpointInfo>| slot_seq(w)),
            at_wp: self.at_watchpoint,
        }
    }
}

/// Whether a breakpoint is set at `addr`.
pub open spec fn is_set(d: Dbg, addr: usize) -> bool {
    d.bps.contains_key(addr) && d.bps[addr].enabled
}

/// The port of the current thread.
pub open spec fn port_of(d: Dbg) -> Result<u32, StopSeq> {
    if d.current < d.threads.len() {
        Ok(d.threads[d.current as int].port)
    } else {
        Err(Halt::Fail("no threads available"@))
    }
}

/// The registers of the current thread.
pub open spec fn regs_of(d: Dbg, t: Rest) -> Got<Registers> {
    match port_of(d) {
        Ok(p) => mach::regs_read(t, p),
        Err(h) => (Err(h), t),
    }
}

/// The program counter of the current thread.
pub open spec fn pc_of(d: Dbg, t: Rest) -> Got<u64> {
    match regs_of(d, t) {
        (Ok(r), u) => (Ok(r.spec_pc()), u),
        (Err(h), u) => (Err(h), u),
    }
}

/// The memory of the program: the traps of the breakpoints do not show.
pub open spec fn mem_of(d: Dbg, t: Rest, addr: usize, len: usize) -> Got<Seq<u8>> {
    match mach::mem_read(t, addr, len) {
        (Ok(b), u) => (Ok(breakpoint::program_bytes(d.bps, addr, b)), u),
        (Err(h), u) => (Err(h), u),
    }
}

/// The memory of the program, or nothing where it cannot be read.
pub open spec fn mem_or_empty(d: Dbg, t: Rest, addr: usize, len: usize) -> Got<Seq<u8>> {
    match mem_of(d, t, addr, len) {
        (Err(Halt::Ask(q)), u) => (Err(Halt::Ask(q)), u),
        (Err(_), u) => (Ok(Seq::empty()), u),
        (Ok(b), u) => (Ok(b), u),
    }
}

/// The last status as the outcome of an operation.
pub open spec fn last_of(d: Dbg) -> Result<WaitStatus, StopSeq> {
    match d.last {
        Some(s) => Ok(s),
        None => tape::unfit(),
    }
}

impl Debugger {
    /// The port of the current thread.
    pub fn current_thread_port(&self) -> (r: Result<u32, Stop>)
        ensures
            tape::step(r) == port_of(self.state()),
    {
        if self.current < self.threads.len() {
            Ok(self.threads[self.current].port)
        } else {
            Err(Halt::Fail(owned("no threads available")))
        }
    }

    /// The index and the identifier of the current thread.
    pub fn current_thread(&self) -> (r: Option<(usize, u64)>)
        ensures
            r == (if self.state().current < self.state().threads.len() {
                Some((self.state().current, self.state().threads[self.state().current as int].tid))
            } else {
                None
            }),
    {
        if self.current < self.threads.len() {
            Some((self.current, self.threads[self.current].tid))
        } else {
            None
        }
    }

    /// The registers of the current thread.
    pub fn registers(&self, io: &mut Tape) -> (r: Result<Registers, Stop>)
        ensures
            (tape::step(r), final(io)@) == regs_of(self.state(), old(io)@),
    {
        let p: u32 = self.current_thread_port()?;
        mach::get_registers(io, p)
    }

    /// Sets the registers of the current thread.
    pub fn set_registers(&self, io: &mut Tape, regs: Registers) -> (r: Result<(), Stop>)
        ensures
            (tape::step(r), final(io)@) == (match port_of(self.state()) {
                Ok(p) => mach::regs_write(old(io)@, p, regs),
                Err(h) => (Err(h), old(io)@),
            }),
    {
        let p: u32 = self.current_thread_port()?;
        mach::set_registers(io, p, regs)
    }

    /// The floating-point and vector registers of the current thread.
    pub fn float_registers(&self, io: &mut Tape) -> (r: Result<Floats, Stop>)
        ensures
            (tape::step(r), final(io)@) == (match port_of(self.state()) {
                Ok(p) => mach::floats_read(old(io)@, p),
                Err(h) => (Err(h), old(io)@),
            }),
    {
        let p: u32 = self.current_thread_port()?;
        mach::get_float_registers(io, p)
    }

    /// Sets the floating-point and vector registers of the current thread.
    pub fn set_float_registers(&self, io: &mut Tape, state: Floats) -> (r: Result<(), Stop>)
        ensures
            (tape::step(r), final(io)@) == (match port_of(self.state()) {
                Ok(p) => mach::floats_write(old(io)@, p, state),
                Err(h) => (Err(h), old(io)@),
            }),
    {
        let p: u32 = self.current_thread_port()?;
        mach::set_float_registers(io, p, state)
    }

    /// The program counter of the current thread.
    pub fn pc(&self, io: &mut Tape) -> (r: Result<u64, Stop>)
        ensures
            (tape::step(r), final(io)@) == pc_of(self.state(), old(io)@),
    {
        let regs = self.registers(io)?;
        Ok(regs.pc())
    }

    /// The memory of the program: the traps of the breakpoints do not show.
    pub fn read_memory(&self, io: &mut Tape, addr: usize, len: usize) -> (r: Result<Vec<u8>, Stop>)
        ensures
            (tape::step_bytes(r), final(io)@) == mem_of(self.state(), old(io)@, addr, len),
    {
        let mut buf = mach::read_memory(io, addr, len)?;
        hide_traps(&self.breakpoints, addr, &mut buf);
        Ok(buf)
    }

    /// The memory of the program, or nothing where it cannot be read.
    pub fn read_or_empty(&self, io: &mut Tape, addr: usize, len: usize) -> (r: Result<Vec<u8>, Stop>)
        ensures
            (tape::step_bytes(r), final(io)@) == mem_or_empty(self.state(), old(io)@, addr, len),
    {
        match self.read_memory(io, addr, len) {
            Ok(b) => Ok(b),
            Err(Halt::Ask(q)) => Err(Halt::Ask(q)),
            Err(_) => {
                let v: Vec<u8> = Vec::new();
                assert(v@ =~= Seq::empty());
                Ok(v)
            },
        }
    }

    /// Writes memory.
    pub fn write_memory(&self, io: &mut Tape, addr: usize, data: &[u8]) -> (r: Result<(), Stop>)
        ensures
            (tape::step(r), final(io)@) == mach::mem_write(old(io)@, addr, data@, self.state().host),
    {
        mach::write_memory(io, addr, data, self.host)
    }

    /// The four bytes of memory at `addr` as a number.
    pub fn read_word(&self, io: &mut Tape, addr: usize) -> (r: Result<u32, Stop>)
        ensures
            match r {
                Ok(v) => mach::number_read(old(io)@, addr, 4) == (
                    Ok::<nat, StopSeq>(v as nat),
                    final(io)@,
                ),
                Err(h) => mach::number_read(old(io)@, addr, 4) == (
                    Err::<nat, StopSeq>(h.seq()),
                    final(io)@,
                ),
            },
    {
        mach::read_word(io, addr)
    }

    /// The byte of memory at `addr`.
    pub fn read_byte(&self, io: &mut Tape, addr: usize) -> (r: Result<u8, Stop>)
        ensures
            match r {
                Ok(v) => mach::number_read(old(io)@, addr, 1) == (
                    Ok::<nat, StopSeq>(v as nat),
                    final(io)@,
                ),
                Err(h) => mach::number_read(old(io)@, addr, 1) == (
                    Err::<nat, StopSeq>(h.seq()),
                    final(io)@,
                ),
            },
    {
        mach::read_byte(io, addr)
    }

    /// Writes a byte of memory.
    pub fn write_byte(&self, io: &mut Tape, addr: usize, value: u8) -> (r: Result<(), Stop>)
        ensures
            (tape::step(r), final(io)@) == mach::mem_write(
                old(io)@,
                addr,
                seq![value],
                self.state().host,
            ),
    {
        mach::write_byte(io, addr, value, self.host)
    }

    /// The address at which the main executable is loaded.
    pub fn image_base(&self, io: &mut Tape) -> (r: Result<u64, Stop>)
        ensures
            (tape::step(r), final(io)@) == mach::base_from(old(io)@, mach::FIRST_BASE, 32),
    {
        mach::get_text_base(io)
    }

    /// What the process did last.
    pub fn last_status(&self) -> (r: Option<WaitStatus>)
        ensures
            r == self.state().last,
    {
        self.last_status
    }

    /// Whether the process stands at a breakpoint.
    pub fn is_at_breakpoint(&self) -> (r: bool)
        ensures
            r == (self.state().at_bp is Some),
    {
        self.at_breakpoint.is_some()
    }

    /// The address of the watchpoint that stopped the process.
    pub fn at_watchpoint(&self) -> (r: Option<usize>)
        ensures
            r == self.state().at_wp,
    {
        self.at_watchpoint
    }

    /// The addresses of the breakpoints in rising order.
    pub fn breakpoint_addrs(&self) -> (r: Vec<usize>)
        ensures
            addr_map::is_key_list(r@, self.state().bps.dom()),
    {
        let r = self.breakpoints.keys();
        assert(self.state().bps.dom() =~= self.breakpoints@.dom());
        r
    }

    /// Whether a breakpoint is set at `addr`.
    pub fn has_set(&self, addr: usize) -> (r: bool)
        ensures
            r == is_set(self.state(), addr),
    {
        match self.breakpoints.get(addr) {
            Some(b) => b.is_enabled(),
            None => false,
        }
    }

    /// The last status as the outcome of an operation.
    pub fn last_outcome(&self) -> (r: Result<WaitStatus, Stop>)
        ensures
            tape::step(r) == last_of(self.state()),
    {
        match self.last_status {
            Some(s) => Ok(s),
            None => Err(tape::unfit_stop()),
        }
    }

    /// The watchpoints with their slots, in the order of the slots.
    pub fn watchpoint_slots(&self) -> (r: Vec<(usize, &WatchpointInfo)>)
        ensures
            r@.map_values(|p: (usize, &WatchpointInfo)| (p.0, p.1.seq())) == used_slots(
                self.state().wps,
                0,
            ),
    {
        let mut out: Vec<(usize, &WatchpointInfo)> = Vec::new();
        let mut i: usize = 0;
        let ghost w = self.state().wps;
        let ghost f = |p: (usize, &WatchpointInfo)| (p.0, p.1.seq());
        assert(out@.map_values(f) + used_slots(w, 0) =~= used_slots(w, 0));
        while i < 4
            invariant
                i <= 4,
                w == self.state().wps,
                f == (|p: (usize, &WatchpointInfo)| (p.0, p.1.seq())),
                out@.map_values(f) + used_slots(w, i as nat) == used_slots(w, 0),
            decreases 4 - i,
        {
            let ghost done = out@.map_values(f);
            let ghost rest = used_slots(w, (i + 1) as nat);
            assert(w[i as int] == slot_seq(self.wp_slots@[i as int]));
            if let Some(info) = &self.wp_slots[i] {
                out.push((i, info));
                assert(out@.map_values(f) =~= done.push((i, info.seq())));
                assert(done + (seq![(i, info.seq())] + rest) =~= out@.map_values(f) + rest);
            } else {
                assert(done + (Seq::empty() + rest) =~= done + rest);
            }
            i = i + 1;
        }
        assert(out@.map_values(f) + used_slots(w, 4) =~= out@.map_values(f));
        out
    }
}

/// The slots from `i` on that hold a watchpoint, with it.
pub open spec fn used_slots(w: Seq<Option<WpSeq>>, i: nat) -> Seq<(usize, WpSeq)>
    decreases w.len() - i,
{
    if i >= w.len() {
        Seq::empty()
    } else {
        (match w[i as int] {
            Some(p) => seq![(i as usize, p)],
            None => Seq::empty(),
        }) + used_slots(w, i + 1)
    }
}

} // verus!
