use macos_c_debugger::addr_map::AddrMap;
use macos_c_debugger::arch::Arch;
use macos_c_debugger::commands::breaks::{
    break_command, delete_command, leaks_off, leaks_on, leaks_show, memory_command,
};
use macos_c_debugger::commands::assign::{
    next_target, set_memory, set_register, set_variable, Target,
};
use macos_c_debugger::commands::code::{print_disasm, show_command, show_disasm};
use macos_c_debugger::commands::line::list_target;
use macos_c_debugger::commands::location::current_line;
use macos_c_debugger::commands::show::{print_backtrace, Report};
use macos_c_debugger::commands::value::print_value;
use macos_c_debugger::commands::variables::{compute_frame_base, resolve_variable};
use macos_c_debugger::commands::walk::{
    next_line, next_line_on, step_line, step_line_on, LineWalk, Walked,
};
use macos_c_debugger::debug_info::{FrameBaseDef, LineRow, VarLocation, Variable};
use macos_c_debugger::names::NameSet;
use macos_c_debugger::stub_finder::find_stubs;
use macos_c_debugger::symbols::Symbols;
use macos_c_debugger::debugger::threads::get_main_thread;
use macos_c_debugger::debugger::{Debugger, ThreadEntry, WaitStatus};
use macos_c_debugger::leak_tracker::{auto_cont, LeakTracker, Round};
use macos_c_debugger::register::aarch64::ArmDebugState64;
use macos_c_debugger::register::x86_64::{ThreadState64, X86DebugState64};
use macos_c_debugger::register::{aarch64, Registers, WatchCondition, WatchLen};
use macos_c_debugger::tape::{Ans, Answer, DebugState, Halt, Req, Request, Stop, Tape};
use std::collections::BTreeMap;
use std::collections::VecDeque;

const STOPPED_TRAP: i32 = 0x057f;

/// A machine with a piece of memory, some threads, and a script of what the process does when it runs.
struct Machine {
    start: usize,
    memory: Vec<u8>,
    regs: BTreeMap<u32, Registers>,
    debug: BTreeMap<u32, DebugState>,
    ids: BTreeMap<u32, u64>,
    /// For each time that the process is waited for: the status, and where threads then are.
    stops: VecDeque<(i32, Vec<(u32, u64)>)>,
    released: Vec<u32>,
    log: Vec<String>,
    cpu: u32,
}

impl Machine {
    fn x86(start: usize, size: usize) -> Machine {
        let mut m = Machine {
            start,
            memory: vec![0x90; size],
            regs: BTreeMap::new(),
            debug: BTreeMap::new(),
            ids: BTreeMap::new(),
            stops: VecDeque::new(),
            released: Vec::new(),
            log: Vec::new(),
            cpu: 0x0100_0007,
        };
        m.add_thread(7, 100, start as u64);
        m
    }

    fn add_thread(&mut self, port: u32, tid: u64, pc: u64) {
        let mut r = ThreadState64::default();
        r.__rip = pc;
        r.__rsp = (self.start + 0x200) as u64;
        r.__rbp = (self.start + 0x300) as u64;
        self.regs.insert(port, Registers::X86(r));
        self.debug.insert(
            port,
            DebugState::X86(X86DebugState64 {
                __dr0: 0,
                __dr1: 0,
                __dr2: 0,
                __dr3: 0,
                __dr4: 0,
                __dr5: 0,
                __dr6: 0,
                __dr7: 0,
            }),
        );
        self.ids.insert(port, tid);
    }

    fn arm(start: usize, size: usize) -> Machine {
        let mut m = Machine::x86(start, size);
        m.cpu = 0x0100_000c;
        let mut r = aarch64::ThreadState64::default();
        r.__pc = start as u64;
        m.regs.insert(7, Registers::Arm(r));
        m.debug.insert(
            7,
            DebugState::Arm(ArmDebugState64 {
                bvr: [0; 16],
                bcr: [0; 16],
                wvr: [0; 16],
                wcr: [0; 16],
                mdscr_el1: 0,
            }),
        );
        m
    }

    fn put(&mut self, addr: usize, bytes: &[u8]) {
        for (i, b) in bytes.iter().enumerate() {
            self.memory[addr - self.start + i] = *b;
        }
    }

    fn at(&self, addr: usize) -> u8 {
        self.memory[addr - self.start]
    }

    fn set_pc(&mut self, port: u32, pc: u64) {
        if let Some(r) = self.regs.get_mut(&port) {
            r.set_pc(pc);
        }
    }

    fn answer(&mut self, req: Req) -> Ans {
        match req {
            Request::Read { addr, len } => {
                if addr < self.start || addr + len > self.start + self.memory.len() {
                    return Answer::Code(1);
                }
                let at = addr - self.start;
                Answer::Bytes(self.memory[at..at + len].to_vec())
            }
            Request::Write { addr, data } => {
                if addr < self.start || addr + data.len() > self.start + self.memory.len() {
                    return Answer::Code(2);
                }
                self.put(addr, &data);
                Answer::Code(0)
            }
            Request::WriteCode { .. } => Answer::Failed("not here".to_string()),
            Request::Region { addr } => {
                if addr as usize >= self.start + self.memory.len() {
                    return Answer::Code(1);
                }
                Answer::Region {
                    addr: self.start as u64,
                    size: self.memory.len() as u64,
                    prot: 5,
                    max_prot: 7,
                }
            }
            Request::Protect { prot, .. } => {
                self.log.push(format!("protect {}", prot));
                Answer::Code(0)
            }
            Request::Task => Answer::Port(3),
            Request::Threads { .. } => Answer::Ports(self.regs.keys().copied().collect()),
            Request::ThreadId { port } => match self.ids.get(&port) {
                Some(t) => Answer::Id(*t),
                None => Answer::Code(4),
            },
            Request::Release { port } => {
                self.released.push(port);
                Answer::Code(0)
            }
            Request::GetRegisters { port } => match self.regs.get(&port) {
                Some(r) => Answer::Registers(*r),
                None => Answer::Code(4),
            },
            Request::SetRegisters { port, regs } => {
                self.regs.insert(port, regs);
                Answer::Code(0)
            }
            Request::GetFloats { .. } => Answer::Code(5),
            Request::SetFloats { .. } => Answer::Code(5),
            Request::GetDebug { port } => match self.debug.get(&port) {
                Some(d) => Answer::Debug(*d),
                None => Answer::Code(4),
            },
            Request::SetDebug { port, state } => {
                self.debug.insert(port, state);
                Answer::Code(0)
            }
            Request::Suspend { port } => {
                self.log.push(format!("suspend {}", port));
                Answer::Code(0)
            }
            Request::Resume { port } => {
                self.log.push(format!("resume {}", port));
                Answer::Code(0)
            }
            Request::Continue => {
                self.log.push("continue".to_string());
                Answer::Done
            }
            Request::Wait => match self.stops.pop_front() {
                Some((-1, _)) => Answer::Interrupted,
                Some((status, moves)) => {
                    for (port, pc) in moves {
                        self.set_pc(port, pc);
                    }
                    Answer::Status(status)
                }
                None => Answer::Failed("No child processes".to_string()),
            },
            Request::Kill => {
                self.log.push("kill".to_string());
                Answer::Done
            }
            Request::Attach { pid } => {
                self.log.push(format!("attach {}", pid));
                Answer::Done
            }
            Request::Detach => {
                self.log.push("detach".to_string());
                Answer::Done
            }
        }
    }
}

/// Runs an operation to its end: what it asks is put to the machine, and it begins again.
fn run<T>(
    m: &mut Machine,
    dbg: &mut Debugger,
    op: impl Fn(&mut Tape, &mut Debugger) -> Result<T, Stop>,
) -> Result<T, String> {
    let mut answers: Vec<Ans> = Vec::new();
    loop {
        let mut trial = dbg.clone();
        let mut io = Tape::new(answers.clone());
        match op(&mut io, &mut trial) {
            Ok(v) => {
                *dbg = trial;
                return Ok(v);
            }
            Err(Halt::Fail(e)) => {
                *dbg = trial;
                return Err(e);
            }
            Err(Halt::Ask(req)) => answers.push(m.answer(req)),
        }
    }
}

fn begin(m: &mut Machine, attach: bool, host: Arch) -> Result<Debugger, String> {
    let mut answers: Vec<Ans> = Vec::new();
    loop {
        let mut io = Tape::new(answers.clone());
        let r = if attach {
            Debugger::attach(&mut io, 42, host)
        } else {
            Debugger::new(&mut io, 42, host)
        };
        match r {
            Ok(d) => return Ok(d),
            Err(Halt::Fail(e)) => return Err(e),
            Err(Halt::Ask(req)) => answers.push(m.answer(req)),
        }
    }
}

fn session(m: &Machine, host: Arch) -> Debugger {
    let mut threads = Vec::new();
    for (port, tid) in &m.ids {
        threads.push(ThreadEntry {
            port: *port,
            tid: *tid,
            suspended: false,
        });
    }
    Debugger {
        pid: 42,
        spawned: true,
        task: 3,
        threads,
        current: 0,
        breakpoints: AddrMap::new(),
        last_status: Some(WaitStatus::Stopped { signal: 5, pc: 0 }),
        at_breakpoint: None,
        arch: host,
        host,
        hw_bp_slots: [None; 16],
        wp_slots: [None, None, None, None],
        at_watchpoint: None,
    }
}

#[test]
fn a_session_begins() {
    let mut m = Machine::x86(0x1_0000_0000, 0x400);
    m.put(0x1_0000_0000, &[0xcf, 0xfa, 0xed, 0xfe, 7, 0, 0, 1]);
    m.stops.push_back((-1, vec![]));
    m.stops.push_back((STOPPED_TRAP, vec![]));
    let d = begin(&mut m, false, Arch::X86_64).unwrap();
    assert_eq!(d.pid, 42);
    assert_eq!(d.task, 3);
    assert!(d.spawned);
    assert_eq!(d.arch, Arch::X86_64);
    assert_eq!(d.current_thread(), Some((0, 100)));
    // Nothing is known of the threads at the first stop.
    assert_eq!(
        d.last_status(),
        Some(WaitStatus::Stopped { signal: 5, pc: 0 })
    );
}

#[test]
fn attaching_asks_first() {
    let mut m = Machine::x86(0x1_0000_0000, 0x400);
    m.put(0x1_0000_0000, &[0xcf, 0xfa, 0xed, 0xfe, 0x0c, 0, 0, 1]);
    m.stops.push_back((STOPPED_TRAP, vec![]));
    let mut d = begin(&mut m, true, Arch::Aarch64).unwrap();
    assert_eq!(m.log, vec!["attach 42"]);
    assert!(!d.spawned);
    assert_eq!(d.arch, Arch::Aarch64);
    run(&mut m, &mut d, |io, d| d.shutdown(io)).unwrap();
    assert_eq!(m.log, vec!["attach 42", "detach"]);
    assert_eq!(m.released, vec![7, 3]);
}

#[test]
fn a_session_that_cannot_begin() {
    let mut m = Machine::x86(0x1_0000_0000, 0x400);
    assert_eq!(
        begin(&mut m, false, Arch::X86_64).err(),
        Some("No child processes".to_string())
    );
    m.stops.push_back((STOPPED_TRAP, vec![]));
    assert_eq!(
        begin(&mut m, false, Arch::X86_64).err(),
        Some("main executable base not found".to_string())
    );
    m.stops.push_back((STOPPED_TRAP, vec![]));
    m.put(0x1_0000_0000, &[0xcf, 0xfa, 0xed, 0xfe, 1, 0, 0, 0]);
    assert_eq!(
        begin(&mut m, false, Arch::X86_64).err(),
        Some("unknown cpu_type in Mach-O header: 0x00000001".to_string())
    );
}

#[test]
fn statuses_of_the_process() {
    let mut m = Machine::x86(0x1000, 0x400);
    let mut d = session(&m, Arch::X86_64);
    m.stops.push_back((0x0b7f, vec![(7, 0x1234)]));
    assert_eq!(
        run(&mut m, &mut d, |io, d| d.wait(io)),
        Ok(WaitStatus::Stopped {
            signal: 11,
            pc: 0x1234
        })
    );
    m.stops.push_back((0x0300, vec![]));
    assert_eq!(
        run(&mut m, &mut d, |io, d| d.wait(io)),
        Ok(WaitStatus::Exited { code: 3 })
    );
    m.stops.push_back((0x0009, vec![]));
    assert_eq!(
        run(&mut m, &mut d, |io, d| d.wait(io)),
        Ok(WaitStatus::Signaled { signal: 9 })
    );
}

#[test]
fn a_breakpoint_is_a_trap_that_does_not_show() {
    let mut m = Machine::x86(0x1000, 0x400);
    m.put(0x1010, &[0x55, 0x48, 0x89, 0xe5]);
    let mut d = session(&m, Arch::X86_64);
    run(&mut m, &mut d, |io, d| d.set_breakpoint(io, 0x1010)).unwrap();
    assert_eq!(m.at(0x1010), 0xcc);
    // The page was made writable, and its protection put back.
    assert_eq!(m.log, vec!["protect 7", "protect 5"]);
    let seen = run(&mut m, &mut d, |io, d| d.read_memory(io, 0x100f, 4)).unwrap();
    assert_eq!(seen, vec![0x90, 0x55, 0x48, 0x89]);
    assert_eq!(d.breakpoint_addrs(), vec![0x1010]);
    run(&mut m, &mut d, |io, d| d.remove_breakpoint(io, 0x1010)).unwrap();
    assert_eq!(m.at(0x1010), 0x55);
    assert!(d.breakpoint_addrs().is_empty());
}

#[test]
fn a_breakpoint_where_there_is_no_memory() {
    let mut m = Machine::x86(0x1000, 0x400);
    let mut d = session(&m, Arch::X86_64);
    assert_eq!(
        run(&mut m, &mut d, |io, d| d.set_breakpoint(io, 0x9000)),
        Err("mach_vm_read: error 1".to_string())
    );
    assert!(d.breakpoint_addrs().is_empty());
}

#[test]
fn continuing_to_a_breakpoint_takes_the_trap_back() {
    let mut m = Machine::x86(0x1000, 0x400);
    m.add_thread(9, 200, 0x1100);
    let mut d = session(&m, Arch::X86_64);
    run(&mut m, &mut d, |io, d| d.set_breakpoint(io, 0x1050)).unwrap();
    // Both threads run into it; the second one is moved back too.
    m.stops
        .push_back((STOPPED_TRAP, vec![(7, 0x1051), (9, 0x1051)]));
    let s = run(&mut m, &mut d, |io, d| d.cont(io)).unwrap();
    assert_eq!(
        s,
        WaitStatus::Stopped {
            signal: 5,
            pc: 0x1050
        }
    );
    assert!(d.is_at_breakpoint());
    assert_eq!(d.current_thread(), Some((0, 100)));
    assert_eq!(m.regs[&7].pc(), 0x1050);
    assert_eq!(m.regs[&9].pc(), 0x1050);
}

#[test]
fn stepping_over_a_breakpoint_puts_it_back() {
    let mut m = Machine::x86(0x1000, 0x400);
    let mut d = session(&m, Arch::X86_64);
    run(&mut m, &mut d, |io, d| d.set_breakpoint(io, 0x1050)).unwrap();
    m.stops.push_back((STOPPED_TRAP, vec![(7, 0x1051)]));
    run(&mut m, &mut d, |io, d| d.cont(io)).unwrap();
    // The next instruction is one byte long: the step ends behind it.
    m.stops.push_back((STOPPED_TRAP, vec![(7, 0x1052)]));
    let s = run(&mut m, &mut d, |io, d| d.step(io)).unwrap();
    assert_eq!(
        s,
        WaitStatus::Stopped {
            signal: 5,
            pc: 0x1051
        }
    );
    assert_eq!(m.at(0x1050), 0xcc);
    assert_eq!(m.at(0x1051), 0x90);
    assert_eq!(d.breakpoint_addrs(), vec![0x1050]);
    assert!(!d.is_at_breakpoint());
}

#[test]
fn a_step_follows_both_ways_of_a_branch() {
    let mut m = Machine::x86(0x1000, 0x400);
    m.put(0x1000, &[0x74, 0x10]);
    let mut d = session(&m, Arch::X86_64);
    m.stops.push_back((STOPPED_TRAP, vec![(7, 0x1013)]));
    let s = run(&mut m, &mut d, |io, d| d.step(io)).unwrap();
    assert_eq!(
        s,
        WaitStatus::Stopped {
            signal: 5,
            pc: 0x1012
        }
    );
    assert_eq!(m.regs[&7].pc(), 0x1012);
    assert_eq!(m.at(0x1002), 0x90);
    assert_eq!(m.at(0x1012), 0x90);
}

#[test]
fn a_process_that_ends_while_it_steps() {
    let mut m = Machine::x86(0x1000, 0x400);
    let mut d = session(&m, Arch::X86_64);
    m.stops.push_back((0, vec![]));
    assert_eq!(
        run(&mut m, &mut d, |io, d| d.step(io)),
        Ok(WaitStatus::Exited { code: 0 })
    );
}

#[test]
fn return_addresses_by_the_stage_of_the_prologue() {
    let mut m = Machine::x86(0x1000, 0x400);
    let mut d = session(&m, Arch::X86_64);
    m.put(0x1200, &[0x11, 0x11, 0, 0, 0, 0, 0, 0]);
    m.put(0x1208, &[0x22, 0x22, 0, 0, 0, 0, 0, 0]);
    m.put(0x1308, &[0x33, 0x33, 0, 0, 0, 0, 0, 0]);
    m.put(0x1000, &[0x55]);
    assert_eq!(
        run(&mut m, &mut d, |io, d| d.return_address(io)),
        Ok(0x1111)
    );
    m.put(0x1000, &[0x48, 0x89, 0xe5]);
    assert_eq!(
        run(&mut m, &mut d, |io, d| d.return_address(io)),
        Ok(0x2222)
    );
    m.put(0x1000, &[0x90, 0x90, 0x90]);
    assert_eq!(
        run(&mut m, &mut d, |io, d| d.return_address(io)),
        Ok(0x3333)
    );
}

#[test]
fn return_addresses_on_aarch64() {
    let mut m = Machine::arm(0x1000, 0x400);
    let mut d = session(&m, Arch::Aarch64);
    let mut r = aarch64::ThreadState64::default();
    r.__pc = 0x1008;
    r.__lr = 0x4444;
    r.__fp = 0x1300;
    m.regs.insert(7, Registers::Arm(r));
    m.put(0x1308, &[0x55, 0x55, 0, 0, 0, 0, 0, 0]);
    // Behind the prologue of some function.
    assert_eq!(
        run(&mut m, &mut d, |io, d| d.return_address(io)),
        Ok(0x5555)
    );
    // A function that has not saved its frame since its breakpoint.
    d.at_breakpoint = Some(0x1000);
    assert_eq!(
        run(&mut m, &mut d, |io, d| d.return_address(io)),
        Ok(0x4444)
    );
    m.put(0x1000, &[0xfd, 0x7b, 0x01, 0xa9]);
    assert_eq!(
        run(&mut m, &mut d, |io, d| d.return_address(io)),
        Ok(0x5555)
    );
    // Before the frame is saved.
    m.put(0x1008, &[0xfd, 0x7b, 0xbf, 0xa9]);
    assert_eq!(
        run(&mut m, &mut d, |io, d| d.return_address(io)),
        Ok(0x4444)
    );
}

#[test]
fn finishing_a_function() {
    let mut m = Machine::x86(0x1000, 0x400);
    let mut d = session(&m, Arch::X86_64);
    m.put(0x1308, &[0x80, 0x10, 0, 0, 0, 0, 0, 0]);
    m.stops.push_back((STOPPED_TRAP, vec![(7, 0x1081)]));
    let s = run(&mut m, &mut d, |io, d| d.finish(io)).unwrap();
    assert_eq!(
        s,
        WaitStatus::Stopped {
            signal: 5,
            pc: 0x1080
        }
    );
    assert!(d.breakpoint_addrs().is_empty());
    assert_eq!(m.at(0x1080), 0x90);
    assert!(!d.is_at_breakpoint());
}

#[test]
fn breakpoints_of_aarch64_are_slots() {
    let mut m = Machine::arm(0x1000, 0x400);
    let mut d = session(&m, Arch::Aarch64);
    run(&mut m, &mut d, |io, d| d.set_breakpoint(io, 0x1020)).unwrap();
    assert_eq!(d.hw_bp_slots[0], Some(0x1020));
    match &m.debug[&7] {
        DebugState::Arm(s) => {
            assert_eq!(s.bvr[0], 0x1020);
            assert_eq!(s.bcr[0], aarch64::HW_BP_BCR_ENABLE);
        }
        _ => panic!("not of aarch64"),
    }
    run(&mut m, &mut d, |io, d| d.remove_breakpoint(io, 0x1020)).unwrap();
    assert_eq!(d.hw_bp_slots[0], None);
    match &m.debug[&7] {
        DebugState::Arm(s) => assert_eq!(s.bcr[0], 0),
        _ => panic!("not of aarch64"),
    }
    for i in 0..16usize {
        run(&mut m, &mut d, move |io, d| d.set_breakpoint(io, 0x1000 + 4 * i)).unwrap();
    }
    assert_eq!(
        run(&mut m, &mut d, |io, d| d.set_breakpoint(io, 0x1100)),
        Err("hardware breakpoint slots exhausted (max 16 breakpoints on ARM64)".to_string())
    );
}

#[test]
fn finishing_on_aarch64_frees_its_slot() {
    let mut m = Machine::arm(0x1000, 0x400);
    let mut d = session(&m, Arch::Aarch64);
    let mut r = aarch64::ThreadState64::default();
    r.__pc = 0x1000;
    r.__lr = 0x1040;
    m.regs.insert(7, Registers::Arm(r));
    m.stops.push_back((STOPPED_TRAP, vec![(7, 0x1040)]));
    let s = run(&mut m, &mut d, |io, d| d.finish(io)).unwrap();
    assert_eq!(
        s,
        WaitStatus::Stopped {
            signal: 5,
            pc: 0x1040
        }
    );
    assert_eq!(d.hw_bp_slots, [None; 16]);
}

#[test]
fn stepping_over_a_slot() {
    let mut m = Machine::arm(0x1000, 0x400);
    let mut d = session(&m, Arch::Aarch64);
    run(&mut m, &mut d, |io, d| d.set_breakpoint(io, 0x1000)).unwrap();
    d.at_breakpoint = Some(0x1000);
    m.stops.push_back((STOPPED_TRAP, vec![(7, 0x1004)]));
    let s = run(&mut m, &mut d, |io, d| d.step(io)).unwrap();
    assert_eq!(
        s,
        WaitStatus::Stopped {
            signal: 5,
            pc: 0x1004
        }
    );
    assert_eq!(d.hw_bp_slots[0], Some(0x1000));
    assert_eq!(d.hw_bp_slots[1], None);
    d.at_breakpoint = Some(0x1800);
    assert_eq!(
        run(&mut m, &mut d, |io, d| d.step(io)),
        Err("no HW BP slot for 0x1800".to_string())
    );
}

#[test]
fn watchpoints_of_x86() {
    let mut m = Machine::x86(0x1000, 0x400);
    let mut d = session(&m, Arch::X86_64);
    let slot = run(&mut m, &mut d, |io, d| {
        d.set_watchpoint(io, 0x1100, WatchCondition::Write, WatchLen::Dword4)
    });
    assert_eq!(slot, Ok(0));
    let again = run(&mut m, &mut d, |io, d| {
        d.set_watchpoint(io, 0x1100, WatchCondition::Write, WatchLen::Byte1)
    });
    assert_eq!(again, Ok(0));
    match &m.debug[&7] {
        DebugState::X86(s) => {
            assert_eq!(s.__dr0, 0x1100);
            assert_eq!(s.__dr7, 0x000d_0001);
        }
        _ => panic!("not of x86_64"),
    }
    // The status register names the slot.
    if let Some(DebugState::X86(s)) = m.debug.get_mut(&7) {
        s.__dr6 = 1;
    }
    m.stops.push_back((STOPPED_TRAP, vec![(7, 0x1030)]));
    run(&mut m, &mut d, |io, d| d.cont(io)).unwrap();
    assert_eq!(d.at_watchpoint(), Some(0x1100));
    assert_eq!(d.watchpoint_slots().len(), 1);
    run(&mut m, &mut d, |io, d| d.remove_watchpoint_slot(io, 0)).unwrap();
    assert!(d.watchpoint_slots().is_empty());
    assert_eq!(
        run(&mut m, &mut d, |io, d| d.remove_watchpoint_slot(io, 4)),
        Err("invalid watchpoint slot".to_string())
    );
    for i in 0..4usize {
        run(&mut m, &mut d, move |io, d| {
            d.set_watchpoint(io, 0x1100 + 8 * i, WatchCondition::ReadWrite, WatchLen::QWord8)
        })
        .unwrap();
    }
    assert_eq!(
        run(&mut m, &mut d, |io, d| {
            d.set_watchpoint(io, 0x1180, WatchCondition::ReadWrite, WatchLen::QWord8)
        }),
        Err("watchpoint slots exhausted (max 4 on x86_64)".to_string())
    );
}

#[test]
fn watchpoints_of_aarch64_compare_memory() {
    let mut m = Machine::arm(0x1000, 0x400);
    let mut d = session(&m, Arch::Aarch64);
    for a in [0x1100usize, 0x1140] {
        run(&mut m, &mut d, move |io, d| {
            d.set_watchpoint(io, a, WatchCondition::Write, WatchLen::Byte1)
        })
        .unwrap();
    }
    m.put(0x1140, &[1]);
    m.stops.push_back((STOPPED_TRAP, vec![(7, 0x1030)]));
    run(&mut m, &mut d, |io, d| d.cont(io)).unwrap();
    assert_eq!(d.at_watchpoint(), Some(0x1140));
    // Nothing has changed since: the first watchpoint is taken for the one that was hit.
    m.stops.push_back((STOPPED_TRAP, vec![(7, 0x1034)]));
    run(&mut m, &mut d, |io, d| d.cont(io)).unwrap();
    assert_eq!(d.at_watchpoint(), Some(0x1100));
}

#[test]
fn threads_are_brought_up_to_date() {
    let mut m = Machine::x86(0x1000, 0x400);
    m.add_thread(9, 200, 0x1100);
    let mut d = session(&m, Arch::X86_64);
    assert_eq!(
        run(&mut m, &mut d, |_, d| d.select_thread(5)),
        Err("invalid thread index".to_string())
    );
    run(&mut m, &mut d, |_, d| d.select_thread(1)).unwrap();
    run(&mut m, &mut d, |io, d| d.suspend_thread(io, 1)).unwrap();
    // The ports of the threads change, their identifiers do not.
    m.regs.clear();
    m.ids.clear();
    m.add_thread(20, 200, 0x1111);
    m.add_thread(21, 300, 0x1222);
    m.stops.push_back((STOPPED_TRAP, vec![]));
    run(&mut m, &mut d, |io, d| d.wait(io)).unwrap();
    assert_eq!(d.current_thread(), Some((0, 200)));
    let list = run(&mut m, &mut d, |io, d| d.threads(io)).unwrap();
    assert_eq!(list.len(), 2);
    assert!(list[0].suspended && list[0].current);
    assert_eq!(list[0].pc, Some(0x1111));
    assert!(!list[1].suspended && !list[1].current);
    assert_eq!(m.released, vec![7, 9]);
    run(&mut m, &mut d, |io, d| d.resume_thread(io, 0)).unwrap();
    assert!(!d.threads[0].suspended);
    assert_eq!(m.log, vec!["suspend 9", "resume 20"]);
    assert_eq!(
        run(&mut m, &mut d, |io, d| d.suspend_thread(io, 7)),
        Err("invalid thread index".to_string())
    );
}

#[test]
fn without_threads() {
    let mut m = Machine::x86(0x1000, 0x400);
    let mut d = session(&m, Arch::X86_64);
    d.threads.clear();
    assert_eq!(
        run(&mut m, &mut d, |io, d| d.registers(io).map(|r| r.pc())),
        Err("no threads available".to_string())
    );
    assert_eq!(d.current_thread(), None);
}

#[test]
fn memory_by_words_and_bytes() {
    let mut m = Machine::x86(0x1000, 0x400);
    let mut d = session(&m, Arch::X86_64);
    run(&mut m, &mut d, |io, d| d.write_memory(io, 0x1010, &[1, 2, 3, 4])).unwrap();
    assert_eq!(
        run(&mut m, &mut d, |io, d| d.read_word(io, 0x1010)),
        Ok(0x04030201)
    );
    assert_eq!(run(&mut m, &mut d, |io, d| d.read_byte(io, 0x1011)), Ok(2));
    run(&mut m, &mut d, |io, d| d.write_byte(io, 0x1011, 9)).unwrap();
    assert_eq!(m.at(0x1011), 9);
    assert!(run(&mut m, &mut d, |io, d| d.write_byte(io, 0x9011, 9)).is_err());
}

#[test]
fn the_image_base_is_searched_for() {
    let mut m = Machine::x86(0x1_0000_4000, 0x400);
    let mut d = session(&m, Arch::X86_64);
    assert!(run(&mut m, &mut d, |io, d| d.image_base(io)).is_err());
    m.put(0x1_0000_4000, &[0xcf, 0xfa, 0xed, 0xfe]);
    assert_eq!(
        run(&mut m, &mut d, |io, d| d.image_base(io)),
        Ok(0x1_0000_4000)
    );
}

#[test]
fn prologues_are_skipped() {
    let mut m = Machine::x86(0x1000, 0x400);
    let mut d = session(&m, Arch::X86_64);
    let go = |m: &mut Machine, d: &mut Debugger| run(m, d, |io, d| d.skip_prologue_insns(io, 0x1000));
    assert_eq!(go(&mut m, &mut d), Ok(0x1000));
    m.put(0x1000, &[0x55]);
    assert_eq!(go(&mut m, &mut d), Ok(0x1001));
    m.put(0x1000, &[0x55, 0x48, 0x89, 0xe5]);
    assert_eq!(go(&mut m, &mut d), Ok(0x1004));
    m.put(0x1004, &[0x48, 0x83, 0xec, 0x10]);
    assert_eq!(go(&mut m, &mut d), Ok(0x1008));
    m.put(0x1004, &[0x48, 0x81, 0xec, 0x10, 1, 0, 0]);
    assert_eq!(go(&mut m, &mut d), Ok(0x100b));
    let mut m = Machine::arm(0x1000, 0x400);
    let mut d = session(&m, Arch::Aarch64);
    m.put(
        0x1000,
        &[0xfd, 0x7b, 0xbf, 0xa9, 0xfd, 0x03, 0x00, 0x91, 0xff, 0x83, 0x00, 0xd1],
    );
    assert_eq!(go(&mut m, &mut d), Ok(0x100c));
    m.put(0x1008, &[0x90, 0x90, 0x90, 0x90]);
    assert_eq!(go(&mut m, &mut d), Ok(0x1008));
}

fn tracking(m: &mut Machine, d: &mut Debugger) -> LeakTracker {
    let mut answers: Vec<Ans> = Vec::new();
    loop {
        let mut trial = d.clone();
        let mut tr = LeakTracker::new();
        let mut io = Tape::new(answers.clone());
        match tr.enable(&mut io, &mut trial, Some(0x1010), Some(0x1020), Some(0x1030), Some(0x1040)) {
            Ok(()) => {
                *d = trial;
                return tr;
            }
            Err(Halt::Ask(req)) => answers.push(m.answer(req)),
            Err(Halt::Fail(e)) => panic!("{}", e),
        }
    }
}

/// Takes up a stop at `pc` with those registers.
fn stop_at(
    m: &mut Machine,
    d: &mut Debugger,
    tr: &mut LeakTracker,
    pc: u64,
    rdi: u64,
    rsi: u64,
    rax: u64,
) -> bool {
    let mut r = ThreadState64::default();
    r.__rip = pc;
    r.__rsp = 0x1200;
    r.__rdi = rdi;
    r.__rsi = rsi;
    r.__rax = rax;
    m.regs.insert(7, Registers::X86(r));
    let mut answers: Vec<Ans> = Vec::new();
    loop {
        let mut trial = d.clone();
        let mut next = tr.clone();
        let mut io = Tape::new(answers.clone());
        match next.handle_stop(&mut io, &mut trial) {
            Ok(b) => {
                *d = trial;
                *tr = next;
                return b;
            }
            Err(Halt::Ask(req)) => answers.push(m.answer(req)),
            Err(Halt::Fail(e)) => panic!("{}", e),
        }
    }
}

#[test]
fn allocations_are_tracked() {
    let mut m = Machine::x86(0x1000, 0x400);
    let mut d = session(&m, Arch::X86_64);
    let mut tr = tracking(&mut m, &mut d);
    assert_eq!(d.breakpoint_addrs(), vec![0x1010, 0x1020, 0x1030, 0x1040]);
    m.put(0x1200, &[0x80, 0x10, 0, 0, 0, 0, 0, 0]);
    assert!(stop_at(&mut m, &mut d, &mut tr, 0x1010, 128, 0, 0));
    assert_eq!(tr.live_count(), 0);
    assert!(d.breakpoint_addrs().contains(&0x1080));
    assert!(stop_at(&mut m, &mut d, &mut tr, 0x1080, 0, 0, 0x7000));
    assert_eq!(tr.live_count(), 1);
    assert!(!d.breakpoint_addrs().contains(&0x1080));
    // A call that fails puts nothing in use.
    assert!(stop_at(&mut m, &mut d, &mut tr, 0x1020, u64::MAX, 2, 0));
    assert!(stop_at(&mut m, &mut d, &mut tr, 0x1080, 0, 0, 0));
    assert_eq!(tr.live_count(), 1);
    // A block that moves: the old one goes.
    assert!(stop_at(&mut m, &mut d, &mut tr, 0x1030, 0x7000, 256, 0));
    assert_eq!(tr.live_count(), 0);
    assert!(stop_at(&mut m, &mut d, &mut tr, 0x1080, 0, 0, 0x8000));
    assert_eq!(
        tr.show_leaks(None, None),
        "1 live allocation(s) (possible leaks):\n  0x0000000000008000  size=256     caller=0x0000000000001080\n"
    );
    assert!(stop_at(&mut m, &mut d, &mut tr, 0x1040, 0x8000, 0, 0));
    assert_eq!(tr.show_leaks(None, None), "No leaks detected.\n");
    // Any other stop is for the user.
    assert!(!stop_at(&mut m, &mut d, &mut tr, 0x1090, 0, 0, 0));
}

#[test]
fn allocations_that_nest_return_in_their_order() {
    let mut m = Machine::x86(0x1000, 0x400);
    let mut d = session(&m, Arch::X86_64);
    let mut tr = tracking(&mut m, &mut d);
    m.put(0x1200, &[0x80, 0x10, 0, 0, 0, 0, 0, 0]);
    assert!(stop_at(&mut m, &mut d, &mut tr, 0x1010, 1, 0, 0));
    assert!(stop_at(&mut m, &mut d, &mut tr, 0x1010, 2, 0, 0));
    assert!(stop_at(&mut m, &mut d, &mut tr, 0x1080, 0, 0, 0x7002));
    assert!(d.breakpoint_addrs().contains(&0x1080));
    assert!(stop_at(&mut m, &mut d, &mut tr, 0x1080, 0, 0, 0x7001));
    assert!(!d.breakpoint_addrs().contains(&0x1080));
    assert_eq!(
        tr.show_leaks(None, None),
        "2 live allocation(s) (possible leaks):\n  0x0000000000007001  size=1       caller=0x0000000000001080\n  0x0000000000007002  size=2       caller=0x0000000000001080\n"
    );
}

#[test]
fn leaks_end_with_their_breakpoints() {
    let mut m = Machine::x86(0x1000, 0x400);
    let mut d = session(&m, Arch::X86_64);
    let tr = tracking(&mut m, &mut d);
    let done = run(&mut m, &mut d, |io, d| leaks_off(io, d, Some(tr.clone()))).unwrap();
    assert_eq!(done.out, "Leak tracking disabled.\n");
    assert!(d.breakpoint_addrs().is_empty());
    let done = run(&mut m, &mut d, |io, d| leaks_off(io, d, None)).unwrap();
    assert_eq!(done.err, "leak tracking is not enabled\n");
    let none = run(&mut m, &mut d, |io, d| leaks_on(io, d, None, None)).unwrap();
    assert_eq!(none.0.err, "leaks: no symbol info loaded\n");
    assert_eq!(
        leaks_show(None, None, None).err,
        "leak tracking not enabled (use 'leaks on' to start)\n"
    );
    assert_eq!(leaks_show(Some(&tr), None, None).out, "No leaks detected.\n");
}

#[test]
fn the_tracker_lets_the_process_run_on() {
    let mut m = Machine::x86(0x1000, 0x400);
    let mut d = session(&m, Arch::X86_64);
    let tr = tracking(&mut m, &mut d);
    m.set_pc(7, 0x1040);
    m.stops.push_back((STOPPED_TRAP, vec![(7, 0x1090)]));
    let stopped = WaitStatus::Stopped {
        signal: 5,
        pc: 0x1040,
    };
    let mut kept = Some(tr);
    let next = {
        let mut answers: Vec<Ans> = Vec::new();
        loop {
            let mut trial = d.clone();
            let mut k = kept.clone();
            let mut io = Tape::new(answers.clone());
            match auto_cont(&mut io, &mut trial, &mut k, stopped) {
                Ok(r) => {
                    d = trial;
                    kept = k;
                    break r;
                }
                Err(Halt::Ask(req)) => answers.push(m.answer(req)),
                Err(Halt::Fail(e)) => panic!("{}", e),
            }
        }
    };
    assert_eq!(
        next,
        Round::Again(WaitStatus::Stopped {
            signal: 5,
            pc: 0x1090
        })
    );
    assert!(kept.is_some());
    let mut io = Tape::new(Vec::new());
    let mut none: Option<LeakTracker> = None;
    assert!(matches!(
        auto_cont(&mut io, &mut d, &mut none, stopped),
        Ok(Round::Done(_))
    ));
    let ended = WaitStatus::Exited { code: 0 };
    assert!(matches!(
        auto_cont(&mut io, &mut d, &mut kept, ended),
        Ok(Round::Done(WaitStatus::Exited { code: 0 }))
    ));
}

fn said(r: Result<Report, String>) -> (String, String) {
    let r = r.unwrap();
    (r.out, r.err)
}

#[test]
fn breakpoints_by_command() {
    let mut m = Machine::x86(0x1000, 0x400);
    let mut d = session(&m, Arch::X86_64);
    let go = |m: &mut Machine, d: &mut Debugger, arg: &str| {
        said(run(m, d, |io, d| break_command(io, d, Some(0x1000), None, arg)))
    };
    assert_eq!(
        go(&mut m, &mut d, "0x1010").0,
        "Breakpoint set at 0x0000000000001010\n"
    );
    assert_eq!(
        go(&mut m, &mut d, "base+0x20").0,
        "Breakpoint set at 0x0000000000001020\n"
    );
    assert_eq!(
        go(&mut m, &mut d, "main").1,
        "could not resolve location main: no symbol/debug info loaded\n"
    );
    let del = |m: &mut Machine, d: &mut Debugger, arg: &str| {
        said(run(m, d, |io, d| delete_command(io, d, Some(0x1000), arg)))
    };
    assert_eq!(
        del(&mut m, &mut d, "3").1,
        "del: breakpoint #3 not found (use 'show bp' to list)\n"
    );
    assert_eq!(
        del(&mut m, &mut d, "what").1,
        "del: invalid argument 'what' (use number or address)\n"
    );
    assert_eq!(
        del(&mut m, &mut d, "2").0,
        "Breakpoint #2 (0x0000000000001020) deleted.\n"
    );
    assert_eq!(
        del(&mut m, &mut d, "0x1010").0,
        "Breakpoint at 0x0000000000001010 deleted.\n"
    );
    assert!(d.breakpoint_addrs().is_empty());
    go(&mut m, &mut d, "0x1010");
    assert_eq!(del(&mut m, &mut d, "all").0, "All breakpoints deleted.\n");
    assert!(d.breakpoint_addrs().is_empty());
    assert_eq!(m.at(0x1010), 0x90);
}

#[test]
fn memory_by_command() {
    let mut m = Machine::x86(0x1000, 0x400);
    let mut d = session(&m, Arch::X86_64);
    m.put(0x1010, &[0x78, 0x56, 0x34, 0x12]);
    let go = |m: &mut Machine, d: &mut Debugger, arg: &str| {
        said(run(m, d, |io, d| memory_command(io, d, Some(0x1000), arg)))
    };
    assert_eq!(
        go(&mut m, &mut d, "base+16").0,
        "[0x0000000000001010] = 0x12345678\n"
    );
    assert_eq!(go(&mut m, &mut d, "zz").1, "invalid address\n");
    assert_eq!(
        go(&mut m, &mut d, "0x9000").1,
        "failed to read memory: mach_vm_read: error 1\n"
    );
}

fn row(line: u32, addr: u64) -> LineRow {
    LineRow::Row {
        file: "a.c".to_string(),
        path: "/w/a.c".to_string(),
        line,
        addr,
        prologue_end: false,
    }
}

/// Symbols of a file at 0x1000 that is loaded where it says.
fn symbols() -> Symbols {
    let local = |name: &str, off: i64, base: FrameBaseDef, is_argument: bool| Variable {
        name: name.to_string(),
        scope: Some((0x1000, 0x1080)),
        location: VarLocation::FrameOffset(off),
        byte_size: 4,
        frame_base: base,
        is_argument,
    };
    Symbols {
        symbols: vec![("_main".to_string(), 0x1000), ("_f".to_string(), 0x1080)],
        text_vmaddr: 0x1000,
        line_rows: vec![
            row(1, 0x1000),
            row(2, 0x1002),
            row(3, 0x1080),
            LineRow::EndSequence { addr: 0x1090 },
        ],
        debug_file: String::new(),
        comp_dirs: NameSet::new(),
        type_names: NameSet::new(),
        variables: vec![
            local("n", 0x10, FrameBaseDef::Register, false),
            local("argc", -0x10, FrameBaseDef::CallFrameCfa, true),
            Variable {
                name: "total".to_string(),
                scope: None,
                location: VarLocation::Addr(0x1390),
                byte_size: 1,
                frame_base: FrameBaseDef::Register,
                is_argument: false,
            },
        ],
        stubs: find_stubs(b"", &[], Arch::X86_64),
    }
}

#[test]
fn variables_by_name() {
    let mut m = Machine::x86(0x1000, 0x400);
    let mut d = session(&m, Arch::X86_64);
    let s = symbols();
    let find = |m: &mut Machine, d: &mut Debugger, name: &str| {
        run(m, d, |io, d| resolve_variable(io, d, Some(0x1000), Some(&s), name))
    };
    assert_eq!(find(&mut m, &mut d, "n"), Ok((0x1310, 4)));
    assert_eq!(find(&mut m, &mut d, "argc"), Ok((0x1300, 4)));
    assert_eq!(find(&mut m, &mut d, "total"), Ok((0x1390, 1)));
    assert_eq!(
        find(&mut m, &mut d, "zz"),
        Err("variable not found: zz".to_string())
    );
    assert_eq!(
        run(&mut m, &mut d, |io, d| resolve_variable(io, d, None, Some(&s), "n")),
        Err("image base unknown".to_string())
    );
    assert_eq!(
        run(&mut m, &mut d, |io, d| resolve_variable(io, d, None, None, "n")),
        Err("no debug info loaded".to_string())
    );
}

#[test]
fn frame_bases_of_aarch64() {
    let mut m = Machine::arm(0x1000, 0x400);
    let mut d = session(&m, Arch::Aarch64);
    let mut r = aarch64::ThreadState64::default();
    r.__fp = 0x1300;
    m.regs.insert(7, Registers::Arm(r));
    let s = symbols();
    let base = |m: &mut Machine, d: &mut Debugger| {
        run(m, d, |io, d| compute_frame_base(io, d, &s.variables[1], 0))
    };
    assert_eq!(base(&mut m, &mut d), Ok(0x1300));
    m.put(0x1000, &[0xfd, 0x7b, 0xbe, 0xa9]);
    assert_eq!(base(&mut m, &mut d), Ok(0x1320));
}

#[test]
fn lists_that_are_shown() {
    let mut m = Machine::x86(0x1000, 0x400);
    let mut d = session(&m, Arch::X86_64);
    m.put(0x1300, &[5, 0, 0, 0]);
    m.put(0x1310, &[0xff, 0xff, 0xff, 0xff]);
    m.put(0x1390, &[7]);
    let s = symbols();
    let go = |m: &mut Machine, d: &mut Debugger, sub: &str| {
        let parts = vec!["show".to_string(), sub.to_string()];
        said(run(m, d, |io, d| show_command(io, d, Some(0x1000), Some(&s), &parts)))
    };
    assert_eq!(
        go(&mut m, &mut d, "locals").0,
        "  n = 4294967295  (0xffffffff)\n"
    );
    assert_eq!(go(&mut m, &mut d, "args").0, "  argc = 5  (0x5)\n");
    assert_eq!(go(&mut m, &mut d, "globals").0, "  total = 7  (0x7)\n");
    assert_eq!(go(&mut m, &mut d, "bp").0, "No breakpoints.\n");
    assert_eq!(
        go(&mut m, &mut d, "what").1,
        "show: unknown subcommand 'what' (bp|locals|args|globals|leaks)\n"
    );
    run(&mut m, &mut d, |io, d| d.set_breakpoint(io, 0x1080)).unwrap();
    run(&mut m, &mut d, |io, d| d.set_breakpoint(io, 0x1004)).unwrap();
    assert_eq!(
        go(&mut m, &mut d, "bp").0,
        "#1  0x0000000000001004  _main + 0x4  (/w/a.c:2)\n#2  0x0000000000001080  _f  (/w/a.c:3)\n"
    );
    m.set_pc(7, 0x1088);
    assert_eq!(go(&mut m, &mut d, "locals").0, "  (none)\n");
    let parts = vec!["show".to_string()];
    assert_eq!(
        said(run(&mut m, &mut d, |io, d| show_command(io, d, None, None, &parts))).1,
        "usage: show bp|locals|args|globals\n"
    );
    let parts = vec!["show".to_string(), "args".to_string()];
    assert_eq!(
        said(run(&mut m, &mut d, |io, d| show_command(io, d, None, None, &parts))).1,
        "show args: no debug info loaded\n"
    );
}

#[test]
fn frames_are_followed_to_main() {
    let mut m = Machine::x86(0x1000, 0x400);
    let mut d = session(&m, Arch::X86_64);
    let s = symbols();
    m.set_pc(7, 0x1084);
    m.put(0x1300, &[0x40, 0x13, 0, 0, 0, 0, 0, 0, 0x10, 0x10, 0, 0, 0, 0, 0, 0]);
    let r = said(run(&mut m, &mut d, |io, d| {
        print_backtrace(io, d, Some(0x1000), Some(&s))
    }));
    assert_eq!(
        r.0,
        "#0  0x0000000000001084  _f + 0x4  (/w/a.c:3)\n#1  0x0000000000001010  _main + 0x10  (/w/a.c:2)\n"
    );
    // A chain that does not rise ends.
    m.put(0x1300, &[0, 0x13]);
    let r = said(run(&mut m, &mut d, |io, d| print_backtrace(io, d, None, None)));
    assert_eq!(r.0, "#0  0x0000000000001084\n");
    d.threads.clear();
    let r = said(run(&mut m, &mut d, |io, d| print_backtrace(io, d, None, None)));
    assert_eq!(r.1, "failed to read registers: no threads available\n");
}

#[test]
fn code_at_places() {
    let mut m = Machine::x86(0x1000, 0x400);
    let mut d = session(&m, Arch::X86_64);
    let s = symbols();
    let words = |ws: &[&str]| ws.iter().map(|w| w.to_string()).collect::<Vec<String>>();
    let parts = words(&["dis", "f", "2"]);
    let r = said(run(&mut m, &mut d, |io, d| {
        show_disasm(io, d, Some(0x1000), Some(&s), &parts)
    }));
    assert!(r.0.starts_with("Dump of assembler code for function _f:\n=> 0x0000000000001080: nop"));
    assert_eq!(r.0.lines().count(), 3);
    let parts = words(&["dis", "3"]);
    let r = said(run(&mut m, &mut d, |io, d| show_disasm(io, d, None, None, &parts)));
    assert_eq!(r.0.lines().count(), 3);
    let parts = words(&["dis", "nothing"]);
    let r = said(run(&mut m, &mut d, |io, d| {
        show_disasm(io, d, Some(0x1000), Some(&s), &parts)
    }));
    assert_eq!(r.1, "dis: symbol not found: nothing\n");
    let parts = words(&["dis", "0x9000"]);
    let r = said(run(&mut m, &mut d, |io, d| show_disasm(io, d, None, None, &parts)));
    assert_eq!(r.1, "dis: failed to read memory: mach_vm_read: error 1\n");
    let r = said(run(&mut m, &mut d, |io, d| print_disasm(io, d)));
    assert_eq!(r.0.lines().count(), 4);
}

#[test]
fn values_and_texts() {
    let mut m = Machine::x86(0x1000, 0x400);
    let mut d = session(&m, Arch::X86_64);
    m.put(0x1100, b"hi \x01");
    m.put(0x1104, &[0]);
    let p = |m: &mut Machine, d: &mut Debugger, f: char, v: u64| {
        said(run(m, d, |io, d| print_value(io, d, Some(f), "s", v)))
    };
    assert_eq!(
        p(&mut m, &mut d, 's', 0x1100).0,
        "s = 0x0000000000001100  \"hi \\x01\"\n"
    );
    assert_eq!(
        p(&mut m, &mut d, 's', 0x13f0),
        (
            "s = 0x00000000000013f0  \"\"\n".to_string(),
            "print: failed to read string at 0x13f0: mach_vm_read: error 1\n".to_string()
        )
    );
    assert_eq!(p(&mut m, &mut d, 'x', 1).0, "s = 0x0000000000000001\n");
    assert_eq!(p(&mut m, &mut d, 'q', 1).1, "print: unknown format 'q'\n");
}

#[test]
fn assignments() {
    let mut m = Machine::x86(0x1000, 0x400);
    let mut d = session(&m, Arch::X86_64);
    let s = symbols();
    let r = run(&mut m, &mut d, |io, d| set_register(io, d, "$rax", 5)).unwrap();
    assert_eq!(r.unwrap().out, "set $rax = 0x0000000000000005\n");
    assert_eq!(m.regs[&7].get("rax"), Some(5));
    // A name that is no general-purpose register is looked for among the others, which cannot be read.
    let r = run(&mut m, &mut d, |io, d| set_register(io, d, "n", 5)).unwrap();
    assert_eq!(
        r.unwrap().err,
        "failed to read float registers: thread_get_state (float): mach error 5\n"
    );
    assert!(run(&mut m, &mut d, |io, d| set_register(io, d, "0x1000", 5))
        .unwrap()
        .is_none());
    let r = run(&mut m, &mut d, |io, d| {
        set_variable(io, d, Some(0x1000), Some(&s), "n", 0x1_0000_00ff)
    });
    assert_eq!(r.unwrap().unwrap().out, "n = 4294967551\n");
    assert_eq!(m.at(0x1310), 0xff);
    assert_eq!(m.at(0x1311), 0);
    assert_eq!(m.at(0x1314), 0x90);
    let r = run(&mut m, &mut d, |io, d| set_memory(io, d, "0x1100", 0x1100, 8, 0xab));
    assert_eq!(r.unwrap().unwrap().out, "[0x0000000000001100] = 171\n");
    assert_eq!(m.at(0x1100), 0xab);
    assert_eq!(m.at(0x1107), 0);
    let r = run(&mut m, &mut d, |io, d| set_variable(io, d, None, Some(&s), "n", 1));
    assert_eq!(r.unwrap().unwrap().err, "set: image base unknown\n");
}

/// Walks to the end of a line.
fn walk(
    m: &mut Machine,
    d: &mut Debugger,
    first: Walked<LineWalk>,
    on: impl Fn(&mut Tape, &mut Debugger, LineWalk) -> Result<Walked<LineWalk>, Stop>,
) -> (WaitStatus, usize) {
    let mut now = first;
    let mut n = 0;
    loop {
        match now {
            Walked::Done(s) => return (s, n),
            Walked::TooMany(_) => panic!("too many steps"),
            Walked::More(w) => {
                n += 1;
                now = run(m, d, |io, d| on(io, d, w.clone())).unwrap();
            }
        }
    }
}

#[test]
fn stepping_by_lines() {
    let mut m = Machine::x86(0x1000, 0x400);
    let mut d = session(&m, Arch::X86_64);
    let s = symbols();
    assert_eq!(
        run(&mut m, &mut d, |io, d| current_line(io, d, Some(0x1000), Some(&s))),
        Ok(Some(("/w/a.c".to_string(), 1)))
    );
    m.stops.push_back((STOPPED_TRAP, vec![(7, 0x1002)]));
    m.stops.push_back((STOPPED_TRAP, vec![(7, 0x1003)]));
    let first = run(&mut m, &mut d, |io, d| step_line(io, d, Some(0x1000), Some(&s))).unwrap();
    let (status, n) = walk(&mut m, &mut d, first, |io, d, w| {
        step_line_on(io, d, Some(0x1000), Some(&s), w)
    });
    assert_eq!(
        status,
        WaitStatus::Stopped {
            signal: 5,
            pc: 0x1002
        }
    );
    assert_eq!(n, 2);
    // Without symbols one instruction is stepped over.
    m.stops.push_back((STOPPED_TRAP, vec![(7, 0x1004)]));
    let first = run(&mut m, &mut d, |io, d| step_line(io, d, None, None)).unwrap();
    assert!(matches!(first, Walked::Done(_)));
    let tired = LineWalk {
        start: None,
        start_fp: 0,
        status,
        left: 0,
    };
    let r = run(&mut m, &mut d, |io, d| {
        step_line_on(io, d, None, None, tired.clone())
    });
    assert!(matches!(r, Ok(Walked::TooMany(_))));
}

#[test]
fn stepping_over_calls() {
    let mut m = Machine::x86(0x1000, 0x400);
    let mut d = session(&m, Arch::X86_64);
    let s = symbols();
    m.set_pc(7, 0x1000);
    m.stops.push_back((STOPPED_TRAP, vec![(7, 0x1002)]));
    let first = run(&mut m, &mut d, |io, d| next_line(io, d, Some(0x1000), Some(&s))).unwrap();
    // A frame below the first one: the function that was called is run to its end.
    if let Some(Registers::X86(r)) = m.regs.get_mut(&7) {
        r.__rbp = 0x1280;
    }
    m.put(0x1288, &[0x01, 0x10, 0, 0, 0, 0, 0, 0]);
    m.stops.push_back((STOPPED_TRAP, vec![(7, 0x1002)]));
    let w = match first {
        Walked::More(w) => w,
        _ => panic!("over too soon"),
    };
    let second = run(&mut m, &mut d, |io, d| {
        next_line_on(io, d, Some(0x1000), Some(&s), w.clone())
    })
    .unwrap();
    assert!(d.breakpoint_addrs().is_empty());
    if let Some(Registers::X86(r)) = m.regs.get_mut(&7) {
        r.__rbp = 0x1300;
    }
    m.stops.push_back((STOPPED_TRAP, vec![(7, 0x1003)]));
    let (status, _) = walk(&mut m, &mut d, second, |io, d, w| {
        next_line_on(io, d, Some(0x1000), Some(&s), w)
    });
    assert_eq!(
        status,
        WaitStatus::Stopped {
            signal: 5,
            pc: 0x1002
        }
    );
}

#[test]
fn places_to_list() {
    let mut m = Machine::x86(0x1000, 0x400);
    let mut d = session(&m, Arch::X86_64);
    let s = symbols();
    let go = |m: &mut Machine, d: &mut Debugger, arg: Option<&str>, there: bool| {
        run(m, d, |io, d| list_target(io, d, Some(0x1000), Some(&s), arg, there)).unwrap()
    };
    let at = |n: u32| Ok(("/w/a.c".to_string(), n));
    assert_eq!(go(&mut m, &mut d, None, false), at(1));
    assert_eq!(go(&mut m, &mut d, Some("9"), false), at(9));
    assert_eq!(go(&mut m, &mut d, Some("a.c:2"), false), at(2));
    assert_eq!(go(&mut m, &mut d, Some("f"), false), at(3));
    assert_eq!(
        go(&mut m, &mut d, Some("b.c:2"), true),
        Ok(("b.c".to_string(), 2))
    );
    assert_eq!(
        go(&mut m, &mut d, Some("b.c:2"), false),
        Err("no source info for b.c:2 (try full path or dsymutil)".to_string())
    );
    m.set_pc(7, 0x13f0);
    assert_eq!(
        go(&mut m, &mut d, None, false),
        Err("no current source location".to_string())
    );
    let r = said(run(&mut m, &mut d, |io, d| {
        break_command(io, d, Some(0x1000), Some(&s), "a.c:3")
    }));
    assert_eq!(r.0, "Breakpoint set at 0x0000000000001080\n");
}

#[test]
fn the_first_thread() {
    let mut m = Machine::x86(0x1000, 0x400);
    let mut d = session(&m, Arch::X86_64);
    assert_eq!(run(&mut m, &mut d, |io, _| get_main_thread(io, 3)), Ok(7));
    m.regs.clear();
    assert_eq!(
        run(&mut m, &mut d, |io, _| get_main_thread(io, 3)),
        Err("task_threads returned no threads".to_string())
    );
}

#[test]
fn what_a_target_stands_for() {
    assert_eq!(next_target("rax", true), Target::Register);
    assert_eq!(next_target("n", false), Target::Variable);
    assert_eq!(next_target("0x1000", false), Target::Memory { size: 8 });
    assert_eq!(next_target("$nothing", false), Target::Memory { size: 8 });
}

#[test]
fn a_tracker_begins_disabled() {
    assert!(!LeakTracker::new().enabled);
}
