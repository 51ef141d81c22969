//! The dialogue with the operating system about the debugged process.
//!
//! An operation of the debugger is a function of the state and of the answers that the system gave so
//! far. It consumes the answers in their order; where they run out it stops and says what to ask next.
//! The program asks, records the answer, and runs the operation again from the state in which it began,
//! until it comes to an end.
use crate::numerals;
use crate::numerals::push_signed;
use crate::register::aarch64::ArmDebugState64;
use crate::register::x86_64::X86DebugState64;
use crate::register::{Floats, Registers};
use crate::text::owned;
use vstd::prelude::*;

verus! {

/// The debug registers of a thread of either architecture.
#[derive(Clone, Copy, Debug)]
pub enum DebugState {
    X86(X86DebugState64),
    Arm(ArmDebugState64),
}

/// The debug registers with their rows as sequences.
pub enum DebugSeq {
    X86(X86DebugState64),
    Arm { bvr: Seq<u64>, bcr: Seq<u64>, wvr: Seq<u64>, wcr: Seq<u64>, mdscr_el1: u64 },
}

impl DebugState {
    /// The debug registers with their rows as sequences.
    pub open spec fn seq(self) -> DebugSeq {
        match self {
            DebugState::X86(s) => DebugSeq::X86(s),
            DebugState::Arm(s) => DebugSeq::Arm {
                bvr: s.bvr@,
                bcr: s.bcr@,
                wvr: s.wvr@,
                wcr: s.wcr@,
                mdscr_el1: s.mdscr_el1,
            },
        }
    }
}

/// What is asked of the system. `B` holds bytes and `D` debug registers.
#[derive(Clone, Debug)]
pub enum Request<B, D> {
    /// Read memory.
    Read { addr: usize, len: usize },
    /// Write memory.
    Write { addr: usize, data: B },
    /// Write one word of code by the tracing interface.
    WriteCode { addr: usize, word: u32 },
    /// The first region of memory that ends above the address.
    Region { addr: u64 },
    /// Change the protection of memory.
    Protect { addr: u64, size: u64, prot: i32 },
    /// The port of the process.
    Task,
    /// The ports of the threads.
    Threads { task: u32 },
    /// The identifier of a thread.
    ThreadId { port: u32 },
    /// Give a port back.
    Release { port: u32 },
    GetRegisters { port: u32 },
    SetRegisters { port: u32, regs: Registers },
    GetFloats { port: u32 },
    SetFloats { port: u32, state: Floats },
    GetDebug { port: u32 },
    SetDebug { port: u32, state: D },
    Suspend { port: u32 },
    Resume { port: u32 },
    /// Let the process run.
    Continue,
    /// Wait until the process stops or ends.
    Wait,
    Kill,
    /// Begin to trace a running process.
    Attach { pid: i32 },
    Detach,
}

/// What the system answers. `B` holds bytes, `P` ports, `T` text and `D` debug registers.
#[derive(Clone, Debug)]
pub enum Answer<B, P, T, D> {
    /// The code of a kernel call; zero is success.
    Code(i32),
    Done,
    Failed(T),
    Bytes(B),
    /// A region of memory: its beginning, its size, its protection and the most that it may have.
    Region { addr: u64, size: u64, prot: i32, max_prot: i32 },
    Port(u32),
    Ports(P),
    Id(u64),
    Registers(Registers),
    Floats(Floats),
    Debug(D),
    /// The status of a process that was waited for.
    Status(i32),
    /// The wait was interrupted by a signal.
    Interrupted,
}

/// Why an operation stopped: it asks something, or it failed with a message.
#[derive(Clone, Debug)]
pub enum Halt<B, T, D> {
    Ask(Request<B, D>),
    Fail(T),
}

pub type Req = Request<Vec<u8>, DebugState>;

pub type ReqSeq = Request<Seq<u8>, DebugSeq>;

pub type Ans = Answer<Vec<u8>, Vec<u32>, String, DebugState>;

pub type AnsSeq = Answer<Seq<u8>, Seq<u32>, Seq<char>, DebugSeq>;

pub type Stop = Halt<Vec<u8>, String, DebugState>;

pub type StopSeq = Halt<Seq<u8>, Seq<char>, DebugSeq>;

impl Request<Vec<u8>, DebugState> {
    /// The request with its bytes as a sequence.
    pub open spec fn seq(self) -> ReqSeq {
        match self {
            Request::Read { addr, len } => Request::Read { addr, len },
            Request::Write { addr, data } => Request::Write { addr, data: data@ },
            Request::WriteCode { addr, word } => Request::WriteCode { addr, word },
            Request::Region { addr } => Request::Region { addr },
            Request::Protect { addr, size, prot } => Request::Protect { addr, size, prot },
            Request::Task => Request::Task,
            Request::Threads { task } => Request::Threads { task },
            Request::ThreadId { port } => Request::ThreadId { port },
            Request::Release { port } => Request::Release { port },
            Request::GetRegisters { port } => Request::GetRegisters { port },
            Request::SetRegisters { port, regs } => Request::SetRegisters { port, regs },
            Request::GetFloats { port } => Request::GetFloats { port },
            Request::SetFloats { port, state } => Request::SetFloats { port, state },
            Request::GetDebug { port } => Request::GetDebug { port },
            Request::SetDebug { port, state } => Request::SetDebug { port, state: state.seq() },
            Request::Suspend { port } => Request::Suspend { port },
            Request::Resume { port } => Request::Resume { port },
            Request::Continue => Request::Continue,
            Request::Wait => Request::Wait,
            Request::Kill => Request::Kill,
            Request::Attach { pid } => Request::Attach { pid },
            Request::Detach => Request::Detach,
        }
    }
}

impl Answer<Vec<u8>, Vec<u32>, String, DebugState> {
    /// The answer with its contents as sequences.
    pub open spec fn seq(self) -> AnsSeq {
        match self {
            Answer::Code(c) => Answer::Code(c),
            Answer::Done => Answer::Done,
            Answer::Failed(m) => Answer::Failed(m@),
            Answer::Bytes(b) => Answer::Bytes(b@),
            Answer::Region { addr, size, prot, max_prot } => Answer::Region { addr, size, prot, max_prot },
            Answer::Port(p) => Answer::Port(p),
            Answer::Ports(p) => Answer::Ports(p@),
            Answer::Id(i) => Answer::Id(i),
            Answer::Registers(r) => Answer::Registers(r),
            Answer::Floats(f) => Answer::Floats(f),
            Answer::Debug(d) => Answer::Debug(d.seq()),
            Answer::Status(s) => Answer::Status(s),
            Answer::Interrupted => Answer::Interrupted,
        }
    }
}

impl Halt<Vec<u8>, String, DebugState> {
    /// The reason with its contents as sequences.
    pub open spec fn seq(self) -> StopSeq {
        match self {
            Halt::Ask(r) => Halt::Ask(r.seq()),
            Halt::Fail(m) => Halt::Fail(m@),
        }
    }
}

/// The outcome of a step, with the reason for a stop as sequences.
pub open spec fn step<A>(r: Result<A, Stop>) -> Result<A, StopSeq> {
    match r {
        Ok(a) => Ok(a),
        Err(h) => Err(h.seq()),
    }
}

/// The outcome of a step that gives bytes.
pub open spec fn step_bytes(r: Result<Vec<u8>, Stop>) -> Result<Seq<u8>, StopSeq> {
    match r {
        Ok(a) => Ok(a@),
        Err(h) => Err(h.seq()),
    }
}

/// The answers that are still to come.
pub type Rest = Seq<AnsSeq>;

/// What a question gives: the outcome and the answers that are left.
pub type Got<A> = (Result<A, StopSeq>, Rest);

/// The answers of the system, in their order.
pub struct Tape {
    /// The answers that are still to come, the next one last.
    rest: Vec<Ans>,
}

impl View for Tape {
    type V = Rest;

    closed spec fn view(&self) -> Rest {
        Seq::new(self.rest@.len(), |i: int| self.rest@[self.rest@.len() - 1 - i].seq())
    }
}

/// The answers as sequences, in their order.
pub open spec fn answers_seq(v: Seq<Ans>) -> Rest {
    v.map_values(|a: Ans| a.seq())
}

/// The next answer; without one the operation stops with the request.
pub open spec fn ask(t: Rest, r: ReqSeq) -> Got<AnsSeq> {
    if t.len() == 0 {
        (Err(Halt::Ask(r)), t)
    } else {
        (Ok(t[0]), t.skip(1))
    }
}

impl Tape {
    /// The tape of those answers.
    pub fn new(answers: Vec<Ans>) -> (r: Self)
        ensures
            r@ == answers_seq(answers@),
    {
        let mut from = answers;
        let mut rest: Vec<Ans> = Vec::new();
        let ghost all = answers_seq(from@);
        while from.len() > 0
            invariant
                from@.len() + rest@.len() == all.len(),
                forall|i: int| 0 <= i < from@.len() ==> (#[trigger] from@[i]).seq() == all[i],
                forall|i: int|
                    0 <= i < rest@.len() ==> (#[trigger] rest@[i]).seq() == all[all.len() - 1 - i],
            decreases from.len(),
        {
            let ghost before = from@;
            if let Some(a) = from.pop() {
                assert(a.seq() == all[before.len() - 1]);
                rest.push(a);
            }
        }
        let r = Tape { rest };
        assert(r@ =~= all);
        r
    }

    /// The next answer; without one the operation stops with the request.
    pub fn ask(&mut self, r: Req) -> (a: Result<Ans, Stop>)
        ensures
            ({
                let g = ask(old(self)@, r.seq());
                &&& final(self)@ == g.1
                &&& match a {
                    Ok(x) => g.0 == Ok::<AnsSeq, StopSeq>(x.seq()),
                    Err(h) => g.0 == Err::<AnsSeq, StopSeq>(h.seq()),
                }
            }),
    {
        let ghost before = self@;
        match self.rest.pop() {
            Some(x) => {
                assert(self@ =~= before.skip(1));
                Ok(x)
            },
            None => {
                assert(self@ =~= before);
                Err(Halt::Ask(r))
            },
        }
    }
}

/// Stops with the message that an answer does not fit the request.
pub open spec fn unfit<A>() -> Result<A, StopSeq> {
    Err(Halt::Fail("unexpected answer"@))
}

/// What a kernel call that gives nothing came to: success, or its name and the code.
pub open spec fn kernel(a: AnsSeq, name: Seq<char>) -> Result<(), StopSeq> {
    match a {
        Answer::Code(c) => if c == 0 {
            Ok(())
        } else {
            Err(Halt::Fail(name + ": mach error "@ + numerals::signed_dec(c as int)))
        },
        Answer::Failed(m) => Err(Halt::Fail(m)),
        _ => unfit(),
    }
}

/// What went wrong where a kernel call gave something other than what it should give.
pub open spec fn kernel_error<A>(a: AnsSeq, name: Seq<char>) -> Result<A, StopSeq> {
    match kernel(a, name) {
        Ok(_) => unfit(),
        Err(h) => Err(h),
    }
}

/// What a call of the tracing interface came to.
pub open spec fn traced(a: AnsSeq) -> Result<(), StopSeq> {
    match a {
        Answer::Done => Ok(()),
        Answer::Failed(m) => Err(Halt::Fail(m)),
        _ => unfit(),
    }
}

/// Asks for a kernel call that gives nothing.
pub open spec fn ask_kernel(t: Rest, r: ReqSeq, name: Seq<char>) -> Got<()> {
    match ask(t, r) {
        (Ok(a), u) => (kernel(a, name), u),
        (Err(h), u) => (Err(h), u),
    }
}

/// Asks for a call of the tracing interface.
pub open spec fn ask_traced(t: Rest, r: ReqSeq) -> Got<()> {
    match ask(t, r) {
        (Ok(a), u) => (traced(a), u),
        (Err(h), u) => (Err(h), u),
    }
}

/// The message that an answer does not fit the request.
pub fn unfit_stop() -> (r: Stop)
    ensures
        Err::<(), StopSeq>(r.seq()) == unfit::<()>(),
{
    Halt::Fail(owned("unexpected answer"))
}

/// What a kernel call that gives nothing came to.
pub fn kernel_outcome(a: Ans, name: &str) -> (r: Result<(), Stop>)
    ensures
        step(r) == kernel(a.seq(), name@),
{
    match a {
        Answer::Code(c) => if c == 0 {
            Ok(())
        } else {
            let mut m = owned(name);
            m.append(": mach error ");
            push_signed(&mut m, c as i64);
            Err(Halt::Fail(m))
        },
        Answer::Failed(m) => Err(Halt::Fail(m)),
        _ => Err(unfit_stop()),
    }
}

/// What went wrong where a kernel call gave something other than what it should give.
pub fn kernel_failure(a: Ans, name: &str) -> (r: Stop)
    ensures
        Err::<(), StopSeq>(r.seq()) == kernel_error::<()>(a.seq(), name@),
{
    match kernel_outcome(a, name) {
        Ok(_) => unfit_stop(),
        Err(h) => h,
    }
}

impl Tape {
    /// Asks for a kernel call that gives nothing.
    pub fn ask_kernel(&mut self, r: Req, name: &str) -> (a: Result<(), Stop>)
        ensures
            (step(a), final(self)@) == ask_kernel(old(self)@, r.seq(), name@),
    {
        match self.ask(r) {
            Ok(x) => kernel_outcome(x, name),
            Err(h) => Err(h),
        }
    }

    /// Asks for a call of the tracing interface.
    pub fn ask_traced(&mut self, r: Req) -> (a: Result<(), Stop>)
        ensures
            (step(a), final(self)@) == ask_traced(old(self)@, r.seq()),
    {
        match self.ask(r) {
            Ok(Answer::Done) => Ok(()),
            Ok(Answer::Failed(m)) => Err(Halt::Fail(m)),
            Ok(_) => Err(unfit_stop()),
            Err(h) => Err(h),
        }
    }
}

} // verus!
