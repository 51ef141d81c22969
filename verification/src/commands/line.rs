//! The command line: which command a word names, and the help.
use crate::commands::location;
use crate::commands::location::{current_line, resolve_list_target};
use crate::debugger::{Dbg, Debugger};
use crate::symbols;
use crate::symbols::Symbols;
use crate::tape::{Got, Rest, Stop, StopSeq, Tape};
use crate::text::{chars_of, chars_start_with, owned, str_eq};
use vstd::prelude::*;

verus! {

/// The commands.
#[derive(Clone, Copy, Debug, PartialEq, Eq, Structural)]
pub enum Command {
    Help,
    Break,
    Delete,
    Continue,
    Step,
    Next,
    StepInsn,
    Finish,
    Backtrace,
    List,
    Symbols,
    Lines,
    Info,
    Registers,
    Print,
    Assign,
    Memory,
    Disassemble,
    Show,
    Leaks,
    Base,
    Quit,
    Unknown,
}

/// The command that a word names. The word of `print` may have a format behind a slash.
pub open spec fn command_named(w: Seq<char>) -> Command {
    if w == "h"@ || w == "help"@ {
        Command::Help
    } else if w == "b"@ || w == "break"@ {
        Command::Break
    } else if w == "del"@ || w == "delete"@ {
        Command::Delete
    } else if w == "c"@ || w == "continue"@ || w == "cont"@ {
        Command::Continue
    } else if w == "s"@ || w == "step"@ {
        Command::Step
    } else if w == "n"@ || w == "next"@ {
        Command::Next
    } else if w == "si"@ || w == "stepi"@ {
        Command::StepInsn
    } else if w == "up"@ || w == "finish"@ {
        Command::Finish
    } else if w == "tb"@ || w == "bt"@ || w == "backtrace"@ {
        Command::Backtrace
    } else if w == "list"@ || w == "l"@ {
        Command::List
    } else if w == "syms"@ || w == "symbols"@ {
        Command::Symbols
    } else if w == "lines"@ {
        Command::Lines
    } else if w == "dbg"@ || w == "info"@ {
        Command::Info
    } else if w == "r"@ || w == "regs"@ || w == "registers"@ {
        Command::Registers
    } else if w == "p"@ || w == "print"@ || "p/"@.is_prefix_of(w) || "print/"@.is_prefix_of(w) {
        Command::Print
    } else if w == "set"@ {
        Command::Assign
    } else if w == "m"@ || w == "mem"@ || w == "memory"@ {
        Command::Memory
    } else if w == "dis"@ || w == "disasm"@ || w == "disassemble"@ {
        Command::Disassemble
    } else if w == "show"@ {
        Command::Show
    } else if w == "leaks"@ {
        Command::Leaks
    } else if w == "base"@ {
        Command::Base
    } else if w == "q"@ || w == "quit"@ || w == "exit"@ {
        Command::Quit
    } else {
        Command::Unknown
    }
}

/// The command that a word names.
pub fn command_of(w: &str) -> (r: Command)
    ensures
        r == command_named(w@),
{
    let c = chars_of(w);
    if str_eq(w, "h") || str_eq(w, "help") {
        Command::Help
    } else if str_eq(w, "b") || str_eq(w, "break") {
        Command::Break
    } else if str_eq(w, "del") || str_eq(w, "delete") {
        Command::Delete
    } else if str_eq(w, "c") || str_eq(w, "continue") || str_eq(w, "cont") {
        Command::Continue
    } else if str_eq(w, "s") || str_eq(w, "step") {
        Command::Step
    } else if str_eq(w, "n") || str_eq(w, "next") {
        Command::Next
    } else if str_eq(w, "si") || str_eq(w, "stepi") {
        Command::StepInsn
    } else if str_eq(w, "up") || str_eq(w, "finish") {
        Command::Finish
    } else if str_eq(w, "tb") || str_eq(w, "bt") || str_eq(w, "backtrace") {
        Command::Backtrace
    } else if str_eq(w, "list") || str_eq(w, "l") {
        Command::List
    } else if str_eq(w, "syms") || str_eq(w, "symbols") {
        Command::Symbols
    } else if str_eq(w, "lines") {
        Command::Lines
    } else if str_eq(w, "dbg") || str_eq(w, "info") {
        Command::Info
    } else if str_eq(w, "r") || str_eq(w, "regs") || str_eq(w, "registers") {
        Command::Registers
    } else if str_eq(w, "p") || str_eq(w, "print") || chars_start_with(c.as_slice(), "p/")
        || chars_start_with(c.as_slice(), "print/") {
        Command::Print
    } else if str_eq(w, "set") {
        Command::Assign
    } else if str_eq(w, "m") || str_eq(w, "mem") || str_eq(w, "memory") {
        Command::Memory
    } else if str_eq(w, "dis") || str_eq(w, "disasm") || str_eq(w, "disassemble") {
        Command::Disassemble
    } else if str_eq(w, "show") {
        Command::Show
    } else if str_eq(w, "leaks") {
        Command::Leaks
    } else if str_eq(w, "base") {
        Command::Base
    } else if str_eq(w, "q") || str_eq(w, "quit") || str_eq(w, "exit") {
        Command::Quit
    } else {
        Command::Unknown
    }
}

/// What `leaks` is asked for.
#[derive(Clone, Copy, Debug, PartialEq, Eq, Structural)]
pub enum LeaksCommand {
    On,
    Off,
    Show,
    Unknown,
}

/// What a word behind `leaks` asks for; no word asks to show them.
pub open spec fn leaks_asked(w: Option<Seq<char>>) -> LeaksCommand {
    match w {
        None => LeaksCommand::Show,
        Some(s) => if s == "on"@ || s == "start"@ || s == "enable"@ {
            LeaksCommand::On
        } else if s == "off"@ || s == "stop"@ || s == "disable"@ {
            LeaksCommand::Off
        } else if s == "show"@ || s == "status"@ {
            LeaksCommand::Show
        } else {
            LeaksCommand::Unknown
        },
    }
}

/// What a word behind `leaks` asks for.
pub fn leaks_command_of(w: Option<&str>) -> (r: LeaksCommand)
    ensures
        r == leaks_asked(symbols::opt_text(w)),
{
    match w {
        None => LeaksCommand::Show,
        Some(s) => if str_eq(s, "on") || str_eq(s, "start") || str_eq(s, "enable") {
            LeaksCommand::On
        } else if str_eq(s, "off") || str_eq(s, "stop") || str_eq(s, "disable") {
            LeaksCommand::Off
        } else if str_eq(s, "show") || str_eq(s, "status") {
            LeaksCommand::Show
        } else {
            LeaksCommand::Unknown
        },
    }
}

/// The place that `list` is to show: where the current thread is, or the place that is named. `there`
/// says whether the file that is named before a colon exists.
pub open spec fn list_asked(
    d: Dbg,
    t: Rest,
    base: Option<u64>,
    syms: Option<&Symbols>,
    arg: Option<Seq<char>>,
    there: bool,
) -> Got<Result<(Seq<char>, u32), Seq<char>>> {
    match location::line_read(d, t, base, syms) {
        (Err(h), u) => (Err(h), u),
        (Ok(here), u) => (
            Ok(
                match arg {
                    Some(a) => location::list_place(a, crate::commands::code::file_of(here), syms, there),
                    None => match here {
                        Some(p) => Ok(p),
                        None => Err("no current source location"@),
                    },
                },
            ),
            u,
        ),
    }
}

/// The place that `list` is to show.
pub fn list_target(
    io: &mut Tape,
    dbg: &Debugger,
    base: Option<u64>,
    syms: Option<&Symbols>,
    arg: Option<&str>,
    there: bool,
) -> (r: Result<Result<(String, u32), String>, Stop>)
    ensures
        match r {
            Ok(p) => list_asked(
                dbg.state(),
                old(io)@,
                base,
                syms,
                symbols::opt_text(arg),
                there,
            ) == (Ok::<_, StopSeq>(location::told_place(p)), final(io)@),
            Err(h) => list_asked(
                dbg.state(),
                old(io)@,
                base,
                syms,
                symbols::opt_text(arg),
                there,
            ) == (Err::<Result<(Seq<char>, u32), Seq<char>>, StopSeq>(h.seq()), final(io)@),
        },
{
    let here = current_line(io, dbg, base, syms)?;
    Ok(
        match arg {
            Some(a) => match &here {
                Some((f, _)) => resolve_list_target(a, Some(f.as_str()), syms, there),
                None => resolve_list_target(a, None, syms, there),
            },
            None => match here {
                Some(p) => Ok(p),
                None => Err(owned("no current source location")),
            },
        },
    )
}

/// The help: one line for each command.
pub fn help_text() -> (r: String)
    ensures
        r@
            == "commands:\n  h, help                      show this help\n  b, break <loc>               set breakpoint (addr | base+off | symbol | file:line)\n  del, delete <N|addr|all>     delete breakpoint by number, address, or all\n  c, continue, cont            continue execution\n  s, step                      step one source line (step into)\n  n, next                      step one source line (step over)\n  si, stepi                    step one instruction\n  up, finish                   run until current function returns\n  tb, bt, backtrace            show backtrace\n  list, l [loc]                show source code (loc: line | file:line | symbol)\n  syms, symbols [pat]          show loaded symbols (optional name filter)\n  lines [pat]                  show line number table (optional file filter)\n  dbg, info                    show debug info (symbols, line numbers, types)\n  p[/FMT], print[/FMT] <expr> evaluate and print (FMT: x X d u o t c a s)\n  set <lvalue> = <expr>        set register, variable, or memory\n                               (e.g. $rax = 1, myvar = 42, 0x1000 = 0xab)\n  r, regs, registers           show registers\n  m, mem, memory <addr>        read 4 bytes at address\n  dis [loc] [count]            disassemble instructions (default: PC, 10 insns)\n  show bp                      list breakpoints\n  show locals                  list local variables at current PC\n  show args                    list function arguments at current PC\n  show globals                 list global variables\n  leaks on|off                 enable/disable heap leak tracking\n  leaks show / show leaks      show live (possibly leaked) allocations\n  base                         show main executable load address\n  q, quit, exit                quit\n"@,
{
    owned("commands:\n  h, help                      show this help\n  b, break <loc>               set breakpoint (addr | base+off | symbol | file:line)\n  del, delete <N|addr|all>     delete breakpoint by number, address, or all\n  c, continue, cont            continue execution\n  s, step                      step one source line (step into)\n  n, next                      step one source line (step over)\n  si, stepi                    step one instruction\n  up, finish                   run until current function returns\n  tb, bt, backtrace            show backtrace\n  list, l [loc]                show source code (loc: line | file:line | symbol)\n  syms, symbols [pat]          show loaded symbols (optional name filter)\n  lines [pat]                  show line number table (optional file filter)\n  dbg, info                    show debug info (symbols, line numbers, types)\n  p[/FMT], print[/FMT] <expr> evaluate and print (FMT: x X d u o t c a s)\n  set <lvalue> = <expr>        set register, variable, or memory\n                               (e.g. $rax = 1, myvar = 42, 0x1000 = 0xab)\n  r, regs, registers           show registers\n  m, mem, memory <addr>        read 4 bytes at address\n  dis [loc] [count]            disassemble instructions (default: PC, 10 insns)\n  show bp                      list breakpoints\n  show locals                  list local variables at current PC\n  show args                    list function arguments at current PC\n  show globals                 list global variables\n  leaks on|off                 enable/disable heap leak tracking\n  leaks show / show leaks      show live (possibly leaked) allocations\n  base                         show main executable load address\n  q, quit, exit                quit\n")
}

} // verus!
