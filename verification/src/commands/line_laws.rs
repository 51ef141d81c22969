//! What holds of the words that name the commands.
use crate::commands::line;
use vstd::prelude::*;

verus! {

/// Every command is named by its words and by no others.
#[verifier::rlimit(60)]
#[verifier::spinoff_prover]
pub proof fn law_words_of_commands(w: Seq<char>)
    ensures
        line::command_named(w) is Help <==> w == "h"@ || w == "help"@,
        line::command_named(w) is Break <==> w == "b"@ || w == "break"@,
        line::command_named(w) is Delete <==> w == "del"@ || w == "delete"@,
        line::command_named(w) is Continue <==> w == "c"@ || w == "continue"@ || w == "cont"@,
        line::command_named(w) is Step <==> w == "s"@ || w == "step"@,
        line::command_named(w) is Next <==> w == "n"@ || w == "next"@,
        line::command_named(w) is StepInsn <==> w == "si"@ || w == "stepi"@,
        line::command_named(w) is Finish <==> w == "up"@ || w == "finish"@,
        line::command_named(w) is Backtrace <==> w == "tb"@ || w == "bt"@ || w == "backtrace"@,
        line::command_named(w) is List <==> w == "list"@ || w == "l"@,
        line::command_named(w) is Symbols <==> w == "syms"@ || w == "symbols"@,
        line::command_named(w) is Lines <==> w == "lines"@,
        line::command_named(w) is Info <==> w == "dbg"@ || w == "info"@,
        line::command_named(w) is Registers <==> w == "r"@ || w == "regs"@ || w == "registers"@,
        line::command_named(w) is Assign <==> w == "set"@,
        line::command_named(w) is Memory <==> w == "m"@ || w == "mem"@ || w == "memory"@,
        line::command_named(w) is Disassemble <==> w == "dis"@ || w == "disasm"@ || w == "disassemble"@,
        line::command_named(w) is Show <==> w == "show"@,
        line::command_named(w) is Leaks <==> w == "leaks"@,
        line::command_named(w) is Base <==> w == "base"@,
        line::command_named(w) is Quit <==> w == "q"@ || w == "quit"@ || w == "exit"@,
        line::command_named(w) is Print <==> w == "p"@ || w == "print"@ || "p/"@.is_prefix_of(w)
            || "print/"@.is_prefix_of(w),
{
    reveal_strlit("h");
    assert("h"@[0] == 'h');
    reveal_strlit("help");
    assert("help"@[0] == 'h' && "help"@[1] == 'e' && "help"@[2] == 'l');
    reveal_strlit("b");
    assert("b"@[0] == 'b');
    reveal_strlit("break");
    assert("break"@[0] == 'b' && "break"@[1] == 'r' && "break"@[2] == 'e');
    reveal_strlit("del");
    assert("del"@[0] == 'd' && "del"@[1] == 'e' && "del"@[2] == 'l');
    reveal_strlit("delete");
    assert("delete"@[0] == 'd' && "delete"@[1] == 'e' && "delete"@[2] == 'l');
    reveal_strlit("c");
    assert("c"@[0] == 'c');
    reveal_strlit("continue");
    assert("continue"@[0] == 'c' && "continue"@[1] == 'o' && "continue"@[2] == 'n');
    reveal_strlit("cont");
    assert("cont"@[0] == 'c' && "cont"@[1] == 'o' && "cont"@[2] == 'n');
    reveal_strlit("s");
    assert("s"@[0] == 's');
    reveal_strlit("step");
    assert("step"@[0] == 's' && "step"@[1] == 't' && "step"@[2] == 'e');
    reveal_strlit("n");
    assert("n"@[0] == 'n');
    reveal_strlit("next");
    assert("next"@[0] == 'n' && "next"@[1] == 'e' && "next"@[2] == 'x');
    reveal_strlit("si");
    assert("si"@[0] == 's' && "si"@[1] == 'i');
    reveal_strlit("stepi");
    assert("stepi"@[0] == 's' && "stepi"@[1] == 't' && "stepi"@[2] == 'e');
    reveal_strlit("up");
    assert("up"@[0] == 'u' && "up"@[1] == 'p');
    reveal_strlit("finish");
    assert("finish"@[0] == 'f' && "finish"@[1] == 'i' && "finish"@[2] == 'n');
    reveal_strlit("tb");
    assert("tb"@[0] == 't' && "tb"@[1] == 'b');
    reveal_strlit("bt");
    assert("bt"@[0] == 'b' && "bt"@[1] == 't');
    reveal_strlit("backtrace");
    assert("backtrace"@[0] == 'b' && "backtrace"@[1] == 'a' && "backtrace"@[2] == 'c');
    reveal_strlit("list");
    assert("list"@[0] == 'l' && "list"@[1] == 'i' && "list"@[2] == 's');
    reveal_strlit("l");
    assert("l"@[0] == 'l');
    reveal_strlit("syms");
    assert("syms"@[0] == 's' && "syms"@[1] == 'y' && "syms"@[2] == 'm');
    reveal_strlit("symbols");
    assert("symbols"@[0] == 's' && "symbols"@[1] == 'y' && "symbols"@[2] == 'm');
    reveal_strlit("lines");
    assert("lines"@[0] == 'l' && "lines"@[1] == 'i' && "lines"@[2] == 'n');
    reveal_strlit("dbg");
    assert("dbg"@[0] == 'd' && "dbg"@[1] == 'b' && "dbg"@[2] == 'g');
    reveal_strlit("info");
    assert("info"@[0] == 'i' && "info"@[1] == 'n' && "info"@[2] == 'f');
    reveal_strlit("r");
    assert("r"@[0] == 'r');
    reveal_strlit("regs");
    assert("regs"@[0] == 'r' && "regs"@[1] == 'e' && "regs"@[2] == 'g');
    reveal_strlit("registers");
    assert("registers"@[0] == 'r' && "registers"@[1] == 'e' && "registers"@[2] == 'g');
    reveal_strlit("set");
    assert("set"@[0] == 's' && "set"@[1] == 'e' && "set"@[2] == 't');
    reveal_strlit("m");
    assert("m"@[0] == 'm');
    reveal_strlit("mem");
    assert("mem"@[0] == 'm' && "mem"@[1] == 'e' && "mem"@[2] == 'm');
    reveal_strlit("memory");
    assert("memory"@[0] == 'm' && "memory"@[1] == 'e' && "memory"@[2] == 'm');
    reveal_strlit("dis");
    assert("dis"@[0] == 'd' && "dis"@[1] == 'i' && "dis"@[2] == 's');
    reveal_strlit("disasm");
    assert("disasm"@[0] == 'd' && "disasm"@[1] == 'i' && "disasm"@[2] == 's');
    reveal_strlit("disassemble");
    assert("disassemble"@[0] == 'd' && "disassemble"@[1] == 'i' && "disassemble"@[2] == 's');
    reveal_strlit("show");
    assert("show"@[0] == 's' && "show"@[1] == 'h' && "show"@[2] == 'o');
    reveal_strlit("leaks");
    assert("leaks"@[0] == 'l' && "leaks"@[1] == 'e' && "leaks"@[2] == 'a');
    reveal_strlit("base");
    assert("base"@[0] == 'b' && "base"@[1] == 'a' && "base"@[2] == 's');
    reveal_strlit("q");
    assert("q"@[0] == 'q');
    reveal_strlit("quit");
    assert("quit"@[0] == 'q' && "quit"@[1] == 'u' && "quit"@[2] == 'i');
    reveal_strlit("exit");
    assert("exit"@[0] == 'e' && "exit"@[1] == 'x' && "exit"@[2] == 'i');
    reveal_strlit("p");
    assert("p"@[0] == 'p');
    reveal_strlit("print");
    assert("print"@[0] == 'p' && "print"@[1] == 'r' && "print"@[2] == 'i');
    reveal_strlit("p/");
    assert("p/"@[0] == 'p' && "p/"@[1] == '/');
    reveal_strlit("print/");
    assert("print/"@[0] == 'p' && "print/"@[1] == 'r' && "print/"@[2] == 'i');
    if "p/"@.is_prefix_of(w) {
        assert(w.subrange(0, 2)[0] == w[0] && w.subrange(0, 2)[1] == w[1]);
        assert(w.len() >= 2 && w[0] == 'p' && w[1] == '/');
    }
    if "print/"@.is_prefix_of(w) {
        assert(w.subrange(0, 6)[0] == w[0] && w.subrange(0, 6)[5] == w[5]);
        assert(w.len() >= 6 && w[0] == 'p' && w[5] == '/');
    }
}

/// What is asked of the tracking of leaks is named by its words; no word asks to show them.
pub proof fn law_words_of_leaks(w: Seq<char>)
    ensures
        line::leaks_asked(None) is Show,
        line::leaks_asked(Some(w)) is On <==> w == "on"@ || w == "start"@ || w == "enable"@,
        line::leaks_asked(Some(w)) is Off <==> w == "off"@ || w == "stop"@ || w == "disable"@,
        line::leaks_asked(Some(w)) is Show <==> w == "show"@ || w == "status"@,
{
    reveal_strlit("on");
    assert("on"@[0] == 'o' && "on"@[1] == 'n');
    reveal_strlit("start");
    assert("start"@[0] == 's' && "start"@[1] == 't' && "start"@[2] == 'a');
    reveal_strlit("enable");
    assert("enable"@[0] == 'e' && "enable"@[1] == 'n' && "enable"@[2] == 'a');
    reveal_strlit("off");
    assert("off"@[0] == 'o' && "off"@[1] == 'f' && "off"@[2] == 'f');
    reveal_strlit("stop");
    assert("stop"@[0] == 's' && "stop"@[1] == 't' && "stop"@[2] == 'o');
    reveal_strlit("disable");
    assert("disable"@[0] == 'd' && "disable"@[1] == 'i' && "disable"@[2] == 's');
    reveal_strlit("show");
    assert("show"@[0] == 's' && "show"@[1] == 'h' && "show"@[2] == 'o');
    reveal_strlit("status");
    assert("status"@[0] == 's' && "status"@[1] == 't' && "status"@[2] == 'a');
    assert("show"@ != "stop"@ && "status"@ != "enable"@);
    assert("show"@.len() == 4 && "status"@.len() == 6 && "start"@.len() == 5 && "disable"@.len() == 7);
    assert("on"@.len() == 2 && "off"@.len() == 3 && "stop"@.len() == 4 && "enable"@.len() == 6);
}

} // verus!
