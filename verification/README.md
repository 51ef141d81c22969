# macos-c-debugger

A command-line debugger for C programs on macOS, for x86_64 and Apple Silicon. What it decides and
computes is a library verified with Verus; the program around it talks to the system.

## Layout

- `src/` is the verified library.
  - `tape` describes the dialogue with the operating system: an operation is a function of its state and
    of the answers so far, and stops with a request where they run out.
  - `mach` and `breakpoint` read and write memory, registers and debug registers through that dialogue.
  - `debugger` holds the state of a session: threads, breakpoints, watchpoints, and letting the process
    run. `debugger::laws` states what holds of the operations taken together.
  - `expr` reads and evaluates expressions.
  - `object_file`, `dwarf`, `line_program`, `debug_info`, `symbols` and `stub_finder` know the program's
    file.
  - `disasm` shows machine code and finds where an instruction leads.
  - `leak_tracker` follows heap allocations.
  - `commands` is what the user's commands mean and show.
- `app/` is the program: Mach and `ptrace` calls, files, and the prompt.
- `tests/` runs the library against a machine made of a few bytes.

## Trust

The crates `object`, `gimli` and `capstone` are called through small functions whose contracts are
believed, as are a few functions of the standard library. Each has a comment that says what is claimed.
What the system answers is not trusted: every answer is an argument of the verified code.
