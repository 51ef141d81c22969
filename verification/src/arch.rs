//! The processor architectures of the debugged programs.
use vstd::prelude::*;

verus! {

/// The architecture of the debugged program.
#[derive(Debug, Clone, Copy, PartialEq, Eq, Structural)]
pub enum Arch {
    X86_64,
    Aarch64,
}

impl Arch {
    /// The bytes of the breakpoint instruction: `int3`, or `brk #0` in little-endian order.
    pub open spec fn trap(self) -> Seq<u8> {
        match self {
            Arch::X86_64 => seq![0xCCu8],
            Arch::Aarch64 => seq![0x00u8, 0x00, 0x20, 0xD4],
        }
    }

    /// How far behind the breakpoint's address the program counter stands after a hit.
    pub open spec fn trap_advance(self) -> usize {
        match self {
            Arch::X86_64 => 1,
            Arch::Aarch64 => 0,
        }
    }

    /// The architecture's name.
    pub open spec fn label(self) -> Seq<char> {
        match self {
            Arch::X86_64 => "x86_64"@,
            Arch::Aarch64 => "aarch64"@,
        }
    }

    /// The `cputype` field of the architecture's Mach-O headers.
    pub open spec fn cpu_type(self) -> u32 {
        match self {
            Arch::X86_64 => 0x0100_0007,
            Arch::Aarch64 => 0x0100_000C,
        }
    }

    /// The bytes of the breakpoint instruction.
    pub fn bp_bytes(self) -> (r: Vec<u8>)
        ensures
            r@ == self.trap(),
    {
        match self {
            Arch::X86_64 => vec![0xCC],
            Arch::Aarch64 => vec![0x00, 0x00, 0x20, 0xD4],
        }
    }

    /// The length of the breakpoint instruction.
    pub fn bp_size(self) -> (r: usize)
        ensures
            r == self.trap().len(),
    {
        self.bp_bytes().len()
    }

    /// How far behind the breakpoint's address the program counter stands after a hit: `int3` has
    /// been executed, `brk` has not.
    pub fn bp_pc_offset(self) -> (r: usize)
        ensures
            r == self.trap_advance(),
    {
        match self {
            Arch::X86_64 => 1,
            Arch::Aarch64 => 0,
        }
    }

    /// The architecture's name.
    pub fn name(self) -> (r: &'static str)
        ensures
            r@ == self.label(),
    {
        match self {
            Arch::X86_64 => "x86_64",
            Arch::Aarch64 => "aarch64",
        }
    }

    /// The `cputype` field of the architecture's Mach-O headers.
    pub fn cputype(self) -> (r: u32)
        ensures
            r == self.cpu_type(),
    {
        match self {
            Arch::X86_64 => 0x0100_0007,
            Arch::Aarch64 => 0x0100_000C,
        }
    }

    /// The architecture that a `cputype` field stands for.
    pub fn from_cputype(cputype: u32) -> (r: Option<Arch>)
        ensures
            match r {
                Some(a) => a.cpu_type() == cputype,
                None => forall|a: Arch| a.cpu_type() != cputype,
            },
    {
        if cputype == 0x0100_0007 {
            Some(Arch::X86_64)
        } else if cputype == 0x0100_000C {
            Some(Arch::Aarch64)
        } else {
            None
        }
    }
}

} // verus!
