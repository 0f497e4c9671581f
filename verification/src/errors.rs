use vstd::prelude::*;

verus! {

/// The fatal error conditions: any one of these halts emulation and must be
/// surfaced to the host as an abort, never silently swallowed.
#[derive(Clone, Copy, Debug, PartialEq, Eq, Structural)]
pub enum VmError {
    /// A memory access (instruction fetch, sprite read, register spill, or an
    /// oversized program load) fell outside the 4096-byte address space.
    OutOfBounds,
    /// A seventeenth return address was pushed onto the sixteen-deep call stack.
    StackOverflow,
    /// A return was executed with an empty call stack.
    StackUnderflow,
}

/// What a successful `step_instruction` call did.
#[derive(Clone, Copy, Debug, PartialEq, Eq, Structural)]
pub enum StepEvent {
    /// A recognized instruction was fetched and executed.
    Executed,
    /// The machine is suspended waiting for a key press; nothing was fetched.
    Waiting,
    /// The fetched opcode is not part of the instruction set; it was treated
    /// as a no-op and the program counter still advanced by two. The host may
    /// log the opcode carried here.
    Unknown(u16),
}

} // verus!
