//! The program counter: a 16-bit instruction address.

use vstd::prelude::*;

verus! {

/// Number of bytes one instruction word occupies.
pub const OPCODE_SIZE: usize = 2;

/// Size of the address space the counter moves in.  CHIP-8 addresses are
/// 12 bits significant, held in a 16-bit register; advancing and skipping
/// wrap within this space rather than overflowing.
pub const ADDRESS_SPACE: usize = 0x1_0000;

/// The address the counter reaches after advancing by one instruction.
pub open spec fn next_address(pc: int) -> int {
    (pc + OPCODE_SIZE) % (ADDRESS_SPACE as int)
}

/// The address the counter reaches after skipping one instruction.
pub open spec fn skip_address(pc: int) -> int {
    (pc + 2 * OPCODE_SIZE) % (ADDRESS_SPACE as int)
}

/// Stores the address of the instruction to execute next.  A pure value
/// holder: jumps are not bounds-checked against memory, callers guarantee
/// the address is meaningful.
pub struct ProgramCounter {
    pc: usize,
}

impl View for ProgramCounter {
    type V = int;

    closed spec fn view(&self) -> int {
        self.pc as int
    }
}

impl ProgramCounter {
    /// The held address stays inside the 16-bit address space.
    pub open spec fn wf(&self) -> bool {
        0 <= self@ < ADDRESS_SPACE
    }

    pub fn new(pc: usize) -> (r: Self)
        requires
            pc < ADDRESS_SPACE,
        ensures
            r.wf(),
            r@ == pc,
    {
        ProgramCounter { pc }
    }

    /// The address of the instruction to execute next.
    pub fn get_current(&self) -> (r: usize)
        ensures
            r == self@,
    {
        self.pc
    }

    /// The address right after the current instruction, without moving.
    pub fn get_next(&self) -> (r: usize)
        requires
            self.wf(),
        ensures
            r == next_address(self@),
    {
        (self.pc + OPCODE_SIZE) % ADDRESS_SPACE
    }

    /// Advance to the following instruction.
    pub fn goto_next(&mut self)
        requires
            old(self).wf(),
        ensures
            final(self).wf(),
            final(self)@ == next_address(old(self)@),
    {
        self.pc = (self.pc + OPCODE_SIZE) % ADDRESS_SPACE;
    }

    /// Skip over the following instruction.
    pub fn skip_next(&mut self)
        requires
            old(self).wf(),
        ensures
            final(self).wf(),
            final(self)@ == skip_address(old(self)@),
    {
        self.pc = (self.pc + 2 * OPCODE_SIZE) % ADDRESS_SPACE;
    }

    /// Jump to an absolute address.
    pub fn jump(&mut self, address: usize)
        requires
            address < ADDRESS_SPACE,
        ensures
            final(self).wf(),
            final(self)@ == address,
    {
        self.pc = address;
    }
}

impl From<ProgramCounter> for usize {
    fn from(program_counter: ProgramCounter) -> (r: usize) {
        program_counter.pc
    }
}

impl vstd::std_specs::convert::FromSpecImpl<ProgramCounter> for usize {
    open spec fn obeys_from_spec() -> bool {
        true
    }

    open spec fn from_spec(program_counter: ProgramCounter) -> usize {
        program_counter@ as usize
    }
}

} // verus!
