//! The contract between decoded instructions and an engine that runs them:
//! one method per opcode, and a dispatcher that routes an instruction to it.
use vstd::prelude::*;

use crate::instruction::Instruction;
use crate::instruction_arguments::{Address, Immediate, Register};

verus! {

/// An engine that can execute every instruction of the base set.
///
/// An implementation says through `executed` what running an instruction
/// does; each method promises it for its own opcode and operands, and the
/// dispatcher promises it for the instruction it is given.
pub trait ExecuteInstruction: Sized {
    /// What executing one instruction yields.
    type Output;

    /// Whether running `instruction` from state `self` may end in state
    /// `post` with output `out`. An engine that states nothing keeps this
    /// default, which allows every outcome.
    open spec fn executed(self, instruction: Instruction, post: Self, out: Self::Output) -> bool {
        true
    }

    /// Runs `nop`.
    fn execute_nop(&mut self) -> (out: Self::Output)
        ensures
            old(self).executed(Instruction::Nop, *final(self), out),
    ;

    /// Runs `syscall`.
    fn execute_syscall(&mut self, i: Immediate) -> (out: Self::Output)
        ensures
            old(self).executed(Instruction::Syscall(i), *final(self), out),
    ;

    /// Runs `ldi`.
    fn execute_ldi(&mut self, i: Immediate, r: Register) -> (out: Self::Output)
        ensures
            old(self).executed(Instruction::Ldi(i, r), *final(self), out),
    ;

    /// Runs `ldf`.
    fn execute_ldf(&mut self, i: Immediate, r: Register) -> (out: Self::Output)
        ensures
            old(self).executed(Instruction::Ldf(i, r), *final(self), out),
    ;

    /// Runs `malloc`.
    fn execute_malloc(&mut self, r: Register, r1: Register) -> (out: Self::Output)
        ensures
            old(self).executed(Instruction::Malloc(r, r1), *final(self), out),
    ;

    /// Runs `malloci`.
    fn execute_malloci(&mut self, i: Immediate, r: Register) -> (out: Self::Output)
        ensures
            old(self).executed(Instruction::Malloci(i, r), *final(self), out),
    ;

    /// Runs `copy`.
    fn execute_copy(&mut self, r: Register, r1: Register, r2: Register, r3: Register, r4: Register) -> (out: Self::Output)
        ensures
            old(self).executed(Instruction::Copy(r, r1, r2, r3, r4), *final(self), out),
    ;

    /// Runs `copyi`.
    fn execute_copyi(&mut self, i: Immediate, i1: Immediate, i2: Immediate, r: Register, r1: Register) -> (out: Self::Output)
        ensures
            old(self).executed(Instruction::Copyi(i, i1, i2, r, r1), *final(self), out),
    ;

    /// Runs `jmp`.
    fn execute_jmp(&mut self, a: Address) -> (out: Self::Output)
        ensures
            old(self).executed(Instruction::Jmp(a), *final(self), out),
    ;

    /// Routes `instruction` to the method of its opcode, with its operands.
    fn execute_instruction(&mut self, instruction: Instruction) -> (out: Self::Output)
        ensures
            old(self).executed(instruction, *final(self), out),
    {
        match instruction {
            Instruction::Nop => self.execute_nop(),
            Instruction::Syscall(i) => self.execute_syscall(i),
            Instruction::Ldi(i, r) => self.execute_ldi(i, r),
            Instruction::Ldf(i, r) => self.execute_ldf(i, r),
            Instruction::Malloc(r, r1) => self.execute_malloc(r, r1),
            Instruction::Malloci(i, r) => self.execute_malloci(i, r),
            Instruction::Copy(r, r1, r2, r3, r4) => self.execute_copy(r, r1, r2, r3, r4),
            Instruction::Copyi(i, i1, i2, r, r1) => self.execute_copyi(i, i1, i2, r, r1),
            Instruction::Jmp(a) => self.execute_jmp(a),
        }
    }
}

} // verus!
