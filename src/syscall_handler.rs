//! The fixed numbering of system calls and the contract of a handler for them.
use vstd::prelude::*;

use crate::execute_instruction::ExecuteInstruction;

verus! {

/// The first call number reserved for calls specific to a target.
pub const FIRST_TARGET_SPECIFIC_CALL: u64 = 256;

/// A system call, as its number selects it.
#[derive(Copy, Clone, PartialEq, Eq, Debug, Structural)]
pub enum Syscall {
    Exit,
    WriteByteTerminal,
    WriteTerminal,
    ReadByteTerminal,
    ReadTerminal,
    OpenFile,
    CloseFile,
    ReadFile,
    WriteFile,
    ExecuteFile,
    ExecuteVxlFile,
    DeleteFile,
    MoveFile,
    CopyFile,
    TimeOfDay,
    /// A call numbered 256 or above, left to the target.
    TargetSpecific(u64),
}

/// The call that `call` selects: 0 to 14 name the fixed calls, 256 and above
/// are left to the target, and the numbers between select nothing.
pub open spec fn spec_syscall(call: u64) -> Option<Syscall> {
    if call == 0 {
        Some(Syscall::Exit)
    } else if call == 1 {
        Some(Syscall::WriteByteTerminal)
    } else if call == 2 {
        Some(Syscall::WriteTerminal)
    } else if call == 3 {
        Some(Syscall::ReadByteTerminal)
    } else if call == 4 {
        Some(Syscall::ReadTerminal)
    } else if call == 5 {
        Some(Syscall::OpenFile)
    } else if call == 6 {
        Some(Syscall::CloseFile)
    } else if call == 7 {
        Some(Syscall::ReadFile)
    } else if call == 8 {
        Some(Syscall::WriteFile)
    } else if call == 9 {
        Some(Syscall::ExecuteFile)
    } else if call == 10 {
        Some(Syscall::ExecuteVxlFile)
    } else if call == 11 {
        Some(Syscall::DeleteFile)
    } else if call == 12 {
        Some(Syscall::MoveFile)
    } else if call == 13 {
        Some(Syscall::CopyFile)
    } else if call == 14 {
        Some(Syscall::TimeOfDay)
    } else if call >= FIRST_TARGET_SPECIFIC_CALL {
        Some(Syscall::TargetSpecific(call))
    } else {
        None
    }
}

impl Syscall {
    /// The call that the number `call` selects, or `None` for an unknown call.
    pub fn from_number(call: u64) -> (r: Option<Syscall>)
        ensures
            r == spec_syscall(call),
    {
        if call == 0 {
            Some(Syscall::Exit)
        } else if call == 1 {
            Some(Syscall::WriteByteTerminal)
        } else if call == 2 {
            Some(Syscall::WriteTerminal)
        } else if call == 3 {
            Some(Syscall::ReadByteTerminal)
        } else if call == 4 {
            Some(Syscall::ReadTerminal)
        } else if call == 5 {
            Some(Syscall::OpenFile)
        } else if call == 6 {
            Some(Syscall::CloseFile)
        } else if call == 7 {
            Some(Syscall::ReadFile)
        } else if call == 8 {
            Some(Syscall::WriteFile)
        } else if call == 9 {
            Some(Syscall::ExecuteFile)
        } else if call == 10 {
            Some(Syscall::ExecuteVxlFile)
        } else if call == 11 {
            Some(Syscall::DeleteFile)
        } else if call == 12 {
            Some(Syscall::MoveFile)
        } else if call == 13 {
            Some(Syscall::CopyFile)
        } else if call == 14 {
            Some(Syscall::TimeOfDay)
        } else if call >= FIRST_TARGET_SPECIFIC_CALL {
            Some(Syscall::TargetSpecific(call))
        } else {
            None
        }
    }
}

/// A provider of system calls for the engine `M`: one method per call, and a
/// dispatcher from call numbers to them.
///
/// An implementation says through `handled` what running each call does; each
/// handler promises it for its own call, and the dispatcher promises it for
/// the call that the number selects.
pub trait SyscallHandler<M: ExecuteInstruction>: Sized {
    /// Whether running `call` from handler state `self` and machine `machine`
    /// may end in handler state `post`, machine `post_machine` and result `r`.
    /// A handler that states nothing keeps this default, which allows every outcome.
    open spec fn handled(self, call: Syscall, machine: M, post: Self, post_machine: M, r: Option<u64>) -> bool {
        true
    }

    /// Runs a call numbered 256 or above.
    fn execute_target_specific_call(&mut self, call: u64, machine: &mut M) -> (r: Option<u64>)
        ensures
            old(self).handled(Syscall::TargetSpecific(call), *old(machine), *final(self), *final(machine), r),
    ;

    /// Runs the call `exit`.
    fn exit(&mut self, machine: &mut M) -> (r: Option<u64>)
        ensures
            old(self).handled(Syscall::Exit, *old(machine), *final(self), *final(machine), r),
    ;

    /// Runs the call `write byte terminal`.
    fn write_byte_terminal(&mut self, machine: &mut M) -> (r: Option<u64>)
        ensures
            old(self).handled(Syscall::WriteByteTerminal, *old(machine), *final(self), *final(machine), r),
    ;

    /// Runs the call `write terminal`.
    fn write_terminal(&mut self, machine: &mut M) -> (r: Option<u64>)
        ensures
            old(self).handled(Syscall::WriteTerminal, *old(machine), *final(self), *final(machine), r),
    ;

    /// Runs the call `read byte terminal`.
    fn read_byte_terminal(&mut self, machine: &mut M) -> (r: Option<u64>)
        ensures
            old(self).handled(Syscall::ReadByteTerminal, *old(machine), *final(self), *final(machine), r),
    ;

    /// Runs the call `read terminal`.
    fn read_terminal(&mut self, machine: &mut M) -> (r: Option<u64>)
        ensures
            old(self).handled(Syscall::ReadTerminal, *old(machine), *final(self), *final(machine), r),
    ;

    /// Runs the call `open file`.
    fn open_file(&mut self, machine: &mut M) -> (r: Option<u64>)
        ensures
            old(self).handled(Syscall::OpenFile, *old(machine), *final(self), *final(machine), r),
    ;

    /// Runs the call `close file`.
    fn close_file(&mut self, machine: &mut M) -> (r: Option<u64>)
        ensures
            old(self).handled(Syscall::CloseFile, *old(machine), *final(self), *final(machine), r),
    ;

    /// Runs the call `read file`.
    fn read_file(&mut self, machine: &mut M) -> (r: Option<u64>)
        ensures
            old(self).handled(Syscall::ReadFile, *old(machine), *final(self), *final(machine), r),
    ;

    /// Runs the call `write file`.
    fn write_file(&mut self, machine: &mut M) -> (r: Option<u64>)
        ensures
            old(self).handled(Syscall::WriteFile, *old(machine), *final(self), *final(machine), r),
    ;

    /// Runs the call `execute file`.
    fn execute_file(&mut self, machine: &mut M) -> (r: Option<u64>)
        ensures
            old(self).handled(Syscall::ExecuteFile, *old(machine), *final(self), *final(machine), r),
    ;

    /// Runs the call `execute vxl file`.
    fn execute_vxl_file(&mut self, machine: &mut M) -> (r: Option<u64>)
        ensures
            old(self).handled(Syscall::ExecuteVxlFile, *old(machine), *final(self), *final(machine), r),
    ;

    /// Runs the call `delete file`.
    fn delete_file(&mut self, machine: &mut M) -> (r: Option<u64>)
        ensures
            old(self).handled(Syscall::DeleteFile, *old(machine), *final(self), *final(machine), r),
    ;

    /// Runs the call `move file`.
    fn move_file(&mut self, machine: &mut M) -> (r: Option<u64>)
        ensures
            old(self).handled(Syscall::MoveFile, *old(machine), *final(self), *final(machine), r),
    ;

    /// Runs the call `copy file`.
    fn copy_file(&mut self, machine: &mut M) -> (r: Option<u64>)
        ensures
            old(self).handled(Syscall::CopyFile, *old(machine), *final(self), *final(machine), r),
    ;

    /// Runs the call `time of day`.
    fn time_of_day(&mut self, machine: &mut M) -> (r: Option<u64>)
        ensures
            old(self).handled(Syscall::TimeOfDay, *old(machine), *final(self), *final(machine), r),
    ;

    /// Runs the call numbered `call`: the handler of the call that the number
    /// selects, with the same machine (and, above 255, the same number), giving
    /// its result; an unknown number runs nothing, changes nothing and gives `None`.
    fn execute_call(&mut self, call: u64, machine: &mut M) -> (r: Option<u64>)
        ensures
            spec_syscall(call) matches Some(c) ==> old(self).handled(
                c,
                *old(machine),
                *final(self),
                *final(machine),
                r,
            ),
            spec_syscall(call) is None ==> r is None && *final(machine) == *old(machine)
                && *final(self) == *old(self),
    {
        match Syscall::from_number(call) {
            Some(Syscall::Exit) => self.exit(machine),
            Some(Syscall::WriteByteTerminal) => self.write_byte_terminal(machine),
            Some(Syscall::WriteTerminal) => self.write_terminal(machine),
            Some(Syscall::ReadByteTerminal) => self.read_byte_terminal(machine),
            Some(Syscall::ReadTerminal) => self.read_terminal(machine),
            Some(Syscall::OpenFile) => self.open_file(machine),
            Some(Syscall::CloseFile) => self.close_file(machine),
            Some(Syscall::ReadFile) => self.read_file(machine),
            Some(Syscall::WriteFile) => self.write_file(machine),
            Some(Syscall::ExecuteFile) => self.execute_file(machine),
            Some(Syscall::ExecuteVxlFile) => self.execute_vxl_file(machine),
            Some(Syscall::DeleteFile) => self.delete_file(machine),
            Some(Syscall::MoveFile) => self.move_file(machine),
            Some(Syscall::CopyFile) => self.copy_file(machine),
            Some(Syscall::TimeOfDay) => self.time_of_day(machine),
            Some(Syscall::TargetSpecific(n)) => self.execute_target_specific_call(n, machine),
            None => None,
        }
    }
}

} // verus!
