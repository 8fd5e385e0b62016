//! The instruction set of a small register machine: operand types, the
//! opcode table and its checks, the binary and assembly forms of
//! instructions, the execution and system call contracts, and the
//! executable container format.
pub mod codec;
pub mod config;
pub mod execute_instruction;
pub mod gen_execute_instruction;
pub mod instruction;
pub mod instruction_arguments;
pub mod schema;
pub mod syscall_handler;
pub mod text;
pub mod vxl_file;
