use vxl_iset::execute_instruction::ExecuteInstruction;
use vxl_iset::instruction::Instruction;
use vxl_iset::instruction_arguments::{Address, Immediate, Register};
use vxl_iset::syscall_handler::{Syscall, SyscallHandler};

#[derive(Default)]
struct Recorder {
    calls: Vec<String>,
}

impl ExecuteInstruction for Recorder {
    type Output = ();

    fn execute_nop(&mut self) {
        self.calls.push("nop".to_string());
    }

    fn execute_syscall(&mut self, i: Immediate) {
        self.calls.push(format!("syscall {}", i.bits()));
    }

    fn execute_ldi(&mut self, i: Immediate, r: Register) {
        self.calls.push(format!("ldi {} {:?}", i.bits(), r));
    }

    fn execute_ldf(&mut self, i: Immediate, r: Register) {
        self.calls.push(format!("ldf {} {:?}", i.bits(), r));
    }

    fn execute_malloc(&mut self, r: Register, r1: Register) {
        self.calls.push(format!("malloc {:?} {:?}", r, r1));
    }

    fn execute_malloci(&mut self, i: Immediate, r: Register) {
        self.calls.push(format!("malloci {} {:?}", i.bits(), r));
    }

    fn execute_copy(&mut self, r: Register, r1: Register, r2: Register, r3: Register, r4: Register) {
        self.calls.push(format!("copy {:?} {:?} {:?} {:?} {:?}", r, r1, r2, r3, r4));
    }

    fn execute_copyi(&mut self, i: Immediate, i1: Immediate, i2: Immediate, r: Register, r1: Register) {
        self.calls.push(format!("copyi {} {} {} {:?} {:?}", i.bits(), i1.bits(), i2.bits(), r, r1));
    }

    fn execute_jmp(&mut self, a: Address) {
        self.calls.push(format!("jmp {}", a.value()));
    }
}

struct Calls;

impl SyscallHandler<Recorder> for Calls {
    fn execute_target_specific_call(&mut self, call: u64, _: &mut Recorder) -> Option<u64> {
        Some(call + 1)
    }
    fn exit(&mut self, _: &mut Recorder) -> Option<u64> {
        Some(0)
    }
    fn write_byte_terminal(&mut self, _: &mut Recorder) -> Option<u64> {
        Some(1)
    }
    fn write_terminal(&mut self, _: &mut Recorder) -> Option<u64> {
        Some(2)
    }
    fn read_byte_terminal(&mut self, _: &mut Recorder) -> Option<u64> {
        Some(3)
    }
    fn read_terminal(&mut self, _: &mut Recorder) -> Option<u64> {
        Some(4)
    }
    fn open_file(&mut self, _: &mut Recorder) -> Option<u64> {
        Some(5)
    }
    fn close_file(&mut self, _: &mut Recorder) -> Option<u64> {
        Some(6)
    }
    fn read_file(&mut self, _: &mut Recorder) -> Option<u64> {
        Some(7)
    }
    fn write_file(&mut self, _: &mut Recorder) -> Option<u64> {
        Some(8)
    }
    fn execute_file(&mut self, _: &mut Recorder) -> Option<u64> {
        Some(9)
    }
    fn execute_vxl_file(&mut self, _: &mut Recorder) -> Option<u64> {
        Some(10)
    }
    fn delete_file(&mut self, _: &mut Recorder) -> Option<u64> {
        Some(11)
    }
    fn move_file(&mut self, _: &mut Recorder) -> Option<u64> {
        Some(12)
    }
    fn copy_file(&mut self, _: &mut Recorder) -> Option<u64> {
        Some(13)
    }
    fn time_of_day(&mut self, _: &mut Recorder) -> Option<u64> {
        Some(14)
    }
}

#[test]
fn call_numbers_select_their_handlers() {
    let mut machine = Recorder::default();
    let mut calls = Calls;
    for n in 0u64..=14 {
        assert_eq!(calls.execute_call(n, &mut machine), Some(n));
    }
    assert_eq!(calls.execute_call(256, &mut machine), Some(257));
    assert_eq!(calls.execute_call(u64::MAX - 1, &mut machine), Some(u64::MAX));
}

#[test]
fn call_numbers_in_the_gap_are_unknown() {
    let mut machine = Recorder::default();
    let mut calls = Calls;
    for n in [15u64, 100, 255] {
        assert_eq!(calls.execute_call(n, &mut machine), None);
        assert_eq!(Syscall::from_number(n), None);
    }
    assert_eq!(Syscall::from_number(14), Some(Syscall::TimeOfDay));
    assert_eq!(Syscall::from_number(0), Some(Syscall::Exit));
    assert_eq!(Syscall::from_number(300), Some(Syscall::TargetSpecific(300)));
}

#[test]
fn dispatch_routes_each_instruction_with_its_operands() {
    let mut machine = Recorder::default();
    machine.execute_instruction(Instruction::Nop);
    machine.execute_instruction(Instruction::Copyi(
        Immediate::from(1u64),
        Immediate::from(2u64),
        Immediate::from(3u64),
        Register::R0,
        Register::R1,
    ));
    machine.execute_instruction(Instruction::Jmp(Address::new(9)));
    machine.execute_instruction(Instruction::Malloc(Register::R2, Register::RSP));
    assert_eq!(
        machine.calls,
        vec![
            "nop".to_string(),
            "copyi 1 2 3 R0 R1".to_string(),
            "jmp 9".to_string(),
            "malloc R2 RSP".to_string(),
        ]
    );
}
