use vxl_iset::instruction::Instruction;
use vxl_iset::instruction_arguments::{Address, Immediate, Register};

#[test]
fn copyi_to_assembly() {
    let instruction = Instruction::Copyi(
        Immediate::from(0u64),
        Immediate::from(1u64),
        Immediate::from(2u64),
        Register::R0,
        Register::R1,
    );

    assert_eq!(instruction.into_assembly(), "copyi $r0, 0u0, $r1, 0u1, 0u2");
}

#[test]
fn ldf_to_assembly() {
    let immediate = Immediate::from(12.22f64.to_bits());
    let instruction = Instruction::Ldf(immediate, Register::R0);
    let float_text = f64::from_bits(immediate.bits()).to_string();

    assert_eq!(instruction.into_assembly_with(&float_text), "ldf $r0, 0f12.22");
}

#[test]
fn ldi_to_assembly() {
    let instruction = Instruction::Ldi(Immediate::from(-12i64), Register::R0);

    assert_eq!(instruction.into_assembly(), "ldi $r0, 0i-12");
}

#[test]
fn jmp_to_assmebly() {
    let instruction = Instruction::Jmp(Address::new(12));

    assert_eq!(instruction.into_assembly(), "jmp 0u12");
}

#[test]
fn nop_to_assembly_is_the_mnemonic_alone() {
    assert_eq!(Instruction::Nop.into_assembly(), "nop");
}

#[test]
fn assembly_of_the_same_instruction_is_the_same_text() {
    let instruction = Instruction::Malloci(Immediate::from(10u64), Register::R9);
    assert_eq!(instruction.into_assembly(), instruction.into_assembly());
    assert_eq!(instruction.into_assembly(), "malloci $r9, 0u10");
}

#[test]
fn distinct_operands_render_distinct_text() {
    let a = Instruction::Ldi(Immediate::from(-12i64), Register::R0);
    let b = Instruction::Ldi(Immediate::from(12i64), Register::R0);
    let c = Instruction::Ldi(Immediate::from(-12i64), Register::R1);
    assert_eq!(b.into_assembly(), "ldi $r0, 0i12");
    assert_ne!(a.into_assembly(), b.into_assembly());
    assert_ne!(a.into_assembly(), c.into_assembly());
}

#[test]
fn special_registers_render_by_name() {
    let instruction = Instruction::Copy(
        Register::RSP,
        Register::RFP,
        Register::ROU,
        Register::RFL,
        Register::RRA,
    );
    assert_eq!(instruction.into_assembly(), "copy $rsp, $rfp, $rou, $rfl, $rra");
    let instruction = Instruction::Malloc(Register::RRB, Register::R9);
    assert_eq!(instruction.into_assembly(), "malloc $rrb, $r9");
}

#[test]
fn extreme_immediates_render_exactly() {
    let min = Instruction::Ldi(Immediate::from(i64::MIN), Register::R2);
    assert_eq!(min.into_assembly(), "ldi $r2, 0i-9223372036854775808");
    let max = Instruction::Syscall(Immediate::from(u64::MAX));
    assert_eq!(max.into_assembly(), "syscall 0u18446744073709551615");
    let jump = Instruction::Jmp(Address::new(0));
    assert_eq!(jump.into_assembly(), "jmp 0u0");
}

#[test]
fn ldf_registers_render_distinct_text() {
    let immediate = Immediate::from(1.5f64.to_bits());
    let text = f64::from_bits(immediate.bits()).to_string();
    let a = Instruction::Ldf(immediate, Register::R0);
    let b = Instruction::Ldf(immediate, Register::R1);
    assert_eq!(a.into_assembly_with(&text), "ldf $r0, 0f1.5");
    assert_ne!(a.into_assembly_with(&text), b.into_assembly_with(&text));
}
