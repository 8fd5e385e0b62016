use vxl_iset::codec::DecodeError;
use vxl_iset::instruction::{Instruction, ADDRESS_KIND, IMMEDIATE_KIND, REGISTER_KIND};
use vxl_iset::instruction_arguments::{Address, Immediate, Register};

#[test]
fn test_nop_into_bytes() {
    assert_eq!(Instruction::Nop.into_bytes(), vec![0x0]);
}

#[test]
fn test_syscall_into_bytes() {
    let bytes = Instruction::Syscall(Immediate::from(52u64)).into_bytes();
    assert_eq!(bytes, vec![0x1, 0x34, 0x0, 0x0, 0x0, 0x0, 0x0, 0x0, 0x0]);
}

#[test]
fn test_malloc_into_bytes() {
    let bytes = Instruction::Malloc(Register::R0, Register::R1).into_bytes();
    assert_eq!(bytes, vec![0x9, 0b0110_0111]);
}

#[test]
fn test_malloci_into_bytes() {
    let bytes = Instruction::Malloci(Immediate::from(10u64), Register::R0).into_bytes();
    assert_eq!(bytes, vec![0xa, 0xa, 0x0, 0x0, 0x0, 0x0, 0x0, 0x0, 0x0, 0b0110_0000]);
}

#[test]
fn test_copy_into_bytes() {
    let bytes = Instruction::Copy(Register::R5, Register::R0, Register::R6, Register::R1, Register::R7)
        .into_bytes();
    assert_eq!(bytes, vec![0x18, 0b1011_0110, 0b1100_0111, 0b1101_0000]);
}

#[test]
fn test_copyi_into_bytes() {
    let bytes = Instruction::Copyi(
        Immediate::from(0x45u64),
        Immediate::from(0x12u64),
        Immediate::from(0x33u64),
        Register::R0,
        Register::R1,
    )
    .into_bytes();
    assert_eq!(
        bytes,
        vec![
            0x19, 0x45, 0x0, 0x0, 0x0, 0x0, 0x0, 0x0, 0x0, 0x12, 0x0, 0x0, 0x0, 0x0, 0x0, 0x0, 0x0,
            0x33, 0x0, 0x0, 0x0, 0x0, 0x0, 0x0, 0x0, 0b0110_0111
        ]
    );
}

#[test]
fn test_jmp_into_bytes() {
    let bytes = Instruction::Jmp(Address::from(5u64)).into_bytes();
    assert_eq!(bytes, vec![0x37, 5, 0x0, 0x0, 0x0, 0x0, 0x0, 0x0, 0x0]);
}

fn samples() -> Vec<Instruction> {
    vec![
        Instruction::Nop,
        Instruction::Syscall(Immediate::from(u64::MAX)),
        Instruction::Ldi(Immediate::from(-1i64), Register::R9),
        Instruction::Ldf(Immediate::from(1.5f64.to_bits()), Register::RSP),
        Instruction::Malloc(Register::RFL, Register::R4),
        Instruction::Malloci(Immediate::from(0x0102_0304_0506_0708u64), Register::R2),
        Instruction::Copy(Register::R9, Register::R8, Register::R7, Register::R6, Register::RRB),
        Instruction::Copyi(
            Immediate::from(7u8),
            Immediate::from(0u64),
            Immediate::from(i64::MIN),
            Register::ROU,
            Register::R3,
        ),
        Instruction::Jmp(Address::new(0xdead_beef_0000_0001)),
    ]
}

#[test]
fn decode_of_encode_is_identity() {
    for instruction in samples() {
        let bytes = instruction.into_bytes();
        assert_eq!(Instruction::decode(&bytes), Ok((instruction, bytes.len())));
    }
}

#[test]
fn decode_reads_one_instruction_of_a_stream() {
    let mut stream = Instruction::Malloc(Register::R0, Register::R1).into_bytes();
    stream.extend(Instruction::Jmp(Address::new(3)).into_bytes());
    let (first, n) = Instruction::decode(&stream).unwrap();
    assert_eq!(first, Instruction::Malloc(Register::R0, Register::R1));
    assert_eq!(n, 2);
    let (second, m) = Instruction::decode(&stream[n..]).unwrap();
    assert_eq!(second, Instruction::Jmp(Address::new(3)));
    assert_eq!(m, 9);
}

#[test]
fn decode_ignores_the_padding_nibble() {
    let bytes = vec![0x0a, 1, 0, 0, 0, 0, 0, 0, 0, 0b0110_1111];
    assert_eq!(
        Instruction::decode(&bytes),
        Ok((Instruction::Malloci(Immediate::from(1u64), Register::R0), 10))
    );
}

#[test]
fn decode_reports_truncation() {
    assert_eq!(Instruction::decode(&[]), Err(DecodeError::Truncated));
    assert_eq!(Instruction::decode(&[0x01, 0x34, 0, 0]), Err(DecodeError::Truncated));
    assert_eq!(Instruction::decode(&[0x18, 0xb6, 0xc7]), Err(DecodeError::Truncated));
}

#[test]
fn decode_reports_unknown_opcode() {
    assert_eq!(Instruction::decode(&[0xff, 0, 0]), Err(DecodeError::UnknownOpcode(0xff)));
}

#[test]
fn counts_are_defined_exactly_for_known_opcodes() {
    assert_eq!(Instruction::register_count(0x19), Some(2));
    assert_eq!(Instruction::immediate_count(0x19), Some(3));
    assert_eq!(Instruction::address_count(0x19), Some(0));
    assert_eq!(Instruction::address_count(0x37), Some(1));
    assert_eq!(Instruction::register_count(0x18), Some(5));
    assert_eq!(Instruction::register_count(0x00), Some(0));
    for code in [0x04u8, 0x08, 0x36, 0xff] {
        assert_eq!(Instruction::register_count(code), None);
        assert_eq!(Instruction::address_count(code), None);
        assert_eq!(Instruction::immediate_count(code), None);
    }
}

#[test]
fn operand_order_lookup() {
    assert_eq!(Instruction::get_type_for_index(0x19, 0), Some(REGISTER_KIND));
    assert_eq!(Instruction::get_type_for_index(0x19, 1), Some(IMMEDIATE_KIND));
    assert_eq!(Instruction::get_type_for_index(0x19, 4), Some(IMMEDIATE_KIND));
    assert_eq!(Instruction::get_type_for_index(0x19, 5), None);
    assert_eq!(Instruction::get_type_for_index(0x37, 0), Some(ADDRESS_KIND));
    assert_eq!(Instruction::get_type_for_index(0x00, 0), None);
    assert_eq!(Instruction::get_type_for_index(0xfe, 0), None);
}

#[test]
fn mnemonic_lookup_is_exact() {
    assert_eq!(Instruction::from_string("jmp"), Some(0x37));
    assert_eq!(Instruction::from_string("copyi"), Some(0x19));
    assert_eq!(Instruction::from_string("nop"), Some(0x00));
    assert_eq!(Instruction::from_string("JMP"), None);
    assert_eq!(Instruction::from_string("jm"), None);
    assert_eq!(Instruction::from_string(""), None);
    assert_eq!(Instruction::Malloci(Immediate::from(1u64), Register::R0).mnemonic(), "malloci");
}

#[test]
fn new_builds_from_parts_in_order() {
    let regs = [Register::R0, Register::R1];
    let imms = [Immediate::from(1u64), Immediate::from(2u64), Immediate::from(3u64)];
    assert_eq!(
        Instruction::new(0x19, &regs, &[], &imms),
        Some(Instruction::Copyi(imms[0], imms[1], imms[2], Register::R0, Register::R1))
    );
    assert_eq!(Instruction::new(0x00, &[], &[], &[]), Some(Instruction::Nop));
}

#[test]
fn new_refuses_wrong_counts_and_unknown_opcodes() {
    let regs = [Register::R0];
    assert_eq!(Instruction::new(0x09, &regs, &[], &[]), None);
    assert_eq!(Instruction::new(0x37, &[], &[], &[]), None);
    assert_eq!(Instruction::new(0x00, &regs, &[], &[]), None);
    assert_eq!(Instruction::new(0xee, &[], &[], &[]), None);
}

#[test]
fn program_round_trip() {
    let program = samples();
    let bytes = Instruction::encode_program(&program);
    let expected: Vec<u8> = program.iter().flat_map(|i| i.into_bytes()).collect();
    assert_eq!(bytes, expected);
    assert_eq!(Instruction::decode_program(&bytes), Ok(program));
}

#[test]
fn empty_program_round_trip() {
    assert_eq!(Instruction::encode_program(&[]), Vec::<u8>::new());
    assert_eq!(Instruction::decode_program(&[]), Ok(vec![]));
}

#[test]
fn program_decoding_reports_the_first_error() {
    let mut bytes = Instruction::encode_program(&[Instruction::Nop, Instruction::Jmp(Address::new(1))]);
    bytes.pop();
    assert_eq!(Instruction::decode_program(&bytes), Err(DecodeError::Truncated));
    assert_eq!(Instruction::decode_program(&[0x00, 0x77]), Err(DecodeError::UnknownOpcode(0x77)));
}
