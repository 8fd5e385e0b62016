use vxl_iset::config::{Instruction as Definition, Row};
use vxl_iset::codec::DecodeError;
use vxl_iset::instruction::Instruction;
use vxl_iset::instruction_arguments::{Address, Immediate, Register};
use vxl_iset::schema::{
    address_count, build, decode, encode, from_string, get_type_for_index, immediate_count,
    register_count, validate, SchemaError,
};

fn row(code: u8, opcode: &str, imms: u8, regs: u8, addrs: u8, order: &str) -> Row {
    Row {
        binary: format!("{:08b}", code),
        decimal: code,
        hex: format!("{:02x}", code),
        opcode: opcode.to_string(),
        description: String::new(),
        immediates: imms,
        registers: regs,
        addresses: addrs,
        order: order.to_string(),
    }
}

fn base_rows() -> Vec<Row> {
    vec![
        row(0x00, "nop", 0, 0, 0, ""),
        row(0x01, "syscall", 1, 0, 0, "i"),
        row(0x02, "ldi", 1, 1, 0, "ri"),
        row(0x03, "ldf", 1, 1, 0, "ri"),
        row(0x09, "malloc", 0, 2, 0, "rr"),
        row(0x0a, "malloci", 1, 1, 0, "ri"),
        row(0x18, "copy", 0, 5, 0, "rrrrr"),
        row(0x19, "copyi", 3, 2, 0, "ririi"),
        row(0x37, "jmp", 0, 0, 1, "a"),
    ]
}

fn base_definitions() -> Vec<Definition> {
    base_rows().into_iter().map(Definition::from_row).collect()
}

#[test]
fn definition_from_row() {
    let d = Definition::from_row(row(0x19, "copyi", 3, 2, 0, "ririi"));
    assert_eq!(d.short_name, "copyi");
    assert_eq!(d.name, "Copyi");
    assert_eq!(d.opcode_num, 0x19);
    assert_eq!(
        d.fields,
        vec!["Immediate", "Immediate", "Immediate", "Register", "Register"]
    );
    assert_eq!(d.argument_order, vec!['r', 'i', 'r', 'i', 'i']);
}

#[test]
fn definition_new_keeps_its_parts() {
    let d = Definition::new(
        "jmp".to_string(),
        vec!["Address"],
        "Jmp".to_string(),
        0x37,
        "a",
    );
    assert_eq!(d.fields, vec!["Address".to_string()]);
    assert_eq!(d.argument_order, vec!['a']);
    assert_eq!(d.name, "Jmp");
}

#[test]
fn variant_name_of_an_empty_mnemonic_is_empty() {
    let d = Definition::from_row(row(0x05, "", 0, 0, 0, ""));
    assert_eq!(d.name, "");
}

#[test]
fn base_table_is_valid() {
    assert_eq!(validate(&base_definitions()), Ok(()));
}

#[test]
fn table_lookups_agree_with_the_instruction_type() {
    let defs = base_definitions();
    for code in 0u8..=255 {
        assert_eq!(
            register_count(&defs, code).map(|n| n as u8),
            Instruction::register_count(code)
        );
        assert_eq!(
            address_count(&defs, code).map(|n| n as u8),
            Instruction::address_count(code)
        );
        assert_eq!(
            immediate_count(&defs, code).map(|n| n as u8),
            Instruction::immediate_count(code)
        );
        for index in 0..6 {
            assert_eq!(
                get_type_for_index(&defs, code, index),
                Instruction::get_type_for_index(code, index)
            );
        }
    }
    for r in base_rows() {
        assert_eq!(from_string(&defs, &r.opcode), Instruction::from_string(&r.opcode));
    }
    assert_eq!(from_string(&defs, "halt"), None);
}

#[test]
fn order_length_mismatch_names_the_row() {
    let mut rows = base_rows();
    rows.push(row(0x40, "bad", 1, 1, 0, "r"));
    let defs: Vec<Definition> = rows.into_iter().map(Definition::from_row).collect();
    assert_eq!(validate(&defs), Err(SchemaError::OrderLength { row: 9 }));
}

#[test]
fn unknown_order_symbol_names_the_row() {
    let defs = vec![Definition::from_row(row(0x40, "bad", 1, 1, 0, "rx"))];
    assert_eq!(
        validate(&defs),
        Err(SchemaError::UnknownOrderSymbol { row: 0, symbol: 'x' })
    );
}

#[test]
fn order_counts_mismatch_names_the_row() {
    let defs = vec![
        Definition::from_row(row(0x00, "nop", 0, 0, 0, "")),
        Definition::from_row(row(0x40, "bad", 1, 1, 0, "rr")),
    ];
    assert_eq!(validate(&defs), Err(SchemaError::OrderCounts { row: 1 }));
}

#[test]
fn duplicate_code_names_the_row() {
    let defs = vec![
        Definition::from_row(row(0x07, "one", 0, 0, 0, "")),
        Definition::from_row(row(0x07, "two", 0, 0, 0, "")),
    ];
    assert_eq!(
        validate(&defs),
        Err(SchemaError::DuplicateCode { row: 1, code: 0x07 })
    );
}

#[test]
fn duplicate_mnemonic_names_the_row() {
    let defs = vec![
        Definition::from_row(row(0x07, "same", 0, 0, 0, "")),
        Definition::from_row(row(0x08, "other", 0, 0, 0, "")),
        Definition::from_row(row(0x09, "same", 0, 0, 0, "")),
    ];
    assert_eq!(validate(&defs), Err(SchemaError::DuplicateMnemonic { row: 2 }));
}

#[test]
fn table_encoding_agrees_with_the_instruction_type() {
    let defs = base_definitions();
    let samples = vec![
        Instruction::Nop,
        Instruction::Syscall(Immediate::from(52u64)),
        Instruction::Malloc(Register::R0, Register::R1),
        Instruction::Copy(Register::R5, Register::R0, Register::R6, Register::R1, Register::R7),
        Instruction::Copyi(
            Immediate::from(0x45u64),
            Immediate::from(0x12u64),
            Immediate::from(0x33u64),
            Register::R0,
            Register::R1,
        ),
        Instruction::Jmp(Address::new(5)),
    ];
    for instruction in samples {
        let bytes = encode(
            &defs,
            instruction.opcode(),
            &instruction.registers(),
            &instruction.addresses(),
            &instruction.immediates(),
        )
        .unwrap();
        assert_eq!(bytes, instruction.into_bytes());
        let (ops, n) = decode(&defs, &bytes).unwrap();
        assert_eq!(n, bytes.len());
        assert_eq!(ops.opcode, instruction.opcode());
        assert_eq!(ops.immediates, instruction.immediates());
        assert_eq!(ops.addresses, instruction.addresses());
        assert_eq!(ops.registers, instruction.registers());
    }
}

#[test]
fn table_encoding_with_addresses_and_registers() {
    let defs = vec![Definition::from_row(row(0x50, "ldr", 1, 3, 2, "raiarr"))];
    let bytes = encode(
        &defs,
        0x50,
        &[Register::R0, Register::R1, Register::R2],
        &[Address::new(1), Address::new(2)],
        &[Immediate::from(3u64)],
    )
    .unwrap();
    assert_eq!(
        bytes,
        vec![
            0x50, 3, 0, 0, 0, 0, 0, 0, 0, 1, 0, 0, 0, 0, 0, 0, 0, 2, 0, 0, 0, 0, 0, 0, 0,
            0b0110_0111, 0b1000_0000
        ]
    );
    let (ops, n) = decode(&defs, &bytes).unwrap();
    assert_eq!(n, 27);
    assert_eq!(ops.registers, vec![Register::R0, Register::R1, Register::R2]);
    assert_eq!(ops.addresses, vec![Address::new(1), Address::new(2)]);
}

#[test]
fn table_encoding_refuses_wrong_counts_and_unknown_opcodes() {
    let defs = base_definitions();
    assert_eq!(encode(&defs, 0x09, &[Register::R0], &[], &[]), None);
    assert_eq!(encode(&defs, 0xee, &[], &[], &[]), None);
}

#[test]
fn table_decoding_errors() {
    let defs = base_definitions();
    assert!(matches!(decode(&defs, &[]), Err(DecodeError::Truncated)));
    assert!(matches!(decode(&defs, &[0xee]), Err(DecodeError::UnknownOpcode(0xee))));
    assert!(matches!(decode(&defs, &[0x37, 1, 2]), Err(DecodeError::Truncated)));
}

#[test]
fn table_build_from_parts() {
    let defs = base_definitions();
    let regs = [Register::R0, Register::R1];
    let imms = [Immediate::from(1u64), Immediate::from(2u64), Immediate::from(3u64)];
    let ops = build(&defs, 0x19, &regs, &[], &imms).unwrap();
    assert_eq!(ops.opcode, 0x19);
    assert_eq!(ops.registers, regs.to_vec());
    assert_eq!(ops.immediates, imms.to_vec());
    assert!(ops.addresses.is_empty());
    assert!(build(&defs, 0x19, &regs[..1], &[], &imms).is_none());
    assert!(build(&defs, 0xee, &[], &[], &[]).is_none());
    assert!(build(&defs, 0x00, &[], &[], &[]).is_some());
}
