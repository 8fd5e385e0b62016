use vxl_iset::config::{Instruction as Definition, Row};
use vxl_iset::gen_execute_instruction::{generate_execute_trait, generate_instruction_enum};

const HEADER: &str = "use crate::instruction::Instruction;\nuse crate::instruction_arguments::{Address, Immediate, Register};\n\n/// An engine that can execute every instruction of the set.\npub trait ExecuteInstruction {\n\ttype Output;\n\n\tfn execute_instruction(&mut self, instruction: Instruction) -> Self::Output {\n\t\treturn match instruction {\n";

fn def(code: u8, opcode: &str, imms: u8, regs: u8, addrs: u8, order: &str) -> Definition {
    Definition::from_row(Row {
        binary: String::new(),
        decimal: code,
        hex: String::new(),
        opcode: opcode.to_string(),
        description: String::new(),
        immediates: imms,
        registers: regs,
        addresses: addrs,
        order: order.to_string(),
    })
}

#[test]
fn execute_trait_text_for_a_small_table() {
    let defs = vec![
        def(0x00, "nop", 0, 0, 0, ""),
        def(0x19, "copyi", 3, 2, 0, "ririi"),
        def(0x37, "jmp", 0, 0, 1, "a"),
    ];
    let expected = format!(
        "{}{}{}{}{}{}{}{}{}",
        HEADER,
        "\t\t\tInstruction::Nop => self.execute_nop(),\n",
        "\t\t\tInstruction::Copyi(i, i1, i2, r, r1) => self.execute_copyi(i, i1, i2, r, r1),\n",
        "\t\t\tInstruction::Jmp(a) => self.execute_jmp(a),\n",
        "\t\t};\n\t}\n\n",
        "\tfn execute_nop(&mut self) -> Self::Output;\n\n",
        "\tfn execute_copyi(&mut self, i: Immediate, i1: Immediate, i2: Immediate, r: Register, r1: Register) -> Self::Output;\n\n",
        "\tfn execute_jmp(&mut self, a: Address) -> Self::Output;\n\n",
        "}\n\n",
    );
    assert_eq!(generate_execute_trait(&defs), expected);
}

#[test]
fn execute_trait_text_for_an_empty_table() {
    let expected = format!("{}\t\t}};\n\t}}\n\n}}\n\n", HEADER);
    assert_eq!(generate_execute_trait(&vec![]), expected);
}

#[test]
fn parameters_past_nine_take_two_digits() {
    let defs = vec![def(0x40, "wide", 0, 11, 0, "rrrrrrrrrrr")];
    let text = generate_execute_trait(&defs);
    assert!(text.contains(
        "\t\t\tInstruction::Wide(r, r1, r2, r3, r4, r5, r6, r7, r8, r9, r10) => self.execute_wide(r, r1, r2, r3, r4, r5, r6, r7, r8, r9, r10),\n"
    ));
    assert!(text.contains("r9: Register, r10: Register) -> Self::Output;"));
}

#[test]
fn fields_of_no_operand_type_get_no_parameter() {
    let defs = vec![Definition::new(
        "odd".to_string(),
        vec!["Register", "Float", "Address"],
        "Odd".to_string(),
        0x41,
        "rxa",
    )];
    let text = generate_execute_trait(&defs);
    assert!(text.contains("\t\t\tInstruction::Odd(r, a) => self.execute_odd(r, a),\n"));
    assert!(text.contains("\tfn execute_odd(&mut self, r: Register, a: Address) -> Self::Output;\n\n"));
}

#[test]
fn instruction_enum_text_for_a_small_table() {
    let defs = vec![
        def(0x00, "nop", 0, 0, 0, ""),
        def(0x19, "copyi", 3, 2, 0, "ririi"),
        def(0x37, "jmp", 0, 0, 1, "a"),
    ];
    let expected = format!(
        "{}{}{}{}{}{}{}{}{}",
        "#[derive(Debug, Clone, Copy, PartialEq)]\npub enum Instruction {\n",
        "\tNop, \n",
        "\tCopyi(Immediate, Immediate, Immediate, Register, Register), \n",
        "\tJmp(Address), \n",
        "}\n\nimpl Instruction {\n\tpub fn mnemonic(&self) -> &'static str {\n\t\treturn match self {\n",
        "\t\t\tSelf::Nop => \"nop\",\n",
        "\t\t\tSelf::Copyi(_, _, _, _, _) => \"copyi\",\n",
        "\t\t\tSelf::Jmp(_) => \"jmp\",\n",
        "\t\t};\n\t}\n}\n",
    );
    assert_eq!(generate_instruction_enum(&defs), expected);
}
