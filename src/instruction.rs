//! The base instruction set: one variant per opcode, with its operand counts,
//! operand order, binary encoding, decoding and assembly text.
use vstd::prelude::*;

use crate::codec::{
    decode_operands, encode_operands, lemma_operands_round_trip, operand_bytes, operand_len,
    read_operands, DecodeError,
};
use crate::instruction_arguments::{signed_value, Address, Immediate, Register};
use crate::text::{decimal, is_digit, lemma_decimal_digits, lemma_decimal_injective, push_decimal, str_eq};

verus! {

/// The tag of a register operand slot.
pub const REGISTER_KIND: u8 = 0;

/// The tag of an immediate operand slot.
pub const IMMEDIATE_KIND: u8 = 1;

/// The tag of an address operand slot.
pub const ADDRESS_KIND: u8 = 2;

/// The opcode of `nop`: no operands.
pub const NOP: u8 = 0x00;

/// The opcode of `syscall`: one immediate.
pub const SYSCALL: u8 = 0x01;

/// The opcode of `ldi`: a register, then an immediate read as a signed integer.
pub const LDI: u8 = 0x02;

/// The opcode of `ldf`: a register, then an immediate read as a double.
pub const LDF: u8 = 0x03;

/// The opcode of `malloc`: two registers.
pub const MALLOC: u8 = 0x09;

/// The opcode of `malloci`: a register, then an immediate.
pub const MALLOCI: u8 = 0x0a;

/// The opcode of `copy`: five registers.
pub const COPY: u8 = 0x18;

/// The opcode of `copyi`: register, immediate, register, immediate, immediate.
pub const COPYI: u8 = 0x19;

/// The opcode of `jmp`: one address.
pub const JMP: u8 = 0x37;

/// The mnemonic of an opcode, or `None` for a code that names no opcode.
pub open spec fn spec_mnemonic(op: u8) -> Option<Seq<char>> {
    if op == NOP {
        Some(seq!['n', 'o', 'p'])
    } else if op == SYSCALL {
        Some(seq!['s', 'y', 's', 'c', 'a', 'l', 'l'])
    } else if op == LDI {
        Some(seq!['l', 'd', 'i'])
    } else if op == LDF {
        Some(seq!['l', 'd', 'f'])
    } else if op == MALLOC {
        Some(seq!['m', 'a', 'l', 'l', 'o', 'c'])
    } else if op == MALLOCI {
        Some(seq!['m', 'a', 'l', 'l', 'o', 'c', 'i'])
    } else if op == COPY {
        Some(seq!['c', 'o', 'p', 'y'])
    } else if op == COPYI {
        Some(seq!['c', 'o', 'p', 'y', 'i'])
    } else if op == JMP {
        Some(seq!['j', 'm', 'p'])
    } else {
        None
    }
}

/// How many immediates, registers and addresses an opcode takes, or `None`
/// for a code that names no opcode.
pub open spec fn spec_counts(op: u8) -> Option<(u8, u8, u8)> {
    if op == NOP {
        Some((0, 0, 0))
    } else if op == SYSCALL {
        Some((1, 0, 0))
    } else if op == LDI || op == LDF || op == MALLOCI {
        Some((1, 1, 0))
    } else if op == MALLOC {
        Some((0, 2, 0))
    } else if op == COPY {
        Some((0, 5, 0))
    } else if op == COPYI {
        Some((3, 2, 0))
    } else if op == JMP {
        Some((0, 0, 1))
    } else {
        None
    }
}

/// The kinds of an opcode's operand slots in declared order, or `None` for a
/// code that names no opcode.
pub open spec fn spec_order(op: u8) -> Option<Seq<u8>> {
    if op == NOP {
        Some(seq![])
    } else if op == SYSCALL {
        Some(seq![IMMEDIATE_KIND])
    } else if op == LDI || op == LDF || op == MALLOCI {
        Some(seq![REGISTER_KIND, IMMEDIATE_KIND])
    } else if op == MALLOC {
        Some(seq![REGISTER_KIND, REGISTER_KIND])
    } else if op == COPY {
        Some(seq![REGISTER_KIND, REGISTER_KIND, REGISTER_KIND, REGISTER_KIND, REGISTER_KIND])
    } else if op == COPYI {
        Some(seq![REGISTER_KIND, IMMEDIATE_KIND, REGISTER_KIND, IMMEDIATE_KIND, IMMEDIATE_KIND])
    } else if op == JMP {
        Some(seq![ADDRESS_KIND])
    } else {
        None
    }
}

/// How many slots of `order` hold the kind `kind`.
pub open spec fn count_kind(order: Seq<u8>, kind: u8) -> nat
    decreases order.len(),
{
    if order.len() == 0 {
        0
    } else {
        count_kind(order.drop_last(), kind) + if order.last() == kind {
            1nat
        } else {
            0nat
        }
    }
}

/// An instruction of the base set, carrying its operands: immediates first,
/// then registers, then addresses, each kind in declared order.
#[derive(Copy, Clone, PartialEq, Eq, Debug, Structural)]
pub enum Instruction {
    /// `nop`
    Nop,
    /// `syscall`
    Syscall(Immediate),
    /// `ldi`
    Ldi(Immediate, Register),
    /// `ldf`
    Ldf(Immediate, Register),
    /// `malloc`
    Malloc(Register, Register),
    /// `malloci`
    Malloci(Immediate, Register),
    /// `copy`
    Copy(Register, Register, Register, Register, Register),
    /// `copyi`
    Copyi(Immediate, Immediate, Immediate, Register, Register),
    /// `jmp`
    Jmp(Address),
}

impl Instruction {
    /// The opcode of this instruction.
    pub open spec fn spec_opcode(self) -> u8 {
        match self {
            Instruction::Nop => NOP,
            Instruction::Syscall(..) => SYSCALL,
            Instruction::Ldi(..) => LDI,
            Instruction::Ldf(..) => LDF,
            Instruction::Malloc(..) => MALLOC,
            Instruction::Malloci(..) => MALLOCI,
            Instruction::Copy(..) => COPY,
            Instruction::Copyi(..) => COPYI,
            Instruction::Jmp(..) => JMP,
        }
    }

    /// The immediate operands, in declared order.
    pub open spec fn spec_immediates(self) -> Seq<Immediate> {
        match self {
            Instruction::Syscall(i) => seq![i],
            Instruction::Ldi(i, _) => seq![i],
            Instruction::Ldf(i, _) => seq![i],
            Instruction::Malloci(i, _) => seq![i],
            Instruction::Copyi(i, i1, i2, _, _) => seq![i, i1, i2],
            _ => seq![],
        }
    }

    /// The register operands, in declared order.
    pub open spec fn spec_registers(self) -> Seq<Register> {
        match self {
            Instruction::Ldi(_, r) => seq![r],
            Instruction::Ldf(_, r) => seq![r],
            Instruction::Malloc(r, r1) => seq![r, r1],
            Instruction::Malloci(_, r) => seq![r],
            Instruction::Copy(r, r1, r2, r3, r4) => seq![r, r1, r2, r3, r4],
            Instruction::Copyi(_, _, _, r, r1) => seq![r, r1],
            _ => seq![],
        }
    }

    /// The address operands, in declared order.
    pub open spec fn spec_addresses(self) -> Seq<Address> {
        match self {
            Instruction::Jmp(a) => seq![a],
            _ => seq![],
        }
    }

    /// The variant of opcode `op` holding the given operands; meaningful when
    /// the operand counts are those of `op`.
    pub open spec fn build(
        op: u8,
        regs: Seq<Register>,
        addrs: Seq<Address>,
        imms: Seq<Immediate>,
    ) -> Instruction {
        if op == SYSCALL {
            Instruction::Syscall(imms[0])
        } else if op == LDI {
            Instruction::Ldi(imms[0], regs[0])
        } else if op == LDF {
            Instruction::Ldf(imms[0], regs[0])
        } else if op == MALLOC {
            Instruction::Malloc(regs[0], regs[1])
        } else if op == MALLOCI {
            Instruction::Malloci(imms[0], regs[0])
        } else if op == COPY {
            Instruction::Copy(regs[0], regs[1], regs[2], regs[3], regs[4])
        } else if op == COPYI {
            Instruction::Copyi(imms[0], imms[1], imms[2], regs[0], regs[1])
        } else if op == JMP {
            Instruction::Jmp(addrs[0])
        } else {
            Instruction::Nop
        }
    }

    /// The instruction of opcode `op` with the given operands, or `None` when
    /// `op` names no opcode or an operand count differs from the opcode's.
    pub open spec fn spec_from_parts(
        op: u8,
        regs: Seq<Register>,
        addrs: Seq<Address>,
        imms: Seq<Immediate>,
    ) -> Option<Instruction> {
        match spec_counts(op) {
            None => None,
            Some((ni, nr, na)) => if imms.len() == ni && regs.len() == nr && addrs.len() == na {
                Some(Instruction::build(op, regs, addrs, imms))
            } else {
                None
            },
        }
    }

    /// The binary encoding: the opcode byte, then the operands.
    pub open spec fn spec_bytes(self) -> Seq<u8> {
        seq![self.spec_opcode()] + operand_bytes(
            self.spec_immediates(),
            self.spec_addresses(),
            self.spec_registers(),
        )
    }

    /// The instruction at the start of `bytes` and the number of bytes it takes.
    pub open spec fn spec_decode(bytes: Seq<u8>) -> Result<(Instruction, nat), DecodeError> {
        if bytes.len() == 0 {
            Err(DecodeError::Truncated)
        } else {
            match spec_counts(bytes[0]) {
                None => Err(DecodeError::UnknownOpcode(bytes[0])),
                Some((ni, nr, na)) => {
                    let n = 1 + operand_len(ni as nat, na as nat, nr as nat);
                    if n > bytes.len() {
                        Err(DecodeError::Truncated)
                    } else {
                        let (i, a, r) = read_operands(bytes, 1, ni as nat, na as nat, nr as nat);
                        Ok((Instruction::build(bytes[0], r, a, i), n))
                    }
                }
            }
        }
    }

    /// An instruction's operands have its opcode's counts, and building from
    /// them gives the instruction back.
    pub proof fn lemma_parts(self)
        ensures
            spec_counts(self.spec_opcode()) == Some(
                (
                    self.spec_immediates().len() as u8,
                    self.spec_registers().len() as u8,
                    self.spec_addresses().len() as u8,
                ),
            ),
            Instruction::build(
                self.spec_opcode(),
                self.spec_registers(),
                self.spec_addresses(),
                self.spec_immediates(),
            ) == self,
            Instruction::spec_from_parts(
                self.spec_opcode(),
                self.spec_registers(),
                self.spec_addresses(),
                self.spec_immediates(),
            ) == Some(self),
    {
    }

    /// Building an instruction from parts and taking its parts apart again
    /// gives the parts back.
    pub proof fn lemma_from_parts(op: u8, regs: Seq<Register>, addrs: Seq<Address>, imms: Seq<Immediate>)
        requires
            Instruction::spec_from_parts(op, regs, addrs, imms).is_some(),
        ensures
            ({
                let i = Instruction::spec_from_parts(op, regs, addrs, imms).unwrap();
                &&& i.spec_opcode() == op
                &&& i.spec_registers() == regs
                &&& i.spec_addresses() == addrs
                &&& i.spec_immediates() == imms
            }),
    {
        let i = Instruction::spec_from_parts(op, regs, addrs, imms).unwrap();
        assert(i.spec_registers() =~= regs);
        assert(i.spec_addresses() =~= addrs);
        assert(i.spec_immediates() =~= imms);
    }

    /// Decoding the encoding of an instruction, whatever bytes follow it,
    /// gives the instruction back and consumes exactly its encoding.
    pub proof fn lemma_round_trip(self, rest: Seq<u8>)
        ensures
            Instruction::spec_decode(self.spec_bytes() + rest) == Ok::<(Instruction, nat), DecodeError>(
                (self, self.spec_bytes().len()),
            ),
    {
        self.lemma_parts();
        let imms = self.spec_immediates();
        let addrs = self.spec_addresses();
        let regs = self.spec_registers();
        let pre = seq![self.spec_opcode()];
        lemma_operands_round_trip(imms, addrs, regs, pre, rest);
        assert(self.spec_bytes() + rest =~= pre + operand_bytes(imms, addrs, regs) + rest);
    }

    /// The operand counts of an opcode are defined exactly for the opcodes of
    /// the set: those with a mnemonic, which are the opcodes of the variants.
    pub proof fn lemma_counts_defined_iff_known(op: u8)
        ensures
            spec_counts(op).is_some() <==> spec_mnemonic(op).is_some(),
            spec_counts(op).is_some() <==> spec_order(op).is_some(),
            spec_counts(op).is_some() <==> exists|i: Instruction| i.spec_opcode() == op,
    {
        if spec_counts(op).is_some() {
            let i = if op == NOP {
                Instruction::Nop
            } else {
                Instruction::build(
                    op,
                    Seq::new(5, |k: int| Register::RSP),
                    Seq::new(1, |k: int| Address::spec_new(0)),
                    Seq::new(3, |k: int| Immediate::spec_new(0)),
                )
            };
            assert(i.spec_opcode() == op);
        }
        if exists|i: Instruction| i.spec_opcode() == op {
            let i = choose|i: Instruction| i.spec_opcode() == op;
            i.lemma_parts();
        }
    }

    /// The opcode of this instruction.
    pub fn opcode(&self) -> (r: u8)
        ensures
            r == self.spec_opcode(),
    {
        match self {
            Instruction::Nop => NOP,
            Instruction::Syscall(..) => SYSCALL,
            Instruction::Ldi(..) => LDI,
            Instruction::Ldf(..) => LDF,
            Instruction::Malloc(..) => MALLOC,
            Instruction::Malloci(..) => MALLOCI,
            Instruction::Copy(..) => COPY,
            Instruction::Copyi(..) => COPYI,
            Instruction::Jmp(..) => JMP,
        }
    }

    /// The immediate operands, in declared order.
    pub fn immediates(&self) -> (r: Vec<Immediate>)
        ensures
            r@ == self.spec_immediates(),
    {
        let mut v: Vec<Immediate> = Vec::new();
        match *self {
            Instruction::Syscall(i) => v.push(i),
            Instruction::Ldi(i, _) => v.push(i),
            Instruction::Ldf(i, _) => v.push(i),
            Instruction::Malloci(i, _) => v.push(i),
            Instruction::Copyi(i, i1, i2, _, _) => {
                v.push(i);
                v.push(i1);
                v.push(i2);
            },
            _ => {},
        }
        assert(v@ =~= self.spec_immediates());
        v
    }

    /// The register operands, in declared order.
    pub fn registers(&self) -> (r: Vec<Register>)
        ensures
            r@ == self.spec_registers(),
    {
        let mut v: Vec<Register> = Vec::new();
        match *self {
            Instruction::Ldi(_, r) => v.push(r),
            Instruction::Ldf(_, r) => v.push(r),
            Instruction::Malloc(r, r1) => {
                v.push(r);
                v.push(r1);
            },
            Instruction::Malloci(_, r) => v.push(r),
            Instruction::Copy(r, r1, r2, r3, r4) => {
                v.push(r);
                v.push(r1);
                v.push(r2);
                v.push(r3);
                v.push(r4);
            },
            Instruction::Copyi(_, _, _, r, r1) => {
                v.push(r);
                v.push(r1);
            },
            _ => {},
        }
        assert(v@ =~= self.spec_registers());
        v
    }

    /// The address operands, in declared order.
    pub fn addresses(&self) -> (r: Vec<Address>)
        ensures
            r@ == self.spec_addresses(),
    {
        let mut v: Vec<Address> = Vec::new();
        match *self {
            Instruction::Jmp(a) => v.push(a),
            _ => {},
        }
        assert(v@ =~= self.spec_addresses());
        v
    }

    /// How many immediates, registers and addresses the opcode takes, or
    /// `None` for a code that names no opcode.
    fn counts(opcode: u8) -> (r: Option<(u8, u8, u8)>)
        ensures
            r == spec_counts(opcode),
    {
        if opcode == NOP {
            Some((0, 0, 0))
        } else if opcode == SYSCALL {
            Some((1, 0, 0))
        } else if opcode == LDI || opcode == LDF || opcode == MALLOCI {
            Some((1, 1, 0))
        } else if opcode == MALLOC {
            Some((0, 2, 0))
        } else if opcode == COPY {
            Some((0, 5, 0))
        } else if opcode == COPYI {
            Some((3, 2, 0))
        } else if opcode == JMP {
            Some((0, 0, 1))
        } else {
            None
        }
    }

    /// How many register operands the opcode takes, or `None` for an unknown opcode.
    pub fn register_count(opcode: u8) -> (r: Option<u8>)
        ensures
            r == (match spec_counts(opcode) {
                Some((_, nr, _)) => Some(nr),
                None => None::<u8>,
            }),
    {
        match Self::counts(opcode) {
            Some((_, nr, _)) => Some(nr),
            None => None,
        }
    }

    /// How many address operands the opcode takes, or `None` for an unknown opcode.
    pub fn address_count(opcode: u8) -> (r: Option<u8>)
        ensures
            r == (match spec_counts(opcode) {
                Some((_, _, na)) => Some(na),
                None => None::<u8>,
            }),
    {
        match Self::counts(opcode) {
            Some((_, _, na)) => Some(na),
            None => None,
        }
    }

    /// How many immediate operands the opcode takes, or `None` for an unknown opcode.
    pub fn immediate_count(opcode: u8) -> (r: Option<u8>)
        ensures
            r == (match spec_counts(opcode) {
                Some((ni, _, _)) => Some(ni),
                None => None::<u8>,
            }),
    {
        match Self::counts(opcode) {
            Some((ni, _, _)) => Some(ni),
            None => None,
        }
    }

    /// Builds the instruction of `opcode` from its operands, taking each kind
    /// in order; `None` when `opcode` names no opcode or a slice's length
    /// differs from the opcode's count of that kind.
    pub fn new(
        opcode: u8,
        registers: &[Register],
        addresses: &[Address],
        immediates: &[Immediate],
    ) -> (r: Option<Instruction>)
        ensures
            r == Instruction::spec_from_parts(opcode, registers@, addresses@, immediates@),
    {
        let (ni, nr, na) = match Self::counts(opcode) {
            Some(c) => c,
            None => return None,
        };
        if registers.len() != nr as usize || addresses.len() != na as usize || immediates.len()
            != ni as usize {
            return None;
        }
        let i = if opcode == SYSCALL {
            Instruction::Syscall(immediates[0])
        } else if opcode == LDI {
            Instruction::Ldi(immediates[0], registers[0])
        } else if opcode == LDF {
            Instruction::Ldf(immediates[0], registers[0])
        } else if opcode == MALLOC {
            Instruction::Malloc(registers[0], registers[1])
        } else if opcode == MALLOCI {
            Instruction::Malloci(immediates[0], registers[0])
        } else if opcode == COPY {
            Instruction::Copy(registers[0], registers[1], registers[2], registers[3], registers[4])
        } else if opcode == COPYI {
            Instruction::Copyi(immediates[0], immediates[1], immediates[2], registers[0], registers[1])
        } else if opcode == JMP {
            Instruction::Jmp(addresses[0])
        } else {
            Instruction::Nop
        };
        Some(i)
    }

    /// The binary encoding: the opcode byte, the immediates and addresses as
    /// eight little-endian bytes each, then the registers packed two to a byte.
    pub fn into_bytes(&self) -> (r: Vec<u8>)
        ensures
            r@ == self.spec_bytes(),
    {
        let mut out: Vec<u8> = Vec::new();
        out.push(self.opcode());
        let imms = self.immediates();
        let addrs = self.addresses();
        let regs = self.registers();
        encode_operands(&mut out, imms.as_slice(), addrs.as_slice(), regs.as_slice());
        out
    }

    /// Decodes the instruction at the start of `bytes`, with the number of bytes
    /// it takes; fails on an unknown opcode or when too few bytes remain.
    pub fn decode(bytes: &[u8]) -> (r: Result<(Instruction, usize), DecodeError>)
        ensures
            match r {
                Ok((i, n)) => Instruction::spec_decode(bytes@) == Ok::<(Instruction, nat), DecodeError>(
                    (i, n as nat),
                ),
                Err(e) => Instruction::spec_decode(bytes@) == Err::<(Instruction, nat), DecodeError>(
                    e,
                ),
            },
    {
        if bytes.len() == 0 {
            return Err(DecodeError::Truncated);
        }
        let op = bytes[0];
        let (ni, nr, na) = match Self::counts(op) {
            Some(c) => c,
            None => return Err(DecodeError::UnknownOpcode(op)),
        };
        let (imms, addrs, regs) = match decode_operands(bytes, 1, ni as usize, na as usize, nr as usize) {
            Ok(parts) => parts,
            Err(e) => return Err(e),
        };
        let n = 1 + 8 * (ni as usize) + 8 * (na as usize) + ((nr as usize) / 2 + (nr as usize) % 2);
        match Self::new(op, regs.as_slice(), addrs.as_slice(), imms.as_slice()) {
            Some(i) => Ok((i, n)),
            None => Err(DecodeError::UnknownOpcode(op)),
        }
    }
}

/// How an opcode reads its immediates, and so how assembly text shows them.
#[derive(Copy, Clone, PartialEq, Eq, Debug, Structural)]
pub enum ImmediateStyle {
    /// As an unsigned integer, shown `0u<value>`.
    Unsigned,
    /// As a two's complement signed integer, shown `0i<value>`.
    Signed,
    /// As the bits of a double, shown `0f<value>`.
    Float,
}

/// How the opcode `op` reads its immediates.
pub open spec fn spec_style(op: u8) -> ImmediateStyle {
    if op == LDI {
        ImmediateStyle::Signed
    } else if op == LDF {
        ImmediateStyle::Float
    } else {
        ImmediateStyle::Unsigned
    }
}

/// The opcode whose mnemonic is `name`, if any.
pub open spec fn spec_code_of(name: Seq<char>) -> Option<u8> {
    if name == seq!['n', 'o', 'p'] {
        Some(NOP)
    } else if name == seq!['s', 'y', 's', 'c', 'a', 'l', 'l'] {
        Some(SYSCALL)
    } else if name == seq!['l', 'd', 'i'] {
        Some(LDI)
    } else if name == seq!['l', 'd', 'f'] {
        Some(LDF)
    } else if name == seq!['m', 'a', 'l', 'l', 'o', 'c'] {
        Some(MALLOC)
    } else if name == seq!['m', 'a', 'l', 'l', 'o', 'c', 'i'] {
        Some(MALLOCI)
    } else if name == seq!['c', 'o', 'p', 'y'] {
        Some(COPY)
    } else if name == seq!['c', 'o', 'p', 'y', 'i'] {
        Some(COPYI)
    } else if name == seq!['j', 'm', 'p'] {
        Some(JMP)
    } else {
        None
    }
}

/// A register in assembly text: `$` and its name.
pub open spec fn register_text(r: Register) -> Seq<char> {
    seq!['$'] + r.spec_name()
}

/// An address in assembly text: `0u` and its decimal value.
pub open spec fn address_text(a: Address) -> Seq<char> {
    seq!['0', 'u'] + decimal(a@ as nat)
}

/// An immediate in assembly text, read in the given style; `float_text` is
/// the decimal text of a double.
pub open spec fn immediate_text(style: ImmediateStyle, i: Immediate, float_text: Seq<char>) -> Seq<
    char,
> {
    match style {
        ImmediateStyle::Unsigned => seq!['0', 'u'] + decimal(i@ as nat),
        ImmediateStyle::Signed => if signed_value(i@) >= 0 {
            seq!['0', 'i'] + decimal(i@ as nat)
        } else {
            seq!['0', 'i', '-'] + decimal((-signed_value(i@)) as nat)
        },
        ImmediateStyle::Float => seq!['0', 'f'] + float_text,
    }
}

/// Texts joined with `, ` between them.
pub open spec fn join_operands(texts: Seq<Seq<char>>) -> Seq<char>
    decreases texts.len(),
{
    if texts.len() == 0 {
        seq![]
    } else if texts.len() == 1 {
        texts[0]
    } else {
        join_operands(texts.drop_last()) + seq![',', ' '] + texts.last()
    }
}

/// What follows the mnemonic: nothing, or a space and the joined operand texts.
pub open spec fn operand_suffix(texts: Seq<Seq<char>>) -> Seq<char> {
    if texts.len() == 0 {
        seq![]
    } else {
        seq![' '] + join_operands(texts)
    }
}

proof fn lemma_operand_suffix_push(texts: Seq<Seq<char>>, x: Seq<char>)
    ensures
        operand_suffix(texts.push(x)) == operand_suffix(texts) + (if texts.len() == 0 {
            seq![' ']
        } else {
            seq![',', ' ']
        }) + x,
{
    let t = texts.push(x);
    assert(t.drop_last() =~= texts);
    if texts.len() == 0 {
        assert(operand_suffix(t) =~= seq![' '] + x);
        assert(operand_suffix(texts) + seq![' '] + x =~= seq![' '] + x);
    } else {
        assert(operand_suffix(t) =~= operand_suffix(texts) + seq![',', ' '] + x);
    }
}

proof fn lemma_count_kind_step(order: Seq<u8>, k: int, kind: u8)
    requires
        0 <= k < order.len(),
    ensures
        count_kind(order.take(k + 1), kind) == count_kind(order.take(k), kind) + if order[k]
            == kind {
            1nat
        } else {
            0nat
        },
        count_kind(order.take(k + 1), kind) <= count_kind(order, kind),
{
    assert(order.take(k + 1).drop_last() =~= order.take(k));
    lemma_count_kind_prefix(order, k + 1, kind);
}

proof fn lemma_count_kind_prefix(order: Seq<u8>, j: int, kind: u8)
    requires
        0 <= j <= order.len(),
    ensures
        count_kind(order.take(j), kind) <= count_kind(order, kind),
    decreases order.len(),
{
    if j == order.len() {
        assert(order.take(j) =~= order);
    } else {
        assert(order.take(j) =~= order.drop_last().take(j));
        lemma_count_kind_prefix(order.drop_last(), j, kind);
    }
}

impl Instruction {
    /// The text of the operand slot of kind `kind` that is the `k`th of its kind.
    pub open spec fn slot_text(self, kind: u8, k: nat, float_text: Seq<char>) -> Seq<char> {
        if kind == REGISTER_KIND {
            register_text(self.spec_registers()[k as int])
        } else if kind == IMMEDIATE_KIND {
            immediate_text(spec_style(self.spec_opcode()), self.spec_immediates()[k as int], float_text)
        } else {
            address_text(self.spec_addresses()[k as int])
        }
    }

    /// The texts of the operand slots listed in `order`, each slot taking the
    /// next operand of its kind.
    pub open spec fn operand_texts(self, order: Seq<u8>, float_text: Seq<char>) -> Seq<Seq<char>>
        decreases order.len(),
    {
        if order.len() == 0 {
            seq![]
        } else {
            let front = order.drop_last();
            let kind = order.last();
            self.operand_texts(front, float_text).push(
                self.slot_text(kind, count_kind(front, kind), float_text),
            )
        }
    }

    /// There is one text for each slot.
    pub proof fn lemma_operand_texts_len(self, order: Seq<u8>, float_text: Seq<char>)
        ensures
            self.operand_texts(order, float_text).len() == order.len(),
        decreases order.len(),
    {
        if order.len() > 0 {
            self.lemma_operand_texts_len(order.drop_last(), float_text);
        }
    }

    /// The assembly text: the mnemonic, then the operands in declared order,
    /// separated by `, `.
    pub open spec fn spec_assembly(self, float_text: Seq<char>) -> Seq<char> {
        spec_mnemonic(self.spec_opcode()).unwrap() + operand_suffix(
            self.operand_texts(spec_order(self.spec_opcode()).unwrap(), float_text),
        )
    }

    /// Rendering is deterministic: equal instructions, with the same text for
    /// doubles, give the same assembly text.
    pub proof fn lemma_assembly_deterministic(a: Instruction, b: Instruction, float_text: Seq<char>)
        requires
            a == b,
        ensures
            a.spec_assembly(float_text) == b.spec_assembly(float_text),
    {
    }

    /// Whether the instruction carries an immediate that its opcode reads as a double.
    pub open spec fn spec_has_float(self) -> bool {
        spec_style(self.spec_opcode()) == ImmediateStyle::Float && self.spec_immediates().len() > 0
    }

    /// Each kind occurs in an opcode's order as often as its count says, and
    /// the order is as long as the three counts together.
    pub proof fn lemma_order_matches_counts(op: u8)
        requires
            spec_counts(op).is_some(),
        ensures
            spec_order(op).is_some(),
            spec_mnemonic(op).is_some(),
            ({
                let (ni, nr, na) = spec_counts(op).unwrap();
                let order = spec_order(op).unwrap();
                &&& order.len() == ni + nr + na
                &&& count_kind(order, IMMEDIATE_KIND) == ni
                &&& count_kind(order, REGISTER_KIND) == nr
                &&& count_kind(order, ADDRESS_KIND) == na
            }),
    {
        let order = spec_order(op).unwrap();
        reveal_with_fuel(count_kind, 6);
        if op == COPY {
            assert(order.drop_last() =~= seq![REGISTER_KIND, REGISTER_KIND, REGISTER_KIND, REGISTER_KIND]);
            assert(order.drop_last().drop_last() =~= seq![REGISTER_KIND, REGISTER_KIND, REGISTER_KIND]);
            assert(order.drop_last().drop_last().drop_last() =~= seq![REGISTER_KIND, REGISTER_KIND]);
            assert(order.drop_last().drop_last().drop_last().drop_last() =~= seq![REGISTER_KIND]);
            assert(order.drop_last().drop_last().drop_last().drop_last().drop_last() =~= seq![]);
        } else if op == COPYI {
            assert(order.drop_last() =~= seq![REGISTER_KIND, IMMEDIATE_KIND, REGISTER_KIND, IMMEDIATE_KIND]);
            assert(order.drop_last().drop_last() =~= seq![REGISTER_KIND, IMMEDIATE_KIND, REGISTER_KIND]);
            assert(order.drop_last().drop_last().drop_last() =~= seq![REGISTER_KIND, IMMEDIATE_KIND]);
            assert(order.drop_last().drop_last().drop_last().drop_last() =~= seq![REGISTER_KIND]);
            assert(order.drop_last().drop_last().drop_last().drop_last().drop_last() =~= seq![]);
        } else if op == MALLOC || op == LDI || op == LDF || op == MALLOCI {
            assert(order.drop_last().drop_last() =~= seq![]);
        } else if op == SYSCALL || op == JMP {
            assert(order.drop_last() =~= seq![]);
        }
    }

    /// The mnemonic of this instruction's opcode.
    pub fn mnemonic(&self) -> (r: &'static str)
        ensures
            Some(r@) == spec_mnemonic(self.spec_opcode()),
    {
        match Self::mnemonic_of(self.opcode()) {
            Some(m) => m,
            None => "",
        }
    }

    /// The mnemonic of `opcode`, or `None` for a code that names no opcode.
    pub fn mnemonic_of(opcode: u8) -> (r: Option<&'static str>)
        ensures
            match r {
                Some(m) => spec_mnemonic(opcode) == Some(m@),
                None => spec_mnemonic(opcode).is_none(),
            },
    {
        proof {
            reveal_strlit("nop");
            reveal_strlit("syscall");
            reveal_strlit("ldi");
            reveal_strlit("ldf");
            reveal_strlit("malloc");
            reveal_strlit("malloci");
            reveal_strlit("copy");
            reveal_strlit("copyi");
            reveal_strlit("jmp");
        }
        if opcode == NOP {
            Some("nop")
        } else if opcode == SYSCALL {
            Some("syscall")
        } else if opcode == LDI {
            Some("ldi")
        } else if opcode == LDF {
            Some("ldf")
        } else if opcode == MALLOC {
            Some("malloc")
        } else if opcode == MALLOCI {
            Some("malloci")
        } else if opcode == COPY {
            Some("copy")
        } else if opcode == COPYI {
            Some("copyi")
        } else if opcode == JMP {
            Some("jmp")
        } else {
            None
        }
    }

    /// The opcode whose mnemonic is exactly `opcode` (case-sensitive), or `None`.
    pub fn from_string(opcode: &str) -> (r: Option<u8>)
        ensures
            r == spec_code_of(opcode@),
    {
        proof {
            reveal_strlit("nop");
            reveal_strlit("syscall");
            reveal_strlit("ldi");
            reveal_strlit("ldf");
            reveal_strlit("malloc");
            reveal_strlit("malloci");
            reveal_strlit("copy");
            reveal_strlit("copyi");
            reveal_strlit("jmp");
            assert("nop"@ =~= seq!['n', 'o', 'p']);
            assert("syscall"@ =~= seq!['s', 'y', 's', 'c', 'a', 'l', 'l']);
            assert("ldi"@ =~= seq!['l', 'd', 'i']);
            assert("ldf"@ =~= seq!['l', 'd', 'f']);
            assert("malloc"@ =~= seq!['m', 'a', 'l', 'l', 'o', 'c']);
            assert("malloci"@ =~= seq!['m', 'a', 'l', 'l', 'o', 'c', 'i']);
            assert("copy"@ =~= seq!['c', 'o', 'p', 'y']);
            assert("copyi"@ =~= seq!['c', 'o', 'p', 'y', 'i']);
            assert("jmp"@ =~= seq!['j', 'm', 'p']);
        }
        if str_eq(opcode, "nop") {
            Some(NOP)
        } else if str_eq(opcode, "syscall") {
            Some(SYSCALL)
        } else if str_eq(opcode, "ldi") {
            Some(LDI)
        } else if str_eq(opcode, "ldf") {
            Some(LDF)
        } else if str_eq(opcode, "malloc") {
            Some(MALLOC)
        } else if str_eq(opcode, "malloci") {
            Some(MALLOCI)
        } else if str_eq(opcode, "copy") {
            Some(COPY)
        } else if str_eq(opcode, "copyi") {
            Some(COPYI)
        } else if str_eq(opcode, "jmp") {
            Some(JMP)
        } else {
            None
        }
    }

    /// The kinds of the opcode's operand slots in declared order.
    fn ordering(opcode: u8) -> (r: Option<Vec<u8>>)
        ensures
            match r {
                Some(v) => spec_order(opcode) == Some(v@),
                None => spec_order(opcode).is_none(),
            },
    {
        let mut v: Vec<u8> = Vec::new();
        if opcode == NOP {
        } else if opcode == SYSCALL {
            v.push(IMMEDIATE_KIND);
        } else if opcode == LDI || opcode == LDF || opcode == MALLOCI {
            v.push(REGISTER_KIND);
            v.push(IMMEDIATE_KIND);
        } else if opcode == MALLOC {
            v.push(REGISTER_KIND);
            v.push(REGISTER_KIND);
        } else if opcode == COPY {
            v.push(REGISTER_KIND);
            v.push(REGISTER_KIND);
            v.push(REGISTER_KIND);
            v.push(REGISTER_KIND);
            v.push(REGISTER_KIND);
        } else if opcode == COPYI {
            v.push(REGISTER_KIND);
            v.push(IMMEDIATE_KIND);
            v.push(REGISTER_KIND);
            v.push(IMMEDIATE_KIND);
            v.push(IMMEDIATE_KIND);
        } else if opcode == JMP {
            v.push(ADDRESS_KIND);
        } else {
            return None;
        }
        assert(spec_order(opcode) == Some(v@)) by {
            assert(spec_order(opcode).unwrap() =~= v@);
        }
        Some(v)
    }

    /// The kind tag (`REGISTER_KIND`, `IMMEDIATE_KIND` or `ADDRESS_KIND`) of
    /// slot `index` in the opcode's declared operand order; `None` when the
    /// opcode is unknown or the index is past its last slot.
    pub fn get_type_for_index(opcode: u8, index: usize) -> (r: Option<u8>)
        ensures
            r == (match spec_order(opcode) {
                Some(order) => if index < order.len() {
                    Some(order[index as int])
                } else {
                    None
                },
                None => None::<u8>,
            }),
    {
        match Self::ordering(opcode) {
            Some(order) => if index < order.len() {
                Some(order[index])
            } else {
                None
            },
            None => None,
        }
    }

    fn style(opcode: u8) -> (r: ImmediateStyle)
        ensures
            r == spec_style(opcode),
    {
        if opcode == LDI {
            ImmediateStyle::Signed
        } else if opcode == LDF {
            ImmediateStyle::Float
        } else {
            ImmediateStyle::Unsigned
        }
    }

    /// The assembly text, with `float_text` standing for the decimal text of
    /// each immediate that the opcode reads as a double.
    pub fn into_assembly_with(&self, float_text: &str) -> (r: String)
        ensures
            r@ == self.spec_assembly(float_text@),
    {
        let op = self.opcode();
        proof {
            self.lemma_parts();
            Instruction::lemma_order_matches_counts(op);
        }
        let order = match Self::ordering(op) {
            Some(o) => o,
            None => Vec::new(),
        };
        let imms = self.immediates();
        let regs = self.registers();
        let addrs = self.addresses();
        let style = Self::style(op);
        let mut out = String::from_str(self.mnemonic());
        let ghost ft = float_text@;
        let ghost mn = spec_mnemonic(op).unwrap();
        let mut ci: usize = 0;
        let mut cr: usize = 0;
        let mut ca: usize = 0;
        let mut k: usize = 0;
        assert(order@.take(0) =~= seq![]);
        while k < order.len()
            invariant
                op == self.spec_opcode(),
                style == spec_style(op),
                ft == float_text@,
                mn == spec_mnemonic(op).unwrap(),
                spec_order(op) == Some(order@),
                imms@ == self.spec_immediates(),
                regs@ == self.spec_registers(),
                addrs@ == self.spec_addresses(),
                count_kind(order@, IMMEDIATE_KIND) == imms@.len(),
                count_kind(order@, REGISTER_KIND) == regs@.len(),
                count_kind(order@, ADDRESS_KIND) == addrs@.len(),
                k <= order@.len(),
                ci == count_kind(order@.take(k as int), IMMEDIATE_KIND),
                cr == count_kind(order@.take(k as int), REGISTER_KIND),
                ca == count_kind(order@.take(k as int), ADDRESS_KIND),
                out@ == mn + operand_suffix(self.operand_texts(order@.take(k as int), ft)),
            decreases order.len() - k,
        {
            let ghost before = self.operand_texts(order@.take(k as int), ft);
            proof {
                self.lemma_operand_texts_len(order@.take(k as int), ft);
                lemma_count_kind_step(order@, k as int, IMMEDIATE_KIND);
                lemma_count_kind_step(order@, k as int, REGISTER_KIND);
                lemma_count_kind_step(order@, k as int, ADDRESS_KIND);
                assert(order@.take(k + 1).drop_last() =~= order@.take(k as int));
            }
            proof {
                reveal_strlit(" ");
                reveal_strlit(", ");
                assert(" "@ =~= seq![' ']);
                assert(", "@ =~= seq![',', ' ']);
            }
            if k == 0 {
                out.append(" ");
            } else {
                out.append(", ");
            }
            let kind = order[k];
            let ghost mark = out@;
            if kind == REGISTER_KIND {
                push_register_text(&mut out, regs[cr]);
                cr = cr + 1;
            } else if kind == IMMEDIATE_KIND {
                push_immediate_text(&mut out, style, imms[ci], float_text);
                ci = ci + 1;
            } else {
                assert(kind == ADDRESS_KIND) by {
                    assert(order@.contains(kind));
                }
                push_address_text(&mut out, addrs[ca]);
                ca = ca + 1;
            }
            proof {
                let x = self.slot_text(kind, count_kind(order@.take(k as int), kind), ft);
                assert(self.operand_texts(order@.take(k + 1), ft) == before.push(x));
                lemma_operand_suffix_push(before, x);
                if kind == REGISTER_KIND {
                    assert(out@ =~= mark + register_text(self.spec_registers()[cr - 1]));
                } else if kind == IMMEDIATE_KIND {
                    assert(out@ =~= mark + immediate_text(style, self.spec_immediates()[ci - 1], ft));
                } else {
                    assert(out@ =~= mark + address_text(self.spec_addresses()[ca - 1]));
                }
                assert(out@ =~= mn + operand_suffix(before.push(x)));
            }
            k = k + 1;
        }
        assert(order@.take(order@.len() as int) =~= order@);
        out
    }

    /// The assembly text: the mnemonic, then the operands in declared order,
    /// separated by `, `. An instruction whose opcode reads its immediate as a
    /// double is shown with `into_assembly_with`, since the decimal text of a
    /// double is not produced here.
    pub fn into_assembly(&self) -> (r: String)
        requires
            !self.spec_has_float(),
        ensures
            r@ == self.spec_assembly(seq![]),
    {
        proof {
            reveal_strlit("");
            assert(""@ =~= Seq::<char>::empty());
        }
        self.into_assembly_with("")
    }
}

fn push_register_text(out: &mut String, r: Register)
    ensures
        final(out)@ == old(out)@ + register_text(r),
{
    proof {
        reveal_strlit("$");
    }
    out.append("$");
    out.append(r.name());
    assert(final(out)@ =~= old(out)@ + register_text(r));
}

fn push_address_text(out: &mut String, a: Address)
    ensures
        final(out)@ == old(out)@ + address_text(a),
{
    proof {
        reveal_strlit("0u");
    }
    out.append("0u");
    push_decimal(out, a.value());
    assert(final(out)@ =~= old(out)@ + address_text(a));
}

fn push_immediate_text(out: &mut String, style: ImmediateStyle, i: Immediate, float_text: &str)
    ensures
        final(out)@ == old(out)@ + immediate_text(style, i, float_text@),
{
    proof {
        reveal_strlit("0u");
        reveal_strlit("0i");
        reveal_strlit("0i-");
        reveal_strlit("0f");
    }
    let bits = i.bits();
    match style {
        ImmediateStyle::Unsigned => {
            out.append("0u");
            push_decimal(out, bits);
        },
        ImmediateStyle::Signed => {
            if bits < 0x8000_0000_0000_0000u64 {
                out.append("0i");
                push_decimal(out, bits);
            } else {
                out.append("0i-");
                push_decimal(out, (u64::MAX - bits) + 1);
            }
        },
        ImmediateStyle::Float => {
            out.append("0f");
            out.append(float_text);
        },
    }
    assert(final(out)@ =~= old(out)@ + immediate_text(style, i, float_text@));
}

/// The encoding of a program: the encodings of its instructions in turn.
pub open spec fn program_bytes(p: Seq<Instruction>) -> Seq<u8>
    decreases p.len(),
{
    if p.len() == 0 {
        seq![]
    } else {
        p[0].spec_bytes() + program_bytes(p.drop_first())
    }
}

/// `xs` in front of the instructions of `r`, or the error of `r`.
pub open spec fn prepend(xs: Seq<Instruction>, r: Result<Seq<Instruction>, DecodeError>) -> Result<
    Seq<Instruction>,
    DecodeError,
> {
    match r {
        Ok(ys) => Ok(xs + ys),
        Err(e) => Err(e),
    }
}

/// The instructions of a byte stream, decoded one after another to its end,
/// or the first error met.
pub open spec fn spec_decode_program(bytes: Seq<u8>) -> Result<Seq<Instruction>, DecodeError>
    decreases bytes.len(),
{
    if bytes.len() == 0 {
        Ok(seq![])
    } else {
        match Instruction::spec_decode(bytes) {
            Err(e) => Err(e),
            Ok((i, n)) => if 1 <= n <= bytes.len() {
                prepend(seq![i], spec_decode_program(bytes.subrange(n as int, bytes.len() as int)))
            } else {
                Err(DecodeError::Truncated)
            },
        }
    }
}

proof fn lemma_program_bytes_push(p: Seq<Instruction>, i: Instruction)
    ensures
        program_bytes(p.push(i)) == program_bytes(p) + i.spec_bytes(),
    decreases p.len(),
{
    if p.len() == 0 {
        assert(p.push(i).drop_first() =~= Seq::<Instruction>::empty());
        assert(program_bytes(p.push(i).drop_first()) =~= Seq::<u8>::empty());
        assert(p.push(i)[0] == i);
        assert(program_bytes(p.push(i)) =~= i.spec_bytes());
        assert(program_bytes(p) =~= Seq::<u8>::empty());
    } else {
        assert(p.push(i).drop_first() =~= p.drop_first().push(i));
        lemma_program_bytes_push(p.drop_first(), i);
        assert(program_bytes(p.push(i)) =~= program_bytes(p) + i.spec_bytes());
    }
}

/// Decoding the encoding of a program gives the program back.
pub proof fn lemma_program_round_trip(p: Seq<Instruction>)
    ensures
        spec_decode_program(program_bytes(p)) == Ok::<Seq<Instruction>, DecodeError>(p),
    decreases p.len(),
{
    if p.len() > 0 {
        let rest = program_bytes(p.drop_first());
        p[0].lemma_round_trip(rest);
        let bytes = program_bytes(p);
        let n = p[0].spec_bytes().len();
        assert(bytes == p[0].spec_bytes() + rest);
        assert(n >= 1);
        assert(bytes.len() >= n);
        assert(Instruction::spec_decode(bytes) == Ok::<(Instruction, nat), DecodeError>((p[0], n)));
        assert(bytes.subrange(n as int, bytes.len() as int) =~= rest);
        lemma_program_round_trip(p.drop_first());
        assert(seq![p[0]] + p.drop_first() =~= p);
        assert(bytes.len() != 0);
        assert(spec_decode_program(bytes) == prepend(seq![p[0]], spec_decode_program(rest)));
    } else {
        assert(p =~= Seq::<Instruction>::empty());
        assert(program_bytes(p) =~= Seq::<u8>::empty());
    }
}

impl Instruction {
    /// The encoding of a program: the encodings of its instructions in turn.
    pub fn encode_program(program: &[Instruction]) -> (r: Vec<u8>)
        ensures
            r@ == program_bytes(program@),
    {
        let mut out: Vec<u8> = Vec::new();
        let mut k: usize = 0;
        assert(program@.take(0) =~= seq![]);
        while k < program.len()
            invariant
                k <= program@.len(),
                out@ == program_bytes(program@.take(k as int)),
            decreases program.len() - k,
        {
            let b = program[k].into_bytes();
            proof {
                lemma_program_bytes_push(program@.take(k as int), program@[k as int]);
                assert(program@.take(k + 1) =~= program@.take(k as int).push(program@[k as int]));
            }
            let mut j: usize = 0;
            let ghost base = out@;
            while j < b.len()
                invariant
                    j <= b@.len(),
                    out@ == base + b@.subrange(0, j as int),
                decreases b.len() - j,
            {
                out.push(b[j]);
                j = j + 1;
                assert(out@ =~= base + b@.subrange(0, j as int));
            }
            assert(b@.subrange(0, b@.len() as int) =~= b@);
            k = k + 1;
        }
        assert(program@.take(k as int) =~= program@);
        out
    }

    /// Decodes a whole byte stream into its instructions, in order; fails with
    /// the first error met.
    pub fn decode_program(bytes: &[u8]) -> (r: Result<Vec<Instruction>, DecodeError>)
        ensures
            match r {
                Ok(p) => spec_decode_program(bytes@) == Ok::<Seq<Instruction>, DecodeError>(p@),
                Err(e) => spec_decode_program(bytes@) == Err::<Seq<Instruction>, DecodeError>(e),
            },
    {
        let mut out: Vec<Instruction> = Vec::new();
        let mut rest: &[u8] = bytes;
        while rest.len() > 0
            invariant
                spec_decode_program(bytes@) == prepend(out@, spec_decode_program(rest@)),
            decreases rest@.len(),
        {
            match Instruction::decode(rest) {
                Ok((i, n)) => {
                    let (_, tail) = rest.split_at(n);
                    proof {
                        assert(prepend(out@, prepend(seq![i], spec_decode_program(tail@))) == prepend(
                            out@.push(i),
                            spec_decode_program(tail@),
                        )) by {
                            match spec_decode_program(tail@) {
                                Ok(ys) => {
                                    assert(out@ + (seq![i] + ys) =~= out@.push(i) + ys);
                                },
                                Err(e) => {},
                            }
                        }
                    }
                    out.push(i);
                    rest = tail;
                },
                Err(e) => {
                    return Err(e);
                },
            }
        }
        assert(out@ + seq![] =~= out@);
        Ok(out)
    }
}

/// Whether `s` holds no comma.
pub open spec fn comma_free(s: Seq<char>) -> bool {
    forall|k: int| 0 <= k < s.len() ==> #[trigger] s[k] != ','
}

proof fn lemma_numeral_text(prefix: Seq<char>, n: nat)
    requires
        comma_free(prefix),
    ensures
        comma_free(prefix + decimal(n)),
{
    lemma_decimal_digits(n);
    let t = prefix + decimal(n);
    assert forall|k: int| 0 <= k < t.len() implies #[trigger] t[k] != ',' by {
        if k >= prefix.len() {
            assert(t[k] == decimal(n)[k - prefix.len()]);
        }
    }
}

proof fn lemma_slot_text_comma_free(x: Instruction, kind: u8, j: nat, ft: Seq<char>)
    requires
        comma_free(ft),
    ensures
        comma_free(x.slot_text(kind, j, ft)),
{
    if kind == REGISTER_KIND {
        let r = x.spec_registers()[j as int];
        assert(comma_free(register_text(r))) by {
            assert(comma_free(r.spec_name()));
        }
    } else if kind == IMMEDIATE_KIND {
        let i = x.spec_immediates()[j as int];
        match spec_style(x.spec_opcode()) {
            ImmediateStyle::Unsigned => lemma_numeral_text(seq!['0', 'u'], i@ as nat),
            ImmediateStyle::Signed => {
                lemma_numeral_text(seq!['0', 'i'], i@ as nat);
                lemma_numeral_text(seq!['0', 'i', '-'], (-signed_value(i@)) as nat);
            },
            ImmediateStyle::Float => {
                let t = seq!['0', 'f'] + ft;
                assert forall|k: int| 0 <= k < t.len() implies #[trigger] t[k] != ',' by {
                    if k >= 2 {
                        assert(t[k] == ft[k - 2]);
                    }
                }
            },
        }
    } else {
        lemma_numeral_text(seq!['0', 'u'], x.spec_addresses()[j as int]@ as nat);
    }
}

/// Texts without commas, joined with `, `, can be told apart: equal joins of
/// equally many texts come from equal texts.
proof fn lemma_join_injective(t: Seq<Seq<char>>, u: Seq<Seq<char>>)
    requires
        t.len() == u.len(),
        join_operands(t) == join_operands(u),
        forall|k: int| 0 <= k < t.len() ==> comma_free(#[trigger] t[k]),
        forall|k: int| 0 <= k < u.len() ==> comma_free(#[trigger] u[k]),
    ensures
        t == u,
    decreases t.len(),
{
    if t.len() == 0 {
        assert(t =~= u);
    } else if t.len() == 1 {
        assert(t =~= u);
    } else {
        let a = t.last();
        let b = u.last();
        let pa = join_operands(t.drop_last());
        let pb = join_operands(u.drop_last());
        let s = join_operands(t);
        assert(s == pa + seq![',', ' '] + a);
        assert(s == pb + seq![',', ' '] + b);
        assert(comma_free(a) && comma_free(b)) by {
            assert(comma_free(t[t.len() - 1]));
            assert(comma_free(u[u.len() - 1]));
        }
        let l = s.len();
        if a.len() < b.len() {
            let p = l - a.len() - 2;
            assert(s[p] == ',');
            if b.len() == a.len() + 1 {
                assert(s[p] == ' ');
            } else {
                assert(s[p] == b[p - (l - b.len())]);
            }
        } else if b.len() < a.len() {
            let p = l - b.len() - 2;
            assert(s[p] == ',');
            if a.len() == b.len() + 1 {
                assert(s[p] == ' ');
            } else {
                assert(s[p] == a[p - (l - a.len())]);
            }
        }
        assert(a =~= s.subrange(l - a.len(), l as int));
        assert(b =~= s.subrange(l - b.len(), l as int));
        assert(pa =~= s.subrange(0, l - a.len() - 2));
        assert(pb =~= s.subrange(0, l - b.len() - 2));
        lemma_join_injective(t.drop_last(), u.drop_last());
        assert(t =~= t.drop_last().push(a));
        assert(u =~= u.drop_last().push(b));
    }
}

proof fn lemma_operand_text_at(x: Instruction, order: Seq<u8>, ft: Seq<char>, k: int)
    requires
        0 <= k < order.len(),
    ensures
        x.operand_texts(order, ft)[k] == x.slot_text(
            order[k],
            count_kind(order.take(k), order[k]),
            ft,
        ),
    decreases order.len(),
{
    x.lemma_operand_texts_len(order.drop_last(), ft);
    if k < order.len() - 1 {
        lemma_operand_text_at(x, order.drop_last(), ft, k);
        assert(order.drop_last().take(k) =~= order.take(k));
    } else {
        assert(order.drop_last() =~= order.take(k));
    }
}

proof fn lemma_slot_covers(order: Seq<u8>, kind: u8, j: nat)
    requires
        j < count_kind(order, kind),
    ensures
        exists|k: int|
            0 <= k < order.len() && order[k] == kind && #[trigger] count_kind(order.take(k), kind)
                == j,
    decreases order.len(),
{
    let front = order.drop_last();
    if j < count_kind(front, kind) {
        lemma_slot_covers(front, kind, j);
        let k = choose|k: int|
            0 <= k < front.len() && front[k] == kind && #[trigger] count_kind(front.take(k), kind)
                == j;
        assert(front.take(k) =~= order.take(k));
    } else {
        assert(order.take(order.len() - 1) =~= front);
    }
}

proof fn lemma_immediate_text_injective(style: ImmediateStyle, a: Immediate, b: Immediate)
    requires
        style != ImmediateStyle::Float,
        immediate_text(style, a, seq![]) == immediate_text(style, b, seq![]),
    ensures
        a == b,
{
    let ta = immediate_text(style, a, seq![]);
    if style == ImmediateStyle::Unsigned {
        assert(decimal(a@ as nat) =~= ta.subrange(2, ta.len() as int));
        assert(decimal(b@ as nat) =~= ta.subrange(2, ta.len() as int));
        lemma_decimal_injective(a@ as nat, b@ as nat);
    } else {
        let na = signed_value(a@) >= 0;
        let nb = signed_value(b@) >= 0;
        lemma_decimal_digits(a@ as nat);
        lemma_decimal_digits(b@ as nat);
        if na && nb {
            assert(decimal(a@ as nat) =~= ta.subrange(2, ta.len() as int));
            assert(decimal(b@ as nat) =~= ta.subrange(2, ta.len() as int));
            lemma_decimal_injective(a@ as nat, b@ as nat);
        } else if !na && !nb {
            assert(decimal((-signed_value(a@)) as nat) =~= ta.subrange(3, ta.len() as int));
            assert(decimal((-signed_value(b@)) as nat) =~= ta.subrange(3, ta.len() as int));
            lemma_decimal_injective((-signed_value(a@)) as nat, (-signed_value(b@)) as nat);
        } else if na {
            assert(ta[2] == decimal(a@ as nat)[0]);
            assert(is_digit(ta[2]));
        } else {
            assert(ta[2] == decimal(b@ as nat)[0]);
            assert(is_digit(ta[2]));
        }
    }
    Immediate::lemma_view(a, a@);
    Immediate::lemma_view(b, b@);
}

proof fn lemma_slot_text_injective(x: Instruction, y: Instruction, kind: u8, j: nat, ft: Seq<char>)
    requires
        x.spec_opcode() == y.spec_opcode(),
        kind == IMMEDIATE_KIND ==> !x.spec_has_float(),
        x.slot_text(kind, j, ft) == y.slot_text(kind, j, ft),
        kind == REGISTER_KIND ==> j < x.spec_registers().len() && j < y.spec_registers().len(),
        kind == IMMEDIATE_KIND ==> j < x.spec_immediates().len() && j < y.spec_immediates().len(),
        kind != REGISTER_KIND && kind != IMMEDIATE_KIND ==> j < x.spec_addresses().len() && j
            < y.spec_addresses().len(),
    ensures
        kind == REGISTER_KIND ==> x.spec_registers()[j as int] == y.spec_registers()[j as int],
        kind == IMMEDIATE_KIND ==> x.spec_immediates()[j as int] == y.spec_immediates()[j as int],
        kind != REGISTER_KIND && kind != IMMEDIATE_KIND ==> x.spec_addresses()[j as int]
            == y.spec_addresses()[j as int],
{
    let t = x.slot_text(kind, j, ft);
    if kind == REGISTER_KIND {
        let (a, b) = (x.spec_registers()[j as int], y.spec_registers()[j as int]);
        assert(a.spec_name() =~= t.subrange(1, t.len() as int));
        assert(b.spec_name() =~= t.subrange(1, t.len() as int));
        a.lemma_name_injective(b);
    } else if kind == IMMEDIATE_KIND {
        lemma_immediate_text_injective(
            spec_style(x.spec_opcode()),
            x.spec_immediates()[j as int],
            y.spec_immediates()[j as int],
        );
    } else {
        let (a, b) = (x.spec_addresses()[j as int], y.spec_addresses()[j as int]);
        assert(decimal(a@ as nat) =~= t.subrange(2, t.len() as int));
        assert(decimal(b@ as nat) =~= t.subrange(2, t.len() as int));
        lemma_decimal_injective(a@ as nat, b@ as nat);
        Address::lemma_view(a, a@);
        Address::lemma_view(b, b@);
    }
}

impl Instruction {
    /// Assembly text tells instructions of one opcode apart: two instructions
    /// with the same opcode that render to the same text, with the same
    /// comma-free text for doubles, have the same registers and addresses, and
    /// are equal when their opcode reads no double. So distinct register,
    /// address or integer operands never give the same text.
    pub proof fn lemma_assembly_injective(x: Instruction, y: Instruction, ft: Seq<char>)
        requires
            x.spec_opcode() == y.spec_opcode(),
            comma_free(ft),
            x.spec_assembly(ft) == y.spec_assembly(ft),
        ensures
            x.spec_registers() == y.spec_registers(),
            x.spec_addresses() == y.spec_addresses(),
            !x.spec_has_float() ==> x == y,
    {
        let op = x.spec_opcode();
        x.lemma_parts();
        y.lemma_parts();
        Instruction::lemma_order_matches_counts(op);
        let order = spec_order(op).unwrap();
        let mn = spec_mnemonic(op).unwrap();
        let tx = x.operand_texts(order, ft);
        let ty = y.operand_texts(order, ft);
        x.lemma_operand_texts_len(order, ft);
        y.lemma_operand_texts_len(order, ft);
        let sx = operand_suffix(tx);
        let sy = operand_suffix(ty);
        assert(sx =~= x.spec_assembly(ft).subrange(mn.len() as int, x.spec_assembly(ft).len() as int));
        assert(sy =~= y.spec_assembly(ft).subrange(mn.len() as int, y.spec_assembly(ft).len() as int));
        if tx.len() > 0 {
            assert(join_operands(tx) =~= sx.subrange(1, sx.len() as int));
            assert(join_operands(ty) =~= sy.subrange(1, sy.len() as int));
            assert forall|k: int| 0 <= k < tx.len() implies comma_free(#[trigger] tx[k]) by {
                lemma_operand_text_at(x, order, ft, k);
                lemma_slot_text_comma_free(x, order[k], count_kind(order.take(k), order[k]), ft);
            }
            assert forall|k: int| 0 <= k < ty.len() implies comma_free(#[trigger] ty[k]) by {
                lemma_operand_text_at(y, order, ft, k);
                lemma_slot_text_comma_free(y, order[k], count_kind(order.take(k), order[k]), ft);
            }
            lemma_join_injective(tx, ty);
        }
        assert(tx =~= ty);
        assert forall|j: int| 0 <= j < x.spec_registers().len() implies #[trigger] x.spec_registers()[j]
            == y.spec_registers()[j] by {
            lemma_slot_covers(order, REGISTER_KIND, j as nat);
            let k = choose|k: int|
                0 <= k < order.len() && order[k] == REGISTER_KIND && #[trigger] count_kind(
                    order.take(k),
                    REGISTER_KIND,
                ) == j;
            lemma_operand_text_at(x, order, ft, k);
            lemma_operand_text_at(y, order, ft, k);
            lemma_slot_text_injective(x, y, REGISTER_KIND, j as nat, ft);
        }
        assert forall|j: int|
            !x.spec_has_float() && 0 <= j < x.spec_immediates().len() implies #[trigger] x.spec_immediates()[j]
            == y.spec_immediates()[j] by {
            lemma_slot_covers(order, IMMEDIATE_KIND, j as nat);
            let k = choose|k: int|
                0 <= k < order.len() && order[k] == IMMEDIATE_KIND && #[trigger] count_kind(
                    order.take(k),
                    IMMEDIATE_KIND,
                ) == j;
            lemma_operand_text_at(x, order, ft, k);
            lemma_operand_text_at(y, order, ft, k);
            lemma_slot_text_injective(x, y, IMMEDIATE_KIND, j as nat, ft);
        }
        assert forall|j: int| 0 <= j < x.spec_addresses().len() implies #[trigger] x.spec_addresses()[j]
            == y.spec_addresses()[j] by {
            lemma_slot_covers(order, ADDRESS_KIND, j as nat);
            let k = choose|k: int|
                0 <= k < order.len() && order[k] == ADDRESS_KIND && #[trigger] count_kind(
                    order.take(k),
                    ADDRESS_KIND,
                ) == j;
            lemma_operand_text_at(x, order, ft, k);
            lemma_operand_text_at(y, order, ft, k);
            lemma_slot_text_injective(x, y, ADDRESS_KIND, j as nat, ft);
        }
        assert(x.spec_registers() =~= y.spec_registers());
        assert(x.spec_addresses() =~= y.spec_addresses());
        if !x.spec_has_float() {
            assert(x.spec_immediates() =~= y.spec_immediates());
        }
    }
}

} // verus!
