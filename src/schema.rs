//! Checks on a table of opcode definitions, and the lookups derived from it:
//! operand counts, operand order and mnemonic lookup for every opcode.
use vstd::prelude::*;

use crate::config::{
    address_type_name, copies, fields_for, immediate_type_name, register_type_name,
    DefinitionView, Instruction,
};
use crate::codec::{
    decode_operands, encode_operands, lemma_operands_round_trip, operand_bytes, operand_len,
    read_operands, DecodeError,
};
use crate::instruction::{ADDRESS_KIND, IMMEDIATE_KIND, REGISTER_KIND};
use crate::instruction_arguments::{Address, Immediate, Register};

verus! {

/// Why a table of opcode definitions was refused; each names the offending row.
#[derive(Copy, Clone, PartialEq, Eq, Debug, Structural)]
pub enum SchemaError {
    /// The operand order is not as long as the operand list.
    OrderLength { row: usize },
    /// The operand order holds a symbol other than `r`, `i` or `a`.
    UnknownOrderSymbol { row: usize, symbol: char },
    /// The operand order holds some kind more or less often than the operand list.
    OrderCounts { row: usize },
    /// An earlier row has the same opcode code.
    DuplicateCode { row: usize, code: u8 },
    /// An earlier row has the same mnemonic.
    DuplicateMnemonic { row: usize },
}

/// The kind tag of an operand order symbol: `r` register, `i` immediate, `a` address.
pub open spec fn kind_of_symbol(c: char) -> Option<u8> {
    if c == 'r' {
        Some(REGISTER_KIND)
    } else if c == 'i' {
        Some(IMMEDIATE_KIND)
    } else if c == 'a' {
        Some(ADDRESS_KIND)
    } else {
        None
    }
}

/// How often `c` occurs in `order`.
pub open spec fn count_symbol(order: Seq<char>, c: char) -> nat
    decreases order.len(),
{
    if order.len() == 0 {
        0
    } else {
        count_symbol(order.drop_last(), c) + if order.last() == c {
            1nat
        } else {
            0nat
        }
    }
}

/// How often `name` occurs in `fields`.
pub open spec fn count_field(fields: Seq<Seq<char>>, name: Seq<char>) -> nat
    decreases fields.len(),
{
    if fields.len() == 0 {
        0
    } else {
        count_field(fields.drop_last(), name) + if fields.last() == name {
            1nat
        } else {
            0nat
        }
    }
}

/// Whether every symbol of `order` names an operand kind.
pub open spec fn symbols_known(order: Seq<char>) -> bool {
    forall|k: int| 0 <= k < order.len() ==> kind_of_symbol(#[trigger] order[k]).is_some()
}

/// Whether the operand order of `d` matches its operands: as long as the
/// operand list, and holding each kind as often as the list does.
pub open spec fn order_matches(d: DefinitionView) -> bool {
    &&& count_symbol(d.argument_order, 'r') == count_field(d.fields, register_type_name())
    &&& count_symbol(d.argument_order, 'i') == count_field(d.fields, immediate_type_name())
    &&& count_symbol(d.argument_order, 'a') == count_field(d.fields, address_type_name())
}

/// Whether one definition is well formed.
pub open spec fn definition_valid(d: DefinitionView) -> bool {
    &&& d.argument_order.len() == d.fields.len()
    &&& symbols_known(d.argument_order)
    &&& order_matches(d)
}

/// The definitions of a table, as plain values.
pub open spec fn views(defs: Seq<Instruction>) -> Seq<DefinitionView> {
    Seq::new(defs.len(), |i: int| defs[i]@)
}

/// Whether a table is valid: every row well formed, codes and mnemonics unique.
pub open spec fn schema_valid(defs: Seq<DefinitionView>) -> bool {
    &&& forall|i: int| 0 <= i < defs.len() ==> definition_valid(#[trigger] defs[i])
    &&& forall|i: int, j: int|
        0 <= j < i < defs.len() ==> #[trigger] defs[j].opcode_num != #[trigger] defs[i].opcode_num
    &&& forall|i: int, j: int|
        0 <= j < i < defs.len() ==> #[trigger] defs[j].short_name != #[trigger] defs[i].short_name
}

/// Whether `e` describes a fault of the table `defs`.
pub open spec fn describes(defs: Seq<DefinitionView>, e: SchemaError) -> bool {
    match e {
        SchemaError::OrderLength { row } => row < defs.len() && defs[row as int].argument_order.len()
            != defs[row as int].fields.len(),
        SchemaError::UnknownOrderSymbol { row, symbol } => row < defs.len()
            && defs[row as int].argument_order.contains(symbol) && kind_of_symbol(symbol).is_none(),
        SchemaError::OrderCounts { row } => row < defs.len() && !order_matches(defs[row as int]),
        SchemaError::DuplicateCode { row, code } => row < defs.len() && defs[row as int].opcode_num
            == code && exists|j: int| 0 <= j < row && #[trigger] defs[j].opcode_num == code,
        SchemaError::DuplicateMnemonic { row } => row < defs.len() && exists|j: int|
            0 <= j < row && #[trigger] defs[j].short_name == defs[row as int].short_name,
    }
}

/// Whether row `i` is the first row with code `op`.
pub open spec fn first_with_code(defs: Seq<DefinitionView>, op: u8, i: int) -> bool {
    &&& 0 <= i < defs.len()
    &&& defs[i].opcode_num == op
    &&& forall|j: int| 0 <= j < i ==> #[trigger] defs[j].opcode_num != op
}

/// Whether some row has code `op`.
pub open spec fn has_code(defs: Seq<DefinitionView>, op: u8) -> bool {
    exists|i: int| 0 <= i < defs.len() && #[trigger] defs[i].opcode_num == op
}

/// How often `name` occurs in `fields`.
fn count_names(fields: &Vec<String>, name: &str) -> (r: usize)
    ensures
        r == count_field(crate::config::string_views(fields@), name@),
{
    let mut n: usize = 0;
    let mut k: usize = 0;
    while k < fields.len()
        invariant
            k <= fields@.len(),
            n <= k,
            n == count_field(crate::config::string_views(fields@).take(k as int), name@),
        decreases fields.len() - k,
    {
        let ghost sv = crate::config::string_views(fields@);
        assert(sv.take(k + 1).drop_last() =~= sv.take(k as int));
        if fields[k] == String::from_str(name) {
            n = n + 1;
        }
        k = k + 1;
    }
    assert(crate::config::string_views(fields@).take(k as int) =~= crate::config::string_views(
        fields@,
    ));
    n
}

/// How often `c` occurs in `order`.
fn count_symbols(order: &Vec<char>, c: char) -> (r: usize)
    ensures
        r == count_symbol(order@, c),
{
    let mut n: usize = 0;
    let mut k: usize = 0;
    while k < order.len()
        invariant
            k <= order@.len(),
            n <= k,
            n == count_symbol(order@.take(k as int), c),
        decreases order.len() - k,
    {
        assert(order@.take(k + 1).drop_last() =~= order@.take(k as int));
        if order[k] == c {
            n = n + 1;
        }
        k = k + 1;
    }
    assert(order@.take(k as int) =~= order@);
    n
}

/// The first symbol of `order` that names no operand kind, if any.
fn unknown_symbol(order: &Vec<char>) -> (r: Option<char>)
    ensures
        r is None <==> symbols_known(order@),
        r matches Some(c) ==> order@.contains(c) && kind_of_symbol(c).is_none(),
{
    let mut k: usize = 0;
    while k < order.len()
        invariant
            k <= order@.len(),
            forall|j: int| 0 <= j < k ==> kind_of_symbol(#[trigger] order@[j]).is_some(),
        decreases order.len() - k,
    {
        let c = order[k];
        if c != 'r' && c != 'i' && c != 'a' {
            assert(order@[k as int] == c);
            assert(kind_of_symbol(order@[k as int]).is_none());
            return Some(c);
        }
        k = k + 1;
    }
    None
}

/// Checks a table of opcode definitions: each operand order as long as its
/// operand list, made of `r`, `i` and `a` only, holding each kind as often as
/// the list; no code and no mnemonic twice. The error names the offending row.
pub fn validate(defs: &Vec<Instruction>) -> (r: Result<(), SchemaError>)
    ensures
        r is Ok <==> schema_valid(views(defs@)),
        r matches Err(e) ==> describes(views(defs@), e),
{
    let ghost vs = views(defs@);
    let mut i: usize = 0;
    while i < defs.len()
        invariant
            i <= defs@.len(),
            vs == views(defs@),
            forall|a: int| 0 <= a < i ==> definition_valid(#[trigger] vs[a]),
            forall|a: int, b: int|
                0 <= b < a < i ==> #[trigger] vs[b].opcode_num != #[trigger] vs[a].opcode_num,
            forall|a: int, b: int|
                0 <= b < a < i ==> #[trigger] vs[b].short_name != #[trigger] vs[a].short_name,
        decreases defs.len() - i,
    {
        let d = &defs[i];
        assert(vs[i as int] == d@);
        if d.argument_order.len() != d.fields.len() {
            return Err(SchemaError::OrderLength { row: i });
        }
        match unknown_symbol(&d.argument_order) {
            Some(symbol) => {
                return Err(SchemaError::UnknownOrderSymbol { row: i, symbol });
            },
            None => {},
        }
        let cr = count_symbols(&d.argument_order, 'r');
        let ci = count_symbols(&d.argument_order, 'i');
        let ca = count_symbols(&d.argument_order, 'a');
        let (fi, fr, fa) = field_counts(&d.fields);
        if cr != fr || ci != fi || ca != fa {
            return Err(SchemaError::OrderCounts { row: i });
        }
        assert(order_matches(vs[i as int]));
        let mut j: usize = 0;
        while j < i
            invariant
                i < defs@.len(),
                j <= i,
                vs == views(defs@),
                d@ == vs[i as int],
                forall|b: int| 0 <= b < j ==> #[trigger] vs[b].opcode_num != vs[i as int].opcode_num,
                forall|b: int| 0 <= b < j ==> #[trigger] vs[b].short_name != vs[i as int].short_name,
            decreases i - j,
        {
            assert(vs[j as int] == defs@[j as int]@);
            if defs[j].opcode_num == d.opcode_num {
                assert(vs[j as int].opcode_num == vs[i as int].opcode_num);
                return Err(SchemaError::DuplicateCode { row: i, code: d.opcode_num });
            }
            if defs[j].short_name == d.short_name {
                assert(vs[j as int].short_name == vs[i as int].short_name);
                return Err(SchemaError::DuplicateMnemonic { row: i });
            }
            j = j + 1;
        }
        assert(definition_valid(vs[i as int]));
        i = i + 1;
    }
    Ok(())
}

/// The first row with code `opcode`, or `None` when no row has it.
fn find_code(defs: &Vec<Instruction>, opcode: u8) -> (r: Option<usize>)
    ensures
        match r {
            Some(i) => first_with_code(views(defs@), opcode, i as int),
            None => !has_code(views(defs@), opcode),
        },
{
    let ghost vs = views(defs@);
    let mut i: usize = 0;
    while i < defs.len()
        invariant
            i <= defs@.len(),
            vs == views(defs@),
            forall|j: int| 0 <= j < i ==> #[trigger] vs[j].opcode_num != opcode,
        decreases defs.len() - i,
    {
        assert(vs[i as int] == defs@[i as int]@);
        if defs[i].opcode_num == opcode {
            return Some(i);
        }
        i = i + 1;
    }
    None
}

/// How many of `fields` name each operand type: immediates, registers, addresses.
fn field_counts(fields: &Vec<String>) -> (r: (usize, usize, usize))
    ensures
        (r.0 as nat, r.1 as nat, r.2 as nat) == def_counts_of(crate::config::string_views(fields@)),
{
    proof {
        reveal_strlit("Register");
        reveal_strlit("Immediate");
        reveal_strlit("Address");
        assert("Register"@ =~= register_type_name());
        assert("Immediate"@ =~= immediate_type_name());
        assert("Address"@ =~= address_type_name());
    }
    (count_names(fields, "Immediate"), count_names(fields, "Register"), count_names(fields, "Address"))
}

/// The first row with code `opcode` and its operand counts (immediates,
/// registers, addresses), or `None` when no row has it.
fn lookup_counts(defs: &Vec<Instruction>, opcode: u8) -> (r: Option<(usize, usize, usize, usize)>)
    ensures
        match r {
            Some((i, ni, nr, na)) => first_with_code(views(defs@), opcode, i as int) && def_counts(
                views(defs@)[i as int],
            ) == (ni as nat, nr as nat, na as nat) && forall|j: int|
                first_with_code(views(defs@), opcode, j) ==> j == i,
            None => !has_code(views(defs@), opcode),
        },
{
    match find_code(defs, opcode) {
        Some(i) => {
            assert(views(defs@)[i as int] == defs@[i as int]@);
            let (ni, nr, na) = field_counts(&defs[i].fields);
            assert forall|j: int| first_with_code(views(defs@), opcode, j) implies j == i by {
                lemma_first_with_code_unique(views(defs@), opcode, i as int, j);
            }
            Some((i, ni, nr, na))
        },
        None => None,
    }
}

/// How many register operands the opcode `opcode` takes in the table, or
/// `None` when no row has that code.
pub fn register_count(defs: &Vec<Instruction>, opcode: u8) -> (r: Option<usize>)
    ensures
        r.is_some() <==> has_code(views(defs@), opcode),
        r matches Some(n) ==> exists|i: int|
            first_with_code(views(defs@), opcode, i) && n == count_field(
                #[trigger] views(defs@)[i].fields,
                register_type_name(),
            ),
{
    match lookup_counts(defs, opcode) {
        Some((i, ni, nr, na)) => Some(nr),
        None => None,
    }
}

/// How many address operands the opcode `opcode` takes in the table, or
/// `None` when no row has that code.
pub fn address_count(defs: &Vec<Instruction>, opcode: u8) -> (r: Option<usize>)
    ensures
        r.is_some() <==> has_code(views(defs@), opcode),
        r matches Some(n) ==> exists|i: int|
            first_with_code(views(defs@), opcode, i) && n == count_field(
                #[trigger] views(defs@)[i].fields,
                address_type_name(),
            ),
{
    match lookup_counts(defs, opcode) {
        Some((i, ni, nr, na)) => Some(na),
        None => None,
    }
}

/// How many immediate operands the opcode `opcode` takes in the table, or
/// `None` when no row has that code.
pub fn immediate_count(defs: &Vec<Instruction>, opcode: u8) -> (r: Option<usize>)
    ensures
        r.is_some() <==> has_code(views(defs@), opcode),
        r matches Some(n) ==> exists|i: int|
            first_with_code(views(defs@), opcode, i) && n == count_field(
                #[trigger] views(defs@)[i].fields,
                immediate_type_name(),
            ),
{
    match lookup_counts(defs, opcode) {
        Some((i, ni, nr, na)) => Some(ni),
        None => None,
    }
}

/// The kind tag of slot `index` in the declared operand order of `opcode`;
/// `None` when no row has that code, the index is past the last slot, or the
/// slot's symbol names no kind.
pub fn get_type_for_index(defs: &Vec<Instruction>, opcode: u8, index: usize) -> (r: Option<u8>)
    ensures
        !has_code(views(defs@), opcode) ==> r is None,
        has_code(views(defs@), opcode) ==> exists|i: int|
            first_with_code(views(defs@), opcode, i) && r == (if index < (
            #[trigger] views(defs@)[i]).argument_order.len() {
                kind_of_symbol(views(defs@)[i].argument_order[index as int])
            } else {
                None
            }),
{
    match find_code(defs, opcode) {
        Some(i) => {
            assert(views(defs@)[i as int] == defs@[i as int]@);
            let order = &defs[i].argument_order;
            if index < order.len() {
                let c = order[index];
                if c == 'r' {
                    Some(REGISTER_KIND)
                } else if c == 'i' {
                    Some(IMMEDIATE_KIND)
                } else if c == 'a' {
                    Some(ADDRESS_KIND)
                } else {
                    None
                }
            } else {
                None
            }
        },
        None => None,
    }
}

/// The code of the first row whose mnemonic is exactly `name`, or `None`.
pub fn from_string(defs: &Vec<Instruction>, name: &str) -> (r: Option<u8>)
    ensures
        r is None <==> forall|i: int|
            0 <= i < defs@.len() ==> (#[trigger] views(defs@)[i]).short_name != name@,
        r matches Some(op) ==> exists|i: int|
            0 <= i < defs@.len() && (#[trigger] views(defs@)[i]).short_name == name@
                && views(defs@)[i].opcode_num == op && forall|j: int|
                0 <= j < i ==> views(defs@)[j].short_name != name@,
{
    let ghost vs = views(defs@);
    let target = String::from_str(name);
    let mut i: usize = 0;
    while i < defs.len()
        invariant
            i <= defs@.len(),
            vs == views(defs@),
            target@ == name@,
            forall|j: int| 0 <= j < i ==> (#[trigger] vs[j]).short_name != name@,
        decreases defs.len() - i,
    {
        assert(vs[i as int] == defs@[i as int]@);
        if defs[i].short_name == target {
            return Some(defs[i].opcode_num);
        }
        i = i + 1;
    }
    None
}

/// How many immediates, registers and addresses a definition declares: the
/// number of its fields of each operand type.
pub open spec fn def_counts(d: DefinitionView) -> (nat, nat, nat) {
    def_counts_of(d.fields)
}

/// How many of `fields` name each operand type: immediates, registers, addresses.
pub open spec fn def_counts_of(fields: Seq<Seq<char>>) -> (nat, nat, nat) {
    (
        count_field(fields, immediate_type_name()),
        count_field(fields, register_type_name()),
        count_field(fields, address_type_name()),
    )
}

/// An instruction of any table: its opcode and its operands of each kind, in order.
pub struct Operands {
    pub opcode: u8,
    pub immediates: Vec<Immediate>,
    pub addresses: Vec<Address>,
    pub registers: Vec<Register>,
}

/// Only one row is the first with a code.
pub proof fn lemma_first_with_code_unique(defs: Seq<DefinitionView>, op: u8, i: int, j: int)
    requires
        first_with_code(defs, op, i),
        first_with_code(defs, op, j),
    ensures
        i == j,
{
}

/// The encoding of an instruction of the table: `None` when no row has the
/// opcode or an operand count differs from the first such row's; else the
/// opcode byte, the immediates and addresses as eight little-endian bytes
/// each, then the registers packed two to a byte.
pub fn encode(
    defs: &Vec<Instruction>,
    opcode: u8,
    registers: &[Register],
    addresses: &[Address],
    immediates: &[Immediate],
) -> (r: Option<Vec<u8>>)
    ensures
        r.is_some() <==> fits(
            views(defs@),
            opcode,
            immediates@.len(),
            registers@.len(),
            addresses@.len(),
        ),
        r matches Some(b) ==> b@ == seq![opcode] + operand_bytes(
            immediates@,
            addresses@,
            registers@,
        ),
{
    let (i, ni, nr, na) = match lookup_counts(defs, opcode) {
        Some(found) => found,
        None => return None,
    };
    if immediates.len() != ni || registers.len() != nr || addresses.len() != na {
        return None;
    }
    let mut out: Vec<u8> = Vec::new();
    out.push(opcode);
    encode_operands(&mut out, immediates, addresses, registers);
    Some(out)
}

/// Decodes the instruction at the start of `bytes` with the table, with the
/// number of bytes it takes: the operand counts are those of the first row
/// with the opcode byte. Fails with `UnknownOpcode` when no row has it, and
/// with `Truncated` when the input is empty or too short.
pub fn decode(defs: &Vec<Instruction>, bytes: &[u8]) -> (r: Result<(Operands, usize), DecodeError>)
    ensures
        bytes@.len() == 0 ==> r == Err::<(Operands, usize), DecodeError>(DecodeError::Truncated),
        bytes@.len() > 0 && !has_code(views(defs@), bytes@[0]) ==> r == Err::<
            (Operands, usize),
            DecodeError,
        >(DecodeError::UnknownOpcode(bytes@[0])),
        bytes@.len() > 0 ==> forall|i: int|
            first_with_code(views(defs@), bytes@[0], i) ==> {
                let (ni, nr, na) = #[trigger] def_counts(views(defs@)[i]);
                let n = 1 + operand_len(ni, na, nr);
                &&& n > bytes@.len() ==> r == Err::<(Operands, usize), DecodeError>(
                    DecodeError::Truncated,
                )
                &&& n <= bytes@.len() ==> (r matches Ok((ops, m)) && m == n && ops.opcode
                    == bytes@[0] && (ops.immediates@, ops.addresses@, ops.registers@)
                    == read_operands(bytes@, 1, ni, na, nr))
            },
{
    if bytes.len() == 0 {
        return Err(DecodeError::Truncated);
    }
    let opcode = bytes[0];
    let (i, ni, nr, na) = match lookup_counts(defs, opcode) {
        Some(found) => found,
        None => return Err(DecodeError::UnknownOpcode(opcode)),
    };
    match decode_operands(bytes, 1, ni, na, nr) {
        Ok((immediates, addresses, registers)) => {
            let n = 1 + 8 * ni + 8 * na + (nr / 2 + nr % 2);
            Ok((Operands { opcode, immediates, addresses, registers }, n))
        },
        Err(e) => Err(e),
    }
}

/// Whether operands of the given numbers fit the first row with code `op`:
/// some row has the code, and its counts are those numbers.
pub open spec fn fits(defs: Seq<DefinitionView>, op: u8, imms: nat, regs: nat, addrs: nat) -> bool {
    exists|i: int| first_with_code(defs, op, i) && #[trigger] def_counts(defs[i]) == (imms, regs, addrs)
}

fn copy_all<T: Copy>(v: &[T]) -> (r: Vec<T>)
    ensures
        r@ == v@,
{
    let mut r: Vec<T> = Vec::new();
    let mut k: usize = 0;
    while k < v.len()
        invariant
            k <= v@.len(),
            r@ == v@.take(k as int),
        decreases v.len() - k,
    {
        r.push(v[k]);
        k = k + 1;
        assert(r@ =~= v@.take(k as int));
    }
    assert(v@.take(k as int) =~= v@);
    r
}

/// Builds the instruction of `opcode` from its operands of each kind, in
/// order; `None` exactly when no row has the code or an operand count differs
/// from the first such row's.
pub fn build(
    defs: &Vec<Instruction>,
    opcode: u8,
    registers: &[Register],
    addresses: &[Address],
    immediates: &[Immediate],
) -> (r: Option<Operands>)
    ensures
        r.is_some() <==> fits(
            views(defs@),
            opcode,
            immediates@.len(),
            registers@.len(),
            addresses@.len(),
        ),
        r matches Some(ops) ==> ops.opcode == opcode && ops.immediates@ == immediates@
            && ops.addresses@ == addresses@ && ops.registers@ == registers@,
{
    let (i, ni, nr, na) = match lookup_counts(defs, opcode) {
        Some(found) => found,
        None => return None,
    };
    if immediates.len() != ni || registers.len() != nr || addresses.len() != na {
        return None;
    }
    Some(
        Operands {
            opcode,
            immediates: copy_all(immediates),
            addresses: copy_all(addresses),
            registers: copy_all(registers),
        },
    )
}

/// For any table: operands that fit the first row with their opcode, once
/// encoded with the opcode byte in front and whatever bytes follow, decode
/// with that row's counts back to the same operands, taking exactly the
/// encoding's length.
pub proof fn lemma_table_round_trip(
    defs: Seq<DefinitionView>,
    op: u8,
    regs: Seq<Register>,
    addrs: Seq<Address>,
    imms: Seq<Immediate>,
    rest: Seq<u8>,
)
    requires
        fits(defs, op, imms.len(), regs.len(), addrs.len()),
    ensures
        forall|i: int|
            first_with_code(defs, op, i) ==> {
                let (ni, nr, na) = #[trigger] def_counts(defs[i]);
                let bytes = seq![op] + operand_bytes(imms, addrs, regs) + rest;
                &&& 1 + operand_len(ni, na, nr) == (seq![op] + operand_bytes(imms, addrs, regs)).len()
                &&& 1 + operand_len(ni, na, nr) <= bytes.len()
                &&& bytes[0] == op
                &&& read_operands(bytes, 1, ni, na, nr) == (imms, addrs, regs)
            },
{
    let w = choose|i: int| first_with_code(defs, op, i) && #[trigger] def_counts(defs[i]) == (
        imms.len(),
        regs.len(),
        addrs.len(),
    );
    assert forall|i: int| first_with_code(defs, op, i) implies {
        let (ni, nr, na) = #[trigger] def_counts(defs[i]);
        let bytes = seq![op] + operand_bytes(imms, addrs, regs) + rest;
        &&& 1 + operand_len(ni, na, nr) == (seq![op] + operand_bytes(imms, addrs, regs)).len()
        &&& 1 + operand_len(ni, na, nr) <= bytes.len()
        &&& bytes[0] == op
        &&& read_operands(bytes, 1, ni, na, nr) == (imms, addrs, regs)
    } by {
        lemma_first_with_code_unique(defs, op, i, w);
        lemma_operands_round_trip(imms, addrs, regs, seq![op], rest);
    }
}

proof fn lemma_count_field_concat(x: Seq<Seq<char>>, y: Seq<Seq<char>>, name: Seq<char>)
    ensures
        count_field(x + y, name) == count_field(x, name) + count_field(y, name),
    decreases y.len(),
{
    if y.len() == 0 {
        assert(x + y =~= x);
    } else {
        assert((x + y).drop_last() =~= x + y.drop_last());
        lemma_count_field_concat(x, y.drop_last(), name);
    }
}

proof fn lemma_count_field_copies(s: Seq<char>, k: nat, name: Seq<char>)
    ensures
        count_field(copies(s, k), name) == if s == name {
            k
        } else {
            0
        },
        copies(s, k).len() == k,
    decreases k,
{
    if k > 0 {
        lemma_count_field_copies(s, (k - 1) as nat, name);
        assert(copies(s, k).drop_last() =~= copies(s, (k - 1) as nat));
    }
}

proof fn lemma_symbols_total(order: Seq<char>)
    requires
        symbols_known(order),
    ensures
        order.len() == count_symbol(order, 'r') + count_symbol(order, 'i') + count_symbol(
            order,
            'a',
        ),
    decreases order.len(),
{
    if order.len() > 0 {
        let front = order.drop_last();
        assert(symbols_known(front)) by {
            assert forall|k: int| 0 <= k < front.len() implies kind_of_symbol(
                #[trigger] front[k],
            ).is_some() by {
                assert(front[k] == order[k]);
            }
        }
        assert(kind_of_symbol(order[order.len() - 1]).is_some());
        lemma_symbols_total(front);
    }
}

/// A definition made from a table row (fields from the row's counts, order
/// from the row) is well formed when the row's order is made of `r`, `i` and
/// `a` only, each as often as the row's count of that kind.
pub proof fn lemma_row_definition_valid(d: DefinitionView, imms: nat, regs: nat, addrs: nat)
    requires
        d.fields == fields_for(imms, regs, addrs),
        symbols_known(d.argument_order),
        count_symbol(d.argument_order, 'i') == imms,
        count_symbol(d.argument_order, 'r') == regs,
        count_symbol(d.argument_order, 'a') == addrs,
    ensures
        definition_valid(d),
        def_counts(d) == (imms, regs, addrs),
        d.argument_order.len() == imms + regs + addrs,
{
    let i = immediate_type_name();
    let r = register_type_name();
    let a = address_type_name();
    assert(i.len() == 9 && r.len() == 8 && a.len() == 7);
    assert(i != r && i != a && r != a);
    let ci = copies(i, imms);
    let cr = copies(r, regs);
    let ca = copies(a, addrs);
    assert(d.fields == ci + cr + ca);
    lemma_count_field_copies(i, imms, i);
    lemma_count_field_copies(i, imms, r);
    lemma_count_field_copies(i, imms, a);
    lemma_count_field_copies(r, regs, i);
    lemma_count_field_copies(r, regs, r);
    lemma_count_field_copies(r, regs, a);
    lemma_count_field_copies(a, addrs, i);
    lemma_count_field_copies(a, addrs, r);
    lemma_count_field_copies(a, addrs, a);
    lemma_count_field_concat(ci, cr, i);
    lemma_count_field_concat(ci, cr, r);
    lemma_count_field_concat(ci, cr, a);
    lemma_count_field_concat(ci + cr, ca, i);
    lemma_count_field_concat(ci + cr, ca, r);
    lemma_count_field_concat(ci + cr, ca, a);
    lemma_symbols_total(d.argument_order);
}

} // verus!
