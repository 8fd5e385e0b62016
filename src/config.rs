//! Rows of the opcode table and the opcode definitions made from them.
use vstd::prelude::*;

verus! {

/// The name of the immediate operand type, as it stands in a definition's fields.
pub open spec fn immediate_type_name() -> Seq<char> {
    seq!['I', 'm', 'm', 'e', 'd', 'i', 'a', 't', 'e']
}

/// The name of the register operand type, as it stands in a definition's fields.
pub open spec fn register_type_name() -> Seq<char> {
    seq!['R', 'e', 'g', 'i', 's', 't', 'e', 'r']
}

/// The name of the address operand type, as it stands in a definition's fields.
pub open spec fn address_type_name() -> Seq<char> {
    seq!['A', 'd', 'd', 'r', 'e', 's', 's']
}

/// The text that `char::to_uppercase` gives for `c`.
pub uninterp spec fn upper_of(c: char) -> Seq<char>;

/// Relies on `char::to_uppercase`: the uppercase form of one character,
/// which may be several characters long and depends on the character alone.
#[verifier::external_body]
fn uppercase_char(c: char) -> (r: String)
    ensures
        r@ == upper_of(c),
{
    c.to_uppercase().collect::<String>()
}

/// One row of the opcode table, as it is read.
pub struct Row {
    pub binary: String,
    pub decimal: u8,
    pub hex: String,
    pub opcode: String,
    pub description: String,
    pub immediates: u8,
    pub registers: u8,
    pub addresses: u8,
    pub order: String,
}

/// The definition of one opcode: its mnemonic, the type names of its operands
/// (immediates, then registers, then addresses), the name of its instruction
/// variant, its code and the declared order of its operand kinds (`r`, `i`, `a`).
pub struct Instruction {
    pub short_name: String,
    pub fields: Vec<String>,
    pub name: String,
    pub opcode_num: u8,
    pub argument_order: Vec<char>,
}

/// What an opcode definition holds, as plain values.
pub struct DefinitionView {
    pub short_name: Seq<char>,
    pub fields: Seq<Seq<char>>,
    pub name: Seq<char>,
    pub opcode_num: u8,
    pub argument_order: Seq<char>,
}

impl View for Instruction {
    type V = DefinitionView;

    open spec fn view(&self) -> DefinitionView {
        DefinitionView {
            short_name: self.short_name@,
            fields: string_views(self.fields@),
            name: self.name@,
            opcode_num: self.opcode_num,
            argument_order: self.argument_order@,
        }
    }
}

/// The characters of each string.
pub open spec fn string_views(v: Seq<String>) -> Seq<Seq<char>> {
    Seq::new(v.len(), |i: int| v[i]@)
}

/// The characters of each string slice.
pub open spec fn str_views(v: Seq<&str>) -> Seq<Seq<char>> {
    Seq::new(v.len(), |i: int| v[i]@)
}

/// `n` copies of `s`.
pub open spec fn copies(s: Seq<char>, n: nat) -> Seq<Seq<char>>
    decreases n,
{
    if n == 0 {
        seq![]
    } else {
        copies(s, (n - 1) as nat).push(s)
    }
}

/// The field type names for the given operand counts: immediates, registers, addresses.
pub open spec fn fields_for(imms: nat, regs: nat, addrs: nat) -> Seq<Seq<char>> {
    copies(immediate_type_name(), imms) + copies(register_type_name(), regs) + copies(
        address_type_name(),
        addrs,
    )
}

/// The variant name made from a mnemonic: its first character in upper case,
/// then the rest unchanged; empty for an empty mnemonic.
pub open spec fn variant_name(m: Seq<char>) -> Seq<char> {
    if m.len() == 0 {
        seq![]
    } else {
        upper_of(m[0]) + m.subrange(1, m.len() as int)
    }
}

impl Instruction {
    /// Creates a definition from its parts.
    pub fn new(
        short_name: String,
        fields: Vec<&str>,
        name: String,
        opcode_num: u8,
        argument_order: &str,
    ) -> (r: Self)
        ensures
            r@.short_name == short_name@,
            r@.fields == str_views(fields@),
            r@.name == name@,
            r@.opcode_num == opcode_num,
            r@.argument_order == argument_order@,
    {
        let mut owned: Vec<String> = Vec::new();
        let mut i: usize = 0;
        while i < fields.len()
            invariant
                i <= fields@.len(),
                owned@.len() == i,
                string_views(owned@) == str_views(fields@.take(i as int)),
            decreases fields.len() - i,
        {
            let ghost prev = owned@;
            owned.push(String::from_str(fields[i]));
            assert(string_views(owned@) =~= string_views(prev).push(fields@[i as int]@));
            assert(fields@.take(i + 1) =~= fields@.take(i as int).push(fields@[i as int]));
            assert(str_views(fields@.take(i + 1)) =~= str_views(fields@.take(i as int)).push(fields@[i as int]@));
            i = i + 1;
            assert(string_views(owned@) =~= str_views(fields@.take(i as int)));
        }
        assert(fields@.take(fields@.len() as int) =~= fields@);
        let mut order: Vec<char> = Vec::new();
        let n = argument_order.unicode_len();
        let mut j: usize = 0;
        while j < n
            invariant
                j <= n,
                n == argument_order@.len(),
                order@ == argument_order@.take(j as int),
            decreases n - j,
        {
            order.push(argument_order.get_char(j));
            j = j + 1;
            assert(order@ =~= argument_order@.take(j as int));
        }
        assert(argument_order@.take(n as int) =~= argument_order@);
        Self { short_name, fields: owned, name, opcode_num, argument_order: order }
    }

    /// The definition made from a table row: the mnemonic and code as given,
    /// the variant name from the mnemonic, one field per declared operand
    /// (immediates, then registers, then addresses) and the declared order.
    pub fn from_row(row: Row) -> (r: Self)
        ensures
            r@.short_name == row.opcode@,
            r@.name == variant_name(row.opcode@),
            r@.opcode_num == row.decimal,
            r@.fields == fields_for(row.immediates as nat, row.registers as nat, row.addresses as nat),
            r@.argument_order == row.order@,
    {
        let mut fields: Vec<&str> = Vec::new();
        let mut k: u8 = 0;
        proof {
            reveal_strlit("Immediate");
            reveal_strlit("Register");
            reveal_strlit("Address");
            assert("Immediate"@ =~= immediate_type_name());
            assert("Register"@ =~= register_type_name());
            assert("Address"@ =~= address_type_name());
        }
        while k < row.immediates
            invariant
                k <= row.immediates,
                fields@.len() == k,
                "Immediate"@ == immediate_type_name(),
                str_views(fields@) == copies(immediate_type_name(), k as nat),
            decreases row.immediates - k,
        {
            let ghost prev = fields@;
            fields.push("Immediate");
            assert(str_views(fields@) =~= str_views(prev).push(immediate_type_name()));
            k = k + 1;
            assert(str_views(fields@) =~= copies(immediate_type_name(), k as nat));
        }
        let ghost after_imms = str_views(fields@);
        k = 0;
        while k < row.registers
            invariant
                k <= row.registers,
                fields@.len() == row.immediates + k,
                after_imms.len() == row.immediates,
                "Register"@ == register_type_name(),
                str_views(fields@) == after_imms + copies(register_type_name(), k as nat),
            decreases row.registers - k,
        {
            let ghost prev = fields@;
            fields.push("Register");
            assert(str_views(fields@) =~= str_views(prev).push(register_type_name()));
            k = k + 1;
            assert(str_views(fields@) =~= after_imms + copies(
                register_type_name(),
                k as nat,
            ));
        }
        let ghost after_regs = str_views(fields@);
        k = 0;
        while k < row.addresses
            invariant
                k <= row.addresses,
                fields@.len() == row.immediates + row.registers + k,
                after_regs.len() == row.immediates + row.registers,
                "Address"@ == address_type_name(),
                str_views(fields@) == after_regs + copies(address_type_name(), k as nat),
            decreases row.addresses - k,
        {
            let ghost prev = fields@;
            fields.push("Address");
            assert(str_views(fields@) =~= str_views(prev).push(address_type_name()));
            k = k + 1;
            assert(str_views(fields@) =~= after_regs + copies(
                address_type_name(),
                k as nat,
            ));
        }
        assert(str_views(fields@) =~= fields_for(
            row.immediates as nat,
            row.registers as nat,
            row.addresses as nat,
        ));
        let n = row.opcode.as_str().unicode_len();
        let name = if n == 0 {
            String::new()
        } else {
            let first = row.opcode.as_str().get_char(0);
            let mut upper = uppercase_char(first);
            upper.append(row.opcode.as_str().substring_char(1, n));
            upper
        };
        proof {
            if n == 0 {
                assert(name@ =~= variant_name(row.opcode@));
            }
        }
        Self::new(row.opcode, fields, name, row.decimal, row.order.as_str())
    }
}

} // verus!
