//! Writes source text for a table of opcode definitions: the execution trait
//! (a dispatcher with one match arm per opcode, then one method declaration
//! per opcode, each taking that opcode's operands), and the instruction enum
//! (one variant per opcode, then a match giving each variant's mnemonic).
use vstd::prelude::*;

use crate::config::{
    address_type_name, immediate_type_name, register_type_name, string_views, DefinitionView,
    Instruction,
};
use crate::instruction::join_operands;
use crate::schema::{count_field, views};
use crate::text::{decimal, push_decimal};

verus! {

/// The text before the first match arm.
pub open spec fn execute_header() -> Seq<char> {
    "use crate::instruction::Instruction;\nuse crate::instruction_arguments::{Address, Immediate, Register};\n\n/// An engine that can execute every instruction of the set.\npub trait ExecuteInstruction {\n\ttype Output;\n\n\tfn execute_instruction(&mut self, instruction: Instruction) -> Self::Output {\n\t\treturn match instruction {\n"@
}

/// The text between the match arms and the method declarations.
pub open spec fn execute_middle() -> Seq<char> {
    "\t\t};\n\t}\n\n"@
}

/// The text after the method declarations.
pub open spec fn execute_tail() -> Seq<char> {
    "}\n\n"@
}

/// The parameter letter of an operand type name, if it names one.
pub open spec fn kind_letter(field: Seq<char>) -> Option<char> {
    if field == register_type_name() {
        Some('r')
    } else if field == immediate_type_name() {
        Some('i')
    } else if field == address_type_name() {
        Some('a')
    } else {
        None
    }
}

/// The number after a parameter letter: none for the first of its kind,
/// then 1, 2, and so on.
pub open spec fn index_suffix(n: nat) -> Seq<char> {
    if n == 0 {
        seq![]
    } else {
        decimal(n)
    }
}

/// The parameter names of an opcode's operands: `r`, `r1`, `i`, `a`, ...,
/// numbered per kind; fields that name no operand type get none.
pub open spec fn param_names(fields: Seq<Seq<char>>) -> Seq<Seq<char>>
    decreases fields.len(),
{
    if fields.len() == 0 {
        seq![]
    } else {
        let front = fields.drop_last();
        let f = fields.last();
        match kind_letter(f) {
            Some(c) => param_names(front).push(seq![c] + index_suffix(count_field(front, f))),
            None => param_names(front),
        }
    }
}

/// The parameters with their types: `r: Register`, `i1: Immediate`, ...
pub open spec fn typed_params(fields: Seq<Seq<char>>) -> Seq<Seq<char>>
    decreases fields.len(),
{
    if fields.len() == 0 {
        seq![]
    } else {
        let front = fields.drop_last();
        let f = fields.last();
        match kind_letter(f) {
            Some(c) => typed_params(front).push(
                seq![c] + index_suffix(count_field(front, f)) + ": "@ + f,
            ),
            None => typed_params(front),
        }
    }
}

/// The match arm that routes the opcode's variant to its method.
pub open spec fn match_arm(d: DefinitionView) -> Seq<char> {
    let names = join_operands(param_names(d.fields));
    if names.len() > 0 {
        "\t\t\tInstruction::"@ + d.name + "("@ + names + ") => self.execute_"@ + d.short_name + "("@
            + names + "),\n"@
    } else {
        "\t\t\tInstruction::"@ + d.name + " => self.execute_"@ + d.short_name + "(),\n"@
    }
}

/// The declaration of the opcode's method.
pub open spec fn method_decl(d: DefinitionView) -> Seq<char> {
    let params = join_operands(typed_params(d.fields));
    "\tfn execute_"@ + d.short_name + "(&mut self"@ + (if params.len() > 0 {
        ", "@ + params
    } else {
        seq![]
    }) + ") -> Self::Output;\n\n"@
}

/// The match arms of the first definitions, in order.
pub open spec fn match_arms(defs: Seq<DefinitionView>) -> Seq<char>
    decreases defs.len(),
{
    if defs.len() == 0 {
        seq![]
    } else {
        match_arms(defs.drop_last()) + match_arm(defs.last())
    }
}

/// The method declarations of the definitions, in order.
pub open spec fn method_decls(defs: Seq<DefinitionView>) -> Seq<char>
    decreases defs.len(),
{
    if defs.len() == 0 {
        seq![]
    } else {
        method_decls(defs.drop_last()) + method_decl(defs.last())
    }
}

/// The whole text of the execution trait for a table.
pub open spec fn execute_trait_text(defs: Seq<DefinitionView>) -> Seq<char> {
    execute_header() + match_arms(defs) + execute_middle() + method_decls(defs) + execute_tail()
}

proof fn lemma_join_push(texts: Seq<Seq<char>>, x: Seq<char>)
    ensures
        join_operands(texts.push(x)) == if texts.len() == 0 {
            x
        } else {
            join_operands(texts) + ", "@ + x
        },
{
    reveal_strlit(", ");
    assert(", "@ =~= seq![',', ' ']);
    assert(texts.push(x).drop_last() =~= texts);
}

/// Whether `field` names an operand type, and which.
fn kind_of_field(field: &String) -> (r: Option<char>)
    ensures
        r == kind_letter(field@),
{
    proof {
        reveal_strlit("Register");
        reveal_strlit("Immediate");
        reveal_strlit("Address");
        assert("Register"@ =~= register_type_name());
        assert("Immediate"@ =~= immediate_type_name());
        assert("Address"@ =~= address_type_name());
    }
    if *field == String::from_str("Register") {
        Some('r')
    } else if *field == String::from_str("Immediate") {
        Some('i')
    } else if *field == String::from_str("Address") {
        Some('a')
    } else {
        None
    }
}

fn letter_str(c: char) -> (r: &'static str)
    requires
        c == 'r' || c == 'i' || c == 'a',
    ensures
        r@ == seq![c],
{
    proof {
        reveal_strlit("r");
        reveal_strlit("i");
        reveal_strlit("a");
    }
    if c == 'r' {
        "r"
    } else if c == 'i' {
        "i"
    } else {
        "a"
    }
}

/// The joined parameter names and the joined typed parameters of `fields`.
fn parameter_lists(fields: &Vec<String>) -> (r: (String, String))
    ensures
        r.0@ == join_operands(param_names(string_views(fields@))),
        r.1@ == join_operands(typed_params(string_views(fields@))),
{
    let ghost fs = string_views(fields@);
    let mut names = String::new();
    let mut typed = String::new();
    let mut any = false;
    let mut nr: u64 = 0;
    let mut ni: u64 = 0;
    let mut na: u64 = 0;
    let mut k: usize = 0;
    proof {
        reveal_strlit("Register");
        reveal_strlit("Immediate");
        reveal_strlit("Address");
        reveal_strlit(", ");
        reveal_strlit(": ");
        reveal_strlit("");
        assert("Register"@ =~= register_type_name());
        assert("Immediate"@ =~= immediate_type_name());
        assert("Address"@ =~= address_type_name());
        assert(fs.take(0) =~= seq![]);
        assert(""@ =~= Seq::<char>::empty());
    }
    while k < fields.len()
        invariant
            k <= fields@.len(),
            fs == string_views(fields@),
            "Register"@ == register_type_name(),
            "Immediate"@ == immediate_type_name(),
            "Address"@ == address_type_name(),
            nr == count_field(fs.take(k as int), register_type_name()),
            ni == count_field(fs.take(k as int), immediate_type_name()),
            na == count_field(fs.take(k as int), address_type_name()),
            nr <= k,
            ni <= k,
            na <= k,
            any == (param_names(fs.take(k as int)).len() > 0),
            any == (typed_params(fs.take(k as int)).len() > 0),
            names@ == join_operands(param_names(fs.take(k as int))),
            typed@ == join_operands(typed_params(fs.take(k as int))),
        decreases fields.len() - k,
    {
        let ghost front = fs.take(k as int);
        let ghost f = fields@[k as int]@;
        assert(fs.take(k + 1).drop_last() =~= front);
        assert(fs.take(k + 1).last() == f);
        match kind_of_field(&fields[k]) {
            Some(c) => {
                let n = if c == 'r' {
                    nr
                } else if c == 'i' {
                    ni
                } else {
                    na
                };
                let kind_name = if c == 'r' {
                    "Register"
                } else if c == 'i' {
                    "Immediate"
                } else {
                    "Address"
                };
                assert(kind_name@ == f);
                assert(n == count_field(front, f));
                let mut name = String::from_str(letter_str(c));
                if n > 0 {
                    push_decimal(&mut name, n);
                }
                assert(name@ == seq![c] + index_suffix(count_field(front, f))) by {
                    if n == 0 {
                        assert(name@ =~= seq![c] + index_suffix(0));
                    }
                }
                let ghost entry = name@ + ": "@ + f;
                proof {
                    lemma_join_push(param_names(front), name@);
                    lemma_join_push(typed_params(front), entry);
                    assert(param_names(fs.take(k + 1)) == param_names(front).push(name@));
                    assert(typed_params(fs.take(k + 1)) == typed_params(front).push(entry));
                }
                if any {
                    names.append(", ");
                    typed.append(", ");
                }
                names.append(name.as_str());
                typed.append(name.as_str());
                typed.append(": ");
                typed.append(kind_name);
                any = true;
                proof {
                    assert(typed@ =~= join_operands(typed_params(fs.take(k + 1))));
                    assert(names@ =~= join_operands(param_names(fs.take(k + 1))));
                }
                if c == 'r' {
                    nr = nr + 1;
                } else if c == 'i' {
                    ni = ni + 1;
                } else {
                    na = na + 1;
                }
            },
            None => {
                assert(param_names(fs.take(k + 1)) == param_names(front));
                assert(typed_params(fs.take(k + 1)) == typed_params(front));
            },
        }
        k = k + 1;
    }
    assert(fs.take(k as int) =~= fs);
    (names, typed)
}

/// The source text of the execution trait for the definitions, in order:
/// a dispatcher with one match arm per opcode, routing its variant to the
/// opcode's method with the operands named per kind (`r`, `r1`, `i`, `a`, ...),
/// then one method declaration per opcode taking those operands.
pub fn generate_execute_trait(instructions: &Vec<Instruction>) -> (r: String)
    ensures
        r@ == execute_trait_text(views(instructions@)),
{
    let ghost vs = views(instructions@);
    let mut out = String::from_str(
        "use crate::instruction::Instruction;\nuse crate::instruction_arguments::{Address, Immediate, Register};\n\n/// An engine that can execute every instruction of the set.\npub trait ExecuteInstruction {\n\ttype Output;\n\n\tfn execute_instruction(&mut self, instruction: Instruction) -> Self::Output {\n\t\treturn match instruction {\n",
    );
    assert(vs.take(0) =~= seq![]);
    let mut k: usize = 0;
    while k < instructions.len()
        invariant
            k <= instructions@.len(),
            vs == views(instructions@),
            out@ == execute_header() + match_arms(vs.take(k as int)),
        decreases instructions.len() - k,
    {
        let d = &instructions[k];
        assert(vs.take(k + 1).drop_last() =~= vs.take(k as int));
        assert(vs.take(k + 1).last() == d@);
        let (names, _) = parameter_lists(&d.fields);
        let ghost before = out@;
        if names.as_str().unicode_len() > 0 {
            out.append("\t\t\tInstruction::");
            out.append(d.name.as_str());
            out.append("(");
            out.append(names.as_str());
            out.append(") => self.execute_");
            out.append(d.short_name.as_str());
            out.append("(");
            out.append(names.as_str());
            out.append("),\n");
        } else {
            out.append("\t\t\tInstruction::");
            out.append(d.name.as_str());
            out.append(" => self.execute_");
            out.append(d.short_name.as_str());
            out.append("(),\n");
        }
        assert(out@ =~= before + match_arm(d@));
        k = k + 1;
    }
    assert(vs.take(k as int) =~= vs);
    out.append("\t\t};\n\t}\n\n");
    let ghost after_arms = out@;
    assert(after_arms == execute_header() + match_arms(vs) + execute_middle());
    k = 0;
    while k < instructions.len()
        invariant
            k <= instructions@.len(),
            vs == views(instructions@),
            out@ == after_arms + method_decls(vs.take(k as int)),
        decreases instructions.len() - k,
    {
        let d = &instructions[k];
        assert(vs.take(k + 1).drop_last() =~= vs.take(k as int));
        assert(vs.take(k + 1).last() == d@);
        let (_, typed) = parameter_lists(&d.fields);
        let ghost before = out@;
        out.append("\tfn execute_");
        out.append(d.short_name.as_str());
        out.append("(&mut self");
        if typed.as_str().unicode_len() > 0 {
            out.append(", ");
            out.append(typed.as_str());
        }
        out.append(") -> Self::Output;\n\n");
        assert(out@ =~= before + method_decl(d@));
        k = k + 1;
    }
    assert(vs.take(k as int) =~= vs);
    out.append("}\n\n");
    assert(out@ =~= execute_trait_text(vs));
    out
}

/// The line declaring the variant of a definition: its name, then its
/// operand types in parentheses when it has any.
pub open spec fn variant_line(d: DefinitionView) -> Seq<char> {
    "\t"@ + d.name + (if d.fields.len() != 0 {
        "("@ + join_operands(d.fields) + ")"@
    } else {
        seq![]
    }) + ", \n"@
}

/// `n` placeholders `_`, joined with `, `.
pub open spec fn placeholders(n: nat) -> Seq<char> {
    join_operands(Seq::new(n, |i: int| seq!['_']))
}

/// The match arm giving the mnemonic of a definition's variant.
pub open spec fn mnemonic_arm(d: DefinitionView) -> Seq<char> {
    "\t\t\tSelf::"@ + d.name + (if d.fields.len() > 0 {
        "("@ + placeholders(d.fields.len()) + ")"@
    } else {
        seq![]
    }) + " => \""@ + d.short_name + "\",\n"@
}

/// The variant lines of the definitions, in order.
pub open spec fn variant_lines(defs: Seq<DefinitionView>) -> Seq<char>
    decreases defs.len(),
{
    if defs.len() == 0 {
        seq![]
    } else {
        variant_lines(defs.drop_last()) + variant_line(defs.last())
    }
}

/// The mnemonic arms of the definitions, in order.
pub open spec fn mnemonic_arms(defs: Seq<DefinitionView>) -> Seq<char>
    decreases defs.len(),
{
    if defs.len() == 0 {
        seq![]
    } else {
        mnemonic_arms(defs.drop_last()) + mnemonic_arm(defs.last())
    }
}

/// The text before the first variant.
pub open spec fn enum_header() -> Seq<char> {
    "#[derive(Debug, Clone, Copy, PartialEq)]\npub enum Instruction {\n"@
}

/// The text between the variants and the first mnemonic arm.
pub open spec fn enum_middle() -> Seq<char> {
    "}\n\nimpl Instruction {\n\tpub fn mnemonic(&self) -> &'static str {\n\t\treturn match self {\n"@
}

/// The text after the last mnemonic arm.
pub open spec fn enum_tail() -> Seq<char> {
    "\t\t};\n\t}\n}\n"@
}

/// The whole text of the instruction enum and its mnemonic match for a table.
pub open spec fn instruction_enum_text(defs: Seq<DefinitionView>) -> Seq<char> {
    enum_header() + variant_lines(defs) + enum_middle() + mnemonic_arms(defs) + enum_tail()
}

/// The texts joined with `, `.
fn join_strings(texts: &Vec<String>) -> (r: String)
    ensures
        r@ == join_operands(string_views(texts@)),
{
    let ghost ts = string_views(texts@);
    let mut out = String::new();
    let mut k: usize = 0;
    proof {
        reveal_strlit("");
        assert(""@ =~= Seq::<char>::empty());
        assert(ts.take(0) =~= seq![]);
    }
    while k < texts.len()
        invariant
            k <= texts@.len(),
            ts == string_views(texts@),
            out@ == join_operands(ts.take(k as int)),
        decreases texts.len() - k,
    {
        proof {
            assert(ts.take(k + 1) =~= ts.take(k as int).push(texts@[k as int]@));
            lemma_join_push(ts.take(k as int), texts@[k as int]@);
        }
        if k > 0 {
            out.append(", ");
        }
        out.append(texts[k].as_str());
        k = k + 1;
    }
    assert(ts.take(k as int) =~= ts);
    out
}

/// `n` placeholders `_`, joined with `, `.
fn placeholder_list(n: usize) -> (r: String)
    ensures
        r@ == placeholders(n as nat),
{
    let mut out = String::new();
    let mut k: usize = 0;
    proof {
        reveal_strlit("");
        reveal_strlit("_");
        assert(""@ =~= Seq::<char>::empty());
        assert(Seq::new(0, |i: int| seq!['_']) =~= Seq::<Seq<char>>::empty());
    }
    while k < n
        invariant
            k <= n,
            "_"@ == seq!['_'],
            out@ == placeholders(k as nat),
        decreases n - k,
    {
        proof {
            assert(Seq::new((k + 1) as nat, |i: int| seq!['_']) =~= Seq::new(
                k as nat,
                |i: int| seq!['_'],
            ).push(seq!['_']));
            lemma_join_push(Seq::new(k as nat, |i: int| seq!['_']), seq!['_']);
        }
        if k > 0 {
            out.append(", ");
        }
        out.append("_");
        k = k + 1;
    }
    out
}

/// The source text of the instruction enum for the definitions, in order:
/// one variant per opcode carrying its operand types, then a match giving
/// each variant's mnemonic.
pub fn generate_instruction_enum(instructions: &Vec<Instruction>) -> (r: String)
    ensures
        r@ == instruction_enum_text(views(instructions@)),
{
    let ghost vs = views(instructions@);
    let mut out = String::from_str(
        "#[derive(Debug, Clone, Copy, PartialEq)]\npub enum Instruction {\n",
    );
    assert(vs.take(0) =~= seq![]);
    let mut k: usize = 0;
    while k < instructions.len()
        invariant
            k <= instructions@.len(),
            vs == views(instructions@),
            out@ == enum_header() + variant_lines(vs.take(k as int)),
        decreases instructions.len() - k,
    {
        let d = &instructions[k];
        assert(vs.take(k + 1).drop_last() =~= vs.take(k as int));
        assert(vs.take(k + 1).last() == d@);
        let ghost before = out@;
        out.append("\t");
        out.append(d.name.as_str());
        if d.fields.len() != 0 {
            let fields = join_strings(&d.fields);
            out.append("(");
            out.append(fields.as_str());
            out.append(")");
        }
        out.append(", \n");
        assert(out@ =~= before + variant_line(d@));
        k = k + 1;
    }
    assert(vs.take(k as int) =~= vs);
    out.append(
        "}\n\nimpl Instruction {\n\tpub fn mnemonic(&self) -> &'static str {\n\t\treturn match self {\n",
    );
    let ghost after_variants = out@;
    k = 0;
    while k < instructions.len()
        invariant
            k <= instructions@.len(),
            vs == views(instructions@),
            out@ == after_variants + mnemonic_arms(vs.take(k as int)),
        decreases instructions.len() - k,
    {
        let d = &instructions[k];
        assert(vs.take(k + 1).drop_last() =~= vs.take(k as int));
        assert(vs.take(k + 1).last() == d@);
        let ghost before = out@;
        out.append("\t\t\tSelf::");
        out.append(d.name.as_str());
        if d.fields.len() > 0 {
            let holes = placeholder_list(d.fields.len());
            out.append("(");
            out.append(holes.as_str());
            out.append(")");
        }
        out.append(" => \"");
        out.append(d.short_name.as_str());
        out.append("\",\n");
        assert(out@ =~= before + mnemonic_arm(d@));
        k = k + 1;
    }
    assert(vs.take(k as int) =~= vs);
    out.append("\t\t};\n\t}\n}\n");
    assert(out@ =~= instruction_enum_text(vs));
    out
}

} // verus!
