use vstd::prelude::*;

verus! {

/// The eight little-endian bytes of `x`, least significant first.
pub open spec fn le_bytes(x: u64) -> Seq<u8> {
    seq![
        (x & 0xff) as u8,
        ((x >> 8u64) & 0xff) as u8,
        ((x >> 16u64) & 0xff) as u8,
        ((x >> 24u64) & 0xff) as u8,
        ((x >> 32u64) & 0xff) as u8,
        ((x >> 40u64) & 0xff) as u8,
        ((x >> 48u64) & 0xff) as u8,
        ((x >> 56u64) & 0xff) as u8,
    ]
}

/// The value of eight bytes read as a little-endian integer.
pub open spec fn le_value(b: Seq<u8>) -> u64
    recommends
        b.len() == 8,
{
    (b[0] as u64) | ((b[1] as u64) << 8u64) | ((b[2] as u64) << 16u64) | ((b[3] as u64) << 24u64)
        | ((b[4] as u64) << 32u64) | ((b[5] as u64) << 40u64) | ((b[6] as u64) << 48u64) | ((
    b[7] as u64) << 56u64)
}

/// Reading back the little-endian bytes of a value gives the value.
pub proof fn lemma_le_value_of_bytes(x: u64)
    ensures
        le_bytes(x).len() == 8,
        le_value(le_bytes(x)) == x,
{
    let b = le_bytes(x);
    let (b0, b1, b2, b3, b4, b5, b6, b7) = (b[0], b[1], b[2], b[3], b[4], b[5], b[6], b[7]);
    assert(b0 == (x & 0xff) as u8 && b1 == ((x >> 8u64) & 0xff) as u8 && b2 == ((x >> 16u64)
        & 0xff) as u8 && b3 == ((x >> 24u64) & 0xff) as u8 && b4 == ((x >> 32u64) & 0xff) as u8
        && b5 == ((x >> 40u64) & 0xff) as u8 && b6 == ((x >> 48u64) & 0xff) as u8 && b7 == ((x
        >> 56u64) & 0xff) as u8 ==> (b0 as u64) | ((b1 as u64) << 8u64) | ((b2 as u64) << 16u64)
        | ((b3 as u64) << 24u64) | ((b4 as u64) << 32u64) | ((b5 as u64) << 40u64) | ((b6 as u64)
        << 48u64) | ((b7 as u64) << 56u64) == x) by (bit_vector);
}

/// Writing out the value of eight bytes gives the same bytes back.
pub proof fn lemma_le_bytes_of_value(b: Seq<u8>)
    requires
        b.len() == 8,
    ensures
        le_bytes(le_value(b)) == b,
{
    let (b0, b1, b2, b3, b4, b5, b6, b7) = (b[0], b[1], b[2], b[3], b[4], b[5], b[6], b[7]);
    let x = le_value(b);
    assert(x == (b0 as u64) | ((b1 as u64) << 8u64) | ((b2 as u64) << 16u64) | ((b3 as u64)
        << 24u64) | ((b4 as u64) << 32u64) | ((b5 as u64) << 40u64) | ((b6 as u64) << 48u64) | ((
    b7 as u64) << 56u64) ==> b0 == (x & 0xff) as u8 && b1 == ((x >> 8u64) & 0xff) as u8 && b2
        == ((x >> 16u64) & 0xff) as u8 && b3 == ((x >> 24u64) & 0xff) as u8 && b4 == ((x >> 32u64)
        & 0xff) as u8 && b5 == ((x >> 40u64) & 0xff) as u8 && b6 == ((x >> 48u64) & 0xff) as u8
        && b7 == ((x >> 56u64) & 0xff) as u8) by (bit_vector);
    assert(le_bytes(x) =~= b);
}

/// The little-endian bytes of `x`.
pub fn u64_to_le(x: u64) -> (r: [u8; 8])
    ensures
        r@ == le_bytes(x),
{
    let r = [
        (x & 0xff) as u8,
        ((x >> 8u64) & 0xff) as u8,
        ((x >> 16u64) & 0xff) as u8,
        ((x >> 24u64) & 0xff) as u8,
        ((x >> 32u64) & 0xff) as u8,
        ((x >> 40u64) & 0xff) as u8,
        ((x >> 48u64) & 0xff) as u8,
        ((x >> 56u64) & 0xff) as u8,
    ];
    assert(r@ =~= le_bytes(x));
    r
}

/// The value of eight little-endian bytes.
pub fn u64_from_le(b: [u8; 8]) -> (r: u64)
    ensures
        r == le_value(b@),
{
    (b[0] as u64) | ((b[1] as u64) << 8u64) | ((b[2] as u64) << 16u64) | ((b[3] as u64) << 24u64)
        | ((b[4] as u64) << 32u64) | ((b[5] as u64) << 40u64) | ((b[6] as u64) << 48u64) | ((
    b[7] as u64) << 56u64)
}

} // verus!

verus! {

/// Properties shared by every kind of instruction argument.
pub trait InstructionArgument: Sized {
    /// The number of bits this argument kind occupies.
    const BIT_SIZE: usize;

    /// The number of whole bytes this argument kind occupies on its own.
    const BYTES: usize;

    /// The bytes of this argument when it is written out on its own.
    spec fn spec_bytes(&self) -> Seq<u8>;

    /// Writes this argument out on its own.
    fn into_bytes(self) -> (r: Vec<u8>)
        ensures
            r@ == self.spec_bytes(),
            r@.len() == Self::BYTES,
    ;
}

/// Each argument kind takes as many whole bytes as its bits need, rounded up.
pub proof fn lemma_bytes_round_up()
    ensures
        Register::BYTES == (Register::BIT_SIZE + 7) / 8,
        Address::BYTES == (Address::BIT_SIZE + 7) / 8,
        Immediate::BYTES == (Immediate::BIT_SIZE + 7) / 8,
{
}

/// The sixteen registers of the machine, each identified by four bits.
///
/// `RSP` (0) stack pointer, `RFP` (1) frame pointer, `ROU` (2) output register,
/// `RFL` (3) flags register, `RRA` (4) and `RRB` (5) reserved, `R0` to `R9`
/// (6 to 15) general purpose.
#[derive(Copy, Clone, PartialEq, Eq, Debug, Structural)]
pub enum Register {
    /// Stack pointer
    RSP,
    /// Frame pointer
    RFP,
    /// Output register
    ROU,
    /// Flags register
    RFL,
    /// Reserved A
    RRA,
    /// Reserved B
    RRB,
    /// General purpose register 0
    R0,
    /// General purpose register 1
    R1,
    /// General purpose register 2
    R2,
    /// General purpose register 3
    R3,
    /// General purpose register 4
    R4,
    /// General purpose register 5
    R5,
    /// General purpose register 6
    R6,
    /// General purpose register 7
    R7,
    /// General purpose register 8
    R8,
    /// General purpose register 9
    R9,
}

impl Register {
    /// The four-bit code of a register.
    pub open spec fn code(self) -> u8 {
        match self {
            Register::RSP => 0,
            Register::RFP => 1,
            Register::ROU => 2,
            Register::RFL => 3,
            Register::RRA => 4,
            Register::RRB => 5,
            Register::R0 => 6,
            Register::R1 => 7,
            Register::R2 => 8,
            Register::R3 => 9,
            Register::R4 => 10,
            Register::R5 => 11,
            Register::R6 => 12,
            Register::R7 => 13,
            Register::R8 => 14,
            Register::R9 => 15,
        }
    }

    /// The register whose code is `c`, for `c < 16`.
    pub open spec fn of_code(c: u8) -> Register {
        if c == 0 {
            Register::RSP
        } else if c == 1 {
            Register::RFP
        } else if c == 2 {
            Register::ROU
        } else if c == 3 {
            Register::RFL
        } else if c == 4 {
            Register::RRA
        } else if c == 5 {
            Register::RRB
        } else if c == 6 {
            Register::R0
        } else if c == 7 {
            Register::R1
        } else if c == 8 {
            Register::R2
        } else if c == 9 {
            Register::R3
        } else if c == 10 {
            Register::R4
        } else if c == 11 {
            Register::R5
        } else if c == 12 {
            Register::R6
        } else if c == 13 {
            Register::R7
        } else if c == 14 {
            Register::R8
        } else {
            Register::R9
        }
    }

    /// The symbolic name of a register in assembly text, without its `$` prefix.
    pub open spec fn spec_name(self) -> Seq<char> {
        match self {
            Register::RSP => seq!['r', 's', 'p'],
            Register::RFP => seq!['r', 'f', 'p'],
            Register::ROU => seq!['r', 'o', 'u'],
            Register::RFL => seq!['r', 'f', 'l'],
            Register::RRA => seq!['r', 'r', 'a'],
            Register::RRB => seq!['r', 'r', 'b'],
            Register::R0 => seq!['r', '0'],
            Register::R1 => seq!['r', '1'],
            Register::R2 => seq!['r', '2'],
            Register::R3 => seq!['r', '3'],
            Register::R4 => seq!['r', '4'],
            Register::R5 => seq!['r', '5'],
            Register::R6 => seq!['r', '6'],
            Register::R7 => seq!['r', '7'],
            Register::R8 => seq!['r', '8'],
            Register::R9 => seq!['r', '9'],
        }
    }

    /// The code of the register whose name is `n`.
    pub open spec fn code_of_name(n: Seq<char>) -> u8 {
        if n.len() == 2 {
            (n[1] as u32 - '0' as u32 + 6) as u8
        } else if n[1] == 's' {
            0
        } else if n[1] == 'o' {
            2
        } else if n[1] == 'f' {
            if n[2] == 'p' {
                1
            } else {
                3
            }
        } else if n[2] == 'a' {
            4
        } else {
            5
        }
    }

    /// Distinct registers have distinct names.
    pub proof fn lemma_name_injective(self, other: Register)
        requires
            self.spec_name() == other.spec_name(),
        ensures
            self == other,
    {
        assert(Register::code_of_name(self.spec_name()) == self.code());
        assert(Register::code_of_name(other.spec_name()) == other.code());
        self.lemma_code_round_trip();
        other.lemma_code_round_trip();
    }

    /// Codes and registers are in one-to-one correspondence.
    pub proof fn lemma_code_round_trip(self)
        ensures
            self.code() < 16,
            Register::of_code(self.code()) == self,
    {
    }

    /// Every four-bit code names the register that carries it.
    pub proof fn lemma_of_code_round_trip(c: u8)
        requires
            c < 16,
        ensures
            Register::of_code(c).code() == c,
    {
    }

    /// The four-bit code of this register.
    pub fn to_bits(self) -> (r: u8)
        ensures
            r == self.code(),
            r < 16,
    {
        match self {
            Register::RSP => 0,
            Register::RFP => 1,
            Register::ROU => 2,
            Register::RFL => 3,
            Register::RRA => 4,
            Register::RRB => 5,
            Register::R0 => 6,
            Register::R1 => 7,
            Register::R2 => 8,
            Register::R3 => 9,
            Register::R4 => 10,
            Register::R5 => 11,
            Register::R6 => 12,
            Register::R7 => 13,
            Register::R8 => 14,
            Register::R9 => 15,
        }
    }

    /// The register whose code is `indicator`. Only the sixteen codes below
    /// 16 name registers; a byte that may hold another value goes through
    /// `try_from_byte`, which refuses it instead of aliasing it to another register.
    pub fn from_bits(indicator: u8) -> (r: Register)
        requires
            indicator < 16,
        ensures
            r == Register::of_code(indicator),
            r.code() == indicator,
    {
        Register::from_code(indicator)
    }

    /// The register whose code is `value`, or `None` when `value` is not below 16.
    ///
    /// A byte that names no register is reported to the caller rather than
    /// aborting: such a byte comes from a corrupt instruction stream.
    pub fn try_from_byte(value: u8) -> (r: Option<Register>)
        ensures
            value < 16 ==> r == Some(Register::of_code(value)),
            value >= 16 ==> r.is_none(),
    {
        if value < 16 {
            Some(Register::from_code(value))
        } else {
            None
        }
    }

    pub(crate) fn from_code(c: u8) -> (r: Register)
        requires
            c < 16,
        ensures
            r == Register::of_code(c),
            r.code() == c,
    {
        if c == 0 {
            Register::RSP
        } else if c == 1 {
            Register::RFP
        } else if c == 2 {
            Register::ROU
        } else if c == 3 {
            Register::RFL
        } else if c == 4 {
            Register::RRA
        } else if c == 5 {
            Register::RRB
        } else if c == 6 {
            Register::R0
        } else if c == 7 {
            Register::R1
        } else if c == 8 {
            Register::R2
        } else if c == 9 {
            Register::R3
        } else if c == 10 {
            Register::R4
        } else if c == 11 {
            Register::R5
        } else if c == 12 {
            Register::R6
        } else if c == 13 {
            Register::R7
        } else if c == 14 {
            Register::R8
        } else {
            Register::R9
        }
    }

    /// The symbolic name of this register in assembly text, without its `$` prefix.
    pub fn name(self) -> (r: &'static str)
        ensures
            r@ == self.spec_name(),
    {
        proof {
            reveal_strlit("rsp");
            reveal_strlit("rfp");
            reveal_strlit("rou");
            reveal_strlit("rfl");
            reveal_strlit("rra");
            reveal_strlit("rrb");
            reveal_strlit("r0");
            reveal_strlit("r1");
            reveal_strlit("r2");
            reveal_strlit("r3");
            reveal_strlit("r4");
            reveal_strlit("r5");
            reveal_strlit("r6");
            reveal_strlit("r7");
            reveal_strlit("r8");
            reveal_strlit("r9");
        }
        match self {
            Register::RSP => "rsp",
            Register::RFP => "rfp",
            Register::ROU => "rou",
            Register::RFL => "rfl",
            Register::RRA => "rra",
            Register::RRB => "rrb",
            Register::R0 => "r0",
            Register::R1 => "r1",
            Register::R2 => "r2",
            Register::R3 => "r3",
            Register::R4 => "r4",
            Register::R5 => "r5",
            Register::R6 => "r6",
            Register::R7 => "r7",
            Register::R8 => "r8",
            Register::R9 => "r9",
        }
    }
}

impl InstructionArgument for Register {
    const BIT_SIZE: usize = 4;

    const BYTES: usize = 1;

    /// A single byte holding the register's code.
    open spec fn spec_bytes(&self) -> Seq<u8> {
        seq![self.code()]
    }

    fn into_bytes(self) -> (r: Vec<u8>) {
        let mut v: Vec<u8> = Vec::new();
        v.push(self.to_bits());
        assert(v@ =~= seq![self.code()]);
        v
    }
}

} // verus!

verus! {

/// An absolute 64-bit value: a byte offset, or the identifier of a heap object.
#[derive(Copy, Clone, PartialEq, Eq, Debug, Structural)]
pub struct Address {
    absolute_address: u64,
}

impl View for Address {
    type V = u64;

    closed spec fn view(&self) -> u64 {
        self.absolute_address
    }
}

impl Address {
    /// The address whose value is `v`.
    pub closed spec fn spec_new(v: u64) -> Address {
        Address { absolute_address: v }
    }

    /// An address is its value: the value of `spec_new(v)` is `v`, and two
    /// addresses with one value are equal.
    pub broadcast proof fn lemma_view(a: Address, v: u64)
        ensures
            #[trigger] Address::spec_new(v)@ == v,
            (#[trigger] a@ == v) ==> a == Address::spec_new(v),
    {
    }

    /// Creates a new address from an absolute address.
    pub fn new(absolute_address: u64) -> (r: Self)
        ensures
            r == Address::spec_new(absolute_address),
            r@ == absolute_address,
    {
        Self { absolute_address }
    }

    /// The absolute value of this address.
    pub fn value(&self) -> (r: u64)
        ensures
            r == self@,
    {
        self.absolute_address
    }

    /// The address read from eight little-endian bytes.
    pub fn from_le_bytes(bytes: [u8; 8]) -> (r: Self)
        ensures
            r@ == le_value(bytes@),
    {
        Self::new(u64_from_le(bytes))
    }

    /// The eight little-endian bytes of this address.
    pub fn to_le_bytes(&self) -> (r: [u8; 8])
        ensures
            r@ == le_bytes(self@),
    {
        u64_to_le(self.absolute_address)
    }
}

impl From<u64> for Address {
    fn from(n: u64) -> (r: Self) {
        Self::new(n)
    }
}

impl vstd::std_specs::convert::FromSpecImpl<u64> for Address {
    open spec fn obeys_from_spec() -> bool {
        true
    }

    open spec fn from_spec(v: u64) -> Address {
        Address::spec_new(v)
    }
}

impl From<[u8; 8]> for Address {
    fn from(bytes: [u8; 8]) -> (r: Self) {
        Self::from_le_bytes(bytes)
    }
}

impl vstd::std_specs::convert::FromSpecImpl<[u8; 8]> for Address {
    open spec fn obeys_from_spec() -> bool {
        true
    }

    open spec fn from_spec(v: [u8; 8]) -> Address {
        Address::spec_new(le_value(v@))
    }
}

impl InstructionArgument for Address {
    const BIT_SIZE: usize = 64;

    const BYTES: usize = 8;

    /// The eight little-endian bytes of the address.
    open spec fn spec_bytes(&self) -> Seq<u8> {
        le_bytes(self@)
    }

    fn into_bytes(self) -> (r: Vec<u8>) {
        let b = self.to_le_bytes();
        let mut v: Vec<u8> = Vec::new();
        let mut i: usize = 0;
        while i < 8
            invariant
                i <= 8,
                v@ == b@.subrange(0, i as int),
            decreases 8 - i,
        {
            v.push(b[i]);
            i = i + 1;
            assert(v@ =~= b@.subrange(0, i as int));
        }
        assert(v@ =~= b@);
        v
    }
}

impl From<Address> for u64 {
    fn from(a: Address) -> (r: u64) {
        a.value()
    }
}

impl vstd::std_specs::convert::FromSpecImpl<Address> for u64 {
    open spec fn obeys_from_spec() -> bool {
        true
    }

    open spec fn from_spec(v: Address) -> u64 {
        v@
    }
}

/// A 64-bit immediate payload: a signed or unsigned integer, or the bits of a
/// double, as the opcode that carries it reads it.
#[derive(Copy, Clone, PartialEq, Eq, Debug, Structural)]
pub struct Immediate {
    bits: u64,
}

impl View for Immediate {
    type V = u64;

    closed spec fn view(&self) -> u64 {
        self.bits
    }
}

/// The value of 64 bits read as a two's complement signed integer.
pub open spec fn signed_value(bits: u64) -> int {
    if bits < 0x8000_0000_0000_0000u64 {
        bits as int
    } else {
        bits as int - 0x1_0000_0000_0000_0000int
    }
}

impl Immediate {
    /// The immediate whose bits are `v`.
    pub closed spec fn spec_new(v: u64) -> Immediate {
        Immediate { bits: v }
    }

    /// An immediate is its bits: the bits of `spec_new(v)` are `v`, and two
    /// immediates with the same bits are equal.
    pub broadcast proof fn lemma_view(a: Immediate, v: u64)
        ensures
            #[trigger] Immediate::spec_new(v)@ == v,
            (#[trigger] a@ == v) ==> a == Immediate::spec_new(v),
    {
    }

    /// Creates a new immediate from its eight little-endian bytes.
    pub fn new(bytes: [u8; 8]) -> (r: Self)
        ensures
            r@ == le_value(bytes@),
    {
        Self { bits: u64_from_le(bytes) }
    }

    /// The immediate with the given 64 bits.
    pub fn from_bits(bits: u64) -> (r: Self)
        ensures
            r == Immediate::spec_new(bits),
            r@ == bits,
    {
        Self { bits }
    }

    /// The 64 bits of this immediate, read as an unsigned integer.
    pub fn bits(&self) -> (r: u64)
        ensures
            r == self@,
    {
        self.bits
    }

    /// The eight little-endian bytes of this immediate.
    pub fn to_le_bytes(&self) -> (r: [u8; 8])
        ensures
            r@ == le_bytes(self@),
    {
        u64_to_le(self.bits)
    }
}

impl From<[u8; 8]> for Immediate {
    fn from(bytes: [u8; 8]) -> (r: Self) {
        Self::new(bytes)
    }
}

impl vstd::std_specs::convert::FromSpecImpl<[u8; 8]> for Immediate {
    open spec fn obeys_from_spec() -> bool {
        true
    }

    open spec fn from_spec(v: [u8; 8]) -> Immediate {
        Immediate::spec_new(le_value(v@))
    }
}

impl From<u64> for Immediate {
    fn from(n: u64) -> (r: Self) {
        Self::from_bits(n)
    }
}

impl vstd::std_specs::convert::FromSpecImpl<u64> for Immediate {
    open spec fn obeys_from_spec() -> bool {
        true
    }

    open spec fn from_spec(v: u64) -> Immediate {
        Immediate::spec_new(v)
    }
}

impl From<i64> for Immediate {
    fn from(n: i64) -> (r: Self) {
        Self::from_bits(#[verifier::truncate] (n as u64))
    }
}

impl vstd::std_specs::convert::FromSpecImpl<i64> for Immediate {
    open spec fn obeys_from_spec() -> bool {
        true
    }

    open spec fn from_spec(v: i64) -> Immediate {
        Immediate::spec_new(v as u64)
    }
}

impl From<u8> for Immediate {
    fn from(n: u8) -> (r: Self) {
        Self::from_bits(n as u64)
    }
}

impl vstd::std_specs::convert::FromSpecImpl<u8> for Immediate {
    open spec fn obeys_from_spec() -> bool {
        true
    }

    open spec fn from_spec(v: u8) -> Immediate {
        Immediate::spec_new(v as u64)
    }
}

impl From<Immediate> for u64 {
    fn from(i: Immediate) -> (r: u64) {
        i.bits()
    }
}

impl vstd::std_specs::convert::FromSpecImpl<Immediate> for u64 {
    open spec fn obeys_from_spec() -> bool {
        true
    }

    open spec fn from_spec(v: Immediate) -> u64 {
        v@
    }
}

impl InstructionArgument for Immediate {
    const BIT_SIZE: usize = 64;

    const BYTES: usize = 8;

    /// The eight little-endian bytes of the immediate.
    open spec fn spec_bytes(&self) -> Seq<u8> {
        le_bytes(self@)
    }

    fn into_bytes(self) -> (r: Vec<u8>) {
        let b = self.to_le_bytes();
        let mut v: Vec<u8> = Vec::new();
        let mut i: usize = 0;
        while i < 8
            invariant
                i <= 8,
                v@ == b@.subrange(0, i as int),
            decreases 8 - i,
        {
            v.push(b[i]);
            i = i + 1;
            assert(v@ =~= b@.subrange(0, i as int));
        }
        assert(v@ =~= b@);
        v
    }
}

} // verus!
