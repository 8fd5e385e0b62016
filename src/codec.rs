//! The binary layout of instruction operands, shared by every opcode.
//!
//! After the opcode byte come the immediates, then the addresses, each as
//! eight little-endian bytes, then the registers packed two to a byte: the
//! first of a pair in the high nibble, the second in the low nibble, and a
//! last unpaired register in the high nibble of a byte whose low nibble is zero.
//! The low nibble of such a last byte is ignored when decoding. Every nibble
//! names a register, so decoding never meets an unknown register code; a byte
//! read on its own that names no register is refused by
//! `Register::try_from_byte` with `None` rather than by aborting.
use vstd::prelude::*;

use crate::instruction_arguments::{
    le_bytes, le_value, lemma_le_value_of_bytes, u64_from_le, Address, Immediate, Register,
};

verus! {

broadcast use {Address::lemma_view, Immediate::lemma_view};

/// What went wrong while decoding an instruction from bytes.
#[derive(Copy, Clone, PartialEq, Eq, Debug, Structural)]
pub enum DecodeError {
    /// Fewer bytes remain than the opcode's operands take.
    Truncated,
    /// The first byte names no opcode.
    UnknownOpcode(u8),
}

/// The little-endian bytes of each word in turn.
pub open spec fn words_bytes(ws: Seq<u64>) -> Seq<u8>
    decreases ws.len(),
{
    if ws.len() == 0 {
        Seq::empty()
    } else {
        words_bytes(ws.drop_last()) + le_bytes(ws.last())
    }
}

/// The bits of each immediate.
pub open spec fn immediate_words(imms: Seq<Immediate>) -> Seq<u64> {
    imms.map_values(|i: Immediate| i@)
}

/// The value of each address.
pub open spec fn address_words(addrs: Seq<Address>) -> Seq<u64> {
    addrs.map_values(|a: Address| a@)
}

/// The byte that holds the registers at positions `2 * j` and `2 * j + 1`.
pub open spec fn register_pair_byte(regs: Seq<Register>, j: int) -> u8 {
    let high = regs[2 * j].code();
    let low: u8 = if 2 * j + 1 < regs.len() {
        regs[2 * j + 1].code()
    } else {
        0
    };
    (high * 16 + low) as u8
}

/// The registers packed two to a byte, high nibble first.
pub open spec fn pack_registers(regs: Seq<Register>) -> Seq<u8> {
    Seq::new((regs.len() + 1) / 2, |j: int| register_pair_byte(regs, j))
}

/// The bytes of an instruction's operands: immediates, addresses, then packed registers.
pub open spec fn operand_bytes(imms: Seq<Immediate>, addrs: Seq<Address>, regs: Seq<Register>) -> Seq<
    u8,
> {
    words_bytes(immediate_words(imms)) + words_bytes(address_words(addrs)) + pack_registers(regs)
}

/// The number of bytes that operands of the given counts take.
pub open spec fn operand_len(imms: nat, addrs: nat, regs: nat) -> nat {
    8 * imms + 8 * addrs + (regs + 1) / 2
}

/// The words read from `count` groups of eight bytes starting at `start`.
pub open spec fn read_words(bytes: Seq<u8>, start: int, count: nat) -> Seq<u64> {
    Seq::new(count, |k: int| le_value(bytes.subrange(start + 8 * k, start + 8 * k + 8)))
}

/// The four-bit code of the `k`th register packed from `start` on.
pub open spec fn register_nibble(bytes: Seq<u8>, start: int, k: int) -> u8 {
    let b = bytes[start + k / 2];
    if k % 2 == 0 {
        b >> 4u8
    } else {
        b & 0x0f
    }
}

/// The `count` registers packed from `start` on.
pub open spec fn read_registers(bytes: Seq<u8>, start: int, count: nat) -> Seq<Register> {
    Seq::new(count, |k: int| Register::of_code(register_nibble(bytes, start, k)))
}

/// The immediates whose bits are `ws`.
pub open spec fn immediates_of(ws: Seq<u64>) -> Seq<Immediate> {
    ws.map_values(|w: u64| Immediate::spec_new(w))
}

/// The addresses whose values are `ws`.
pub open spec fn addresses_of(ws: Seq<u64>) -> Seq<Address> {
    ws.map_values(|w: u64| Address::spec_new(w))
}

/// The operands read from `bytes` at `start`, for the given counts.
pub open spec fn read_operands(bytes: Seq<u8>, start: int, imms: nat, addrs: nat, regs: nat) -> (
    Seq<Immediate>,
    Seq<Address>,
    Seq<Register>,
) {
    (
        immediates_of(read_words(bytes, start, imms)),
        addresses_of(read_words(bytes, start + 8 * imms, addrs)),
        read_registers(bytes, start + 8 * imms + 8 * addrs, regs),
    )
}

pub proof fn lemma_words_bytes_len(ws: Seq<u64>)
    ensures
        words_bytes(ws).len() == 8 * ws.len(),
    decreases ws.len(),
{
    if ws.len() > 0 {
        lemma_words_bytes_len(ws.drop_last());
    }
}

/// The `k`th group of eight bytes holds the `k`th word.
pub proof fn lemma_words_bytes_index(ws: Seq<u64>, k: int)
    requires
        0 <= k < ws.len(),
    ensures
        words_bytes(ws).subrange(8 * k, 8 * k + 8) == le_bytes(ws[k]),
    decreases ws.len(),
{
    lemma_words_bytes_len(ws.drop_last());
    lemma_le_value_of_bytes(ws.last());
    let front = words_bytes(ws.drop_last());
    if k < ws.len() - 1 {
        lemma_words_bytes_index(ws.drop_last(), k);
        assert(words_bytes(ws).subrange(8 * k, 8 * k + 8) =~= front.subrange(8 * k, 8 * k + 8));
    } else {
        assert(words_bytes(ws).subrange(8 * k, 8 * k + 8) =~= le_bytes(ws.last()));
    }
}

/// Reading words back from their bytes gives the words.
pub proof fn lemma_read_words(ws: Seq<u64>, pre: Seq<u8>, post: Seq<u8>)
    ensures
        read_words(pre + words_bytes(ws) + post, pre.len() as int, ws.len()) == ws,
{
    let bytes = pre + words_bytes(ws) + post;
    lemma_words_bytes_len(ws);
    assert forall|k: int| 0 <= k < ws.len() implies #[trigger] read_words(
        bytes,
        pre.len() as int,
        ws.len(),
    )[k] == ws[k] by {
        lemma_words_bytes_index(ws, k);
        lemma_le_value_of_bytes(ws[k]);
        let s = pre.len() as int;
        assert(bytes.subrange(s + 8 * k, s + 8 * k + 8) =~= words_bytes(ws).subrange(
            8 * k,
            8 * k + 8,
        ));
    }
    assert(read_words(bytes, pre.len() as int, ws.len()) =~= ws);
}

proof fn lemma_nibbles(high: u8, low: u8)
    requires
        high < 16,
        low < 16,
    ensures
        ((high * 16 + low) as u8) >> 4u8 == high,
        ((high * 16 + low) as u8) & 0x0f == low,
{
    assert(high < 16 && low < 16 ==> ((high * 16 + low) as u8) >> 4u8 == high && ((high * 16
        + low) as u8) & 0x0f == low) by (bit_vector);
}

/// Reading registers back from their packed bytes gives the registers.
pub proof fn lemma_read_registers(regs: Seq<Register>, pre: Seq<u8>, post: Seq<u8>)
    ensures
        read_registers(pre + pack_registers(regs) + post, pre.len() as int, regs.len()) == regs,
{
    let bytes = pre + pack_registers(regs) + post;
    let s = pre.len() as int;
    assert forall|k: int| 0 <= k < regs.len() implies #[trigger] read_registers(
        bytes,
        s,
        regs.len(),
    )[k] == regs[k] by {
        let j = k / 2;
        assert(0 <= j < (regs.len() + 1) / 2);
        assert(bytes[s + j] == register_pair_byte(regs, j));
        let high = regs[2 * j].code();
        let low: u8 = if 2 * j + 1 < regs.len() {
            regs[2 * j + 1].code()
        } else {
            0
        };
        regs[2 * j].lemma_code_round_trip();
        if 2 * j + 1 < regs.len() {
            regs[2 * j + 1].lemma_code_round_trip();
        }
        lemma_nibbles(high, low);
        regs[k].lemma_code_round_trip();
    }
    assert(read_registers(bytes, s, regs.len()) =~= regs);
}

/// Operands read back from their encoding are the operands written.
pub proof fn lemma_operands_round_trip(
    imms: Seq<Immediate>,
    addrs: Seq<Address>,
    regs: Seq<Register>,
    pre: Seq<u8>,
    post: Seq<u8>,
)
    ensures
        operand_bytes(imms, addrs, regs).len() == operand_len(
            imms.len(),
            addrs.len(),
            regs.len(),
        ),
        read_operands(
            pre + operand_bytes(imms, addrs, regs) + post,
            pre.len() as int,
            imms.len(),
            addrs.len(),
            regs.len(),
        ) == (imms, addrs, regs),
{
    let iw = immediate_words(imms);
    let aw = address_words(addrs);
    let ib = words_bytes(iw);
    let ab = words_bytes(aw);
    let rb = pack_registers(regs);
    lemma_words_bytes_len(iw);
    lemma_words_bytes_len(aw);
    let bytes = pre + operand_bytes(imms, addrs, regs) + post;
    assert(bytes =~= pre + ib + (ab + rb + post));
    lemma_read_words(iw, pre, ab + rb + post);
    assert(bytes =~= (pre + ib) + ab + (rb + post));
    lemma_read_words(aw, pre + ib, rb + post);
    assert(bytes =~= (pre + ib + ab) + rb + post);
    lemma_read_registers(regs, pre + ib + ab, post);
    assert forall|k: int| 0 <= k < imms.len() implies #[trigger] immediates_of(iw)[k]
        == imms[k] by {
        Immediate::lemma_view(imms[k], imms[k]@);
    }
    assert forall|k: int| 0 <= k < addrs.len() implies #[trigger] addresses_of(aw)[k]
        == addrs[k] by {
        Address::lemma_view(addrs[k], addrs[k]@);
    }
    assert(immediates_of(iw) =~= imms);
    assert(addresses_of(aw) =~= addrs);
}

fn push_word(out: &mut Vec<u8>, b: [u8; 8])
    ensures
        final(out)@ == old(out)@ + b@,
{
    let ghost base = out@;
    let mut i: usize = 0;
    while i < 8
        invariant
            i <= 8,
            out@ == base + b@.subrange(0, i as int),
        decreases 8 - i,
    {
        out.push(b[i]);
        i = i + 1;
        assert(out@ =~= base + b@.subrange(0, i as int));
    }
    assert(b@.subrange(0, 8) =~= b@);
}

/// Appends the encoding of the operands to `out`: immediates, addresses, then
/// packed registers.
pub fn encode_operands(
    out: &mut Vec<u8>,
    imms: &[Immediate],
    addrs: &[Address],
    regs: &[Register],
)
    ensures
        final(out)@ == old(out)@ + operand_bytes(imms@, addrs@, regs@),
{
    let ghost base = out@;
    let mut k: usize = 0;
    while k < imms.len()
        invariant
            k <= imms@.len(),
            out@ == base + words_bytes(immediate_words(imms@.take(k as int))),
        decreases imms.len() - k,
    {
        let b = imms[k].to_le_bytes();
        push_word(out, b);
        proof {
            let ws = immediate_words(imms@.take(k + 1));
            assert(ws.drop_last() =~= immediate_words(imms@.take(k as int)));
        }
        k = k + 1;
    }
    assert(imms@.take(imms@.len() as int) =~= imms@);
    let ghost base_a = out@;
    k = 0;
    while k < addrs.len()
        invariant
            k <= addrs@.len(),
            out@ == base_a + words_bytes(address_words(addrs@.take(k as int))),
        decreases addrs.len() - k,
    {
        let b = addrs[k].to_le_bytes();
        push_word(out, b);
        proof {
            let ws = address_words(addrs@.take(k + 1));
            assert(ws.drop_last() =~= address_words(addrs@.take(k as int)));
        }
        k = k + 1;
    }
    assert(addrs@.take(addrs@.len() as int) =~= addrs@);
    let ghost base_r = out@;
    let n = regs.len();
    let pairs = n / 2 + n % 2;
    assert(pairs == (n + 1) / 2);
    let mut j: usize = 0;
    while j < pairs
        invariant
            n == regs@.len(),
            pairs == (n + 1) / 2,
            j <= pairs,
            out@.len() == base_r.len() + j,
            out@.subrange(0, base_r.len() as int) == base_r,
            forall|q: int| 0 <= q < j ==> out@[base_r.len() + q] == register_pair_byte(regs@, q),
        decreases pairs - j,
    {
        let high = regs[2 * j].to_bits();
        let low: u8 = if 2 * j + 1 < n {
            regs[2 * j + 1].to_bits()
        } else {
            0
        };
        out.push(high * 16 + low);
        j = j + 1;
        assert(out@.subrange(0, base_r.len() as int) =~= base_r);
    }
    assert(out@ =~= base_r + pack_registers(regs@));
}

/// Reads the operands of the given counts from `bytes` at `start`, or reports
/// that too few bytes remain.
pub fn decode_operands(
    bytes: &[u8],
    start: usize,
    imm_count: usize,
    addr_count: usize,
    reg_count: usize,
) -> (r:
    Result<(Vec<Immediate>, Vec<Address>, Vec<Register>), DecodeError>)
    requires
        start <= bytes@.len(),
    ensures
        start + operand_len(imm_count as nat, addr_count as nat, reg_count as nat) <= bytes@.len()
            ==> (r matches Ok((i, a, g)) && (i@, a@, g@) == read_operands(
            bytes@,
            start as int,
            imm_count as nat,
            addr_count as nat,
            reg_count as nat,
        )),
        start + operand_len(imm_count as nat, addr_count as nat, reg_count as nat) > bytes@.len()
            ==> r == Err::<(Vec<Immediate>, Vec<Address>, Vec<Register>), DecodeError>(
            DecodeError::Truncated,
        ),
{
    let ni = imm_count;
    let na = addr_count;
    let nr = reg_count;
    let need: u128 = 8 * (ni as u128) + 8 * (na as u128) + ((nr / 2 + nr % 2) as u128);
    assert(need == operand_len(imm_count as nat, addr_count as nat, reg_count as nat));
    if ((bytes.len() - start) as u128) < need {
        return Err(DecodeError::Truncated);
    }
    let imms = read_word_run(bytes, start, ni);
    let addrs = read_word_run(bytes, start + 8 * ni, na);
    let mut immediates: Vec<Immediate> = Vec::new();
    let mut k: usize = 0;
    while k < ni
        invariant
            k <= ni,
            ni == imms@.len(),
            immediates@ == immediates_of(imms@.take(k as int)),
        decreases ni - k,
    {
        immediates.push(Immediate::from_bits(imms[k]));
        k = k + 1;
        assert(immediates@ =~= immediates_of(imms@.take(k as int)));
    }
    assert(imms@.take(ni as int) =~= imms@);
    let mut addresses: Vec<Address> = Vec::new();
    k = 0;
    while k < na
        invariant
            k <= na,
            na == addrs@.len(),
            addresses@ == addresses_of(addrs@.take(k as int)),
        decreases na - k,
    {
        addresses.push(Address::new(addrs[k]));
        k = k + 1;
        assert(addresses@ =~= addresses_of(addrs@.take(k as int)));
    }
    assert(addrs@.take(na as int) =~= addrs@);
    let q = start + 8 * ni + 8 * na;
    let mut registers: Vec<Register> = Vec::new();
    k = 0;
    while k < nr
        invariant
            k <= nr,
            q == start + 8 * ni + 8 * na,
            q + (nr + 1) / 2 <= bytes@.len(),
            bytes@.len() == bytes.len(),
            registers@ == read_registers(bytes@, q as int, k as nat),
        decreases nr - k,
    {
        let b = bytes[q + k / 2];
        let code: u8 = if k % 2 == 0 {
            b >> 4u8
        } else {
            b & 0x0f
        };
        assert(b >> 4u8 < 16 && b & 0x0f < 16) by (bit_vector);
        registers.push(Register::from_code(code));
        k = k + 1;
        assert(registers@ =~= read_registers(bytes@, q as int, k as nat));
    }
    Ok((immediates, addresses, registers))
}

/// The `count` words stored as little-endian groups of eight bytes from `start` on.
fn read_word_run(bytes: &[u8], start: usize, count: usize) -> (r: Vec<u64>)
    requires
        start + 8 * count <= bytes@.len(),
    ensures
        r@ == read_words(bytes@, start as int, count as nat),
{
    let mut r: Vec<u64> = Vec::new();
    let mut k: usize = 0;
    let len = bytes.len();
    while k < count
        invariant
            k <= count,
            len == bytes@.len(),
            start + 8 * count <= bytes@.len(),
            r@ == read_words(bytes@, start as int, k as nat),
        decreases count - k,
    {
        let p = start + 8 * k;
        let b: [u8; 8] = [
            bytes[p],
            bytes[p + 1],
            bytes[p + 2],
            bytes[p + 3],
            bytes[p + 4],
            bytes[p + 5],
            bytes[p + 6],
            bytes[p + 7],
        ];
        assert(b@ =~= bytes@.subrange(p as int, p + 8));
        r.push(u64_from_le(b));
        k = k + 1;
        assert(r@ =~= read_words(bytes@, start as int, k as nat));
    }
    r
}

} // verus!
