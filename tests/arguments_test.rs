use vxl_iset::instruction_arguments::{
    u64_from_le, u64_to_le, Address, Immediate, InstructionArgument, Register,
};

#[test]
fn register_codes_round_trip() {
    for code in 0u8..16 {
        assert_eq!(Register::from_bits(code).to_bits(), code);
    }
    assert_eq!(Register::from_bits(6), Register::R0);
    assert_eq!(Register::from_bits(0), Register::RSP);
    assert_eq!(Register::from_bits(15), Register::R9);
}

#[test]
fn register_bytes_past_fifteen_never_alias() {
    assert_eq!(Register::try_from_byte(0xf6), None);
    assert_eq!(Register::try_from_byte(0x13), None);
    assert_eq!(Register::try_from_byte(0x03), Some(Register::RFL));
}

#[test]
fn register_from_byte_refuses_out_of_range() {
    assert_eq!(Register::try_from_byte(11), Some(Register::R5));
    assert_eq!(Register::try_from_byte(16), None);
    assert_eq!(Register::try_from_byte(255), None);
}

#[test]
fn argument_sizes() {
    assert_eq!(Register::BIT_SIZE, 4);
    assert_eq!(Register::BYTES, 1);
    assert_eq!(Address::BIT_SIZE, 64);
    assert_eq!(Address::BYTES, 8);
    assert_eq!(Immediate::BIT_SIZE, 64);
    assert_eq!(Immediate::BYTES, 8);
    assert_eq!(Register::R1.into_bytes(), vec![7]);
    assert_eq!(Address::new(0x0102).into_bytes(), vec![2, 1, 0, 0, 0, 0, 0, 0]);
    assert_eq!(Immediate::from(-2i64).into_bytes(), vec![0xfe, 0xff, 0xff, 0xff, 0xff, 0xff, 0xff, 0xff]);
}

#[test]
fn immediate_constructors() {
    assert_eq!(Immediate::from(-1i64).bits(), u64::MAX);
    assert_eq!(Immediate::from(0xabu8).bits(), 0xab);
    assert_eq!(Immediate::from([1, 0, 0, 0, 0, 0, 0, 0x80]).bits(), 0x8000_0000_0000_0001);
    assert_eq!(Immediate::new([0x34, 0, 0, 0, 0, 0, 0, 0]), Immediate::from(52u64));
    assert_eq!(Immediate::from(2.0f64.to_bits()).bits(), 0x4000_0000_0000_0000);
    assert_eq!(u64::from(Immediate::from(99u64)), 99);
}

#[test]
fn address_conversions() {
    assert_eq!(Address::from(5u64), Address::new(5));
    assert_eq!(u64::from(Address::new(77)), 77);
    assert_eq!(Address::from([5, 0, 0, 0, 0, 0, 0, 0]), Address::new(5));
    assert_eq!(Address::new(0x1122_3344_5566_7788).to_le_bytes(), [0x88, 0x77, 0x66, 0x55, 0x44, 0x33, 0x22, 0x11]);
}

#[test]
fn little_endian_round_trip() {
    for x in [0u64, 1, 0xff, 0x100, 0x0123_4567_89ab_cdef, u64::MAX] {
        assert_eq!(u64_to_le(x), x.to_le_bytes());
        assert_eq!(u64_from_le(x.to_le_bytes()), x);
    }
}
