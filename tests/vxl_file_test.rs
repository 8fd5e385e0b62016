use sha2::Digest;
use vxl_iset::instruction::Instruction;
use vxl_iset::instruction_arguments::{Address, Register};
use vxl_iset::vxl_file::{VXLError, VXLFile, VXLHeader, END_HEADER_BYTE, HEADER_SIZE};

fn checksum() -> [u8; 28] {
    let mut c = [0u8; 28];
    for (i, b) in c.iter_mut().enumerate() {
        *b = i as u8 + 1;
    }
    c
}

fn sample(contents: Vec<u8>) -> VXLFile {
    let header = VXLHeader::new(0, contents.len() as u64, 3, 1, checksum());
    VXLFile::new(header, contents)
}

#[test]
fn header_layout_is_exact() {
    let header = VXLHeader::new(0, 0x0102, 7, 1, checksum());
    let bytes = header.to_bytes();
    assert_eq!(bytes.len(), HEADER_SIZE);
    assert_eq!(&bytes[0..4], &[0x65, 0x58, 0x56, 0x4c]);
    assert_eq!(bytes[4], 0);
    assert_eq!(&bytes[5..13], &[2, 1, 0, 0, 0, 0, 0, 0]);
    assert_eq!(&bytes[13..21], &[7, 0, 0, 0, 0, 0, 0, 0]);
    assert_eq!(bytes[21], 1);
    assert_eq!(&bytes[22..50], &checksum());
    assert_eq!(bytes[50], END_HEADER_BYTE);
}

#[test]
fn container_round_trip() {
    let file = sample(vec![0x00, 0x37, 5, 0, 0, 0, 0, 0, 0, 0]);
    let bytes = file.to_bytes();
    let back = VXLFile::from_bytes(&bytes).unwrap();
    assert_eq!(back, file);
    assert_eq!(back.header().size(), 10);
    assert_eq!(back.header().starting_offset(), 3);
    assert_eq!(back.header().flags(), 1);
    assert_eq!(back.header().version(), 0);
    assert_eq!(back.header().checksum(), checksum());
    assert_eq!(back.contents(), &vec![0x00, 0x37, 5, 0, 0, 0, 0, 0, 0, 0]);
}

#[test]
fn empty_payload_round_trip() {
    let file = sample(vec![]);
    assert_eq!(VXLFile::from_bytes(&file.to_bytes()), Ok(file));
}

#[test]
fn checksum_algorithm_flag() {
    let sha3 = VXLHeader::new(0, 0, 0, 0b1, checksum());
    assert!(sha3.checksum_sha3());
    assert!(!sha3.checksum_sha2());
    let sha2 = VXLHeader::new(0, 0, 0, 0b10, checksum());
    assert!(sha2.checksum_sha2());
    assert!(!sha2.checksum_sha3());
}

#[test]
fn checksum_comparison() {
    let file = sample(vec![1, 2, 3]);
    assert_eq!(file.verify_checksum(&checksum()), Ok(()));
    let mut other = checksum();
    other[27] ^= 0x01;
    assert_eq!(file.verify_checksum(&other), Err(VXLError::ChecksumMismatch));
}

#[test]
fn refuses_short_input() {
    let bytes = sample(vec![]).to_bytes();
    assert_eq!(VXLFile::from_bytes(&bytes[..HEADER_SIZE - 1]), Err(VXLError::TooShort));
}

#[test]
fn refuses_bad_magic() {
    let mut bytes = sample(vec![9]).to_bytes();
    bytes[2] = 0;
    assert_eq!(VXLFile::from_bytes(&bytes), Err(VXLError::BadMagic));
}

#[test]
fn refuses_unsupported_version() {
    let file = VXLFile::new(VXLHeader::new(3, 1, 0, 0, checksum()), vec![9]);
    assert_eq!(VXLFile::from_bytes(&file.to_bytes()), Err(VXLError::UnsupportedVersion(3)));
}

#[test]
fn refuses_bad_end_marker() {
    let mut bytes = sample(vec![9]).to_bytes();
    bytes[50] = 0;
    assert_eq!(VXLFile::from_bytes(&bytes), Err(VXLError::BadEndMarker));
}

#[test]
fn refuses_size_mismatch() {
    let mut bytes = sample(vec![9, 9, 9]).to_bytes();
    bytes.pop();
    assert_eq!(VXLFile::from_bytes(&bytes), Err(VXLError::SizeMismatch));
    let short = VXLFile::new(VXLHeader::new(0, 2, 0, 0, checksum()), vec![9, 9, 9]);
    assert_eq!(VXLFile::from_bytes(&short.to_bytes()), Err(VXLError::SizeMismatch));
}

fn digest(header: &VXLHeader, payload: &[u8]) -> [u8; 28] {
    let d: Vec<u8> = if header.checksum_sha3() {
        sha3::Sha3_224::digest(payload).to_vec()
    } else {
        sha2::Sha224::digest(payload).to_vec()
    };
    let mut out = [0u8; 28];
    out.copy_from_slice(&d);
    out
}

#[test]
fn flipping_a_payload_byte_fails_the_checksum() {
    let payload = Instruction::encode_program(&[
        Instruction::Malloc(Register::R0, Register::R1),
        Instruction::Jmp(Address::new(0)),
    ]);
    for flags in [0u8, 1] {
        let blank = VXLHeader::new(0, payload.len() as u64, 0, flags, [0; 28]);
        let sum = digest(&blank, &payload);
        let file = VXLFile::new(VXLHeader::new(0, payload.len() as u64, 0, flags, sum), payload.clone());
        let bytes = file.to_bytes();
        let parsed = VXLFile::from_bytes(&bytes).unwrap();
        assert_eq!(parsed.verify_checksum(&digest(&parsed.header(), parsed.contents())), Ok(()));
        for k in 0..payload.len() {
            let mut flipped = bytes.clone();
            flipped[HEADER_SIZE + k] ^= 0x01;
            let parsed = VXLFile::from_bytes(&flipped).unwrap();
            assert_eq!(
                parsed.verify_checksum(&digest(&parsed.header(), parsed.contents())),
                Err(VXLError::ChecksumMismatch)
            );
        }
    }
}
