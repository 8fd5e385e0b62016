//! The executable container: a fixed 51-byte header followed by the encoded
//! instruction bytes.
//!
//! Header layout, by byte offset: 0x00 magic (4 bytes), 0x04 version,
//! 0x05 payload size in bytes (8, little-endian, header excluded), 0x0d
//! starting instruction offset (8, little-endian), 0x15 flags (bit 0 selects
//! the checksum algorithm: 1 for SHA3-224, 0 for SHA2-224), 0x16 checksum of
//! the payload (28 bytes), 0x32 end-of-header marker; 51 bytes in all.
use vstd::prelude::*;

use crate::instruction_arguments::{le_bytes, le_value, lemma_le_value_of_bytes, u64_from_le, u64_to_le};

verus! {

/// The size in bytes of the checksum.
pub const HEADER_CHECKSUM_SIZE: usize = 28;

/// The full size of the header: 50 bytes of fields, then the end-of-header marker.
pub const HEADER_SIZE: usize = 51;

/// The bit of the flags that selects the checksum algorithm.
pub const CHECKSUM_MASK: u8 = 0b0000_0001;

/// The byte that marks the end of the header.
pub const END_HEADER_BYTE: u8 = 0xaa;

/// The only container version this library reads.
pub const SUPPORTED_VERSION: u8 = 0x0;

/// The four magic bytes that open every container.
pub open spec fn magic() -> Seq<u8> {
    seq![0x65u8, 0x58u8, 0x56u8, 0x4cu8]
}

/// Whether a container version can be read.
pub open spec fn is_supported_version(v: u8) -> bool {
    v == SUPPORTED_VERSION
}

/// The fields of a header.
pub struct HeaderView {
    pub version: u8,
    pub size: u64,
    pub starting_offset: u64,
    pub flags: u8,
    pub checksum: Seq<u8>,
}

/// What a header holds: version, payload size, starting instruction offset,
/// flags and the 28-byte checksum of the payload.
#[derive(Copy, Clone, PartialEq, Eq, Debug)]
pub struct VXLHeader {
    version: u8,
    file_size: u64,
    starting_offset: u64,
    flags: u8,
    checksum: [u8; 28],
}

/// A container: its header and the program bytes that follow it.
#[derive(Clone, PartialEq, Eq, Debug)]
pub struct VXLFile {
    header: VXLHeader,
    contents: Vec<u8>,
}

/// Why bytes could not be read as a container.
#[derive(Copy, Clone, PartialEq, Eq, Debug, Structural)]
pub enum VXLError {
    /// Fewer bytes than a header takes.
    TooShort,
    /// The first four bytes are not the magic bytes.
    BadMagic,
    /// The version is not one this library reads.
    UnsupportedVersion(u8),
    /// The byte after the checksum is not the end-of-header marker.
    BadEndMarker,
    /// The declared payload size differs from the number of bytes after the header.
    SizeMismatch,
    /// The checksum computed over the payload differs from the stored one.
    ChecksumMismatch,
}

impl View for VXLHeader {
    type V = HeaderView;

    closed spec fn view(&self) -> HeaderView {
        HeaderView {
            version: self.version,
            size: self.file_size,
            starting_offset: self.starting_offset,
            flags: self.flags,
            checksum: self.checksum@,
        }
    }
}

/// The 51 bytes of a header.
pub open spec fn header_bytes(h: HeaderView) -> Seq<u8> {
    magic() + seq![h.version] + le_bytes(h.size) + le_bytes(h.starting_offset) + seq![h.flags]
        + h.checksum + seq![END_HEADER_BYTE]
}

/// The header read from the first 51 of `bytes`.
pub open spec fn read_header(bytes: Seq<u8>) -> HeaderView {
    HeaderView {
        version: bytes[4],
        size: le_value(bytes.subrange(5, 13)),
        starting_offset: le_value(bytes.subrange(13, 21)),
        flags: bytes[21],
        checksum: bytes.subrange(22, 50),
    }
}

/// The header and payload read from `bytes`, or the first check that fails:
/// length, magic, version, end marker, then declared size.
pub open spec fn spec_parse(bytes: Seq<u8>) -> Result<(HeaderView, Seq<u8>), VXLError> {
    if bytes.len() < HEADER_SIZE {
        Err(VXLError::TooShort)
    } else if bytes.subrange(0, 4) != magic() {
        Err(VXLError::BadMagic)
    } else if !is_supported_version(bytes[4]) {
        Err(VXLError::UnsupportedVersion(bytes[4]))
    } else if bytes[50] != END_HEADER_BYTE {
        Err(VXLError::BadEndMarker)
    } else if read_header(bytes).size != bytes.len() - HEADER_SIZE {
        Err(VXLError::SizeMismatch)
    } else {
        Ok((read_header(bytes), bytes.subrange(HEADER_SIZE as int, bytes.len() as int)))
    }
}

impl VXLHeader {
    /// Creates a new header.
    pub fn new(version: u8, file_size: u64, starting_offset: u64, flags: u8, checksum: [u8; 28]) -> (r:
        Self)
        ensures
            r@ == (HeaderView {
                version,
                size: file_size,
                starting_offset,
                flags,
                checksum: checksum@,
            }),
    {
        Self { version, file_size, starting_offset, flags, checksum }
    }

    /// The version of this header.
    pub fn version(&self) -> (r: u8)
        ensures
            r == self@.version,
    {
        self.version
    }

    /// The size of the payload that follows this header.
    pub fn size(&self) -> (r: u64)
        ensures
            r == self@.size,
    {
        self.file_size
    }

    /// The instruction offset at which execution starts.
    pub fn starting_offset(&self) -> (r: u64)
        ensures
            r == self@.starting_offset,
    {
        self.starting_offset
    }

    /// The flags of this header.
    pub fn flags(&self) -> (r: u8)
        ensures
            r == self@.flags,
    {
        self.flags
    }

    /// The stored checksum of the payload.
    pub fn checksum(&self) -> (r: [u8; 28])
        ensures
            r@ == self@.checksum,
    {
        self.checksum
    }

    /// True if the checksum was computed with SHA3-224.
    pub fn checksum_sha3(&self) -> (r: bool)
        ensures
            r == (self@.flags & CHECKSUM_MASK == 1),
    {
        (self.flags & CHECKSUM_MASK) == 1
    }

    /// True if the checksum was computed with SHA2-224.
    pub fn checksum_sha2(&self) -> (r: bool)
        ensures
            r == (self@.flags & CHECKSUM_MASK == 0),
            r == !self.checksum_sha3_spec(),
    {
        let r = (self.flags & CHECKSUM_MASK) == 0;
        let f = self.flags;
        assert(f & 1 == 0 || f & 1 == 1) by (bit_vector);
        r
    }

    /// Whether the flags select SHA3-224.
    pub open spec fn checksum_sha3_spec(&self) -> bool {
        self@.flags & CHECKSUM_MASK == 1
    }

    /// The 51 bytes of this header.
    pub fn to_bytes(&self) -> (r: Vec<u8>)
        ensures
            r@ == header_bytes(self@),
    {
        let mut v: Vec<u8> = Vec::new();
        v.push(0x65);
        v.push(0x58);
        v.push(0x56);
        v.push(0x4c);
        v.push(self.version);
        push_all(&mut v, &u64_to_le(self.file_size));
        push_all(&mut v, &u64_to_le(self.starting_offset));
        v.push(self.flags);
        push_all(&mut v, &self.checksum);
        v.push(END_HEADER_BYTE);
        assert(v@ =~= header_bytes(self@));
        v
    }
}

fn push_all(out: &mut Vec<u8>, b: &[u8])
    ensures
        final(out)@ == old(out)@ + b@,
{
    let ghost base = out@;
    let mut i: usize = 0;
    while i < b.len()
        invariant
            i <= b@.len(),
            out@ == base + b@.subrange(0, i as int),
        decreases b.len() - i,
    {
        out.push(b[i]);
        i = i + 1;
        assert(out@ =~= base + b@.subrange(0, i as int));
    }
    assert(b@.subrange(0, b@.len() as int) =~= b@);
}

impl VXLFile {
    /// Creates a new container from its header and program bytes.
    pub fn new(header: VXLHeader, contents: Vec<u8>) -> (r: Self)
        ensures
            r.spec_header() == header,
            r.spec_contents() == contents@,
    {
        Self { header, contents }
    }

    /// The header of this container.
    pub closed spec fn spec_header(&self) -> VXLHeader {
        self.header
    }

    /// The program bytes of this container.
    pub closed spec fn spec_contents(&self) -> Seq<u8> {
        self.contents@
    }

    /// Returns a copy of the header of this container.
    pub fn header(&self) -> (r: VXLHeader)
        ensures
            r == self.spec_header(),
    {
        self.header
    }

    /// Returns the program bytes of this container.
    pub fn contents(&self) -> (r: &Vec<u8>)
        ensures
            r@ == self.spec_contents(),
    {
        &self.contents
    }

    /// The bytes of the container: the header, then the program bytes.
    pub fn to_bytes(&self) -> (r: Vec<u8>)
        ensures
            r@ == header_bytes(self.spec_header()@) + self.spec_contents(),
    {
        let mut v = self.header.to_bytes();
        push_all(&mut v, self.contents.as_slice());
        v
    }

    /// Reads a container from `bytes`, checking in turn its length, magic
    /// bytes, version, end-of-header marker and declared payload size.
    pub fn from_bytes(bytes: &[u8]) -> (r: Result<VXLFile, VXLError>)
        ensures
            match r {
                Ok(f) => spec_parse(bytes@) == Ok::<(HeaderView, Seq<u8>), VXLError>(
                    (f.spec_header()@, f.spec_contents()),
                ),
                Err(e) => spec_parse(bytes@) == Err::<(HeaderView, Seq<u8>), VXLError>(e),
            },
    {
        let n = bytes.len();
        if n < HEADER_SIZE {
            return Err(VXLError::TooShort);
        }
        if !(bytes[0] == 0x65 && bytes[1] == 0x58 && bytes[2] == 0x56 && bytes[3] == 0x4c) {
            assert(bytes@.subrange(0, 4) != magic()) by {
                if bytes@.subrange(0, 4) == magic() {
                    assert(bytes@[0] == bytes@.subrange(0, 4)[0]);
                    assert(bytes@[1] == bytes@.subrange(0, 4)[1]);
                    assert(bytes@[2] == bytes@.subrange(0, 4)[2]);
                    assert(bytes@[3] == bytes@.subrange(0, 4)[3]);
                }
            }
            return Err(VXLError::BadMagic);
        }
        assert(bytes@.subrange(0, 4) =~= magic());
        let version = bytes[4];
        if version != SUPPORTED_VERSION {
            return Err(VXLError::UnsupportedVersion(version));
        }
        if bytes[50] != END_HEADER_BYTE {
            return Err(VXLError::BadEndMarker);
        }
        let size = u64_from_le(slice8(bytes, 5));
        let starting_offset = u64_from_le(slice8(bytes, 13));
        let flags = bytes[21];
        let mut checksum: [u8; 28] = [0; 28];
        let mut i: usize = 0;
        while i < 28
            invariant
                i <= 28,
                n == bytes@.len(),
                n >= HEADER_SIZE,
                forall|j: int| 0 <= j < i ==> checksum@[j] == bytes@[22 + j],
            decreases 28 - i,
        {
            checksum[i] = bytes[22 + i];
            i = i + 1;
        }
        assert(checksum@ =~= bytes@.subrange(22, 50));
        if size as u128 != (n - HEADER_SIZE) as u128 {
            return Err(VXLError::SizeMismatch);
        }
        let mut contents: Vec<u8> = Vec::new();
        push_all(&mut contents, slice_from(bytes, HEADER_SIZE));
        let header = VXLHeader::new(version, size, starting_offset, flags, checksum);
        Ok(VXLFile { header, contents })
    }

    /// Compares the checksum computed over the program bytes, with the
    /// algorithm that the header's flags select, with the stored one.
    pub fn verify_checksum(&self, computed: &[u8; 28]) -> (r: Result<(), VXLError>)
        ensures
            r is Ok <==> computed@ == self.spec_header()@.checksum,
            r is Err ==> r == Err::<(), VXLError>(VXLError::ChecksumMismatch),
    {
        let stored = self.header.checksum();
        let mut i: usize = 0;
        while i < 28
            invariant
                i <= 28,
                stored@ == self.spec_header()@.checksum,
                forall|j: int| 0 <= j < i ==> computed@[j] == stored@[j],
            decreases 28 - i,
        {
            if computed[i] != stored[i] {
                return Err(VXLError::ChecksumMismatch);
            }
            i = i + 1;
        }
        assert(computed@ =~= stored@);
        Ok(())
    }
}

fn slice8(bytes: &[u8], start: usize) -> (r: [u8; 8])
    requires
        start + 8 <= bytes@.len(),
    ensures
        r@ == bytes@.subrange(start as int, start + 8),
{
    let r = [
        bytes[start],
        bytes[start + 1],
        bytes[start + 2],
        bytes[start + 3],
        bytes[start + 4],
        bytes[start + 5],
        bytes[start + 6],
        bytes[start + 7],
    ];
    assert(r@ =~= bytes@.subrange(start as int, start + 8));
    r
}

fn slice_from(bytes: &[u8], start: usize) -> (r: &[u8])
    requires
        start <= bytes@.len(),
    ensures
        r@ == bytes@.subrange(start as int, bytes@.len() as int),
{
    let (_, tail) = bytes.split_at(start);
    tail
}

/// The bytes of a header followed by a payload read back as that header and payload.
proof fn lemma_read_back(h: HeaderView, contents: Seq<u8>)
    requires
        h.checksum.len() == HEADER_CHECKSUM_SIZE,
    ensures
        ({
            let bytes = header_bytes(h) + contents;
            &&& bytes.len() == HEADER_SIZE + contents.len()
            &&& bytes.subrange(0, 4) == magic()
            &&& bytes[4] == h.version
            &&& bytes[50] == END_HEADER_BYTE
            &&& read_header(bytes) == h
            &&& bytes.subrange(HEADER_SIZE as int, bytes.len() as int) == contents
        }),
{
    lemma_le_value_of_bytes(h.size);
    lemma_le_value_of_bytes(h.starting_offset);
    let hb = header_bytes(h);
    assert(magic().len() == 4);
    assert(le_bytes(h.size).len() == 8);
    assert(le_bytes(h.starting_offset).len() == 8);
    assert(h.checksum.len() == 28);
    assert(hb.len() == HEADER_SIZE);
    let bytes = hb + contents;
    assert(bytes.subrange(0, 4) =~= magic());
    assert(bytes.subrange(5, 13) =~= le_bytes(h.size));
    assert(bytes.subrange(13, 21) =~= le_bytes(h.starting_offset));
    assert(bytes.subrange(22, 50) =~= h.checksum);
    assert(bytes.subrange(51, bytes.len() as int) =~= contents);
    assert(read_header(bytes) == h);
}

/// Reading back the bytes of a container whose header declares the length of
/// its payload and a supported version gives its header and payload.
pub proof fn lemma_container_round_trip(h: HeaderView, contents: Seq<u8>)
    requires
        h.checksum.len() == HEADER_CHECKSUM_SIZE,
        h.size == contents.len(),
        is_supported_version(h.version),
    ensures
        spec_parse(header_bytes(h) + contents) == Ok::<(HeaderView, Seq<u8>), VXLError>(
            (h, contents),
        ),
{
    lemma_read_back(h, contents);
}

/// A container whose declared payload size differs from the length of its
/// payload is refused with `SizeMismatch`, once magic, version and marker pass.
pub proof fn lemma_size_mismatch(h: HeaderView, contents: Seq<u8>)
    requires
        h.checksum.len() == HEADER_CHECKSUM_SIZE,
        h.size != contents.len(),
        is_supported_version(h.version),
    ensures
        spec_parse(header_bytes(h) + contents) == Err::<(HeaderView, Seq<u8>), VXLError>(
            VXLError::SizeMismatch,
        ),
{
    lemma_read_back(h, contents);
}

} // verus!
