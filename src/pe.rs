//! Field-by-field decoding of PE headers and section tables from raw bytes.

use vstd::prelude::*;

verus! {

/// Why a buffer could not be read as a PE image, or a table in it could not be found.
#[derive(Clone, Copy, Debug, PartialEq, Eq, Structural)]
pub enum PeError {
    /// A signature or magic number does not match.
    InvalidFormat,
    /// A declared structure extends past the end of the buffer.
    Truncated,
    /// A requested table is absent from the image.
    NotFound,
    /// The underlying file could not be opened or read.
    Unreadable,
}

/// Little-endian `u16` stored at `off`.
pub open spec fn le16(b: Seq<u8>, off: int) -> u16 {
    (b[off] as int + 256 * b[off + 1] as int) as u16
}

/// Little-endian `u32` stored at `off`.
pub open spec fn le32(b: Seq<u8>, off: int) -> u32 {
    (b[off] as int + 256 * b[off + 1] as int + 65536 * b[off + 2] as int + 16777216 * b[off
        + 3] as int) as u32
}

/// Reads the little-endian `u16` at `off`.
pub fn read_u16(b: &[u8], off: usize) -> (r: u16)
    requires
        off + 2 <= b@.len(),
    ensures
        r == le16(b@, off as int),
{
    let lo = b[off] as u16;
    let hi = b[off + 1] as u16;
    lo + 256 * hi
}

/// Reads the little-endian `u32` at `off`.
pub fn read_u32(b: &[u8], off: usize) -> (r: u32)
    requires
        off + 4 <= b@.len(),
    ensures
        r == le32(b@, off as int),
{
    let b0 = b[off] as u32;
    let b1 = b[off + 1] as u32;
    let b2 = b[off + 2] as u32;
    let b3 = b[off + 3] as u32;
    b0 + 256 * b1 + 65536 * b2 + 16777216 * b3
}


/// The DOS magic `MZ`, as stored in the first two bytes.
pub const DOS_MAGIC: u16 = 0x5A4D;
/// The NT signature `PE\0\0`.
pub const NT_SIGNATURE: u32 = 0x00004550;
/// Optional-header magic of a 32-bit image.
pub const PE32_MAGIC: u16 = 0x10b;
/// Optional-header magic of a 64-bit image.
pub const PE32_PLUS_MAGIC: u16 = 0x20b;
/// COFF machine code of x86.
pub const MACHINE_X86: u16 = 0x14c;
/// COFF machine code of x86-64.
pub const MACHINE_X64: u16 = 0x8664;
/// Number of entries in the data-directory array.
pub const NUM_DATA_DIRECTORIES: usize = 16;
/// Size in bytes of one section-table record.
pub const SECTION_HEADER_SIZE: u64 = 40;

/// Architecture named by the COFF machine field.
#[derive(Clone, Copy, Debug, PartialEq, Eq, Structural)]
pub enum Machine {
    X86,
    X64,
    Unknown,
}

pub open spec fn machine_of(code: u16) -> Machine {
    if code == MACHINE_X86 {
        Machine::X86
    } else if code == MACHINE_X64 {
        Machine::X64
    } else {
        Machine::Unknown
    }
}

/// Classifies a COFF machine code.
pub fn machine_from_code(code: u16) -> (r: Machine)
    ensures
        r == machine_of(code),
{
    if code == MACHINE_X86 {
        Machine::X86
    } else if code == MACHINE_X64 {
        Machine::X64
    } else {
        Machine::Unknown
    }
}

/// One `(virtual_address, size)` entry of the data-directory array.
#[derive(Clone, Copy, Debug, PartialEq, Eq, Structural)]
pub struct DataDirectory {
    pub virtual_address: u32,
    pub size: u32,
}

/// One record of the section table. `name` is the raw 8-byte field: ASCII,
/// NUL-padded, and not necessarily NUL-terminated.
#[derive(Clone, Copy, Debug)]
pub struct SectionHeader {
    pub name: [u8; 8],
    pub virtual_address: u32,
    pub virtual_size: u32,
    pub size_of_raw_data: u32,
    pub pointer_to_raw_data: u32,
}

pub struct SectionView {
    pub name: Seq<u8>,
    pub virtual_address: u32,
    pub virtual_size: u32,
    pub size_of_raw_data: u32,
    pub pointer_to_raw_data: u32,
}

impl View for SectionHeader {
    type V = SectionView;

    open spec fn view(&self) -> SectionView {
        SectionView {
            name: self.name@,
            virtual_address: self.virtual_address,
            virtual_size: self.virtual_size,
            size_of_raw_data: self.size_of_raw_data,
            pointer_to_raw_data: self.pointer_to_raw_data,
        }
    }
}

/// The section record stored at byte `off`.
pub open spec fn section_at(b: Seq<u8>, off: int) -> SectionView {
    SectionView {
        name: b.subrange(off, off + 8),
        virtual_size: le32(b, off + 8),
        virtual_address: le32(b, off + 12),
        size_of_raw_data: le32(b, off + 16),
        pointer_to_raw_data: le32(b, off + 20),
    }
}

/// Decodes the section record at byte `off`.
pub fn read_section(b: &[u8], off: usize) -> (r: SectionHeader)
    requires
        off + 40 <= b@.len(),
    ensures
        r@ == section_at(b@, off as int),
{
    let name: [u8; 8] = [
        b[off],
        b[off + 1],
        b[off + 2],
        b[off + 3],
        b[off + 4],
        b[off + 5],
        b[off + 6],
        b[off + 7],
    ];
    let r = SectionHeader {
        name,
        virtual_size: read_u32(b, off + 8),
        virtual_address: read_u32(b, off + 12),
        size_of_raw_data: read_u32(b, off + 16),
        pointer_to_raw_data: read_u32(b, off + 20),
    };
    assert(r.name@ =~= b@.subrange(off as int, off + 8));
    r
}


/// The header fields that the queries read.
#[derive(Debug)]
pub struct PeHeaderInfo {
    pub machine: Machine,
    pub machine_code: u16,
    pub number_of_sections: u16,
    pub size_of_optional_header: u16,
    pub characteristics: u16,
    pub optional_magic: u16,
    pub dll_characteristics: u16,
    pub data_directories: Vec<DataDirectory>,
}

/// A parsed image: its header fields and its section table in file order.
#[derive(Debug)]
pub struct PeImage {
    pub header: PeHeaderInfo,
    pub sections: Vec<SectionHeader>,
}

pub struct PeHeaderView {
    pub machine: Machine,
    pub machine_code: u16,
    pub number_of_sections: u16,
    pub size_of_optional_header: u16,
    pub characteristics: u16,
    pub optional_magic: u16,
    pub dll_characteristics: u16,
    pub data_directories: Seq<DataDirectory>,
}

pub struct PeImageView {
    pub header: PeHeaderView,
    pub sections: Seq<SectionView>,
}

impl View for PeHeaderInfo {
    type V = PeHeaderView;

    open spec fn view(&self) -> PeHeaderView {
        PeHeaderView {
            machine: self.machine,
            machine_code: self.machine_code,
            number_of_sections: self.number_of_sections,
            size_of_optional_header: self.size_of_optional_header,
            characteristics: self.characteristics,
            optional_magic: self.optional_magic,
            dll_characteristics: self.dll_characteristics,
            data_directories: self.data_directories@,
        }
    }
}

pub open spec fn section_views(s: Seq<SectionHeader>) -> Seq<SectionView> {
    s.map_values(|h: SectionHeader| h@)
}

impl View for PeImage {
    type V = PeImageView;

    open spec fn view(&self) -> PeImageView {
        PeImageView { header: self.header@, sections: section_views(self.sections@) }
    }
}

/// Offset of the NT headers, from the DOS header's `e_lfanew` field.
pub open spec fn nt_start(b: Seq<u8>) -> int {
    le32(b, 60) as int
}

/// Offset of the optional header: after the signature and the 20-byte file header.
pub open spec fn opt_start(b: Seq<u8>) -> int {
    nt_start(b) + 24
}

/// Offset of the data-directory array within the optional header.
pub open spec fn dir_offset(magic: u16) -> int {
    if magic == PE32_MAGIC {
        96
    } else {
        112
    }
}

/// Offset of the section table.
pub open spec fn section_table_start(b: Seq<u8>) -> int {
    opt_start(b) + le16(b, nt_start(b) + 20) as int
}

pub open spec fn directories_at(b: Seq<u8>, off: int) -> Seq<DataDirectory> {
    Seq::new(
        16,
        |i: int| DataDirectory { virtual_address: le32(b, off + 8 * i), size: le32(b, off + 8 * i + 4) },
    )
}

pub open spec fn sections_at(b: Seq<u8>, off: int, n: nat) -> Seq<SectionView> {
    Seq::new(n, |i: int| section_at(b, off + 40 * i))
}

/// The header fields of a buffer whose structures are all in bounds.
pub open spec fn header_of(b: Seq<u8>) -> PeHeaderView {
    let nt = nt_start(b);
    let opt = opt_start(b);
    let magic = le16(b, opt);
    PeHeaderView {
        machine: machine_of(le16(b, nt + 4)),
        machine_code: le16(b, nt + 4),
        number_of_sections: le16(b, nt + 6),
        size_of_optional_header: le16(b, nt + 20),
        characteristics: le16(b, nt + 22),
        optional_magic: magic,
        dll_characteristics: le16(b, opt + 70),
        data_directories: directories_at(b, opt + dir_offset(magic)),
    }
}

/// What reading `b` as a PE image gives: the checks in the order they are made.
#[verifier::opaque]
pub open spec fn parse_spec(b: Seq<u8>) -> Result<PeImageView, PeError> {
    let nt = nt_start(b);
    let opt = opt_start(b);
    if b.len() < 64 || le16(b, 0) != DOS_MAGIC {
        Err(PeError::InvalidFormat)
    } else if nt + 4 > b.len() {
        Err(PeError::Truncated)
    } else if le32(b, nt) != NT_SIGNATURE {
        Err(PeError::InvalidFormat)
    } else if opt + 2 > b.len() {
        Err(PeError::Truncated)
    } else if le16(b, opt) != PE32_MAGIC && le16(b, opt) != PE32_PLUS_MAGIC {
        Err(PeError::InvalidFormat)
    } else if opt + dir_offset(le16(b, opt)) + 128 > b.len() {
        Err(PeError::Truncated)
    } else if section_table_start(b) + 40 * le16(b, nt + 6) > b.len() {
        Err(PeError::Truncated)
    } else {
        Ok(
            PeImageView {
                header: header_of(b),
                sections: sections_at(b, section_table_start(b), le16(b, nt + 6) as nat),
            },
        )
    }
}

/// Reads the 16 data-directory entries starting at `off`.
fn read_directories(b: &[u8], off: usize) -> (r: Vec<DataDirectory>)
    requires
        off + 128 <= b@.len() <= usize::MAX,
    ensures
        r@ == directories_at(b@, off as int),
{
    let mut r: Vec<DataDirectory> = Vec::new();
    let mut i: usize = 0;
    while i < NUM_DATA_DIRECTORIES
        invariant
            i <= 16,
            off + 128 <= b@.len() <= usize::MAX,
            r@.len() == i,
            forall|k: int| 0 <= k < i ==> r@[k] == directories_at(b@, off as int)[k],
        decreases 16 - i,
    {
        let e = off + 8 * i;
        r.push(DataDirectory { virtual_address: read_u32(b, e), size: read_u32(b, e + 4) });
        i = i + 1;
    }
    assert(r@ =~= directories_at(b@, off as int));
    r
}

/// Reads `n` consecutive section records starting at `off`.
fn read_sections(b: &[u8], off: usize, n: u16) -> (r: Vec<SectionHeader>)
    requires
        off + 40 * n <= b@.len() <= usize::MAX,
    ensures
        section_views(r@) == sections_at(b@, off as int, n as nat),
{
    let mut r: Vec<SectionHeader> = Vec::new();
    let mut i: u16 = 0;
    while i < n
        invariant
            i <= n,
            off + 40 * n <= b@.len() <= usize::MAX,
            r@.len() == i,
            forall|k: int| 0 <= k < i ==> #[trigger] r@[k]@ == section_at(b@, off + 40 * k),
        decreases n - i,
    {
        assert(40 * i + 40 <= 40 * n) by (nonlinear_arith)
            requires
                i < n,
        ;
        let s = read_section(b, off + 40 * (i as usize));
        r.push(s);
        i = i + 1;
    }
    assert(section_views(r@) =~= sections_at(b@, off as int, n as nat));
    r
}

/// Reads the headers and the section table of a PE image held in `b`.
pub fn parse_pe(b: &[u8]) -> (r: Result<PeImage, PeError>)
    ensures
        match r {
            Ok(img) => parse_spec(b@) == Ok::<PeImageView, PeError>(img@),
            Err(e) => parse_spec(b@) == Err::<PeImageView, PeError>(e),
        },
{
    reveal(parse_spec);
    let len = b.len() as u64;
    if b.len() < 64 || read_u16(b, 0) != DOS_MAGIC {
        return Err(PeError::InvalidFormat);
    }
    let nt = read_u32(b, 60) as u64;
    if nt + 4 > len {
        return Err(PeError::Truncated);
    }
    let nt = nt as usize;
    if read_u32(b, nt) != NT_SIGNATURE {
        return Err(PeError::InvalidFormat);
    }
    let opt = nt as u64 + 24;
    if opt + 2 > len {
        return Err(PeError::Truncated);
    }
    let opt = opt as usize;
    let magic = read_u16(b, opt);
    if magic != PE32_MAGIC && magic != PE32_PLUS_MAGIC {
        return Err(PeError::InvalidFormat);
    }
    let dir_off: usize = if magic == PE32_MAGIC { 96 } else { 112 };
    if opt as u64 + dir_off as u64 + 128 > len {
        return Err(PeError::Truncated);
    }
    let number_of_sections = read_u16(b, nt + 6);
    let size_of_optional_header = read_u16(b, nt + 20);
    let table = opt as u64 + size_of_optional_header as u64;
    if table + SECTION_HEADER_SIZE * number_of_sections as u64 > len {
        return Err(PeError::Truncated);
    }
    let machine_code = read_u16(b, nt + 4);
    let header = PeHeaderInfo {
        machine: machine_from_code(machine_code),
        machine_code,
        number_of_sections,
        size_of_optional_header,
        characteristics: read_u16(b, nt + 22),
        optional_magic: magic,
        dll_characteristics: read_u16(b, opt + 70),
        data_directories: read_directories(b, opt + dir_off),
    };
    let sections = read_sections(b, table as usize, number_of_sections);
    Ok(PeImage { header, sections })
}


/// A successful read reproduces the buffer's fields exactly: the machine and
/// section count come from the file header at `e_lfanew + 4`, and each section
/// record's name, addresses, sizes and raw-data pointer come from its 40 bytes
/// in the section table, in file order.
pub proof fn lemma_parse_round_trip(b: Seq<u8>)
    requires
        parse_spec(b) is Ok,
    ensures
        ({
            let img = parse_spec(b)->Ok_0;
            let nt = nt_start(b);
            let table = section_table_start(b);
            &&& img.header.machine_code == le16(b, nt + 4)
            &&& img.header.machine == machine_of(le16(b, nt + 4))
            &&& img.header.number_of_sections == le16(b, nt + 6)
            &&& img.sections.len() == img.header.number_of_sections
            &&& table + 40 * img.sections.len() <= b.len()
            &&& forall|i: int|
                0 <= i < img.sections.len() ==> {
                    let s = #[trigger] img.sections[i];
                    &&& s.name == b.subrange(table + 40 * i, table + 40 * i + 8)
                    &&& s.virtual_size == le32(b, table + 40 * i + 8)
                    &&& s.virtual_address == le32(b, table + 40 * i + 12)
                    &&& s.size_of_raw_data == le32(b, table + 40 * i + 16)
                    &&& s.pointer_to_raw_data == le32(b, table + 40 * i + 20)
                }
        }),
{
    reveal(parse_spec);
}


/// A successful read holds the declared number of records, all inside the buffer.
pub proof fn lemma_section_count(b: Seq<u8>)
    requires
        parse_spec(b) is Ok,
    ensures
        parse_spec(b)->Ok_0.sections.len() == parse_spec(b)->Ok_0.header.number_of_sections,
        0 <= section_table_start(b),
        section_table_start(b) + 40 * parse_spec(b)->Ok_0.header.number_of_sections <= b.len(),
{
    reveal(parse_spec);
}

/// Record `i` of a successfully read section table is the 40 bytes at its place.
pub proof fn lemma_section_record(b: Seq<u8>, i: int)
    requires
        parse_spec(b) is Ok,
        0 <= i < parse_spec(b)->Ok_0.header.number_of_sections,
    ensures
        parse_spec(b)->Ok_0.sections.len() == parse_spec(b)->Ok_0.header.number_of_sections,
        parse_spec(b)->Ok_0.sections[i] == section_at(b, section_table_start(b) + 40 * i),
{
    reveal(parse_spec);
}

} // verus!
