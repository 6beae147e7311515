//! Reading the headers of an ELF file, with the `xmas_elf` parser.
use vstd::prelude::*;

verus! {

/// The fields of an ELF file header that loading reads.
#[derive(Copy, Clone, PartialEq, Eq, Debug, Structural)]
pub struct ElfHeader {
    /// Whether the file is of the 64-bit class.
    pub is_64: bool,
    /// The entry point.
    pub entry_point: u64,
    /// Offset in the file of the program header table.
    pub ph_offset: u64,
    /// Size of one program header.
    pub ph_entry_size: u16,
    /// Number of program headers.
    pub ph_count: u16,
}

/// The kinds of segment that loading tells apart.
#[derive(Copy, Clone, PartialEq, Eq, Debug, Structural)]
pub enum SegmentType {
    /// A segment to load.
    Load,
    /// The path of the program interpreter.
    Interp,
    /// The program header table itself.
    Phdr,
    /// Any other known kind.
    Other,
    /// A kind the parser does not know.
    Invalid,
}

/// The fields of a program header that loading reads.
#[derive(Copy, Clone, PartialEq, Eq, Debug, Structural)]
pub struct ProgramHeaderInfo {
    pub seg_type: SegmentType,
    pub virtual_addr: u64,
    pub mem_size: u64,
    pub offset: u64,
    pub file_size: u64,
    /// The segment flags: execute is bit 0, write bit 1, read bit 2.
    pub flags: u32,
}

/// Segment flag: executable.
pub const FLAG_X: u32 = 0x1;
/// Segment flag: writable.
pub const FLAG_W: u32 = 0x2;
/// Segment flag: readable.
pub const FLAG_R: u32 = 0x4;

impl ProgramHeaderInfo {
    /// Whether the segment is readable.
    pub fn is_read(&self) -> (r: bool)
        ensures
            r == (self.flags & FLAG_R == FLAG_R),
    {
        self.flags & FLAG_R == FLAG_R
    }

    /// Whether the segment is writable.
    pub fn is_write(&self) -> (r: bool)
        ensures
            r == (self.flags & FLAG_W == FLAG_W),
    {
        self.flags & FLAG_W == FLAG_W
    }

    /// Whether the segment is executable.
    pub fn is_execute(&self) -> (r: bool)
        ensures
            r == (self.flags & FLAG_X == FLAG_X),
    {
        self.flags & FLAG_X == FLAG_X
    }
}

/// What `xmas_elf::ElfFile::new` reads from the header at the start of `data`, or `None`
/// when it refuses the bytes.
pub uninterp spec fn elf_header_of(data: Seq<u8>) -> Option<ElfHeader>;

/// The fields that `xmas_elf::ElfFile::program_header` reads from program header `index` of
/// the ELF file `data` (all but its kind), or `None` when it refuses.
pub uninterp spec fn elf_program_header_of(data: Seq<u8>, index: u16) -> Option<(u64, u64, u64, u64, u32)>;

/// The kind that `xmas_elf`'s `ProgramHeader::get_type` reads from program header `index`
/// of the ELF file `data`, or `None` when the header cannot be read.
pub uninterp spec fn elf_segment_type_of(data: Seq<u8>, index: u16) -> Option<SegmentType>;

/// The alignment of a program header struct of `xmas_elf`: 8 bytes in the 64-bit class, 4
/// else.
pub open spec fn ph_align(h: ElfHeader) -> int {
    if h.is_64 {
        8
    } else {
        4
    }
}

/// Whether program header `index` is one that `xmas_elf` reads from `len` bytes without
/// panicking: the parser reads `ph_entry_size` bytes at `ph_offset + index * ph_entry_size`,
/// at least the size of its header struct (56 bytes in the 64-bit class, 32 else), at an
/// offset aligned for that struct (the bytes themselves being handed to it at an aligned
/// address, see below).
pub open spec fn program_header_fits(h: ElfHeader, index: u16, len: nat) -> bool {
    (index < h.ph_count && h.ph_offset > 0 && h.ph_entry_size > 0) ==> {
        &&& h.ph_offset + (index + 1) * h.ph_entry_size <= len
        &&& h.ph_entry_size >= (if h.is_64 {
            56int
        } else {
            32int
        })
        &&& (h.ph_offset + index * h.ph_entry_size) % ph_align(h) == 0
    }
}

/// Parses the header at the start of `data` with `xmas_elf::ElfFile::new` and reads the
/// fields that loading needs. The parser reads its header structs in place and asserts
/// that they are aligned, so the bytes are first copied into storage of 64-bit words
/// (`bytemuck::cast_slice_mut` views it as bytes), which is aligned for every struct.
#[verifier::external_body]
fn parse_elf_header(data: &[u8]) -> (r: Option<ElfHeader>)
    ensures
        r == elf_header_of(data@),
{
    let mut words = vec![0u64; data.len()];
    let bytes: &mut [u8] = bytemuck::cast_slice_mut(&mut words);
    bytes[..data.len()].copy_from_slice(data);
    match xmas_elf::ElfFile::new(&bytes[..data.len()]) {
        Ok(elf) => Some(ElfHeader {
            is_64: matches!(elf.header.pt1.class(), xmas_elf::header::Class::SixtyFour),
            entry_point: elf.header.pt2.entry_point(),
            ph_offset: elf.header.pt2.ph_offset(),
            ph_entry_size: elf.header.pt2.ph_entry_size(),
            ph_count: elf.header.pt2.ph_count(),
        }),
        Err(_) => None,
    }
}

/// Reads program header `index` of the ELF file `data` with
/// `xmas_elf::ElfFile::program_header`: its virtual address, memory size, file offset, file
/// size and flags. The bytes are copied into aligned storage first, as for the header.
#[verifier::external_body]
fn parse_program_header(data: &[u8], index: u16) -> (r: Option<(u64, u64, u64, u64, u32)>)
    requires
        elf_header_of(data@) matches Some(h) ==> program_header_fits(h, index, data@.len()),
    ensures
        r == elf_program_header_of(data@, index),
{
    let mut words = vec![0u64; data.len()];
    let bytes: &mut [u8] = bytemuck::cast_slice_mut(&mut words);
    bytes[..data.len()].copy_from_slice(data);
    match xmas_elf::ElfFile::new(&bytes[..data.len()]).and_then(|elf| elf.program_header(index)) {
        Ok(ph) => Some((ph.virtual_addr(), ph.mem_size(), ph.offset(), ph.file_size(), ph.flags().0)),
        Err(_) => None,
    }
}

/// Reads the kind of program header `index` of the ELF file `data` with
/// `xmas_elf`'s `ProgramHeader::get_type`. The bytes are copied into aligned storage first,
/// as for the header.
#[verifier::external_body]
fn parse_segment_type(data: &[u8], index: u16) -> (r: Option<SegmentType>)
    requires
        elf_header_of(data@) matches Some(h) ==> program_header_fits(h, index, data@.len()),
    ensures
        r == elf_segment_type_of(data@, index),
{
    let mut words = vec![0u64; data.len()];
    let bytes: &mut [u8] = bytemuck::cast_slice_mut(&mut words);
    bytes[..data.len()].copy_from_slice(data);
    match xmas_elf::ElfFile::new(&bytes[..data.len()]).and_then(|elf| elf.program_header(index)).map(|ph| ph.get_type()) {
        Ok(Ok(xmas_elf::program::Type::Load)) => Some(SegmentType::Load),
        Ok(Ok(xmas_elf::program::Type::Interp)) => Some(SegmentType::Interp),
        Ok(Ok(xmas_elf::program::Type::Phdr)) => Some(SegmentType::Phdr),
        Ok(Ok(_)) => Some(SegmentType::Other),
        Ok(Err(_)) => Some(SegmentType::Invalid),
        Err(_) => None,
    }
}

/// The header of the ELF file that starts with `data`, or `None` when the parser refuses it.
pub fn elf_header(data: &[u8]) -> (r: Option<ElfHeader>)
    ensures
        r == elf_header_of(data@),
{
    parse_elf_header(data)
}

/// The program header `index` of `data` as the parser reads it.
pub open spec fn program_header_of(data: Seq<u8>, index: u16) -> Option<ProgramHeaderInfo> {
    match (elf_program_header_of(data, index), elf_segment_type_of(data, index)) {
        (Some(f), Some(t)) => Some(
            ProgramHeaderInfo {
                seg_type: t,
                virtual_addr: f.0,
                mem_size: f.1,
                offset: f.2,
                file_size: f.3,
                flags: f.4,
            },
        ),
        _ => None,
    }
}

/// Reads the header and all the program headers of the ELF file `data` (the file from its
/// start to the end of its program header table). `None` when the parser refuses the
/// header or a program header, or when the table does not lie inside `data` (a fatal error).
pub fn read_elf(data: &[u8]) -> (r: Option<(ElfHeader, Vec<ProgramHeaderInfo>)>)
    ensures
        r matches Some((h, phs)) ==> {
            &&& elf_header_of(data@) == Some(h)
            &&& phs@.len() == h.ph_count
            &&& forall|i: int| 0 <= i < h.ph_count ==> program_header_of(data@, i as u16) == Some(#[trigger] phs@[i])
        },
        r is None ==> elf_header_of(data@) is None || exists|i: u16|
            #![trigger program_header_of(data@, i)]
            i < elf_header_of(data@)->0.ph_count && {
                ||| !program_header_fits(elf_header_of(data@)->0, i, data@.len())
                ||| program_header_of(data@, i) is None
            },
{
    let h = match parse_elf_header(data) {
        Some(h) => h,
        None => {
            return None;
        },
    };
    let mut phs: Vec<ProgramHeaderInfo> = Vec::new();
    let mut i: u16 = 0;
    while i < h.ph_count
        invariant
            elf_header_of(data@) == Some(h),
            phs@.len() == i,
            i <= h.ph_count,
            forall|j: int| 0 <= j < i ==> program_header_of(data@, j as u16) == Some(#[trigger] phs@[j]),
        decreases h.ph_count - i,
    {
        let entry = h.ph_entry_size as u64;
        proof {
            assert((i as u64 + 1) * entry <= 0x1_0000_0000) by (nonlinear_arith)
                requires
                    i < 0x1_0000,
                    entry < 0x1_0000,
            ;
        }
        proof {
            assert((i as u64) * entry <= 0x1_0000_0000 && (i as u64 + 1) * entry == (i as u64) * entry + entry)
                by (nonlinear_arith)
                requires
                    i < 0x1_0000,
                    entry < 0x1_0000,
            ;
        }
        let off: u64 = (i as u64) * entry;
        let need: u64 = off + entry;
        assert(need == (i + 1) * h.ph_entry_size);
        assert(off == i * h.ph_entry_size);
        let fits = if h.ph_offset > 0 && entry > 0 {
            let min: u64 = if h.is_64 {
                56
            } else {
                32
            };
            let align: u64 = if h.is_64 {
                8
            } else {
                4
            };
            h.ph_offset <= u64::MAX - need && h.ph_offset + need <= data.len() as u64 && entry >= min && (
            h.ph_offset + off) % align == 0
        } else {
            true
        };
        if !fits {
            proof {
                assert(data.len() as u64 == data@.len());
                assert(!program_header_fits(h, i, data@.len()));
            }
            return None;
        }
        let fields = parse_program_header(data, i);
        let seg_type = parse_segment_type(data, i);
        match (fields, seg_type) {
            (Some(f), Some(t)) => {
                phs.push(
                    ProgramHeaderInfo {
                        seg_type: t,
                        virtual_addr: f.0,
                        mem_size: f.1,
                        offset: f.2,
                        file_size: f.3,
                        flags: f.4,
                    },
                );
            },
            _ => {
                proof {
                    assert(program_header_of(data@, i) is None);
                }
                return None;
            },
        }
        i = i + 1;
    }
    Some((h, phs))
}

} // verus!
