//! ELF64 little-endian file headers and section descriptors, parsed straight
//! from a raw byte image.

use vstd::prelude::*;
use crate::le::{u16_le, u32_le, u64_le, read_u16_le, read_u32_le, read_u64_le};

verus! {

/// Section type tag of a symbol-table section.
pub const SHT_SYMTAB: u32 = 2;

/// Section type tag of a string-table section.
pub const SHT_STRTAB: u32 = 3;

/// The fields of the file header that drive section enumeration.
#[derive(Clone, Copy, Debug, PartialEq, Eq, Structural)]
pub struct Header {
    /// Byte offset of the section header table.
    pub shoff: u64,
    /// Size in bytes of one section header entry.
    pub shentsize: u16,
    /// Number of section header entries.
    pub shnum: u16,
}

/// The fields of a section header that the resolver reads.
#[derive(Clone, Copy, Debug, PartialEq, Eq, Structural)]
pub struct Section {
    /// Section type tag (symbol table, string table, or other).
    pub sh_type: u32,
    /// Byte offset of the section contents in the image.
    pub offset: u64,
    /// Byte length of the section contents.
    pub size: u64,
    /// For a symbol-table section: index of its linked string-table section.
    pub link: u32,
}

/// Errors that abort a whole resolution pass.
#[derive(Clone, Copy, Debug, PartialEq, Eq, Structural)]
pub enum ElfError {
    /// The image is not a structurally sound ELF64 little-endian file.
    MalformedHeader,
}

/// The header fields as laid down in the first 64 bytes of the image.
pub open spec fn header_of(b: Seq<u8>) -> Header {
    Header {
        shoff: u64_le(b, 0x28) as u64,
        shentsize: u16_le(b, 0x3a) as u16,
        shnum: u16_le(b, 0x3c) as u16,
    }
}

/// The leading identification bytes name ELF, 64-bit class, little-endian data.
pub open spec fn valid_magic(b: Seq<u8>) -> bool {
    &&& b.len() >= 64
    &&& b[0] == 0x7f
    &&& b[1] == 0x45
    &&& b[2] == 0x4c
    &&& b[3] == 0x46
    &&& b[4] == 2
    &&& b[5] == 1
}

/// The section header table itself lies within the image and uses the ELF64
/// entry size.
pub open spec fn sections_in_bounds(b: Seq<u8>) -> bool {
    let h = header_of(b);
    h.shnum > 0 ==> h.shentsize == 64 && h.shoff + 64 * h.shnum <= b.len()
}

/// The descriptor encoded in the `i`-th section header entry.
pub open spec fn section_of(b: Seq<u8>, i: int) -> Section {
    let base = header_of(b).shoff + 64 * i;
    Section {
        sh_type: u32_le(b, base + 4) as u32,
        offset: u64_le(b, base + 24) as u64,
        size: u64_le(b, base + 32) as u64,
        link: u32_le(b, base + 40) as u32,
    }
}

/// All section descriptors of the image, in table order.
pub open spec fn sections_of(b: Seq<u8>) -> Seq<Section> {
    Seq::new(header_of(b).shnum as nat, |i: int| section_of(b, i))
}

/// The section's byte range lies within an image of `n` bytes.
pub open spec fn section_in_image(s: Section, n: int) -> bool {
    s.offset + s.size <= n
}

/// A structurally sound image: sound header, section table in bounds, and
/// every symbol-table section's contents within the image.
pub open spec fn structurally_valid(b: Seq<u8>) -> bool {
    &&& valid_magic(b)
    &&& sections_in_bounds(b)
    &&& forall|i: int|
        0 <= i < sections_of(b).len() && (#[trigger] sections_of(b)[i]).sh_type == SHT_SYMTAB
            ==> section_in_image(sections_of(b)[i], b.len() as int)
}

/// Checks the identification bytes and reads the section-table fields.
pub fn parse_header(image: &Vec<u8>) -> (r: Result<Header, ElfError>)
    ensures
        match r {
            Ok(h) => valid_magic(image@) && sections_in_bounds(image@) && h == header_of(image@),
            Err(e) => !(valid_magic(image@) && sections_in_bounds(image@)) && e
                == ElfError::MalformedHeader,
        },
{
    if image.len() < 64 {
        return Err(ElfError::MalformedHeader);
    }
    let magic_ok = image[0] == 0x7f && image[1] == 0x45 && image[2] == 0x4c && image[3] == 0x46
        && image[4] == 2 && image[5] == 1;
    if !magic_ok {
        return Err(ElfError::MalformedHeader);
    }
    let shoff = read_u64_le(image, 0x28);
    let shentsize = read_u16_le(image, 0x3a);
    let shnum = read_u16_le(image, 0x3c);
    let h = Header { shoff, shentsize, shnum };
    if shnum > 0 {
        if shentsize != 64 {
            return Err(ElfError::MalformedHeader);
        }
        let need: u64 = 64 * (shnum as u64);
        if shoff > u64::MAX - need {
            return Err(ElfError::MalformedHeader);
        }
        if shoff + need > image.len() as u64 {
            return Err(ElfError::MalformedHeader);
        }
    }
    Ok(h)
}

/// Reads every section descriptor out of the section header table.
pub fn parse_sections(image: &Vec<u8>, h: Header) -> (r: Vec<Section>)
    requires
        valid_magic(image@),
        sections_in_bounds(image@),
        h == header_of(image@),
    ensures
        r@ == sections_of(image@),
{
    let n = h.shnum as usize;
    let mut out: Vec<Section> = Vec::new();
    for i in 0..n
        invariant
            n == header_of(image@).shnum,
            valid_magic(image@),
            sections_in_bounds(image@),
            h == header_of(image@),
            out@.len() == i,
            forall|k: int| 0 <= k < i ==> out@[k] == section_of(image@, k),
    {
        let n_img = image.len();
        assert(h.shoff + 64 * h.shnum <= n_img);
        assert(64 * i + 64 <= 64 * h.shnum) by (nonlinear_arith)
            requires i < h.shnum as int,
        ;
        assert(h.shoff + 64 * i + 64 <= n_img);
        let base = (h.shoff as usize) + 64 * i;
        let sh_type = read_u32_le(image, base + 4);
        let offset = read_u64_le(image, base + 24);
        let size = read_u64_le(image, base + 32);
        let link = read_u32_le(image, base + 40);
        out.push(Section { sh_type, offset, size, link });
    }
    proof {
        assert(out@ =~= sections_of(image@));
    }
    out
}

} // verus!
