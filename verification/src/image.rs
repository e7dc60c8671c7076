//! Locating the registry section inside an executable image.
//!
//! The compiled program carries, in a dedicated section of its own binary
//! image, a tightly packed array of pointer-sized slots, one per
//! participating type.  This module parses the image's header bytes — DOS
//! header, NT header, then the section table — and returns the virtual
//! address and byte size of that section.  It also performs the collector's
//! size-integrity check: the section's byte size must be an exact multiple
//! of one slot's size.
//!
//! Everything here works on a byte slice holding a prefix of the loaded
//! image; reading the running process's memory to obtain those bytes is the
//! unverified shell's business.

use vstd::prelude::*;

verus! {

/// Byte length of the DOS header (through the offset-to-NT-header field).
pub const DOS_HEADER_LEN: usize = 64;

/// Byte offset, within the DOS header, of the offset to the NT header.
pub const NT_OFFSET_FIELD: usize = 60;

/// Byte length of the NT file header.
pub const NT_HEADER_LEN: usize = 24;

/// Byte length of one section-table entry.
pub const SECTION_ENTRY_LEN: usize = 40;

/// Width of the fixed, null-padded name field of a section-table entry.
pub const SECTION_NAME_LEN: usize = 8;

/// The well-known name of the registry section, `.memex`, as bytes.  It is
/// short enough to fit the fixed-width name field without truncation.
pub open spec fn registry_section_name() -> Seq<u8> {
    seq![0x2Eu8, 0x6Du8, 0x65u8, 0x6Du8, 0x65u8, 0x78u8]
}

/// The little-endian 16-bit value stored at byte offset `off`.
pub open spec fn le16(s: Seq<u8>, off: int) -> int
    recommends
        0 <= off,
        off + 2 <= s.len(),
{
    s[off] + 0x100 * s[off + 1]
}

/// The little-endian 32-bit value stored at byte offset `off`.
pub open spec fn le32(s: Seq<u8>, off: int) -> int
    recommends
        0 <= off,
        off + 4 <= s.len(),
{
    s[off] + 0x100 * s[off + 1] + 0x10000 * s[off + 2] + 0x1000000 * s[off + 3]
}

/// The DOS header is present and carries its `MZ` magic.
pub open spec fn dos_magic_ok(s: Seq<u8>) -> bool {
    s.len() >= DOS_HEADER_LEN && s[0] == 0x4Du8 && s[1] == 0x5Au8
}

/// Byte offset of the NT header, read from the DOS header.
pub open spec fn nt_off(s: Seq<u8>) -> int {
    le32(s, NT_OFFSET_FIELD as int)
}

/// The NT header lies within the image bytes.
pub open spec fn nt_fits(s: Seq<u8>) -> bool {
    nt_off(s) + NT_HEADER_LEN <= s.len()
}

/// The NT header carries its `PE\0\0` magic.
pub open spec fn nt_magic_ok(s: Seq<u8>) -> bool {
    le32(s, nt_off(s)) == 0x4550
}

/// Number of entries in the section table, read from the NT header.
pub open spec fn num_sections(s: Seq<u8>) -> int {
    le16(s, nt_off(s) + 6)
}

/// Byte size of the optional header block, read from the NT header.
pub open spec fn opt_header_size(s: Seq<u8>) -> int {
    le16(s, nt_off(s) + 20)
}

/// Byte offset of the section table, which immediately follows the
/// optional header.
pub open spec fn section_table_off(s: Seq<u8>) -> int {
    nt_off(s) + NT_HEADER_LEN + opt_header_size(s)
}

/// The whole section table lies within the image bytes.
pub open spec fn section_table_fits(s: Seq<u8>) -> bool {
    section_table_off(s) + SECTION_ENTRY_LEN * num_sections(s) <= s.len()
}

/// All header structures are present and carry their magic values.
pub open spec fn headers_ok(s: Seq<u8>) -> bool {
    dos_magic_ok(s) && nt_fits(s) && nt_magic_ok(s) && section_table_fits(s)
}

/// Byte offset of section-table entry `i`.
pub open spec fn section_entry_off(s: Seq<u8>, i: int) -> int {
    section_table_off(s) + SECTION_ENTRY_LEN * i
}

/// A fixed-width section name, cut at the first null byte or at the full
/// width, whichever comes first.
pub open spec fn trim_nul(name: Seq<u8>) -> Seq<u8>
    decreases name.len(),
{
    if name.len() == 0 {
        name
    } else if name[0] == 0 {
        Seq::empty()
    } else {
        seq![name[0]] + trim_nul(name.drop_first())
    }
}

/// The trimmed name stored at byte offset `off`.
pub open spec fn name_at(s: Seq<u8>, off: int) -> Seq<u8>
    recommends
        0 <= off,
        off + SECTION_NAME_LEN <= s.len(),
{
    trim_nul(s.subrange(off, off + SECTION_NAME_LEN))
}

/// Section-table entry `i` is named after the registry section.
pub open spec fn is_registry_entry(s: Seq<u8>, i: int) -> bool {
    name_at(s, section_entry_off(s, i)) == registry_section_name()
}

/// Some section-table entry is named after the registry section.
pub open spec fn has_registry_entry(s: Seq<u8>) -> bool {
    exists|i: int| 0 <= i < num_sections(s) && is_registry_entry(s, i)
}

/// Entry `i` is the first section-table entry named after the registry
/// section.
pub open spec fn is_first_registry_entry(s: Seq<u8>, i: int) -> bool {
    &&& 0 <= i < num_sections(s)
    &&& is_registry_entry(s, i)
    &&& forall|j: int| 0 <= j < i ==> !is_registry_entry(s, j)
}

/// Index of the first section-table entry named after the registry
/// section.
pub open spec fn registry_entry(s: Seq<u8>) -> int {
    choose|i: int| is_first_registry_entry(s, i)
}

/// Virtual size of section-table entry `i`.
pub open spec fn section_vmsize(s: Seq<u8>, i: int) -> int {
    le32(s, section_entry_off(s, i) + 8)
}

/// Base-relative virtual address of section-table entry `i`.
pub open spec fn section_vmaddr(s: Seq<u8>, i: int) -> int {
    le32(s, section_entry_off(s, i) + 12)
}

/// Where the registry section lives at runtime: its base-relative virtual
/// address and its byte size, as recorded in the section table.
#[derive(Clone, Copy, Debug, PartialEq, Eq, Structural)]
pub struct SectionInfo {
    pub vmaddr: u32,
    pub vmsize: u32,
}

/// Why the registry section could not be located or used.  Every one of
/// these is fatal to registry construction: the binary's own structure
/// cannot be trusted, or the build lacks the reflection mechanism.
#[derive(Clone, Copy, Debug, PartialEq, Eq, Structural)]
pub enum ImageError {
    /// The image bytes end before the DOS or NT header does.
    HeaderTooShort,
    /// The DOS header does not carry the `MZ` magic.
    BadDosMagic,
    /// The NT header does not carry the `PE\0\0` magic.
    BadNtMagic,
    /// The section table reaches past the end of the image bytes.
    TruncatedSectionTable,
    /// No section-table entry is named after the registry section.
    SectionNotFound,
    /// The registry section's byte size is not a multiple of the
    /// pointer-slot size.
    SectionSizeNotMultiple,
}

/// Everything `trim_nul` gives back: a prefix of the name, free of null
/// bytes, cut exactly at the first null byte when there is one.
proof fn lemma_trim_nul(name: Seq<u8>)
    ensures
        trim_nul(name).len() <= name.len(),
        forall|j: int|
            0 <= j < trim_nul(name).len() ==> trim_nul(name)[j] == name[j] && name[j] != 0,
        trim_nul(name).len() < name.len() ==> name[trim_nul(name).len() as int] == 0,
    decreases name.len(),
{
    if name.len() == 0 {
    } else if name[0] == 0 {
    } else {
        lemma_trim_nul(name.drop_first());
        assert forall|j: int| 0 <= j < trim_nul(name).len() implies trim_nul(name)[j] == name[j]
            && name[j] != 0 by {
            if j > 0 {
                assert(trim_nul(name)[j] == trim_nul(name.drop_first())[j - 1]);
                assert(name.drop_first()[j - 1] == name[j]);
            }
        }
    }
}

/// Reads the little-endian 16-bit value at byte offset `off`.
fn read_u16_le(b: &[u8], off: usize) -> (r: u16)
    requires
        off + 2 <= b@.len(),
    ensures
        r as int == le16(b@, off as int),
{
    (b[off] as u16) + (b[off + 1] as u16) * 0x100
}

/// Reads the little-endian 32-bit value at byte offset `off`.
fn read_u32_le(b: &[u8], off: usize) -> (r: u32)
    requires
        off + 4 <= b@.len(),
    ensures
        r as int == le32(b@, off as int),
{
    (b[off] as u32) + (b[off + 1] as u32) * 0x100 + (b[off + 2] as u32) * 0x10000 + (b[off + 3]
        as u32) * 0x1000000
}

/// Decides whether the fixed-width name at byte offset `off` reads as the
/// registry section's name once cut at the first null byte.
fn name_matches_registry(b: &[u8], off: usize) -> (r: bool)
    requires
        off + SECTION_NAME_LEN <= b@.len(),
    ensures
        r == (name_at(b@, off as int) == registry_section_name()),
{
    let r = b[off] == 0x2E && b[off + 1] == 0x6D && b[off + 2] == 0x65 && b[off + 3] == 0x6D
        && b[off + 4] == 0x65 && b[off + 5] == 0x78 && b[off + 6] == 0;
    proof {
        let name = b@.subrange(off as int, off as int + SECTION_NAME_LEN);
        let t = trim_nul(name);
        let target = registry_section_name();
        lemma_trim_nul(name);
        assert(target.len() == 6);
        assert(target[0] == 0x2Eu8 && target[1] == 0x6Du8 && target[2] == 0x65u8 && target[3]
            == 0x6Du8 && target[4] == 0x65u8 && target[5] == 0x78u8);
        assert(name.len() == 8);
        assert(forall|j: int| 0 <= j < 8 ==> name[j] == b@[off + j]);
        if r {
            assert(t.len() == 6) by {
                if t.len() < 6 {
                    assert(name[t.len() as int] == 0);
                } else if t.len() > 6 {
                    assert(t[6] == name[6] && name[6] != 0);
                }
            }
            assert(forall|j: int| 0 <= j < 6 ==> t[j] == name[j]);
            assert(t =~= target);
        } else {
            if t == target {
                assert(t.len() == 6);
                assert(forall|j: int| 0 <= j < 6 ==> t[j] == name[j] && name[j] != 0);
                assert(name[0] == 0x2Eu8 && name[1] == 0x6Du8 && name[2] == 0x65u8 && name[3]
                    == 0x6Du8 && name[4] == 0x65u8 && name[5] == 0x78u8);
                assert(name[6] == 0) by {
                    assert(t.len() < name.len());
                }
                assert(false);
            }
        }
    }
    r
}

/// Walks the executable-image header in `image` — DOS header, NT header,
/// section table — and returns the virtual address and size of the first
/// section named after the registry section.
///
/// The result is `Ok` exactly when both headers are present with their
/// magic values, the whole section table lies within `image`, and some
/// entry carries the registry section's name; each failure names the first
/// check, in parsing order, that went wrong.
pub fn find_registry_section(image: &[u8]) -> (r: Result<SectionInfo, ImageError>)
    ensures
        r is Ok <==> headers_ok(image@) && has_registry_entry(image@),
        r matches Ok(info) ==> {
            &&& is_first_registry_entry(image@, registry_entry(image@))
            &&& info.vmaddr as int == section_vmaddr(image@, registry_entry(image@))
            &&& info.vmsize as int == section_vmsize(image@, registry_entry(image@))
        },
        r == Err::<SectionInfo, ImageError>(ImageError::HeaderTooShort) <==> image@.len()
            < DOS_HEADER_LEN || (dos_magic_ok(image@) && !nt_fits(image@)),
        r == Err::<SectionInfo, ImageError>(ImageError::BadDosMagic) <==> image@.len()
            >= DOS_HEADER_LEN && !(image@[0] == 0x4Du8 && image@[1] == 0x5Au8),
        r == Err::<SectionInfo, ImageError>(ImageError::BadNtMagic) <==> dos_magic_ok(image@)
            && nt_fits(image@) && !nt_magic_ok(image@),
        r == Err::<SectionInfo, ImageError>(ImageError::TruncatedSectionTable) <==> dos_magic_ok(
            image@,
        ) && nt_fits(image@) && nt_magic_ok(image@) && !section_table_fits(image@),
        r == Err::<SectionInfo, ImageError>(ImageError::SectionNotFound) <==> headers_ok(image@)
            && !has_registry_entry(image@),
{
    let n = image.len();
    if n < DOS_HEADER_LEN {
        return Err(ImageError::HeaderTooShort);
    }
    if !(image[0] == 0x4D && image[1] == 0x5A) {
        return Err(ImageError::BadDosMagic);
    }
    let e_lfanew = read_u32_le(image, NT_OFFSET_FIELD);
    let nt: usize = e_lfanew as usize;
    if nt > n - NT_HEADER_LEN {
        return Err(ImageError::HeaderTooShort);
    }
    let magic = read_u32_le(image, nt);
    if magic != 0x4550 {
        return Err(ImageError::BadNtMagic);
    }
    let nsects = read_u16_le(image, nt + 6);
    let optsize = read_u16_le(image, nt + 20);
    let avail = n - nt - NT_HEADER_LEN;
    if optsize as usize > avail {
        return Err(ImageError::TruncatedSectionTable);
    }
    let table = nt + NT_HEADER_LEN + optsize as usize;
    if (nsects as usize) * SECTION_ENTRY_LEN > n - table {
        return Err(ImageError::TruncatedSectionTable);
    }
    let count = nsects as usize;
    let mut i: usize = 0;
    while i < count
        invariant
            headers_ok(image@),
            n == image@.len(),
            table as int == section_table_off(image@),
            count as int == num_sections(image@),
            table + SECTION_ENTRY_LEN * count <= n,
            i <= count,
            forall|j: int| 0 <= j < i ==> !is_registry_entry(image@, j),
        decreases count - i,
    {
        let entry = table + SECTION_ENTRY_LEN * i;
        proof {
            assert(entry as int == section_entry_off(image@, i as int));
            assert(SECTION_ENTRY_LEN * i + SECTION_ENTRY_LEN <= SECTION_ENTRY_LEN * count) by (nonlinear_arith)
                requires
                    i < count,
            ;
        }
        if name_matches_registry(image, entry) {
            let vmsize = read_u32_le(image, entry + 8);
            let vmaddr = read_u32_le(image, entry + 12);
            proof {
                assert(is_first_registry_entry(image@, i as int));
                let k = registry_entry(image@);
                assert(is_first_registry_entry(image@, k));
                if k < i {
                    assert(is_registry_entry(image@, k));
                    assert(false);
                } else if k > i {
                    assert(!is_registry_entry(image@, i as int));
                    assert(false);
                }
            }
            return Ok(SectionInfo { vmaddr, vmsize });
        }
        i = i + 1;
    }
    Err(ImageError::SectionNotFound)
}

/// Locates the registry section and counts its pointer slots in one step:
/// the base-relative virtual address of the section together with how many
/// packed slots of `slot_size` bytes it holds.
///
/// Combines [`find_registry_section`] with the size-integrity check of
/// [`slot_count`]: a located section whose byte size is not an exact
/// multiple of the slot size is a corrupted or foreign section, never
/// silently truncated.
pub fn locate_registry(image: &[u8], slot_size: usize) -> (r: Result<(u32, usize), ImageError>)
    requires
        slot_size > 0,
    ensures
        r is Ok <==> headers_ok(image@) && has_registry_entry(image@) && section_vmsize(
            image@,
            registry_entry(image@),
        ) % slot_size as int == 0,
        r matches Ok(p) ==> {
            &&& p.0 as int == section_vmaddr(image@, registry_entry(image@))
            &&& p.1 == section_vmsize(image@, registry_entry(image@)) / slot_size as int
        },
        r == Err::<(u32, usize), ImageError>(ImageError::SectionSizeNotMultiple) <==> headers_ok(
            image@,
        ) && has_registry_entry(image@) && section_vmsize(image@, registry_entry(image@))
            % slot_size as int != 0,
        r == Err::<(u32, usize), ImageError>(ImageError::HeaderTooShort) <==> image@.len()
            < DOS_HEADER_LEN || (dos_magic_ok(image@) && !nt_fits(image@)),
        r == Err::<(u32, usize), ImageError>(ImageError::BadDosMagic) <==> image@.len()
            >= DOS_HEADER_LEN && !(image@[0] == 0x4Du8 && image@[1] == 0x5Au8),
        r == Err::<(u32, usize), ImageError>(ImageError::BadNtMagic) <==> dos_magic_ok(image@)
            && nt_fits(image@) && !nt_magic_ok(image@),
        r == Err::<(u32, usize), ImageError>(ImageError::TruncatedSectionTable) <==> dos_magic_ok(
            image@,
        ) && nt_fits(image@) && nt_magic_ok(image@) && !section_table_fits(image@),
        r == Err::<(u32, usize), ImageError>(ImageError::SectionNotFound) <==> headers_ok(image@)
            && !has_registry_entry(image@),
{
    match find_registry_section(image) {
        Err(e) => Err(e),
        Ok(info) => match slot_count(info.vmsize as usize, slot_size) {
            Err(e) => Err(e),
            Ok(count) => Ok((info.vmaddr, count)),
        },
    }
}

/// The collector's size-integrity check: a registry section of
/// `section_size` bytes holds exactly `section_size / slot_size` packed
/// pointer slots, and anything short of an exact multiple marks a
/// corrupted or foreign section.
pub fn slot_count(section_size: usize, slot_size: usize) -> (r: Result<usize, ImageError>)
    requires
        slot_size > 0,
    ensures
        r is Ok <==> section_size as int % slot_size as int == 0,
        r matches Ok(count) ==> count == section_size as int / slot_size as int,
        r is Err ==> r == Err::<usize, ImageError>(ImageError::SectionSizeNotMultiple),
{
    if section_size % slot_size == 0 {
        Ok(section_size / slot_size)
    } else {
        Err(ImageError::SectionSizeNotMultiple)
    }
}

} // verus!
