use reflect::image::{find_registry_section, locate_registry, slot_count, ImageError, SectionInfo};

fn put_u32(buf: &mut Vec<u8>, off: usize, v: u32) {
    buf[off] = (v & 0xFF) as u8;
    buf[off + 1] = ((v >> 8) & 0xFF) as u8;
    buf[off + 2] = ((v >> 16) & 0xFF) as u8;
    buf[off + 3] = ((v >> 24) & 0xFF) as u8;
}

fn put_u16(buf: &mut Vec<u8>, off: usize, v: u16) {
    buf[off] = (v & 0xFF) as u8;
    buf[off + 1] = ((v >> 8) & 0xFF) as u8;
}

/// Builds a minimal executable image prefix: DOS header, NT header at
/// `e_lfanew`, an optional header of `optsize` zero bytes, then one
/// 40-byte section-table entry per given (name, vmsize, vmaddr) triple.
fn build_image(e_lfanew: u32, optsize: u16, sections: &[([u8; 8], u32, u32)]) -> Vec<u8> {
    let nt = e_lfanew as usize;
    let table = nt + 24 + optsize as usize;
    let mut buf = vec![0u8; table + 40 * sections.len()];
    buf[0] = 0x4D; // 'M'
    buf[1] = 0x5A; // 'Z'
    put_u32(&mut buf, 60, e_lfanew);
    put_u32(&mut buf, nt, 0x4550); // "PE\0\0"
    put_u16(&mut buf, nt + 6, sections.len() as u16);
    put_u16(&mut buf, nt + 20, optsize);
    for (i, (name, vmsize, vmaddr)) in sections.iter().enumerate() {
        let entry = table + 40 * i;
        buf[entry..entry + 8].copy_from_slice(name);
        put_u32(&mut buf, entry + 8, *vmsize);
        put_u32(&mut buf, entry + 12, *vmaddr);
    }
    buf
}

#[test]
fn finds_registry_section_among_others() {
    let img = build_image(
        0x80,
        0xF0,
        &[
            (*b".text\0\0\0", 0x1000, 0x1000),
            (*b".memex\0\0", 24, 0x3000),
            (*b".data\0\0\0", 0x200, 0x4000),
        ],
    );
    let info = find_registry_section(&img).unwrap();
    assert_eq!(info, SectionInfo { vmaddr: 0x3000, vmsize: 24 });
}

#[test]
fn name_is_cut_at_first_null_byte() {
    // Junk after the terminating null byte does not matter; a longer name
    // that merely starts with the registry name does not match.
    let img = build_image(
        64,
        0,
        &[(*b".memexxx", 1, 2), (*b".memex\0Z", 16, 0x2000)],
    );
    let info = find_registry_section(&img).unwrap();
    assert_eq!(info, SectionInfo { vmaddr: 0x2000, vmsize: 16 });
}

#[test]
fn first_matching_entry_wins() {
    let img = build_image(
        64,
        0,
        &[(*b".memex\0\0", 8, 0x1000), (*b".memex\0\0", 16, 0x2000)],
    );
    let info = find_registry_section(&img).unwrap();
    assert_eq!(info, SectionInfo { vmaddr: 0x1000, vmsize: 8 });
}

#[test]
fn image_shorter_than_dos_header_is_rejected() {
    let img = vec![0x4D, 0x5A, 0x00];
    assert_eq!(find_registry_section(&img), Err(ImageError::HeaderTooShort));
}

#[test]
fn wrong_dos_magic_is_rejected() {
    let mut img = build_image(64, 0, &[(*b".memex\0\0", 8, 0x1000)]);
    img[1] = b'X';
    assert_eq!(find_registry_section(&img), Err(ImageError::BadDosMagic));
}

#[test]
fn nt_header_past_end_is_rejected() {
    let mut img = build_image(64, 0, &[(*b".memex\0\0", 8, 0x1000)]);
    put_u32(&mut img, 60, 0x10000);
    assert_eq!(find_registry_section(&img), Err(ImageError::HeaderTooShort));
}

#[test]
fn wrong_nt_magic_is_rejected() {
    let mut img = build_image(64, 0, &[(*b".memex\0\0", 8, 0x1000)]);
    put_u32(&mut img, 64, 0x4551);
    assert_eq!(find_registry_section(&img), Err(ImageError::BadNtMagic));
}

#[test]
fn truncated_section_table_is_rejected() {
    let mut img = build_image(64, 0, &[(*b".memex\0\0", 8, 0x1000)]);
    img.truncate(img.len() - 1);
    assert_eq!(
        find_registry_section(&img),
        Err(ImageError::TruncatedSectionTable)
    );
}

#[test]
fn missing_registry_section_is_rejected() {
    let img = build_image(64, 0, &[(*b".text\0\0\0", 8, 0x1000), (*b".data\0\0\0", 8, 0x2000)]);
    assert_eq!(find_registry_section(&img), Err(ImageError::SectionNotFound));
}

#[test]
fn locate_registry_returns_address_and_slot_count() {
    let img = build_image(64, 16, &[(*b".memex\0\0", 24, 0x3000)]);
    assert_eq!(locate_registry(&img, 8), Ok((0x3000, 3)));
}

#[test]
fn locate_registry_rejects_unaligned_section_size() {
    // The section is found, but its size is one byte short of a multiple
    // of the slot size: the size-integrity check must fail loudly.
    let img = build_image(64, 16, &[(*b".memex\0\0", 23, 0x3000)]);
    assert_eq!(
        locate_registry(&img, 8),
        Err(ImageError::SectionSizeNotMultiple)
    );
    let absent = build_image(64, 16, &[(*b".text\0\0\0", 23, 0x3000)]);
    assert_eq!(locate_registry(&absent, 8), Err(ImageError::SectionNotFound));
}

#[test]
fn slot_count_divides_exact_multiples() {
    assert_eq!(slot_count(0, 8), Ok(0));
    assert_eq!(slot_count(32, 8), Ok(4));
    assert_eq!(slot_count(24, 4), Ok(6));
}

#[test]
fn slot_count_rejects_one_byte_short() {
    // One byte short of a multiple of the slot size: a size-integrity
    // error, not a silent truncation of the last slot.
    assert_eq!(slot_count(31, 8), Err(ImageError::SectionSizeNotMultiple));
    assert_eq!(slot_count(33, 8), Err(ImageError::SectionSizeNotMultiple));
}
