use elfview::elf::ElfError;
use elfview::resolver::{lookup_in_table, resolve_symbol_names, Resolution};

/// Builds an ELF64 little-endian image from `(sh_type, link, contents)`
/// section descriptions: contents first, then the section header table.
fn build_image(secs: &[(u32, u32, Vec<u8>)]) -> Vec<u8> {
    let mut img = vec![0u8; 64];
    img[0] = 0x7f;
    img[1] = 0x45;
    img[2] = 0x4c;
    img[3] = 0x46;
    img[4] = 2;
    img[5] = 1;
    img[6] = 1;
    let mut offsets = Vec::new();
    for (_, _, data) in secs {
        offsets.push(img.len() as u64);
        img.extend_from_slice(data);
    }
    let shoff = img.len() as u64;
    for (i, (ty, link, data)) in secs.iter().enumerate() {
        let mut sh = [0u8; 64];
        sh[4..8].copy_from_slice(&ty.to_le_bytes());
        sh[24..32].copy_from_slice(&offsets[i].to_le_bytes());
        sh[32..40].copy_from_slice(&(data.len() as u64).to_le_bytes());
        sh[40..44].copy_from_slice(&link.to_le_bytes());
        img.extend_from_slice(&sh);
    }
    img[0x28..0x30].copy_from_slice(&shoff.to_le_bytes());
    img[0x3a..0x3c].copy_from_slice(&64u16.to_le_bytes());
    img[0x3c..0x3e].copy_from_slice(&(secs.len() as u16).to_le_bytes());
    img
}

fn sym_entry(name_offset: u32, value: u64) -> Vec<u8> {
    let mut e = vec![0u8; 24];
    e[0..4].copy_from_slice(&name_offset.to_le_bytes());
    e[8..16].copy_from_slice(&value.to_le_bytes());
    e
}

fn resolved(table_index: u32, offset: u32, text: &str) -> Resolution {
    Resolution::Resolved {
        table_index,
        offset,
        text: String::from(text),
    }
}

#[test]
fn two_entries_resolve_in_order() {
    let strtab = b"\0foo\0bar\0".to_vec();
    let mut symtab = sym_entry(0, 0);
    symtab.extend(sym_entry(1, 0));
    let img = build_image(&[(2, 1, symtab), (3, 0, strtab)]);
    let out = resolve_symbol_names(&img).unwrap();
    assert_eq!(out, vec![resolved(1, 0, ""), resolved(1, 1, "foo")]);
}

#[test]
fn offset_on_a_terminator_yields_empty_text() {
    let strtab = b"\0foo\0bar\0".to_vec();
    let mut symtab = sym_entry(0, 0);
    symtab.extend(sym_entry(4, 0));
    let img = build_image(&[(2, 1, symtab), (3, 0, strtab)]);
    let out = resolve_symbol_names(&img).unwrap();
    assert_eq!(out, vec![resolved(1, 0, ""), resolved(1, 4, "")]);
}

#[test]
fn offset_equal_to_table_length_is_out_of_range() {
    let strtab = b"\0foo\0".to_vec();
    let symtab = sym_entry(5, 0);
    let img = build_image(&[(2, 1, symtab), (3, 0, strtab)]);
    let out = resolve_symbol_names(&img).unwrap();
    assert_eq!(
        out,
        vec![Resolution::OffsetOutOfRange {
            table_index: 1,
            offset: 5
        }]
    );
}

#[test]
fn offset_past_table_length_is_out_of_range() {
    let out = lookup_in_table(&b"\0hi\0".to_vec(), 7, 200);
    assert_eq!(
        out,
        Resolution::OffsetOutOfRange {
            table_index: 7,
            offset: 200
        }
    );
}

#[test]
fn each_symbol_table_uses_its_own_linked_table() {
    let strtab = b"\0alpha\0".to_vec();
    let dynstr = b"\0beta\0".to_vec();
    let sym_a = sym_entry(1, 0);
    let sym_b = sym_entry(1, 0);
    let img = build_image(&[(2, 2, sym_a), (3, 0, strtab), (3, 0, dynstr), (2, 1, sym_b)]);
    let out = resolve_symbol_names(&img).unwrap();
    assert_eq!(out, vec![resolved(2, 1, "beta"), resolved(1, 1, "alpha")]);
}

#[test]
fn link_to_a_non_string_table_is_missing() {
    let symtab = sym_entry(0, 0);
    let img = build_image(&[(2, 0, symtab)]);
    let out = resolve_symbol_names(&img).unwrap();
    assert_eq!(out, vec![Resolution::MissingStringTable { table_index: 0 }]);
}

#[test]
fn link_out_of_range_is_missing() {
    let symtab = sym_entry(0, 0);
    let img = build_image(&[(2, 9, symtab)]);
    let out = resolve_symbol_names(&img).unwrap();
    assert_eq!(out, vec![Resolution::MissingStringTable { table_index: 9 }]);
}

#[test]
fn non_utf8_name_surfaces_raw_bytes() {
    let strtab = vec![0u8, 0xff, 0xfe, 0];
    let symtab = sym_entry(1, 0);
    let img = build_image(&[(2, 1, symtab), (3, 0, strtab)]);
    let out = resolve_symbol_names(&img).unwrap();
    assert_eq!(
        out,
        vec![Resolution::NonUtf8 {
            table_index: 1,
            offset: 1,
            bytes: vec![0xff, 0xfe]
        }]
    );
}

#[test]
fn name_without_terminator_runs_to_table_end() {
    let out = lookup_in_table(&b"abc".to_vec(), 0, 0);
    assert_eq!(out, resolved(0, 0, "abc"));
}

#[test]
fn written_name_reads_back_exactly() {
    let mut strtab = vec![0u8; 3];
    strtab.extend_from_slice(b"spin_lock_init");
    strtab.push(0);
    let symtab = sym_entry(3, 0x4000);
    let img = build_image(&[(3, 0, strtab), (2, 0, symtab)]);
    let out = resolve_symbol_names(&img).unwrap();
    assert_eq!(out, vec![resolved(0, 3, "spin_lock_init")]);
}

#[test]
fn empty_symbol_table_contributes_nothing() {
    let strtab = b"\0x\0".to_vec();
    let img = build_image(&[(2, 1, Vec::new()), (3, 0, strtab)]);
    let out = resolve_symbol_names(&img).unwrap();
    assert_eq!(out, Vec::new());
}

#[test]
fn image_without_sections_resolves_to_nothing() {
    let img = build_image(&[]);
    let out = resolve_symbol_names(&img).unwrap();
    assert_eq!(out, Vec::new());
}

#[test]
fn non_symbol_sections_are_ignored() {
    let img = build_image(&[(1, 0, b"code".to_vec()), (3, 0, b"\0s\0".to_vec())]);
    let out = resolve_symbol_names(&img).unwrap();
    assert_eq!(out, Vec::new());
}

#[test]
fn bad_magic_is_malformed() {
    let mut img = build_image(&[]);
    img[1] = 0x00;
    assert_eq!(resolve_symbol_names(&img), Err(ElfError::MalformedHeader));
}

#[test]
fn wrong_class_is_malformed() {
    let mut img = build_image(&[]);
    img[4] = 1;
    assert_eq!(resolve_symbol_names(&img), Err(ElfError::MalformedHeader));
}

#[test]
fn big_endian_data_is_malformed() {
    let mut img = build_image(&[]);
    img[5] = 2;
    assert_eq!(resolve_symbol_names(&img), Err(ElfError::MalformedHeader));
}

#[test]
fn short_image_is_malformed() {
    let img = vec![0x7f, 0x45, 0x4c, 0x46];
    assert_eq!(resolve_symbol_names(&img), Err(ElfError::MalformedHeader));
}

#[test]
fn truncated_section_table_is_malformed() {
    let mut img = build_image(&[(3, 0, b"\0s\0".to_vec())]);
    img.truncate(img.len() - 1);
    assert_eq!(resolve_symbol_names(&img), Err(ElfError::MalformedHeader));
}

#[test]
fn linked_table_past_image_end_is_missing() {
    let mut img = build_image(&[(2, 1, sym_entry(0, 0)), (3, 0, b"\0s\0".to_vec())]);
    // Stretch the string-table section's recorded size past the image end.
    let shoff = u64::from_le_bytes(img[0x28..0x30].try_into().unwrap()) as usize;
    img[shoff + 64 + 32..shoff + 64 + 40].copy_from_slice(&(1u64 << 32).to_le_bytes());
    let out = resolve_symbol_names(&img).unwrap();
    assert_eq!(out, vec![Resolution::MissingStringTable { table_index: 1 }]);
}

#[test]
fn sections_without_file_contents_may_record_any_range() {
    let mut img = build_image(&[(8, 0, Vec::new()), (3, 0, b"\0s\0".to_vec())]);
    // A no-bits section may claim a range far past the image end.
    let shoff = u64::from_le_bytes(img[0x28..0x30].try_into().unwrap()) as usize;
    img[shoff + 32..shoff + 40].copy_from_slice(&(1u64 << 40).to_le_bytes());
    assert_eq!(resolve_symbol_names(&img).unwrap(), Vec::new());
}

#[test]
fn symbol_table_past_image_end_is_malformed() {
    let mut img = build_image(&[(2, 1, sym_entry(0, 0)), (3, 0, b"\0s\0".to_vec())]);
    // Stretch the symbol-table section's recorded size past the image end.
    let shoff = u64::from_le_bytes(img[0x28..0x30].try_into().unwrap()) as usize;
    img[shoff + 32..shoff + 40].copy_from_slice(&(1u64 << 32).to_le_bytes());
    assert_eq!(resolve_symbol_names(&img), Err(ElfError::MalformedHeader));
}
