use capstone::arch::x86::ArchMode;
use capstone::arch::BuildsCapstone;
use capstone::{Capstone, InsnGroupId, RegId};
use elfview::disasm::{
    decimal_string, disassembly_lines, format_address, group_names, hex_pad, instruction_line,
    join_names, reg_names, summary_line, InsnRecord,
};

#[test]
fn addresses_are_padded_to_eight_hex_digits() {
    assert_eq!(format_address(0x1180), "0x00001180");
    assert_eq!(format_address(0), "0x00000000");
    assert_eq!(format_address(0xdead_beef), "0xdeadbeef");
}

#[test]
fn long_addresses_keep_all_their_digits() {
    assert_eq!(format_address(0x1_2345_6789), "0x123456789");
    assert_eq!(format_address(u64::MAX), "0xffffffffffffffff");
}

#[test]
fn hex_padding_matches_the_format_width() {
    assert_eq!(hex_pad(0xabc, 8), "00000abc");
    assert_eq!(hex_pad(0xabc, 2), "abc");
    assert_eq!(hex_pad(0, 0), "0");
}

#[test]
fn decimals_print_in_base_ten() {
    assert_eq!(decimal_string(0), "0");
    assert_eq!(decimal_string(1234), "1234");
    assert_eq!(decimal_string(u64::MAX), "18446744073709551615");
}

#[test]
fn summary_counts_the_instructions() {
    assert_eq!(summary_line(74), "Found 74 instructions");
}

#[test]
fn instruction_lines_join_mnemonic_and_operands() {
    assert_eq!(instruction_line("mov", "rax, 1"), "mov rax, 1");
    assert_eq!(instruction_line("nop", ""), "nop ");
}

#[test]
fn pane_lines_mirror_the_records() {
    let records = vec![
        InsnRecord {
            address: 0x1180,
            mnemonic: String::from("push"),
            operands: String::from("rbp"),
        },
        InsnRecord {
            address: 0x1181,
            mnemonic: String::from("nop"),
            operands: String::new(),
        },
    ];
    let (ads, ops) = disassembly_lines(&records);
    assert_eq!(ads, vec![String::from("0x00001180"), String::from("0x00001181")]);
    assert_eq!(ops, vec![String::from("push rbp"), String::from("nop ")]);
}

#[test]
fn joining_no_names_gives_an_empty_list() {
    assert_eq!(join_names(&Vec::new()), "");
}

#[test]
fn joining_names_separates_them_with_commas() {
    assert_eq!(join_names(&vec![String::from("rax")]), "rax");
    assert_eq!(
        join_names(&vec![String::from("rax"), String::from("rbx"), String::from("rcx")]),
        "rax, rbx, rcx"
    );
}

fn x86_handle() -> Capstone {
    Capstone::new()
        .x86()
        .mode(ArchMode::Mode64)
        .build()
        .unwrap()
}

#[test]
fn register_names_come_from_the_disassembler() {
    let cs = x86_handle();
    let ids = [RegId(1), RegId(2)];
    let expected = format!(
        "{}, {}",
        cs.reg_name(RegId(1)).unwrap_or_default(),
        cs.reg_name(RegId(2)).unwrap_or_default()
    );
    assert_eq!(reg_names(&cs, &ids), expected);
    assert_eq!(reg_names(&cs, &[]), "");
}

#[test]
fn group_names_come_from_the_disassembler() {
    let cs = x86_handle();
    let ids = [InsnGroupId(1)];
    let expected = cs.group_name(InsnGroupId(1)).unwrap_or_default();
    assert_eq!(group_names(&cs, &ids), expected);
}

#[test]
fn decoded_instructions_format_like_the_viewer_panes() {
    let cs = x86_handle();
    let code: &[u8] = b"\x55\x90";
    let insns = cs.disasm_all(code, 0x1180).unwrap();
    let mut records = Vec::new();
    for i in insns.as_ref() {
        records.push(InsnRecord {
            address: i.address(),
            mnemonic: String::from(i.mnemonic().unwrap_or_default()),
            operands: String::from(i.op_str().unwrap_or_default()),
        });
    }
    let (ads, ops) = disassembly_lines(&records);
    assert_eq!(ads.len(), records.len());
    for (k, rec) in records.iter().enumerate() {
        assert_eq!(ads[k], format!("{:#010x}", rec.address));
        assert_eq!(ops[k], format!("{} {}", rec.mnemonic, rec.operands));
    }
    assert_eq!(summary_line(records.len() as u64), format!("Found {} instructions", records.len()));
}
