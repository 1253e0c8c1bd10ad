use kernel_core::stack::{format_row, stack_dump_text};

#[test]
fn a_row_shows_address_hex_and_characters() {
    let mut out = Vec::new();
    let bytes: Vec<u8> = (0x41u8..0x51).collect();
    format_row(&mut out, 0x0010_fff0, &bytes);
    assert_eq!(
        String::from_utf8(out).unwrap(),
        "0010fff0: 41 42 43 44 45 46 47 48 49 4a 4b 4c 4d 4e 4f 50  |ABCDEFGHIJKLMNOP|\n"
    );
}

#[test]
fn unprintable_bytes_show_as_dots() {
    let mut out = Vec::new();
    let bytes = [0x00u8, 0x1f, 0x20, 0x7e, 0x7f, 0xff, b'a', b'~', 0x0a, 0x09, 0x80, 0x31, 0x32, 0x33, 0x34, 0x35];
    format_row(&mut out, 0xffff_fff0, &bytes);
    assert_eq!(
        String::from_utf8(out).unwrap(),
        "fffffff0: 00 1f 20 7e 7f ff 61 7e 0a 09 80 31 32 33 34 35  |.. ~..a~...12345|\n"
    );
}

#[test]
fn dump_has_one_line_per_sixteen_bytes() {
    let mem: Vec<u8> = (0u8..40).collect();
    let text = String::from_utf8(stack_dump_text(0x7000, &mem)).unwrap();
    let lines: Vec<&str> = text.lines().collect();
    assert_eq!(lines.len(), 2);
    assert_eq!(lines[0], "00007000: 00 01 02 03 04 05 06 07 08 09 0a 0b 0c 0d 0e 0f  |................|");
    assert_eq!(lines[1], "00007010: 10 11 12 13 14 15 16 17 18 19 1a 1b 1c 1d 1e 1f  |................|");
}

#[test]
fn short_dump_is_empty() {
    assert!(stack_dump_text(0x1000, &[1, 2, 3]).is_empty());
    assert!(stack_dump_text(0, &[]).is_empty());
}

#[test]
fn dump_reaching_the_top_of_memory() {
    let mem = [0xAAu8; 32];
    let text = String::from_utf8(stack_dump_text(0xffff_ffe0, &mem)).unwrap();
    assert!(text.starts_with("ffffffe0: aa aa"));
    assert!(text.contains("\nfffffff0: aa"));
}
