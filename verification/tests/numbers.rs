use appointment_flow::decimal::{format_decimal, parse_decimal, push_decimal};
use appointment_flow::le::{push_le, read_le};

#[test]
fn push_le_writes_the_lowest_byte_first() {
    let mut out = vec![9];
    push_le(&mut out, 0x0102_0304, 4);
    assert_eq!(out, vec![9, 4, 3, 2, 1]);
    push_le(&mut out, 0x0102_0304, 2);
    assert_eq!(out, vec![9, 4, 3, 2, 1, 4, 3]);
    push_le(&mut out, 7, 0);
    assert_eq!(out.len(), 7);
    let mut out = Vec::new();
    push_le(&mut out, u64::MAX - 1, 8);
    assert_eq!(out, vec![0xfe, 0xff, 0xff, 0xff, 0xff, 0xff, 0xff, 0xff]);
    assert_eq!(out, (u64::MAX - 1).to_le_bytes());
}

#[test]
fn read_le_reads_what_push_le_wrote() {
    let bytes = [0xaa, 4, 3, 2, 1, 0, 0, 0, 0x80, 0xbb];
    assert_eq!(read_le(&bytes, 1, 4), 0x0102_0304);
    assert_eq!(read_le(&bytes, 1, 8), 0x8000_0000_0102_0304);
    assert_eq!(read_le(&bytes, 0, 1), 0xaa);
    assert_eq!(read_le(&bytes, 3, 0), 0);
    for value in [0u64, 1, 255, 256, 1 << 32, u64::MAX] {
        let mut out = Vec::new();
        push_le(&mut out, value, 8);
        assert_eq!(read_le(&out, 0, 8), value);
    }
}

#[test]
fn decimal_text_of_whole_numbers() {
    assert_eq!(format_decimal(0), "0");
    assert_eq!(format_decimal(7), "7");
    assert_eq!(format_decimal(10), "10");
    assert_eq!(format_decimal(-10), "-10");
    assert_eq!(format_decimal(1234567890), "1234567890");
    let mut text = String::from("id=");
    push_decimal(&mut text, -45);
    assert_eq!(text, "id=-45");
}

#[test]
fn decimal_text_is_read_back() {
    for v in [0i64, 5, -5, 10, 99, -100, 4096, i64::MAX, i64::MIN] {
        assert_eq!(parse_decimal(&format_decimal(v)), Some(v));
    }
    assert_eq!(parse_decimal("+0"), Some(0));
    assert_eq!(parse_decimal("x"), None);
    assert_eq!(parse_decimal(""), None);
    assert_eq!(parse_decimal("18446744073709551616"), None);
}
