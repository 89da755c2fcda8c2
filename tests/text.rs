use scannedpdf::text::{dec_len, encode_unicode_string, push_dec, push_dec_padded, push_str};

#[test]
fn title_ascii() {
    assert_eq!(encode_unicode_string("A"), vec![0xFE, 0xFF, 0x00, 0x41]);
    assert_eq!(encode_unicode_string(""), vec![0xFE, 0xFF]);
}

#[test]
fn title_multibyte() {
    assert_eq!(encode_unicode_string("\u{e9}"), vec![0xFE, 0xFF, 0x00, 0xE9]);
    assert_eq!(
        encode_unicode_string("\u{6d4b}\u{8bd5}"),
        vec![0xFE, 0xFF, 0x6D, 0x4B, 0x8B, 0xD5]
    );
}

#[test]
fn title_surrogate_pair() {
    assert_eq!(
        encode_unicode_string("\u{1F600}"),
        vec![0xFE, 0xFF, 0xD8, 0x3D, 0xDE, 0x00]
    );
    let s = "a\u{10FFFF}\u{FFFF}";
    let mut expected = vec![0xFE, 0xFF];
    for u in s.encode_utf16() {
        expected.push((u >> 8) as u8);
        expected.push(u as u8);
    }
    assert_eq!(encode_unicode_string(s), expected);
}

#[test]
fn decimal_numbers() {
    let mut v = Vec::new();
    push_dec(&mut v, 0);
    push_str(&mut v, " ");
    push_dec(&mut v, 1234567);
    assert_eq!(v, b"0 1234567".to_vec());
    assert_eq!(dec_len(0), 1);
    assert_eq!(dec_len(99), 2);
    assert_eq!(dec_len(100), 3);
}

#[test]
fn padded_numbers() {
    let mut v = Vec::new();
    push_dec_padded(&mut v, 915, 10);
    assert_eq!(v, b"0000000915".to_vec());
    let mut v = Vec::new();
    push_dec_padded(&mut v, 12345678901, 10);
    assert_eq!(v, b"12345678901".to_vec());
}
