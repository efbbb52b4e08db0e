use k12::encoding::right_encode;
use k12::KangarooTwelve;

fn from_hex(s: &str) -> Vec<u8> {
    let s: Vec<u8> = s.bytes().filter(|c| !c.is_ascii_whitespace()).collect();
    s.chunks(2)
        .map(|p| u8::from_str_radix(std::str::from_utf8(p).unwrap(), 16).unwrap())
        .collect()
}

fn pattern(len: usize) -> Vec<u8> {
    (0..len).map(|i| (i % 251) as u8).collect()
}

fn k12(message: &[u8], customization: &[u8], len: usize) -> Vec<u8> {
    let mut h = KangarooTwelve::new_with_customization(customization);
    h.update(message);
    let mut out = vec![0u8; len];
    h.finalize_xof().read(&mut out);
    out
}

#[test]
fn right_encode_values() {
    assert_eq!(right_encode(0), vec![0x00]);
    assert_eq!(right_encode(1), vec![0x01, 0x01]);
    assert_eq!(right_encode(255), vec![0xFF, 0x01]);
    assert_eq!(right_encode(256), vec![0x01, 0x00, 0x02]);
    assert_eq!(right_encode(65536), vec![0x01, 0x00, 0x00, 0x03]);
}

#[test]
fn empty_message_32() {
    assert_eq!(
        k12(&[], &[], 32),
        from_hex("1AC2D450FC3B4205D19DA7BFCA1B37513C0803577AC7167F06FE2CE1F0EF39E5")
    );
}

#[test]
fn empty_message_64() {
    assert_eq!(
        k12(&[], &[], 64),
        from_hex(
            "1AC2D450FC3B4205D19DA7BFCA1B37513C0803577AC7167F06FE2CE1F0EF39E5
             4269C056B8C82E48276038B6D292966CC07A3D4645272E31FF38508139EB0A71"
        )
    );
}

#[test]
fn pattern_1() {
    assert_eq!(
        k12(&pattern(1), &[], 32),
        from_hex("2BDA92450E8B147F8A7CB629E784A058EFCA7CF7D8218E02D345DFAA65244A1F")
    );
}

#[test]
fn pattern_17() {
    assert_eq!(
        k12(&pattern(17), &[], 32),
        from_hex("6BF75FA2239198DB4772E36478F8E19B0F371205F6A9A93A273F51DF37122888")
    );
}

#[test]
fn pattern_17_pow_2() {
    assert_eq!(
        k12(&pattern(289), &[], 32),
        from_hex("0C315EBCDEDBF61426DE7DCF8FB725D1E74675D7F5327A5067F367B108ECB67C")
    );
}

#[test]
fn pattern_17_pow_3() {
    assert_eq!(
        k12(&pattern(4913), &[], 32),
        from_hex("CB552E2EC77D9910701D578B457DDF772C12E322E4EE7FE417F92C758F0D59D0")
    );
}

#[test]
fn pattern_17_pow_4() {
    assert_eq!(
        k12(&pattern(83521), &[], 32),
        from_hex("8701045E22205345FF4DDA05555CBB5C3AF1A771C2B89BAEF37DB43D9998B9FE")
    );
}

#[test]
fn zero_length_output() {
    assert_eq!(k12(b"abc", b"x", 0), Vec::<u8>::new());
}

#[test]
fn default_equals_empty_customization() {
    let msg = pattern(10000);
    let mut a = KangarooTwelve::new();
    a.update(&msg);
    let mut out_a = vec![0u8; 48];
    a.finalize_xof().read(&mut out_a);
    assert_eq!(out_a, k12(&msg, &[], 48));
}

#[test]
fn shorter_output_is_prefix() {
    for len in [0usize, 100, 8191, 8192, 20000] {
        let msg = pattern(len);
        let short = k12(&msg, b"custom", 17);
        let long = k12(&msg, b"custom", 200);
        assert_eq!(short[..], long[..17]);
    }
}

#[test]
fn chunk_boundary_outputs_differ() {
    // 8191 bytes and the one-byte encoding of an empty customization fill one
    // chunk exactly; 8192 bytes make two.
    let a = k12(&pattern(8191), &[], 32);
    let b = k12(&pattern(8192), &[], 32);
    let c = k12(&pattern(8193), &[], 32);
    assert_ne!(a, b);
    assert_ne!(b, c);
}

#[test]
fn updates_concatenate() {
    let msg = pattern(20000);
    let mut h = KangarooTwelve::new_with_customization(b"cust");
    h.update(&msg[..5]);
    h.update(&msg[5..9000]);
    h.update(&msg[9000..]);
    let mut out = vec![0u8; 32];
    h.finalize_xof().read(&mut out);
    assert_eq!(out, k12(&msg, b"cust", 32));
}

#[test]
fn customization_changes_output() {
    assert_ne!(k12(b"msg", b"", 32), k12(b"msg", b"a", 32));
    let long_custom = pattern(300);
    assert_ne!(k12(b"msg", &long_custom, 32), k12(b"msg", &long_custom[..299], 32));
}

#[test]
fn reset_keeps_customization() {
    let mut h = KangarooTwelve::new_with_customization(b"cust");
    h.update(b"something else");
    h.reset();
    h.update(b"msg");
    let mut out = vec![0u8; 32];
    h.finalize_xof().read(&mut out);
    assert_eq!(out, k12(b"msg", b"cust", 32));
}

#[test]
fn finalize_xof_reset_keeps_customization() {
    let mut h = KangarooTwelve::new_with_customization(b"cust");
    h.update(b"msg");
    let mut out = vec![0u8; 32];
    h.finalize_xof_reset().read(&mut out);
    assert_eq!(out, k12(b"msg", b"cust", 32));
    h.update(b"next");
    let mut out2 = vec![0u8; 32];
    h.finalize_xof_reset().read(&mut out2);
    assert_eq!(out2, k12(b"next", b"cust", 32));
}

#[test]
fn reader_is_finished_after_read() {
    let mut r = KangarooTwelve::new().finalize_xof();
    assert!(!r.finished());
    let mut out = vec![0u8; 8];
    r.read(&mut out);
    assert!(r.finished());
}
