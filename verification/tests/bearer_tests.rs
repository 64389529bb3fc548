use rkbx_osc::bearer::decode_bearer;

// Bearer decode: 64 bytes "tok\0garbage…" decode to "tok".
#[test]
fn bearer_cut_at_first_nul() {
    let mut buf = b"tok".to_vec();
    buf.push(0);
    buf.extend_from_slice(b"garbage");
    buf.resize(64, 0x67);
    assert_eq!(buf.len(), 64);
    assert_eq!(decode_bearer(&buf), "tok");
}

#[test]
fn bearer_trims_surrounding_whitespace() {
    assert_eq!(decode_bearer(b"  \ttok-123 \r\n\0junk"), "tok-123");
}

#[test]
fn bearer_without_nul_takes_all() {
    assert_eq!(decode_bearer(b"abcdef"), "abcdef");
}

#[test]
fn bearer_empty_and_all_whitespace_decode_empty() {
    assert_eq!(decode_bearer(b""), "");
    assert_eq!(decode_bearer(b"   \t  "), "");
    assert_eq!(decode_bearer(b"\0tok"), "");
}

#[test]
fn bearer_invalid_utf8_decodes_empty() {
    assert_eq!(decode_bearer(&[0xFF, 0xFE, 0x41]), "");
}

#[test]
fn bearer_keeps_interior_detail() {
    // Whitespace inside stays; only the surroundings go.
    assert_eq!(decode_bearer(b" a b \0"), "a b");
}

#[test]
fn bearer_trims_unicode_whitespace() {
    // No-break space and em space surround the token; `str::trim`
    // strips them and so does the decoder.
    let mut buf = "\u{a0}\u{2003}tok\u{a0}".as_bytes().to_vec();
    buf.push(0);
    buf.extend_from_slice(b"junk");
    assert_eq!(decode_bearer(&buf), "tok");
    assert_eq!(decode_bearer("\u{a0} \u{2028}\u{3000}".as_bytes()), "");
}

#[test]
fn bearer_non_ascii_utf8_is_kept() {
    let mut buf = "caf\u{e9}".as_bytes().to_vec();
    buf.push(0);
    assert_eq!(decode_bearer(&buf), "caf\u{e9}");
}
