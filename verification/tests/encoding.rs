use git_warden::encoding::{check_utf8, is_binary};

#[test]
fn valid_ascii() {
    let r = check_utf8(b"hello world");
    assert!(r.valid);
    assert!(!r.has_bom);
}

#[test]
fn valid_korean() {
    assert!(check_utf8("한국어 텍스트".as_bytes()).valid);
}

#[test]
fn with_bom() {
    let mut c = vec![0xEF, 0xBB, 0xBF];
    c.extend_from_slice(b"hello");
    let r = check_utf8(&c);
    assert!(r.valid);
    assert!(r.has_bom);
}

#[test]
fn invalid_bytes() {
    let c = [0xFF, 0xFE, 0x68, 0x65, 0x6C, 0x6C, 0x6F];
    assert!(!check_utf8(&c).valid);
}

#[test]
fn latin1_invalid() {
    let c = [0xC4, 0xD6, 0xDC]; // ÄÖÜ (Latin-1)
    assert!(!check_utf8(&c).valid);
}

#[test]
fn iso8859_9_ascii_is_valid() {
    // Pure ASCII must be valid UTF-8 (regardless of chardet misfires).
    let r = check_utf8(b"* text=auto\n*.go text eol=lf\n");
    assert!(r.valid, "detected: {}", r.detected_charset);
}

#[test]
fn empty_is_valid() {
    assert!(check_utf8(b"").valid);
}

#[test]
fn is_binary_text() {
    assert!(!is_binary(b"hello world\nfoo bar\n"));
}

#[test]
fn is_binary_elf() {
    let c = [0x7f, b'E', b'L', b'F', 0, 0, 0, 0];
    assert!(is_binary(&c));
}

#[test]
fn is_binary_empty() {
    assert!(!is_binary(b""));
}
