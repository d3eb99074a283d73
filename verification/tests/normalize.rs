use rlf::normalize::normalize_bytes;

#[test]
fn lf_only_file_is_unchanged() {
    let v: Vec<u8> = b"already\nunix\n".to_vec();
    assert!(normalize_bytes(&v).is_none());
}

#[test]
fn bytes_without_line_endings_are_unchanged() {
    let v: Vec<u8> = b"no line ending at all".to_vec();
    assert!(normalize_bytes(&v).is_none());
}

#[test]
fn empty_file_is_unchanged() {
    let v: Vec<u8> = Vec::new();
    assert!(normalize_bytes(&v).is_none());
}

#[test]
fn crlf_and_lone_cr_convert_to_lf() {
    let v: Vec<u8> = b"line1\r\nline2\rline3\n".to_vec();
    let out = normalize_bytes(&v).expect("contains CR, must change");
    assert_eq!(out, b"line1\nline2\nline3\n".to_vec());
}

#[test]
fn crlf_anywhere_becomes_one_lf() {
    let v: Vec<u8> = b"a\r\nb\r\nc".to_vec();
    let out = normalize_bytes(&v).expect("contains CR, must change");
    assert_eq!(out, b"a\nb\nc".to_vec());
}

#[test]
fn trailing_lone_cr_becomes_lf() {
    let v: Vec<u8> = b"abc\r".to_vec();
    let out = normalize_bytes(&v).expect("contains CR, must change");
    assert_eq!(out, b"abc\n".to_vec());
}

#[test]
fn two_consecutive_crs_become_two_lfs() {
    let v: Vec<u8> = b"\r\r".to_vec();
    let out = normalize_bytes(&v).expect("contains CR, must change");
    assert_eq!(out, b"\n\n".to_vec());
}

#[test]
fn consecutive_crs_inside_text() {
    let v: Vec<u8> = b"x\r\ry".to_vec();
    let out = normalize_bytes(&v).expect("contains CR, must change");
    assert_eq!(out, b"x\n\ny".to_vec());
}

#[test]
fn cr_then_crlf_convert_independently() {
    let v: Vec<u8> = b"\r\r\n".to_vec();
    let out = normalize_bytes(&v).expect("contains CR, must change");
    assert_eq!(out, b"\n\n".to_vec());
}

#[test]
fn normalizing_twice_yields_the_same_bytes() {
    let v: Vec<u8> = b"one\r\ntwo\rthree".to_vec();
    let once = normalize_bytes(&v).expect("contains CR, must change");
    assert!(normalize_bytes(&once).is_none());
    let lf_only: Vec<u8> = b"one\ntwo\n".to_vec();
    assert!(normalize_bytes(&lf_only).is_none());
    assert!(normalize_bytes(&lf_only).is_none());
}
