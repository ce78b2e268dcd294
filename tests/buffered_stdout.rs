use otp_vault::BufferedStdout;

#[test]
fn flush_ends_text_with_crlf_and_counts_lines() {
    let mut out = BufferedStdout::new();
    out.add("one\r\n");
    out.add("two");
    assert_eq!(out.flush(), b"one\r\ntwo\r\n".to_vec());
    assert_eq!(out.clear(), 2);
    assert_eq!(out.clear(), 0);
}

#[test]
fn flush_keeps_existing_crlf() {
    let mut out = BufferedStdout::new();
    out.add("a\r\n\r\nb\r\n");
    assert_eq!(out.flush(), b"a\r\n\r\nb\r\n".to_vec());
    out.add("c");
    assert_eq!(out.flush(), b"c\r\n".to_vec());
    assert_eq!(out.clear(), 4);
}

#[test]
fn empty_flush_writes_one_line() {
    let mut out = BufferedStdout::new();
    assert_eq!(out.flush(), b"\r\n".to_vec());
    assert_eq!(out.clear(), 1);
}
