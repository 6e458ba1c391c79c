use thrash::client::percent_encode;

#[test]
fn percent_encode_passes_printable_ascii() {
    assert_eq!(percent_encode("group-name_1.2~"), "group-name_1.2~");
    assert_eq!(percent_encode("with space"), "with space");
}

#[test]
fn percent_encode_escapes_ampersand() {
    assert_eq!(percent_encode("dev&ops"), "dev%26ops");
    assert_eq!(percent_encode("&&"), "%26%26");
}

#[test]
fn percent_encode_escapes_controls_and_delete() {
    assert_eq!(percent_encode("a\nb"), "a%0Ab");
    assert_eq!(percent_encode("\x7f"), "%7F");
}

#[test]
fn percent_encode_escapes_utf8_bytes() {
    assert_eq!(percent_encode("été"), "%C3%A9t%C3%A9");
    assert_eq!(percent_encode("日"), "%E6%97%A5");
}

#[test]
fn percent_encode_empty() {
    assert_eq!(percent_encode(""), "");
}
