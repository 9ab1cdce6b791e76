use ashdaemon::protocol::{parse_request, strip_line, trim};

#[test]
fn split_at_separator() {
    let (sel, pre) = parse_request(&b"deadbeef|hello".to_vec());
    assert_eq!(sel, Some(b"deadbeef".to_vec()));
    assert_eq!(pre, b"hello".to_vec());
}

#[test]
fn only_first_separator_splits() {
    let (sel, pre) = parse_request(&b"hello|world|x".to_vec());
    assert_eq!(sel, Some(b"hello".to_vec()));
    assert_eq!(pre, b"world|x".to_vec());
}

#[test]
fn no_separator_means_no_selector() {
    let (sel, pre) = parse_request(&b"just a preimage".to_vec());
    assert_eq!(sel, None);
    assert_eq!(pre, b"just a preimage".to_vec());
}

#[test]
fn selector_is_trimmed() {
    let (sel, pre) = parse_request(&b"  feed 00 |x".to_vec());
    assert_eq!(sel, Some(b"feed 00".to_vec()));
    assert_eq!(pre, b"x".to_vec());
}

#[test]
fn empty_selector_counts_as_absent() {
    let (sel, pre) = parse_request(&b"   |payload".to_vec());
    assert_eq!(sel, None);
    assert_eq!(pre, b"payload".to_vec());
}

#[test]
fn preimage_after_separator_is_verbatim() {
    let (sel, pre) = parse_request(&b"ab| spaced preimage ".to_vec());
    assert_eq!(sel, Some(b"ab".to_vec()));
    assert_eq!(pre, b" spaced preimage ".to_vec());
}

#[test]
fn strip_removes_all_trailing_line_ends() {
    assert_eq!(strip_line(&b"foo\r\n".to_vec()), b"foo".to_vec());
    assert_eq!(strip_line(&b"foo\n".to_vec()), b"foo".to_vec());
    assert_eq!(strip_line(&b"foo\n\r\n".to_vec()), b"foo".to_vec());
    assert_eq!(strip_line(&b"foo".to_vec()), b"foo".to_vec());
    assert_eq!(strip_line(&b"\r\n".to_vec()), b"".to_vec());
}

#[test]
fn strip_keeps_interior_line_ends() {
    assert_eq!(strip_line(&b"a\nb\n".to_vec()), b"a\nb".to_vec());
}

#[test]
fn trim_removes_surrounding_whitespace_only() {
    assert_eq!(trim(b" \t abc \r\n"), b"abc".to_vec());
    assert_eq!(trim(b"a b"), b"a b".to_vec());
    assert_eq!(trim(b"   "), b"".to_vec());
    assert_eq!(trim(b""), b"".to_vec());
}
