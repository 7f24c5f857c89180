use toy_browser::fast_html::tokenizer::stream::Stream;

#[test]
fn stream_reads_and_moves() {
    let data = [1u8, 2, 3, 4];
    let mut s = Stream::new(&data);
    assert_eq!(s.len(), 4);
    assert_eq!(s.current(), Some(&1));
    assert_eq!(s.current_cpy(), Some(1));
    s.advance();
    assert_eq!(s.current_cpy(), Some(2));
    s.advance_by(2);
    assert_eq!(s.current_cpy(), Some(4));
    assert!(!s.is_eof());
    s.advance();
    assert!(s.is_eof());
    assert_eq!(s.current(), None);
    assert_eq!(s.data(), &data[..]);
}

#[test]
fn stream_expectations() {
    let data = [b'a', b'b', b'c'];
    let mut s = Stream::new(&data);
    assert_eq!(s.expect_and_skip(b'x'), None);
    assert_eq!(s.idx, 0);
    assert_eq!(s.expect_and_skip(b'a'), Some(b'a'));
    assert_eq!(s.idx, 1);
    assert_eq!(s.expect_oneof_and_skip(&[b'x', b'b']), Some(b'b'));
    assert_eq!(s.expect_oneof_and_skip(&[b'x', b'y']), None);
    assert!(s.expect_and_skip_cond(b'c'));
    assert!(!s.expect_and_skip_cond(b'c'));
    assert_eq!(s.expect_and_skip(b'c'), None);
}

#[test]
fn stream_slices() {
    let data = [10u8, 20, 30, 40, 50];
    let mut s = Stream::new(&data);
    assert_eq!(s.slice(1, 3), &[20, 30]);
    assert_eq!(s.slice_checked(3, 10), &[40, 50]);
    assert_eq!(s.slice_checked(0, 2), &[10, 20]);
    s.advance_by(2);
    assert_eq!(s.slice_len(1, 2), &[20, 30, 40]);
    assert_eq!(s.slice_len(2, 9), &[30, 40, 50]);
}
