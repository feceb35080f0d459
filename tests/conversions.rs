use c_str::{
    check_for_null, from_c_multistring, nul_position, parse_multistring, with_c_str, CString,
    FromCStr, InteriorNull, ToCStr, BUF_LEN,
};

#[test]
fn test_str_multistring_parsing() {
    let input = b"zero\0one\0\0";
    let expected = ["zero", "one"];
    let mut it = expected.iter();
    let result = from_c_multistring(input, None, |c: &CString| {
        let cbytes = c.as_bytes_no_nul();
        assert_eq!(cbytes, it.next().unwrap().as_bytes());
    });
    assert_eq!(result, 2);
    assert!(it.next().is_none());
}

#[test]
fn test_str_to_c_str() {
    let c_str = "".to_c_str().unwrap();
    assert_eq!(c_str.as_bytes_with_tail()[0], 0);

    let c_str = "hello".to_c_str().unwrap();
    let buf = c_str.as_bytes_with_tail();
    assert_eq!(buf[0], b'h');
    assert_eq!(buf[1], b'e');
    assert_eq!(buf[2], b'l');
    assert_eq!(buf[3], b'l');
    assert_eq!(buf[4], b'o');
    assert_eq!(buf[5], 0);
}

#[test]
fn test_vec_to_c_str() {
    let b: &[u8] = &[];
    let c_str = b.to_c_str().unwrap();
    assert_eq!(c_str.as_bytes_with_tail()[0], 0);

    let c_str = b"hello".to_c_str().unwrap();
    let buf = c_str.as_bytes_with_tail();
    assert_eq!(buf[0], b'h');
    assert_eq!(buf[1], b'e');
    assert_eq!(buf[2], b'l');
    assert_eq!(buf[3], b'l');
    assert_eq!(buf[4], b'o');
    assert_eq!(buf[5], 0);

    let c_str = b"foo\xFF".to_c_str().unwrap();
    let buf = c_str.as_bytes_with_tail();
    assert_eq!(buf[0], b'f');
    assert_eq!(buf[1], b'o');
    assert_eq!(buf[2], b'o');
    assert_eq!(buf[3], 0xffu8);
    assert_eq!(buf[4], 0);
}

#[test]
fn test_unwrap() {
    let c_str = "hello".to_c_str().unwrap();
    let buf = c_str.into_inner();
    assert_eq!(buf, b"hello\0".to_vec());
}

#[test]
fn test_as_ptr() {
    let c_str = "hello".to_c_str().unwrap();
    let len = c_str.len();
    assert_eq!(len, 5);
}

#[test]
fn test_iterator() {
    let c_str = "".to_c_str().unwrap();
    let mut iter = c_str.as_bytes_no_nul().iter();
    assert_eq!(iter.next(), None);

    let c_str = "hello".to_c_str().unwrap();
    let mut iter = c_str.as_bytes_no_nul().iter();
    assert_eq!(iter.next(), Some(&b'h'));
    assert_eq!(iter.next(), Some(&b'e'));
    assert_eq!(iter.next(), Some(&b'l'));
    assert_eq!(iter.next(), Some(&b'l'));
    assert_eq!(iter.next(), Some(&b'o'));
    assert_eq!(iter.next(), None);
}

#[test]
fn test_to_c_str_fail() {
    assert!("he\x00llo".to_c_str().is_err());
}

#[test]
fn test_to_c_str_unchecked() {
    let c_string = "he\x00llo".to_c_str_unchecked();
    let buf = c_string.as_bytes_with_tail();
    assert_eq!(buf[0], b'h');
    assert_eq!(buf[1], b'e');
    assert_eq!(buf[2], 0);
    assert_eq!(buf[3], b'l');
    assert_eq!(buf[4], b'l');
    assert_eq!(buf[5], b'o');
    assert_eq!(buf[6], 0);
}

#[test]
fn test_as_bytes() {
    let c_str = "hello".to_c_str().unwrap();
    assert_eq!(c_str.as_bytes(), b"hello\0");
    let c_str = "".to_c_str().unwrap();
    assert_eq!(c_str.as_bytes(), b"\0");
    let c_str = b"foo\xFF".to_c_str().unwrap();
    assert_eq!(c_str.as_bytes(), b"foo\xFF\0");
}

#[test]
fn test_as_bytes_no_nul() {
    let c_str = "hello".to_c_str().unwrap();
    assert_eq!(c_str.as_bytes_no_nul(), b"hello");
    let c_str = "".to_c_str().unwrap();
    let exp: &[u8] = &[];
    assert_eq!(c_str.as_bytes_no_nul(), exp);
    let c_str = b"foo\xFF".to_c_str().unwrap();
    assert_eq!(c_str.as_bytes_no_nul(), b"foo\xFF");
}

#[test]
fn test_as_str() {
    let c_str = "hello".to_c_str().unwrap();
    assert_eq!(c_str.as_str().as_deref(), Some("hello"));
    let c_str = "".to_c_str().unwrap();
    assert_eq!(c_str.as_str().as_deref(), Some(""));
    let c_str = b"foo\xFF".to_c_str().unwrap();
    assert_eq!(c_str.as_str(), None);
}

#[test]
fn test_clone() {
    let a = "hello".to_c_str().unwrap();
    let b = a.clone();
    assert!(a == b);
}

#[test]
fn checked_conversion_reports_first_interior_zero() {
    assert_eq!("he\x00llo".to_c_str(), Err(InteriorNull { position: 2 }));
    assert_eq!(b"\0\0".to_c_str(), Err(InteriorNull { position: 0 }));
    assert_eq!(String::from("ab\0").to_c_str(), Err(InteriorNull { position: 2 }));
}

#[test]
fn unchecked_conversion_keeps_interior_zero_and_appends_one_terminator() {
    let c = b"a\0b".to_c_str_unchecked();
    assert_eq!(c.as_bytes_with_tail(), b"a\0b\0");
    assert_eq!(c.as_bytes(), b"a\0");
    assert_eq!(c.len(), 1);
}

#[test]
fn empty_input_gives_a_lone_terminator() {
    let c = "".to_c_str().unwrap();
    assert_eq!(c.as_bytes_with_tail(), b"\0");
    assert!(c.is_empty());
}

#[test]
fn owned_conversions_of_all_sources_agree() {
    let from_str = "abc".to_c_str().unwrap();
    let from_string = String::from("abc").to_c_str().unwrap();
    let from_vec = b"abc".to_vec().to_c_str().unwrap();
    let from_ref = (&"abc").to_c_str().unwrap();
    for c in [&from_string, &from_vec, &from_ref] {
        assert_eq!(c.as_bytes_with_tail(), from_str.as_bytes_with_tail());
    }
    assert_eq!(from_str.as_bytes_with_tail(), b"abc\0");
}

#[test]
fn utf8_source_is_copied_as_its_encoding() {
    let c = "h\u{e9}".to_c_str().unwrap();
    assert_eq!(c.as_bytes_with_tail(), b"h\xc3\xa9\0");
}

#[test]
fn round_trip_through_reverse_conversion() {
    let s: &[u8] = b"round trip";
    let c = s.to_c_str().unwrap();
    let back: Vec<u8> = FromCStr::from_c_str(c.as_bytes_with_tail());
    assert_eq!(back, s.to_vec());
    let back: CString = FromCStr::from_c_str(c.as_bytes_with_tail());
    assert_eq!(back.as_bytes_with_tail(), b"round trip\0");
    let back: String = FromCStr::from_raw_buf(c.as_bytes_with_tail());
    assert_eq!(back, "round trip");
}

#[test]
fn reverse_conversion_stops_at_first_zero() {
    let v: Vec<u8> = FromCStr::from_c_str(b"ab\0cd\0");
    assert_eq!(v, b"ab".to_vec());
    let v: Vec<u8> = FromCStr::from_c_str(b"\0cd\0");
    assert!(v.is_empty());
    let s: String = FromCStr::from_c_str(b"h\xc3\xa9\0x");
    assert_eq!(s, "h\u{e9}");
    let c: CString = FromCStr::from_c_str(b"\0");
    assert_eq!(c.as_bytes_with_tail(), b"\0");
}

fn lent_bytes(v: &[u8], checked: bool) -> Result<Vec<u8>, InteriorNull> {
    with_c_str(v, checked, |b: &[u8]| b.to_vec())
}

#[test]
fn scoped_loan_matches_owned_conversion_below_threshold() {
    let s: Vec<u8> = (1u8..=10).collect();
    let owned = s.to_c_str().unwrap();
    let lent = s.with_c_str(|b: &[u8]| b.to_vec()).unwrap();
    assert_eq!(lent, owned.as_bytes_with_tail().to_vec());
    assert_eq!(lent.len(), 11);
    assert_eq!(lent_bytes(&s, false).unwrap(), lent);
}

#[test]
fn scoped_loan_matches_owned_conversion_above_threshold() {
    let s: Vec<u8> = (0..200u32).map(|i| (i % 255 + 1) as u8).collect();
    let owned = s.to_c_str().unwrap();
    let lent = s.with_c_str(|b: &[u8]| b.to_vec()).unwrap();
    assert_eq!(lent, owned.as_bytes_with_tail().to_vec());
    assert_eq!(lent.len(), 201);
    assert_eq!(s.with_c_str_unchecked(|b: &[u8]| b.to_vec()), lent);
}

#[test]
fn scoped_loan_at_threshold_edges() {
    for n in [BUF_LEN - 1, BUF_LEN] {
        let s = vec![b'x'; n];
        let lent = lent_bytes(&s, true).unwrap();
        assert_eq!(lent.len(), n + 1);
        assert_eq!(lent[n], 0);
        assert_eq!(&lent[..n], &s[..]);
    }
}

#[test]
fn scoped_loan_refuses_interior_zero_without_calling() {
    let mut calls = 0;
    let r = "ab\0c".with_c_str(|_b: &[u8]| {
        calls += 1;
    });
    assert_eq!(r, Err(InteriorNull { position: 2 }));
    assert_eq!(calls, 0);
    let long = [vec![b'a'; 150], vec![0u8]].concat();
    assert_eq!(lent_bytes(&long, true), Err(InteriorNull { position: 150 }));
    let lent = lent_bytes(&long, false).unwrap();
    assert_eq!(lent.len(), 152);
}

#[test]
fn scoped_loan_calls_back_exactly_once() {
    for n in [10usize, 200] {
        let s = vec![b'y'; n];
        let mut calls = 0;
        let r = s.with_c_str(|_b: &[u8]| {
            calls += 1;
            calls
        });
        assert_eq!(r, Ok(1));
        assert_eq!(calls, 1);
    }
}

#[test]
fn multistring_yields_each_string_in_order() {
    let items = parse_multistring(b"zero\0one\0\0", None);
    assert_eq!(items.len(), 2);
    assert_eq!(items[0].as_bytes(), b"zero\0");
    assert_eq!(items[1].as_bytes(), b"one\0");
}

#[test]
fn multistring_empty_list() {
    let mut calls = 0;
    let n = from_c_multistring(b"\0zero\0\0", None, |_c: &CString| calls += 1);
    assert_eq!(n, 0);
    assert_eq!(calls, 0);
}

#[test]
fn multistring_with_limit_one() {
    let mut seen: Vec<Vec<u8>> = Vec::new();
    let n = from_c_multistring(b"zero\0one\0\0", Some(1), |c: &CString| {
        seen.push(c.as_bytes_no_nul().to_vec())
    });
    assert_eq!(n, 1);
    assert_eq!(seen, vec![b"zero".to_vec()]);
}

#[test]
fn multistring_limit_edges() {
    assert_eq!(parse_multistring(b"a\0b\0\0", Some(0)).len(), 0);
    assert_eq!(parse_multistring(b"a\0b\0\0", Some(5)).len(), 2);
    assert_eq!(parse_multistring(b"", None).len(), 0);
}

#[test]
fn multistring_ends_with_the_buffer() {
    let items = parse_multistring(b"a\0bc", None);
    assert_eq!(items.len(), 2);
    assert_eq!(items[1].as_bytes(), b"bc\0");
}

#[test]
fn null_checker_finds_first_zero() {
    assert_eq!(check_for_null(b"abc", b"abc\0"), Ok(()));
    assert_eq!(check_for_null(b"a\0c", b"a\0c\0"), Err(InteriorNull { position: 1 }));
    assert_eq!(check_for_null(b"", b"\0"), Ok(()));
}

#[test]
fn terminator_scan() {
    assert_eq!(nul_position(b"ab\0c\0", 0), 2);
    assert_eq!(nul_position(b"ab\0c\0", 3), 4);
    assert_eq!(nul_position(b"abc", 1), 3);
}

#[test]
fn buffer_construction_requires_a_terminator() {
    assert!(CString::from_buffer(b"abc".to_vec()).is_none());
    let c = CString::from_buffer(b"ab\0cd".to_vec()).unwrap();
    assert_eq!(c.as_bytes(), b"ab\0");
    assert_eq!(c.as_bytes_with_tail(), b"ab\0cd");
}

#[test]
fn clone_is_a_fresh_equal_buffer() {
    let a = "hello".to_c_str().unwrap();
    let b = a.clone();
    drop(a);
    assert_eq!(b.as_bytes(), b"hello\0");
    let c = "hellp".to_c_str().unwrap();
    assert!(b != c);
}
