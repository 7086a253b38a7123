use bws_manager::text::{get_element_from_back, i32_to_decimal, i64_to_decimal, parse_i64, str_eq};

#[test]
fn element_from_back_picks_pieces() {
    assert_eq!(get_element_from_back("a/b/c", 1), Ok("c"));
    assert_eq!(get_element_from_back("a/b/c", 2), Ok("b"));
    assert_eq!(get_element_from_back("a/b/c", 3), Ok("a"));
    assert_eq!(get_element_from_back("a/b/c", 4), Err(()));
}

#[test]
fn element_from_back_index_zero_is_last() {
    assert_eq!(get_element_from_back("a/b/c", 0), Ok("c"));
}

#[test]
fn element_from_back_empty_pieces() {
    assert_eq!(get_element_from_back("/x/", 1), Ok(""));
    assert_eq!(get_element_from_back("/x/", 2), Ok("x"));
    assert_eq!(get_element_from_back("/x/", 3), Ok(""));
    assert_eq!(get_element_from_back("", 1), Ok(""));
    assert_eq!(get_element_from_back("", 2), Err(()));
}

#[test]
fn element_from_back_non_ascii() {
    assert_eq!(get_element_from_back("ä/öü/ß", 2), Ok("öü"));
}

#[test]
fn parse_i64_accepts_what_std_accepts() {
    for s in ["0", "7", "+7", "-7", "0012", "-0", "9223372036854775807", "-9223372036854775808"] {
        assert_eq!(parse_i64(s), s.parse::<i64>().ok(), "{}", s);
    }
}

#[test]
fn parse_i64_rejects_what_std_rejects() {
    for s in ["", "+", "-", "1a", " 1", "1 ", "--1", "+-1", "9223372036854775808", "-9223372036854775809", "99999999999999999999999"] {
        assert_eq!(parse_i64(s), None, "{}", s);
        assert!(s.parse::<i64>().is_err());
    }
}

#[test]
fn decimal_matches_to_string() {
    for n in [0i64, 5, 10, 6001, -1, -42, i64::MAX, i64::MIN] {
        assert_eq!(i64_to_decimal(n), n.to_string());
    }
    for n in [0i32, 8999, -7, i32::MIN, i32::MAX] {
        assert_eq!(i32_to_decimal(n), n.to_string());
    }
}

#[test]
fn decimal_parse_roundtrip() {
    for n in [0i64, 1, -1, 123456789, i64::MAX, i64::MIN] {
        assert_eq!(parse_i64(&i64_to_decimal(n)), Some(n));
    }
}

#[test]
fn str_eq_compares_characters() {
    assert!(str_eq("admin", "admin"));
    assert!(!str_eq("admin", "Admin"));
    assert!(!str_eq("admin", "admin "));
    assert!(str_eq("", ""));
}

#[test]
fn element_from_back_is_a_slash_free_substring() {
    let q = "/x/yy//zzz/";
    for i in 0..8 {
        if let Ok(piece) = get_element_from_back(q, i) {
            assert!(q.contains(piece));
            assert!(!piece.contains('/'));
        }
    }
    assert_eq!(get_element_from_back(q, 2), Ok("zzz"));
    assert_eq!(get_element_from_back(q, 0), Ok(""));
}
