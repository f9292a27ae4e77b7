use smv::records::{Real, TrnEntry};
use smv::text::{real_token, same_text, split_whitespace, token_i32, token_i64, token_u64, token_usize, trim_span};

#[test]
fn unsigned_tokens() {
    assert_eq!(token_u64(b"0"), Some(0));
    assert_eq!(token_u64(b"+42"), Some(42));
    assert_eq!(token_u64(b"18446744073709551615"), Some(u64::MAX));
    assert_eq!(token_u64(b"18446744073709551616"), None);
    assert_eq!(token_u64(b"-1"), None);
    assert_eq!(token_u64(b""), None);
    assert_eq!(token_u64(b"+"), None);
    assert_eq!(token_u64(b"12a"), None);
    assert_eq!(token_usize(b"007"), Some(7));
}

#[test]
fn signed_tokens() {
    assert_eq!(token_i64(b"-9223372036854775808"), Some(i64::MIN));
    assert_eq!(token_i64(b"9223372036854775807"), Some(i64::MAX));
    assert_eq!(token_i64(b"9223372036854775808"), None);
    assert_eq!(token_i64(b"-0"), Some(0));
    assert_eq!(token_i64(b"--1"), None);
    assert_eq!(token_i64(b"-+1"), None);
    assert_eq!(token_i32(b"-2147483648"), Some(i32::MIN));
    assert_eq!(token_i32(b"2147483648"), None);
}

#[test]
fn real_tokens_follow_the_literal_grammar() {
    for ok in ["1", "-1.", ".5", "+0.30000", "1e5", "2.5E-03", "inf", "-Infinity", "NaN", "1.e+7"] {
        assert!(real_token(ok.as_bytes()), "{ok}");
        assert!(ok.parse::<f64>().is_ok(), "{ok}");
    }
    for bad in ["", ".", "e5", "1e", "1e+", "1.2.3", "0x10", "--1", "infinit", "1 2", "+"] {
        assert!(!real_token(bad.as_bytes()), "{bad}");
        assert!(bad.parse::<f64>().is_err(), "{bad}");
    }
    assert_eq!(Real::parse(b"3.25").map(|r| r.text), Some(b"3.25".to_vec()));
    assert!(Real::parse(b"3,25").is_none());
}

#[test]
fn tokens_and_trimming() {
    let t = split_whitespace(b"  0.0\t1.5  7 \r");
    assert_eq!(t, vec![b"0.0".to_vec(), b"1.5".to_vec(), b"7".to_vec()]);
    assert!(split_whitespace(b"   ").is_empty());
    assert_eq!(trim_span(b"  ab c \t"), (2, 6));
    assert_eq!(trim_span(b"   "), (3, 3));
    let e = TrnEntry::from_tokens(&split_whitespace(b"  12  0.75")).unwrap();
    assert_eq!(e.i, 12);
    assert_eq!(e.f.text, b"0.75".to_vec());
    assert!(TrnEntry::from_tokens(&split_whitespace(b"  -1  0.75")).is_none());
    assert!(same_text("CSVF", "CSVF"));
    assert!(!same_text("hrr", "hrrpuv"));
}
