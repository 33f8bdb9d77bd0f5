use friidump::text::{chars_of, parse_i32, parse_i64, parse_u32, str_contains, str_eq, trim_chars};

fn c(s: &str) -> Vec<char> {
    s.chars().collect()
}

#[test]
fn integer_parsing_follows_std() {
    for s in ["0", "42", "+7", "-7", "4294967295", "4294967296", "", "-", "+", "1a", " 1", "-0", "007"] {
        assert_eq!(parse_u32(&c(s)), s.parse::<u32>().ok(), "u32 {s:?}");
        assert_eq!(parse_i32(&c(s)), s.parse::<i32>().ok(), "i32 {s:?}");
        assert_eq!(parse_i64(&c(s)), s.parse::<i64>().ok(), "i64 {s:?}");
    }
    assert_eq!(parse_i64(&c("-9223372036854775808")), Some(i64::MIN));
    assert_eq!(parse_i64(&c("9223372036854775808")), None);
    assert_eq!(parse_i32(&c("-2147483648")), Some(i32::MIN));
}

#[test]
fn trimming_and_searching() {
    assert_eq!(trim_chars(&c("  ab c \t\n")), c("ab c"));
    assert_eq!(trim_chars(&c("\u{3000}x\u{a0}")), c("x"));
    assert!(str_contains("RW/DVD GCC-4240N", "GCC-4240N"));
    assert!(!str_contains("GCC", "GCC-4240N"));
    assert!(str_contains("abc", ""));
    assert!(str_eq("abc", "abc"));
    assert!(!str_eq("abc", "abd"));
    assert_eq!(chars_of("héllo"), c("héllo"));
}
