use gitea_autoscaler::text::{
    eq_ignore_ascii_case, parse_i32, parse_u64, push_decimal, push_signed_decimal, same_text,
    trim_end,
};

const NUMBERS: [&str; 33] = [
    "", "0", "7", "10", "42", "007", "+5", "-5", "-0", "+0", "+", "-", "--1", "+-1", "-+1", " 1", "1 ", "1_000",
    "0x10", "12a", "2147483647", "2147483648", "-2147483648", "-2147483649", "4294967296",
    "18446744073709551615", "18446744073709551616", "99999999999999999999999999",
    "00000000000000000000000000000000012", "\u{661}", "1.0", "1e3", "\t3",
];

#[test]
fn numbers_are_read_as_the_standard_library_reads_them() {
    for s in NUMBERS {
        assert_eq!(parse_i32(s), s.parse::<i32>().ok(), "i32 {:?}", s);
        assert_eq!(parse_u64(s), s.parse::<u64>().ok(), "u64 {:?}", s);
    }
}

#[test]
fn numbers_are_printed_as_the_standard_library_prints_them() {
    for n in [0u64, 9, 10, 99, 100, 1234567890, u64::MAX] {
        let mut out = "n=".to_string();
        push_decimal(&mut out, n);
        assert_eq!(out, format!("n={}", n));
    }
    for n in [0i32, -1, 15, -100, i32::MIN, i32::MAX] {
        let mut out = "n=".to_string();
        push_signed_decimal(&mut out, n);
        assert_eq!(out, format!("n={}", n));
    }
}

#[test]
fn ends_are_trimmed_as_the_standard_library_trims_them() {
    for s in ["", "/", "///", "a", "a/", "a//", "/a/b//", "http://x/", "\u{e9}/", "a/ "] {
        assert_eq!(trim_end(s, '/'), s.trim_end_matches('/'));
    }
}

#[test]
fn case_is_ignored_as_the_standard_library_ignores_it() {
    let texts = ["", "offline", "OffLine", "OFFLINE", "offlin", "offlinee", "online", "[a", "{a", "@", "`", "\u{c9}", "\u{e9}"];
    for a in texts {
        for b in texts {
            assert_eq!(eq_ignore_ascii_case(a, b), a.eq_ignore_ascii_case(b), "{:?} {:?}", a, b);
            assert_eq!(same_text(a, b), a == b);
        }
    }
}
