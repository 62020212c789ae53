use portmon::path::file_name;
use portmon::text::{
    byte_count, chars_of, compare_text, fuzzy_match, i32_text, is_boundary, prefix_bytes,
    same_text, string_from_chars, trim, u64_text,
};
use portmon::commands::confirms_kill;
use std::cmp::Ordering;

#[test]
fn decimal_text_of_numbers() {
    assert_eq!(u64_text(0), "0");
    assert_eq!(u64_text(7), "7");
    assert_eq!(u64_text(8080), "8080");
    assert_eq!(u64_text(u64::MAX), "18446744073709551615");
    assert_eq!(i32_text(0), "0");
    assert_eq!(i32_text(1234), "1234");
    assert_eq!(i32_text(-42), "-42");
    assert_eq!(i32_text(i32::MIN), "-2147483648");
}

#[test]
fn chars_round_trip() {
    let v = chars_of("héllo");
    assert_eq!(v, vec!['h', 'é', 'l', 'l', 'o']);
    assert_eq!(string_from_chars(&v), "héllo");
}

#[test]
fn lexicographic_comparison() {
    assert_eq!(compare_text("abc", "abd"), Ordering::Less);
    assert_eq!(compare_text("abd", "abc"), Ordering::Greater);
    assert_eq!(compare_text("abc", "abc"), Ordering::Equal);
    assert_eq!(compare_text("ab", "abc"), Ordering::Less);
    assert_eq!(compare_text("", ""), Ordering::Equal);
    assert_eq!(compare_text("Z", "a"), Ordering::Less);
    assert_eq!(compare_text("é", "z"), "é".cmp("z"));
}

#[test]
fn fuzzy_match_in_order_case_insensitive() {
    assert!(fuzzy_match("ngx", "TCP 0.0.0.0 80 1 nginx root"));
    assert!(fuzzy_match("NGINX", "nginx"));
    assert!(fuzzy_match("", "anything"));
    assert!(!fuzzy_match("xgn", "nginx"));
    assert!(!fuzzy_match("nginxx", "nginx"));
    assert!(fuzzy_match("abc", "xAxBxCx"));
}

#[test]
fn case_folding_and_trimming() {
    assert!(fuzzy_match("hello äö", "HeLLo ÄÖ"));
    assert!(fuzzy_match("HELLO", "hello"));
    assert!(confirms_kill("  y \n"));
    assert!(confirms_kill("Y"));
    assert!(!confirms_kill("yes"));
    assert!(!confirms_kill(""));
    assert!(same_text("abc", "abc"));
    assert!(!same_text("abc", "abd"));
    assert!(!same_text("abc", "ab"));
}

#[test]
fn byte_positions() {
    assert_eq!(byte_count("héllo"), 6);
    assert!(is_boundary("héllo", 1));
    assert!(!is_boundary("héllo", 2));
    assert!(is_boundary("héllo", 3));
    assert_eq!(prefix_bytes("héllo", 3), "hé");
}

#[test]
fn file_name_of_paths() {
    assert_eq!(file_name("/home/me/project"), Some("project"));
    assert_eq!(file_name("/home/me/project/"), Some("project"));
    assert_eq!(file_name("/home/me/project/."), Some("project"));
    assert_eq!(file_name("/home/me/.."), None);
    assert_eq!(file_name("/"), None);
    assert_eq!(file_name(""), None);
    assert_eq!(file_name("."), None);
    assert_eq!(file_name("relative"), Some("relative"));
    assert_eq!(file_name("a/./b"), Some("b"));
    for p in ["/usr/lib", "/tmp/x/", "a/b/.", "/a/..", "//", "./a", ".hidden"] {
        let expected = std::path::Path::new(p).file_name().and_then(|n| n.to_str());
        assert_eq!(file_name(p), expected, "path {p}");
    }
}

#[test]
fn trimming_matches_unicode_white_space() {
    assert_eq!(trim("  y \n"), "y");
    assert_eq!(trim(""), "");
    assert_eq!(trim(" \t\r\n"), "");
    assert_eq!(trim("a b"), "a b");
    assert_eq!(trim("\u{3000}x\u{00A0}"), "x");
    for code in 0u32..0x3100 {
        if let Some(c) = char::from_u32(code) {
            let s = format!("{c}{c}mid{c}dle{c}");
            assert_eq!(trim(&s), s.trim(), "code point {code:#x}");
        }
    }
}

#[test]
fn fuzzy_match_laws_on_ascii_text() {
    let words = ["", "a", "Ab", "nginx", "NGX", "tcp 80", "xyz", "Server.JS"];
    for h in words {
        assert!(fuzzy_match("", h));
        assert!(fuzzy_match(h, h));
        for p in words {
            let m = fuzzy_match(p, h);
            assert_eq!(fuzzy_match(&p.to_uppercase(), &h.to_uppercase()), m, "{p} / {h}");
            for t in words {
                if m {
                    assert!(fuzzy_match(p, &format!("{h}{t}")));
                    assert!(fuzzy_match(p, &format!("{t}{h}")));
                }
                if fuzzy_match(&format!("{p}{t}"), h) {
                    assert!(fuzzy_match(p, h) && fuzzy_match(t, h));
                }
            }
        }
    }
}
