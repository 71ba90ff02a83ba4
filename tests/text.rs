use clang_sys::paths::file_name;
use clang_sys::text::{first_line, split_whitespace, trim};

#[test]
fn trimming_matches_std() {
    for s in ["  a b \n", "", "   ", "\u{3000}x\u{85}", "\t17.0.6\r\n"] {
        assert_eq!(trim(s), s.trim());
    }
}

#[test]
fn tokens_match_std() {
    for s in ["  a  b\tc\n", "", " ", "one", "x\u{a0}y"] {
        let expected: Vec<String> = s.split_whitespace().map(|t| t.to_string()).collect();
        assert_eq!(split_whitespace(s), expected);
    }
}

#[test]
fn first_line_matches_std() {
    for s in ["a\nb", "a\r\nb", "a\r", "\n", "only"] {
        assert_eq!(first_line(s), s.lines().next().map(|l| l.to_string()));
    }
    assert_eq!(first_line(""), None);
}

#[test]
fn file_names_match_std() {
    for s in ["/usr/lib/libclang.so", "/usr/lib/", "a/.", "..", "/", ".", "./x", "a//b"] {
        let expected = std::path::Path::new(s).file_name().map(|n| n.to_str().unwrap().to_string());
        assert_eq!(file_name(s), expected, "{}", s);
    }
}

#[test]
fn decimals_match_display() {
    for n in [0u32, 7, 10, 17, 999, 4294967295] {
        assert_eq!(clang_sys::text::decimal_text(n), n.to_string());
    }
}
