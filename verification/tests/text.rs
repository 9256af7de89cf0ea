use minime::text::{
    chars_of, decimal_chars, decimal_string, is_whitespace, parse_i32, parse_trimmed_i32,
    parse_trimmed_u8, parse_u16, parse_u32, trim_bounds, trimmed,
};
use minime::traits::is_known_key;
use minime::values::parse_values;

fn v(s: &str) -> Vec<char> {
    s.chars().collect()
}

#[test]
fn whitespace_is_unicode_white_space() {
    for c in [' ', '\t', '\n', '\r', '\u{0b}', '\u{0c}', '\u{85}', '\u{a0}', '\u{2003}', '\u{3000}'] {
        assert!(is_whitespace(c));
    }
    for c in ['a', '0', '\u{200b}', '_'] {
        assert!(!is_whitespace(c));
    }
}

#[test]
fn trimming_matches_str_trim() {
    for s in ["  a b \n", "", "   ", "\u{a0}x\u{3000}", "x"] {
        assert_eq!(trimmed(s), s.trim());
        let c = v(s);
        let (a, b) = trim_bounds(&c, 0, c.len());
        assert_eq!(c[a..b].iter().collect::<String>(), s.trim());
    }
    assert_eq!(chars_of("héllo"), v("héllo"));
}

#[test]
fn integer_parsing_matches_str_parse() {
    for s in ["0", "+7", "4294967295", "4294967296", "-1", "", "+", "12a", "007", " 1"] {
        let c = v(s);
        assert_eq!(parse_u32(&c, 0, c.len()), s.parse::<u32>().ok(), "u32 {s:?}");
        assert_eq!(parse_u16(&c, 0, c.len()), s.parse::<u16>().ok(), "u16 {s:?}");
    }
    for s in ["-2147483648", "-2147483649", "2147483647", "2147483648", "-", "-0", "+-1", "-+1"] {
        let c = v(s);
        assert_eq!(parse_i32(&c, 0, c.len()), s.parse::<i32>().ok(), "i32 {s:?}");
    }
    assert_eq!(parse_trimmed_i32(" -12\n"), Some(-12));
    assert_eq!(parse_trimmed_u8("255"), Some(255));
    assert_eq!(parse_trimmed_u8("256"), None);
}

#[test]
fn decimal_spelling() {
    assert_eq!(decimal_string(0), "0");
    assert_eq!(decimal_string(1500000), "1500000");
    assert_eq!(decimal_chars(u64::MAX), v(&u64::MAX.to_string()));
}

#[test]
fn values_of_a_traits_file() {
    let values = parse_values("# c\n[s]\n a = 1 \nb=2=3\nnoequals\nA=4\na=5\n=6\n");
    assert_eq!(values.len(), 4);
    assert_eq!(values.get(&v("a")), Some(&v("5")));
    assert_eq!(values.get(&v("b")), Some(&v("2=3")));
    assert_eq!(values.get(&v("A")), Some(&v("4")));
    assert_eq!(values.get(&v("")), Some(&v("6")));
    assert_eq!(values.get(&v("noequals")), None);
    assert_eq!(values.key_at(0), &v("a"));
}

#[test]
fn schema_keys() {
    assert!(is_known_key(&v("device_id")));
    assert!(is_known_key(&v("key_vol_up")));
    assert!(!is_known_key(&v("gpu_hdmi_state_path")));
    assert!(!is_known_key(&v("device_id ")));
}
