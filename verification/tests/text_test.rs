use mlp::text::{decimal_string, split_text, text_less, trimmed};

#[test]
fn decimal_rendering_matches_to_string() {
    for n in [0u64, 7, 10, 99, 100, 1234567, u64::MAX] {
        assert_eq!(decimal_string(n), n.to_string());
    }
}

#[test]
fn split_text_matches_str_split() {
    for s in ["", "a", ",", "a,b", "a,,b,", ",x"] {
        let expected: Vec<String> = s.split(',').map(|p| p.to_string()).collect();
        assert_eq!(split_text(s, ','), expected);
    }
}

#[test]
fn trimmed_matches_str_trim() {
    for s in ["  x ", "\u{2003}y\u{85}", "", "   ", "a b"] {
        assert_eq!(trimmed(s), s.trim());
    }
}

#[test]
fn text_order_matches_string_order() {
    let words = ["", "a", "ab", "b", "B", "é", "z", "aa"];
    for a in words {
        for b in words {
            assert_eq!(text_less(a, b), a < b, "{a:?} < {b:?}");
        }
    }
}
