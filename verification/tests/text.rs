use lum_service::text::{compare_text, longest_line_width};

#[test]
fn compare_text_orders_like_strings() {
    let words = ["", "a", "ab", "b", "B", "é", "zebra", "zeb", "\u{2500}", "日本"];
    for a in words.iter() {
        for b in words.iter() {
            let expected = match a.cmp(b) {
                std::cmp::Ordering::Less => -1,
                std::cmp::Ordering::Equal => 0,
                std::cmp::Ordering::Greater => 1,
            };
            assert_eq!(compare_text(a, b), expected, "{a} vs {b}");
        }
    }
}

#[test]
fn longest_line_counts_bytes() {
    assert_eq!(longest_line_width(""), 0);
    assert_eq!(longest_line_width("abc"), 3);
    assert_eq!(longest_line_width("a\nabcd\nab"), 4);
    assert_eq!(longest_line_width("é"), 2);
    assert_eq!(longest_line_width("\u{2500}\nab"), 3);
    assert_eq!(longest_line_width("日本\n"), 6);
    assert_eq!(longest_line_width("🦀"), 4);
}

#[test]
fn longest_line_matches_str_lines() {
    let samples = ["ab\r\ncd", "abc\r", "abc\r\n", "\r\r\n", "x\n\n\nyyyy\r", "a\rb\nc"];
    for s in samples.iter() {
        let expected = s.lines().map(|l| l.len()).max().unwrap_or(0);
        assert_eq!(longest_line_width(s), expected as u128, "{s:?}");
    }
}
