use mynmon::text::{chars_of, contains, decimal_string, pad_left, pad_right, parse_u64, repeat, string_of};
use mynmon::utils::{ascii_bar, char_cells, format_uptime, pad_or_truncate, parse_proc_line, proc_line};

#[test]
fn format_uptime_below_one_day() {
    assert_eq!(format_uptime(0), "00:00:00");
    assert_eq!(format_uptime(59), "00:00:59");
    assert_eq!(format_uptime(3661), "01:01:01");
    assert_eq!(format_uptime(86399), "23:59:59");
}

#[test]
fn format_uptime_with_days() {
    assert_eq!(format_uptime(86400), "1d 00:00:00");
    assert_eq!(format_uptime(90061), "1d 01:01:01");
    assert_eq!(format_uptime(10 * 86400 + 5), "10d 00:00:05");
    assert_eq!(format_uptime(u64::MAX), "213503982334601d 07:00:15");
}

#[test]
fn pad_or_truncate_pads_short_ascii() {
    assert_eq!(pad_or_truncate("abc", 5), "abc  ");
    assert_eq!(pad_or_truncate("", 3), "   ");
    assert_eq!(pad_or_truncate("", 0), "");
}

#[test]
fn pad_or_truncate_cuts_long_ascii() {
    assert_eq!(pad_or_truncate("abcdef", 3), "abc");
    assert_eq!(pad_or_truncate("abc", 3), "abc");
    assert_eq!(pad_or_truncate("eth0-with-a-very-long-name", 16), "eth0-with-a-very");
}

#[test]
fn pad_or_truncate_counts_half_width_katakana_once() {
    assert_eq!(pad_or_truncate("ｱｲｳ", 2), "ｱｲ");
    assert_eq!(pad_or_truncate("ｱｲｳ", 4), "ｱｲｳ ");
    assert_eq!(char_cells('ｱ'), 1);
    assert_eq!(char_cells('ア'), 2);
    assert_eq!(char_cells('a'), 1);
    assert_eq!(char_cells('😀'), 2);
    assert_eq!(char_cells('→'), 2);
    assert_eq!(char_cells('🚀'), 2);
    assert_eq!(char_cells('é'), 2);
    assert_eq!(char_cells('\u{7f}'), 1);
    assert_eq!(char_cells('\u{80}'), 2);
    assert_eq!(char_cells('\u{FF60}'), 2);
    assert_eq!(char_cells('\u{FFDC}'), 1);
    assert_eq!(char_cells('\u{FFE0}'), 2);
    assert_eq!(char_cells('\u{FFE8}'), 1);
    assert_eq!(char_cells('𠀀'), 2);
}

#[test]
fn pad_or_truncate_counts_wide_characters_twice() {
    assert_eq!(pad_or_truncate("日本語", 5), "日本 ");
    assert_eq!(pad_or_truncate("日本語", 6), "日本語");
    assert_eq!(pad_or_truncate("aé", 2), "a ");
    assert_eq!(pad_or_truncate("aé", 3), "aé");
    assert_eq!(pad_or_truncate("é", 1), " ");
    assert_eq!(pad_or_truncate("🚀", 1), " ");
    assert_eq!(pad_or_truncate("🚀", 2), "🚀");
    assert_eq!(pad_or_truncate("한국", 3), "한 ");
    assert_eq!(pad_or_truncate("ＡＢ", 3), "Ａ ");
}

#[test]
fn ascii_bar_levels_of_empty_half_and_full() {
    assert_eq!(ascii_bar(0, 10), "[          ]");
    assert_eq!(ascii_bar(5, 10), "[====>     ]");
    assert_eq!(ascii_bar(10, 10), "[=========>]");
}

#[test]
fn ascii_bar_edges() {
    assert_eq!(ascii_bar(0, 0), "[]");
    assert_eq!(ascii_bar(1, 1), "[>]");
    assert_eq!(ascii_bar(1, 4), "[>   ]");
    assert_eq!(ascii_bar(3, 4), "[==> ]");
    for w in 0..30usize {
        for f in 0..=w {
            assert_eq!(ascii_bar(f, w).chars().count(), w + 2);
        }
    }
}

#[test]
fn parse_proc_line_splits_at_first_colon() {
    assert_eq!(parse_proc_line("123:bash"), Some(("123".to_string(), "bash".to_string())));
    assert_eq!(parse_proc_line("1:a:b"), Some(("1".to_string(), "a:b".to_string())));
    assert_eq!(parse_proc_line(":x"), Some(("".to_string(), "x".to_string())));
    assert_eq!(parse_proc_line("5:"), Some(("5".to_string(), "".to_string())));
}

#[test]
fn parse_proc_line_without_colon() {
    assert_eq!(parse_proc_line("nocolon"), None);
    assert_eq!(parse_proc_line(""), None);
}

#[test]
fn proc_line_reads_back() {
    let line = proc_line(4242, "my:proc");
    assert_eq!(line, "4242:my:proc");
    assert_eq!(parse_proc_line(&line), Some(("4242".to_string(), "my:proc".to_string())));
    assert_eq!(proc_line(0, ""), "0:");
}

#[test]
fn parse_u64_accepts_digits() {
    assert_eq!(parse_u64("42"), Some(42));
    assert_eq!(parse_u64("+7"), Some(7));
    assert_eq!(parse_u64("007"), Some(7));
    assert_eq!(parse_u64("18446744073709551615"), Some(u64::MAX));
}

#[test]
fn parse_u64_rejects_other_text() {
    assert_eq!(parse_u64(""), None);
    assert_eq!(parse_u64("+"), None);
    assert_eq!(parse_u64("-1"), None);
    assert_eq!(parse_u64("1a"), None);
    assert_eq!(parse_u64(" 1"), None);
    assert_eq!(parse_u64("٣"), None);
    assert_eq!(parse_u64("18446744073709551616"), None);
    assert_eq!(parse_u64("99999999999999999999999"), None);
}

#[test]
fn parse_u64_agrees_with_std() {
    for s in ["0", "1", "+12", "x", "", "+", "++1", "340282366920938463463374607431768211455", "18446744073709551615"] {
        assert_eq!(parse_u64(s), s.parse::<u64>().ok(), "{}", s);
    }
}

#[test]
fn decimal_numerals() {
    assert_eq!(decimal_string(0), "0");
    assert_eq!(decimal_string(1000), "1000");
    assert_eq!(decimal_string(u64::MAX), u64::MAX.to_string());
    for n in [0u64, 7, 10, 99, 100, 12345] {
        assert_eq!(parse_u64(&decimal_string(n)), Some(n));
    }
}

#[test]
fn alignment_helpers() {
    assert_eq!(pad_left("PID", 6), "   PID");
    assert_eq!(pad_left("1234567", 6), "1234567");
    assert_eq!(pad_right("ab", 4), "ab  ");
    assert_eq!(pad_right("abcde", 4), "abcde");
    assert_eq!(repeat('=', 3), "===");
    assert_eq!(string_of(&chars_of("héllo")), "héllo");
}

#[test]
fn substring_search() {
    assert!(contains("firefox", "fox"));
    assert!(contains("firefox", ""));
    assert!(contains("", ""));
    assert!(!contains("", "a"));
    assert!(!contains("fox", "firefox"));
    assert!(contains("aaab", "aab"));
    assert!(!contains("abc", "abd"));
}

#[test]
fn ascii_bar_filled_cells_follow_the_share() {
    let marked = |s: &str| s.chars().filter(|c| *c == '=' || *c == '>').count();
    assert_eq!(marked(&ascii_bar(0, 10)), 0);
    assert_eq!(marked(&ascii_bar(1, 10)), 1);
    assert_eq!(marked(&ascii_bar(7, 10)), 7);
    assert_eq!(marked(&ascii_bar(10, 10)), 10);
    for w in 0..20usize {
        let mut last = 0;
        for f in 0..=w {
            let n = marked(&ascii_bar(f, w));
            assert_eq!(n, f);
            assert!(n >= last);
            last = n;
        }
    }
}
