use balance_monitor::i18n::tr;
use balance_monitor::text::{ascii_only, decimal_text, parse_u64, same_text, trim};

#[test]
fn tr_english_table() {
    assert_eq!(tr("en", "checking"), "Checking...");
    assert_eq!(tr("en", "quit"), "Quit");
    assert_eq!(
        tr("en", "balance_empty"),
        "No balance data yet. Click Check Now or wait for the next check."
    );
}

#[test]
fn tr_chinese_table() {
    assert_eq!(tr("zh", "checking"), "查询中...");
    assert_eq!(tr("zh", "warn_title"), "警告");
}

#[test]
fn tr_other_language_falls_back_to_chinese() {
    assert_eq!(tr("fr", "quit"), "退出");
    assert_eq!(tr("", "save"), "保存");
    assert_eq!(tr("EN", "save"), "保存");
}

#[test]
fn tr_unknown_key_is_empty() {
    assert_eq!(tr("en", "no_such_key"), "");
    assert_eq!(tr("zh", "no_such_key"), "");
}

#[test]
fn trim_strips_unicode_white_space() {
    assert_eq!(trim("  sk-123 \t\n"), "sk-123");
    assert_eq!(trim("\u{3000}key\u{a0}"), "key");
    assert_eq!(trim("   "), "");
    assert_eq!(trim("a b"), "a b");
    assert_eq!(trim(""), "");
}

#[test]
fn parse_u64_follows_std() {
    for s in ["0", "10", "+7", "0010", "1440", "18446744073709551615"] {
        assert_eq!(parse_u64(s), s.parse::<u64>().ok(), "{s}");
    }
    for s in ["", "+", "-", "-1", "1a", " 1", "18446744073709551616", "1.5", "++1"] {
        assert_eq!(parse_u64(s), None, "{s}");
    }
}

#[test]
fn decimal_text_matches_to_string() {
    for n in [0u64, 7, 10, 99, 100, 1440, u64::MAX] {
        assert_eq!(decimal_text(n), n.to_string());
    }
}

#[test]
fn decimal_reads_back() {
    for n in [0u64, 5, 123, 1440] {
        assert_eq!(parse_u64(&decimal_text(n)), Some(n));
    }
}

#[test]
fn ascii_only_drops_other_characters() {
    assert_eq!(ascii_only("sk-ab中c"), "sk-abc");
    assert_eq!(ascii_only("é"), "");
    assert_eq!(ascii_only("plain"), "plain");
}

#[test]
fn same_text_compares_characters() {
    assert!(same_text("en", "en"));
    assert!(!same_text("en", "e"));
    assert!(!same_text("en", "zh"));
}
