use balance_monitor::book::{compare_text, BalanceBook, TextOrder};
use balance_monitor::config::{
    config_from_form, config_from_saved, default_interval, default_lang, default_threshold,
    settings_form, timer_interval_secs, AppConfig, FormError,
};
use balance_monitor::money::{Amount, Balance};
use balance_monitor::monitor::{balances_from_report, default_currency, CheckJob, Monitor};

fn amount(value: f64) -> Amount {
    Amount { bits: value.to_bits(), shown: format!("{value:.2}") }
}

fn balance(total: f64, granted: f64, topped_up: f64) -> Balance {
    Balance { total: amount(total), granted: amount(granted), topped_up: amount(topped_up) }
}

fn config(key: &str, lang: &str, threshold: f64, alerts: bool) -> AppConfig {
    AppConfig {
        api_key: key.to_string(),
        interval_minutes: 10,
        threshold_yuan: amount(threshold),
        language: lang.to_string(),
        auto_start: false,
        enable_alerts: alerts,
    }
}

fn book(entries: &[(&str, f64)]) -> BalanceBook {
    let mut b = BalanceBook::new();
    for (code, total) in entries {
        b.insert(code.to_string(), balance(*total, 0.0, *total));
    }
    b
}

fn codes(b: &BalanceBook) -> Vec<String> {
    (0..b.len()).map(|i| b.entry(i).0.clone()).collect()
}

#[test]
fn compare_text_orders_like_string() {
    let words = ["", "A", "CNY", "CN", "USD", "usd", "中", "é"];
    for a in words {
        for b in words {
            let expected = if a < b {
                TextOrder::Before
            } else if a == b {
                TextOrder::Same
            } else {
                TextOrder::After
            };
            assert!(compare_text(a, b) == expected, "{a} {b}");
        }
    }
}

#[test]
fn book_keeps_currencies_sorted_and_unique() {
    let mut b = book(&[("USD", 3.0), ("CNY", 10.0), ("EUR", 1.0)]);
    assert_eq!(codes(&b), vec!["CNY", "EUR", "USD"]);
    b.insert("EUR".to_string(), balance(7.0, 0.0, 7.0));
    assert_eq!(codes(&b), vec!["CNY", "EUR", "USD"]);
    assert_eq!(b.entry(1).1.total.shown, "7.00");
    let (code, first) = b.first().unwrap();
    assert_eq!(code, "CNY");
    assert_eq!(first.total.shown, "10.00");
    b.clear();
    assert!(b.is_empty());
    assert!(b.first().is_none());
}

#[test]
fn report_without_balances_is_an_error() {
    match balances_from_report(Vec::new()) {
        Err(message) => assert_eq!(message, "No balance information in response"),
        Ok(_) => panic!("an empty report must be refused"),
    }
}

#[test]
fn report_later_entry_wins() {
    let report = vec![
        ("USD".to_string(), balance(1.0, 0.0, 1.0)),
        ("CNY".to_string(), balance(2.0, 0.0, 2.0)),
        ("USD".to_string(), balance(5.0, 0.0, 5.0)),
    ];
    let b = balances_from_report(report).ok().unwrap();
    assert_eq!(codes(&b), vec!["CNY", "USD"]);
    assert_eq!(b.entry(1).1.total.shown, "5.00");
}

#[test]
fn defaults() {
    assert_eq!(default_interval(), 10);
    assert_eq!(default_lang(), "zh");
    assert_eq!(default_currency(), "CNY");
    let t = default_threshold();
    assert_eq!(t.bits, 1.0f64.to_bits());
    assert_eq!(t.shown, "1.00");
    let c = AppConfig::default();
    assert_eq!(c.api_key, "");
    assert_eq!(c.interval_minutes, 10);
    assert!(c.enable_alerts);
    assert!(!c.auto_start);
}

#[test]
fn saved_interval_is_clamped() {
    let mut c = config("k", "en", 1.0, true);
    c.interval_minutes = 0;
    assert_eq!(config_from_saved(Some(c)).interval_minutes, 1);
    let mut c = config("k", "en", 1.0, true);
    c.interval_minutes = 99999;
    assert_eq!(config_from_saved(Some(c)).interval_minutes, 1440);
    assert_eq!(config_from_saved(None).interval_minutes, 10);
}

#[test]
fn timer_period() {
    assert_eq!(timer_interval_secs(0), 60);
    assert_eq!(timer_interval_secs(10), 600);
}

#[test]
fn form_errors() {
    let t = Some(amount(1.0));
    let err = |r: Result<AppConfig, FormError>| r.err().unwrap();
    assert_eq!(err(config_from_form("  ", "10", t.clone(), Some(0), false, true)), FormError::EmptyApiKey);
    assert_eq!(err(config_from_form("k", "ten", t.clone(), Some(0), false, true)), FormError::IntervalNotNumber);
    assert_eq!(err(config_from_form("k", "0", t.clone(), Some(0), false, true)), FormError::IntervalOutOfRange);
    assert_eq!(err(config_from_form("k", "1441", t.clone(), Some(0), false, true)), FormError::IntervalOutOfRange);
    assert_eq!(err(config_from_form("k", "10", None, Some(0), false, true)), FormError::ThresholdNotNumber);
    assert_eq!(
        err(config_from_form("k", "10", Some(amount(-0.5)), Some(0), false, true)),
        FormError::ThresholdNegative
    );
    assert_eq!(FormError::EmptyApiKey.message(), "API Key 不能为空");
    assert_eq!(FormError::IntervalOutOfRange.message(), "查询间隔必须在 1 到 1440 分钟之间");
}

#[test]
fn form_accepts_and_trims() {
    let c = config_from_form(" sk-1 ", " 1440 ", Some(amount(-0.0)), Some(1), true, false).ok().unwrap();
    assert_eq!(c.api_key, "sk-1");
    assert_eq!(c.interval_minutes, 1440);
    assert_eq!(c.language, "en");
    assert!(c.auto_start);
    assert!(!c.enable_alerts);
    let c = config_from_form("k", "1", Some(amount(f64::NAN)), None, false, true).ok().unwrap();
    assert_eq!(c.language, "zh");
}

#[test]
fn form_shows_config() {
    let c = config("sk", "en", 2.5, true);
    let f = settings_form(&c, false);
    assert_eq!(f.api_key, "sk");
    assert_eq!(f.interval, "10");
    assert_eq!(f.threshold, "2.50");
    assert_eq!(f.language_choice, 1);
    assert!(!f.auto_start);
    assert!(settings_form(&c, true).auto_start);
    assert_eq!(settings_form(&config("sk", "zh", 2.5, true), false).language_choice, 0);
}

#[test]
fn check_cycle() {
    let mut m = Monitor::new(config("sk-中1", "en", 1.0, true));
    match m.begin_check() {
        Some(CheckJob::Fetch(key)) => assert_eq!(key, "sk-1"),
        _ => panic!("a check must start"),
    }
    assert!(m.checking);
    assert!(m.begin_check().is_none());
    let s = m.tray_status();
    assert_eq!(s.tooltip, "Checking...");
    assert_eq!(s.label, "...");
    let notify = m.finish_check(Ok(book(&[("CNY", 0.5)])), "2024-01-02 03:04:05".to_string());
    assert!(notify);
    assert!(!m.checking);
    let s = m.tray_status();
    assert_eq!(s.tooltip, "Total balance: 0.50 CNY");
    assert_eq!(s.label, "0");
    assert!(s.low_balance);
}

#[test]
fn blank_key_is_refused() {
    let mut m = Monitor::new(config(" \t", "zh", 1.0, true));
    match m.begin_check() {
        Some(CheckJob::Refuse(message)) => assert_eq!(message, "No API Key configured"),
        _ => panic!("a blank key must be refused"),
    }
}

#[test]
fn failed_check_drops_balances() {
    let mut m = Monitor::new(config("k", "en", 1.0, true));
    m.begin_check();
    m.finish_check(Ok(book(&[("CNY", 12.0)])), "t1".to_string());
    m.begin_check();
    let notify = m.finish_check(Err("timeout".to_string()), "t2".to_string());
    assert!(!notify);
    assert!(m.balances.is_empty());
    assert_eq!(m.last_check.as_deref(), Some("t1"));
    let s = m.tray_status();
    assert_eq!(s.tooltip, "Error: timeout");
    assert_eq!(s.label, "!");
    assert!(!s.low_balance);
    let (title, message) = m.balance_popup();
    assert_eq!(title, "DeepSeek Balance - Error");
    assert_eq!(message, "Error: timeout");
}

#[test]
fn popup_lists_every_currency() {
    let mut m = Monitor::new(config("k", "en", 1.0, true));
    let (title, message) = m.balance_popup();
    assert_eq!(title, "DeepSeek Balance");
    assert_eq!(message, "No balance data yet. Click Check Now or wait for the next check.");
    m.begin_check();
    let mut b = BalanceBook::new();
    b.insert("USD".to_string(), balance(3.0, 1.0, 2.0));
    b.insert("CNY".to_string(), balance(110.0, 10.0, 100.0));
    assert!(!m.finish_check(Ok(b), "2024-05-06 07:08:09".to_string()));
    let (title, message) = m.balance_popup();
    assert_eq!(title, "DeepSeek: 110.00 CNY");
    assert_eq!(
        message,
        "CNY: 110.00  (Topped 100.00, Granted 10.00)\nUSD: 3.00  (Topped 2.00, Granted 1.00)\nLast check: 2024-05-06 07:08:09"
    );
    assert_eq!(m.tray_status().label, "OK");
    assert_eq!(m.status_line(), "Last check: 2024-05-06 07:08:09 | Total balance: 110.00 CNY");
}

#[test]
fn chinese_texts() {
    let mut m = Monitor::new(config("k", "zh", 1.0, true));
    assert_eq!(m.status_line(), "上次查询: 尚未查询");
    m.begin_check();
    m.finish_check(Ok(book(&[("CNY", 0.25)])), "t".to_string());
    let (title, message) = m.low_balance_alert().unwrap();
    assert_eq!(title, "DeepSeek 余额不足");
    assert_eq!(message, "当前余额仅剩 0.25 CNY, 预警线 1.00 CNY");
}

#[test]
fn alerts_can_be_turned_off() {
    let mut m = Monitor::new(config("k", "en", 1.0, false));
    m.begin_check();
    m.finish_check(Ok(book(&[("CNY", 0.25)])), "t".to_string());
    assert!(m.low_balance_alert().is_none());
    assert!(m.is_low_balance());
}

#[test]
fn apply_config_changes_only_the_config() {
    let mut m = Monitor::new(config("k", "en", 1.0, true));
    m.begin_check();
    m.finish_check(Ok(book(&[("CNY", 5.0)])), "t".to_string());
    assert!(!m.is_low_balance());
    let secs = m.apply_config(config("k", "en", 10.0, true));
    assert_eq!(secs, 600);
    assert!(m.is_low_balance());
    assert_eq!(m.balances.len(), 1);
}
