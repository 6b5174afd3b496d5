use balance_monitor::config::{config_from_form, settings_form};
use balance_monitor::i18n::tr;
use balance_monitor::icon::inside_rounded_rect;
use balance_monitor::money::{less_than, whole_units_of, Amount};
use balance_monitor::monitor::status_error;
use balance_monitor::text::{parse_u64, trim};

#[test]
fn rounded_square_is_symmetric() {
    for x in 0..64 {
        for y in 0..64 {
            let here = inside_rounded_rect(x, y, 64, 12);
            assert_eq!(here, inside_rounded_rect(63 - x, y, 64, 12));
            assert_eq!(here, inside_rounded_rect(x, 63 - y, 64, 12));
            assert_eq!(here, inside_rounded_rect(y, x, 64, 12));
        }
    }
}

#[test]
fn whole_units_grow_with_the_amount() {
    let values = [-1.0, 0.0, 0.4, 1.0, 1.5, 42.0, 99.5, 100.0, 1e20, f64::INFINITY];
    for a in values {
        for b in values {
            if less_than(a.to_bits(), b.to_bits()) {
                assert!(whole_units_of(a.to_bits()) <= whole_units_of(b.to_bits()));
            }
        }
    }
}

#[test]
fn signed_zeros_compare_equal() {
    assert!(!less_than((-0.0f64).to_bits(), 0.0f64.to_bits()));
    assert!(!less_than(0.0f64.to_bits(), (-0.0f64).to_bits()));
    assert!(less_than((-0.0f64).to_bits(), 1.0f64.to_bits()));
}

#[test]
fn trimming_twice_is_trimming_once() {
    for s in ["", "  ", " a ", "a b", "\u{2003}x\u{2003}"] {
        assert_eq!(trim(trim(s)), trim(s));
    }
}

#[test]
fn other_languages_read_chinese() {
    for key in ["checking", "quit", "threshold", "warn_title"] {
        assert_eq!(tr("de", key), tr("zh", key));
        assert!(!tr("zh", key).is_empty());
        assert!(!tr("en", key).is_empty());
    }
}

#[test]
fn settings_round_trip() {
    let threshold = Amount { bits: 2.5f64.to_bits(), shown: "2.50".to_string() };
    let first = config_from_form("  sk-9 ", "0030", Some(threshold.clone()), Some(1), true, false)
        .ok()
        .unwrap();
    let form = settings_form(&first, false);
    assert_eq!(parse_u64(&form.interval), Some(30));
    let again = config_from_form(
        &form.api_key,
        &form.interval,
        Some(threshold),
        Some(form.language_choice),
        first.auto_start,
        first.enable_alerts,
    )
    .ok()
    .unwrap();
    assert_eq!(again.api_key, first.api_key);
    assert_eq!(again.interval_minutes, first.interval_minutes);
    assert_eq!(again.language, first.language);
    assert_eq!(again.threshold_yuan.bits, first.threshold_yuan.bits);
}

#[test]
fn status_401_refuses_the_key() {
    assert_eq!(status_error(401).as_deref(), Some("Invalid API Key (401 Unauthorized)"));
    assert!(status_error(200).is_none());
    assert!(status_error(403).is_none());
    assert!(status_error(500).is_none());
}

#[test]
fn settings_read_back_normalises_language_and_auto_start() {
    let shown = Amount { bits: 1.234f64.to_bits(), shown: "1.23".to_string() };
    let c = balance_monitor::config::AppConfig {
        api_key: "sk-1".to_string(),
        interval_minutes: 15,
        threshold_yuan: shown,
        language: "fr".to_string(),
        auto_start: false,
        enable_alerts: true,
    };
    let form = settings_form(&c, true);
    let reread = Amount { bits: 1.23f64.to_bits(), shown: "1.23".to_string() };
    let back = config_from_form(
        &form.api_key,
        &form.interval,
        Some(reread),
        Some(form.language_choice),
        form.auto_start,
        form.enable_alerts,
    )
    .ok()
    .unwrap();
    assert_eq!(back.api_key, "sk-1");
    assert_eq!(back.interval_minutes, 15);
    assert_eq!(back.language, "zh");
    assert!(back.auto_start);
    assert!(back.enable_alerts);
    assert_eq!(back.threshold_yuan.bits, 1.23f64.to_bits());
}
