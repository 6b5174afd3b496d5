//! The user's settings: their defaults, how saved settings are normalised,
//! how the settings form is filled and how what the user typed is checked.

use vstd::prelude::*;
use crate::money::{Amount, AmountView, float_lt, less_than, maybe_view};
use crate::text::{decimal, decimal_text, parse_u64, parsed_u64, trim, trimmed};

verus! {

/// Shortest interval between two balance checks, in minutes.
pub const MIN_INTERVAL: u64 = 1;

/// Longest interval between two balance checks, in minutes (a day).
pub const MAX_INTERVAL: u64 = 1440;

/// The bits of the binary64 value 1.0.
pub const ONE_BITS: u64 = 0x3FF0_0000_0000_0000;

/// The bits of the binary64 value 0.0.
pub const ZERO_BITS: u64 = 0;

/// The settings of the application.
#[derive(Clone, Debug)]
pub struct AppConfig {
    pub api_key: String,
    pub interval_minutes: u64,
    pub threshold_yuan: Amount,
    pub language: String,
    pub auto_start: bool,
    pub enable_alerts: bool,
}

/// What a configuration denotes.
pub struct ConfigView {
    pub api_key: Seq<char>,
    pub interval_minutes: u64,
    pub threshold_yuan: AmountView,
    pub language: Seq<char>,
    pub auto_start: bool,
    pub enable_alerts: bool,
}

impl View for AppConfig {
    type V = ConfigView;

    open spec fn view(&self) -> ConfigView {
        ConfigView {
            api_key: self.api_key@,
            interval_minutes: self.interval_minutes,
            threshold_yuan: self.threshold_yuan@,
            language: self.language@,
            auto_start: self.auto_start,
            enable_alerts: self.enable_alerts,
        }
    }
}

/// The default interval between checks: ten minutes.
pub fn default_interval() -> (minutes: u64)
    ensures
        minutes == 10,
{
    10
}

/// The default low-balance threshold: 1.0, shown as `1.00`.
pub fn default_threshold() -> (threshold: Amount)
    ensures
        threshold.bits == ONE_BITS,
        threshold.shown@ == "1.00"@,
{
    Amount { bits: ONE_BITS, shown: String::from_str("1.00") }
}

/// The default language code: Chinese.
pub fn default_lang() -> (lang: String)
    ensures
        lang@ == "zh"@,
{
    String::from_str("zh")
}

/// Alerts are on unless the user turns them off.
pub fn default_alerts() -> (enabled: bool)
    ensures
        enabled,
{
    true
}

/// The configuration before the user has saved any.
pub open spec fn default_config() -> ConfigView {
    ConfigView {
        api_key: Seq::empty(),
        interval_minutes: 10,
        threshold_yuan: AmountView { bits: ONE_BITS, shown: "1.00"@ },
        language: "zh"@,
        auto_start: false,
        enable_alerts: true,
    }
}

impl Default for AppConfig {
    fn default() -> (config: AppConfig)
        ensures
            config@ == default_config(),
    {
        AppConfig {
            api_key: String::new(),
            interval_minutes: default_interval(),
            threshold_yuan: default_threshold(),
            language: default_lang(),
            auto_start: false,
            enable_alerts: default_alerts(),
        }
    }
}

/// `minutes.clamp(1, 1440)`.
pub open spec fn clamped_interval(minutes: u64) -> u64 {
    if minutes < MIN_INTERVAL {
        MIN_INTERVAL
    } else if minutes > MAX_INTERVAL {
        MAX_INTERVAL
    } else {
        minutes
    }
}

/// The configuration the application starts with: the saved one when it
/// could be read, the default otherwise, with the interval clamped to one
/// minute to a day.
pub fn config_from_saved(saved: Option<AppConfig>) -> (config: AppConfig)
    ensures
        config@ == ({
            let base = match saved {
                Some(c) => c@,
                None => default_config(),
            };
            ConfigView { interval_minutes: clamped_interval(base.interval_minutes), ..base }
        }),
{
    let mut config = match saved {
        Some(c) => c,
        None => AppConfig::default(),
    };
    config.interval_minutes = if config.interval_minutes < MIN_INTERVAL {
        MIN_INTERVAL
    } else if config.interval_minutes > MAX_INTERVAL {
        MAX_INTERVAL
    } else {
        config.interval_minutes
    };
    config
}

/// Seconds between two timer ticks for an interval in minutes (at least
/// one minute).
pub open spec fn timer_seconds(minutes: u64) -> int {
    (if minutes < 1 { 1 } else { minutes as int }) * 60
}

/// Seconds between two timer ticks: `minutes.max(1) * 60`. Intervals whose
/// seconds overflow a `u64` are left out, as the multiplication would fail.
pub fn timer_interval_secs(minutes: u64) -> (secs: u64)
    requires
        timer_seconds(minutes) <= u64::MAX,
    ensures
        secs == timer_seconds(minutes),
{
    let m = if minutes < 1 {
        1
    } else {
        minutes
    };
    m * 60
}

/// Why the settings the user typed were refused.
#[derive(PartialEq, Eq, Structural, Debug, Clone, Copy)]
pub enum FormError {
    EmptyApiKey,
    IntervalNotNumber,
    IntervalOutOfRange,
    ThresholdNotNumber,
    ThresholdNegative,
}

/// The message shown for each refusal.
pub open spec fn form_error_text(e: FormError) -> Seq<char> {
    match e {
        FormError::EmptyApiKey => "API Key 不能为空"@,
        FormError::IntervalNotNumber => "查询间隔必须是数字"@,
        FormError::IntervalOutOfRange => "查询间隔必须在 1 到 1440 分钟之间"@,
        FormError::ThresholdNotNumber => "余额预警线必须是数字"@,
        FormError::ThresholdNegative => "余额预警线不能小于 0"@,
    }
}

impl FormError {
    /// The message shown to the user.
    pub fn message(&self) -> (text: String)
        ensures
            text@ == form_error_text(*self),
    {
        match self {
            FormError::EmptyApiKey => String::from_str("API Key 不能为空"),
            FormError::IntervalNotNumber => String::from_str("查询间隔必须是数字"),
            FormError::IntervalOutOfRange => String::from_str("查询间隔必须在 1 到 1440 分钟之间"),
            FormError::ThresholdNotNumber => String::from_str("余额预警线必须是数字"),
            FormError::ThresholdNegative => String::from_str("余额预警线不能小于 0"),
        }
    }
}

/// The first refusal that the settings form earns, checked in the order
/// key, interval, threshold; `None` when the form is accepted. `threshold`
/// is the number read from the trimmed threshold field, `None` when it is no
/// number.
pub open spec fn form_refusal(api_key: Seq<char>, interval: Seq<char>, threshold: Option<AmountView>) -> Option<FormError> {
    if trimmed(api_key).len() == 0 {
        Some(FormError::EmptyApiKey)
    } else if parsed_u64(trimmed(interval)) is None {
        Some(FormError::IntervalNotNumber)
    } else if !(MIN_INTERVAL <= parsed_u64(trimmed(interval))->0 <= MAX_INTERVAL) {
        Some(FormError::IntervalOutOfRange)
    } else if threshold is None {
        Some(FormError::ThresholdNotNumber)
    } else if float_lt(threshold->0.bits, ZERO_BITS) {
        Some(FormError::ThresholdNegative)
    } else {
        None
    }
}

/// The language code for the entry chosen in the language list: English
/// for the second entry, Chinese otherwise.
pub open spec fn chosen_language(choice: Option<usize>) -> Seq<char> {
    if choice == Some(1usize) {
        "en"@
    } else {
        "zh"@
    }
}

/// The configuration that an accepted settings form gives.
pub open spec fn form_config(
    api_key: Seq<char>,
    interval: Seq<char>,
    threshold: AmountView,
    choice: Option<usize>,
    auto_start: bool,
    enable_alerts: bool,
) -> ConfigView {
    ConfigView {
        api_key: trimmed(api_key),
        interval_minutes: parsed_u64(trimmed(interval))->0,
        threshold_yuan: threshold,
        language: chosen_language(choice),
        auto_start,
        enable_alerts,
    }
}

/// Reads the settings form: the key and the interval are trimmed, the
/// interval must be a whole number of minutes from 1 to 1440, and the
/// threshold must be a number that is not below zero.
pub fn config_from_form(
    api_key: &str,
    interval: &str,
    threshold: Option<Amount>,
    choice: Option<usize>,
    auto_start: bool,
    enable_alerts: bool,
) -> (result: Result<AppConfig, FormError>)
    ensures
        match result {
            Ok(config) => {
                &&& form_refusal(api_key@, interval@, maybe_view(threshold)) is None
                &&& config@ == form_config(
                    api_key@,
                    interval@,
                    threshold->0@,
                    choice,
                    auto_start,
                    enable_alerts,
                )
            },
            Err(e) => form_refusal(api_key@, interval@, maybe_view(threshold)) == Some(e),
        },
{
    let key = trim(api_key);
    if key.unicode_len() == 0 {
        return Err(FormError::EmptyApiKey);
    }
    let minutes = match parse_u64(trim(interval)) {
        Some(m) => m,
        None => {
            return Err(FormError::IntervalNotNumber);
        },
    };
    if !(MIN_INTERVAL <= minutes && minutes <= MAX_INTERVAL) {
        return Err(FormError::IntervalOutOfRange);
    }
    let threshold_yuan = match threshold {
        Some(t) => t,
        None => {
            return Err(FormError::ThresholdNotNumber);
        },
    };
    if less_than(threshold_yuan.bits, ZERO_BITS) {
        return Err(FormError::ThresholdNegative);
    }
    let language = if choice == Some(1usize) {
        String::from_str("en")
    } else {
        String::from_str("zh")
    };
    Ok(
        AppConfig {
            api_key: String::from_str(key),
            interval_minutes: minutes,
            threshold_yuan,
            language,
            auto_start,
            enable_alerts,
        },
    )
}

/// What the settings form shows when it opens.
pub struct SettingsForm {
    pub api_key: String,
    pub interval: String,
    pub threshold: String,
    pub language_choice: usize,
    pub auto_start: bool,
    pub enable_alerts: bool,
}

/// Fills the settings form from the configuration. Auto-start shows as on
/// when the configuration asks for it or when the system already starts
/// the application (`registered`).
pub fn settings_form(config: &AppConfig, registered: bool) -> (form: SettingsForm)
    ensures
        form.api_key@ == config.api_key@,
        form.interval@ == decimal(config.interval_minutes as nat),
        form.threshold@ == config.threshold_yuan.shown@,
        form.language_choice == (if config.language@ == "en"@ {
            1usize
        } else {
            0usize
        }),
        form.auto_start == (config.auto_start || registered),
        form.enable_alerts == config.enable_alerts,
{
    SettingsForm {
        api_key: config.api_key.clone(),
        interval: decimal_text(config.interval_minutes),
        threshold: config.threshold_yuan.shown.clone(),
        language_choice: if crate::text::same_text(config.language.as_str(), "en") {
            1
        } else {
            0
        },
        auto_start: config.auto_start || registered,
        enable_alerts: config.enable_alerts,
    }
}

/// The entry of the language list that shows a language code.
pub open spec fn language_choice(language: Seq<char>) -> usize {
    if language == "en"@ {
        1
    } else {
        0
    }
}

/// A configuration accepted from the settings form, shown in the form again
/// (as `settings_form` fills it) and saved with the same threshold, is
/// accepted again and gives the same configuration.
pub proof fn lemma_form_round_trip(
    api_key: Seq<char>,
    interval: Seq<char>,
    threshold: AmountView,
    choice: Option<usize>,
    auto_start: bool,
    enable_alerts: bool,
)
    requires
        form_refusal(api_key, interval, Some(threshold)) is None,
    ensures
        ({
            let c = form_config(api_key, interval, threshold, choice, auto_start, enable_alerts);
            &&& form_refusal(c.api_key, decimal(c.interval_minutes as nat), Some(c.threshold_yuan)) is None
            &&& form_config(
                c.api_key,
                decimal(c.interval_minutes as nat),
                c.threshold_yuan,
                Some(language_choice(c.language)),
                c.auto_start,
                c.enable_alerts,
            ) == c
        }),
{
    let c = form_config(api_key, interval, threshold, choice, auto_start, enable_alerts);
    crate::text::lemma_trim_idempotent(api_key);
    crate::text::lemma_parse_decimal(c.interval_minutes);
    reveal_strlit("en");
    reveal_strlit("zh");
    assert("en"@[0] == 'e' && "zh"@[0] == 'z');
}

/// The interval the application starts with lies between one minute and a
/// day, and its timer fires at most once a minute.
pub proof fn lemma_loaded_interval_in_range(minutes: u64)
    ensures
        MIN_INTERVAL <= clamped_interval(minutes) <= MAX_INTERVAL,
        timer_seconds(clamped_interval(minutes)) >= 60,
{
}

/// A configuration with a trimmed, non-empty key and an interval of one
/// minute to a day, shown in the settings form (as `settings_form` fills it,
/// with `registered` telling whether the system already starts the
/// application) and saved without edits, is accepted. It comes back with the
/// threshold read from the form's field (`threshold`, any number not below
/// zero), the language code made `en` or `zh`, and auto-start on when it was
/// on or registered; everything else is as it was.
pub proof fn lemma_settings_form_reads_back(c: ConfigView, registered: bool, threshold: AmountView)
    requires
        c.api_key.len() > 0,
        trimmed(c.api_key) == c.api_key,
        MIN_INTERVAL <= c.interval_minutes <= MAX_INTERVAL,
        !float_lt(threshold.bits, ZERO_BITS),
    ensures
        form_refusal(c.api_key, decimal(c.interval_minutes as nat), Some(threshold)) is None,
        form_config(
            c.api_key,
            decimal(c.interval_minutes as nat),
            threshold,
            Some(language_choice(c.language)),
            c.auto_start || registered,
            c.enable_alerts,
        ) == (ConfigView {
            threshold_yuan: threshold,
            language: if c.language == "en"@ {
                "en"@
            } else {
                "zh"@
            },
            auto_start: c.auto_start || registered,
            ..c
        }),
{
    crate::text::lemma_parse_decimal(c.interval_minutes);
    reveal_strlit("en");
    reveal_strlit("zh");
    assert("en"@[0] == 'e' && "zh"@[0] == 'z');
}

} // verus!
