//! The texts of the user interface in English and in Chinese.

use vstd::prelude::*;
use crate::text::same_text;

verus! {

/// The English text for `key`, where the table has one.
pub open spec fn english(key: Seq<char>) -> Option<Seq<char>> {
    if key == "checking"@ {
        Some("Checking..."@)
    } else if key == "error"@ {
        Some("Error"@)
    } else if key == "view_balance"@ {
        Some("View Balance"@)
    } else if key == "check_now"@ {
        Some("Check Now"@)
    } else if key == "settings"@ {
        Some("Settings..."@)
    } else if key == "quit"@ {
        Some("Quit"@)
    } else if key == "settings_title"@ {
        Some("DeepSeek Balance Monitor - Settings"@)
    } else if key == "api_key_label"@ {
        Some("DeepSeek API Key:"@)
    } else if key == "show_key"@ {
        Some("Show API Key"@)
    } else if key == "interval_label"@ {
        Some("Check interval (minutes, 1-1440):"@)
    } else if key == "threshold_label"@ {
        Some("Low balance threshold:"@)
    } else if key == "language_label"@ {
        Some("Language:"@)
    } else if key == "auto_start"@ {
        Some("Auto-start on boot"@)
    } else if key == "enable_alerts"@ {
        Some("Enable balance alerts"@)
    } else if key == "save"@ {
        Some("Save"@)
    } else if key == "cancel"@ {
        Some("Cancel"@)
    } else if key == "not_checked"@ {
        Some("Not checked"@)
    } else if key == "total_balance"@ {
        Some("Total balance"@)
    } else if key == "topped_up"@ {
        Some("Topped"@)
    } else if key == "granted"@ {
        Some("Granted"@)
    } else if key == "last_check"@ {
        Some("Last check"@)
    } else if key == "balance_title"@ {
        Some("DeepSeek Balance"@)
    } else if key == "balance_empty"@ {
        Some("No balance data yet. Click Check Now or wait for the next check."@)
    } else if key == "balance_error_title"@ {
        Some("DeepSeek Balance - Error"@)
    } else if key == "low_balance_title"@ {
        Some("DeepSeek Low Balance"@)
    } else if key == "low_balance_body"@ {
        Some("Balance is only"@)
    } else if key == "threshold"@ {
        Some("threshold"@)
    } else if key == "warn_title"@ {
        Some("Warning"@)
    } else {
        None
    }
}

/// The Chinese text for `key`; the empty text for a key the table lacks.
pub open spec fn chinese(key: Seq<char>) -> Seq<char> {
    if key == "checking"@ {
        "查询中..."@
    } else if key == "error"@ {
        "错误"@
    } else if key == "view_balance"@ {
        "查看余额"@
    } else if key == "check_now"@ {
        "立即查询"@
    } else if key == "settings"@ {
        "设置..."@
    } else if key == "quit"@ {
        "退出"@
    } else if key == "settings_title"@ {
        "DeepSeek Balance Monitor - 设置"@
    } else if key == "api_key_label"@ {
        "DeepSeek API Key:"@
    } else if key == "show_key"@ {
        "显示 API Key"@
    } else if key == "interval_label"@ {
        "查询间隔（分钟，1-1440）："@
    } else if key == "threshold_label"@ {
        "余额预警线："@
    } else if key == "language_label"@ {
        "语言 / Language:"@
    } else if key == "auto_start"@ {
        "开机自动启动"@
    } else if key == "enable_alerts"@ {
        "开启预警提醒"@
    } else if key == "save"@ {
        "保存"@
    } else if key == "cancel"@ {
        "取消"@
    } else if key == "not_checked"@ {
        "尚未查询"@
    } else if key == "total_balance"@ {
        "总余额"@
    } else if key == "topped_up"@ {
        "充值"@
    } else if key == "granted"@ {
        "赠送"@
    } else if key == "last_check"@ {
        "上次查询"@
    } else if key == "balance_title"@ {
        "DeepSeek 余额"@
    } else if key == "balance_empty"@ {
        "尚未查询到余额，请稍后或点击立即查询。"@
    } else if key == "balance_error_title"@ {
        "DeepSeek 余额 - 错误"@
    } else if key == "low_balance_title"@ {
        "DeepSeek 余额不足"@
    } else if key == "low_balance_body"@ {
        "当前余额仅剩"@
    } else if key == "threshold"@ {
        "预警线"@
    } else if key == "warn_title"@ {
        "警告"@
    } else {
        ""@
    }
}

/// The text shown for `key` in language `lang`: English for the code `en`
/// where the English table has the key, Chinese otherwise.
pub open spec fn localized(lang: Seq<char>, key: Seq<char>) -> Seq<char> {
    if lang == "en"@ && english(key) is Some {
        english(key)->0
    } else {
        chinese(key)
    }
}

fn english_text(key: &str) -> (text: Option<&'static str>)
    ensures
        match (text, english(key@)) {
            (Some(t), Some(e)) => t@ == e,
            (None, None) => true,
            _ => false,
        },
{
    if same_text(key, "checking") {
        return Some("Checking...");
    }
    if same_text(key, "error") {
        return Some("Error");
    }
    if same_text(key, "view_balance") {
        return Some("View Balance");
    }
    if same_text(key, "check_now") {
        return Some("Check Now");
    }
    if same_text(key, "settings") {
        return Some("Settings...");
    }
    if same_text(key, "quit") {
        return Some("Quit");
    }
    if same_text(key, "settings_title") {
        return Some("DeepSeek Balance Monitor - Settings");
    }
    if same_text(key, "api_key_label") {
        return Some("DeepSeek API Key:");
    }
    if same_text(key, "show_key") {
        return Some("Show API Key");
    }
    if same_text(key, "interval_label") {
        return Some("Check interval (minutes, 1-1440):");
    }
    if same_text(key, "threshold_label") {
        return Some("Low balance threshold:");
    }
    if same_text(key, "language_label") {
        return Some("Language:");
    }
    if same_text(key, "auto_start") {
        return Some("Auto-start on boot");
    }
    if same_text(key, "enable_alerts") {
        return Some("Enable balance alerts");
    }
    if same_text(key, "save") {
        return Some("Save");
    }
    if same_text(key, "cancel") {
        return Some("Cancel");
    }
    if same_text(key, "not_checked") {
        return Some("Not checked");
    }
    if same_text(key, "total_balance") {
        return Some("Total balance");
    }
    if same_text(key, "topped_up") {
        return Some("Topped");
    }
    if same_text(key, "granted") {
        return Some("Granted");
    }
    if same_text(key, "last_check") {
        return Some("Last check");
    }
    if same_text(key, "balance_title") {
        return Some("DeepSeek Balance");
    }
    if same_text(key, "balance_empty") {
        return Some("No balance data yet. Click Check Now or wait for the next check.");
    }
    if same_text(key, "balance_error_title") {
        return Some("DeepSeek Balance - Error");
    }
    if same_text(key, "low_balance_title") {
        return Some("DeepSeek Low Balance");
    }
    if same_text(key, "low_balance_body") {
        return Some("Balance is only");
    }
    if same_text(key, "threshold") {
        return Some("threshold");
    }
    if same_text(key, "warn_title") {
        return Some("Warning");
    }
    None
}

fn chinese_text(key: &str) -> (text: &'static str)
    ensures
        text@ == chinese(key@),
{
    if same_text(key, "checking") {
        return "查询中...";
    }
    if same_text(key, "error") {
        return "错误";
    }
    if same_text(key, "view_balance") {
        return "查看余额";
    }
    if same_text(key, "check_now") {
        return "立即查询";
    }
    if same_text(key, "settings") {
        return "设置...";
    }
    if same_text(key, "quit") {
        return "退出";
    }
    if same_text(key, "settings_title") {
        return "DeepSeek Balance Monitor - 设置";
    }
    if same_text(key, "api_key_label") {
        return "DeepSeek API Key:";
    }
    if same_text(key, "show_key") {
        return "显示 API Key";
    }
    if same_text(key, "interval_label") {
        return "查询间隔（分钟，1-1440）：";
    }
    if same_text(key, "threshold_label") {
        return "余额预警线：";
    }
    if same_text(key, "language_label") {
        return "语言 / Language:";
    }
    if same_text(key, "auto_start") {
        return "开机自动启动";
    }
    if same_text(key, "enable_alerts") {
        return "开启预警提醒";
    }
    if same_text(key, "save") {
        return "保存";
    }
    if same_text(key, "cancel") {
        return "取消";
    }
    if same_text(key, "not_checked") {
        return "尚未查询";
    }
    if same_text(key, "total_balance") {
        return "总余额";
    }
    if same_text(key, "topped_up") {
        return "充值";
    }
    if same_text(key, "granted") {
        return "赠送";
    }
    if same_text(key, "last_check") {
        return "上次查询";
    }
    if same_text(key, "balance_title") {
        return "DeepSeek 余额";
    }
    if same_text(key, "balance_empty") {
        return "尚未查询到余额，请稍后或点击立即查询。";
    }
    if same_text(key, "balance_error_title") {
        return "DeepSeek 余额 - 错误";
    }
    if same_text(key, "low_balance_title") {
        return "DeepSeek 余额不足";
    }
    if same_text(key, "low_balance_body") {
        return "当前余额仅剩";
    }
    if same_text(key, "threshold") {
        return "预警线";
    }
    if same_text(key, "warn_title") {
        return "警告";
    }
    ""
}

/// The user-interface text for `key` in language `lang`.
pub fn tr(lang: &str, key: &str) -> (text: &'static str)
    ensures
        text@ == localized(lang@, key@),
{
    if same_text(lang, "en") {
        if let Some(text) = english_text(key) {
            return text;
        }
    }
    chinese_text(key)
}

/// Any language code other than `en` reads every text in Chinese.
pub proof fn lemma_other_languages_read_chinese(lang: Seq<char>, key: Seq<char>)
    requires
        lang != "en"@,
    ensures
        localized(lang, key) == chinese(key),
        localized("zh"@, key) == chinese(key),
{
    reveal_strlit("en");
    reveal_strlit("zh");
    assert("en"@[0] == 'e' && "zh"@[0] == 'z');
}

/// The two tables know the same keys: a key has an English text exactly
/// when its Chinese text is not empty.
pub proof fn lemma_tables_know_same_keys(key: Seq<char>)
    ensures
        english(key) is Some <==> chinese(key).len() > 0,
{
    reveal_strlit("");
    reveal_strlit("查询中...");
    reveal_strlit("错误");
    reveal_strlit("查看余额");
    reveal_strlit("立即查询");
    reveal_strlit("设置...");
    reveal_strlit("退出");
    reveal_strlit("DeepSeek Balance Monitor - 设置");
    reveal_strlit("DeepSeek API Key:");
    reveal_strlit("显示 API Key");
    reveal_strlit("查询间隔（分钟，1-1440）：");
    reveal_strlit("余额预警线：");
    reveal_strlit("语言 / Language:");
    reveal_strlit("开机自动启动");
    reveal_strlit("开启预警提醒");
    reveal_strlit("保存");
    reveal_strlit("取消");
    reveal_strlit("尚未查询");
    reveal_strlit("总余额");
    reveal_strlit("充值");
    reveal_strlit("赠送");
    reveal_strlit("上次查询");
    reveal_strlit("DeepSeek 余额");
    reveal_strlit("尚未查询到余额，请稍后或点击立即查询。");
    reveal_strlit("DeepSeek 余额 - 错误");
    reveal_strlit("DeepSeek 余额不足");
    reveal_strlit("当前余额仅剩");
    reveal_strlit("预警线");
    reveal_strlit("警告");
}

/// The text of every key of the interface in either language: the English
/// text for the code `en`, the Chinese text for any other code.
pub proof fn lemma_interface_texts(lang: Seq<char>)
    ensures
        localized(lang, "api_key_label"@) == (if lang == "en"@ { "DeepSeek API Key:"@ } else { "DeepSeek API Key:"@ }),
        localized(lang, "auto_start"@) == (if lang == "en"@ { "Auto-start on boot"@ } else { "开机自动启动"@ }),
        localized(lang, "balance_empty"@) == (if lang == "en"@ { "No balance data yet. Click Check Now or wait for the next check."@ } else { "尚未查询到余额，请稍后或点击立即查询。"@ }),
        localized(lang, "balance_error_title"@) == (if lang == "en"@ { "DeepSeek Balance - Error"@ } else { "DeepSeek 余额 - 错误"@ }),
        localized(lang, "balance_title"@) == (if lang == "en"@ { "DeepSeek Balance"@ } else { "DeepSeek 余额"@ }),
        localized(lang, "cancel"@) == (if lang == "en"@ { "Cancel"@ } else { "取消"@ }),
        localized(lang, "check_now"@) == (if lang == "en"@ { "Check Now"@ } else { "立即查询"@ }),
        localized(lang, "checking"@) == (if lang == "en"@ { "Checking..."@ } else { "查询中..."@ }),
        localized(lang, "enable_alerts"@) == (if lang == "en"@ { "Enable balance alerts"@ } else { "开启预警提醒"@ }),
        localized(lang, "error"@) == (if lang == "en"@ { "Error"@ } else { "错误"@ }),
        localized(lang, "granted"@) == (if lang == "en"@ { "Granted"@ } else { "赠送"@ }),
        localized(lang, "interval_label"@) == (if lang == "en"@ { "Check interval (minutes, 1-1440):"@ } else { "查询间隔（分钟，1-1440）："@ }),
        localized(lang, "language_label"@) == (if lang == "en"@ { "Language:"@ } else { "语言 / Language:"@ }),
        localized(lang, "last_check"@) == (if lang == "en"@ { "Last check"@ } else { "上次查询"@ }),
        localized(lang, "low_balance_body"@) == (if lang == "en"@ { "Balance is only"@ } else { "当前余额仅剩"@ }),
        localized(lang, "low_balance_title"@) == (if lang == "en"@ { "DeepSeek Low Balance"@ } else { "DeepSeek 余额不足"@ }),
        localized(lang, "not_checked"@) == (if lang == "en"@ { "Not checked"@ } else { "尚未查询"@ }),
        localized(lang, "quit"@) == (if lang == "en"@ { "Quit"@ } else { "退出"@ }),
        localized(lang, "save"@) == (if lang == "en"@ { "Save"@ } else { "保存"@ }),
        localized(lang, "settings"@) == (if lang == "en"@ { "Settings..."@ } else { "设置..."@ }),
        localized(lang, "settings_title"@) == (if lang == "en"@ { "DeepSeek Balance Monitor - Settings"@ } else { "DeepSeek Balance Monitor - 设置"@ }),
        localized(lang, "show_key"@) == (if lang == "en"@ { "Show API Key"@ } else { "显示 API Key"@ }),
        localized(lang, "threshold"@) == (if lang == "en"@ { "threshold"@ } else { "预警线"@ }),
        localized(lang, "threshold_label"@) == (if lang == "en"@ { "Low balance threshold:"@ } else { "余额预警线："@ }),
        localized(lang, "topped_up"@) == (if lang == "en"@ { "Topped"@ } else { "充值"@ }),
        localized(lang, "total_balance"@) == (if lang == "en"@ { "Total balance"@ } else { "总余额"@ }),
        localized(lang, "view_balance"@) == (if lang == "en"@ { "View Balance"@ } else { "查看余额"@ }),
        localized(lang, "warn_title"@) == (if lang == "en"@ { "Warning"@ } else { "警告"@ }),
{
    reveal_strlit("en");
    reveal_strlit("api_key_label");
    reveal_strlit("auto_start");
    reveal_strlit("balance_empty");
    reveal_strlit("balance_error_title");
    reveal_strlit("balance_title");
    reveal_strlit("cancel");
    reveal_strlit("check_now");
    reveal_strlit("checking");
    reveal_strlit("enable_alerts");
    reveal_strlit("error");
    reveal_strlit("granted");
    reveal_strlit("interval_label");
    reveal_strlit("language_label");
    reveal_strlit("last_check");
    reveal_strlit("low_balance_body");
    reveal_strlit("low_balance_title");
    reveal_strlit("not_checked");
    reveal_strlit("quit");
    reveal_strlit("save");
    reveal_strlit("settings");
    reveal_strlit("settings_title");
    reveal_strlit("show_key");
    reveal_strlit("threshold");
    reveal_strlit("threshold_label");
    reveal_strlit("topped_up");
    reveal_strlit("total_balance");
    reveal_strlit("view_balance");
    reveal_strlit("warn_title");
    assert("checking"@.len() == 8);
    assert("checking"@[0] == 'c');
    assert("error"@.len() == 5);
    assert("view_balance"@.len() == 12);
    assert("check_now"@.len() == 9);
    assert("check_now"@[0] == 'c');
    assert("settings"@.len() == 8);
    assert("settings"@[0] == 's');
    assert("settings"@[1] == 'e');
    assert("quit"@.len() == 4);
    assert("quit"@[0] == 'q');
    assert("settings_title"@.len() == 14);
    assert("settings_title"@[0] == 's');
    assert("api_key_label"@.len() == 13);
    assert("api_key_label"@[0] == 'a');
    assert("show_key"@.len() == 8);
    assert("show_key"@[0] == 's');
    assert("show_key"@[1] == 'h');
    assert("interval_label"@.len() == 14);
    assert("interval_label"@[0] == 'i');
    assert("threshold_label"@.len() == 15);
    assert("language_label"@.len() == 14);
    assert("language_label"@[0] == 'l');
    assert("auto_start"@.len() == 10);
    assert("auto_start"@[0] == 'a');
    assert("enable_alerts"@.len() == 13);
    assert("enable_alerts"@[0] == 'e');
    assert("save"@.len() == 4);
    assert("save"@[0] == 's');
    assert("cancel"@.len() == 6);
    assert("not_checked"@.len() == 11);
    assert("total_balance"@.len() == 13);
    assert("total_balance"@[0] == 't');
    assert("topped_up"@.len() == 9);
    assert("topped_up"@[0] == 't');
    assert("topped_up"@[1] == 'o');
    assert("granted"@.len() == 7);
    assert("last_check"@.len() == 10);
    assert("last_check"@[0] == 'l');
    assert("balance_title"@.len() == 13);
    assert("balance_title"@[0] == 'b');
    assert("balance_title"@[8] == 't');
    assert("balance_empty"@.len() == 13);
    assert("balance_empty"@[0] == 'b');
    assert("balance_empty"@[8] == 'e');
    assert("balance_error_title"@.len() == 19);
    assert("low_balance_title"@.len() == 17);
    assert("low_balance_body"@.len() == 16);
    assert("threshold"@.len() == 9);
    assert("threshold"@[0] == 't');
    assert("threshold"@[1] == 'h');
    assert("warn_title"@.len() == 10);
    assert("warn_title"@[0] == 'w');
}

} // verus!
