//! The state of the balance monitor and the decisions taken on it: when a
//! check starts, what a finished check changes, and what the tray, the
//! balance pop-up, the low-balance alert and the settings status line show.

use vstd::prelude::*;
use crate::book::BalanceBook;
use crate::config::{AppConfig, ConfigView, timer_interval_secs, timer_seconds};
use crate::i18n::{tr, localized};
use crate::money::{Balance, BalanceView, float_lt, icon_label, icon_text};
use crate::text::{ascii_only, ascii_part, trim, trimmed};

verus! {

/// The currency the service is assumed to report when it names none.
pub fn default_currency() -> (code: String)
    ensures
        code@ == "CNY"@,
{
    String::from_str("CNY")
}

/// The message of a check that found no API key.
pub open spec fn no_key_message() -> Seq<char> {
    "No API Key configured"@
}

/// The message of a check whose key the service refused.
pub open spec fn refused_key_message() -> Seq<char> {
    "Invalid API Key (401 Unauthorized)"@
}

/// The error that the HTTP status of the service's answer gives before its
/// body is read: status 401 means the service refused the key; any other
/// status gives none here.
pub fn status_error(status: u16) -> (error: Option<String>)
    ensures
        match error {
            Some(e) => status == 401 && e@ == refused_key_message(),
            None => status != 401,
        },
{
    if status == 401 {
        Some(String::from_str("Invalid API Key (401 Unauthorized)"))
    } else {
        None
    }
}

/// The message of a check whose answer listed no balance.
pub open spec fn no_balance_message() -> Seq<char> {
    "No balance information in response"@
}

/// What the monitor knows.
pub struct Monitor {
    pub config: AppConfig,
    pub balances: BalanceBook,
    /// When the last successful check finished, already formatted.
    pub last_check: Option<String>,
    pub error: Option<String>,
    pub checking: bool,
}

/// What the monitor's state denotes.
pub struct MonitorView {
    pub config: ConfigView,
    pub balances: Map<Seq<char>, BalanceView>,
    pub entries: Seq<(Seq<char>, BalanceView)>,
    pub last_check: Option<Seq<char>>,
    pub error: Option<Seq<char>>,
    pub checking: bool,
}

/// The text of an optional string.
pub open spec fn text_of(s: Option<String>) -> Option<Seq<char>> {
    match s {
        Some(t) => Some(t@),
        None => None,
    }
}

impl View for Monitor {
    type V = MonitorView;

    open spec fn view(&self) -> MonitorView {
        MonitorView {
            config: self.config@,
            balances: self.balances@,
            entries: self.balances.ordered(),
            last_check: text_of(self.last_check),
            error: text_of(self.error),
            checking: self.checking,
        }
    }
}

/// The balance the tray shows: the one of the first currency.
pub open spec fn preferred(entries: Seq<(Seq<char>, BalanceView)>) -> Option<(Seq<char>, BalanceView)> {
    if entries.len() > 0 {
        Some(entries[0])
    } else {
        None
    }
}

/// The currency and balance that the tray shows: those of the first
/// currency in the book; `None` for an empty book.
pub fn preferred_balance(balances: &BalanceBook) -> (shown: Option<(&String, &Balance)>)
    requires
        balances.well_formed(),
    ensures
        match (shown, preferred(balances.ordered())) {
            (Some(e), Some(p)) => e.0@ == p.0 && e.1@ == p.1,
            (None, None) => true,
            _ => false,
        },
{
    balances.first()
}

/// Whether the balance the tray shows is below the user's threshold.
pub open spec fn low_balance(m: MonitorView) -> bool {
    match preferred(m.entries) {
        Some(e) => float_lt(e.1.total.bits, m.config.threshold_yuan.bits),
        None => false,
    }
}

/// What the monitor asks the application to do when a check starts.
pub enum CheckJob {
    /// Query the service with this key.
    Fetch(String),
    /// Finish the check at once with this error.
    Refuse(String),
}

/// The job of a check with this configured key: a refusal when the key is
/// blank, else a query with the key's ASCII characters.
pub open spec fn job_matches(job: CheckJob, api_key: Seq<char>) -> bool {
    match job {
        CheckJob::Fetch(key) => trimmed(api_key).len() > 0 && key@ == ascii_part(api_key),
        CheckJob::Refuse(message) => trimmed(api_key).len() == 0 && message@ == no_key_message(),
    }
}

/// What the tray shows.
pub struct TrayStatus {
    pub tooltip: String,
    pub label: String,
    pub low_balance: bool,
}

/// `tooltip`, `label` and the low-balance flag of the tray.
pub open spec fn tray_spec(m: MonitorView) -> (Seq<char>, Seq<char>, bool) {
    let lang = m.config.language;
    if m.checking {
        (localized(lang, "checking"@), "..."@, false)
    } else if m.error is Some {
        (localized(lang, "error"@) + ": "@ + m.error->0, "!"@, false)
    } else if preferred(m.entries) is Some {
        let e = preferred(m.entries)->0;
        (
            localized(lang, "total_balance"@) + ": "@ + e.1.total.shown + " "@ + e.0,
            icon_text(e.1.total.bits),
            low_balance(m),
        )
    } else {
        (localized(lang, "checking"@), "..."@, false)
    }
}

/// The line of the pop-up for one currency.
pub open spec fn balance_line(lang: Seq<char>, code: Seq<char>, b: BalanceView) -> Seq<char> {
    code + ": "@ + b.total.shown + "  ("@ + localized(lang, "topped_up"@) + " "@
        + b.topped_up.shown + ", "@ + localized(lang, "granted"@) + " "@ + b.granted.shown
        + ")"@
}

/// The lines joined with line breaks.
pub open spec fn joined(lines: Seq<Seq<char>>) -> Seq<char>
    decreases lines.len(),
{
    if lines.len() == 0 {
        Seq::empty()
    } else if lines.len() == 1 {
        lines[0]
    } else {
        joined(lines.drop_last()) + "\n"@ + lines.last()
    }
}

/// One line per currency, in the book's order.
pub open spec fn balance_lines(lang: Seq<char>, entries: Seq<(Seq<char>, BalanceView)>) -> Seq<Seq<char>> {
    entries.map_values(|e: (Seq<char>, BalanceView)| balance_line(lang, e.0, e.1))
}

/// The title and the message of the balance pop-up.
pub open spec fn popup_spec(m: MonitorView) -> (Seq<char>, Seq<char>) {
    let lang = m.config.language;
    if m.error is Some {
        (localized(lang, "balance_error_title"@), localized(lang, "error"@) + ": "@ + m.error->0)
    } else if m.entries.len() == 0 {
        (localized(lang, "balance_title"@), localized(lang, "balance_empty"@))
    } else {
        let lines = balance_lines(lang, m.entries);
        let lines = if m.last_check is Some {
            lines.push(localized(lang, "last_check"@) + ": "@ + m.last_check->0)
        } else {
            lines
        };
        ("DeepSeek: "@ + m.entries[0].1.total.shown + " "@ + m.entries[0].0, joined(lines))
    }
}

/// The title and message of the low-balance alert, when alerts are on and
/// there is a balance to speak of.
pub open spec fn alert_spec(m: MonitorView) -> Option<(Seq<char>, Seq<char>)> {
    let lang = m.config.language;
    if !m.config.enable_alerts {
        None
    } else if preferred(m.entries) is Some {
        let e = preferred(m.entries)->0;
        Some(
            (
                localized(lang, "low_balance_title"@),
                localized(lang, "low_balance_body"@) + " "@ + e.1.total.shown + " "@ + e.0
                    + ", "@ + localized(lang, "threshold"@) + " "@
                    + m.config.threshold_yuan.shown + " "@ + e.0,
            ),
        )
    } else {
        None
    }
}

/// The status line of the settings form.
pub open spec fn status_spec(m: MonitorView) -> Seq<char> {
    let lang = m.config.language;
    let last = match m.last_check {
        Some(t) => t,
        None => localized(lang, "not_checked"@),
    };
    if preferred(m.entries) is Some {
        let e = preferred(m.entries)->0;
        localized(lang, "last_check"@) + ": "@ + last + " | "@ + localized(lang, "total_balance"@)
            + ": "@ + e.1.total.shown + " "@ + e.0
    } else {
        localized(lang, "last_check"@) + ": "@ + last
    }
}

/// The balances of a report, each currency's last figures winning.
pub open spec fn report_book(report: Seq<(Seq<char>, BalanceView)>) -> Map<Seq<char>, BalanceView>
    decreases report.len(),
{
    if report.len() == 0 {
        Map::empty()
    } else {
        report_book(report.drop_last()).insert(report.last().0, report.last().1)
    }
}

/// What a report of the service denotes.
pub open spec fn report_view(report: Seq<(String, Balance)>) -> Seq<(Seq<char>, BalanceView)> {
    report.map_values(|e: (String, Balance)| (e.0@, e.1@))
}

/// The balances of the service's answer, one per currency (a later entry
/// for a currency replaces an earlier one); an error when it lists none.
pub fn balances_from_report(report: Vec<(String, Balance)>) -> (result: Result<BalanceBook, String>)
    ensures
        match result {
            Ok(book) => {
                &&& report@.len() > 0
                &&& book.well_formed()
                &&& book@ == report_book(report_view(report@))
            },
            Err(message) => report@.len() == 0 && message@ == no_balance_message(),
        },
{
    if report.len() == 0 {
        return Err(String::from_str("No balance information in response"));
    }
    let ghost all = report_view(report@);
    let mut rest = report;
    let mut book = BalanceBook::new();
    let ghost mut done: int = 0;
    while rest.len() > 0
        invariant
            book.well_formed(),
            0 <= done <= all.len(),
            report_view(rest@) =~= all.skip(done),
            book@ == report_book(all.take(done)),
        decreases rest.len(),
    {
        proof {
            assert(report_view(rest@).len() == rest@.len());
        }
        let ghost prev = rest@;
        let (currency, balance) = rest.remove(0);
        proof {
            assert(all.skip(done)[0] == (currency@, balance@));
            assert(all.take(done + 1).drop_last() =~= all.take(done));
            assert(all.take(done + 1).last() == all[done]);
        }
        book.insert(currency, balance);
        proof {
            assert forall|i: int| 0 <= i < rest@.len() implies #[trigger] report_view(rest@)[i] == all.skip(done + 1)[i] by {
                assert(rest@[i] == prev[i + 1]);
                assert(report_view(prev)[i + 1] == all.skip(done)[i + 1]);
            }
            assert(report_view(rest@) =~= all.skip(done + 1));
            done = done + 1;
        }
    }
    assert(all.take(done) =~= all);
    Ok(book)
}

fn balance_line_text(lang: &str, code: &String, b: &Balance) -> (line: String)
    ensures
        line@ == balance_line(lang@, code@, b@),
{
    let mut line = code.clone();
    line.append(": ");
    line.append(b.total.shown.as_str());
    line.append("  (");
    line.append(tr(lang, "topped_up"));
    line.append(" ");
    line.append(b.topped_up.shown.as_str());
    line.append(", ");
    line.append(tr(lang, "granted"));
    line.append(" ");
    line.append(b.granted.shown.as_str());
    line.append(")");
    line
}

proof fn lemma_joined_push(lines: Seq<Seq<char>>, line: Seq<char>)
    requires
        lines.len() > 0,
    ensures
        joined(lines.push(line)) == joined(lines) + "\n"@ + line,
{
    assert(lines.push(line).drop_last() =~= lines);
}

impl Monitor {
    /// A monitor that has not checked yet, with the given configuration.
    pub fn new(config: AppConfig) -> (m: Monitor)
        ensures
            m.balances.well_formed(),
            m@ == (MonitorView {
                config: config@,
                balances: Map::empty(),
                entries: Seq::empty(),
                last_check: None,
                error: None,
                checking: false,
            }),
    {
        let m = Monitor {
            config,
            balances: BalanceBook::new(),
            last_check: None,
            error: None,
            checking: false,
        };
        assert(m@.entries =~= Seq::<(Seq<char>, BalanceView)>::empty());
        m
    }

    /// Whether the balance the tray shows is below the threshold.
    pub fn is_low_balance(&self) -> (low: bool)
        requires
            self.balances.well_formed(),
        ensures
            low == low_balance(self@),
    {
        match preferred_balance(&self.balances) {
            Some((_, balance)) => balance.total.is_below(&self.config.threshold_yuan),
            None => false,
        }
    }

    /// Starts a check unless one is running: marks the monitor as checking,
    /// clears the last error and says what to do. While a check runs it
    /// changes nothing and asks for nothing.
    pub fn begin_check(&mut self) -> (job: Option<CheckJob>)
        requires
            old(self).balances.well_formed(),
        ensures
            final(self).balances.well_formed(),
            old(self).checking ==> job is None && final(self)@ == old(self)@,
            !old(self).checking ==> {
                &&& job matches Some(j) && job_matches(j, old(self).config.api_key@)
                &&& final(self)@ == (MonitorView { checking: true, error: None, ..old(self)@ })
            },
    {
        if self.checking {
            return None;
        }
        self.checking = true;
        self.error = None;
        let key = trim(self.config.api_key.as_str());
        if key.unicode_len() == 0 {
            Some(CheckJob::Refuse(String::from_str("No API Key configured")))
        } else {
            Some(CheckJob::Fetch(ascii_only(self.config.api_key.as_str())))
        }
    }

    /// Records the outcome of a check. On success the balances are replaced
    /// and stamped with `finished_at`, and the result says whether the user
    /// is to be warned of a low balance; on failure the balances are dropped
    /// and the error is kept.
    pub fn finish_check(&mut self, outcome: Result<BalanceBook, String>, finished_at: String) -> (notify: bool)
        requires
            old(self).balances.well_formed(),
            outcome matches Ok(book) ==> book.well_formed(),
        ensures
            final(self).balances.well_formed(),
            !final(self).checking,
            final(self).config@ == old(self).config@,
            match outcome {
                Ok(book) => {
                    &&& final(self)@.balances == book@
                    &&& final(self)@.entries == book.ordered()
                    &&& final(self)@.last_check == Some(finished_at@)
                    &&& final(self)@.error is None
                    &&& notify == low_balance(final(self)@)
                },
                Err(e) => {
                    &&& final(self)@.balances == Map::<Seq<char>, BalanceView>::empty()
                    &&& final(self)@.entries.len() == 0
                    &&& final(self)@.last_check == old(self)@.last_check
                    &&& final(self)@.error == Some(e@)
                    &&& !notify
                },
            },
    {
        self.checking = false;
        match outcome {
            Ok(book) => {
                self.balances = book;
                self.last_check = Some(finished_at);
                self.error = None;
                self.is_low_balance()
            },
            Err(e) => {
                self.balances.clear();
                self.error = Some(e);
                false
            },
        }
    }

    /// Puts a new configuration in force and gives the timer's new period
    /// in seconds.
    pub fn apply_config(&mut self, config: AppConfig) -> (secs: u64)
        requires
            timer_seconds(config.interval_minutes) <= u64::MAX,
        ensures
            final(self)@ == (MonitorView { config: config@, ..old(self)@ }),
            final(self).balances == old(self).balances,
            secs == timer_seconds(config.interval_minutes),
    {
        let secs = timer_interval_secs(config.interval_minutes);
        self.config = config;
        secs
    }

    /// The tooltip, the icon label and the low-balance flag of the tray.
    pub fn tray_status(&self) -> (status: TrayStatus)
        requires
            self.balances.well_formed(),
        ensures
            (status.tooltip@, status.label@, status.low_balance) == tray_spec(self@),
    {
        let lang = self.config.language.as_str();
        if self.checking {
            return TrayStatus {
                tooltip: String::from_str(tr(lang, "checking")),
                label: String::from_str("..."),
                low_balance: false,
            };
        }
        if let Some(error) = &self.error {
            let mut tooltip = String::from_str(tr(lang, "error"));
            tooltip.append(": ");
            tooltip.append(error.as_str());
            return TrayStatus { tooltip, label: String::from_str("!"), low_balance: false };
        }
        match preferred_balance(&self.balances) {
            Some((currency, balance)) => {
                let mut tooltip = String::from_str(tr(lang, "total_balance"));
                tooltip.append(": ");
                tooltip.append(balance.total.shown.as_str());
                tooltip.append(" ");
                tooltip.append(currency.as_str());
                TrayStatus {
                    tooltip,
                    label: icon_label(balance.total.bits),
                    low_balance: self.is_low_balance(),
                }
            },
            None => {
                TrayStatus {
                    tooltip: String::from_str(tr(lang, "checking")),
                    label: String::from_str("..."),
                    low_balance: false,
                }
            },
        }
    }

    /// The title and the message of the balance pop-up.
    pub fn balance_popup(&self) -> (popup: (String, String))
        requires
            self.balances.well_formed(),
        ensures
            (popup.0@, popup.1@) == popup_spec(self@),
    {
        let lang = self.config.language.as_str();
        if let Some(error) = &self.error {
            let mut message = String::from_str(tr(lang, "error"));
            message.append(": ");
            message.append(error.as_str());
            return (String::from_str(tr(lang, "balance_error_title")), message);
        }
        if self.balances.is_empty() {
            return (String::from_str(tr(lang, "balance_title")), String::from_str(tr(lang, "balance_empty")));
        }
        let ghost lines = balance_lines(lang@, self.balances.ordered());
        let n = self.balances.len();
        let mut message = String::new();
        let mut i: usize = 0;
        while i < n
            invariant
                n == self.balances.ordered().len(),
                lang@ == self.config.language@,
                lines == balance_lines(lang@, self.balances.ordered()),
                i <= n,
                message@ == joined(lines.take(i as int)),
            decreases n - i,
        {
            let (code, balance) = self.balances.entry(i);
            let line = balance_line_text(lang, code, balance);
            proof {
                assert(lines.take(i + 1).drop_last() =~= lines.take(i as int));
                assert(lines.take(i + 1).last() == line@);
                if i == 0 {
                    assert(lines.take(1) =~= seq![line@]);
                }
            }
            if i > 0 {
                message.append("\n");
            }
            message.append(line.as_str());
            i = i + 1;
        }
        assert(lines.take(n as int) =~= lines);
        if let Some(last) = &self.last_check {
            proof {
                lemma_joined_push(lines, localized(lang@, "last_check"@) + ": "@ + last@);
            }
            message.append("\n");
            message.append(tr(lang, "last_check"));
            message.append(": ");
            message.append(last.as_str());
        }
        let title = match preferred_balance(&self.balances) {
            Some((code, balance)) => {
                let mut title = String::from_str("DeepSeek: ");
                title.append(balance.total.shown.as_str());
                title.append(" ");
                title.append(code.as_str());
                title
            },
            None => String::from_str(tr(lang, "balance_title")),
        };
        (title, message)
    }

    /// The title and message of the low-balance alert; `None` when alerts
    /// are off or there is no balance.
    pub fn low_balance_alert(&self) -> (alert: Option<(String, String)>)
        requires
            self.balances.well_formed(),
        ensures
            match (alert, alert_spec(self@)) {
                (Some(a), Some(s)) => a.0@ == s.0 && a.1@ == s.1,
                (None, None) => true,
                _ => false,
            },
    {
        if !self.config.enable_alerts {
            return None;
        }
        let lang = self.config.language.as_str();
        match preferred_balance(&self.balances) {
            Some((code, balance)) => {
                let mut message = String::from_str(tr(lang, "low_balance_body"));
                message.append(" ");
                message.append(balance.total.shown.as_str());
                message.append(" ");
                message.append(code.as_str());
                message.append(", ");
                message.append(tr(lang, "threshold"));
                message.append(" ");
                message.append(self.config.threshold_yuan.shown.as_str());
                message.append(" ");
                message.append(code.as_str());
                Some((String::from_str(tr(lang, "low_balance_title")), message))
            },
            None => None,
        }
    }

    /// The status line of the settings form.
    pub fn status_line(&self) -> (line: String)
        requires
            self.balances.well_formed(),
        ensures
            line@ == status_spec(self@),
    {
        let lang = self.config.language.as_str();
        let last = match &self.last_check {
            Some(t) => t.clone(),
            None => String::from_str(tr(lang, "not_checked")),
        };
        let mut line = String::from_str(tr(lang, "last_check"));
        line.append(": ");
        line.append(last.as_str());
        match preferred_balance(&self.balances) {
            Some((code, balance)) => {
                line.append(" | ");
                line.append(tr(lang, "total_balance"));
                line.append(": ");
                line.append(balance.total.shown.as_str());
                line.append(" ");
                line.append(code.as_str());
            },
            None => {},
        }
        line
    }
}

/// Whenever the balance is low and alerts are on, there is an alert to show.
pub proof fn lemma_low_balance_has_alert(m: MonitorView)
    requires
        low_balance(m),
        m.config.enable_alerts,
    ensures
        alert_spec(m) is Some,
{
}

/// Once a check has finished without error and the balance shown is low,
/// the tray reports the low balance and its icon turns red.
pub proof fn lemma_low_balance_turns_icon_red(m: MonitorView)
    requires
        !m.checking,
        m.error is None,
        low_balance(m),
    ensures
        tray_spec(m).2,
        crate::icon::fill_for(tray_spec(m).1, tray_spec(m).2) == (185u8, 70u8, 60u8, 255u8),
{
    let e = preferred(m.entries)->0;
    let label = icon_text(e.1.total.bits);
    reveal_strlit("!");
    reveal_strlit("...");
    reveal_strlit("OK");
    if crate::money::whole_units(e.1.total.bits) <= 99 {
        crate::text::lemma_decimal_digits(crate::money::whole_units(e.1.total.bits) as nat);
        assert(crate::text::is_digit(label[0]));
        assert(label != "!"@);
        assert(label != "..."@);
    } else {
        assert(label[0] == 'O');
        assert(label != "!"@);
        assert(label != "..."@);
    }
}

/// The balance counts as low exactly when the book holds a currency and the
/// total of its first currency is below the threshold; the granted and
/// topped-up figures play no part.
pub proof fn lemma_low_balance_is_first_total_below(m: MonitorView)
    ensures
        low_balance(m) <==> (m.entries.len() > 0 && float_lt(
            m.entries[0].1.total.bits,
            m.config.threshold_yuan.bits,
        )),
{
}

/// While a check runs the tray says so in the chosen language, with the
/// `...` label and no warning.
pub proof fn lemma_tray_while_checking(m: MonitorView)
    requires
        m.checking,
    ensures
        tray_spec(m) == (localized(m.config.language, "checking"@), "..."@, false),
{
}

/// After a failed check the tray shows the error in the chosen language,
/// with the `!` label and no warning.
pub proof fn lemma_tray_after_error(m: MonitorView)
    requires
        !m.checking,
        m.error is Some,
    ensures
        tray_spec(m) == (localized(m.config.language, "error"@) + ": "@ + m.error->0, "!"@, false),
{
}

/// After a good check the tray's tooltip quotes the total of the first
/// currency, its label is drawn from that total, and it warns exactly when
/// that total is below the threshold.
pub proof fn lemma_tray_shows_first_total(m: MonitorView)
    requires
        !m.checking,
        m.error is None,
        m.entries.len() > 0,
    ensures
        tray_spec(m).0 == localized(m.config.language, "total_balance"@) + ": "@
            + m.entries[0].1.total.shown + " "@ + m.entries[0].0,
        tray_spec(m).1 == icon_text(m.entries[0].1.total.bits),
        tray_spec(m).2 == float_lt(m.entries[0].1.total.bits, m.config.threshold_yuan.bits),
{
}

/// The alert, when alerts are on and there is a balance, is titled in the
/// chosen language and quotes the first currency's total and the threshold,
/// each followed by the currency code; with alerts off or no balance there
/// is none.
pub proof fn lemma_alert_quotes_total_and_threshold(m: MonitorView)
    ensures
        !m.config.enable_alerts ==> alert_spec(m) is None,
        m.entries.len() == 0 ==> alert_spec(m) is None,
        m.config.enable_alerts && m.entries.len() > 0 ==> {
            let lang = m.config.language;
            let body = localized(lang, "low_balance_body"@);
            let total = m.entries[0].1.total.shown;
            let code = m.entries[0].0;
            let tail = localized(lang, "threshold"@) + " "@ + m.config.threshold_yuan.shown + " "@ + code;
            let alert = alert_spec(m)->0;
            &&& alert_spec(m) is Some
            &&& alert.0 == localized(lang, "low_balance_title"@)
            &&& alert.1 == body + " "@ + total + " "@ + code + ", "@ + tail
            &&& alert.1.subrange(body.len() + 1 as int, body.len() + 1 + total.len() as int) == total
            &&& alert.1.skip(alert.1.len() - tail.len()) == tail
        },
{
    if m.config.enable_alerts && m.entries.len() > 0 {
        let lang = m.config.language;
        let body = localized(lang, "low_balance_body"@);
        let total = m.entries[0].1.total.shown;
        let code = m.entries[0].0;
        let tail = localized(lang, "threshold"@) + " "@ + m.config.threshold_yuan.shown + " "@ + code;
        let msg = body + " "@ + total + " "@ + code + ", "@ + tail;
        reveal_strlit(" ");
        assert(msg =~= body + " "@ + total + (" "@ + code + ", "@ + tail));
        assert((body + " "@).len() == body.len() + 1);
        assert(msg.subrange(body.len() + 1 as int, body.len() + 1 + total.len() as int) =~= total);
        assert(msg.skip(msg.len() - tail.len()) =~= tail);
    }
}

proof fn lemma_joined_starts_with_first(lines: Seq<Seq<char>>)
    requires
        lines.len() > 0,
    ensures
        joined(lines).len() >= lines[0].len(),
        joined(lines).take(lines[0].len() as int) == lines[0],
    decreases lines.len(),
{
    if lines.len() > 1 {
        let rest = lines.drop_last();
        lemma_joined_starts_with_first(rest);
        assert(rest[0] == lines[0]);
        let j = joined(rest);
        assert((j + "\n"@ + lines.last()).take(lines[0].len() as int) =~= j.take(lines[0].len() as int));
    }
}

/// The pop-up speaks the chosen language. After a failed check it is titled
/// as an error and gives the error; with no balance it says there is none.
/// Otherwise its title quotes the first currency's total, its message opens
/// with that currency's line (total, then topped-up, then granted) and, when
/// a check has finished, closes with the time of the last check.
pub proof fn lemma_popup_contents(m: MonitorView)
    ensures
        m.error is Some ==> popup_spec(m) == (
            localized(m.config.language, "balance_error_title"@),
            localized(m.config.language, "error"@) + ": "@ + m.error->0,
        ),
        m.error is None && m.entries.len() == 0 ==> popup_spec(m) == (
            localized(m.config.language, "balance_title"@),
            localized(m.config.language, "balance_empty"@),
        ),
        m.error is None && m.entries.len() > 0 ==> {
            let lang = m.config.language;
            let e = m.entries[0];
            let first = e.0 + ": "@ + e.1.total.shown + "  ("@ + localized(lang, "topped_up"@) + " "@
                + e.1.topped_up.shown + ", "@ + localized(lang, "granted"@) + " "@
                + e.1.granted.shown + ")"@;
            &&& popup_spec(m).0 == "DeepSeek: "@ + e.1.total.shown + " "@ + e.0
            &&& popup_spec(m).1.len() >= first.len()
            &&& popup_spec(m).1.take(first.len() as int) == first
            &&& m.last_check is Some ==> {
                let last = localized(lang, "last_check"@) + ": "@ + m.last_check->0;
                &&& popup_spec(m).1.len() >= last.len()
                &&& popup_spec(m).1.skip(popup_spec(m).1.len() - last.len()) == last
            }
        },
{
    if m.error is None && m.entries.len() > 0 {
        let lang = m.config.language;
        let lines = balance_lines(lang, m.entries);
        assert(lines[0] == balance_line(lang, m.entries[0].0, m.entries[0].1));
        if m.last_check is Some {
            let last = localized(lang, "last_check"@) + ": "@ + m.last_check->0;
            let all = lines.push(last);
            lemma_joined_push(lines, last);
            assert(all[0] == lines[0]);
            lemma_joined_starts_with_first(all);
            let msg = joined(all);
            assert(msg.skip(msg.len() - last.len()) =~= last);
        } else {
            lemma_joined_starts_with_first(lines);
        }
    }
}

} // verus!
