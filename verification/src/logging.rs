//! Log levels, the rendered log line, and the error popup that is shown at
//! most once per message within a short window.

use vstd::prelude::*;
use crate::text::{
    ascii_lower_seq, ascii_lowercase, blank, decimal, is_blank, push_decimal, push_str,
    str_eq, to_owned_string, trim, trim_string,
};
use crate::system::unix_now_ms;

verus! {

/// How serious a log message is, from least to most.
#[derive(PartialEq, Eq, Structural, Clone, Copy, Debug)]
pub enum LogLevel {
    Debug,
    Info,
    Warn,
    Error,
}

/// The tag every log line carries.
pub const LOG_TAG: &'static str = "obs-chzzk-extension";

/// Within this many milliseconds a repeated error popup is suppressed.
pub const POPUP_DEDUP_WINDOW_MS: u64 = 2000;

/// The position of a level in the order Debug < Info < Warn < Error.
pub open spec fn level_rank(level: LogLevel) -> int {
    match level {
        LogLevel::Debug => 0,
        LogLevel::Info => 1,
        LogLevel::Warn => 2,
        LogLevel::Error => 3,
    }
}

/// The label a level carries in a log line.
pub open spec fn label_of(level: LogLevel) -> Seq<char> {
    match level {
        LogLevel::Debug => "DEBUG"@,
        LogLevel::Info => "INFO"@,
        LogLevel::Warn => "WARN"@,
        LogLevel::Error => "ERROR"@,
    }
}

/// The label of `level`.
pub fn level_label(level: LogLevel) -> (r: &'static str)
    ensures
        r@ == label_of(level),
{
    match level {
        LogLevel::Debug => "DEBUG",
        LogLevel::Info => "INFO",
        LogLevel::Warn => "WARN",
        LogLevel::Error => "ERROR",
    }
}

/// The level named by a configuration value: `debug`, `info`, `warn` or
/// `warning`, `error`, ignoring surrounding whitespace and ASCII case; any
/// other value, and no value, mean `Debug`.
pub open spec fn level_named(value: Option<Seq<char>>) -> LogLevel {
    match value {
        None => LogLevel::Debug,
        Some(v) => {
            let n = ascii_lower_seq(trim(v));
            if n == "debug"@ {
                LogLevel::Debug
            } else if n == "info"@ {
                LogLevel::Info
            } else if n == "warn"@ || n == "warning"@ {
                LogLevel::Warn
            } else if n == "error"@ {
                LogLevel::Error
            } else {
                LogLevel::Debug
            }
        },
    }
}

/// The configured level, from the value of the log-level setting, where one
/// is set.
pub fn configured_level(value: Option<&str>) -> (r: LogLevel)
    ensures
        r == level_named(match value {
            Some(v) => Some(v@),
            None => None,
        }),
{
    match value {
        None => LogLevel::Debug,
        Some(v) => {
            let trimmed = trim_string(v);
            let n = ascii_lowercase(trimmed.as_str());
            let n = n.as_str();
            if str_eq(n, "debug") {
                LogLevel::Debug
            } else if str_eq(n, "info") {
                LogLevel::Info
            } else if str_eq(n, "warn") || str_eq(n, "warning") {
                LogLevel::Warn
            } else if str_eq(n, "error") {
                LogLevel::Error
            } else {
                LogLevel::Debug
            }
        },
    }
}

/// Whether a message at `level` is written where `configured` is the
/// configured level: it is when it is at least as serious.
pub fn should_emit(level: LogLevel, configured: LogLevel) -> (r: bool)
    ensures
        r == (level_rank(level) >= level_rank(configured)),
{
    rank(level) >= rank(configured)
}

fn rank(level: LogLevel) -> (r: u8)
    ensures
        r == level_rank(level),
{
    match level {
        LogLevel::Debug => 0,
        LogLevel::Info => 1,
        LogLevel::Warn => 2,
        LogLevel::Error => 3,
    }
}

/// Milliseconds since the Unix epoch, as the log line shows them.
pub fn timestamp_ms() -> u64 {
    unix_now_ms()
}

/// The title of a popup at `level`.
pub open spec fn title_of(level: LogLevel) -> Seq<char> {
    match level {
        LogLevel::Error => "obs-chzzk-extension Error"@,
        _ => "obs-chzzk-extension"@,
    }
}

/// The title of a popup at `level`.
pub fn popup_title(level: LogLevel) -> (r: &'static str)
    ensures
        r@ == title_of(level),
{
    match level {
        LogLevel::Error => "obs-chzzk-extension Error",
        _ => "obs-chzzk-extension",
    }
}

/// The log line: `[<ms>][<LABEL>][obs-chzzk-extension][pid:<pid>][tid:<thread>] <message>`.
pub open spec fn log_line(
    now_ms: u64,
    level: LogLevel,
    process_id: u32,
    thread: Seq<char>,
    message: Seq<char>,
) -> Seq<char> {
    "["@ + decimal(now_ms as nat) + "]["@ + label_of(level) + "]["@ + LOG_TAG@ + "][pid:"@
        + decimal(process_id as nat) + "][tid:"@ + thread + "] "@ + message
}

/// Renders one log line; `thread` is how the current thread names itself.
pub fn render_log_line(
    now_ms: u64,
    level: LogLevel,
    process_id: u32,
    thread: &str,
    message: &str,
) -> (r: String)
    ensures
        r@ == log_line(now_ms, level, process_id, thread@, message@),
{
    let mut r = to_owned_string("[");
    push_decimal(&mut r, now_ms);
    push_str(&mut r, "][");
    push_str(&mut r, level_label(level));
    push_str(&mut r, "][");
    push_str(&mut r, LOG_TAG);
    push_str(&mut r, "][pid:");
    push_decimal(&mut r, process_id as u64);
    push_str(&mut r, "][tid:");
    push_str(&mut r, thread);
    push_str(&mut r, "] ");
    push_str(&mut r, message);
    r
}

// ---------------------------------------------------------------------------
// The error popup
// ---------------------------------------------------------------------------

/// The last popup that was shown.
pub struct PopupState {
    pub level: LogLevel,
    pub timestamp_ms: u64,
    pub message: String,
}

/// A popup as a value: its level, when it was shown, and its text.
pub struct PopupView {
    pub level: LogLevel,
    pub timestamp_ms: u64,
    pub message: Seq<char>,
}

/// `a - b`, or 0 where `b` is larger.
pub open spec fn saturating_diff(a: u64, b: u64) -> int {
    if a >= b {
        a - b
    } else {
        0
    }
}

/// Whether a popup at `level` with `message` at `now_ms` repeats `last`
/// within the window.
pub open spec fn repeats(last: Option<PopupView>, level: LogLevel, message: Seq<char>, now_ms: u64) -> bool {
    match last {
        Some(p) => p.level == level && p.message == message && saturating_diff(now_ms, p.timestamp_ms)
            <= POPUP_DEDUP_WINDOW_MS,
        None => false,
    }
}

/// Whether a popup is shown: for a non-blank error message that does not
/// repeat the last popup within the window.
pub open spec fn shows_popup(last: Option<PopupView>, level: LogLevel, message: Seq<char>, now_ms: u64) -> bool {
    level == LogLevel::Error && !blank(message) && !repeats(last, level, message, now_ms)
}

/// The last popup after a decision: the new one where it is shown, else the
/// old one.
pub open spec fn popup_after(last: Option<PopupView>, level: LogLevel, message: Seq<char>, now_ms: u64) -> Option<PopupView> {
    if shows_popup(last, level, message, now_ms) {
        Some(PopupView { level, timestamp_ms: now_ms, message })
    } else {
        last
    }
}

/// Remembers the last popup shown, to suppress repeats.
pub struct PopupTracker {
    pub last: Option<PopupState>,
}

impl PopupTracker {
    /// What the tracker remembers, as a value.
    pub open spec fn view_last(&self) -> Option<PopupView> {
        match self.last {
            Some(p) => Some(PopupView { level: p.level, timestamp_ms: p.timestamp_ms, message: p.message@ }),
            None => None,
        }
    }

    /// A tracker that has shown nothing yet.
    pub fn new() -> (r: Self)
        ensures
            r.view_last() is None,
    {
        PopupTracker { last: None }
    }

    /// Whether a popup is shown for `message` at `level` at time `now_ms`;
    /// the tracker then remembers it.
    pub fn should_show_popup_at(&mut self, level: LogLevel, message: &str, now_ms: u64) -> (r: bool)
        ensures
            r == shows_popup(old(self).view_last(), level, message@, now_ms),
            final(self).view_last() == popup_after(old(self).view_last(), level, message@, now_ms),
    {
        if level != LogLevel::Error || is_blank(message) {
            return false;
        }
        let duplicate = match &self.last {
            Some(previous) => previous.level == level && str_eq(previous.message.as_str(), message)
                && now_ms.saturating_sub(previous.timestamp_ms) <= POPUP_DEDUP_WINDOW_MS,
            None => false,
        };
        if duplicate {
            return false;
        }
        self.last = Some(PopupState { level, timestamp_ms: now_ms, message: to_owned_string(message) });
        true
    }

    /// Whether a popup is shown for `message` at `level` now. The clock is
    /// read only for a non-blank error message.
    pub fn should_show_popup(&mut self, level: LogLevel, message: &str) -> (r: bool)
        ensures
            !(level == LogLevel::Error && !blank(message@)) ==> !r && final(self).view_last()
                == old(self).view_last(),
            exists|now_ms: u64|
                r == #[trigger] shows_popup(old(self).view_last(), level, message@, now_ms)
                    && final(self).view_last() == popup_after(old(self).view_last(), level, message@, now_ms),
    {
        if level != LogLevel::Error || is_blank(message) {
            assert(!shows_popup(old(self).view_last(), level, message@, 0));
            return false;
        }
        let now = timestamp_ms();
        let r = self.should_show_popup_at(level, message, now);
        assert(shows_popup(old(self).view_last(), level, message@, now) == r);
        r
    }
}

/// A popup shown for a message is not shown again for the same message
/// until the window has passed (a clock that went back counts as no time):
/// the second decision refuses and leaves the tracker as it was.
pub proof fn lemma_popup_not_repeated(last: Option<PopupView>, message: Seq<char>, first_ms: u64, second_ms: u64)
    requires
        shows_popup(last, LogLevel::Error, message, first_ms),
        second_ms <= first_ms + POPUP_DEDUP_WINDOW_MS,
    ensures
        !shows_popup(popup_after(last, LogLevel::Error, message, first_ms), LogLevel::Error, message, second_ms),
        popup_after(popup_after(last, LogLevel::Error, message, first_ms), LogLevel::Error, message, second_ms)
            == popup_after(last, LogLevel::Error, message, first_ms),
{
}

/// Once the window has passed, the same error message is shown again.
pub proof fn lemma_popup_after_window(last: Option<PopupView>, message: Seq<char>, first_ms: u64, second_ms: u64)
    requires
        shows_popup(last, LogLevel::Error, message, first_ms),
        second_ms > first_ms + POPUP_DEDUP_WINDOW_MS,
    ensures
        shows_popup(popup_after(last, LogLevel::Error, message, first_ms), LogLevel::Error, message, second_ms),
{
}

/// Only error messages with some non-whitespace text ever make a popup.
pub proof fn lemma_popup_only_for_errors(last: Option<PopupView>, level: LogLevel, message: Seq<char>, now_ms: u64)
    requires
        shows_popup(last, level, message, now_ms),
    ensures
        level == LogLevel::Error,
        !blank(message),
{
}

// ---------------------------------------------------------------------------
// The logger
// ---------------------------------------------------------------------------

/// A popup to show: the level's number (Debug 0 to Error 3), a title and the
/// message.
pub struct PopupNotice {
    pub level: i32,
    pub title: String,
    pub body: String,
}

/// What one log call asks the caller to show: a popup, a line for the
/// error stream, both or neither.
pub struct LogOutput {
    pub popup: Option<PopupNotice>,
    pub line: Option<String>,
}

/// The number a level is known by to the popup.
pub open spec fn level_code(level: LogLevel) -> i32 {
    level_rank(level) as i32
}

/// The configured level and the popup tracker.
pub struct Logger {
    pub configured: LogLevel,
    pub popups: PopupTracker,
}

/// What a log call at `level` gives, for some reading of the clock at each
/// of the two places it is read: a popup exactly where `shows_popup` holds,
/// with the level's title and the message as its body; a line exactly where
/// the level is at least the configured one, rendered at some time.
pub open spec fn log_outcome(
    before: Logger,
    after: Logger,
    level: LogLevel,
    message: Seq<char>,
    process_id: u32,
    thread: Seq<char>,
    r: LogOutput,
) -> bool {
    &&& after.configured == before.configured
    &&& exists|now_ms: u64|
        (r.popup is Some) == #[trigger] shows_popup(before.popups.view_last(), level, message, now_ms)
            && after.popups.view_last() == popup_after(before.popups.view_last(), level, message, now_ms)
    &&& r.popup matches Some(p) ==> p.level == level_code(level) && p.title@ == title_of(level)
        && p.body@ == message
    &&& (r.line is Some) == (level_rank(level) >= level_rank(before.configured))
    &&& r.line matches Some(l) ==> exists|now_ms: u64|
        l@ == #[trigger] log_line(now_ms, level, process_id, thread, message)
}

impl Logger {
    /// A logger at the level named by the log-level setting's value.
    pub fn new(value: Option<&str>) -> (r: Self)
        ensures
            r.configured == level_named(match value {
                Some(v) => Some(v@),
                None => None,
            }),
            r.popups.view_last() is None,
    {
        Logger { configured: configured_level(value), popups: PopupTracker::new() }
    }

    /// Logs `message` at `level`: decides on the popup, then on the line.
    pub fn log(&mut self, level: LogLevel, message: &str, process_id: u32, thread: &str) -> (r: LogOutput)
        ensures
            log_outcome(*old(self), *final(self), level, message@, process_id, thread@, r),
    {
        let shown = self.popups.should_show_popup(level, message);
        let popup = if shown {
            Some(PopupNotice {
                level: rank(level) as i32,
                title: to_owned_string(popup_title(level)),
                body: to_owned_string(message),
            })
        } else {
            None
        };
        let line = if should_emit(level, self.configured) {
            let now = timestamp_ms();
            let l = render_log_line(now, level, process_id, thread, message);
            assert(l@ == log_line(now, level, process_id, thread@, message@));
            Some(l)
        } else {
            None
        };
        LogOutput { popup, line }
    }

    /// Logs at `Debug`.
    pub fn debug(&mut self, message: &str, process_id: u32, thread: &str) -> (r: LogOutput)
        ensures
            log_outcome(*old(self), *final(self), LogLevel::Debug, message@, process_id, thread@, r),
    {
        self.log(LogLevel::Debug, message, process_id, thread)
    }

    /// Logs at `Info`.
    pub fn info(&mut self, message: &str, process_id: u32, thread: &str) -> (r: LogOutput)
        ensures
            log_outcome(*old(self), *final(self), LogLevel::Info, message@, process_id, thread@, r),
    {
        self.log(LogLevel::Info, message, process_id, thread)
    }

    /// Logs at `Warn`.
    pub fn warn(&mut self, message: &str, process_id: u32, thread: &str) -> (r: LogOutput)
        ensures
            log_outcome(*old(self), *final(self), LogLevel::Warn, message@, process_id, thread@, r),
    {
        self.log(LogLevel::Warn, message, process_id, thread)
    }

    /// Logs at `Error`.
    pub fn error(&mut self, message: &str, process_id: u32, thread: &str) -> (r: LogOutput)
        ensures
            log_outcome(*old(self), *final(self), LogLevel::Error, message@, process_id, thread@, r),
    {
        self.log(LogLevel::Error, message, process_id, thread)
    }
}

} // verus!
