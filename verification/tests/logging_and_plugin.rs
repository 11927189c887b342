use obs_chzzk_extension::logging::{
    configured_level, level_label, popup_title, render_log_line, should_emit, LogLevel, Logger,
    PopupTracker,
};
use obs_chzzk_extension::plugin::{
    frontend_event_action, frontend_event_name, module_author, module_description, module_name,
    DelayedStart, FrontendAction, PresenceScheduler, LIBOBS_API_VER,
};

#[test]
fn levels_are_read_from_the_setting_value() {
    assert_eq!(configured_level(None), LogLevel::Debug);
    assert_eq!(configured_level(Some(" INFO ")), LogLevel::Info);
    assert_eq!(configured_level(Some("warning")), LogLevel::Warn);
    assert_eq!(configured_level(Some("Warn")), LogLevel::Warn);
    assert_eq!(configured_level(Some("error")), LogLevel::Error);
    assert_eq!(configured_level(Some("verbose")), LogLevel::Debug);
}

#[test]
fn only_serious_enough_messages_are_written() {
    assert!(should_emit(LogLevel::Error, LogLevel::Warn));
    assert!(should_emit(LogLevel::Warn, LogLevel::Warn));
    assert!(!should_emit(LogLevel::Info, LogLevel::Warn));
    assert!(should_emit(LogLevel::Debug, LogLevel::Debug));
}

#[test]
fn labels_and_titles() {
    assert_eq!(level_label(LogLevel::Warn), "WARN");
    assert_eq!(popup_title(LogLevel::Error), "obs-chzzk-extension Error");
    assert_eq!(popup_title(LogLevel::Info), "obs-chzzk-extension");
}

#[test]
fn log_line_has_time_level_tag_pid_and_thread() {
    assert_eq!(
        render_log_line(1700000000000, LogLevel::Info, 42, "ThreadId(1)", "hello"),
        "[1700000000000][INFO][obs-chzzk-extension][pid:42][tid:ThreadId(1)] hello"
    );
}

#[test]
fn error_popups_are_not_repeated_within_two_seconds() {
    let mut popups = PopupTracker::new();
    assert!(popups.should_show_popup_at(LogLevel::Error, "failed", 10_000));
    assert!(!popups.should_show_popup_at(LogLevel::Error, "failed", 12_000));
    assert!(popups.should_show_popup_at(LogLevel::Error, "other", 12_000));
    assert!(popups.should_show_popup_at(LogLevel::Error, "failed", 12_001));
    assert!(popups.should_show_popup_at(LogLevel::Error, "failed", 14_002));
    assert!(!popups.should_show_popup_at(LogLevel::Error, "failed", 13_000));
}

#[test]
fn only_non_blank_errors_make_popups() {
    let mut popups = PopupTracker::new();
    assert!(!popups.should_show_popup_at(LogLevel::Warn, "careful", 0));
    assert!(!popups.should_show_popup_at(LogLevel::Error, "   ", 0));
    assert!(popups.last.is_none());
    assert!(!popups.should_show_popup(LogLevel::Info, "x"));
}

#[test]
fn logger_filters_lines_and_raises_error_popups() {
    let mut logger = Logger::new(Some("warn"));
    let quiet = logger.info("starting", 7, "main");
    assert!(quiet.line.is_none());
    assert!(quiet.popup.is_none());
    let loud = logger.error("broken", 7, "main");
    let line = loud.line.unwrap();
    assert!(line.ends_with("][ERROR][obs-chzzk-extension][pid:7][tid:main] broken"));
    let popup = loud.popup.unwrap();
    assert_eq!(popup.level, 3);
    assert_eq!(popup.title, "obs-chzzk-extension Error");
    assert_eq!(popup.body, "broken");
    let again = logger.error("broken", 7, "main");
    assert!(again.line.is_some());
    let warned = logger.warn("w", 1, "t");
    assert!(warned.line.is_some());
    assert!(warned.popup.is_none());
    assert!(Logger::new(None).debug("d", 1, "t").line.is_some());
}

#[test]
fn module_identity() {
    assert_eq!(module_name(), "obs-chzzk-extension\0");
    assert_eq!(module_description(), "OBS Chzzk Extension\0");
    assert_eq!(module_author(), "zeroday0619\0");
    assert_eq!(LIBOBS_API_VER, (32 << 24) | (1 << 16) | 1);
}

#[test]
fn frontend_events_have_names_and_actions() {
    assert_eq!(frontend_event_name(1), "STREAMING_STARTED");
    assert_eq!(frontend_event_name(2), "STREAMING_STOPPING");
    assert_eq!(frontend_event_name(3), "STREAMING_STOPPED");
    assert_eq!(frontend_event_name(17), "EXIT");
    assert_eq!(frontend_event_name(4), "OTHER");
    assert_eq!(frontend_event_action(1), FrontendAction::StartPresence);
    assert_eq!(frontend_event_action(3), FrontendAction::StopPresence);
    assert_eq!(frontend_event_action(17), FrontendAction::StopPresence);
    assert_eq!(frontend_event_action(0), FrontendAction::Ignore);
}

#[test]
fn a_stop_cancels_the_pending_start() {
    let mut s = PresenceScheduler::new();
    let token = s.start_presence_for_current_stream(true).unwrap();
    assert_eq!(token, 1);
    assert!(!s.stop_presence());
    assert_eq!(s.resume_delayed_start(token, true, true), DelayedStart::Cancelled);
    assert!(!s.worker_running);
}

#[test]
fn the_latest_start_goes_ahead() {
    let mut s = PresenceScheduler::new();
    assert_eq!(s.start_presence_for_current_stream(false), None);
    assert_eq!(s.token, 0);
    let first = s.start_presence_for_current_stream(true).unwrap();
    let second = s.start_presence_for_current_stream(true).unwrap();
    assert_eq!(s.resume_delayed_start(first, true, true), DelayedStart::Cancelled);
    assert_eq!(s.resume_delayed_start(second, false, true), DelayedStart::Disabled);
    assert_eq!(s.resume_delayed_start(second, true, false), DelayedStart::NoConfig);
    assert_eq!(s.resume_delayed_start(second, true, true), DelayedStart::Start);
    assert!(s.worker_running);
    assert!(s.stop_presence());
    assert!(!s.worker_running);
}

#[test]
fn tokens_wrap_at_the_end_of_the_range() {
    let mut s = PresenceScheduler { token: u64::MAX, worker_running: false };
    assert_eq!(s.start_presence_for_current_stream(true), Some(0));
}

#[test]
fn every_later_start_or_stop_supersedes_an_earlier_start() {
    let mut s = PresenceScheduler::new();
    let early = s.start_presence_for_current_stream(true).unwrap();
    assert_eq!(s.start_presence_for_current_stream(false), None);
    assert_eq!(s.resume_delayed_start(99, true, true), DelayedStart::Cancelled);
    let late = s.start_presence_for_current_stream(true).unwrap();
    assert_eq!(s.resume_delayed_start(late, true, true), DelayedStart::Start);
    assert!(s.stop_presence());
    let last = s.start_presence_for_current_stream(true).unwrap();
    assert_eq!(last, 4);
    assert_eq!(s.resume_delayed_start(early, true, true), DelayedStart::Cancelled);
    assert_eq!(s.resume_delayed_start(late, true, true), DelayedStart::Cancelled);
    assert!(!s.worker_running);
    assert_eq!(s.resume_delayed_start(last, true, true), DelayedStart::Start);
    assert!(s.worker_running);
}
