//! Tests of the settings, the command engine, entries, the filter and the
//! aggregator.

use oxtail::commands::execute_command;
use oxtail::commands::tokenize;
use oxtail::commands::CommandResult;
use oxtail::log_entry::LogEntry;
use oxtail::log_storage::Filter;
use oxtail::log_storage::LogSource;
use oxtail::log_storage::LogStorage;
use oxtail::settings::LogSettings;

fn entry_at(ts: i64, source: &str, content: &str) -> LogEntry {
    LogEntry {
        timestamp: ts,
        source: source.to_string(),
        content: content.to_string(),
        content_plain: content.to_string(),
        is_json: false,
        line_number: 0,
    }
}

#[test]
fn default_settings_toggles() {
    let s = LogSettings::default();
    assert!(s.show_time());
    assert!(s.show_source_labels());
    assert!(!s.show_line_numbers());
    assert!(!s.show_file_type());
    assert!(!s.show_raw());
    assert!(s.is_source_visible("stdout"));
    assert!(s.is_source_visible("stderr"));
    assert!(s.is_source_visible("never-seen"));
}

#[test]
fn source_visibility_is_normalized() {
    let mut s = LogSettings::default();
    s.set_source_visibility("App.LOG", false);
    assert!(!s.is_source_visible("app.log"));
    assert!(!s.is_source_visible("APP.log"));
    let cfg = s.get_source_config("app.log");
    assert!(!cfg.visible);
    let fresh = s.get_source_config("other.log");
    assert!(fresh.visible);
}

#[test]
fn set_all_sources_visibility_touches_known_sources() {
    let mut s = LogSettings::default();
    s.set_all_sources_visibility(false);
    assert!(!s.is_source_visible("stdout"));
    assert!(!s.is_source_visible("stderr"));
    // A name never configured still defaults to visible.
    assert!(s.is_source_visible("mystery"));
}

#[test]
fn tokenize_splits_on_whitespace() {
    let toks = tokenize("  show_source   stderr ");
    assert_eq!(toks.len(), 2);
    assert_eq!(toks[0], "show_source");
    assert_eq!(toks[1], "stderr");
    assert_eq!(tokenize("").len(), 0);
    assert_eq!(tokenize("   ").len(), 0);
}

#[test]
fn command_round_trip_restores_visibility() {
    let mut s = LogSettings::default();
    s.set_source_visibility("stderr", false);
    assert!(!s.is_source_visible("stderr"));
    assert!(matches!(
        execute_command("show_source stderr", &mut s),
        CommandResult::Success(())
    ));
    assert!(s.is_source_visible("stderr"));
    assert!(matches!(
        execute_command("hide_source stderr", &mut s),
        CommandResult::Success(())
    ));
    assert!(!s.is_source_visible("stderr"));
}

#[test]
fn unknown_command_is_error_and_settings_unchanged() {
    let mut s = LogSettings::default();
    s.set_source_visibility("extra", false);
    let before = (
        s.show_time(),
        s.show_source_labels(),
        s.show_line_numbers(),
        s.show_file_type(),
        s.show_raw(),
        s.is_source_visible("stdout"),
        s.is_source_visible("stderr"),
        s.is_source_visible("extra"),
    );
    match execute_command("bogus", &mut s) {
        CommandResult::Error(msg) => assert_eq!(msg, "Unknown command: bogus"),
        _ => panic!("expected an error"),
    }
    let after = (
        s.show_time(),
        s.show_source_labels(),
        s.show_line_numbers(),
        s.show_file_type(),
        s.show_raw(),
        s.is_source_visible("stdout"),
        s.is_source_visible("stderr"),
        s.is_source_visible("extra"),
    );
    assert_eq!(before, after);
}

#[test]
fn empty_command_is_error() {
    let mut s = LogSettings::default();
    match execute_command("   ", &mut s) {
        CommandResult::Error(msg) => assert_eq!(msg, "empty command"),
        _ => panic!("expected an error"),
    }
}

#[test]
fn quit_commands() {
    let mut s = LogSettings::default();
    assert!(matches!(execute_command("q", &mut s), CommandResult::Quit));
    assert!(matches!(execute_command("quit", &mut s), CommandResult::Quit));
}

#[test]
fn show_and_hide_meta_toggles() {
    let mut s = LogSettings::default();
    assert!(matches!(
        execute_command("show_meta lines", &mut s),
        CommandResult::Success(())
    ));
    assert!(s.show_line_numbers());
    assert!(matches!(
        execute_command("hide_meta time", &mut s),
        CommandResult::Success(())
    ));
    assert!(!s.show_time());
    assert!(matches!(
        execute_command("show_meta ansi", &mut s),
        CommandResult::Success(())
    ));
    assert!(s.show_raw());
    assert!(matches!(
        execute_command("show_meta filetype", &mut s),
        CommandResult::Success(())
    ));
    assert!(s.show_file_type());
    assert!(matches!(
        execute_command("hide_meta source", &mut s),
        CommandResult::Success(())
    ));
    assert!(!s.show_source_labels());
    match execute_command("show_meta colors", &mut s) {
        CommandResult::Error(msg) => assert_eq!(msg, "Unknown metadata type: colors"),
        _ => panic!("expected an error"),
    }
}

#[test]
fn missing_argument_errors() {
    let mut s = LogSettings::default();
    match execute_command("show_source", &mut s) {
        CommandResult::Error(msg) => assert_eq!(msg, "Source name required"),
        _ => panic!("expected an error"),
    }
    match execute_command("hide_meta", &mut s) {
        CommandResult::Error(msg) => assert_eq!(msg, "Metadata type required"),
        _ => panic!("expected an error"),
    }
}

#[test]
fn hide_all_then_show_all() {
    let mut s = LogSettings::default();
    assert!(matches!(
        execute_command("hide all", &mut s),
        CommandResult::Success(())
    ));
    assert!(!s.is_source_visible("stdout"));
    assert!(matches!(
        execute_command("show all", &mut s),
        CommandResult::Success(())
    ));
    assert!(s.is_source_visible("stdout"));
}

#[test]
fn entry_strips_escapes_and_detects_structured_content() {
    let e = LogEntry::new("stdout".to_string(), "\u{1b}[32mhello\u{1b}[0m".to_string());
    assert_eq!(e.content, "\u{1b}[32mhello\u{1b}[0m");
    assert_eq!(e.content_plain, "hello");
    assert!(!e.is_json);
    assert_eq!(e.line_number, 0);

    let j = LogEntry::new("stdout".to_string(), "{\"a\": 1}".to_string());
    assert!(j.is_json);

    let p = LogEntry::from_plain("stdin".to_string(), "plain line".to_string());
    assert_eq!(p.content_plain, "plain line");
    assert!(!p.is_json);
    assert_eq!(p.get_content_plain_len(), 10);
}

#[test]
fn format_emits_fields_in_order() {
    let mut settings = LogSettings::default();
    let mut e = entry_at(0, "stdout", "hello");
    e.line_number = 1;
    let text = e.format_with_label(&settings, "2020-01-01 00:00:00");
    assert_eq!(text, "[2020-01-01 00:00:00] [STDOUT] hello");

    settings.set_show_line_numbers(true);
    let text = e.format_with_label(&settings, "2020-01-01 00:00:00");
    assert_eq!(text, "[     1] [2020-01-01 00:00:00] [STDOUT] hello");

    settings.set_show_time(false);
    settings.set_show_source_labels(false);
    settings.set_show_line_numbers(false);
    settings.set_show_file_type(true);
    let text = e.format_with_label(&settings, "");
    assert_eq!(text, "  hello");

    let mut j = entry_at(0, "stdout", "{}");
    j.is_json = true;
    let text = j.format_with_label(&settings, "");
    assert_eq!(text, "\u{e60b} {}");

    // The format entry point renders some time label in the same frame.
    settings.set_show_time(true);
    let text = e.format(&settings, None);
    assert!(text.starts_with("["));
    assert!(text.ends_with("hello"));
}

#[test]
fn sequence_numbers_start_at_one_and_increase() {
    let mut src = LogSource::new("stdout".to_string());
    src.add_entry(entry_at(5, "stdout", "a"));
    src.add_entry(entry_at(3, "stdout", "b"));
    src.add_entry(entry_at(9, "stdout", "c"));
    assert_eq!(src.len(), 3);
    let filter = Filter::new();
    let all = src.get_entries(&filter);
    let numbers: Vec<usize> = all.iter().map(|e| e.line_number).collect();
    assert_eq!(numbers, vec![1, 2, 3]);
}

#[test]
fn source_flags() {
    let mut src = LogSource::new("stdout".to_string());
    assert!(src.is_visible());
    assert!(!src.has_new_entries());
    src.add_entry(entry_at(1, "stdout", "a"));
    assert!(src.has_new_entries());
    src.clear_new_entries_flag();
    assert!(!src.has_new_entries());
    src.set_visible(false);
    assert!(!src.is_visible());
    assert_eq!(src.name_str(), "stdout");
}

#[test]
fn filter_composition() {
    let mut filter = Filter::new();
    let visible = entry_at(1, "stdout", "an ERROR happened");
    let other = entry_at(1, "stdout", "all quiet");
    assert!(filter.check(&visible));
    assert!(filter.check(&other));

    assert!(filter.set_filter_in("ERROR"));
    assert!(filter.check(&visible));
    assert!(!filter.check(&other));

    assert!(filter.set_filter_out("quiet"));
    assert!(filter.check(&visible));
    assert!(!filter.check(&other));

    // Source visibility applies to the lower-cased source name.
    let mut settings = LogSettings::default();
    settings.set_source_visibility("stdout", false);
    filter.update_from_settings(&settings);
    assert!(!filter.check(&visible));
    let upper = entry_at(1, "STDOUT", "an ERROR happened");
    assert!(!filter.check(&upper));

    // A pattern that does not compile changes nothing.
    let mut f2 = Filter::new();
    assert!(!f2.set_filter_in("["));
    assert!(f2.check(&other));
}

#[test]
fn storage_merges_sources_in_time_order() {
    let mut storage = LogStorage::new();
    storage.add_entry(entry_at(30, "stdout", "third"));
    storage.add_entry(entry_at(10, "stderr", "first"));
    storage.add_entry(entry_at(20, "stdout", "second"));
    let merged = storage.get_filtered_entries();
    let contents: Vec<&str> = merged.iter().map(|e| e.content.as_str()).collect();
    assert_eq!(contents, vec!["first", "second", "third"]);
    assert_eq!(storage.total_entries(), 3);
}

#[test]
fn storage_sort_is_stable_for_equal_timestamps() {
    let mut storage = LogStorage::new();
    storage.add_entry(entry_at(10, "stdout", "a"));
    storage.add_entry(entry_at(10, "stdout", "b"));
    storage.add_entry(entry_at(10, "stderr", "c"));
    let merged = storage.get_filtered_entries();
    let contents: Vec<&str> = merged.iter().map(|e| e.content.as_str()).collect();
    // Same timestamps: append order within a source, sources in
    // registration order.
    assert_eq!(contents, vec!["a", "b", "c"]);
}

#[test]
fn storage_filter_refresh_hides_sources() {
    let mut storage = LogStorage::new();
    storage.add_entry(entry_at(1, "stdout", "keep"));
    storage.add_entry(entry_at(2, "stderr", "drop"));
    let mut settings = LogSettings::default();
    settings.set_source_visibility("stderr", false);
    storage.update_filter_from_settings(&settings);
    let merged = storage.get_filtered_entries();
    let contents: Vec<&str> = merged.iter().map(|e| e.content.as_str()).collect();
    assert_eq!(contents, vec!["keep"]);
}

#[test]
fn storage_tracks_new_entries_and_sources() {
    let mut storage = LogStorage::new();
    assert!(!storage.has_new_visible_entries());
    storage.add_entry(entry_at(1, "stdout", "x"));
    assert!(storage.has_new_visible_entries());
    storage.clear_new_entries_flags();
    assert!(!storage.has_new_visible_entries());

    storage.add_source("app.log".to_string());
    assert!(storage.get_source("app.log").is_some());
    assert!(storage.get_source("missing").is_none());
    assert_eq!(storage.get_source("stdout").unwrap().len(), 1);

    storage.set_active_source(Some("app.log".to_string()));
    assert_eq!(storage.get_active_source().as_deref(), Some("app.log"));
    // The active source has nothing new, so no redraw is owed even after
    // another source receives entries.
    storage.add_entry(entry_at(2, "stdout", "y"));
    assert!(!storage.has_new_visible_entries());
}
