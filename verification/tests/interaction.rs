//! Tests of the viewport, the command prompt, the tail records and the
//! event-loop decisions.

use oxtail::command_prompt::CommandInputResult;
use oxtail::command_prompt::CommandPrompt;
use oxtail::command_prompt::CommandHistory;
use oxtail::command_prompt::KeyInput;
use oxtail::event_loop::handle_navigation_key;
use oxtail::event_loop::process_submitted_command;
use oxtail::log_storage::LogStorage;
use oxtail::log_viewer::source_style;
use oxtail::log_viewer::truncate_ansi;
use oxtail::log_viewer::visible_window;
use oxtail::log_viewer::LogViewer;
use oxtail::log_viewer::SourceStyle;
use oxtail::settings::LogSettings;
use oxtail::tail::ReadPlan;
use oxtail::tail::TailState;

#[test]
fn live_tail_stays_pinned_to_bottom() {
    let mut v = LogViewer::new();
    assert!(!v.is_paused());
    assert_eq!(v.scroll_offset(), 0);
    v.adjust_for_new_entries(0);
    assert_eq!(v.scroll_offset(), 0);
    v.adjust_for_new_entries(7);
    assert_eq!(v.scroll_offset(), 0);
    assert!(!v.is_paused());
}

#[test]
fn paused_window_keeps_its_entries() {
    let mut v = LogViewer::new();
    v.scroll_up(3);
    assert!(v.is_paused());
    assert_eq!(v.scroll_offset(), 3);
    v.adjust_for_new_entries(4);
    assert_eq!(v.scroll_offset(), 7);
    assert!(v.is_paused());
    // The same window over the grown log: offset k with total t shows the
    // same range as offset k+n with total t+n.
    let before = visible_window(20, 5, 3);
    let after = visible_window(24, 5, 7);
    assert_eq!(before, after);
}

#[test]
fn scrolling_and_pausing() {
    let mut v = LogViewer::new();
    v.scroll_up(2);
    assert!(v.is_paused());
    v.scroll_down(1);
    assert_eq!(v.scroll_offset(), 1);
    assert!(v.is_paused());
    v.scroll_down(5);
    assert_eq!(v.scroll_offset(), 0);
    assert!(!v.is_paused());
    v.page_up(10);
    assert_eq!(v.scroll_offset(), 10);
    v.page_down(4);
    assert_eq!(v.scroll_offset(), 6);
    v.jump_to_end();
    assert_eq!(v.scroll_offset(), 0);
    assert!(!v.is_paused());
    v.jump_to_start(50);
    assert_eq!(v.scroll_offset(), 49);
    assert!(v.is_paused());
    v.set_paused(false);
    assert!(!v.is_paused());
    v.set_scroll_offset(5);
    assert_eq!(v.scroll_offset(), 5);
}

#[test]
fn jump_to_line_examples() {
    let mut v = LogViewer::new();
    v.jump_to_line(1, 100);
    assert_eq!(v.scroll_offset(), 99);
    assert!(v.is_paused());
    v.jump_to_line(100, 100);
    assert_eq!(v.scroll_offset(), 0);
    // Out of range — past the end, line zero, or an empty view — snaps to
    // the bottom and still pauses.
    v.jump_to_line(500, 100);
    assert_eq!(v.scroll_offset(), 0);
    v.scroll_up(9);
    v.jump_to_line(0, 100);
    assert_eq!(v.scroll_offset(), 0);
    assert!(v.is_paused());
    v.scroll_up(9);
    v.jump_to_line(3, 0);
    assert_eq!(v.scroll_offset(), 0);
    assert!(v.is_paused());
}

#[test]
fn window_arithmetic() {
    assert_eq!(visible_window(100, 10, 0), (90, 100));
    assert_eq!(visible_window(100, 10, 5), (85, 95));
    // The offset is clamped so the window never leaves the log.
    assert_eq!(visible_window(100, 10, 1000), (0, 10));
    // Fewer entries than the window height: everything is shown.
    assert_eq!(visible_window(5, 10, 0), (0, 5));
    assert_eq!(visible_window(0, 10, 3), (0, 0));
}

#[test]
fn style_classes_by_source() {
    assert!(source_style("stderr") == SourceStyle::Stderr);
    assert!(source_style("stdout") == SourceStyle::Stdout);
    assert!(source_style("app.log") == SourceStyle::Other);
}

#[test]
fn truncation_by_display_width() {
    assert_eq!(truncate_ansi("hello world", 5), "hello");
    assert_eq!(truncate_ansi("hi   ", 10), "hi");
    assert_eq!(
        truncate_ansi("\u{1b}[32mhello\u{1b}[0m world", 5),
        "\u{1b}[32mhello"
    );
    assert_eq!(truncate_ansi("", 10), "");
    assert_eq!(truncate_ansi("abc", 0), "");
}

#[test]
fn prompt_edits_a_line() {
    let mut p = CommandPrompt::new();
    assert!(!p.is_active());
    assert_eq!(p.handle_key_event(KeyInput::Char('x')).0, false);
    p.activate();
    assert!(p.is_active());
    for c in ['s', 'h', 'o', 'w'] {
        p.handle_key_event(KeyInput::Char(c));
    }
    p.handle_key_event(KeyInput::Home);
    p.handle_key_event(KeyInput::Delete);
    p.handle_key_event(KeyInput::End);
    p.handle_key_event(KeyInput::Char('!'));
    match p.handle_key_event(KeyInput::Enter) {
        (true, CommandInputResult::Command(cmd)) => assert_eq!(cmd, "how!"),
        _ => panic!("expected a completed command"),
    }
}

#[test]
fn prompt_control_keys() {
    let mut p = CommandPrompt::new();
    p.activate();
    for c in ['a', 'b', ' ', 'c', 'd'] {
        p.handle_key_event(KeyInput::Char(c));
    }
    // Delete the word before the cursor, then kill to the start.
    p.handle_key_event(KeyInput::Ctrl('w'));
    match p.handle_key_event(KeyInput::Enter) {
        (_, CommandInputResult::Command(cmd)) => assert_eq!(cmd, "ab "),
        _ => panic!("expected a completed command"),
    }
    p.handle_key_event(KeyInput::Left);
    p.handle_key_event(KeyInput::Ctrl('k'));
    match p.handle_key_event(KeyInput::Enter) {
        (_, CommandInputResult::Command(cmd)) => assert_eq!(cmd, "ab"),
        _ => panic!("expected a completed command"),
    }
    p.handle_key_event(KeyInput::Ctrl('a'));
    p.handle_key_event(KeyInput::Right);
    p.handle_key_event(KeyInput::Ctrl('u'));
    match p.handle_key_event(KeyInput::Enter) {
        (_, CommandInputResult::Command(cmd)) => assert_eq!(cmd, "b"),
        _ => panic!("expected a completed command"),
    }
    p.handle_key_event(KeyInput::Ctrl('e'));
    p.handle_key_event(KeyInput::Backspace);
    match p.handle_key_event(KeyInput::Enter) {
        (_, CommandInputResult::Command(cmd)) => assert_eq!(cmd, ""),
        _ => panic!("expected a completed command"),
    }
    assert!(matches!(
        p.handle_key_event(KeyInput::Esc),
        (true, CommandInputResult::Cancelled)
    ));
}

#[test]
fn prompt_browses_history() {
    let mut p = CommandPrompt::new();
    p.add_to_history("first".to_string());
    p.add_to_history("second".to_string());
    p.activate();
    p.handle_key_event(KeyInput::Up);
    match p.handle_key_event(KeyInput::Enter) {
        (_, CommandInputResult::Command(cmd)) => assert_eq!(cmd, "second"),
        _ => panic!("expected a completed command"),
    }
    p.handle_key_event(KeyInput::Up);
    p.handle_key_event(KeyInput::Up);
    match p.handle_key_event(KeyInput::Enter) {
        (_, CommandInputResult::Command(cmd)) => assert_eq!(cmd, "first"),
        _ => panic!("expected a completed command"),
    }
    // Stepping newer past the most recent entry clears the buffer.
    p.handle_key_event(KeyInput::Down);
    p.handle_key_event(KeyInput::Down);
    match p.handle_key_event(KeyInput::Enter) {
        (_, CommandInputResult::Command(cmd)) => assert_eq!(cmd, ""),
        _ => panic!("expected a completed command"),
    }
}

#[test]
fn history_search_example() {
    let mut h = CommandHistory::new();
    h.add("show all".to_string());
    h.add("hide stderr".to_string());
    h.add("show stdout".to_string());
    assert_eq!(h.search("e").as_deref(), Some("hide stderr"));
    // Narrowing continues from the found position, so the found command
    // itself is not revisited; the buffer keeps the earlier find.
    assert_eq!(h.search("er"), None);
}

#[test]
fn reverse_search_keeps_found_buffer() {
    let mut p = CommandPrompt::new();
    p.add_to_history("show all".to_string());
    p.add_to_history("hide stderr".to_string());
    p.add_to_history("show stdout".to_string());
    p.activate();
    p.handle_key_event(KeyInput::Ctrl('r'));
    assert!(p.in_search_mode());
    p.handle_key_event(KeyInput::Char('e'));
    assert_eq!(p.display_text(), "(reverse-i-search)`e': hide stderr");
    p.handle_key_event(KeyInput::Char('r'));
    assert_eq!(p.display_text(), "(reverse-i-search)`er': hide stderr");
    // Enter leaves search mode keeping the found buffer, then submits it.
    p.handle_key_event(KeyInput::Enter);
    assert!(!p.in_search_mode());
    match p.handle_key_event(KeyInput::Enter) {
        (_, CommandInputResult::Command(cmd)) => assert_eq!(cmd, "hide stderr"),
        _ => panic!("expected a completed command"),
    }
}

#[test]
fn prompt_display_forms() {
    let mut p = CommandPrompt::new();
    assert_eq!(p.display_text(), "Press ':' to enter command mode");
    p.activate();
    p.handle_key_event(KeyInput::Char('a'));
    p.handle_key_event(KeyInput::Char('b'));
    assert_eq!(p.display_text(), ":ab\u{2588}");
    p.handle_key_event(KeyInput::Left);
    assert_eq!(p.display_text(), ":a\u{2588}b");
    p.set_status(Some("Error: no".to_string()));
    assert!(p.has_status());
    assert_eq!(p.display_text(), ":ab | Error: no");
    p.deactivate();
    assert!(!p.is_active());
}

#[test]
fn history_skips_blank_commands() {
    let mut h = CommandHistory::new();
    h.add("   ".to_string());
    assert_eq!(h.up(), None);
    h.add("real".to_string());
    assert_eq!(h.up().as_deref(), Some("real"));
    // At the oldest entry, stepping older stays put.
    assert_eq!(h.up().as_deref(), Some("real"));
    assert_eq!(h.down().as_deref(), Some(""));
    assert_eq!(h.down(), None);
}

#[test]
fn truncation_resets_read_offset() {
    let mut t = TailState::initial(100, 50, 50);
    assert_eq!(t.last_read_offset(), 50);
    // The file shrank: the next read starts from the top.
    assert_eq!(t.on_modify_event(200, 30), ReadPlan::ReadFrom(0));
    assert_eq!(t.last_read_offset(), 0);
    t.record_read_end(30);
    assert_eq!(t.last_read_offset(), 30);
}

#[test]
fn redundant_notices_read_nothing() {
    let mut t = TailState::initial(100, 50, 50);
    assert_eq!(t.on_modify_event(100, 60), ReadPlan::Skip);
    assert_eq!(t.on_modify_event(100, 60), ReadPlan::Skip);
    assert_eq!(t.last_read_offset(), 50);
    // A genuinely newer notice with a grown file reads from where the last
    // read ended.
    assert_eq!(t.on_modify_event(101, 60), ReadPlan::ReadFrom(50));
}

#[test]
fn submitted_number_jumps_to_line() {
    let mut settings = LogSettings::default();
    let mut storage = LogStorage::new();
    let mut viewer = LogViewer::new();
    let mut prompt = CommandPrompt::new();
    prompt.activate();
    let quit = process_submitted_command(
        &"42".to_string(),
        &mut settings,
        &mut storage,
        &mut viewer,
        &mut prompt,
        100,
    );
    assert!(!quit);
    assert_eq!(viewer.scroll_offset(), 58);
    assert!(viewer.is_paused());
    assert!(!prompt.is_active());
}

#[test]
fn submitted_command_outcomes() {
    let mut settings = LogSettings::default();
    let mut storage = LogStorage::new();
    let mut viewer = LogViewer::new();
    let mut prompt = CommandPrompt::new();
    prompt.activate();
    let quit = process_submitted_command(
        &"hide_source stdout".to_string(),
        &mut settings,
        &mut storage,
        &mut viewer,
        &mut prompt,
        0,
    );
    assert!(!quit);
    assert!(!settings.is_source_visible("stdout"));
    assert!(!prompt.is_active());

    prompt.activate();
    let quit = process_submitted_command(
        &"bogus".to_string(),
        &mut settings,
        &mut storage,
        &mut viewer,
        &mut prompt,
        0,
    );
    assert!(!quit);
    assert!(prompt.is_active());
    assert!(prompt.has_status());
    assert_eq!(prompt.display_text(), ": | Error: Unknown command: bogus");

    let quit = process_submitted_command(
        &"q".to_string(),
        &mut settings,
        &mut storage,
        &mut viewer,
        &mut prompt,
        0,
    );
    assert!(quit);
}

#[test]
fn navigation_keys_drive_the_viewport() {
    let mut settings = LogSettings::default();
    let mut viewer = LogViewer::new();
    let mut prompt = CommandPrompt::new();
    assert!(handle_navigation_key(
        KeyInput::Char('q'),
        &mut viewer,
        &mut prompt,
        &mut settings,
        100,
        10,
    ));
    assert!(!handle_navigation_key(
        KeyInput::Char('k'),
        &mut viewer,
        &mut prompt,
        &mut settings,
        100,
        10,
    ));
    assert_eq!(viewer.scroll_offset(), 1);
    handle_navigation_key(KeyInput::PageUp, &mut viewer, &mut prompt, &mut settings, 100, 10);
    assert_eq!(viewer.scroll_offset(), 11);
    handle_navigation_key(KeyInput::Down, &mut viewer, &mut prompt, &mut settings, 100, 10);
    assert_eq!(viewer.scroll_offset(), 10);
    handle_navigation_key(KeyInput::PageDown, &mut viewer, &mut prompt, &mut settings, 100, 10);
    assert_eq!(viewer.scroll_offset(), 0);
    assert!(!viewer.is_paused());
    handle_navigation_key(KeyInput::Char('g'), &mut viewer, &mut prompt, &mut settings, 100, 10);
    assert_eq!(viewer.scroll_offset(), 99);
    handle_navigation_key(KeyInput::Char('G'), &mut viewer, &mut prompt, &mut settings, 100, 10);
    assert_eq!(viewer.scroll_offset(), 0);
    handle_navigation_key(KeyInput::Char('p'), &mut viewer, &mut prompt, &mut settings, 100, 10);
    assert!(viewer.is_paused());
    handle_navigation_key(KeyInput::Char('r'), &mut viewer, &mut prompt, &mut settings, 100, 10);
    assert!(settings.show_raw());
    handle_navigation_key(KeyInput::Char(':'), &mut viewer, &mut prompt, &mut settings, 100, 10);
    assert!(prompt.is_active());
}

#[test]
fn render_line_pads_to_width() {
    let mut settings = LogSettings::default();
    settings.set_show_time(false);
    settings.set_show_source_labels(false);
    let entry = oxtail::log_entry::LogEntry::from_plain("stdout".to_string(), "hi".to_string());
    // Padded once to the window by character count and once more by byte
    // length, as the renderer always did.
    assert_eq!(oxtail::log_viewer::render_line(&entry, &settings, 5), "hi      ");
}

#[test]
fn search_backspace_searches_afresh() {
    let mut p = CommandPrompt::new();
    p.add_to_history("show all".to_string());
    p.add_to_history("hide stderr".to_string());
    p.add_to_history("show stdout".to_string());
    p.activate();
    p.handle_key_event(KeyInput::Ctrl('r'));
    p.handle_key_event(KeyInput::Char('e'));
    p.handle_key_event(KeyInput::Char('r'));
    assert_eq!(p.display_text(), "(reverse-i-search)`er': hide stderr");
    // Backspace shrinks the query and scans the whole history again.
    p.handle_key_event(KeyInput::Backspace);
    assert_eq!(p.display_text(), "(reverse-i-search)`e': hide stderr");
    // Escape keeps the recalled buffer without submitting.
    p.handle_key_event(KeyInput::Esc);
    assert!(!p.in_search_mode());
    match p.handle_key_event(KeyInput::Enter) {
        (_, CommandInputResult::Command(cmd)) => assert_eq!(cmd, "hide stderr"),
        _ => panic!("expected a completed command"),
    }
}

#[test]
fn zero_line_jump_snaps_to_bottom() {
    let mut settings = LogSettings::default();
    let mut storage = LogStorage::new();
    let mut viewer = LogViewer::new();
    let mut prompt = CommandPrompt::new();
    viewer.scroll_up(4);
    prompt.activate();
    let quit = process_submitted_command(
        &"0".to_string(),
        &mut settings,
        &mut storage,
        &mut viewer,
        &mut prompt,
        100,
    );
    assert!(!quit);
    assert_eq!(viewer.scroll_offset(), 0);
    assert!(viewer.is_paused());
    assert!(!prompt.is_active());
}
