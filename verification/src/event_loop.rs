//! The event loop's decisions, as pure state transitions: what a submitted
//! command line does to the settings, filter, viewport and prompt, and what
//! each navigation key does when the prompt is inactive. The loop itself —
//! polling the terminal, draining the entry channel, drawing — lives outside
//! and only calls these.

use vstd::prelude::*;
use crate::command_prompt::history_add;
use crate::command_prompt::CommandPrompt;
use crate::command_prompt::HistoryModel;
use crate::command_prompt::KeyInput;
use crate::command_prompt::PromptModel;
use crate::commands::error_message;
use crate::commands::execute_command;
use crate::commands::is_quit_command;
use crate::commands::is_settings_command;
use crate::commands::settings_after;
use crate::commands::tokens_of;
use crate::commands::CommandResult;
use crate::log_storage::LogStorage;
use crate::log_viewer::LogViewer;
use crate::settings::LogSettings;
use crate::text::all_digits;
use crate::text::dec_val;
use crate::text::parse_usize;
use crate::text::to_char_vec;

verus! {

broadcast use vstd::string::group_string_axioms;

/// Whether a submitted line is a jump-to-line request: nothing but decimal
/// digits, naming a representable line number.
pub open spec fn is_line_jump(s: Seq<char>) -> bool {
    s.len() > 0 && all_digits(s) && dec_val(s) <= usize::MAX
}

/// The prompt after deactivation, its history retained.
pub open spec fn deactivated_prompt(h: HistoryModel) -> PromptModel {
    PromptModel {
        buffer: Seq::empty(),
        cursor: 0,
        status: None,
        search_mode: false,
        search_query: Seq::empty(),
        active: false,
        history: h,
    }
}

/// How many entries the filtered view gained since the last pass: the
/// difference of the two counts, and zero when the view shrank (a filter
/// change between passes).
pub fn new_entry_count(current: usize, previous: usize) -> (r: usize)
    ensures
        r == if current >= previous {
            current - previous
        } else {
            0int
        },
{
    if current >= previous {
        current - previous
    } else {
        0
    }
}

/// Carries out one submitted command line. A line of digits jumps the
/// viewport to that 1-based line (out-of-range numbers snap to the bottom),
/// pauses, and closes the prompt. Anything else goes
/// to the command engine: on success the filter is refreshed from the
/// settings, the line is recorded in the history and the prompt closes; on
/// error the prompt stays open showing the message; `q`/`quit` asks the
/// caller to exit.
pub fn process_submitted_command(
    cmd: &String,
    settings: &mut LogSettings,
    storage: &mut LogStorage,
    viewer: &mut LogViewer,
    prompt: &mut CommandPrompt,
    total_lines: usize,
) -> (quit: bool)
    requires
        old(settings).wf(),
        old(storage).wf(),
        old(prompt).wf(),
    ensures
        final(settings).wf(),
        final(storage).wf(),
        final(prompt).wf(),
        quit <==> (!is_line_jump(cmd@) && is_quit_command(tokens_of(cmd@))),
        is_line_jump(cmd@) ==> {
            &&& final(settings)@ == old(settings)@
            &&& final(storage)@ == old(storage)@
            &&& final(prompt)@ == deactivated_prompt(old(prompt)@.history)
            &&& ({
                let n = dec_val(cmd@);
                &&& final(viewer)@.scroll_offset == if 1 <= n <= total_lines {
                    total_lines - n
                } else {
                    0int
                }
                &&& final(viewer)@.is_paused == true
                &&& final(viewer)@.title == old(viewer)@.title
            })
        },
        !is_line_jump(cmd@) ==> {
            &&& final(viewer)@ == old(viewer)@
            &&& final(settings)@ == settings_after(old(settings)@, tokens_of(cmd@))
            &&& final(storage)@.sources == old(storage)@.sources
            &&& final(storage)@.active_source == old(storage)@.active_source
            &&& (if is_settings_command(tokens_of(cmd@)) {
                &&& final(storage)@.filter.vis == old(
                    storage,
                )@.filter.vis.union_prefer_right(final(settings)@.vis)
                &&& final(storage)@.filter.filter_in == old(storage)@.filter.filter_in
                &&& final(storage)@.filter.filter_out == old(storage)@.filter.filter_out
                &&& final(prompt)@ == deactivated_prompt(
                    history_add(old(prompt)@.history, cmd@),
                )
            } else {
                &&& final(storage)@ == old(storage)@
                &&& (is_quit_command(tokens_of(cmd@)) ==> final(prompt)@ == old(prompt)@)
                &&& (!is_quit_command(tokens_of(cmd@)) ==> final(prompt)@ == (PromptModel {
                    status: Some("Error: "@ + error_message(tokens_of(cmd@))),
                    ..old(prompt)@
                }))
            })
        },
{
    let cs = to_char_vec(cmd.as_str());
    if let Some(line) = parse_usize(&cs) {
        viewer.jump_to_line(line, total_lines);
        prompt.deactivate();
        return false;
    }
    match execute_command(cmd.as_str(), settings) {
        CommandResult::Success(()) => {
            storage.update_filter_from_settings(settings);
            prompt.add_to_history(cmd.clone());
            prompt.deactivate();
            false
        },
        CommandResult::Error(err) => {
            let mut msg = String::from_str("Error: ");
            msg.append(err.as_str());
            prompt.set_status(Some(msg));
            false
        },
        CommandResult::Quit => true,
    }
}

/// Dispatches one key pressed while the prompt is inactive: `q` quits; `:`
/// opens the prompt; `r` toggles raw escape display; `p` toggles pause;
/// `j`/Down and `k`/Up scroll by a line; `g`/`<` jumps to the start and
/// `G`/`>` to the end; PageUp and PageDown scroll by a page. Anything else
/// does nothing.
pub fn handle_navigation_key(
    key: KeyInput,
    viewer: &mut LogViewer,
    prompt: &mut CommandPrompt,
    settings: &mut LogSettings,
    total_lines: usize,
    page_size: usize,
) -> (quit: bool)
    requires
        old(settings).wf(),
        old(prompt).wf(),
        (key == KeyInput::Char('k') || key == KeyInput::Up) ==> old(viewer)@.scroll_offset + 1
            <= usize::MAX,
        key == KeyInput::PageUp ==> old(viewer)@.scroll_offset + page_size <= usize::MAX,
    ensures
        final(settings).wf(),
        final(prompt).wf(),
        quit <==> key == KeyInput::Char('q'),
        key != KeyInput::Char(':') ==> final(prompt)@ == old(prompt)@,
        key == KeyInput::Char(':') ==> final(prompt)@ == (PromptModel {
            buffer: Seq::empty(),
            cursor: 0,
            status: None,
            search_mode: false,
            search_query: Seq::empty(),
            active: true,
            history: HistoryModel { position: None, ..old(prompt)@.history },
        }),
        key != KeyInput::Char('r') ==> final(settings)@ == old(settings)@,
        key == KeyInput::Char('r') ==> final(settings)@ == (
        crate::settings::SettingsModel {
            show_raw: !old(settings)@.show_raw,
            ..old(settings)@
        }),
        key == KeyInput::Char('p') ==> final(viewer)@ == (crate::log_viewer::ViewerModel {
            is_paused: !old(viewer)@.is_paused,
            ..old(viewer)@
        }),
        (key == KeyInput::Char('j') || key == KeyInput::Down) ==> {
            &&& final(viewer)@.scroll_offset == if old(viewer)@.scroll_offset >= 1 {
                old(viewer)@.scroll_offset - 1
            } else {
                0
            }
            &&& final(viewer)@.is_paused == (final(viewer)@.scroll_offset != 0 && old(
                viewer,
            )@.is_paused)
            &&& final(viewer)@.title == old(viewer)@.title
        },
        (key == KeyInput::Char('k') || key == KeyInput::Up) ==> {
            &&& final(viewer)@.scroll_offset == old(viewer)@.scroll_offset + 1
            &&& final(viewer)@.is_paused == true
            &&& final(viewer)@.title == old(viewer)@.title
        },
        (key == KeyInput::Char('g') || key == KeyInput::Char('<')) ==> {
            &&& final(viewer)@.scroll_offset == if total_lines > 0 {
                total_lines - 1
            } else {
                0int
            }
            &&& final(viewer)@.is_paused == true
            &&& final(viewer)@.title == old(viewer)@.title
        },
        (key == KeyInput::Char('G') || key == KeyInput::Char('>')) ==> {
            &&& final(viewer)@.scroll_offset == 0
            &&& final(viewer)@.is_paused == false
            &&& final(viewer)@.title == old(viewer)@.title
        },
        key == KeyInput::PageUp ==> {
            &&& final(viewer)@.scroll_offset == old(viewer)@.scroll_offset + page_size
            &&& final(viewer)@.is_paused == true
            &&& final(viewer)@.title == old(viewer)@.title
        },
        key == KeyInput::PageDown ==> {
            &&& final(viewer)@.scroll_offset == if old(viewer)@.scroll_offset >= page_size {
                old(viewer)@.scroll_offset - page_size
            } else {
                0
            }
            &&& final(viewer)@.is_paused == (final(viewer)@.scroll_offset != 0 && old(
                viewer,
            )@.is_paused)
            &&& final(viewer)@.title == old(viewer)@.title
        },
        (match key {
            KeyInput::Char(c) => c != 'q' && c != ':' && c != 'r' && c != 'p' && c != 'j' && c
                != 'k' && c != 'g' && c != '<' && c != 'G' && c != '>',
            KeyInput::Up | KeyInput::Down | KeyInput::PageUp | KeyInput::PageDown => false,
            _ => true,
        }) ==> final(viewer)@ == old(viewer)@,
{
    match key {
        KeyInput::Char(c) => {
            if c == 'q' {
                return true;
            }
            if c == ':' {
                prompt.activate();
            } else if c == 'r' {
                let raw = settings.show_raw();
                settings.set_show_raw(!raw);
            } else if c == 'p' {
                let paused = viewer.is_paused();
                viewer.set_paused(!paused);
            } else if c == 'j' {
                viewer.scroll_down(1);
            } else if c == 'k' {
                viewer.scroll_up(1);
            } else if c == 'g' || c == '<' {
                viewer.jump_to_start(total_lines);
            } else if c == 'G' || c == '>' {
                viewer.jump_to_end();
            }
            false
        },
        KeyInput::Down => {
            viewer.scroll_down(1);
            false
        },
        KeyInput::Up => {
            viewer.scroll_up(1);
            false
        },
        KeyInput::PageUp => {
            viewer.page_up(page_size);
            false
        },
        KeyInput::PageDown => {
            viewer.page_down(page_size);
            false
        },
        _ => false,
    }
}

} // verus!
