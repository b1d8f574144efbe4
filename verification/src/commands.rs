//! The command engine: parses one typed command line and applies it to the
//! runtime settings.
//!
//! Recognized commands: `q`/`quit`; `show_source`/`show` and
//! `hide_source`/`hide` with a source name or `all`; `show_meta`/`hide_meta`
//! with one of `time`, `source`, `lines`, `filetype`, `ansi`. Anything else
//! is an error, and errors leave the settings untouched.

use vstd::prelude::*;
use crate::settings::LogSettings;
use crate::settings::SettingsModel;
use crate::settings::source_visible;
use crate::text::is_space;
use crate::text::is_space_char;
use crate::text::lower_of;
use crate::text::str_eq;

verus! {

broadcast use vstd::string::group_string_axioms;

/// Outcome of executing one command line.
pub enum CommandResult {
    /// The command was applied to the settings.
    Success(()),
    /// The command was rejected, with a message for the status line; the
    /// settings are unchanged.
    Error(String),
    /// The command asks the application to exit.
    Quit,
}

/// First position at or after `i` that ends the word starting there: the
/// next whitespace character, or the end of the line.
pub open spec fn word_end(s: Seq<char>, i: int) -> int
    decreases s.len() - i,
    when 0 <= i <= s.len()
{
    if i >= s.len() || is_space_char(s[i]) {
        i
    } else {
        word_end(s, i + 1)
    }
}

pub proof fn lemma_word_end_bounds(s: Seq<char>, i: int)
    requires
        0 <= i <= s.len(),
    ensures
        i <= word_end(s, i) <= s.len(),
    decreases s.len() - i,
{
    if i < s.len() && !is_space_char(s[i]) {
        lemma_word_end_bounds(s, i + 1);
    }
}

/// The whitespace-separated words of `s` from position `i` on.
pub open spec fn tokens_from(s: Seq<char>, i: int) -> Seq<Seq<char>>
    decreases s.len() - i,
    when 0 <= i <= s.len()
{
    if i >= s.len() {
        Seq::empty()
    } else if is_space_char(s[i]) {
        tokens_from(s, i + 1)
    } else {
        proof {
            lemma_word_end_bounds(s, i + 1);
        }
        seq![s.subrange(i, word_end(s, i))] + tokens_from(s, word_end(s, i))
    }
}

/// The whitespace-separated words of a command line.
pub open spec fn tokens_of(s: Seq<char>) -> Seq<Seq<char>> {
    tokens_from(s, 0)
}

/// Splits a line into its whitespace-separated words.
pub fn tokenize(s: &str) -> (r: Vec<String>)
    ensures
        r.deep_view() == tokens_of(s@),
{
    let len = s.unicode_len();
    let mut toks: Vec<String> = Vec::new();
    let mut i: usize = 0;
    while i < len
        invariant
            0 <= i <= len,
            len == s@.len(),
            tokens_of(s@) == toks.deep_view() + tokens_from(s@, i as int),
        decreases len - i,
    {
        if is_space(s.get_char(i)) {
            i = i + 1;
        } else {
            let start = i;
            let mut j = i;
            while j < len && !is_space(s.get_char(j))
                invariant
                    start <= j <= len,
                    len == s@.len(),
                    word_end(s@, start as int) == word_end(s@, j as int),
                decreases len - j,
            {
                j = j + 1;
            }
            proof {
                assert(word_end(s@, start as int) == j);
            }
            let word = s.substring_char(start, j);
            let ghost dv_before = toks.deep_view();
            toks.push(String::from_str(word));
            proof {
                assert(toks.deep_view() =~~= dv_before.push(word@));
            }
            i = j;
        }
        proof {
            assert(tokens_of(s@) =~~= toks.deep_view() + tokens_from(s@, i as int));
        }
    }
    proof {
        assert(tokens_of(s@) =~~= toks.deep_view());
    }
    toks
}

/// The visibility map after setting every configured source to `b`.
pub open spec fn all_vis(m: Map<Seq<char>, bool>, b: bool) -> Map<Seq<char>, bool> {
    Map::new(|k: Seq<char>| m.dom().contains(k), |k: Seq<char>| b)
}

/// Whether the words name the quit command.
pub open spec fn is_quit_command(toks: Seq<Seq<char>>) -> bool {
    toks.len() > 0 && (toks[0] == "q"@ || toks[0] == "quit"@)
}

/// Whether the words name a recognized, complete settings mutation.
pub open spec fn is_settings_command(toks: Seq<Seq<char>>) -> bool {
    toks.len() >= 2 && ((toks[0] == "show_source"@ || toks[0] == "show"@ || toks[0]
        == "hide_source"@ || toks[0] == "hide"@) || ((toks[0] == "show_meta"@ || toks[0]
        == "hide_meta"@) && (toks[1] == "time"@ || toks[1] == "source"@ || toks[1] == "lines"@
        || toks[1] == "filetype"@ || toks[1] == "ansi"@)))
}

/// The settings that executing the words leaves behind; commands that are
/// not recognized or not complete leave the settings as they were.
pub open spec fn settings_after(m: SettingsModel, toks: Seq<Seq<char>>) -> SettingsModel {
    if !is_settings_command(toks) {
        m
    } else if toks[0] == "show_source"@ || toks[0] == "show"@ || toks[0] == "hide_source"@
        || toks[0] == "hide"@ {
        let b = toks[0] == "show_source"@ || toks[0] == "show"@;
        if toks[1] == "all"@ {
            SettingsModel { vis: all_vis(m.vis, b), ..m }
        } else {
            SettingsModel { vis: m.vis.insert(lower_of(toks[1]), b), ..m }
        }
    } else {
        let b = toks[0] == "show_meta"@;
        if toks[1] == "time"@ {
            SettingsModel { show_time: b, ..m }
        } else if toks[1] == "source"@ {
            SettingsModel { show_source_labels: b, ..m }
        } else if toks[1] == "lines"@ {
            SettingsModel { show_line_numbers: b, ..m }
        } else if toks[1] == "filetype"@ {
            SettingsModel { show_file_type: b, ..m }
        } else {
            SettingsModel { show_raw: b, ..m }
        }
    }
}

/// The status message for a rejected command line.
pub open spec fn error_message(toks: Seq<Seq<char>>) -> Seq<char> {
    if toks.len() == 0 {
        "empty command"@
    } else if toks[0] == "show_source"@ || toks[0] == "show"@ || toks[0] == "hide_source"@
        || toks[0] == "hide"@ {
        "Source name required"@
    } else if toks[0] == "show_meta"@ || toks[0] == "hide_meta"@ {
        if toks.len() < 2 {
            "Metadata type required"@
        } else {
            "Unknown metadata type: "@ + toks[1]
        }
    } else {
        "Unknown command: "@ + toks[0]
    }
}

proof fn lemma_keywords_distinct()
    ensures
        "q"@ != "show_source"@ && "q"@ != "show"@ && "q"@ != "hide_source"@ && "q"@ != "hide"@,
        "q"@ != "show_meta"@ && "q"@ != "hide_meta"@,
        "quit"@ != "show_source"@ && "quit"@ != "show"@ && "quit"@ != "hide_source"@ && "quit"@
            != "hide"@,
        "quit"@ != "show_meta"@ && "quit"@ != "hide_meta"@,
        "show_source"@ != "hide_source"@ && "show_source"@ != "hide"@ && "show"@
            != "hide_source"@ && "show"@ != "hide"@,
        "show_meta"@ != "hide_meta"@,
        "show_meta"@ != "show_source"@ && "show_meta"@ != "show"@ && "show_meta"@
            != "hide_source"@ && "show_meta"@ != "hide"@,
        "hide_meta"@ != "show_source"@ && "hide_meta"@ != "show"@ && "hide_meta"@
            != "hide_source"@ && "hide_meta"@ != "hide"@,
        "source"@ != "time"@ && "lines"@ != "time"@ && "lines"@ != "source"@,
        "filetype"@ != "time"@ && "filetype"@ != "source"@ && "filetype"@ != "lines"@,
        "ansi"@ != "time"@ && "ansi"@ != "source"@ && "ansi"@ != "lines"@ && "ansi"@
            != "filetype"@,
{
    reveal_strlit("q");
    reveal_strlit("quit");
    reveal_strlit("show_source");
    reveal_strlit("show");
    reveal_strlit("hide_source");
    reveal_strlit("hide");
    reveal_strlit("show_meta");
    reveal_strlit("hide_meta");
    reveal_strlit("time");
    reveal_strlit("source");
    reveal_strlit("lines");
    reveal_strlit("filetype");
    reveal_strlit("ansi");
    assert("q"@.len() != "show_source"@.len());
    assert("q"@.len() != "show"@.len());
    assert("q"@.len() != "hide_source"@.len());
    assert("q"@.len() != "hide"@.len());
    assert("q"@.len() != "show_meta"@.len());
    assert("q"@.len() != "hide_meta"@.len());
    assert("quit"@.len() != "show_source"@.len());
    assert("quit"@[0] != "show"@[0]);
    assert("quit"@.len() != "hide_source"@.len());
    assert("quit"@[0] != "hide"@[0]);
    assert("quit"@.len() != "show_meta"@.len());
    assert("quit"@.len() != "hide_meta"@.len());
    assert("show_source"@[0] != "hide_source"@[0]);
    assert("show_source"@.len() != "hide"@.len());
    assert("show"@.len() != "hide_source"@.len());
    assert("show"@[0] != "hide"@[0]);
    assert("show_meta"@[0] != "hide_meta"@[0]);
    assert("show_meta"@.len() != "show_source"@.len());
    assert("show_meta"@.len() != "show"@.len());
    assert("show_meta"@.len() != "hide_source"@.len());
    assert("show_meta"@.len() != "hide"@.len());
    assert("hide_meta"@.len() != "show_source"@.len());
    assert("hide_meta"@.len() != "show"@.len());
    assert("hide_meta"@.len() != "hide_source"@.len());
    assert("hide_meta"@.len() != "hide"@.len());
    assert("source"@.len() != "time"@.len());
    assert("lines"@.len() != "time"@.len());
    assert("lines"@.len() != "source"@.len());
    assert("filetype"@.len() != "time"@.len());
    assert("filetype"@.len() != "source"@.len());
    assert("filetype"@.len() != "lines"@.len());
    assert("ansi"@[0] != "time"@[0]);
    assert("ansi"@.len() != "source"@.len());
    assert("ansi"@[0] != "lines"@[0]);
    assert("ansi"@.len() != "filetype"@.len());
}

/// Command round trip: for any source name (other than the `all` keyword),
/// a `show_source` command makes the source visible and a following
/// `hide_source` command for the same name hides it again — so a source
/// hidden beforehand is restored to hidden.
pub proof fn lemma_visibility_round_trip(m: SettingsModel, name: Seq<char>)
    requires
        name != "all"@,
    ensures
        ({
            let shown = settings_after(m, seq!["show_source"@, name]);
            let hidden = settings_after(shown, seq!["hide_source"@, name]);
            &&& source_visible(shown.vis, lower_of(name)) == true
            &&& source_visible(hidden.vis, lower_of(name)) == false
        }),
{
    lemma_keywords_distinct();
    let toks_show: Seq<Seq<char>> = seq!["show_source"@, name];
    let toks_hide: Seq<Seq<char>> = seq!["hide_source"@, name];
    assert(is_settings_command(toks_show));
    assert(is_settings_command(toks_hide));
}

/// Parses and executes one command line against the settings. Exactly the
/// recognized, complete commands mutate the settings; `q`/`quit` asks to
/// exit; everything else is an error that leaves the settings unchanged.
pub fn execute_command(cmd: &str, settings: &mut LogSettings) -> (r: CommandResult)
    requires
        old(settings).wf(),
    ensures
        final(settings).wf(),
        final(settings)@ == settings_after(old(settings)@, tokens_of(cmd@)),
        (r is Quit) <==> is_quit_command(tokens_of(cmd@)),
        (r is Success) <==> is_settings_command(tokens_of(cmd@)),
        r matches CommandResult::Error(m) ==> m@ == error_message(tokens_of(cmd@)),
{
    let toks = tokenize(cmd);
    proof {
        assert(forall|k: int|
            0 <= k < toks@.len() ==> #[trigger] toks.deep_view()[k] == toks@[k]@);
        lemma_keywords_distinct();
    }
    if toks.len() == 0 {
        return CommandResult::Error(String::from_str("empty command"));
    }
    let verb = &toks[0];
    if str_eq(verb.as_str(), "q") || str_eq(verb.as_str(), "quit") {
        return CommandResult::Quit;
    }
    let is_show_source = str_eq(verb.as_str(), "show_source") || str_eq(verb.as_str(), "show");
    let is_hide_source = str_eq(verb.as_str(), "hide_source") || str_eq(verb.as_str(), "hide");
    if is_show_source || is_hide_source {
        if toks.len() < 2 {
            return CommandResult::Error(String::from_str("Source name required"));
        }
        let name = &toks[1];
        if str_eq(name.as_str(), "all") {
            settings.set_all_sources_visibility(is_show_source);
            proof {
                assert(settings@.vis =~= all_vis(old(settings)@.vis, is_show_source));
                assert(settings@ =~= settings_after(old(settings)@, tokens_of(cmd@)));
            }
            return CommandResult::Success(());
        }
        settings.set_source_visibility(name.as_str(), is_show_source);
        proof {
            assert(settings@ =~= settings_after(old(settings)@, tokens_of(cmd@)));
        }
        return CommandResult::Success(());
    }
    if str_eq(verb.as_str(), "show_meta") || str_eq(verb.as_str(), "hide_meta") {
        if toks.len() < 2 {
            return CommandResult::Error(String::from_str("Metadata type required"));
        }
        let show = str_eq(verb.as_str(), "show_meta");
        let kind = &toks[1];
        if str_eq(kind.as_str(), "time") {
            settings.set_show_time(show);
        } else if str_eq(kind.as_str(), "source") {
            settings.set_show_source_labels(show);
        } else if str_eq(kind.as_str(), "lines") {
            settings.set_show_line_numbers(show);
        } else if str_eq(kind.as_str(), "filetype") {
            settings.set_show_file_type(show);
        } else if str_eq(kind.as_str(), "ansi") {
            settings.set_show_raw(show);
        } else {
            let mut msg = String::from_str("Unknown metadata type: ");
            msg.append(kind.as_str());
            return CommandResult::Error(msg);
        }
        proof {
            assert(settings@ =~= settings_after(old(settings)@, tokens_of(cmd@)));
        }
        return CommandResult::Success(());
    }
    let mut msg = String::from_str("Unknown command: ");
    msg.append(verb.as_str());
    CommandResult::Error(msg)
}

} // verus!
