//! The command-input state machine: a line editor with history browsing and
//! reverse-incremental search, fed one key at a time by the event loop and
//! yielding completed command lines.

use vstd::prelude::*;
use crate::text::contains_seq;
use crate::text::contains_chars;
use crate::text::from_chars;
use crate::text::is_space;
use crate::text::is_space_char;
use crate::text::to_char_vec;

verus! {

broadcast use vstd::string::group_string_axioms;

/// One keyboard event, as the event loop hands it to the prompt and to the
/// navigation handler.
#[derive(Clone, Copy, PartialEq, Eq, Structural, Debug)]
pub enum KeyInput {
    Char(char),
    Ctrl(char),
    Enter,
    Esc,
    Backspace,
    Delete,
    Left,
    Right,
    Home,
    End,
    Up,
    Down,
    PageUp,
    PageDown,
    Other,
}

/// What one key press produced.
pub enum CommandInputResult {
    /// A completed command line, ready to execute.
    Command(String),
    /// The user abandoned the input.
    Cancelled,
    /// Still editing; nothing to execute yet.
    Pending,
}

/// Model of the command history: submitted commands oldest first, plus the
/// browse position (`None` when not browsing).
#[verifier::ext_equal]
pub ghost struct HistoryModel {
    pub commands: Seq<Seq<char>>,
    pub position: Option<nat>,
}

/// True when every character of the text is whitespace.
pub open spec fn all_space(s: Seq<char>) -> bool {
    forall|i: int| 0 <= i < s.len() ==> is_space_char(#[trigger] s[i])
}

/// History after recording a submitted command: commands that are only
/// whitespace are not kept; browsing always ends.
pub open spec fn history_add(h: HistoryModel, cmd: Seq<char>) -> HistoryModel {
    HistoryModel {
        commands: if !all_space(cmd) {
            h.commands.push(cmd)
        } else {
            h.commands
        },
        position: None,
    }
}

/// History and recalled text after one step toward older entries: browsing
/// starts at the most recent command and stops at the oldest.
pub open spec fn history_up(h: HistoryModel) -> (HistoryModel, Option<Seq<char>>) {
    if h.commands.len() == 0 {
        (h, None::<Seq<char>>)
    } else {
        let newpos: int = match h.position {
            None => h.commands.len() - 1,
            Some(p) => if p > 0 {
                p - 1
            } else {
                0
            },
        };
        (
            HistoryModel { position: Some(newpos as nat), ..h },
            Some(h.commands[newpos]),
        )
    }
}

/// History and recalled text after one step toward newer entries: stepping
/// past the most recent entry ends browsing and recalls an empty line;
/// without browsing, nothing is recalled.
pub open spec fn history_down(h: HistoryModel) -> (HistoryModel, Option<Seq<char>>) {
    match h.position {
        Some(p) => if p + 1 < h.commands.len() {
            (HistoryModel { position: Some((p + 1) as nat), ..h }, Some(h.commands[p + 1int]))
        } else {
            (HistoryModel { position: None, ..h }, Some(Seq::<char>::empty()))
        },
        None => (h, None::<Seq<char>>),
    }
}

/// Largest index below `start` whose command contains the query, scanning
/// backwards; `None` when no command below `start` contains it.
pub open spec fn search_hit(cmds: Seq<Seq<char>>, start: int, q: Seq<char>) -> Option<int>
    decreases start,
    when 0 <= start <= cmds.len()
{
    if start <= 0 {
        None
    } else if contains_seq(cmds[start - 1], q) {
        Some(start - 1)
    } else {
        search_hit(cmds, start - 1, q)
    }
}

/// History and found text after a reverse search for `q` from the current
/// browse position (or the end): an empty query or history finds nothing; a
/// hit moves the browse position onto the found command.
pub open spec fn history_search(h: HistoryModel, q: Seq<char>) -> (HistoryModel, Option<
    Seq<char>,
>) {
    if q.len() == 0 || h.commands.len() == 0 {
        (h, None::<Seq<char>>)
    } else {
        let start: int = match h.position {
            None => h.commands.len() as int,
            Some(p) => p as int,
        };
        match search_hit(h.commands, start, q) {
            Some(i) => (HistoryModel { position: Some(i as nat), ..h }, Some(h.commands[i])),
            None => (h, None::<Seq<char>>),
        }
    }
}

/// History of previously submitted commands with a browse position.
#[derive(Debug)]
pub struct CommandHistory {
    commands: Vec<String>,
    position: Option<usize>,
}

impl View for CommandHistory {
    type V = HistoryModel;

    closed spec fn view(&self) -> HistoryModel {
        HistoryModel {
            commands: self.commands.deep_view(),
            position: match self.position {
                Some(p) => Some(p as nat),
                None => None,
            },
        }
    }
}

impl CommandHistory {
    /// Internal consistency: a browse position always points at an entry.
    pub open spec fn wf(&self) -> bool {
        self@.position matches Some(p) ==> p < self@.commands.len()
    }

    /// An empty history, not browsing.
    pub fn new() -> (r: Self)
        ensures
            r.wf(),
            r@.commands == Seq::<Seq<char>>::empty(),
            r@.position is None,
    {
        let r = CommandHistory { commands: Vec::new(), position: None };
        proof {
            assert(r@.commands =~~= Seq::<Seq<char>>::empty());
        }
        r
    }

    /// Records a submitted command (unless it is only whitespace) and ends
    /// browsing.
    pub fn add(&mut self, command: String)
        requires
            old(self).wf(),
        ensures
            final(self).wf(),
            final(self)@ == history_add(old(self)@, command@),
    {
        let cs = to_char_vec(command.as_str());
        let mut keep = false;
        let mut i: usize = 0;
        while i < cs.len()
            invariant
                0 <= i <= cs@.len(),
                cs@ == command@,
                keep <==> exists|j: int| 0 <= j < i && !is_space_char(#[trigger] cs@[j]),
            decreases cs@.len() - i,
        {
            if !is_space(cs[i]) {
                keep = true;
            }
            i = i + 1;
        }
        let ghost dv_before = self.commands.deep_view();
        if keep {
            proof {
                assert(!all_space(command@));
            }
            self.commands.push(command);
            proof {
                assert(self.commands.deep_view() =~~= dv_before.push(command@));
            }
        } else {
            proof {
                assert(all_space(command@));
            }
        }
        self.position = None;
        proof {
            assert(self@ =~= history_add(old(self)@, command@));
        }
    }

    /// Ends browsing without touching the recorded commands.
    pub fn clear_position(&mut self)
        ensures
            final(self).wf(),
            final(self)@ == (HistoryModel { position: None, ..old(self)@ }),
    {
        self.position = None;
        proof {
            assert(self@ =~= (HistoryModel { position: None, ..old(self)@ }));
        }
    }

    /// Steps one entry toward older commands and returns the recalled text;
    /// `None` when the history is empty.
    pub fn up(&mut self) -> (r: Option<String>)
        requires
            old(self).wf(),
        ensures
            final(self).wf(),
            final(self)@ == history_up(old(self)@).0,
            match r {
                Some(text) => history_up(old(self)@).1 == Some(text@),
                None => history_up(old(self)@).1 is None,
            },
    {
        if self.commands.len() == 0 {
            return None;
        }
        let newpos: usize = match self.position {
            None => self.commands.len() - 1,
            Some(p) => if p > 0 {
                p - 1
            } else {
                p
            },
        };
        self.position = Some(newpos);
        proof {
            assert(self.commands.deep_view()[newpos as int] == self.commands@[newpos as int]@);
            assert(self@ =~= history_up(old(self)@).0);
        }
        Some(self.commands[newpos].clone())
    }

    /// Steps one entry toward newer commands and returns the recalled text:
    /// past the most recent entry it returns an empty line and ends
    /// browsing; when not browsing it returns `None`.
    pub fn down(&mut self) -> (r: Option<String>)
        requires
            old(self).wf(),
        ensures
            final(self).wf(),
            final(self)@ == history_down(old(self)@).0,
            match r {
                Some(text) => history_down(old(self)@).1 == Some(text@),
                None => history_down(old(self)@).1 is None,
            },
    {
        match self.position {
            Some(p) => {
                let n = self.commands.len();
                proof {
                    assert(self@.position == Some(p as nat));
                    assert((p as nat) < self@.commands.len());
                    assert(self@.commands.len() == self.commands@.len());
                    assert(p < n);
                }
                if p + 1 < n {
                    self.position = Some(p + 1);
                    proof {
                        assert(self.commands.deep_view()[p + 1 as int] == self.commands@[
                            p + 1 as int
                        ]@);
                        assert(self@ =~= history_down(old(self)@).0);
                    }
                    Some(self.commands[p + 1].clone())
                } else {
                    self.position = None;
                    proof {
                        assert(self@ =~= history_down(old(self)@).0);
                    }
                    Some(String::new())
                }
            },
            None => None,
        }
    }

    /// Searches backwards from the browse position (or the end) for the most
    /// recent command containing the query; a hit becomes the new browse
    /// position. An empty query or history finds nothing.
    pub fn search(&mut self, query: &str) -> (r: Option<String>)
        requires
            old(self).wf(),
        ensures
            final(self).wf(),
            final(self)@ == history_search(old(self)@, query@).0,
            match r {
                Some(text) => history_search(old(self)@, query@).1 == Some(text@),
                None => history_search(old(self)@, query@).1 is None,
            },
    {
        let qlen = query.unicode_len();
        if qlen == 0 || self.commands.len() == 0 {
            return None;
        }
        let q = to_char_vec(query);
        let start: usize = match self.position {
            None => self.commands.len(),
            Some(p) => p,
        };
        let ghost cmds = self.commands.deep_view();
        let mut i: usize = start;
        while i > 0
            invariant
                self == old(self),
                query@.len() != 0,
                start as int == (match old(self)@.position {
                    None => old(self)@.commands.len() as int,
                    Some(p) => p as int,
                }),
                0 <= i <= start <= cmds.len(),
                cmds == self.commands.deep_view(),
                cmds.len() == self.commands@.len(),
                q@ == query@,
                search_hit(cmds, start as int, query@) == search_hit(cmds, i as int, query@),
            decreases i,
        {
            i = i - 1;
            let entry = to_char_vec(self.commands[i].as_str());
            proof {
                assert(cmds[i as int] == self.commands@[i as int]@);
            }
            if contains_chars(&entry, &q) {
                self.position = Some(i);
                proof {
                    assert(search_hit(cmds, i + 1 as int, query@) == Some(i as int));
                    assert(search_hit(cmds, start as int, query@) == Some(i as int));
                    assert(query@.len() != 0);
                    assert(cmds == old(self)@.commands);
                    assert(old(self)@.commands.len() != 0);
                    let sstart: int = match old(self)@.position {
                        None => old(self)@.commands.len() as int,
                        Some(p) => p as int,
                    };
                    assert(sstart == start as int);
                    assert(search_hit(old(self)@.commands, sstart, query@) == Some(i as int));
                    assert(history_search(old(self)@, query@).0 == (HistoryModel {
                        position: Some(i as nat),
                        ..old(self)@
                    }));
                    assert(self@ =~= history_search(old(self)@, query@).0);
                }
                return Some(self.commands[i].clone());
            }
            proof {
                assert(search_hit(cmds, i + 1 as int, query@) == search_hit(
                    cmds,
                    i as int,
                    query@,
                ));
            }
        }
        proof {
            assert(search_hit(cmds, start as int, query@) is None);
            assert(history_search(old(self)@, query@).0 =~= old(self)@);
        }
        None
    }
}


/// Validity of a history: a browse position always points at an entry.
pub open spec fn history_wf(h: HistoryModel) -> bool {
    h.position matches Some(p) ==> p < h.commands.len()
}

/// Model of the whole prompt: edit buffer and cursor, history, status line,
/// search sub-state, and whether the prompt is active at all.
#[verifier::ext_equal]
pub ghost struct PromptModel {
    pub buffer: Seq<char>,
    pub cursor: nat,
    pub history: HistoryModel,
    pub status: Option<Seq<char>>,
    pub search_mode: bool,
    pub search_query: Seq<char>,
    pub active: bool,
}

/// Validity of a prompt: the cursor sits inside (or just past) the buffer
/// and the history is valid.
pub open spec fn prompt_wf(p: PromptModel) -> bool {
    p.cursor <= p.buffer.len() && history_wf(p.history)
}

/// Everything one key press does to the prompt: the next state, whether the
/// key was consumed, the submitted command line (on Enter outside search),
/// and whether the input was cancelled (Esc outside search).
#[verifier::ext_equal]
pub ghost struct PromptStep {
    pub next: PromptModel,
    pub consumed: bool,
    pub submitted: Option<Seq<char>>,
    pub cancelled: bool,
}

/// A consumed key that neither submits nor cancels.
pub open spec fn editing_step(next: PromptModel) -> PromptStep {
    PromptStep { next, consumed: true, submitted: None, cancelled: false }
}

/// First position at or below `i` with no whitespace immediately before it.
pub open spec fn skip_spaces_back(b: Seq<char>, i: int) -> int
    decreases i,
    when 0 <= i <= b.len()
{
    if i > 0 && is_space_char(b[i - 1]) {
        skip_spaces_back(b, i - 1)
    } else {
        i
    }
}

/// First position at or below `i` with no word character immediately before
/// it.
pub open spec fn skip_word_back(b: Seq<char>, i: int) -> int
    decreases i,
    when 0 <= i <= b.len()
{
    if i > 0 && !is_space_char(b[i - 1]) {
        skip_word_back(b, i - 1)
    } else {
        i
    }
}

/// Where a delete-word-backward from `cursor` starts: skip the whitespace
/// just before the cursor, then the word before that.
pub open spec fn word_delete_start(b: Seq<char>, cursor: int) -> int {
    skip_word_back(b, skip_spaces_back(b, cursor))
}

/// The prompt transition relation, one key at a time. Inactive, keys pass
/// through unconsumed. In search mode, typed characters grow the query and
/// recall the most recent matching command into the buffer; Backspace
/// shrinks the query and searches afresh; Esc leaves search keeping the
/// recalled buffer; Enter leaves search placing the cursor at the end.
/// Otherwise the prompt is a line editor: Enter submits the buffer, Esc
/// cancels, control keys move the cursor and kill text, Up and Down browse
/// the history.
pub open spec fn prompt_step(p: PromptModel, key: KeyInput) -> PromptStep {
    if !p.active {
        PromptStep { next: p, consumed: false, submitted: None, cancelled: false }
    } else if p.search_mode {
        match key {
            KeyInput::Esc => editing_step(
                PromptModel { search_mode: false, search_query: Seq::empty(), ..p },
            ),
            KeyInput::Enter => editing_step(
                PromptModel {
                    search_mode: false,
                    search_query: Seq::empty(),
                    cursor: p.buffer.len(),
                    ..p
                },
            ),
            KeyInput::Char(c) => {
                let q2 = p.search_query.push(c);
                let hr = history_search(p.history, q2);
                match hr.1 {
                    Some(text) => editing_step(
                        PromptModel {
                            search_query: q2,
                            history: hr.0,
                            buffer: text,
                            cursor: text.len(),
                            ..p
                        },
                    ),
                    None => editing_step(PromptModel { search_query: q2, history: hr.0, ..p }),
                }
            },
            KeyInput::Backspace => {
                if p.search_query.len() == 0 {
                    editing_step(p)
                } else {
                    let q2 = p.search_query.drop_last();
                    let hr = history_search(HistoryModel { position: None, ..p.history }, q2);
                    match hr.1 {
                        Some(text) => editing_step(
                            PromptModel {
                                search_query: q2,
                                history: hr.0,
                                buffer: text,
                                cursor: text.len(),
                                ..p
                            },
                        ),
                        None => editing_step(
                            PromptModel { search_query: q2, history: hr.0, ..p },
                        ),
                    }
                }
            },
            _ => editing_step(p),
        }
    } else {
        match key {
            KeyInput::Esc => PromptStep {
                next: p,
                consumed: true,
                submitted: None,
                cancelled: true,
            },
            KeyInput::Enter => PromptStep {
                next: p,
                consumed: true,
                submitted: Some(p.buffer),
                cancelled: false,
            },
            KeyInput::Ctrl(c) => {
                if c == 'a' {
                    editing_step(PromptModel { cursor: 0, ..p })
                } else if c == 'e' {
                    editing_step(PromptModel { cursor: p.buffer.len(), ..p })
                } else if c == 'k' {
                    if p.cursor < p.buffer.len() {
                        editing_step(
                            PromptModel { buffer: p.buffer.subrange(0, p.cursor as int), ..p },
                        )
                    } else {
                        editing_step(p)
                    }
                } else if c == 'u' {
                    if p.cursor > 0 {
                        editing_step(
                            PromptModel {
                                buffer: p.buffer.skip(p.cursor as int),
                                cursor: 0,
                                ..p
                            },
                        )
                    } else {
                        editing_step(p)
                    }
                } else if c == 'w' {
                    let start = word_delete_start(p.buffer, p.cursor as int);
                    if start < p.cursor {
                        editing_step(
                            PromptModel {
                                buffer: p.buffer.subrange(0, start) + p.buffer.skip(
                                    p.cursor as int,
                                ),
                                cursor: start as nat,
                                ..p
                            },
                        )
                    } else {
                        editing_step(p)
                    }
                } else if c == 'r' {
                    editing_step(
                        PromptModel { search_mode: true, search_query: Seq::empty(), ..p },
                    )
                } else {
                    editing_step(p)
                }
            },
            KeyInput::Char(c) => editing_step(
                PromptModel {
                    status: None,
                    buffer: p.buffer.insert(p.cursor as int, c),
                    cursor: (p.cursor + 1) as nat,
                    ..p
                },
            ),
            KeyInput::Backspace => {
                if p.cursor > 0 {
                    editing_step(
                        PromptModel {
                            status: None,
                            buffer: p.buffer.remove(p.cursor - 1),
                            cursor: (p.cursor - 1) as nat,
                            ..p
                        },
                    )
                } else {
                    editing_step(PromptModel { status: None, ..p })
                }
            },
            KeyInput::Delete => {
                if p.cursor < p.buffer.len() {
                    editing_step(
                        PromptModel { status: None, buffer: p.buffer.remove(p.cursor as int), ..p },
                    )
                } else {
                    editing_step(PromptModel { status: None, ..p })
                }
            },
            KeyInput::Left => {
                if p.cursor > 0 {
                    editing_step(PromptModel { cursor: (p.cursor - 1) as nat, ..p })
                } else {
                    editing_step(p)
                }
            },
            KeyInput::Right => {
                if p.cursor < p.buffer.len() {
                    editing_step(PromptModel { cursor: (p.cursor + 1) as nat, ..p })
                } else {
                    editing_step(p)
                }
            },
            KeyInput::Home => editing_step(PromptModel { cursor: 0, ..p }),
            KeyInput::End => editing_step(PromptModel { cursor: p.buffer.len(), ..p }),
            KeyInput::Up => {
                let hr = history_up(p.history);
                match hr.1 {
                    Some(text) => editing_step(
                        PromptModel { history: hr.0, buffer: text, cursor: text.len(), ..p },
                    ),
                    None => editing_step(PromptModel { history: hr.0, ..p }),
                }
            },
            KeyInput::Down => {
                let hr = history_down(p.history);
                match hr.1 {
                    Some(text) => editing_step(
                        PromptModel { history: hr.0, buffer: text, cursor: text.len(), ..p },
                    ),
                    None => editing_step(
                        PromptModel {
                            history: hr.0,
                            buffer: Seq::empty(),
                            cursor: 0,
                            ..p
                        },
                    ),
                }
            },
            _ => editing_step(p),
        }
    }
}

/// The interactive command prompt: line editor, history, reverse search.
pub struct CommandPrompt {
    buffer: Vec<char>,
    cursor_position: usize,
    history: CommandHistory,
    status: Option<String>,
    search_mode: bool,
    search_query: Vec<char>,
    active: bool,
}

impl View for CommandPrompt {
    type V = PromptModel;

    closed spec fn view(&self) -> PromptModel {
        PromptModel {
            buffer: self.buffer@,
            cursor: self.cursor_position as nat,
            history: self.history@,
            status: match self.status {
                Some(s) => Some(s@),
                None => None,
            },
            search_mode: self.search_mode,
            search_query: self.search_query@,
            active: self.active,
        }
    }
}

impl CommandPrompt {
    /// Validity: see `prompt_wf`.
    pub open spec fn wf(&self) -> bool {
        prompt_wf(self@)
    }

    /// A fresh, inactive prompt with an empty history.
    pub fn new() -> (r: Self)
        ensures
            r.wf(),
            r@.buffer == Seq::<char>::empty(),
            r@.cursor == 0,
            r@.history == (HistoryModel { commands: Seq::empty(), position: None }),
            r@.status is None,
            r@.search_mode == false,
            r@.search_query == Seq::<char>::empty(),
            r@.active == false,
    {
        let r = CommandPrompt {
            buffer: Vec::new(),
            cursor_position: 0,
            history: CommandHistory::new(),
            status: None,
            search_mode: false,
            search_query: Vec::new(),
            active: false,
        };
        proof {
            assert(r@.history =~= (HistoryModel { commands: Seq::empty(), position: None }));
        }
        r
    }

    /// Activates the prompt, clearing the buffer, cursor, status and search
    /// state and ending any history browsing.
    pub fn activate(&mut self)
        requires
            old(self).wf(),
        ensures
            final(self).wf(),
            final(self)@ == (PromptModel {
                buffer: Seq::empty(),
                cursor: 0,
                status: None,
                search_mode: false,
                search_query: Seq::empty(),
                active: true,
                history: HistoryModel { position: None, ..old(self)@.history },
            }),
    {
        self.active = true;
        self.buffer.clear();
        self.cursor_position = 0;
        self.status = None;
        self.search_mode = false;
        self.search_query.clear();
        self.history.clear_position();
        proof {
            assert(self@ =~= (PromptModel {
                buffer: Seq::empty(),
                cursor: 0,
                status: None,
                search_mode: false,
                search_query: Seq::empty(),
                active: true,
                history: HistoryModel { position: None, ..old(self)@.history },
            }));
        }
    }

    /// Deactivates the prompt, clearing the buffer, cursor, status and
    /// search state; the history itself is kept.
    pub fn deactivate(&mut self)
        requires
            old(self).wf(),
        ensures
            final(self).wf(),
            final(self)@ == (PromptModel {
                buffer: Seq::empty(),
                cursor: 0,
                status: None,
                search_mode: false,
                search_query: Seq::empty(),
                active: false,
                history: old(self)@.history,
            }),
    {
        self.active = false;
        self.buffer.clear();
        self.cursor_position = 0;
        self.status = None;
        self.search_mode = false;
        self.search_query.clear();
        proof {
            assert(self@ =~= (PromptModel {
                buffer: Seq::empty(),
                cursor: 0,
                status: None,
                search_mode: false,
                search_query: Seq::empty(),
                active: false,
                history: old(self)@.history,
            }));
        }
    }

    /// Whether the prompt is currently active.
    pub fn is_active(&self) -> (r: bool)
        ensures
            r == self@.active,
    {
        self.active
    }

    /// Whether the prompt is in reverse-search mode.
    pub fn in_search_mode(&self) -> (r: bool)
        ensures
            r == self@.search_mode,
    {
        self.search_mode
    }

    /// Whether a status message is set.
    pub fn has_status(&self) -> (r: bool)
        ensures
            r == (self@.status is Some),
    {
        self.status.is_some()
    }

    /// Sets or clears the status message.
    pub fn set_status(&mut self, status: Option<String>)
        requires
            old(self).wf(),
        ensures
            final(self).wf(),
            final(self)@ == (PromptModel { status: status.deep_view(), ..old(self)@ }),
    {
        self.status = status;
        proof {
            assert(self@ =~= (PromptModel { status: status.deep_view(), ..old(self)@ }));
        }
    }

    /// Records an executed command in the history.
    pub fn add_to_history(&mut self, command: String)
        requires
            old(self).wf(),
        ensures
            final(self).wf(),
            final(self)@ == (PromptModel {
                history: history_add(old(self)@.history, command@),
                ..old(self)@
            }),
    {
        self.history.add(command);
        proof {
            assert(self@ =~= (PromptModel {
                history: history_add(old(self)@.history, command@),
                ..old(self)@
            }));
        }
    }
}

impl Default for CommandPrompt {
    /// Same as `CommandPrompt::new`.
    fn default() -> (r: Self)
        ensures
            r.wf(),
            r@.active == false,
    {
        CommandPrompt::new()
    }
}

impl Default for CommandHistory {
    /// Same as `CommandHistory::new`.
    fn default() -> (r: Self)
        ensures
            r.wf(),
            r@.commands == Seq::<Seq<char>>::empty(),
            r@.position is None,
    {
        CommandHistory::new()
    }
}

impl CommandPrompt {
    /// Feeds one key to the prompt, per the `prompt_step` transition
    /// relation: returns whether the key was consumed, and the completed
    /// command or cancellation when one was produced.
    pub fn handle_key_event(&mut self, key: KeyInput) -> (r: (bool, CommandInputResult))
        requires
            old(self).wf(),
            old(self)@.buffer.len() < usize::MAX,
        ensures
            final(self).wf(),
            final(self)@ == prompt_step(old(self)@, key).next,
            r.0 == prompt_step(old(self)@, key).consumed,
            (r.1 is Command) <==> prompt_step(old(self)@, key).submitted is Some,
            r.1 matches CommandInputResult::Command(s) ==> prompt_step(old(self)@, key).submitted
                == Some(s@),
            (r.1 is Cancelled) <==> prompt_step(old(self)@, key).cancelled,
    {
        if !self.active {
            return (false, CommandInputResult::Pending);
        }
        if self.search_mode {
            match key {
                KeyInput::Esc => {
                    self.search_mode = false;
                    self.search_query.clear();
                    proof {
                        assert(self@ =~= prompt_step(old(self)@, key).next);
                    }
                    (true, CommandInputResult::Pending)
                },
                KeyInput::Enter => {
                    self.search_mode = false;
                    self.search_query.clear();
                    self.cursor_position = self.buffer.len();
                    proof {
                        assert(self@ =~= prompt_step(old(self)@, key).next);
                    }
                    (true, CommandInputResult::Pending)
                },
                KeyInput::Char(c) => {
                    self.search_query.push(c);
                    let query = from_chars(&self.search_query);
                    match self.history.search(query.as_str()) {
                        Some(found) => {
                            self.buffer = to_char_vec(found.as_str());
                            self.cursor_position = self.buffer.len();
                            proof {
                                assert(self@ =~= prompt_step(old(self)@, key).next);
                            }
                        },
                        None => {
                            proof {
                                assert(self@ =~= prompt_step(old(self)@, key).next);
                            }
                        },
                    }
                    (true, CommandInputResult::Pending)
                },
                KeyInput::Backspace => {
                    if self.search_query.len() > 0 {
                        self.search_query.pop();
                        proof {
                            assert(self.search_query@ =~= old(self)@.search_query.drop_last());
                        }
                        self.history.clear_position();
                        let query = from_chars(&self.search_query);
                        match self.history.search(query.as_str()) {
                            Some(found) => {
                                self.buffer = to_char_vec(found.as_str());
                                self.cursor_position = self.buffer.len();
                                proof {
                                    assert(self@ =~= prompt_step(old(self)@, key).next);
                                }
                            },
                            None => {
                                proof {
                                    assert(self@ =~= prompt_step(old(self)@, key).next);
                                }
                            },
                        }
                    } else {
                        proof {
                            assert(self@ =~= prompt_step(old(self)@, key).next);
                        }
                    }
                    (true, CommandInputResult::Pending)
                },
                _ => {
                    proof {
                        assert(self@ =~= prompt_step(old(self)@, key).next);
                    }
                    (true, CommandInputResult::Pending)
                },
            }
        } else {
            match key {
                KeyInput::Esc => (true, CommandInputResult::Cancelled),
                KeyInput::Enter => {
                    let cmd = from_chars(&self.buffer);
                    (true, CommandInputResult::Command(cmd))
                },
                KeyInput::Ctrl(c) => {
                    if c == 'a' {
                        self.cursor_position = 0;
                    } else if c == 'e' {
                        self.cursor_position = self.buffer.len();
                    } else if c == 'k' {
                        if self.cursor_position < self.buffer.len() {
                            self.buffer.truncate(self.cursor_position);
                        }
                    } else if c == 'u' {
                        if self.cursor_position > 0 {
                            self.buffer = self.buffer.split_off(self.cursor_position);
                            self.cursor_position = 0;
                        }
                    } else if c == 'w' {
                        self.delete_word_backward();
                    } else if c == 'r' {
                        self.search_mode = true;
                        self.search_query.clear();
                    }
                    proof {
                        assert(self@ =~= prompt_step(old(self)@, key).next);
                    }
                    (true, CommandInputResult::Pending)
                },
                KeyInput::Char(c) => {
                    self.status = None;
                    self.buffer.insert(self.cursor_position, c);
                    self.cursor_position = self.cursor_position + 1;
                    proof {
                        assert(self@ =~= prompt_step(old(self)@, key).next);
                    }
                    (true, CommandInputResult::Pending)
                },
                KeyInput::Backspace => {
                    self.status = None;
                    if self.cursor_position > 0 {
                        self.cursor_position = self.cursor_position - 1;
                        self.buffer.remove(self.cursor_position);
                    }
                    proof {
                        assert(self@ =~= prompt_step(old(self)@, key).next);
                    }
                    (true, CommandInputResult::Pending)
                },
                KeyInput::Delete => {
                    self.status = None;
                    if self.cursor_position < self.buffer.len() {
                        self.buffer.remove(self.cursor_position);
                    }
                    proof {
                        assert(self@ =~= prompt_step(old(self)@, key).next);
                    }
                    (true, CommandInputResult::Pending)
                },
                KeyInput::Left => {
                    if self.cursor_position > 0 {
                        self.cursor_position = self.cursor_position - 1;
                    }
                    proof {
                        assert(self@ =~= prompt_step(old(self)@, key).next);
                    }
                    (true, CommandInputResult::Pending)
                },
                KeyInput::Right => {
                    if self.cursor_position < self.buffer.len() {
                        self.cursor_position = self.cursor_position + 1;
                    }
                    proof {
                        assert(self@ =~= prompt_step(old(self)@, key).next);
                    }
                    (true, CommandInputResult::Pending)
                },
                KeyInput::Home => {
                    self.cursor_position = 0;
                    proof {
                        assert(self@ =~= prompt_step(old(self)@, key).next);
                    }
                    (true, CommandInputResult::Pending)
                },
                KeyInput::End => {
                    self.cursor_position = self.buffer.len();
                    proof {
                        assert(self@ =~= prompt_step(old(self)@, key).next);
                    }
                    (true, CommandInputResult::Pending)
                },
                KeyInput::Up => {
                    match self.history.up() {
                        Some(cmd) => {
                            self.buffer = to_char_vec(cmd.as_str());
                            self.cursor_position = self.buffer.len();
                        },
                        None => {},
                    }
                    proof {
                        assert(self@ =~= prompt_step(old(self)@, key).next);
                    }
                    (true, CommandInputResult::Pending)
                },
                KeyInput::Down => {
                    match self.history.down() {
                        Some(cmd) => {
                            self.buffer = to_char_vec(cmd.as_str());
                            self.cursor_position = self.buffer.len();
                        },
                        None => {
                            self.buffer.clear();
                            self.cursor_position = 0;
                        },
                    }
                    proof {
                        assert(self@ =~= prompt_step(old(self)@, key).next);
                    }
                    (true, CommandInputResult::Pending)
                },
                _ => {
                    proof {
                        assert(self@ =~= prompt_step(old(self)@, key).next);
                    }
                    (true, CommandInputResult::Pending)
                },
            }
        }
    }

    fn delete_word_backward(&mut self)
        requires
            old(self).wf(),
        ensures
            final(self).wf(),
            final(self)@ == ({
                let p = old(self)@;
                let start = word_delete_start(p.buffer, p.cursor as int);
                if start < p.cursor {
                    PromptModel {
                        buffer: p.buffer.subrange(0, start) + p.buffer.skip(p.cursor as int),
                        cursor: start as nat,
                        ..p
                    }
                } else {
                    p
                }
            }),
    {
        let ghost b = self.buffer@;
        let c0 = self.cursor_position;
        let mut new_pos = c0;
        while new_pos > 0 && is_space(self.buffer[new_pos - 1])
            invariant
                0 <= new_pos <= c0 <= self.buffer@.len(),
                self.buffer@ == b,
                skip_spaces_back(b, c0 as int) == skip_spaces_back(b, new_pos as int),
            decreases new_pos,
        {
            new_pos = new_pos - 1;
        }
        proof {
            assert(skip_spaces_back(b, c0 as int) == new_pos);
        }
        let sp = new_pos;
        while new_pos > 0 && !is_space(self.buffer[new_pos - 1])
            invariant
                0 <= new_pos <= sp <= self.buffer@.len(),
                self.buffer@ == b,
                skip_word_back(b, sp as int) == skip_word_back(b, new_pos as int),
            decreases new_pos,
        {
            new_pos = new_pos - 1;
        }
        proof {
            assert(skip_word_back(b, sp as int) == new_pos);
            assert(word_delete_start(b, c0 as int) == new_pos);
        }
        if new_pos < c0 {
            let ghost target = b.subrange(0, new_pos as int) + b.skip(c0 as int);
            let mut removed: usize = 0;
            proof {
                assert(self.buffer@ =~= b.subrange(0, new_pos as int) + b.skip(
                    new_pos + 0 as int,
                ));
            }
            while removed < c0 - new_pos
                invariant
                    0 <= removed <= c0 - new_pos,
                    new_pos + removed <= c0 <= b.len(),
                    new_pos + (c0 - new_pos) == c0,
                    self.buffer@ == b.subrange(0, new_pos as int) + b.skip(
                        new_pos + removed as int,
                    ),
                    self.cursor_position == old(self).cursor_position,
                    self.history == old(self).history,
                    self.status == old(self).status,
                    self.search_mode == old(self).search_mode,
                    self.search_query == old(self).search_query,
                    self.active == old(self).active,
                decreases c0 - new_pos - removed,
            {
                self.buffer.remove(new_pos);
                removed = removed + 1;
                proof {
                    assert(self.buffer@ =~= b.subrange(0, new_pos as int) + b.skip(
                        new_pos + removed as int,
                    ));
                }
            }
            self.cursor_position = new_pos;
            proof {
                assert(self.buffer@ =~= target);
                assert(self@ =~= (PromptModel {
                    buffer: b.subrange(0, new_pos as int) + b.skip(c0 as int),
                    cursor: new_pos as nat,
                    ..old(self)@
                }));
            }
        }
    }

    /// The text shown on the prompt line: a hint when the prompt is idle;
    /// the search prompt with query and recalled buffer in search mode; the
    /// buffer with the status message after a failed command; otherwise the
    /// buffer with a block glyph marking the cursor.
    pub fn display_text(&self) -> (r: String)
        requires
            self.wf(),
        ensures
            r@ == prompt_display(self@),
    {
        if !self.active && self.status.is_none() {
            return String::from_str("Press ':' to enter command mode");
        }
        let mut out = String::new();
        if self.search_mode {
            out.append("(reverse-i-search)`");
            let q = from_chars(&self.search_query);
            out.append(q.as_str());
            out.append("': ");
            let btext = from_chars(&self.buffer);
            out.append(btext.as_str());
            proof {
                assert(out@ =~= prompt_display(self@));
            }
            out
        } else {
            match &self.status {
                Some(msg) => {
                    crate::text::push_char(&mut out, ':');
                    let btext = from_chars(&self.buffer);
                    out.append(btext.as_str());
                    out.append(" | ");
                    out.append(msg.as_str());
                    proof {
                        assert(out@ =~= prompt_display(self@));
                    }
                    out
                },
                None => {
                    crate::text::push_char(&mut out, ':');
                    let mut i: usize = 0;
                    while i < self.buffer.len()
                        invariant
                            self.wf(),
                            0 <= i <= self.buffer@.len(),
                            i <= self.cursor_position ==> out@ == seq![':'] + self.buffer@.subrange(
                                0,
                                i as int,
                            ),
                            i > self.cursor_position ==> out@ == seq![':']
                                + self.buffer@.subrange(0, self.cursor_position as int)
                                + seq!['\u{2588}'] + self.buffer@.subrange(
                                self.cursor_position as int,
                                i as int,
                            ),
                        decreases self.buffer@.len() - i,
                    {
                        if i == self.cursor_position {
                            crate::text::push_char(&mut out, '\u{2588}');
                        }
                        crate::text::push_char(&mut out, self.buffer[i]);
                        proof {
                            if i + 1 <= self.cursor_position {
                                assert(out@ =~= seq![':'] + self.buffer@.subrange(0, i + 1));
                            } else {
                                assert(out@ =~= seq![':'] + self.buffer@.subrange(
                                    0,
                                    self.cursor_position as int,
                                ) + seq!['\u{2588}'] + self.buffer@.subrange(
                                    self.cursor_position as int,
                                    i + 1,
                                ));
                            }
                        }
                        i = i + 1;
                    }
                    if self.cursor_position >= self.buffer.len() {
                        crate::text::push_char(&mut out, '\u{2588}');
                        proof {
                            assert(self.buffer@.subrange(0, self.buffer@.len() as int)
                                =~= self.buffer@);
                            assert(out@ =~= prompt_display(self@));
                        }
                    } else {
                        proof {
                            assert(self.buffer@.subrange(
                                self.cursor_position as int,
                                self.buffer@.len() as int,
                            ) =~= self.buffer@.skip(self.cursor_position as int));
                            assert(out@ =~= prompt_display(self@));
                        }
                    }
                    out
                },
            }
        }
    }
}

/// What the prompt line reads in each state.
pub open spec fn prompt_display(p: PromptModel) -> Seq<char> {
    if !p.active && p.status is None {
        "Press ':' to enter command mode"@
    } else if p.search_mode {
        "(reverse-i-search)`"@ + p.search_query + "': "@ + p.buffer
    } else if p.status is Some {
        seq![':'] + p.buffer + " | "@ + p.status->0
    } else if p.cursor < p.buffer.len() {
        seq![':'] + p.buffer.subrange(0, p.cursor as int) + seq!['\u{2588}'] + p.buffer.skip(
            p.cursor as int,
        )
    } else {
        seq![':'] + p.buffer + seq!['\u{2588}']
    }
}
} // verus!
