//! The viewport state machine: scroll offset counted in lines from the
//! bottom, a pause flag, and the window arithmetic that turns them into the
//! slice of filtered entries to draw.

use vstd::prelude::*;
use ansi_parser::AnsiParser;
use crate::text::str_eq;

verus! {

broadcast use vstd::string::group_string_axioms;

/// Model of the viewport: offset in lines from the bottom, pause flag,
/// widget title.
#[verifier::ext_equal]
pub ghost struct ViewerModel {
    pub scroll_offset: nat,
    pub is_paused: bool,
    pub title: Seq<char>,
}

/// The viewport: `scroll_offset == 0` shows the live tail; scrolling up
/// pauses, and returning to the bottom unpauses.
pub struct LogViewer {
    scroll_offset: usize,
    is_paused: bool,
    title: String,
}

impl View for LogViewer {
    type V = ViewerModel;

    closed spec fn view(&self) -> ViewerModel {
        ViewerModel {
            scroll_offset: self.scroll_offset as nat,
            is_paused: self.is_paused,
            title: self.title@,
        }
    }
}

impl LogViewer {
    /// A fresh viewer: live tail (offset 0), unpaused.
    pub fn new() -> (r: Self)
        ensures
            r@.scroll_offset == 0,
            r@.is_paused == false,
            r@.title == "Oxtail - Neon Terminal UI"@,
    {
        LogViewer {
            scroll_offset: 0,
            is_paused: false,
            title: String::from_str("Oxtail - Neon Terminal UI"),
        }
    }

    /// Sets the pause flag without touching the offset.
    pub fn set_paused(&mut self, paused: bool)
        ensures
            final(self)@ == (ViewerModel { is_paused: paused, ..old(self)@ }),
    {
        self.is_paused = paused;
        proof {
            assert(self@ =~= (ViewerModel { is_paused: paused, ..old(self)@ }));
        }
    }

    /// The pause flag.
    pub fn is_paused(&self) -> (r: bool)
        ensures
            r == self@.is_paused,
    {
        self.is_paused
    }

    /// Replaces the widget title.
    pub fn set_title(&mut self, title: String)
        ensures
            final(self)@ == (ViewerModel { title: title@, ..old(self)@ }),
    {
        self.title = title;
        proof {
            assert(self@ =~= (ViewerModel { title: title@, ..old(self)@ }));
        }
    }

    /// The widget title.
    pub fn title_str(&self) -> (r: &str)
        ensures
            r@ == self@.title,
    {
        self.title.as_str()
    }

    /// The current scroll offset, in lines from the bottom.
    pub fn scroll_offset(&self) -> (r: usize)
        ensures
            r == self@.scroll_offset,
    {
        self.scroll_offset
    }

    /// Sets the scroll offset directly, leaving the pause flag alone.
    pub fn set_scroll_offset(&mut self, offset: usize)
        ensures
            final(self)@ == (ViewerModel { scroll_offset: offset as nat, ..old(self)@ }),
    {
        self.scroll_offset = offset;
        proof {
            assert(self@ =~= (ViewerModel { scroll_offset: offset as nat, ..old(self)@ }));
        }
    }

    /// Scrolls up by `amount` lines and pauses.
    pub fn scroll_up(&mut self, amount: usize)
        requires
            old(self)@.scroll_offset + amount <= usize::MAX,
        ensures
            final(self)@.scroll_offset == old(self)@.scroll_offset + amount,
            final(self)@.is_paused == true,
            final(self)@.title == old(self)@.title,
    {
        self.scroll_offset = self.scroll_offset + amount;
        self.is_paused = true;
    }

    /// Scrolls down by `amount` lines, stopping at the bottom; reaching the
    /// bottom unpauses.
    pub fn scroll_down(&mut self, amount: usize)
        ensures
            final(self)@.scroll_offset == if old(self)@.scroll_offset >= amount {
                old(self)@.scroll_offset - amount
            } else {
                0
            },
            final(self)@.is_paused == (final(self)@.scroll_offset != 0
                && old(self)@.is_paused),
            final(self)@.title == old(self)@.title,
    {
        if self.scroll_offset >= amount {
            self.scroll_offset = self.scroll_offset - amount;
        } else {
            self.scroll_offset = 0;
        }
        if self.scroll_offset == 0 {
            self.is_paused = false;
        }
    }

    /// Scrolls up by one page.
    pub fn page_up(&mut self, page_size: usize)
        requires
            old(self)@.scroll_offset + page_size <= usize::MAX,
        ensures
            final(self)@.scroll_offset == old(self)@.scroll_offset + page_size,
            final(self)@.is_paused == true,
            final(self)@.title == old(self)@.title,
    {
        self.scroll_up(page_size);
    }

    /// Scrolls down by one page.
    pub fn page_down(&mut self, page_size: usize)
        ensures
            final(self)@.scroll_offset == if old(self)@.scroll_offset >= page_size {
                old(self)@.scroll_offset - page_size
            } else {
                0
            },
            final(self)@.is_paused == (final(self)@.scroll_offset != 0
                && old(self)@.is_paused),
            final(self)@.title == old(self)@.title,
    {
        self.scroll_down(page_size);
    }

    /// Jumps so the given 1-based line shows at the top of the view: with
    /// `total_lines` lines, line `n` lies `total_lines - n` lines above the
    /// bottom, so the offset becomes `total_lines - n`. A line number out of
    /// range — zero, past the end, or any at all when the view is empty —
    /// snaps to the bottom. Pauses either way.
    pub fn jump_to_line(&mut self, line_number: usize, total_lines: usize)
        ensures
            final(self)@.scroll_offset == if 1 <= line_number <= total_lines {
                total_lines - line_number
            } else {
                0int
            },
            final(self)@.is_paused == true,
            final(self)@.title == old(self)@.title,
    {
        if 1 <= line_number && line_number <= total_lines {
            self.scroll_offset = total_lines - line_number;
        } else {
            self.scroll_offset = 0;
        }
        self.is_paused = true;
    }

    /// Jumps to the first line of the log and pauses.
    pub fn jump_to_start(&mut self, total_lines: usize)
        ensures
            final(self)@.scroll_offset == if total_lines > 0 {
                total_lines - 1
            } else {
                0int
            },
            final(self)@.is_paused == true,
            final(self)@.title == old(self)@.title,
    {
        if total_lines > 0 {
            self.scroll_offset = total_lines - 1;
        } else {
            self.scroll_offset = 0;
        }
        self.is_paused = true;
    }

    /// Jumps back to the live tail and unpauses.
    pub fn jump_to_end(&mut self)
        ensures
            final(self)@.scroll_offset == 0,
            final(self)@.is_paused == false,
            final(self)@.title == old(self)@.title,
    {
        self.scroll_offset = 0;
        self.is_paused = false;
    }

    /// Reconciles the viewport with newly arrived entries. Paused, the
    /// offset grows by the number of new entries, so the very same entries
    /// stay on screen while new lines append below; unpaused, the offset is
    /// pinned to 0 and the view stays at the live tail.
    pub fn adjust_for_new_entries(&mut self, new_entries_count: usize)
        requires
            old(self)@.is_paused ==> old(self)@.scroll_offset + new_entries_count
                <= usize::MAX,
        ensures
            old(self)@.is_paused ==> final(self)@.scroll_offset == old(self)@.scroll_offset
                + new_entries_count,
            !old(self)@.is_paused ==> final(self)@.scroll_offset == 0,
            final(self)@.is_paused == old(self)@.is_paused,
            final(self)@.title == old(self)@.title,
    {
        if self.is_paused {
            self.scroll_offset = self.scroll_offset + new_entries_count;
        } else {
            self.scroll_offset = 0;
        }
    }
}

impl Default for LogViewer {
    /// Same as `LogViewer::new`.
    fn default() -> (r: Self)
        ensures
            r@.scroll_offset == 0,
            r@.is_paused == false,
            r@.title == "Oxtail - Neon Terminal UI"@,
    {
        LogViewer::new()
    }
}

/// The offset actually applied when drawing: capped so the window never
/// reaches past the first entry.
pub open spec fn effective_offset(total: nat, height: nat, offset: nat) -> nat {
    let max_scroll: nat = if total > height {
        (total - height) as nat
    } else {
        0
    };
    if offset < max_scroll {
        offset
    } else {
        max_scroll
    }
}

/// First entry index of the drawn window.
pub open spec fn window_start(total: nat, height: nat, offset: nat) -> nat {
    if total > height + effective_offset(total, height, offset) {
        (total - height - effective_offset(total, height, offset)) as nat
    } else {
        0
    }
}

/// One past the last entry index of the drawn window.
pub open spec fn window_end(total: nat, height: nat, offset: nat) -> nat {
    (total - effective_offset(total, height, offset)) as nat
}

/// The half-open entry range `[start, end)` that a view of `height` lines
/// shows over `total` entries at the given scroll offset.
pub fn visible_window(total: usize, height: usize, offset: usize) -> (r: (usize, usize))
    ensures
        r.0 == window_start(total as nat, height as nat, offset as nat),
        r.1 == window_end(total as nat, height as nat, offset as nat),
        r.0 <= r.1 <= total,
{
    let max_scroll = if total > height {
        total - height
    } else {
        0
    };
    let eff = if offset < max_scroll {
        offset
    } else {
        max_scroll
    };
    let start = if total > height && total - height > eff {
        total - height - eff
    } else {
        0
    };
    let end = total - eff;
    proof {
        assert(total > height + eff <==> (total > height && total - height > eff));
    }
    (start, end)
}

/// Paused-window stability: a window pinned strictly inside the log (offset
/// `k`, `k` at most `total - height`) shows the same entry range after `n`
/// more entries arrive and the offset grows to `k + n` — the very entries on
/// screen stay on screen.
pub proof fn lemma_paused_window_stable(total: nat, height: nat, k: nat, n: nat)
    requires
        0 < height <= total,
        k <= total - height,
    ensures
        window_start(total + n, height, k + n) == window_start(total, height, k),
        window_end(total + n, height, k + n) == window_end(total, height, k),
{
}

/// The style class a renderer gives an entry, by its source name.
#[derive(Clone, Copy, PartialEq, Eq, Structural)]
pub enum SourceStyle {
    Stderr,
    Stdout,
    Other,
}

/// The style class for a source name.
pub open spec fn style_of(name: Seq<char>) -> SourceStyle {
    if name == "stderr"@ {
        SourceStyle::Stderr
    } else if name == "stdout"@ {
        SourceStyle::Stdout
    } else {
        SourceStyle::Other
    }
}

/// Picks the style class for a source name: stderr and stdout each have
/// their own, every other source shares one.
pub fn source_style(name: &str) -> (r: SourceStyle)
    ensures
        r == style_of(name@),
{
    if str_eq(name, "stderr") {
        SourceStyle::Stderr
    } else if str_eq(name, "stdout") {
        proof {
            reveal_strlit("stdout");
            reveal_strlit("stderr");
            assert("stdout"@[3] != "stderr"@[3]);
        }
        SourceStyle::Stdout
    } else {
        SourceStyle::Other
    }
}


/// One parsed piece of a terminal string: plain text, or the text of one
/// escape sequence.
pub struct AnsiPiece {
    pub is_escape: bool,
    pub text: String,
}

impl DeepView for AnsiPiece {
    type V = (bool, Seq<char>);

    open spec fn deep_view(&self) -> (bool, Seq<char>) {
        (self.is_escape, self.text@)
    }
}

/// The cut of a string into plain text blocks and escape sequences, each
/// piece flagged and carrying its text; the name stands for what
/// `ansi_parser`'s parse of the string yields, a function of the string
/// alone.
pub uninterp spec fn ansi_pieces_of(s: Seq<char>) -> Seq<(bool, Seq<char>)>;

/// Relies on `ansi_parser::AnsiParser::ansi_parse`: cuts the string into
/// text blocks and recognized escape sequences, in order; an escape piece's
/// text is the sequence's own textual form.
#[verifier::external_body]
fn ansi_pieces(s: &str) -> (r: Vec<AnsiPiece>)
    ensures
        r.deep_view() == ansi_pieces_of(s@),
{
    s.ansi_parse().map(
        |p| match p {
            ansi_parser::Output::TextBlock(t) => AnsiPiece { is_escape: false, text: t.to_owned() },
            ansi_parser::Output::Escape(e) => AnsiPiece { is_escape: true, text: e.to_string() },
        },
    ).collect()
}

/// The column width of a character on a terminal, `None` for control
/// characters; the name stands for what
/// `unicode_width::UnicodeWidthChar::width` returns, a function of the
/// character alone.
pub uninterp spec fn char_width_of(c: char) -> Option<usize>;

/// Relies on `unicode_width::UnicodeWidthChar::width`: the displayed column
/// width of one character, `None` for control characters.
#[verifier::external_body]
fn char_display_width(c: char) -> (r: Option<usize>)
    ensures
        r == char_width_of(c),
{
    unicode_width::UnicodeWidthChar::width(c)
}

/// The string with trailing whitespace removed; the name stands for what
/// `str::trim_end` returns, a function of the string alone.
pub uninterp spec fn trim_end_of(s: Seq<char>) -> Seq<char>;

/// Relies on `str::trim_end`: removes trailing whitespace, so the result is
/// a prefix of the input.
#[verifier::external_body]
fn trim_end_text(s: &str) -> (r: String)
    ensures
        r@ == trim_end_of(s@),
        r@.len() <= s@.len(),
        r@ == s@.subrange(0, r@.len() as int),
{
    s.trim_end().to_owned()
}

/// Column width charged for one character: its displayed width, 0 for
/// control characters.
pub open spec fn width_of(c: char) -> int {
    match char_width_of(c) {
        Some(w) => w as int,
        None => 0,
    }
}

/// The characters of a text block that fit when the columns already used
/// are `w` and the budget is `max`: characters are taken in order while the
/// running width stays under the budget and the next character still fits.
pub open spec fn fitting_chars(t: Seq<char>, w: int, max: int) -> Seq<char>
    decreases t.len(),
{
    if t.len() == 0 || w >= max || w + width_of(t[0]) > max {
        Seq::empty()
    } else {
        seq![t[0]] + fitting_chars(t.drop_first(), w + width_of(t[0]), max)
    }
}

/// The columns used after taking `fitting_chars(t, w, max)`.
pub open spec fn fitting_width(t: Seq<char>, w: int, max: int) -> int
    decreases t.len(),
{
    if t.len() == 0 || w >= max || w + width_of(t[0]) > max {
        w
    } else {
        fitting_width(t.drop_first(), w + width_of(t[0]), max)
    }
}

/// The text kept when the parsed pieces are drawn into a window `max`
/// columns wide: text blocks are cut to the remaining budget, escape
/// sequences pass through free of charge, and everything after the budget is
/// exhausted is dropped.
pub open spec fn trunc_pieces(ps: Seq<(bool, Seq<char>)>, w: int, max: int) -> Seq<char>
    decreases ps.len(),
{
    if ps.len() == 0 {
        Seq::empty()
    } else {
        let emitted = if ps[0].0 {
            ps[0].1
        } else {
            fitting_chars(ps[0].1, w, max)
        };
        let w2 = if ps[0].0 {
            w
        } else {
            fitting_width(ps[0].1, w, max)
        };
        if w2 >= max {
            emitted
        } else {
            emitted + trunc_pieces(ps.drop_first(), w2, max)
        }
    }
}

/// Cuts a string that may hold escape sequences down to `max_width` display
/// columns: escape sequences are kept without charge, text is cut
/// character-by-character by display width, and trailing whitespace is
/// removed from the result.
pub fn truncate_ansi(input: &str, max_width: usize) -> (r: String)
    ensures
        r@ == trim_end_of(trunc_pieces(ansi_pieces_of(input@), 0, max_width as int)),
{
    let pieces = ansi_pieces(input);
    let ghost dv = pieces.deep_view();
    let mut out = String::new();
    let mut width: usize = 0;
    let mut i: usize = 0;
    let mut done = false;
    proof {
        assert(dv.skip(0) =~~= dv);
        assert(out@ + trunc_pieces(dv, 0, max_width as int) =~= trunc_pieces(
            dv,
            0,
            max_width as int,
        ));
    }
    while i < pieces.len() && !done
        invariant
            0 <= i <= pieces@.len(),
            dv == pieces.deep_view(),
            dv.len() == pieces@.len(),
            width <= max_width,
            !done ==> trunc_pieces(dv, 0, max_width as int) == out@ + trunc_pieces(
                dv.skip(i as int),
                width as int,
                max_width as int,
            ),
            done ==> out@ == trunc_pieces(dv, 0, max_width as int),
        decreases pieces@.len() - i, (if done { 0int } else { 1int }),
    {
        proof {
            assert(dv[i as int] == pieces@[i as int].deep_view());
            assert(dv.skip(i as int)[0] == dv[i as int]);
            assert(dv.skip(i as int).drop_first() =~~= dv.skip(i + 1 as int));
        }
        if pieces[i].is_escape {
            out.append(pieces[i].text.as_str());
        } else {
            let cs = crate::text::to_char_vec(pieces[i].text.as_str());
            let ghost t = pieces@[i as int].text@;
            let ghost w0 = width as int;
            let ghost out0 = out@;
            let mut j: usize = 0;
            let mut stop = false;
            proof {
                assert(t.skip(0) =~= t);
                assert(out0 + fitting_chars(t, w0, max_width as int) =~= out@ + fitting_chars(
                    t.skip(0),
                    width as int,
                    max_width as int,
                ));
            }
            while j < cs.len() && width < max_width && !stop
                invariant
                    0 <= j <= cs@.len(),
                    cs@ == t,
                    width <= max_width,
                    !stop ==> out0 + fitting_chars(t, w0, max_width as int) == out@
                        + fitting_chars(t.skip(j as int), width as int, max_width as int),
                    !stop ==> fitting_width(t, w0, max_width as int) == fitting_width(
                        t.skip(j as int),
                        width as int,
                        max_width as int,
                    ),
                    stop ==> out@ == out0 + fitting_chars(t, w0, max_width as int),
                    stop ==> width == fitting_width(t, w0, max_width as int),
                decreases cs@.len() - j, (if stop { 0int } else { 1int }),
            {
                proof {
                    assert(t.skip(j as int)[0] == t[j as int]);
                    assert(t.skip(j as int).drop_first() =~= t.skip(j + 1 as int));
                }
                let c = cs[j];
                let chw: usize = match char_display_width(c) {
                    Some(w) => w,
                    None => 0,
                };
                proof {
                    assert(chw == width_of(t[j as int]));
                }
                if chw > max_width - width {
                    proof {
                        assert(fitting_chars(t.skip(j as int), width as int, max_width as int)
                            =~= Seq::<char>::empty());
                    }
                    stop = true;
                } else {
                    crate::text::push_char(&mut out, c);
                    width = width + chw;
                    j = j + 1;
                }
            }
            proof {
                if !stop {
                    assert(fitting_chars(t.skip(j as int), width as int, max_width as int)
                        =~= Seq::<char>::empty());
                    assert(out@ =~= out0 + fitting_chars(t, w0, max_width as int));
                }
            }
        }
        if width >= max_width {
            proof {
                assert(out@ =~~= trunc_pieces(dv, 0, max_width as int));
            }
            done = true;
        } else {
            proof {
                assert(trunc_pieces(dv, 0, max_width as int) =~~= out@ + trunc_pieces(
                    dv.skip(i + 1 as int),
                    width as int,
                    max_width as int,
                ));
            }
            i = i + 1;
        }
    }
    proof {
        if !done {
            assert(dv.skip(pieces@.len() as int) =~~= Seq::<(bool, Seq<char>)>::empty());
            assert(out@ =~= trunc_pieces(dv, 0, max_width as int));
        }
    }
    trim_end_text(out.as_str())
}

/// The text a renderer draws for one entry in a window `width` columns
/// wide. In raw mode the formatted line is cut to the window by display
/// width and padded by the plain text's byte length; otherwise the formatted
/// line is padded to the window by its character count and once more by its
/// byte length.
pub open spec fn line_text(
    e: crate::log_entry::EntryModel,
    m: crate::settings::SettingsModel,
    time_label: Seq<char>,
    width: int,
) -> Seq<char> {
    let f = crate::log_entry::formatted(e, m, time_label);
    if m.show_raw {
        let bl = vstd::utf8::encode_utf8(e.content_plain).len() as usize;
        let pad: int = if width >= bl {
            width - bl
        } else {
            0
        };
        trim_end_of(trunc_pieces(ansi_pieces_of(f), 0, width)) + crate::text::spaces_rep(
            pad as nat,
        )
    } else {
        let cl = f.len();
        let bl = vstd::utf8::encode_utf8(f).len() as usize;
        let cpad: int = if width >= cl {
            width - cl
        } else {
            0
        };
        let bpad: int = if width >= bl {
            width - bl
        } else {
            0
        };
        f + crate::text::spaces_rep(cpad as nat) + crate::text::spaces_rep(bpad as nat)
    }
}

/// Builds the display text of one entry for a window `width` columns wide,
/// rendering its timestamp on the machine's local clock.
pub fn render_line(
    entry: &crate::log_entry::LogEntry,
    settings: &crate::settings::LogSettings,
    width: usize,
) -> (r: String)
    ensures
        exists|t: Seq<char>| r@ == line_text(entry@, settings@, t, width as int),
{
    let label = crate::log_entry::local_time_label(entry.timestamp);
    let formatted = entry.format_with_label(settings, label.as_str());
    if settings.show_raw() {
        let mut out = truncate_ansi(formatted.as_str(), width);
        let plain_len = entry.get_content_plain_len();
        let pad = if width >= plain_len {
            width - plain_len
        } else {
            0
        };
        let fill = crate::text::spaces(pad);
        out.append(fill.as_str());
        proof {
            assert(out@ == line_text(entry@, settings@, label@, width as int));
        }
        out
    } else {
        let ghost f = formatted@;
        let clen = formatted.as_str().unicode_len();
        let blen = formatted.as_str().len();
        let mut out = formatted;
        let cpad = if width >= clen {
            width - clen
        } else {
            0
        };
        let bpad = if width >= blen {
            width - blen
        } else {
            0
        };
        let cfill = crate::text::spaces(cpad);
        out.append(cfill.as_str());
        let bfill = crate::text::spaces(bpad);
        out.append(bfill.as_str());
        proof {
            assert(out@ == line_text(entry@, settings@, label@, width as int));
        }
        out
    }
}
} // verus!
