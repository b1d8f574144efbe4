//! The immutable unit of log data: one captured line with its timestamp,
//! source name, raw and escape-stripped text, structured-content flag and
//! per-source line number, together with its display formatting.

use vstd::prelude::*;
use crate::settings::LogSettings;
use crate::settings::SettingsModel;
use crate::text::dec_rep;
use crate::text::push_char;
use crate::text::spaces;
use crate::text::spaces_rep;
use crate::text::to_upper;
use crate::text::upper_of;
use crate::text::usize_to_dec;

verus! {

/// Milliseconds on the local clock when the call was made; a fresh reading
/// on every call. Relies on `chrono::Local::now`.
#[verifier::external_body]
pub fn now_millis() -> i64 {
    chrono::Local::now().timestamp_millis()
}

/// The bytes left after removing terminal escape sequences; the name stands
/// for what `strip_ansi_escapes::strip` returns, a function of the input
/// alone.
pub uninterp spec fn stripped_of(s: Seq<char>) -> Seq<u8>;

/// Relies on `strip_ansi_escapes::strip`: removes ANSI escape sequences and
/// returns the remaining bytes.
#[verifier::external_body]
fn strip_ansi(s: &str) -> (r: Vec<u8>)
    ensures
        r@ == stripped_of(s@),
{
    strip_ansi_escapes::strip(s)
}

/// The text that a byte sequence decodes to, invalid sequences replaced; the
/// name stands for what `String::from_utf8_lossy` returns, a function of the
/// bytes alone.
pub uninterp spec fn text_of_bytes(b: Seq<u8>) -> Seq<char>;

/// Relies on `String::from_utf8_lossy`: decodes bytes as UTF-8, replacing
/// invalid sequences with the replacement character.
#[verifier::external_body]
fn bytes_to_text(b: &[u8]) -> (r: String)
    ensures
        r@ == text_of_bytes(b@),
{
    String::from_utf8_lossy(b).into_owned()
}

/// Whether the text parses as a structured data document; the name stands
/// for what `serde_json::from_str::<serde_json::Value>` decides, a function
/// of the text alone.
pub uninterp spec fn is_structured_text(s: Seq<char>) -> bool;

/// Relies on `serde_json::from_str::<serde_json::Value>`: `Ok` exactly when
/// the text is a well-formed JSON document.
#[verifier::external_body]
fn detect_structured(s: &str) -> (r: bool)
    ensures
        r == is_structured_text(s@),
{
    serde_json::from_str::<serde_json::Value>(s).is_ok()
}

/// Renders a local-clock timestamp as `%Y-%m-%d %H:%M:%S`. The text depends
/// on the machine's time zone, so nothing is promised of it; a reading
/// outside chrono's representable range gives an empty label. Relies on
/// `chrono::DateTime::from_timestamp_millis` and chrono's formatting.
#[verifier::external_body]
pub fn local_time_label(millis: i64) -> String {
    match chrono::DateTime::from_timestamp_millis(millis) {
        Some(t) => t.with_timezone(&chrono::Local).format("%Y-%m-%d %H:%M:%S").to_string(),
        None => String::new(),
    }
}

/// The escape-stripped text of a raw line.
pub open spec fn plain_of(content: Seq<char>) -> Seq<char> {
    text_of_bytes(stripped_of(content))
}

/// Model of one log entry.
#[verifier::ext_equal]
pub ghost struct EntryModel {
    pub timestamp: int,
    pub source: Seq<char>,
    pub content: Seq<char>,
    pub content_plain: Seq<char>,
    pub is_json: bool,
    pub line_number: nat,
}

/// One captured log line. `content_plain` is `content` with terminal escape
/// sequences removed; `is_json` says whether that plain text parses as a
/// structured document; `line_number` is assigned by the source's storage
/// when the entry is appended, never by a producer.
pub struct LogEntry {
    pub timestamp: i64,
    pub source: String,
    pub content: String,
    pub content_plain: String,
    pub is_json: bool,
    pub line_number: usize,
}

impl View for LogEntry {
    type V = EntryModel;

    open spec fn view(&self) -> EntryModel {
        EntryModel {
            timestamp: self.timestamp as int,
            source: self.source@,
            content: self.content@,
            content_plain: self.content_plain@,
            is_json: self.is_json,
            line_number: self.line_number as nat,
        }
    }
}


impl DeepView for LogEntry {
    type V = EntryModel;

    open spec fn deep_view(&self) -> EntryModel {
        self.view()
    }
}

impl Clone for LogEntry {
    /// An exact copy of the entry.
    fn clone(&self) -> (r: Self)
        ensures
            r == *self,
    {
        LogEntry {
            timestamp: self.timestamp,
            source: self.source.clone(),
            content: self.content.clone(),
            content_plain: self.content_plain.clone(),
            is_json: self.is_json,
            line_number: self.line_number,
        }
    }
}

impl LogEntry {
    /// Builds an entry from a raw captured line: strips escape sequences,
    /// detects structured content, stamps the current time. The line number
    /// is a placeholder until the entry is appended to a source.
    pub fn new(source: String, content: String) -> (r: LogEntry)
        ensures
            r@.source == source@,
            r@.content == content@,
            r@.content_plain == plain_of(content@),
            r@.is_json == is_structured_text(plain_of(content@)),
            r@.line_number == 0,
    {
        let stripped = strip_ansi(content.as_str());
        let content_plain = bytes_to_text(stripped.as_slice());
        let is_json = detect_structured(content_plain.as_str());
        LogEntry {
            timestamp: now_millis(),
            source,
            content,
            content_plain,
            is_json,
            line_number: 0,
        }
    }

    /// Builds an entry for a line taken as already-plain text, as the file
    /// and standard-input readers do: the plain text is the line itself and
    /// no structured-content detection runs.
    pub fn from_plain(source: String, content: String) -> (r: LogEntry)
        ensures
            r@.source == source@,
            r@.content == content@,
            r@.content_plain == content@,
            r@.is_json == false,
            r@.line_number == 0,
    {
        let content_plain = content.clone();
        LogEntry {
            timestamp: now_millis(),
            source,
            content,
            content_plain,
            is_json: false,
            line_number: 0,
        }
    }

    /// Length in bytes of the escape-stripped text.
    pub fn get_content_plain_len(&self) -> (r: usize)
        ensures
            r == vstd::utf8::encode_utf8(self@.content_plain).len() as usize,
    {
        self.content_plain.as_str().len()
    }

    /// Formats the entry for display given the already-rendered time label:
    /// in order, the bracketed line number (padded to six digits), the
    /// bracketed time label, the bracketed upper-cased source name, then the
    /// text — raw or plain as configured, preceded by an indicator glyph or
    /// a two-space pad when the structured-content column is on. Fields are
    /// space-separated.
    #[verifier::rlimit(100)]
    #[verifier::spinoff_prover]
    pub fn format_with_label(&self, settings: &LogSettings, time_label: &str) -> (r: String)
        ensures
            r@ == formatted(self@, settings@, time_label@),
    {
        let ghost lnseg: Seq<char> = if settings@.show_line_numbers {
            seq!['['] + padded6(dec_rep(self@.line_number)) + seq![']', ' ']
        } else {
            Seq::empty()
        };
        let ghost tsseg: Seq<char> = if settings@.show_time {
            seq!['['] + time_label@ + seq![']', ' ']
        } else {
            Seq::empty()
        };
        let ghost srcseg: Seq<char> = if settings@.show_source_labels {
            seq!['['] + upper_of(self@.source) + seq![']', ' ']
        } else {
            Seq::empty()
        };
        let mut out = String::new();
        if settings.show_line_numbers() {
            let digits = usize_to_dec(self.line_number);
            push_char(&mut out, '[');
            if digits.as_str().unicode_len() < 6 {
                let pad = spaces(6 - digits.as_str().unicode_len());
                out.append(pad.as_str());
            }
            out.append(digits.as_str());
            push_char(&mut out, ']');
            push_char(&mut out, ' ');
        }
        proof {
            assert(out@ =~= lnseg);
        }
        if settings.show_time() {
            push_char(&mut out, '[');
            out.append(time_label);
            push_char(&mut out, ']');
            push_char(&mut out, ' ');
        }
        proof {
            assert(out@ =~= lnseg + tsseg);
        }
        if settings.show_source_labels() {
            let upper = to_upper(self.source.as_str());
            push_char(&mut out, '[');
            out.append(upper.as_str());
            push_char(&mut out, ']');
            push_char(&mut out, ' ');
        }
        proof {
            assert(out@ =~= lnseg + tsseg + srcseg);
        }
        if settings.show_file_type() {
            if self.is_json {
                push_char(&mut out, '\u{e60b}');
                push_char(&mut out, ' ');
            } else {
                push_char(&mut out, ' ');
                push_char(&mut out, ' ');
            }
        }
        let ghost head = lnseg + tsseg + srcseg;
        let ghost body: Seq<char> = if settings@.show_raw {
            self@.content
        } else {
            self@.content_plain
        };
        if settings.show_raw() {
            out.append(self.content.as_str());
        } else {
            out.append(self.content_plain.as_str());
        }
        proof {
            if settings@.show_file_type {
                if self@.is_json {
                    assert(out@ =~= head + (seq!['\u{e60b}', ' '] + body));
                } else {
                    assert(out@ =~= head + (seq![' ', ' '] + body));
                }
            } else {
                assert(out@ =~= head + body);
            }
            assert(out@ == formatted(self@, settings@, time_label@));
        }
        out
    }

    /// Formats the entry for display under the given settings, rendering its
    /// timestamp on the machine's local clock. The parameter is an unused
    /// override slot: the entry's own stored line number is what is shown.
    pub fn format(&self, settings: &LogSettings, _line_number: Option<usize>) -> (r: String)
        ensures
            exists|t: Seq<char>| r@ == formatted(self@, settings@, t),
    {
        let label = local_time_label(self.timestamp);
        let out = self.format_with_label(settings, label.as_str());
        proof {
            assert(out@ == formatted(self@, settings@, label@));
        }
        out
    }
}

/// Right-aligns a digit string in a field of width six.
pub open spec fn padded6(s: Seq<char>) -> Seq<char> {
    if s.len() >= 6 {
        s
    } else {
        spaces_rep((6 - s.len()) as nat) + s
    }
}

/// The display form of an entry under the given settings and time label:
/// the enabled bracketed metadata fields in fixed order, space-separated,
/// followed by the entry text.
pub open spec fn formatted(e: EntryModel, m: SettingsModel, time_label: Seq<char>) -> Seq<char> {
    let ln: Seq<char> = if m.show_line_numbers {
        seq!['['] + padded6(dec_rep(e.line_number)) + seq![']', ' ']
    } else {
        Seq::empty()
    };
    let ts: Seq<char> = if m.show_time {
        seq!['['] + time_label + seq![']', ' ']
    } else {
        Seq::empty()
    };
    let src: Seq<char> = if m.show_source_labels {
        seq!['['] + upper_of(e.source) + seq![']', ' ']
    } else {
        Seq::empty()
    };
    let body: Seq<char> = if m.show_raw {
        e.content
    } else {
        e.content_plain
    };
    let tagged: Seq<char> = if m.show_file_type {
        if e.is_json {
            seq!['\u{e60b}', ' '] + body
        } else {
            seq![' ', ' '] + body
        }
    } else {
        body
    };
    ln + ts + src + tagged
}

} // verus!
