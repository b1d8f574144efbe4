//! Per-source entry storage, the visibility/content filter, and the
//! aggregator that merges every source into one time-ordered, filtered view.

use vstd::prelude::*;
use vstd::multiset::Multiset;
use crate::log_entry::EntryModel;
use crate::log_entry::LogEntry;
use crate::settings::assoc_map;
use crate::settings::lemma_assoc_map_dom;
use crate::settings::lemma_assoc_map_lookup;
use crate::settings::lemma_assoc_map_update;
use crate::settings::source_visible;
use crate::settings::unique_keys;
use crate::settings::LogSettings;
use crate::settings::SourceConfig;
use crate::text::lower_of;
use crate::text::str_eq;
use crate::text::to_lower;

verus! {

broadcast use vstd::string::group_string_axioms;

#[verifier::external_type_specification]
#[verifier::external_body]
pub struct ExRegex(regex::Regex);

/// Whether a compiled pattern matches somewhere in a text; the name stands
/// for what `regex::Regex::is_match` decides, a function of the pattern text
/// and the haystack alone.
pub uninterp spec fn regex_match_of(pattern: Seq<char>, text: Seq<char>) -> bool;

/// A compiled content pattern together with the text it was compiled from.
pub struct Pattern {
    re: regex::Regex,
    text: String,
}

impl View for Pattern {
    type V = Seq<char>;

    closed spec fn view(&self) -> Seq<char> {
        self.text@
    }
}

/// Whether a pattern text is a well-formed pattern; the name stands for
/// `regex::Regex::new` succeeding, a function of the pattern text alone.
pub uninterp spec fn pattern_compiles(pat: Seq<char>) -> bool;

/// Relies on `regex::Regex::new`: `Ok` exactly for well-formed patterns.
/// The returned value pairs the compiled regex with its pattern text.
#[verifier::external_body]
fn compile_pattern(pat: &str) -> (r: Option<Pattern>)
    ensures
        (r is Some) == pattern_compiles(pat@),
        r matches Some(p) ==> p@ == pat@,
{
    match regex::Regex::new(pat) {
        Ok(re) => Some(Pattern { re, text: pat.to_owned() }),
        Err(_) => None,
    }
}

/// Relies on `regex::Regex::is_match`: whether the pattern matches somewhere
/// in the text, a deterministic function of the pattern and the text. Every
/// `Pattern` is built by `compile_pattern`, so its regex is the compiled
/// form of its recorded pattern text.
#[verifier::external_body]
fn pattern_matches(p: &Pattern, text: &str) -> (r: bool)
    ensures
        r == regex_match_of(p@, text@),
{
    p.re.is_match(text)
}

/// Model of the entry filter: per-source visibility plus the texts of the
/// optional match-to-pass and match-to-drop patterns.
#[verifier::ext_equal]
pub ghost struct FilterModel {
    pub vis: Map<Seq<char>, bool>,
    pub filter_in: Option<Seq<char>>,
    pub filter_out: Option<Seq<char>>,
}

/// Whether one entry passes a filter: its source (normalized to lower case)
/// is visible, the match-to-pass pattern (if any) matches its plain text,
/// and the match-to-drop pattern (if any) does not.
pub open spec fn filter_pass(f: FilterModel, e: EntryModel) -> bool {
    &&& source_visible(f.vis, lower_of(e.source))
    &&& (f.filter_in is None || regex_match_of(f.filter_in->0, e.content_plain))
    &&& (f.filter_out is None || !regex_match_of(f.filter_out->0, e.content_plain))
}

/// Filtering of log entries: per-source visibility and optional
/// content patterns, one required and one forbidden.
pub struct Filter {
    source_visibility: Vec<(String, SourceConfig)>,
    filter_in: Option<Pattern>,
    filter_out: Option<Pattern>,
}

impl View for Filter {
    type V = FilterModel;

    closed spec fn view(&self) -> FilterModel {
        FilterModel {
            vis: assoc_map(self.source_visibility@),
            filter_in: match self.filter_in {
                Some(p) => Some(p@),
                None => None,
            },
            filter_out: match self.filter_out {
                Some(p) => Some(p@),
                None => None,
            },
        }
    }
}

impl Filter {
    /// Internal consistency: every source name occurs once.
    pub closed spec fn wf(&self) -> bool {
        unique_keys(self.source_visibility@)
    }

    /// A fresh filter: stdout and stderr visible, no content patterns.
    pub fn new() -> (r: Filter)
        ensures
            r.wf(),
            r@.vis == Map::<Seq<char>, bool>::empty().insert("stdout"@, true).insert(
                "stderr"@,
                true,
            ),
            r@.filter_in is None,
            r@.filter_out is None,
    {
        let mut source_visibility: Vec<(String, SourceConfig)> = Vec::new();
        source_visibility.push((String::from_str("stdout"), SourceConfig { visible: true }));
        source_visibility.push((String::from_str("stderr"), SourceConfig { visible: true }));
        proof {
            reveal_strlit("stdout");
            reveal_strlit("stderr");
            assert("stdout"@ != "stderr"@) by {
                assert("stdout"@[3] != "stderr"@[3]);
            }
            assert(source_visibility@.drop_last().drop_last() =~= Seq::<(
                String,
                SourceConfig,
            )>::empty());
            assert(assoc_map(source_visibility@.drop_last().drop_last()) =~= Map::<
                Seq<char>,
                bool,
            >::empty());
            assert(assoc_map(source_visibility@.drop_last()) =~= Map::<
                Seq<char>,
                bool,
            >::empty().insert("stdout"@, true));
            assert(assoc_map(source_visibility@) =~= Map::<Seq<char>, bool>::empty().insert(
                "stdout"@,
                true,
            ).insert("stderr"@, true));
        }
        Filter { source_visibility, filter_in: None, filter_out: None }
    }

    /// Installs the match-to-pass pattern: entries must match it to pass.
    /// Succeeds exactly for well-formed patterns; a pattern that does not
    /// compile fails and changes nothing.
    pub fn set_filter_in(&mut self, pattern: &str) -> (ok: bool)
        requires
            old(self).wf(),
        ensures
            final(self).wf(),
            ok == pattern_compiles(pattern@),
            ok ==> final(self)@ == (FilterModel { filter_in: Some(pattern@), ..old(self)@ }),
            !ok ==> final(self)@ == old(self)@,
            final(self)@.vis == old(self)@.vis,
    {
        match compile_pattern(pattern) {
            Some(p) => {
                self.filter_in = Some(p);
                proof {
                    assert(self@ =~= (FilterModel { filter_in: Some(pattern@), ..old(self)@ }));
                }
                true
            },
            None => false,
        }
    }

    /// Installs the match-to-drop pattern: entries must not match it to
    /// pass. Succeeds exactly for well-formed patterns; a pattern that does
    /// not compile fails and changes nothing.
    pub fn set_filter_out(&mut self, pattern: &str) -> (ok: bool)
        requires
            old(self).wf(),
        ensures
            final(self).wf(),
            ok == pattern_compiles(pattern@),
            ok ==> final(self)@ == (FilterModel { filter_out: Some(pattern@), ..old(self)@ }),
            !ok ==> final(self)@ == old(self)@,
            final(self)@.vis == old(self)@.vis,
    {
        match compile_pattern(pattern) {
            Some(p) => {
                self.filter_out = Some(p);
                proof {
                    assert(self@ =~= (FilterModel { filter_out: Some(pattern@), ..old(self)@ }));
                }
                true
            },
            None => false,
        }
    }

    fn find_vis(&self, key: &String) -> (r: Option<usize>)
        ensures
            match r {
                Some(i) => i < self.source_visibility@.len() && self.source_visibility@[
                    i as int
                ].0@ == key@,
                None => forall|i: int|
                    0 <= i < self.source_visibility@.len() ==> (
                    #[trigger] self.source_visibility@[i]).0@ != key@,
            },
    {
        let mut i: usize = 0;
        while i < self.source_visibility.len()
            invariant
                0 <= i <= self.source_visibility@.len(),
                forall|j: int|
                    0 <= j < i ==> (#[trigger] self.source_visibility@[j]).0@ != key@,
            decreases self.source_visibility@.len() - i,
        {
            if str_eq(self.source_visibility[i].0.as_str(), key.as_str()) {
                return Some(i);
            }
            i = i + 1;
        }
        None
    }

    /// Whether one entry passes every criterion of this filter.
    pub fn check(&self, entry: &LogEntry) -> (r: bool)
        requires
            self.wf(),
        ensures
            r == filter_pass(self@, entry@),
    {
        let key = to_lower(entry.source.as_str());
        let visible = match self.find_vis(&key) {
            Some(i) => {
                proof {
                    lemma_assoc_map_lookup(self.source_visibility@, i as int);
                }
                self.source_visibility[i].1.visible
            },
            None => {
                proof {
                    lemma_assoc_map_dom(self.source_visibility@, key@);
                }
                true
            },
        };
        if !visible {
            return false;
        }
        if let Some(p) = &self.filter_in {
            if !pattern_matches(p, entry.content_plain.as_str()) {
                return false;
            }
        }
        if let Some(p) = &self.filter_out {
            if pattern_matches(p, entry.content_plain.as_str()) {
                return false;
            }
        }
        true
    }

    /// Copies the per-source visibility choices out of the settings into
    /// this filter, leaving the content patterns alone. Sources the settings
    /// do not mention keep their recorded visibility.
    pub fn update_from_settings(&mut self, settings: &LogSettings)
        requires
            old(self).wf(),
            settings.wf(),
        ensures
            final(self).wf(),
            final(self)@.vis == old(self)@.vis.union_prefer_right(settings@.vis),
            final(self)@.filter_in == old(self)@.filter_in,
            final(self)@.filter_out == old(self)@.filter_out,
    {
        let pairs = settings.visibility_pairs();
        let n = pairs.len();
        let mut i: usize = 0;
        while i < n
            invariant
                0 <= i <= n,
                n == pairs@.len(),
                unique_keys(pairs@),
                self.wf(),
                self@.filter_in == old(self)@.filter_in,
                self@.filter_out == old(self)@.filter_out,
                self@.vis == old(self)@.vis.union_prefer_right(
                    assoc_map(pairs@.subrange(0, i as int)),
                ),
            decreases n - i,
        {
            let ghost prev_vis = self@.vis;
            let ghost pre_list = self.source_visibility@;
            let name = pairs[i].0.clone();
            let cfg = pairs[i].1;
            match self.find_vis(&name) {
                Some(k) => {
                    let stored = self.source_visibility[k].0.clone();
                    self.source_visibility.set(k, (stored, cfg));
                    proof {
                        lemma_assoc_map_update(pre_list, k as int, cfg.visible);
                        assert(self.source_visibility@ =~= pre_list.update(
                            k as int,
                            (pre_list[k as int].0, SourceConfig { visible: cfg.visible }),
                        ));
                    }
                },
                None => {
                    proof {
                        lemma_assoc_map_dom(self.source_visibility@, name@);
                    }
                    self.source_visibility.push((name, cfg));
                    proof {
                        assert(self.source_visibility@.drop_last() =~= pre_list);
                        assert(forall|a: int, b: int|
                            0 <= a < b < self.source_visibility@.len() && b
                                < self.source_visibility@.len() - 1 ==> (
                            #[trigger] self.source_visibility@[a]).0@ != (
                            #[trigger] self.source_visibility@[b]).0@);
                    }
                },
            }
            proof {
                assert(self@.vis =~= prev_vis.insert(pairs@[i as int].0@, cfg.visible));
                assert(pairs@.subrange(0, i + 1 as int).drop_last() =~= pairs@.subrange(
                    0,
                    i as int,
                ));
                assert(self@.vis =~= old(self)@.vis.union_prefer_right(
                    assoc_map(pairs@.subrange(0, i + 1 as int)),
                ));
            }
            i = i + 1;
        }
        proof {
            assert(pairs@.subrange(0, n as int) =~= pairs@);
        }
    }
}

/// Model of one named source: its appended entries, the next sequence
/// number, and its flags.
#[verifier::ext_equal]
pub ghost struct SourceModel {
    pub name: Seq<char>,
    pub entries: Seq<EntryModel>,
    pub next_line_number: nat,
    pub has_new_entries: bool,
    pub visible: bool,
}

/// Well-formedness of a source: sequence numbers are assigned at append
/// time, so the i-th entry bears number i+1 and the counter stands one past
/// the last assigned number.
pub open spec fn source_wf(m: SourceModel) -> bool {
    &&& m.next_line_number == m.entries.len() + 1
    &&& forall|i: int|
        0 <= i < m.entries.len() ==> (#[trigger] m.entries[i]).line_number == i + 1
}

/// Sequence monotonicity: in a well-formed source the sequence numbers start
/// at 1 and strictly increase by exactly 1 in append order, however the
/// entries arrived.
pub proof fn lemma_sequence_monotonic(m: SourceModel)
    requires
        source_wf(m),
    ensures
        m.entries.len() > 0 ==> m.entries[0].line_number == 1,
        forall|i: int|
            0 <= i < m.entries.len() - 1 ==> (#[trigger] m.entries[i]).line_number + 1
                == m.entries[i + 1].line_number,
        forall|i: int, j: int|
            0 <= i < j < m.entries.len() ==> (#[trigger] m.entries[i]).line_number < (
            #[trigger] m.entries[j]).line_number,
{
}

/// The entries of `entries` that pass the filter, in order.
pub open spec fn filter_seq(entries: Seq<EntryModel>, f: FilterModel) -> Seq<EntryModel>
    decreases entries.len(),
{
    if entries.len() == 0 {
        Seq::empty()
    } else {
        let rest = filter_seq(entries.drop_last(), f);
        if filter_pass(f, entries.last()) {
            rest.push(entries.last())
        } else {
            rest
        }
    }
}

/// Entries from one single source.
pub struct LogSource {
    name: String,
    entries: Vec<LogEntry>,
    next_line_number: usize,
    has_new_entries: bool,
    visible: bool,
}

impl View for LogSource {
    type V = SourceModel;

    closed spec fn view(&self) -> SourceModel {
        SourceModel {
            name: self.name@,
            entries: self.entries.deep_view(),
            next_line_number: self.next_line_number as nat,
            has_new_entries: self.has_new_entries,
            visible: self.visible,
        }
    }
}

impl LogSource {
    /// Well-formedness: see `source_wf`.
    pub open spec fn wf(&self) -> bool {
        source_wf(self@)
    }

    /// A fresh, empty, visible source; sequence numbers start at 1.
    pub fn new(name: String) -> (r: Self)
        ensures
            r.wf(),
            r@ == (SourceModel {
                name: name@,
                entries: Seq::empty(),
                next_line_number: 1,
                has_new_entries: false,
                visible: true,
            }),
    {
        let r = LogSource {
            name,
            entries: Vec::new(),
            next_line_number: 1,
            has_new_entries: false,
            visible: true,
        };
        proof {
            assert(r@.entries =~= Seq::<EntryModel>::empty());
            assert(r@ =~= (SourceModel {
                name: r@.name,
                entries: Seq::empty(),
                next_line_number: 1,
                has_new_entries: false,
                visible: true,
            }));
        }
        r
    }

    /// Appends one entry, assigning it the next sequence number — the one
    /// place where sequence numbers are given out — and marks the source as
    /// holding new entries.
    pub fn add_entry(&mut self, entry: LogEntry)
        requires
            old(self).wf(),
            old(self)@.entries.len() + 1 < usize::MAX,
        ensures
            final(self).wf(),
            final(self)@ == append_to_source(old(self)@, entry@),
    {
        let mut entry = entry;
        entry.line_number = self.next_line_number;
        self.next_line_number = self.next_line_number + 1;
        let ghost dv_before = self.entries.deep_view();
        self.entries.push(entry);
        self.has_new_entries = true;
        proof {
            assert(self.entries.deep_view() =~~= dv_before.push(entry@));
            assert(self@ =~= append_to_source(old(self)@, entry@));
        }
    }

    /// The entries of this source that pass the filter, cloned, in order.
    pub fn get_entries(&self, filter: &Filter) -> (r: Vec<LogEntry>)
        requires
            filter.wf(),
        ensures
            r.deep_view() == filter_seq(self@.entries, filter@),
    {
        let mut r: Vec<LogEntry> = Vec::new();
        let mut i: usize = 0;
        while i < self.entries.len()
            invariant
                0 <= i <= self.entries@.len(),
                filter.wf(),
                self@.entries.len() == self.entries@.len(),
                r.deep_view() == filter_seq(self@.entries.subrange(0, i as int), filter@),
            decreases self.entries@.len() - i,
        {
            let ghost dv_before = r.deep_view();
            let ghost prefix = self@.entries.subrange(0, i as int);
            if filter.check(&self.entries[i]) {
                r.push(self.entries[i].clone());
            }
            proof {
                let longer = self@.entries.subrange(0, i + 1 as int);
                assert(longer.drop_last() =~= prefix);
                assert(longer.last() == self@.entries[i as int]);
                if filter_pass(filter@, self@.entries[i as int]) {
                    assert(r.deep_view() =~~= dv_before.push(self@.entries[i as int]));
                }
                assert(r.deep_view() =~~= filter_seq(longer, filter@));
            }
            i = i + 1;
        }
        proof {
            assert(self@.entries.subrange(0, self@.entries.len() as int) =~= self@.entries);
        }
        r
    }

    /// The source's name.
    pub fn name_str(&self) -> (r: &str)
        ensures
            r@ == self@.name,
    {
        self.name.as_str()
    }

    /// How many entries this source holds.
    pub fn len(&self) -> (r: usize)
        ensures
            r == self@.entries.len(),
    {
        self.entries.len()
    }

    /// Sets the source's own visibility flag.
    pub fn set_visible(&mut self, visible: bool)
        ensures
            final(self)@ == (SourceModel { visible, ..old(self)@ }),
    {
        self.visible = visible;
        proof {
            assert(self@ =~= (SourceModel { visible, ..old(self)@ }));
        }
    }

    /// The source's own visibility flag.
    pub fn is_visible(&self) -> (r: bool)
        ensures
            r == self@.visible,
    {
        self.visible
    }

    /// Whether entries arrived since the flag was last cleared.
    pub fn has_new_entries(&self) -> (r: bool)
        ensures
            r == self@.has_new_entries,
    {
        self.has_new_entries
    }

    /// Clears the new-entries flag; called once per event-loop pass.
    pub fn clear_new_entries_flag(&mut self)
        ensures
            final(self)@ == (SourceModel { has_new_entries: false, ..old(self)@ }),
    {
        self.has_new_entries = false;
        proof {
            assert(self@ =~= (SourceModel { has_new_entries: false, ..old(self)@ }));
        }
    }
}

/// An entry as it stands once appended: the same data under the sequence
/// number the source assigned.
pub open spec fn stamped(e: EntryModel, n: nat) -> EntryModel {
    EntryModel { line_number: n, ..e }
}

/// A source after appending one entry.
pub open spec fn append_to_source(m: SourceModel, e: EntryModel) -> SourceModel {
    SourceModel {
        entries: m.entries.push(stamped(e, m.next_line_number)),
        next_line_number: m.next_line_number + 1,
        has_new_entries: true,
        ..m
    }
}

impl DeepView for LogSource {
    type V = SourceModel;

    open spec fn deep_view(&self) -> SourceModel {
        self.view()
    }
}

/// Entries in ascending timestamp order.
pub open spec fn sorted_by_ts(s: Seq<EntryModel>) -> bool {
    forall|i: int, j: int|
        0 <= i < j < s.len() ==> (#[trigger] s[i]).timestamp <= (#[trigger] s[j]).timestamp
}

/// Stable insertion into a timestamp-sorted sequence: the entry lands before
/// the first entry whose timestamp is equal or later, so an earlier-appended
/// entry keeps its place ahead of equal timestamps.
pub open spec fn insert_by_ts(e: EntryModel, s: Seq<EntryModel>) -> Seq<EntryModel>
    decreases s.len(),
{
    if s.len() == 0 {
        seq![e]
    } else if e.timestamp <= s[0].timestamp {
        seq![e] + s
    } else {
        seq![s[0]] + insert_by_ts(e, s.drop_first())
    }
}

/// Stable sort by timestamp: entries with equal timestamps keep their
/// relative order.
pub open spec fn sort_by_ts(s: Seq<EntryModel>) -> Seq<EntryModel>
    decreases s.len(),
{
    if s.len() == 0 {
        s
    } else {
        insert_by_ts(s[0], sort_by_ts(s.drop_first()))
    }
}

proof fn lemma_insert_by_ts_at(e: EntryModel, s: Seq<EntryModel>, i: int)
    requires
        0 <= i <= s.len(),
        forall|j: int| 0 <= j < i ==> (#[trigger] s[j]).timestamp < e.timestamp,
        i < s.len() ==> e.timestamp <= s[i].timestamp,
    ensures
        insert_by_ts(e, s) == s.subrange(0, i) + seq![e] + s.subrange(i, s.len() as int),
    decreases i,
{
    if i == 0 {
        if s.len() == 0 {
            assert(insert_by_ts(e, s) =~= s.subrange(0, 0) + seq![e] + s.subrange(0, 0));
        } else {
            assert(insert_by_ts(e, s) =~= s.subrange(0, 0) + seq![e] + s.subrange(
                0,
                s.len() as int,
            ));
        }
    } else {
        let t = s.drop_first();
        assert(forall|j: int| 0 <= j < i - 1 ==> (#[trigger] t[j]).timestamp == s[j + 1].timestamp
            && s[j + 1].timestamp < e.timestamp);
        lemma_insert_by_ts_at(e, t, i - 1);
        assert(insert_by_ts(e, s) =~= s.subrange(0, i) + seq![e] + s.subrange(i, s.len() as int));
    }
}

proof fn lemma_insert_by_ts_elems(e: EntryModel, s: Seq<EntryModel>)
    ensures
        insert_by_ts(e, s).len() == s.len() + 1,
        forall|k: int|
            0 <= k < insert_by_ts(e, s).len() ==> (#[trigger] insert_by_ts(e, s)[k]) == e
                || s.contains(insert_by_ts(e, s)[k]),
    decreases s.len(),
{
    if s.len() == 0 {
    } else if e.timestamp <= s[0].timestamp {
        assert(forall|k: int|
            1 <= k < (seq![e] + s).len() ==> (#[trigger] (seq![e] + s)[k]) == s[k - 1]
                && s.contains(s[k - 1]));
    } else {
        lemma_insert_by_ts_elems(e, s.drop_first());
        let r = insert_by_ts(e, s);
        assert forall|k: int| 0 <= k < r.len() implies (#[trigger] r[k]) == e || s.contains(
            r[k],
        ) by {
            if k == 0 {
                assert(r[0] == s[0]);
                assert(s.contains(s[0]));
            } else {
                let rt = insert_by_ts(e, s.drop_first());
                assert(r[k] == rt[k - 1]);
                if rt[k - 1] != e {
                    let m = choose|m: int|
                        0 <= m < s.drop_first().len() && s.drop_first()[m] == rt[k - 1];
                    assert(s[m + 1] == rt[k - 1]);
                }
            }
        }
    }
}

proof fn lemma_insert_by_ts_sorted(e: EntryModel, s: Seq<EntryModel>)
    requires
        sorted_by_ts(s),
    ensures
        sorted_by_ts(insert_by_ts(e, s)),
    decreases s.len(),
{
    if s.len() == 0 {
    } else if e.timestamp <= s[0].timestamp {
    } else {
        let t = s.drop_first();
        assert(sorted_by_ts(t)) by {
            assert(forall|j: int| 0 <= j < t.len() ==> (#[trigger] t[j]) == s[j + 1]);
        }
        lemma_insert_by_ts_sorted(e, t);
        lemma_insert_by_ts_elems(e, t);
        let r = insert_by_ts(e, s);
        let rt = insert_by_ts(e, t);
        assert forall|i: int, j: int|
            0 <= i < j < r.len() implies (#[trigger] r[i]).timestamp <= (
        #[trigger] r[j]).timestamp by {
            if i == 0 {
                assert(r[j] == rt[j - 1]);
                if rt[j - 1] == e {
                    assert(s[0].timestamp < e.timestamp);
                } else {
                    let m = choose|m: int| 0 <= m < t.len() && t[m] == rt[j - 1];
                    assert(s[0].timestamp <= s[m + 1].timestamp);
                }
            } else {
                assert(r[i] == rt[i - 1] && r[j] == rt[j - 1]);
            }
        }
    }
}

proof fn lemma_insert_by_ts_multiset(e: EntryModel, s: Seq<EntryModel>)
    ensures
        insert_by_ts(e, s).to_multiset() == s.to_multiset().insert(e),
    decreases s.len(),
{
    broadcast use vstd::seq_lib::group_to_multiset_ensures;

    if s.len() == 0 {
        assert(seq![e] =~= Seq::<EntryModel>::empty().push(e));
        assert(insert_by_ts(e, s).to_multiset() =~= s.to_multiset().insert(e));
    } else if e.timestamp <= s[0].timestamp {
        vstd::seq_lib::lemma_multiset_commutative(seq![e], s);
        assert(seq![e] =~= Seq::<EntryModel>::empty().push(e));
        assert(seq![e].to_multiset() =~= Multiset::<EntryModel>::empty().insert(e));
        assert((seq![e] + s).to_multiset() =~= s.to_multiset().insert(e));
    } else {
        let t = s.drop_first();
        lemma_insert_by_ts_multiset(e, t);
        vstd::seq_lib::lemma_multiset_commutative(seq![s[0]], insert_by_ts(e, t));
        vstd::seq_lib::lemma_multiset_commutative(seq![s[0]], t);
        assert(seq![s[0]] + t =~= s);
        assert(insert_by_ts(e, s).to_multiset() =~= s.to_multiset().insert(e));
    }
}

/// The sorted view holds exactly the entries given to it: sorting permutes
/// and neither drops nor invents entries.
pub proof fn lemma_sort_by_ts_permutes(s: Seq<EntryModel>)
    ensures
        sort_by_ts(s).to_multiset() == s.to_multiset(),
    decreases s.len(),
{
    broadcast use vstd::seq_lib::group_to_multiset_ensures;

    if s.len() > 0 {
        let t = s.drop_first();
        lemma_sort_by_ts_permutes(t);
        lemma_insert_by_ts_multiset(s[0], sort_by_ts(t));
        vstd::seq_lib::lemma_multiset_commutative(seq![s[0]], t);
        assert(seq![s[0]] + t =~= s);
        assert(seq![s[0]] =~= Seq::<EntryModel>::empty().push(s[0]));
        assert(sort_by_ts(s).to_multiset() =~= s.to_multiset());
    }
}

/// The sorted view is ascending in timestamps.
pub proof fn lemma_sort_by_ts_sorted(s: Seq<EntryModel>)
    ensures
        sorted_by_ts(sort_by_ts(s)),
    decreases s.len(),
{
    if s.len() > 0 {
        lemma_sort_by_ts_sorted(s.drop_first());
        lemma_insert_by_ts_sorted(s[0], sort_by_ts(s.drop_first()));
    }
}

fn insert_sorted(list: &mut Vec<LogEntry>, entry: LogEntry)
    ensures
        final(list).deep_view() == insert_by_ts(entry.deep_view(), old(list).deep_view()),
{
    let mut idx: usize = 0;
    while idx < list.len() && list[idx].timestamp < entry.timestamp
        invariant
            0 <= idx <= list@.len(),
            list == old(list),
            forall|j: int|
                0 <= j < idx ==> (#[trigger] list.deep_view()[j]).timestamp
                    < entry.deep_view().timestamp,
        decreases list@.len() - idx,
    {
        idx = idx + 1;
    }
    proof {
        lemma_insert_by_ts_at(entry.deep_view(), list.deep_view(), idx as int);
    }
    list.insert(idx, entry);
    proof {
        let dv = old(list).deep_view();
        assert(list.deep_view() =~~= dv.subrange(0, idx as int) + seq![entry.deep_view()]
            + dv.subrange(idx as int, dv.len() as int));
    }
}

fn sort_entries(entries: Vec<LogEntry>) -> (r: Vec<LogEntry>)
    ensures
        r.deep_view() == sort_by_ts(entries.deep_view()),
{
    let mut r: Vec<LogEntry> = Vec::new();
    let mut i: usize = entries.len();
    proof {
        assert(r.deep_view() =~~= sort_by_ts(entries.deep_view().skip(i as int)));
    }
    while i > 0
        invariant
            0 <= i <= entries@.len(),
            r.deep_view() == sort_by_ts(entries.deep_view().skip(i as int)),
        decreases i,
    {
        i = i - 1;
        insert_sorted(&mut r, entries[i].clone());
        proof {
            let dv = entries.deep_view();
            assert(dv.skip(i as int).drop_first() =~= dv.skip(i + 1 as int));
            assert(dv.skip(i as int)[0] == dv[i as int]);
        }
    }
    proof {
        assert(entries.deep_view().skip(0) =~= entries.deep_view());
    }
    r
}

/// Model of the aggregator: the registered sources in registration order,
/// the filter, and the optionally designated active source.
#[verifier::ext_equal]
pub ghost struct StorageModel {
    pub sources: Seq<SourceModel>,
    pub filter: FilterModel,
    pub active_source: Option<Seq<char>>,
}

/// Well-formedness of the aggregator model: source names are distinct and
/// every source is well-formed.
pub open spec fn storage_wf(m: StorageModel) -> bool {
    &&& forall|i: int, j: int|
        0 <= i < j < m.sources.len() ==> (#[trigger] m.sources[i]).name != (
        #[trigger] m.sources[j]).name
    &&& forall|i: int| 0 <= i < m.sources.len() ==> source_wf(#[trigger] m.sources[i])
}

/// Whether a source of the given name is registered.
pub open spec fn has_source(ss: Seq<SourceModel>, name: Seq<char>) -> bool {
    exists|i: int| 0 <= i < ss.len() && (#[trigger] ss[i]).name == name
}

/// Position of the named source; meaningful only when it is registered and
/// names are distinct.
pub open spec fn source_index(ss: Seq<SourceModel>, name: Seq<char>) -> int {
    choose|i: int| 0 <= i < ss.len() && (#[trigger] ss[i]).name == name
}

/// The model of a freshly registered source.
pub open spec fn new_source_model(name: Seq<char>) -> SourceModel {
    SourceModel {
        name,
        entries: Seq::empty(),
        next_line_number: 1,
        has_new_entries: false,
        visible: true,
    }
}

/// Concatenation, in registration order, of each source's filter-passing
/// entries.
pub open spec fn filtered_concat(ss: Seq<SourceModel>, f: FilterModel) -> Seq<EntryModel>
    decreases ss.len(),
{
    if ss.len() == 0 {
        Seq::empty()
    } else {
        filter_seq(ss[0].entries, f) + filtered_concat(ss.drop_first(), f)
    }
}

/// Total number of stored entries over all sources.
pub open spec fn total_spec(ss: Seq<SourceModel>) -> int
    decreases ss.len(),
{
    if ss.len() == 0 {
        0int
    } else {
        ss[0].entries.len() + total_spec(ss.drop_first())
    }
}

proof fn lemma_total_spec_nonneg(ss: Seq<SourceModel>)
    ensures
        total_spec(ss) >= 0,
    decreases ss.len(),
{
    if ss.len() > 0 {
        lemma_total_spec_nonneg(ss.drop_first());
    }
}

/// Whether any source holds new entries and is visible.
pub open spec fn any_new_visible(ss: Seq<SourceModel>) -> bool {
    exists|i: int|
        0 <= i < ss.len() && (#[trigger] ss[i]).has_new_entries && ss[i].visible
}

/// What the redraw check reports: the active source's flags when an active
/// source is designated and registered, otherwise whether any source has new
/// entries and is visible.
pub open spec fn new_visible_spec(m: StorageModel) -> bool {
    match m.active_source {
        Some(name) => if has_source(m.sources, name) {
            let s = m.sources[source_index(m.sources, name)];
            s.has_new_entries && s.visible
        } else {
            any_new_visible(m.sources)
        },
        None => any_new_visible(m.sources),
    }
}

/// The aggregator: every source's storage, the filter applied to the merged
/// view, and the optional active source.
pub struct LogStorage {
    sources: Vec<LogSource>,
    filter: Filter,
    active_source: Option<String>,
}

impl View for LogStorage {
    type V = StorageModel;

    closed spec fn view(&self) -> StorageModel {
        StorageModel {
            sources: self.sources.deep_view(),
            filter: self.filter@,
            active_source: self.active_source.deep_view(),
        }
    }
}

impl LogStorage {
    /// The filter's internal consistency; opaque to callers.
    pub closed spec fn inner_wf(&self) -> bool {
        self.filter.wf()
    }

    /// Well-formedness of the aggregator.
    pub open spec fn wf(&self) -> bool {
        storage_wf(self@) && self.inner_wf()
    }

    /// A fresh aggregator: no sources, the default filter, no active source.
    pub fn new() -> (r: Self)
        ensures
            r.wf(),
            r@.sources == Seq::<SourceModel>::empty(),
            r@.filter.vis == Map::<Seq<char>, bool>::empty().insert("stdout"@, true).insert(
                "stderr"@,
                true,
            ),
            r@.filter.filter_in is None,
            r@.filter.filter_out is None,
            r@.active_source is None,
    {
        let r = LogStorage { sources: Vec::new(), filter: Filter::new(), active_source: None };
        proof {
            assert(r@.sources =~= Seq::<SourceModel>::empty());
        }
        r
    }

    fn find_source_index(&self, name: &str) -> (r: Option<usize>)
        ensures
            match r {
                Some(i) => i < self@.sources.len() && self@.sources[i as int].name == name@,
                None => forall|i: int|
                    0 <= i < self@.sources.len() ==> (#[trigger] self@.sources[i]).name != name@,
            },
    {
        let mut i: usize = 0;
        while i < self.sources.len()
            invariant
                0 <= i <= self.sources@.len(),
                self@.sources.len() == self.sources@.len(),
                forall|j: int| 0 <= j < i ==> (#[trigger] self@.sources[j]).name != name@,
            decreases self.sources@.len() - i,
        {
            let hit = str_eq(self.sources[i].name_str(), name);
            proof {
                assert(self.sources.deep_view()[i as int] == self.sources@[i as int]@);
            }
            if hit {
                return Some(i);
            }
            i = i + 1;
        }
        None
    }

    /// Registers a source of the given name if none exists yet.
    pub fn add_source(&mut self, name: String)
        requires
            old(self).wf(),
        ensures
            final(self).wf(),
            has_source(old(self)@.sources, name@) ==> final(self)@ == old(self)@,
            !has_source(old(self)@.sources, name@) ==> final(self)@ == (StorageModel {
                sources: old(self)@.sources.push(new_source_model(name@)),
                ..old(self)@
            }),
    {
        match self.find_source_index(name.as_str()) {
            Some(_) => {
                proof {
                    assert(final(self)@ =~= old(self)@);
                }
            },
            None => {
                let src = LogSource::new(name);
                self.sources.push(src);
                proof {
                    assert(self.sources.deep_view() =~~= old(self).sources.deep_view().push(
                        new_source_model(name@),
                    ));
                    assert(self@ =~= (StorageModel {
                        sources: old(self)@.sources.push(new_source_model(name@)),
                        ..old(self)@
                    }));
                }
            },
        }
    }

    /// The registered source of the given name, if any.
    pub fn get_source(&self, name: &str) -> (r: Option<&LogSource>)
        requires
            self.wf(),
        ensures
            (r is Some) <==> has_source(self@.sources, name@),
            r matches Some(src) ==> src@ == self@.sources[source_index(self@.sources, name@)]
                && src@.name == name@,
    {
        match self.find_source_index(name) {
            Some(i) => {
                proof {
                    let k = source_index(self@.sources, name@);
                    assert(self@.sources[i as int].name == name@);
                    assert(has_source(self@.sources, name@));
                    assert(self@.sources[k].name == name@);
                    assert(k == i as int);
                    assert(self.sources.deep_view()[i as int] == self.sources@[i as int]@);
                }
                Some(&self.sources[i])
            },
            None => {
                proof {
                    assert(!has_source(self@.sources, name@));
                }
                None
            },
        }
    }

    /// Designates (or clears) the active source.
    pub fn set_active_source(&mut self, name: Option<String>)
        requires
            old(self).wf(),
        ensures
            final(self).wf(),
            final(self)@ == (StorageModel { active_source: name.deep_view(), ..old(self)@ }),
    {
        self.active_source = name;
        proof {
            assert(self@ =~= (StorageModel { active_source: name.deep_view(), ..old(self)@ }));
        }
    }

    /// The designated active source, if any.
    pub fn get_active_source(&self) -> (r: &Option<String>)
        ensures
            r.deep_view() == self@.active_source,
    {
        &self.active_source
    }

    /// Files one entry under its source, registering the source on first
    /// sight; the source assigns the entry its sequence number and is marked
    /// as holding new entries.
    pub fn add_entry(&mut self, entry: LogEntry)
        requires
            old(self).wf(),
            has_source(old(self)@.sources, entry@.source) ==> old(self)@.sources[source_index(
                old(self)@.sources,
                entry@.source,
            )].entries.len() + 1 < usize::MAX,
        ensures
            final(self).wf(),
            has_source(old(self)@.sources, entry@.source) ==> final(self)@ == (StorageModel {
                sources: old(self)@.sources.update(
                    source_index(old(self)@.sources, entry@.source),
                    append_to_source(
                        old(self)@.sources[source_index(old(self)@.sources, entry@.source)],
                        entry@,
                    ),
                ),
                ..old(self)@
            }),
            !has_source(old(self)@.sources, entry@.source) ==> final(self)@ == (StorageModel {
                sources: old(self)@.sources.push(
                    append_to_source(new_source_model(entry@.source), entry@),
                ),
                ..old(self)@
            }),
    {
        let name = entry.source.clone();
        match self.find_source_index(name.as_str()) {
            Some(i) => {
                proof {
                    let k = source_index(self@.sources, entry@.source);
                    assert(has_source(self@.sources, entry@.source));
                    assert(self@.sources[k].name == entry@.source);
                    assert(k == i as int);
                }
                let mut src = self.sources.remove(i);
                src.add_entry(entry);
                self.sources.insert(i, src);
                proof {
                    let k = i as int;
                    assert(self.sources@ =~= old(self).sources@.update(
                        k,
                        self.sources@[k],
                    ));
                    assert(self.sources.deep_view() =~~= old(self).sources.deep_view().update(
                        k,
                        append_to_source(old(self)@.sources[k], entry@),
                    ));
                    assert(self@ =~= (StorageModel {
                        sources: old(self)@.sources.update(
                            k,
                            append_to_source(old(self)@.sources[k], entry@),
                        ),
                        ..old(self)@
                    }));
                }
            },
            None => {
                let mut src = LogSource::new(name);
                src.add_entry(entry);
                self.sources.push(src);
                proof {
                    assert(src@ =~= append_to_source(new_source_model(entry@.source), entry@));
                    assert(self.sources.deep_view() =~~= old(self).sources.deep_view().push(
                        src@,
                    ));
                    assert(self@ =~= (StorageModel {
                        sources: old(self)@.sources.push(
                            append_to_source(new_source_model(entry@.source), entry@),
                        ),
                        ..old(self)@
                    }));
                }
            },
        }
    }

    /// The merged view: every source's filter-passing entries, concatenated
    /// in registration order and stably sorted by timestamp, recomputed on
    /// every call.
    pub fn get_filtered_entries(&self) -> (r: Vec<LogEntry>)
        requires
            self.wf(),
        ensures
            r.deep_view() == sort_by_ts(filtered_concat(self@.sources, self@.filter)),
    {
        let mut all: Vec<LogEntry> = Vec::new();
        let mut i: usize = 0;
        proof {
            assert(self@.sources.skip(0) =~= self@.sources);
        }
        while i < self.sources.len()
            invariant
                0 <= i <= self.sources@.len(),
                self@.sources.len() == self.sources@.len(),
                self.wf(),
                filtered_concat(self@.sources, self@.filter) == all.deep_view()
                    + filtered_concat(self@.sources.skip(i as int), self@.filter),
            decreases self.sources@.len() - i,
        {
            let ghost dv_before = all.deep_view();
            let mut part = self.sources[i].get_entries(&self.filter);
            proof {
                assert(self.sources.deep_view()[i as int] == self.sources@[i as int]@);
            }
            all.append(&mut part);
            proof {
                let ss = self@.sources;
                assert(ss.skip(i as int).drop_first() =~= ss.skip(i + 1 as int));
                assert(ss.skip(i as int)[0] == ss[i as int]);
                assert(all.deep_view() =~~= dv_before + filter_seq(
                    ss[i as int].entries,
                    self@.filter,
                ));
                assert(filtered_concat(ss, self@.filter) =~= all.deep_view() + filtered_concat(
                    ss.skip(i + 1 as int),
                    self@.filter,
                ));
            }
            i = i + 1;
        }
        proof {
            assert(filtered_concat(self@.sources.skip(self.sources@.len() as int), self@.filter)
                =~= Seq::<EntryModel>::empty());
            assert(all.deep_view() =~= filtered_concat(self@.sources, self@.filter));
        }
        sort_entries(all)
    }

    /// Rewrites the filter's per-source visibility from the settings,
    /// leaving the content patterns alone.
    pub fn update_filter_from_settings(&mut self, settings: &LogSettings)
        requires
            old(self).wf(),
            settings.wf(),
        ensures
            final(self).wf(),
            final(self)@.sources == old(self)@.sources,
            final(self)@.active_source == old(self)@.active_source,
            final(self)@.filter.vis == old(self)@.filter.vis.union_prefer_right(settings@.vis),
            final(self)@.filter.filter_in == old(self)@.filter.filter_in,
            final(self)@.filter.filter_out == old(self)@.filter.filter_out,
    {
        self.filter.update_from_settings(settings);
        proof {
            assert(self.sources == old(self).sources);
            assert(self@.sources =~~= old(self)@.sources);
            assert(storage_wf(self@));
        }
    }

    /// Total number of stored entries over all sources.
    pub fn total_entries(&self) -> (r: usize)
        requires
            self.wf(),
            total_spec(self@.sources) <= usize::MAX,
        ensures
            r == total_spec(self@.sources),
    {
        let mut sum: usize = 0;
        let mut i: usize = 0;
        proof {
            assert(self@.sources.skip(0) =~= self@.sources);
        }
        while i < self.sources.len()
            invariant
                0 <= i <= self.sources@.len(),
                self@.sources.len() == self.sources@.len(),
                total_spec(self@.sources) <= usize::MAX,
                total_spec(self@.sources) == sum + total_spec(self@.sources.skip(i as int)),
            decreases self.sources@.len() - i,
        {
            proof {
                let ss = self@.sources;
                assert(ss.skip(i as int).drop_first() =~= ss.skip(i + 1 as int));
                assert(ss.skip(i as int)[0] == ss[i as int]);
                lemma_total_spec_nonneg(ss.skip(i + 1 as int));
                assert(self.sources.deep_view()[i as int] == self.sources@[i as int]@);
            }
            sum = sum + self.sources[i].len();
            i = i + 1;
        }
        proof {
            assert(total_spec(self@.sources.skip(self.sources@.len() as int)) == 0);
        }
        sum
    }

    /// Whether a redraw is warranted: the active source (when designated and
    /// registered) has new entries and is visible, or — without one — some
    /// source does.
    fn any_new_visible_source(&self) -> (r: bool)
        ensures
            r == any_new_visible(self@.sources),
    {
        let mut i: usize = 0;
        while i < self.sources.len()
            invariant
                0 <= i <= self.sources@.len(),
                self@.sources.len() == self.sources@.len(),
                forall|j: int|
                    0 <= j < i ==> !((#[trigger] self@.sources[j]).has_new_entries
                        && self@.sources[j].visible),
            decreases self.sources@.len() - i,
        {
            proof {
                assert(self.sources.deep_view()[i as int] == self.sources@[i as int]@);
            }
            if self.sources[i].has_new_entries() && self.sources[i].is_visible() {
                proof {
                    assert(any_new_visible(self@.sources));
                }
                return true;
            }
            i = i + 1;
        }
        false
    }

    pub fn has_new_visible_entries(&self) -> (r: bool)
        requires
            self.wf(),
        ensures
            r == new_visible_spec(self@),
    {
        match &self.active_source {
            Some(name) => {
                proof {
                    assert(self@.active_source == Some(name@));
                }
                match self.find_source_index(name.as_str()) {
                    Some(i) => {
                        proof {
                            let k = source_index(self@.sources, name@);
                            assert(has_source(self@.sources, name@));
                            assert(self@.sources[k].name == name@);
                            assert(k == i as int);
                            assert(self.sources.deep_view()[i as int] == self.sources@[
                                i as int
                            ]@);
                        }
                        self.sources[i].has_new_entries() && self.sources[i].is_visible()
                    },
                    None => {
                        proof {
                            assert(!has_source(self@.sources, name@));
                        }
                        self.any_new_visible_source()
                    },
                }
            },
            None => self.any_new_visible_source(),
        }
    }

    /// Clears every source's new-entries flag; called once per event-loop
    /// pass after the flags were consulted.
    #[verifier::loop_isolation(false)]
    pub fn clear_new_entries_flags(&mut self)
        requires
            old(self).wf(),
        ensures
            final(self).wf(),
            final(self)@.sources.len() == old(self)@.sources.len(),
            forall|i: int|
                0 <= i < old(self)@.sources.len() ==> final(self)@.sources[i] == (SourceModel {
                    has_new_entries: false,
                    ..old(self)@.sources[i]
                }),
            final(self)@.filter == old(self)@.filter,
            final(self)@.active_source == old(self)@.active_source,
    {
        let n = self.sources.len();
        let mut i: usize = 0;
        while i < n
            invariant
                0 <= i <= n,
                n == self.sources@.len(),
                self.sources@.len() == old(self).sources@.len(),
                self.inner_wf(),
                self@.filter == old(self)@.filter,
                self@.active_source == old(self)@.active_source,
                forall|j: int|
                    0 <= j < i ==> self@.sources[j] == (SourceModel {
                        has_new_entries: false,
                        ..old(self)@.sources[j]
                    }),
                forall|j: int|
                    i <= j < n ==> #[trigger] self@.sources[j] == old(self)@.sources[j],
            decreases n - i,
        {
            let ghost pre = self.sources@;
            let ghost dv_pre = self.sources.deep_view();
            proof {
                assert(dv_pre == self@.sources);
                assert(forall|j: int| 0 <= j < n ==> #[trigger] dv_pre[j] == pre[j]@);
                assert(forall|j: int|
                    i <= j < n ==> #[trigger] dv_pre[j] == old(self)@.sources[j]);
            }
            let mut src = self.sources.remove(i);
            src.clear_new_entries_flag();
            self.sources.insert(i, src);
            proof {
                assert(self.sources@ =~= pre.update(i as int, src));
                assert(self.sources@[i as int] == src);
                assert(dv_pre[i as int] == pre[i as int]@);
                assert(src@ =~= (SourceModel {
                    has_new_entries: false,
                    ..old(self)@.sources[i as int]
                }));
                assert(forall|j: int|
                    0 <= j < n ==> #[trigger] self.sources.deep_view()[j] == self.sources@[j]@);
                assert forall|j: int| 0 <= j <= i implies #[trigger] self@.sources[j]
                    == (SourceModel {
                    has_new_entries: false,
                    ..old(self)@.sources[j]
                }) by {
                    assert(self@.sources[j] == self.sources@[j]@);
                    if j < i {
                        assert(self.sources@[j] == pre[j]);
                        assert(dv_pre[j] == pre[j]@);
                    }
                }
                assert forall|j: int| i + 1 <= j < n implies #[trigger] self@.sources[j] == old(
                    self,
                )@.sources[j] by {
                    assert(self@.sources[j] == self.sources@[j]@);
                    assert(self.sources@[j] == pre[j]);
                    assert(dv_pre[j] == pre[j]@);
                }
            }
            i = i + 1;
        }
        proof {
            assert(storage_wf(self@)) by {
                assert(forall|j: int|
                    0 <= j < n ==> (#[trigger] self@.sources[j]).name == old(
                        self,
                    )@.sources[j].name && source_wf(self@.sources[j]));
            }
        }
    }
}

} // verus!
