//! Runtime display settings: per-source visibility and the global metadata
//! toggles consulted by entry formatting and by the filter.
//!
//! Source names are keyed by their lower-cased form; a name that was never
//! configured counts as visible.

use vstd::prelude::*;
use crate::text::lower_of;
use crate::text::str_eq;
use crate::text::to_lower;

verus! {

broadcast use vstd::string::group_string_axioms;

/// Per-source configuration.
#[derive(Clone, Copy, PartialEq, Eq, Structural)]
pub struct SourceConfig {
    pub visible: bool,
}

/// Mathematical model of the runtime settings: the visibility map plus the
/// five global toggles.
#[verifier::ext_equal]
pub ghost struct SettingsModel {
    pub vis: Map<Seq<char>, bool>,
    pub show_time: bool,
    pub show_source_labels: bool,
    pub show_line_numbers: bool,
    pub show_file_type: bool,
    pub show_raw: bool,
}

/// Visibility of a named source under a visibility map: configured value if
/// present, visible otherwise.
pub open spec fn source_visible(vis: Map<Seq<char>, bool>, name: Seq<char>) -> bool {
    if vis.dom().contains(name) {
        vis[name]
    } else {
        true
    }
}

/// The map described by an association list, later entries winning.
pub open spec fn assoc_map(s: Seq<(String, SourceConfig)>) -> Map<Seq<char>, bool>
    decreases s.len(),
{
    if s.len() == 0 {
        Map::empty()
    } else {
        assoc_map(s.drop_last()).insert(s.last().0@, s.last().1.visible)
    }
}

/// Pairwise-distinct keys in an association list.
pub open spec fn unique_keys(s: Seq<(String, SourceConfig)>) -> bool {
    forall|i: int, j: int| 0 <= i < j < s.len() ==> (#[trigger] s[i]).0@ != (#[trigger] s[j]).0@
}

pub proof fn lemma_assoc_map_dom(s: Seq<(String, SourceConfig)>, k: Seq<char>)
    ensures
        assoc_map(s).dom().contains(k) <==> exists|i: int|
            0 <= i < s.len() && (#[trigger] s[i]).0@ == k,
    decreases s.len(),
{
    if s.len() > 0 {
        lemma_assoc_map_dom(s.drop_last(), k);
        if s.last().0@ == k {
            assert(s[s.len() - 1].0@ == k);
        } else if assoc_map(s).dom().contains(k) {
            let i = choose|i: int| 0 <= i < s.drop_last().len() && (#[trigger] s.drop_last()[i]).0@
                == k;
            assert(s[i].0@ == k);
        } else {
            assert forall|i: int| 0 <= i < s.len() implies (#[trigger] s[i]).0@ != k by {
                if i < s.len() - 1 {
                    assert(s.drop_last()[i] == s[i]);
                }
            }
        }
    }
}

pub proof fn lemma_assoc_map_lookup(s: Seq<(String, SourceConfig)>, i: int)
    requires
        unique_keys(s),
        0 <= i < s.len(),
    ensures
        assoc_map(s).dom().contains(s[i].0@),
        assoc_map(s)[s[i].0@] == s[i].1.visible,
    decreases s.len(),
{
    if i == s.len() - 1 {
    } else {
        assert(unique_keys(s.drop_last())) by {
            assert(forall|a: int, b: int|
                0 <= a < b < s.drop_last().len() ==> s.drop_last()[a] == s[a] && s.drop_last()[b]
                    == s[b]);
        }
        assert(s.drop_last()[i] == s[i]);
        lemma_assoc_map_lookup(s.drop_last(), i);
        assert(s[i].0@ != s.last().0@);
    }
}

/// The runtime settings: lazily grown per-source visibility plus the global
/// metadata toggles.
pub struct LogSettings {
    sources: Vec<(String, SourceConfig)>,
    show_time: bool,
    show_source_labels: bool,
    show_line_numbers: bool,
    show_file_type: bool,
    show_raw: bool,
}

impl View for LogSettings {
    type V = SettingsModel;

    closed spec fn view(&self) -> SettingsModel {
        SettingsModel {
            vis: assoc_map(self.sources@),
            show_time: self.show_time,
            show_source_labels: self.show_source_labels,
            show_line_numbers: self.show_line_numbers,
            show_file_type: self.show_file_type,
            show_raw: self.show_raw,
        }
    }
}

impl LogSettings {
    /// Internal consistency: every configured source name occurs once.
    pub closed spec fn wf(&self) -> bool {
        unique_keys(self.sources@)
    }

    fn find_source(&self, key: &String) -> (r: Option<usize>)
        ensures
            match r {
                Some(i) => i < self.sources@.len() && self.sources@[i as int].0@ == key@,
                None => forall|i: int|
                    0 <= i < self.sources@.len() ==> (#[trigger] self.sources@[i]).0@ != key@,
            },
    {
        let mut i: usize = 0;
        while i < self.sources.len()
            invariant
                0 <= i <= self.sources@.len(),
                forall|j: int| 0 <= j < i ==> (#[trigger] self.sources@[j]).0@ != key@,
            decreases self.sources@.len() - i,
        {
            if str_eq(self.sources[i].0.as_str(), key.as_str()) {
                return Some(i);
            }
            i = i + 1;
        }
        None
    }

    /// Looks up the configuration of a source, creating a visible one on
    /// first sight; the name is normalized to lower case.
    pub fn get_source_config(&mut self, name: &str) -> (cfg: SourceConfig)
        requires
            old(self).wf(),
        ensures
            final(self).wf(),
            cfg.visible == source_visible(old(self)@.vis, lower_of(name@)),
            final(self)@.vis == old(self)@.vis.insert(lower_of(name@), cfg.visible),
            final(self)@.show_time == old(self)@.show_time,
            final(self)@.show_source_labels == old(self)@.show_source_labels,
            final(self)@.show_line_numbers == old(self)@.show_line_numbers,
            final(self)@.show_file_type == old(self)@.show_file_type,
            final(self)@.show_raw == old(self)@.show_raw,
    {
        let key = to_lower(name);
        match self.find_source(&key) {
            Some(i) => {
                proof {
                    lemma_assoc_map_lookup(self.sources@, i as int);
                    assert(self@.vis =~= old(self)@.vis.insert(
                        lower_of(name@),
                        self.sources@[i as int].1.visible,
                    ));
                }
                self.sources[i].1
            },
            None => {
                let cfg = SourceConfig { visible: true };
                proof {
                    lemma_assoc_map_dom(self.sources@, key@);
                }
                self.sources.push((key, cfg));
                proof {
                    assert(self.sources@.drop_last() =~= old(self).sources@);
                    assert(forall|i: int, j: int|
                        0 <= i < j < self.sources@.len() && j < self.sources@.len() - 1 ==> (
                        #[trigger] self.sources@[i]).0@ != (#[trigger] self.sources@[j]).0@);
                }
                cfg
            },
        }
    }

    /// Sets the visibility of a named source, creating its entry if needed;
    /// the name is normalized to lower case.
    pub fn set_source_visibility(&mut self, name: &str, visible: bool)
        requires
            old(self).wf(),
        ensures
            final(self).wf(),
            final(self)@.vis == old(self)@.vis.insert(lower_of(name@), visible),
            final(self)@.show_time == old(self)@.show_time,
            final(self)@.show_source_labels == old(self)@.show_source_labels,
            final(self)@.show_line_numbers == old(self)@.show_line_numbers,
            final(self)@.show_file_type == old(self)@.show_file_type,
            final(self)@.show_raw == old(self)@.show_raw,
    {
        let key = to_lower(name);
        match self.find_source(&key) {
            Some(i) => {
                let stored = self.sources[i].0.clone();
                self.sources.set(i, (stored, SourceConfig { visible }));
                proof {
                    lemma_assoc_map_update(old(self).sources@, i as int, visible);
                }
            },
            None => {
                proof {
                    lemma_assoc_map_dom(self.sources@, key@);
                }
                self.sources.push((key, SourceConfig { visible }));
                proof {
                    assert(self.sources@.drop_last() =~= old(self).sources@);
                    assert(forall|i: int, j: int|
                        0 <= i < j < self.sources@.len() && j < self.sources@.len() - 1 ==> (
                        #[trigger] self.sources@[i]).0@ != (#[trigger] self.sources@[j]).0@);
                }
            },
        }
    }

    /// Whether a named source is visible; unseen names count as visible.
    pub fn is_source_visible(&self, name: &str) -> (r: bool)
        requires
            self.wf(),
        ensures
            r == source_visible(self@.vis, lower_of(name@)),
    {
        let key = to_lower(name);
        match self.find_source(&key) {
            Some(i) => {
                proof {
                    lemma_assoc_map_lookup(self.sources@, i as int);
                }
                self.sources[i].1.visible
            },
            None => {
                proof {
                    lemma_assoc_map_dom(self.sources@, key@);
                }
                true
            },
        }
    }

    /// Sets every configured source to the given visibility; sources never
    /// configured are unaffected (and so still count as visible).
    pub fn set_all_sources_visibility(&mut self, visible: bool)
        requires
            old(self).wf(),
        ensures
            final(self).wf(),
            final(self)@.vis.dom() == old(self)@.vis.dom(),
            forall|k: Seq<char>|
                final(self)@.vis.dom().contains(k) ==> #[trigger] final(self)@.vis[k] == visible,
            final(self)@.show_time == old(self)@.show_time,
            final(self)@.show_source_labels == old(self)@.show_source_labels,
            final(self)@.show_line_numbers == old(self)@.show_line_numbers,
            final(self)@.show_file_type == old(self)@.show_file_type,
            final(self)@.show_raw == old(self)@.show_raw,
    {
        let n = self.sources.len();
        let mut i: usize = 0;
        while i < n
            invariant
                0 <= i <= n,
                n == self.sources@.len(),
                self.wf(),
                self.sources@.len() == old(self).sources@.len(),
                forall|j: int|
                    0 <= j < n ==> (#[trigger] self.sources@[j]).0@ == old(self).sources@[j].0@,
                forall|j: int| 0 <= j < i ==> (#[trigger] self.sources@[j]).1.visible == visible,
                forall|j: int|
                    i <= j < n ==> (#[trigger] self.sources@[j]).1.visible
                        == old(self).sources@[j].1.visible,
                self.show_time == old(self).show_time,
                self.show_source_labels == old(self).show_source_labels,
                self.show_line_numbers == old(self).show_line_numbers,
                self.show_file_type == old(self).show_file_type,
                self.show_raw == old(self).show_raw,
            decreases n - i,
        {
            let stored = self.sources[i].0.clone();
            self.sources.set(i, (stored, SourceConfig { visible }));
            i = i + 1;
        }
        proof {
            lemma_assoc_map_same_keys(self.sources@, old(self).sources@);
            assert forall|k: Seq<char>| self@.vis.dom().contains(k) implies #[trigger] self@.vis[k]
                == visible by {
                lemma_assoc_map_dom(self.sources@, k);
                let j = choose|j: int|
                    0 <= j < self.sources@.len() && (#[trigger] self.sources@[j]).0@ == k;
                lemma_assoc_map_lookup(self.sources@, j);
            }
        }
    }
}

pub proof fn lemma_assoc_map_update(s: Seq<(String, SourceConfig)>, i: int, visible: bool)
    requires
        unique_keys(s),
        0 <= i < s.len(),
    ensures
        unique_keys(s.update(i, (s[i].0, SourceConfig { visible }))),
        assoc_map(s.update(i, (s[i].0, SourceConfig { visible }))) == assoc_map(s).insert(
            s[i].0@,
            visible,
        ),
    decreases s.len(),
{
    let t = s.update(i, (s[i].0, SourceConfig { visible }));
    assert(unique_keys(t)) by {
        assert(forall|a: int| 0 <= a < t.len() ==> (#[trigger] t[a]).0@ == s[a].0@);
    }
    if i == s.len() - 1 {
        assert(t.drop_last() =~= s.drop_last());
        assert(assoc_map(t) =~= assoc_map(s).insert(s[i].0@, visible));
    } else {
        assert(unique_keys(s.drop_last())) by {
            assert(forall|a: int|
                0 <= a < s.drop_last().len() ==> #[trigger] s.drop_last()[a] == s[a]);
        }
        lemma_assoc_map_update(s.drop_last(), i, visible);
        assert(t.drop_last() =~= s.drop_last().update(i, (s[i].0, SourceConfig { visible })));
        assert(t.last() == s.last());
        assert(s[i].0@ != s.last().0@);
        assert(assoc_map(t) == assoc_map(s.drop_last()).insert(s[i].0@, visible).insert(
            s.last().0@,
            s.last().1.visible,
        ));
        assert(assoc_map(s.drop_last()).insert(s[i].0@, visible).insert(
            s.last().0@,
            s.last().1.visible,
        ) =~= assoc_map(s).insert(s[i].0@, visible));
    }
}

pub proof fn lemma_assoc_map_same_keys(s: Seq<(String, SourceConfig)>, t: Seq<(String, SourceConfig)>)
    requires
        s.len() == t.len(),
        forall|j: int| 0 <= j < s.len() ==> (#[trigger] s[j]).0@ == t[j].0@,
    ensures
        assoc_map(s).dom() == assoc_map(t).dom(),
{
    assert forall|k: Seq<char>|
        assoc_map(s).dom().contains(k) <==> assoc_map(t).dom().contains(k) by {
        lemma_assoc_map_dom(s, k);
        lemma_assoc_map_dom(t, k);
        if assoc_map(s).dom().contains(k) {
            let i = choose|i: int| 0 <= i < s.len() && (#[trigger] s[i]).0@ == k;
            assert(t[i].0@ == k);
        }
        if assoc_map(t).dom().contains(k) {
            let i = choose|i: int| 0 <= i < t.len() && (#[trigger] t[i]).0@ == k;
            assert(s[i].0@ == k);
        }
    }
    assert(assoc_map(s).dom() =~= assoc_map(t).dom());
}


impl LogSettings {
    /// Whether formatted entries carry their timestamp.
    pub fn show_time(&self) -> (r: bool)
        ensures
            r == self@.show_time,
    {
        self.show_time
    }

    /// Whether formatted entries carry their source label.
    pub fn show_source_labels(&self) -> (r: bool)
        ensures
            r == self@.show_source_labels,
    {
        self.show_source_labels
    }

    /// Whether formatted entries carry their per-source line number.
    pub fn show_line_numbers(&self) -> (r: bool)
        ensures
            r == self@.show_line_numbers,
    {
        self.show_line_numbers
    }

    /// Whether formatted entries carry the structured-content indicator.
    pub fn show_file_type(&self) -> (r: bool)
        ensures
            r == self@.show_file_type,
    {
        self.show_file_type
    }

    /// Whether entries are displayed with their raw escape sequences.
    pub fn show_raw(&self) -> (r: bool)
        ensures
            r == self@.show_raw,
    {
        self.show_raw
    }

    /// The configured visibility entries, each source name once.
    pub fn visibility_pairs(&self) -> (r: &Vec<(String, SourceConfig)>)
        requires
            self.wf(),
        ensures
            unique_keys(r@),
            assoc_map(r@) == self@.vis,
    {
        &self.sources
    }

    /// Turns the timestamp column on or off.
    pub fn set_show_time(&mut self, b: bool)
        requires
            old(self).wf(),
        ensures
            final(self).wf(),
            final(self)@ == (SettingsModel { show_time: b, ..old(self)@ }),
    {
        self.show_time = b;
        proof {
            assert(self@ =~= (SettingsModel { show_time: b, ..old(self)@ }));
        }
    }

    /// Turns the source label column on or off.
    pub fn set_show_source_labels(&mut self, b: bool)
        requires
            old(self).wf(),
        ensures
            final(self).wf(),
            final(self)@ == (SettingsModel { show_source_labels: b, ..old(self)@ }),
    {
        self.show_source_labels = b;
        proof {
            assert(self@ =~= (SettingsModel { show_source_labels: b, ..old(self)@ }));
        }
    }

    /// Turns the line number column on or off.
    pub fn set_show_line_numbers(&mut self, b: bool)
        requires
            old(self).wf(),
        ensures
            final(self).wf(),
            final(self)@ == (SettingsModel { show_line_numbers: b, ..old(self)@ }),
    {
        self.show_line_numbers = b;
        proof {
            assert(self@ =~= (SettingsModel { show_line_numbers: b, ..old(self)@ }));
        }
    }

    /// Turns the structured-content indicator on or off.
    pub fn set_show_file_type(&mut self, b: bool)
        requires
            old(self).wf(),
        ensures
            final(self).wf(),
            final(self)@ == (SettingsModel { show_file_type: b, ..old(self)@ }),
    {
        self.show_file_type = b;
        proof {
            assert(self@ =~= (SettingsModel { show_file_type: b, ..old(self)@ }));
        }
    }

    /// Turns raw escape display on or off.
    pub fn set_show_raw(&mut self, b: bool)
        requires
            old(self).wf(),
        ensures
            final(self).wf(),
            final(self)@ == (SettingsModel { show_raw: b, ..old(self)@ }),
    {
        self.show_raw = b;
        proof {
            assert(self@ =~= (SettingsModel { show_raw: b, ..old(self)@ }));
        }
    }
}

impl Default for LogSettings {
    /// Fresh settings: stdout and stderr configured visible; timestamp and
    /// source label shown; line numbers, the structured-content indicator and
    /// raw escape display off.
    fn default() -> (r: Self)
        ensures
            r.wf(),
            r@.vis == Map::<Seq<char>, bool>::empty().insert("stdout"@, true).insert(
                "stderr"@,
                true,
            ),
            r@.show_time == true,
            r@.show_source_labels == true,
            r@.show_line_numbers == false,
            r@.show_file_type == false,
            r@.show_raw == false,
    {
        let mut sources: Vec<(String, SourceConfig)> = Vec::new();
        sources.push((String::from_str("stdout"), SourceConfig { visible: true }));
        sources.push((String::from_str("stderr"), SourceConfig { visible: true }));
        proof {
            reveal_strlit("stdout");
            reveal_strlit("stderr");
            assert("stdout"@ != "stderr"@) by {
                assert("stdout"@[3] != "stderr"@[3]);
            }
            assert(sources@.drop_last().drop_last() =~= Seq::<(String, SourceConfig)>::empty());
            assert(assoc_map(sources@.drop_last().drop_last()) =~= Map::<Seq<char>, bool>::empty());
            assert(assoc_map(sources@.drop_last()) =~= Map::<Seq<char>, bool>::empty().insert(
                "stdout"@,
                true,
            ));
            assert(assoc_map(sources@) =~= Map::<Seq<char>, bool>::empty().insert(
                "stdout"@,
                true,
            ).insert("stderr"@, true));
        }
        LogSettings {
            sources,
            show_time: true,
            show_source_labels: true,
            show_line_numbers: false,
            show_file_type: false,
            show_raw: false,
        }
    }
}


} // verus!
