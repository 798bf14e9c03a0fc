//! The user's settings and the changes the settings window makes to them.
use vstd::prelude::*;
use crate::text::{lowercase_text, lowercased, owned, trim_text, trimmed};

verus! {

broadcast use vstd::string::group_string_axioms;

/// The settings kept in `settings.json`.
pub struct SettingsData {
    pub auto_start: bool,
    pub debug_mode: bool,
    pub blacklist_enabled: bool,
    pub blacklist_processes: Vec<String>,
    pub theme: String,
}

pub open spec fn texts_view(v: Seq<String>) -> Seq<Seq<char>> {
    v.map_values(|s: String| s@)
}

pub struct SettingsView {
    pub auto_start: bool,
    pub debug_mode: bool,
    pub blacklist_enabled: bool,
    pub blacklist_processes: Seq<Seq<char>>,
    pub theme: Seq<char>,
}

impl View for SettingsData {
    type V = SettingsView;

    open spec fn view(&self) -> SettingsView {
        SettingsView {
            auto_start: self.auto_start,
            debug_mode: self.debug_mode,
            blacklist_enabled: self.blacklist_enabled,
            blacklist_processes: texts_view(self.blacklist_processes@),
            theme: self.theme@,
        }
    }
}

/// The settings in force where the file is missing or unreadable: nothing
/// switched on, an empty blacklist, the dark theme.
pub open spec fn default_settings() -> SettingsView {
    SettingsView {
        auto_start: false,
        debug_mode: false,
        blacklist_enabled: false,
        blacklist_processes: Seq::empty(),
        theme: "dark"@,
    }
}

/// The theme used where none is set.
pub fn default_theme() -> (r: String)
    ensures
        r@ == "dark"@,
{
    owned("dark")
}

/// The blacklist used where none is set.
pub fn default_blacklist_processes() -> (r: Vec<String>)
    ensures
        r@.len() == 0,
{
    Vec::new()
}

impl Default for SettingsData {
    fn default() -> (r: Self)
        ensures
            r@ == default_settings(),
    {
        let r = SettingsData {
            auto_start: false,
            debug_mode: false,
            blacklist_enabled: false,
            blacklist_processes: default_blacklist_processes(),
            theme: default_theme(),
        };
        assert(texts_view(r.blacklist_processes@) =~= Seq::<Seq<char>>::empty());
        r
    }
}

/// A process name as the blacklist keeps it: trimmed, then lower-cased; none
/// where nothing is left.
pub open spec fn normalized_entry(p: String) -> Option<Seq<char>> {
    let t = lowercased(trimmed(p@));
    if t.len() > 0 {
        Some(t)
    } else {
        None
    }
}

/// The blacklist as saved: each entry trimmed and lower-cased, empty entries
/// left out, the order kept.
pub open spec fn normalized_blacklist(processes: Seq<String>) -> Seq<Seq<char>> {
    processes.filter_map(|p: String| normalized_entry(p))
}

/// The blacklist as saved from the entries the user typed. An entry is left
/// out exactly when it is blank: nothing but white space.
pub fn normalize_blacklist(processes: &Vec<String>) -> (r: Vec<String>)
    ensures
        texts_view(r@) == normalized_blacklist(processes@),
        forall|i: int|
            0 <= i < processes@.len() ==> (#[trigger] normalized_entry(processes@[i]) is Some
                <==> trimmed(processes@[i]@).len() > 0),
{
    let n = processes.len();
    let mut r: Vec<String> = Vec::new();
    let mut i: usize = 0;
    while i < n
        invariant
            n == processes@.len(),
            i <= n,
            texts_view(r@) == processes@.take(i as int).filter_map(
                |p: String| normalized_entry(p),
            ),
            forall|j: int|
                0 <= j < i ==> (#[trigger] normalized_entry(processes@[j]) is Some
                    <==> trimmed(processes@[j]@).len() > 0),
        decreases n - i,
    {
        let t = lowercase_text(trim_text(processes[i].as_str()));
        proof {
            processes@.lemma_filter_map_take_succ(|p: String| normalized_entry(p), i as int);
        }
        if !t.as_str().is_empty() {
            let ghost before = r@;
            r.push(t);
            assert(texts_view(r@) =~= texts_view(before) + seq![t@]);
        }
        i = i + 1;
    }
    assert(processes@.take(n as int) =~= processes@);
    r
}

/// Law: the saved blacklist holds no empty entry, and no more entries than
/// were typed.
pub proof fn law_saved_blacklist_entries_nonempty(processes: Seq<String>)
    ensures
        forall|i: int|
            0 <= i < normalized_blacklist(processes).len() ==> #[trigger] normalized_blacklist(
                processes,
            )[i].len() > 0,
        normalized_blacklist(processes).len() <= processes.len(),
    decreases processes.len(),
{
    if processes.len() > 0 {
        let rest = processes.drop_last();
        law_saved_blacklist_entries_nonempty(rest);
        assert(normalized_blacklist(processes) == match normalized_entry(processes.last()) {
            Some(t) => normalized_blacklist(rest) + seq![t],
            None => normalized_blacklist(rest),
        });
    }
}

impl SettingsData {
    /// The change of "start with Windows" that the settings window saves:
    /// none leaves the settings as they are.
    pub fn apply_auto_start_choice(&mut self, auto_start: Option<bool>)
        ensures
            final(self)@ == (match auto_start {
                Some(a) => SettingsView { auto_start: a, ..old(self)@ },
                None => old(self)@,
            }),
    {
        if let Some(a) = auto_start {
            self.auto_start = a;
        }
    }

    /// Switches debug mode (the capsule then always takes clicks).
    pub fn set_debug_mode(&mut self, enabled: bool)
        ensures
            final(self)@ == (SettingsView { debug_mode: enabled, ..old(self)@ }),
    {
        self.debug_mode = enabled;
    }

    /// Switches "start with Windows".
    pub fn set_auto_start(&mut self, enabled: bool)
        ensures
            final(self)@ == (SettingsView { auto_start: enabled, ..old(self)@ }),
    {
        self.auto_start = enabled;
    }

    /// Switches the blacklist on or off.
    pub fn set_blacklist_enabled(&mut self, enabled: bool)
        ensures
            final(self)@ == (SettingsView { blacklist_enabled: enabled, ..old(self)@ }),
    {
        self.blacklist_enabled = enabled;
    }

    /// Saves the blacklist the user typed, normalized.
    pub fn save_blacklist(&mut self, processes: &Vec<String>)
        ensures
            final(self)@ == (SettingsView {
                blacklist_processes: normalized_blacklist(processes@),
                ..old(self)@
            }),
    {
        self.blacklist_processes = normalize_blacklist(processes);
    }

    /// Saves the theme.
    pub fn save_theme(&mut self, theme: String)
        ensures
            final(self)@ == (SettingsView { theme: theme@, ..old(self)@ }),
    {
        self.theme = theme;
    }
}

} // verus!
