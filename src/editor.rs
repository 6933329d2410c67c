use vstd::prelude::*;

use crate::difficulty::{default_description, Difficulty, DifficultyView};
use crate::registry::{entry_views, keys_unique, lemma_lookup_entry, lookup, DifficultyRegistry};

verus! {

broadcast use vstd::string::to_string_from_display_ensures_for_str;

/// Name offered for a difficulty about to be created.
pub open spec fn default_new_name() -> Seq<char> {
    "New Difficulty"@
}

/// Base preset key selected before the user picks one.
pub open spec fn default_new_base() -> Seq<char> {
    "Haz5"@
}

/// Text shown for a selected base key that names no preset.
pub open spec fn no_selection_text() -> Seq<char> {
    "Select a difficulty"@
}

/// Keys of the built-in base presets, in order.
pub open spec fn base_keys() -> Seq<Seq<char>> {
    seq!["Hazard 1"@, "Hazard 2"@, "Hazard 3"@, "Hazard 4"@, "Hazard 5"@]
}

/// `s` holds exactly the built-in presets: one per base key, in order, each
/// named after its key and carrying the default description.
pub open spec fn is_base_seed(s: Seq<(Seq<char>, DifficultyView)>) -> bool {
    &&& s.len() == base_keys().len()
    &&& forall|i: int|
        0 <= i < s.len() ==> (#[trigger] s[i]).0 == base_keys()[i] && s[i].1.name == base_keys()[i]
            && s[i].1.description == default_description()
}

/// In the built-in presets each base key finds the preset of that name, with the
/// default description, and every other key finds nothing.
pub proof fn lemma_base_seed_lookup(s: Seq<(Seq<char>, DifficultyView)>, k: Seq<char>)
    requires
        is_base_seed(s),
    ensures
        keys_unique(s),
        base_keys().contains(k) ==> lookup(s, k) == Some(
            DifficultyView { name: k, description: default_description() },
        ),
        !base_keys().contains(k) ==> lookup(s, k) is None,
{
    reveal_strlit("Hazard 1");
    reveal_strlit("Hazard 2");
    reveal_strlit("Hazard 3");
    reveal_strlit("Hazard 4");
    reveal_strlit("Hazard 5");
    assert forall|i: int, j: int| 0 <= i < s.len() && 0 <= j < s.len() && i != j implies (
    #[trigger] s[i]).0 != (#[trigger] s[j]).0 by {
        assert(s[i].0[7] != s[j].0[7]);
    }
    if base_keys().contains(k) {
        let i = choose|i: int| 0 <= i < base_keys().len() && base_keys()[i] == k;
        assert(s[i].0 == k);
        lemma_lookup_entry(s, i);
    } else {
        assert forall|i: int| 0 <= i < s.len() implies (#[trigger] s[i]).0 != k by {
            assert(base_keys()[i] == s[i].0);
        }
    }
}

/// Iterating the built-in presets right after they are built yields five
/// entries keyed "Hazard 1" to "Hazard 5", in that order, each named after its key.
pub proof fn lemma_base_seed_entries(reg: DifficultyRegistry, listed: Seq<(String, Difficulty)>)
    requires
        is_base_seed(reg@),
        entry_views(listed) == reg@,
    ensures
        listed.len() == 5,
        forall|i: int|
            0 <= i < 5 ==> (#[trigger] listed[i]).0@ == base_keys()[i] && listed[i].1.name@
                == base_keys()[i],
{
    assert forall|i: int| 0 <= i < 5 implies (#[trigger] listed[i]).0@ == base_keys()[i]
        && listed[i].1.name@ == base_keys()[i] by {
        assert(entry_views(listed)[i] == reg@[i]);
    }
}

/// Whether the dark theme is used, given the flag found in storage (if any).
pub fn stored_dark_mode(stored: Option<bool>) -> (r: bool)
    ensures
        r == match stored {
            Some(b) => b,
            None => true,
        },
{
    stored.unwrap_or(true)
}

/// State of the difficulty editor.
pub struct DifficultyEditorApp {
    /// Name typed for the difficulty being created.
    pub new_difficulty_name: String,
    /// Key of the base preset chosen for the difficulty being created.
    pub new_difficulty_base: String,
    pub dark_mode_enabled: bool,
    pub project_open: bool,
    /// Presets a new difficulty can start from.
    pub base_difficulties: DifficultyRegistry,
}

impl Default for DifficultyEditorApp {
    fn default() -> (r: Self)
        ensures
            r.new_difficulty_name@ == default_new_name(),
            r.new_difficulty_base@ == default_new_base(),
            r.dark_mode_enabled,
            !r.project_open,
            is_base_seed(r.base_difficulties@),
    {
        Self {
            new_difficulty_name: "New Difficulty".to_string(),
            new_difficulty_base: "Haz5".to_string(),
            dark_mode_enabled: true,
            project_open: false,
            base_difficulties: Self::load_base_difficulties(),
        }
    }
}

impl DifficultyEditorApp {
    /// The editor state to start with: the one restored from storage, if any,
    /// else the default state.
    pub fn new(restored: Option<DifficultyEditorApp>) -> (r: Self)
        ensures
            match restored {
                Some(a) => r == a,
                None => {
                    &&& r.new_difficulty_name@ == default_new_name()
                    &&& r.new_difficulty_base@ == default_new_base()
                    &&& r.dark_mode_enabled
                    &&& !r.project_open
                    &&& is_base_seed(r.base_difficulties@)
                },
            },
    {
        match restored {
            Some(a) => a,
            None => Self::default(),
        }
    }

    /// Puts the name of the difficulty being created back to its default.
    pub fn reset_new_difficulty_modal(&mut self)
        ensures
            final(self).new_difficulty_name@ == default_new_name(),
            final(self).new_difficulty_base == old(self).new_difficulty_base,
            final(self).dark_mode_enabled == old(self).dark_mode_enabled,
            final(self).project_open == old(self).project_open,
            final(self).base_difficulties == old(self).base_difficulties,
    {
        self.new_difficulty_name = "New Difficulty".to_string();
    }

    /// The built-in base presets "Hazard 1" to "Hazard 5", in that order.
    pub fn load_base_difficulties() -> (r: DifficultyRegistry)
        ensures
            is_base_seed(r@),
    {
        proof {
            reveal_strlit("Hazard 1");
            reveal_strlit("Hazard 2");
            reveal_strlit("Hazard 3");
            reveal_strlit("Hazard 4");
            reveal_strlit("Hazard 5");
        }
        let mut map = DifficultyRegistry::new();
        map.insert("Hazard 1".to_string(), Difficulty::from_name("Hazard 1"));
        assert(map@[0].0[7] == '1');
        map.insert("Hazard 2".to_string(), Difficulty::from_name("Hazard 2"));
        assert(map@[0].0[7] == '1' && map@[1].0[7] == '2');
        map.insert("Hazard 3".to_string(), Difficulty::from_name("Hazard 3"));
        assert(map@[0].0[7] == '1' && map@[1].0[7] == '2' && map@[2].0[7] == '3');
        map.insert("Hazard 4".to_string(), Difficulty::from_name("Hazard 4"));
        assert(map@[0].0[7] == '1' && map@[1].0[7] == '2' && map@[2].0[7] == '3' && map@[3].0[7]
            == '4');
        map.insert("Hazard 5".to_string(), Difficulty::from_name("Hazard 5"));
        assert(map@ =~= seq![
            (base_keys()[0], DifficultyView { name: base_keys()[0], description: default_description() }),
            (base_keys()[1], DifficultyView { name: base_keys()[1], description: default_description() }),
            (base_keys()[2], DifficultyView { name: base_keys()[2], description: default_description() }),
            (base_keys()[3], DifficultyView { name: base_keys()[3], description: default_description() }),
            (base_keys()[4], DifficultyView { name: base_keys()[4], description: default_description() }),
        ]);
        map
    }

    /// Display text for the selected base preset: its name, or a placeholder
    /// when the selected key names no preset.
    pub fn selected_base_text(&self) -> (r: String)
        ensures
            r@ == match lookup(self.base_difficulties@, self.new_difficulty_base@) {
                Some(d) => d.name,
                None => no_selection_text(),
            },
    {
        match self.base_difficulties.get(self.new_difficulty_base.as_str()) {
            None => "Select a difficulty".to_string(),
            Some(difficulty) => difficulty.name.clone(),
        }
    }
}

} // verus!
