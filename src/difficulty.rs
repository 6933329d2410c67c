use vstd::prelude::*;

verus! {

broadcast use vstd::string::to_string_from_display_ensures_for_str;

/// Name that a default-constructed difficulty carries.
pub open spec fn default_name() -> Seq<char> {
    "Custom Difficulty"@
}

/// Placeholder description that every new difficulty starts with.
pub open spec fn default_description() -> Seq<char> {
    "Default Difficulty"@
}

/// The mathematical value of a difficulty: its two texts.
pub ghost struct DifficultyView {
    pub name: Seq<char>,
    pub description: Seq<char>,
}

/// One difficulty preset: a display name and a free-form description.
#[derive(Clone)]
pub struct Difficulty {
    pub name: String,
    pub description: String,
}

impl View for Difficulty {
    type V = DifficultyView;

    open spec fn view(&self) -> DifficultyView {
        DifficultyView { name: self.name@, description: self.description@ }
    }
}

impl Default for Difficulty {
    fn default() -> (r: Self)
        ensures
            r@.name == default_name(),
            r@.description == default_description(),
    {
        Self { name: "Custom Difficulty".to_string(), description: "Default Difficulty".to_string() }
    }
}

impl Difficulty {
    /// A difficulty called `new_name`, with the default description.
    pub fn from_name(new_name: &str) -> (r: Self)
        ensures
            r@.name == new_name@,
            r@.description == default_description(),
    {
        let mut diff = Difficulty::default();
        diff.name = new_name.to_string();
        diff
    }

    /// Overwrites the name in place and hands the same record back for chaining.
    pub fn with_name(&mut self, new_name: &str) -> (r: &mut Self)
        ensures
            r@.name == new_name@,
            r@.description == old(self)@.description,
            *final(self) == *final(r),
    {
        self.name = new_name.to_string();
        self
    }
}

} // verus!
