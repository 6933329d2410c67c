//! Data model of a difficulty preset editor: the difficulty record, the
//! insertion-ordered registry of base presets, and the editor's own state.
pub mod difficulty;
pub mod editor;
pub mod registry;
