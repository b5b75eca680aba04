//! The word-definition record produced by the parser and stored per
//! dictionary.

use vstd::prelude::*;

verus! {

/// One dictionary entry: a headword in both scripts, the pinyin syllables
/// aligned with the headword's characters, and the definitions in source
/// order.
#[derive(Debug)]
pub struct WordDef {
    pub simplified: String,
    pub traditional: String,
    pub pinyin: Vec<String>,
    pub defs: Vec<String>,
}

/// The mathematical shape of a `WordDef`: every field as a sequence of
/// characters, the two list fields as sequences of sequences.
pub struct WordDefView {
    pub simplified: Seq<char>,
    pub traditional: Seq<char>,
    pub pinyin: Seq<Seq<char>>,
    pub defs: Seq<Seq<char>>,
}

impl View for WordDef {
    type V = WordDefView;

    open spec fn view(&self) -> WordDefView {
        WordDefView {
            simplified: self.simplified@,
            traditional: self.traditional@,
            pinyin: self.pinyin.deep_view(),
            defs: self.defs.deep_view(),
        }
    }
}

impl DeepView for WordDef {
    type V = WordDefView;

    open spec fn deep_view(&self) -> WordDefView {
        self.view()
    }
}

} // verus!
