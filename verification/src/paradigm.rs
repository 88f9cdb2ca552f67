//! Inflection paradigms.
//!
//! A paradigm is the full inflection table a dictionary word belongs to:
//! one entry per form, each giving the prefix and suffix wrapped around the
//! common stem, and the grammatical tag of that form. Entry 0 is the lemma.

use crate::tag::OpencorporaTagReg;
use vstd::prelude::*;

verus! {

/// One inflected form of a paradigm.
#[derive(Clone, Debug)]
pub struct ParadigmEntry {
    /// The characters the form prepends to the stem.
    pub prefix: Vec<char>,
    /// The characters the form appends to the stem.
    pub suffix: Vec<char>,
    /// The grammatical tag of the form.
    pub tag: OpencorporaTagReg,
}

/// The mathematical image of one paradigm entry.
pub struct ParadigmEntryV {
    pub prefix: Seq<char>,
    pub suffix: Seq<char>,
    pub tag: Seq<char>,
}

impl View for ParadigmEntry {
    type V = ParadigmEntryV;

    open spec fn view(&self) -> ParadigmEntryV {
        ParadigmEntryV { prefix: self.prefix@, suffix: self.suffix@, tag: self.tag@ }
    }
}

/// An inflection table, identified elsewhere by its index in the registry.
#[derive(Clone, Debug)]
pub struct Paradigm {
    pub entries: Vec<ParadigmEntry>,
}

impl View for Paradigm {
    type V = Seq<ParadigmEntryV>;

    open spec fn view(&self) -> Seq<ParadigmEntryV> {
        self.entries@.map(|i: int, e: ParadigmEntry| e@)
    }
}

/// A paradigm is well formed when it has a lemma entry to fall back on.
pub open spec fn paradigm_wf(p: Seq<ParadigmEntryV>) -> bool {
    p.len() > 0
}

} // verus!
