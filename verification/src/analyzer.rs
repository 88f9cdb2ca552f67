//! The analyzer: the shared read-only registry (paradigms plus the
//! dictionary snapshot and unit tags) and the capability operations that
//! need it: tag lookup, normal-form rendering and lexeme enumeration.

use crate::lex::Lex;
use crate::paradigm::{Paradigm, ParadigmEntryV};
use crate::stack::{
    source_word, SourceV, StackAffix, StackAffixV, StackHyphenated,
    StackHyphenatedV, StackSource, Unknown,
};
use crate::score::SCORE_SCALE;
use crate::tag::OpencorporaTagReg;
use crate::text::{clone_chars, copy_range, push_chars};
use crate::units::{
    DictionaryAnalyzer, LatinAnalyzer, NumberAnalyzer, PunctuationAnalyzer, RomanAnalyzer,
    UnknownAnalyzer, UnknownPrefixAnalyzer,
};
use vstd::prelude::*;

verus! {

/// One word of the dictionary snapshot: a surface form, its paradigm
/// identity, and its corpus-derived score in millionths.
#[derive(Clone, Debug)]
pub struct DictEntry {
    pub word_lower: Vec<char>,
    pub para_id: usize,
    pub idx: usize,
    pub score: u64,
}

/// The mathematical image of one dictionary word.
pub struct DictEntryV {
    pub word: Seq<char>,
    pub para_id: int,
    pub idx: int,
    pub score: u64,
}

impl View for DictEntry {
    type V = DictEntryV;

    open spec fn view(&self) -> DictEntryV {
        DictEntryV {
            word: self.word_lower@,
            para_id: self.para_id as int,
            idx: self.idx as int,
            score: self.score,
        }
    }
}

/// The ordered list of analyzer units, each owning the tags it assigns.
#[derive(Clone, Debug)]
pub struct Units {
    pub dictionary: DictionaryAnalyzer,
    pub unknown_prefix: UnknownPrefixAnalyzer,
    pub latin: LatinAnalyzer,
    pub number: NumberAnalyzer,
    pub punctuation: PunctuationAnalyzer,
    pub roman: RomanAnalyzer,
    pub unknown: UnknownAnalyzer,
}

/// The analyzer: immutable shared state handed by reference to every parse
/// call.
#[derive(Clone, Debug)]
pub struct MorphAnalyzer {
    pub paradigms: Vec<Paradigm>,
    pub units: Units,
    pub particle_tag: OpencorporaTagReg,
}

/// The mathematical image of the analyzer.
pub struct MorphV {
    pub paradigms: Seq<Seq<ParadigmEntryV>>,
    pub dict: Seq<DictEntryV>,
    pub decay: u64,
    pub tag_latin: Seq<char>,
    pub tag_numb_int: Seq<char>,
    pub tag_numb_real: Seq<char>,
    pub tag_pnct: Seq<char>,
    pub tag_romn: Seq<char>,
    pub tag_unkn: Seq<char>,
    pub tag_prcl: Seq<char>,
}

impl View for MorphAnalyzer {
    type V = MorphV;

    open spec fn view(&self) -> MorphV {
        MorphV {
            paradigms: self.paradigms@.map(|i: int, p: Paradigm| p@),
            dict: self.units.dictionary.entries@.map(|i: int, e: DictEntry| e@),
            decay: self.units.unknown_prefix.estimate_decay,
            tag_latin: self.units.latin.tag@,
            tag_numb_int: self.units.number.tag_int@,
            tag_numb_real: self.units.number.tag_real@,
            tag_pnct: self.units.punctuation.tag@,
            tag_romn: self.units.roman.tag@,
            tag_unkn: self.units.unknown.tag@,
            tag_prcl: self.particle_tag@,
        }
    }
}

/// A dictionary node fits the registry: its identifiers are in range and
/// its surface form carries the prefix and suffix of its paradigm entry
/// around the stem.
pub open spec fn dict_node_wf(word: Seq<char>, para_id: int, idx: int, m: MorphV) -> bool {
    &&& 0 <= para_id < m.paradigms.len()
    &&& 0 <= idx < m.paradigms[para_id].len()
    &&& {
        let e = m.paradigms[para_id][idx];
        &&& word.len() >= e.prefix.len() + e.suffix.len()
        &&& word.subrange(0, e.prefix.len() as int) == e.prefix
        &&& word.subrange(word.len() - e.suffix.len(), word.len() as int) == e.suffix
    }
}

/// A terminal source fits the registry.
pub open spec fn source_wf(s: SourceV, m: MorphV) -> bool {
    match s {
        SourceV::Dictionary { word, para_id, idx } => dict_node_wf(word, para_id, idx, m),
        _ => true,
    }
}

/// An affix stack fits the registry.
pub open spec fn affix_stack_wf(a: StackAffixV, m: MorphV) -> bool {
    source_wf(a.stack, m)
}

/// A whole stack fits the registry.
pub open spec fn stack_wf(h: StackHyphenatedV, m: MorphV) -> bool {
    &&& affix_stack_wf(h.left, m)
    &&& match h.right {
        None => true,
        Some(r) => affix_stack_wf(r, m),
    }
}

/// One dictionary word fits the registry and carries a positive in-range
/// score.
pub open spec fn dict_entry_wf(e: DictEntryV, m: MorphV) -> bool {
    &&& dict_node_wf(e.word, e.para_id, e.idx, m)
    &&& 0 < e.score <= SCORE_SCALE
}

/// The analyzer is well formed: every paradigm has a lemma entry, every
/// dictionary word fits, and the by-analogy decay is a factor of at most
/// one.
pub open spec fn morph_wf(m: MorphV) -> bool {
    &&& forall|p: int| 0 <= p < m.paradigms.len() ==> (#[trigger] m.paradigms[p]).len() > 0
    &&& forall|i: int| 0 <= i < m.dict.len() ==> dict_entry_wf(#[trigger] m.dict[i], m)
    &&& 0 < m.decay <= SCORE_SCALE
}

impl MorphAnalyzer {
    /// The analyzer is well formed.
    pub open spec fn wf(&self) -> bool {
        morph_wf(self@)
    }
}

// ---------------------------------------------------------------------------
// Rendering against the registry
// ---------------------------------------------------------------------------
/// The stem of a dictionary word: the surface form minus its entry's
/// prefix and suffix.
pub open spec fn stem_of(word: Seq<char>, e: ParadigmEntryV) -> Seq<char> {
    word.subrange(e.prefix.len() as int, word.len() - e.suffix.len())
}

/// The surface form of a paradigm entry around a stem.
pub open spec fn form_of(stem: Seq<char>, e: ParadigmEntryV) -> Seq<char> {
    e.prefix + stem + e.suffix
}

/// The canonical form of a terminal source: a dictionary word maps to form
/// zero of its paradigm; every other source is its own canonical form.
pub open spec fn source_normal(s: SourceV, m: MorphV) -> Seq<char> {
    match s {
        SourceV::Dictionary { word, para_id, idx } => {
            let e = m.paradigms[para_id][idx];
            let e0 = m.paradigms[para_id][0];
            form_of(stem_of(word, e), e0)
        },
        _ => source_word(s),
    }
}

/// The canonical form of an affix stack: the affix stays attached on its
/// side.
pub open spec fn affix_normal(a: StackAffixV, m: MorphV) -> Seq<char> {
    match a.affix {
        None => source_normal(a.stack, m),
        Some(af) => match af.kind {
            crate::stack::AffixKind::KnownSuffix => source_normal(a.stack, m) + af.part,
            _ => af.part + source_normal(a.stack, m),
        },
    }
}

/// The canonical form of a whole stack.
pub open spec fn hyph_normal(h: StackHyphenatedV, m: MorphV) -> Seq<char> {
    match h.right {
        None => affix_normal(h.left, m),
        Some(r) => affix_normal(h.left, m) + seq!['-'] + affix_normal(r, m),
    }
}

/// The grammatical tag of a terminal source.
pub open spec fn source_tag(s: SourceV, m: MorphV) -> Seq<char> {
    match s {
        SourceV::Dictionary { para_id, idx, .. } => m.paradigms[para_id][idx].tag,
        SourceV::Shaped { kind, .. } => match kind {
            crate::stack::ShapeKind::Latin => m.tag_latin,
            crate::stack::ShapeKind::Number { is_float } => if is_float {
                m.tag_numb_real
            } else {
                m.tag_numb_int
            },
            crate::stack::ShapeKind::Punctuation => m.tag_pnct,
            crate::stack::ShapeKind::RomanNumber => m.tag_romn,
        },
        SourceV::Unknown { .. } => m.tag_unkn,
        SourceV::Particle { .. } => m.tag_prcl,
    }
}

/// The lexeme of a stack: one entry per form of the left source's
/// paradigm, the affix kept, the right half dropped; a source with no
/// paradigm is its own single-form lexeme.
pub open spec fn lexeme_views(h: StackHyphenatedV, m: MorphV) -> Seq<StackHyphenatedV> {
    match h.left.stack {
        SourceV::Dictionary { word, para_id, idx } => Seq::new(
            m.paradigms[para_id].len(),
            |i: int|
                StackHyphenatedV {
                    left: StackAffixV {
                        stack: SourceV::Dictionary {
                            word: form_of(
                                stem_of(word, m.paradigms[para_id][idx]),
                                m.paradigms[para_id][i],
                            ),
                            para_id,
                            idx: i,
                        },
                        affix: h.left.affix,
                    },
                    right: None,
                },
        ),
        _ => seq![StackHyphenatedV { left: h.left, right: None }],
    }
}

impl StackSource {
    /// Streams the canonical form into `out`.
    pub fn write_normal_form(&self, morph: &MorphAnalyzer, out: &mut Vec<char>)
        requires
            source_wf(self@, morph@),
        ensures
            final(out)@ == old(out)@ + source_normal(self@, morph@),
    {
        match self {
            StackSource::Dictionary(d) => {
                proof {
                    assert(morph@.paradigms[d.para_id as int] == morph.paradigms@[d.para_id as int]@);
                }
                let para = &morph.paradigms[d.para_id];
                proof {
                    assert(para@[d.idx as int] == para.entries@[d.idx as int]@);
                    assert(para@[0] == para.entries@[0]@);
                }
                let e = &para.entries[d.idx];
                let e0 = &para.entries[0];
                let start = e.prefix.len();
                let end = d.word_lower.len() - e.suffix.len();
                proof {
                    assert(e@.prefix.len() + e@.suffix.len() <= d.word_lower@.len());
                }
                push_chars(out, &e0.prefix);
                let stem = copy_range(&d.word_lower, start, end);
                push_chars(out, &stem);
                push_chars(out, &e0.suffix);
                proof {
                    assert(out@ =~= old(out)@ + source_normal(self@, morph@));
                }
            },
            StackSource::Shaped(s) => push_chars(out, &s.word_lower),
            StackSource::Unknown(u) => push_chars(out, &u.word_lower),
            StackSource::HyphenSeparatedParticle(p) => push_chars(out, &p.particle),
        }
    }

    /// The grammatical tag of this source.
    pub fn get_tag<'m>(&self, morph: &'m MorphAnalyzer) -> (r: &'m OpencorporaTagReg)
        requires
            source_wf(self@, morph@),
        ensures
            r@ == source_tag(self@, morph@),
    {
        match self {
            StackSource::Dictionary(d) => {
                proof {
                    assert(morph@.paradigms[d.para_id as int] == morph.paradigms@[d.para_id as int]@);
                    assert(morph.paradigms@[d.para_id as int]@[d.idx as int]
                        == morph.paradigms@[d.para_id as int].entries@[d.idx as int]@);
                }
                &morph.paradigms[d.para_id].entries[d.idx].tag
            },
            StackSource::Shaped(s) => match s.kind {
                crate::stack::ShapeKind::Latin => &morph.units.latin.tag,
                crate::stack::ShapeKind::Number { is_float } => if is_float {
                    &morph.units.number.tag_real
                } else {
                    &morph.units.number.tag_int
                },
                crate::stack::ShapeKind::Punctuation => &morph.units.punctuation.tag,
                crate::stack::ShapeKind::RomanNumber => &morph.units.roman.tag,
            },
            StackSource::Unknown(_) => &morph.units.unknown.tag,
            StackSource::HyphenSeparatedParticle(_) => &morph.particle_tag,
        }
    }
}

impl StackAffix {
    /// Streams the canonical form, affix attached, into `out`.
    pub fn write_normal_form(&self, morph: &MorphAnalyzer, out: &mut Vec<char>)
        requires
            affix_stack_wf(self@, morph@),
        ensures
            final(out)@ == old(out)@ + affix_normal(self@, morph@),
    {
        match &self.affix {
            None => self.stack.write_normal_form(morph, out),
            Some(af) => match af.kind {
                crate::stack::AffixKind::KnownSuffix => {
                    self.stack.write_normal_form(morph, out);
                    push_chars(out, &af.part);
                },
                _ => {
                    push_chars(out, &af.part);
                    self.stack.write_normal_form(morph, out);
                },
            },
        }
    }

    /// The grammatical tag of the wrapped source.
    pub fn get_tag<'m>(&self, morph: &'m MorphAnalyzer) -> (r: &'m OpencorporaTagReg)
        requires
            affix_stack_wf(self@, morph@),
        ensures
            r@ == source_tag(self@.stack, morph@),
    {
        self.stack.get_tag(morph)
    }
}

impl StackHyphenated {
    /// Streams the canonical form into `out`; the halves of a compound are
    /// joined by a hyphen.
    pub fn write_normal_form(&self, morph: &MorphAnalyzer, out: &mut Vec<char>)
        requires
            stack_wf(self@, morph@),
        ensures
            final(out)@ == old(out)@ + hyph_normal(self@, morph@),
    {
        self.left.write_normal_form(morph, out);
        if let Some(right) = &self.right {
            out.push('-');
            right.write_normal_form(morph, out);
        }
    }

    /// The canonical form as a fresh vector.
    pub fn get_normal_form(&self, morph: &MorphAnalyzer) -> (r: Vec<char>)
        requires
            stack_wf(self@, morph@),
        ensures
            r@ == hyph_normal(self@, morph@),
    {
        let mut out: Vec<char> = Vec::new();
        self.write_normal_form(morph, &mut out);
        out
    }

    /// The grammatical tag. Defined only while the right half is absent: a
    /// two-sided compound has no single tag, and the query reports that as
    /// `None` rather than guessing a merged one.
    pub fn get_tag<'m>(&self, morph: &'m MorphAnalyzer) -> (r: Option<&'m OpencorporaTagReg>)
        requires
            stack_wf(self@, morph@),
        ensures
            match self@.right {
                Some(_) => r is None,
                None => r is Some && r->0@ == source_tag(self@.left.stack, morph@),
            },
    {
        match &self.right {
            Some(_) => None,
            None => Some(self.left.get_tag(morph)),
        }
    }

    /// All inflected forms sharing this stack's paradigm, each wrapped as
    /// a fresh candidate.
    pub fn get_lexeme(&self, morph: &MorphAnalyzer) -> (r: Vec<Lex>)
        requires
            stack_wf(self@, morph@),
        ensures
            r@.map(|i: int, l: Lex| l@) == lexeme_views(self@, morph@),
    {
        match &self.left.stack {
            StackSource::Dictionary(d) => {
                proof {
                    assert(morph@.paradigms[d.para_id as int] == morph.paradigms@[d.para_id as int]@);
                }
                let para = &morph.paradigms[d.para_id];
                proof {
                    assert(para@[d.idx as int] == para.entries@[d.idx as int]@);
                }
                let e = &para.entries[d.idx];
                let start = e.prefix.len();
                let end = d.word_lower.len() - e.suffix.len();
                let stem = copy_range(&d.word_lower, start, end);
                let mut r: Vec<Lex> = Vec::new();
                let mut i: usize = 0;
                while i < para.entries.len()
                    invariant
                        i <= para.entries@.len(),
                        stem@ == stem_of(d.word_lower@, para@[d.idx as int]),
                        dict_node_wf(d.word_lower@, d.para_id as int, d.idx as int, morph@),
                        morph@.paradigms[d.para_id as int] == para@,
                        self@.left.stack == (SourceV::Dictionary {
                            word: d.word_lower@,
                            para_id: d.para_id as int,
                            idx: d.idx as int,
                        }),
                        r@.len() == i,
                        forall|j: int|
                            0 <= j < i ==> (#[trigger] r@[j])@ == lexeme_views(self@, morph@)[j],
                    decreases para.entries@.len() - i,
                {
                    proof {
                        assert(para@[i as int] == para.entries@[i as int]@);
                    }
                    let ei = &para.entries[i];
                    let mut w: Vec<char> = Vec::new();
                    push_chars(&mut w, &ei.prefix);
                    push_chars(&mut w, &stem);
                    push_chars(&mut w, &ei.suffix);
                    let node = StackSource::Dictionary(
                        crate::stack::DictionaryNode {
                            word_lower: w,
                            para_id: d.para_id,
                            idx: i,
                        },
                    );
                    let left = StackAffix {
                        stack: node,
                        affix: match &self.left.affix {
                            Some(af) => Some(af.duplicate()),
                            None => None,
                        },
                    };
                    r.push(Lex { stack: StackHyphenated { left, right: None } });
                    proof {
                        assert(w@ =~= form_of(
                            stem_of(d.word_lower@, para@[d.idx as int]),
                            para@[i as int],
                        ));
                        assert(lexeme_views(self@, morph@)[i as int] == StackHyphenatedV {
                            left: StackAffixV {
                                stack: SourceV::Dictionary {
                                    word: form_of(
                                        stem_of(d.word_lower@, para@[d.idx as int]),
                                        para@[i as int],
                                    ),
                                    para_id: d.para_id as int,
                                    idx: i as int,
                                },
                                affix: self@.left.affix,
                            },
                            right: None,
                        });
                        assert(r@[i as int]@ == lexeme_views(self@, morph@)[i as int]);
                    }
                    i += 1;
                }
                proof {
                    assert(r@.map(|j: int, l: Lex| l@) =~= lexeme_views(self@, morph@));
                }
                r
            },
            _ => {
                let left = self.left.duplicate();
                let mut r: Vec<Lex> = Vec::new();
                r.push(Lex { stack: StackHyphenated { left, right: None } });
                proof {
                    assert(r@.map(|j: int, l: Lex| l@) =~= lexeme_views(self@, morph@));
                }
                r
            },
        }
    }

    /// The canonical candidate: the first element of the lexeme.
    pub fn get_lemma(&self, morph: &MorphAnalyzer) -> (r: Lex)
        requires
            stack_wf(self@, morph@),
            morph.wf(),
        ensures
            r@ == lexeme_views(self@, morph@)[0],
    {
        let mut lexeme = self.get_lexeme(morph);
        proof {
            assert(lexeme@.map(|i: int, l: Lex| l@).len() > 0);
            assert(lexeme@.map(|i: int, l: Lex| l@)[0] == lexeme@[0]@);
        }
        lexeme.remove(0)
    }

    /// All inflected forms sharing this stack's paradigm.
    pub fn iter_lexeme(&self, morph: &MorphAnalyzer) -> (r: Vec<Lex>)
        requires
            stack_wf(self@, morph@),
        ensures
            r@.map(|i: int, l: Lex| l@) == lexeme_views(self@, morph@),
    {
        self.get_lexeme(morph)
    }
}

impl Unknown {
    /// Wraps a lowercase word nothing else could interpret.
    pub fn new(word_lower: Vec<char>) -> (r: Unknown)
        ensures
            r.word_lower@ == word_lower@,
    {
        Unknown { word_lower }
    }

    /// The single-form lexeme of an unknown word: itself.
    pub fn iter_lexeme(&self, _morph: &MorphAnalyzer) -> (r: Vec<Lex>)
        ensures
            r@.len() == 1,
            r@[0]@ == (StackHyphenatedV {
                left: StackAffixV {
                    stack: SourceV::Unknown { word: self.word_lower@ },
                    affix: None,
                },
                right: None,
            }),
    {
        let node = StackSource::Unknown(Unknown { word_lower: clone_chars(&self.word_lower) });
        let mut r: Vec<Lex> = Vec::new();
        r.push(Lex { stack: StackHyphenated { left: StackAffix { stack: node, affix: None }, right: None } });
        r
    }
}

impl Lex {
    /// The grammatical tag, absent for a two-sided compound.
    pub fn get_tag<'m>(&self, morph: &'m MorphAnalyzer) -> (r: Option<&'m OpencorporaTagReg>)
        requires
            stack_wf(self@, morph@),
        ensures
            match self@.right {
                Some(_) => r is None,
                None => r is Some && r->0@ == source_tag(self@.left.stack, morph@),
            },
    {
        self.stack.get_tag(morph)
    }

    /// The canonical form as a fresh vector.
    pub fn get_normal_form(&self, morph: &MorphAnalyzer) -> (r: Vec<char>)
        requires
            stack_wf(self@, morph@),
        ensures
            r@ == hyph_normal(self@, morph@),
    {
        self.stack.get_normal_form(morph)
    }

    /// All inflected forms sharing this candidate's paradigm.
    pub fn get_lexeme(&self, morph: &MorphAnalyzer) -> (r: Vec<Lex>)
        requires
            stack_wf(self@, morph@),
        ensures
            r@.map(|i: int, l: Lex| l@) == lexeme_views(self@, morph@),
    {
        self.stack.get_lexeme(morph)
    }

    /// The canonical candidate: the first element of the lexeme.
    pub fn get_lemma(&self, morph: &MorphAnalyzer) -> (r: Lex)
        requires
            stack_wf(self@, morph@),
            morph.wf(),
        ensures
            r@ == lexeme_views(self@, morph@)[0],
    {
        self.stack.get_lemma(morph)
    }
}

/// Hyphen pass-through, registry side: a one-sided stack renders the same
/// canonical form and carries the same tag as its bare left half.
pub proof fn lemma_hyphen_passthrough_registry(h: StackHyphenatedV, m: MorphV)
    requires
        h.right is None,
    ensures
        hyph_normal(h, m) == affix_normal(h.left, m),
        source_tag(h.left.stack, m) == source_tag(
            (StackHyphenatedV { left: h.left, right: None }).left.stack,
            m,
        ),
{
}

} // verus!
