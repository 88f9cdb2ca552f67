//! The derivation stack: the recursive record of how one candidate
//! interpretation of a word was built.
//!
//! A stack is a closed set of node kinds. A terminal source is a direct
//! dictionary match, a shape-classified token, an unknown word, or a
//! hyphen-separated particle. An affix node wraps one source together with
//! an optional affix descriptor. A hyphenated node combines a left affix
//! stack with an optional right one; with no right half it is a transparent
//! pass-through to its left half.
//!
//! Every node owns its children exclusively, so stacks are finite and
//! acyclic by construction. Each exec type has a mathematical view used by
//! all contracts.

use crate::score::{Score, SCORE_SCALE};
use crate::text::{clone_chars, push_chars};
use vstd::prelude::*;

verus! {

/// The score fabricated for shape-classified tokens and particles.
pub const SHAPE_SCORE: u64 = 900_000;

/// How a shape-classified token was recognized.
#[derive(Clone, Copy, Debug, PartialEq, Eq, Structural)]
pub enum ShapeKind {
    /// Latin-script text.
    Latin,
    /// A numeric literal; `is_float` distinguishes a real from an integer.
    Number { is_float: bool },
    /// Punctuation characters only.
    Punctuation,
    /// A Roman numeral.
    RomanNumber,
}

/// The kind of an affix wrapped around a sub-parse.
#[derive(Clone, Copy, Debug, PartialEq, Eq, Structural)]
pub enum AffixKind {
    /// A prefix listed in the analyzer's prefix inventory.
    KnownPrefix,
    /// A prefix guessed by the by-analogy unit.
    UnknownPrefix,
    /// A suffix guessed or stripped during lookup.
    KnownSuffix,
}

/// A direct hit in the dictionary automaton: the surface form plus the
/// identifiers needed to recover its tag and paradigm from the registry.
#[derive(Clone, Debug)]
pub struct DictionaryNode {
    pub word_lower: Vec<char>,
    pub para_id: usize,
    pub idx: usize,
}

/// A token classified by surface shape rather than by lookup.
#[derive(Clone, Debug)]
pub struct Shaped {
    pub word_lower: Vec<char>,
    pub kind: ShapeKind,
}

/// A word no unit could say anything about.
#[derive(Clone, Debug)]
pub struct Unknown {
    pub word_lower: Vec<char>,
}

/// A particle split off a hyphenated token.
#[derive(Clone, Debug)]
pub struct HyphenSeparatedParticle {
    pub particle: Vec<char>,
}

/// A terminal derivation source.
#[derive(Clone, Debug)]
pub enum StackSource {
    Dictionary(DictionaryNode),
    Shaped(Shaped),
    Unknown(Unknown),
    HyphenSeparatedParticle(HyphenSeparatedParticle),
}

/// An affix descriptor: its kind and literal text.
#[derive(Clone, Debug)]
pub struct Affix {
    pub part: Vec<char>,
    pub kind: AffixKind,
}

/// A source optionally wrapped by one affix.
#[derive(Clone, Debug)]
pub struct StackAffix {
    pub stack: StackSource,
    pub affix: Option<Affix>,
}

/// The top of every derivation stack: a left affix stack and, for a
/// hyphen compound, a right one.
#[derive(Clone, Debug)]
pub struct StackHyphenated {
    pub left: StackAffix,
    pub right: Option<StackAffix>,
}

/// The mathematical image of a terminal source.
pub enum SourceV {
    Dictionary { word: Seq<char>, para_id: int, idx: int },
    Shaped { word: Seq<char>, kind: ShapeKind },
    Unknown { word: Seq<char> },
    Particle { particle: Seq<char> },
}

/// The mathematical image of an affix descriptor.
pub struct AffixV {
    pub part: Seq<char>,
    pub kind: AffixKind,
}

/// The mathematical image of an affix stack.
pub struct StackAffixV {
    pub stack: SourceV,
    pub affix: Option<AffixV>,
}

/// The mathematical image of a whole derivation stack.
pub struct StackHyphenatedV {
    pub left: StackAffixV,
    pub right: Option<StackAffixV>,
}

impl View for StackSource {
    type V = SourceV;

    open spec fn view(&self) -> SourceV {
        match self {
            StackSource::Dictionary(d) => SourceV::Dictionary {
                word: d.word_lower@,
                para_id: d.para_id as int,
                idx: d.idx as int,
            },
            StackSource::Shaped(s) => SourceV::Shaped { word: s.word_lower@, kind: s.kind },
            StackSource::Unknown(u) => SourceV::Unknown { word: u.word_lower@ },
            StackSource::HyphenSeparatedParticle(p) => SourceV::Particle { particle: p.particle@ },
        }
    }
}

impl View for Affix {
    type V = AffixV;

    open spec fn view(&self) -> AffixV {
        AffixV { part: self.part@, kind: self.kind }
    }
}

impl View for StackAffix {
    type V = StackAffixV;

    open spec fn view(&self) -> StackAffixV {
        StackAffixV {
            stack: self.stack@,
            affix: match self.affix {
                Some(a) => Some(a@),
                None => None,
            },
        }
    }
}

impl View for StackHyphenated {
    type V = StackHyphenatedV;

    open spec fn view(&self) -> StackHyphenatedV {
        StackHyphenatedV {
            left: self.left@,
            right: match self.right {
                Some(r) => Some(r@),
                None => None,
            },
        }
    }
}

/// The surface text of a terminal source.
pub open spec fn source_word(s: SourceV) -> Seq<char> {
    match s {
        SourceV::Dictionary { word, .. } => word,
        SourceV::Shaped { word, .. } => word,
        SourceV::Unknown { word } => word,
        SourceV::Particle { particle } => particle,
    }
}

/// The surface text of an affix stack: the affix is attached on the side
/// its kind names.
pub open spec fn affix_word(a: StackAffixV) -> Seq<char> {
    match a.affix {
        None => source_word(a.stack),
        Some(af) => match af.kind {
            AffixKind::KnownPrefix => af.part + source_word(a.stack),
            AffixKind::UnknownPrefix => af.part + source_word(a.stack),
            AffixKind::KnownSuffix => source_word(a.stack) + af.part,
        },
    }
}

/// The surface text of a whole stack: a hyphen joins the two halves of a
/// compound; a stack with no right half renders as its left half alone.
pub open spec fn hyph_word(h: StackHyphenatedV) -> Seq<char> {
    match h.right {
        None => affix_word(h.left),
        Some(r) => affix_word(h.left) + seq!['-'] + affix_word(r),
    }
}

/// Whether a terminal source came from the dictionary.
pub open spec fn source_is_known(s: SourceV) -> bool {
    match s {
        SourceV::Dictionary { .. } => true,
        _ => false,
    }
}

/// Known-ness of an affix stack: an affix guessed by analogy makes the
/// whole parse a guess.
pub open spec fn affix_is_known(a: StackAffixV) -> bool {
    &&& source_is_known(a.stack)
    &&& match a.affix {
        None => true,
        Some(af) => af.kind != AffixKind::UnknownPrefix,
    }
}

/// Known-ness propagates through a compound by conjunction over the
/// non-absent children.
pub open spec fn hyph_is_known(h: StackHyphenatedV) -> bool {
    match h.right {
        None => affix_is_known(h.left),
        Some(r) => affix_is_known(h.left) && affix_is_known(r),
    }
}

/// Whether a terminal source is already the canonical form: a dictionary
/// word is a lemma exactly on form 0 of its paradigm; tokens with no
/// inflection table are their own lemma.
pub open spec fn source_is_lemma(s: SourceV) -> bool {
    match s {
        SourceV::Dictionary { idx, .. } => idx == 0,
        _ => true,
    }
}

/// An affix leaves lemma-ness to the sub-parse it wraps.
pub open spec fn affix_is_lemma(a: StackAffixV) -> bool {
    source_is_lemma(a.stack)
}

/// Lemma-ness propagates through a compound by conjunction over the
/// non-absent children.
pub open spec fn hyph_is_lemma(h: StackHyphenatedV) -> bool {
    match h.right {
        None => affix_is_lemma(h.left),
        Some(r) => affix_is_lemma(h.left) && affix_is_lemma(r),
    }
}

/// The intrinsic confidence of a terminal source in isolation.
pub open spec fn source_score(s: SourceV) -> Score {
    match s {
        SourceV::Dictionary { .. } => Score::Real(SCORE_SCALE),
        SourceV::Shaped { .. } => Score::Fake(SHAPE_SCORE),
        SourceV::Unknown { .. } => Score::Fake(SCORE_SCALE),
        SourceV::Particle { .. } => Score::Fake(SHAPE_SCORE),
    }
}

impl StackSource {
    /// The intrinsic confidence of this node in isolation.
    pub fn score(&self) -> (r: Score)
        ensures
            r == source_score(self@),
    {
        match self {
            StackSource::Dictionary(_) => Score::Real(SCORE_SCALE),
            StackSource::Shaped(_) => Score::Fake(SHAPE_SCORE),
            StackSource::Unknown(_) => Score::Fake(SCORE_SCALE),
            StackSource::HyphenSeparatedParticle(_) => Score::Fake(SHAPE_SCORE),
        }
    }

    /// Whether this source came from the dictionary.
    pub fn is_known(&self) -> (r: bool)
        ensures
            r == source_is_known(self@),
    {
        match self {
            StackSource::Dictionary(_) => true,
            _ => false,
        }
    }

    /// Whether this source is already the canonical form.
    pub fn is_lemma(&self) -> (r: bool)
        ensures
            r == source_is_lemma(self@),
    {
        match self {
            StackSource::Dictionary(d) => d.idx == 0,
            _ => true,
        }
    }

    /// Streams the surface text into `out`.
    pub fn write_word(&self, out: &mut Vec<char>)
        ensures
            final(out)@ == old(out)@ + source_word(self@),
    {
        match self {
            StackSource::Dictionary(d) => push_chars(out, &d.word_lower),
            StackSource::Shaped(s) => push_chars(out, &s.word_lower),
            StackSource::Unknown(u) => push_chars(out, &u.word_lower),
            StackSource::HyphenSeparatedParticle(p) => push_chars(out, &p.particle),
        }
    }

    /// The paradigm identifier, where one is known.
    pub fn try_get_para_id(&self) -> (r: Option<usize>)
        ensures
            match self@ {
                SourceV::Dictionary { para_id, .. } => r == Some(para_id as usize),
                _ => r is None,
            },
    {
        match self {
            StackSource::Dictionary(d) => Some(d.para_id),
            _ => None,
        }
    }
}

impl StackAffix {
    /// Wraps a source with an affix.
    pub fn new(stack: StackSource, affix: Affix) -> (r: Self)
        ensures
            r@.stack == stack@,
            r@.affix == Some(affix@),
    {
        StackAffix { stack, affix: Some(affix) }
    }

    /// The intrinsic confidence: that of the wrapped source.
    pub fn score(&self) -> (r: Score)
        ensures
            r == source_score(self@.stack),
    {
        self.stack.score()
    }

    /// Whether the whole affixed parse is dictionary-backed.
    pub fn is_known(&self) -> (r: bool)
        ensures
            r == affix_is_known(self@),
    {
        self.stack.is_known() && match &self.affix {
            None => true,
            Some(af) => !matches!(af.kind, AffixKind::UnknownPrefix),
        }
    }

    /// Whether the wrapped parse is already the canonical form.
    pub fn is_lemma(&self) -> (r: bool)
        ensures
            r == affix_is_lemma(self@),
    {
        self.stack.is_lemma()
    }

    /// Streams the surface text, affix attached, into `out`.
    pub fn write_word(&self, out: &mut Vec<char>)
        ensures
            final(out)@ == old(out)@ + affix_word(self@),
    {
        match &self.affix {
            None => self.stack.write_word(out),
            Some(af) => match af.kind {
                AffixKind::KnownPrefix | AffixKind::UnknownPrefix => {
                    push_chars(out, &af.part);
                    self.stack.write_word(out);
                },
                AffixKind::KnownSuffix => {
                    self.stack.write_word(out);
                    push_chars(out, &af.part);
                },
            },
        }
    }

    /// The paradigm identifier of the wrapped source, where one is known.
    pub fn try_get_para_id(&self) -> (r: Option<usize>)
        ensures
            match self@.stack {
                SourceV::Dictionary { para_id, .. } => r == Some(para_id as usize),
                _ => r is None,
            },
    {
        self.stack.try_get_para_id()
    }
}

impl From<StackSource> for StackAffix {
    /// A bare source is an affix stack with no affix.
    fn from(stack: StackSource) -> (r: StackAffix)
        ensures
            r@.stack == stack@,
            r@.affix is None,
    {
        StackAffix { stack, affix: None }
    }
}

impl vstd::std_specs::convert::FromSpecImpl<StackSource> for StackAffix {
    open spec fn obeys_from_spec() -> bool {
        true
    }

    open spec fn from_spec(stack: StackSource) -> StackAffix {
        StackAffix { stack, affix: None }
    }
}

impl StackHyphenated {
    /// Builds a stack from its left half and an optional right half.
    pub fn new(left: StackAffix, right: Option<StackAffix>) -> (r: Self)
        ensures
            r@.left == left@,
            right is Some ==> r@.right == Some(right->0@),
            right is None ==> r@.right is None,
    {
        StackHyphenated { left, right }
    }

    /// The intrinsic confidence: that of the left half.
    pub fn score(&self) -> (r: Score)
        ensures
            r == source_score(self@.left.stack),
    {
        self.left.score()
    }

    /// Whether every non-absent half is dictionary-backed.
    pub fn is_known(&self) -> (r: bool)
        ensures
            r == hyph_is_known(self@),
    {
        match &self.right {
            None => self.left.is_known(),
            Some(right) => self.left.is_known() && right.is_known(),
        }
    }

    /// Whether every non-absent half is already the canonical form.
    pub fn is_lemma(&self) -> (r: bool)
        ensures
            r == hyph_is_lemma(self@),
    {
        match &self.right {
            None => self.left.is_lemma(),
            Some(right) => self.left.is_lemma() && right.is_lemma(),
        }
    }

    /// Streams the surface text into `out`; the two halves of a compound
    /// are joined by a hyphen.
    pub fn write_word(&self, out: &mut Vec<char>)
        ensures
            final(out)@ == old(out)@ + hyph_word(self@),
    {
        self.left.write_word(out);
        if let Some(right) = &self.right {
            out.push('-');
            right.write_word(out);
        }
    }

    /// The surface text as a fresh vector.
    pub fn get_word(&self) -> (r: Vec<char>)
        ensures
            r@ == hyph_word(self@),
    {
        let mut out: Vec<char> = Vec::new();
        self.write_word(&mut out);
        out
    }

    /// The paradigm identifier. Defined only while the right half is
    /// absent: a two-sided compound has no single paradigm, and the query
    /// reports that as `None` rather than guessing a merged one.
    pub fn try_get_para_id(&self) -> (r: Option<usize>)
        ensures
            match self@.right {
                Some(_) => r is None,
                None => match self@.left.stack {
                    SourceV::Dictionary { para_id, .. } => r == Some(para_id as usize),
                    _ => r is None,
                },
            },
    {
        match &self.right {
            Some(_) => None,
            None => self.left.try_get_para_id(),
        }
    }
}

impl From<StackAffix> for StackHyphenated {
    /// A bare affix stack is a one-sided hyphen stack.
    fn from(left: StackAffix) -> (r: StackHyphenated)
        ensures
            r@.left == left@,
            r@.right is None,
    {
        StackHyphenated { left, right: None }
    }
}

impl vstd::std_specs::convert::FromSpecImpl<StackAffix> for StackHyphenated {
    open spec fn obeys_from_spec() -> bool {
        true
    }

    open spec fn from_spec(left: StackAffix) -> StackHyphenated {
        StackHyphenated { left, right: None }
    }
}

impl From<StackSource> for StackHyphenated {
    /// A bare source is a one-sided hyphen stack with no affix.
    fn from(stack: StackSource) -> (r: StackHyphenated)
        ensures
            r@.left.stack == stack@,
            r@.left.affix is None,
            r@.right is None,
    {
        StackHyphenated { left: StackAffix { stack, affix: None }, right: None }
    }
}

impl vstd::std_specs::convert::FromSpecImpl<StackSource> for StackHyphenated {
    open spec fn obeys_from_spec() -> bool {
        true
    }

    open spec fn from_spec(stack: StackSource) -> StackHyphenated {
        StackHyphenated { left: StackAffix { stack, affix: None }, right: None }
    }
}

impl StackSource {
    /// A fresh copy of this source.
    pub fn duplicate(&self) -> (r: StackSource)
        ensures
            r@ == self@,
    {
        match self {
            StackSource::Dictionary(d) => StackSource::Dictionary(
                DictionaryNode {
                    word_lower: clone_chars(&d.word_lower),
                    para_id: d.para_id,
                    idx: d.idx,
                },
            ),
            StackSource::Shaped(s) => StackSource::Shaped(
                Shaped { word_lower: clone_chars(&s.word_lower), kind: s.kind },
            ),
            StackSource::Unknown(u) => StackSource::Unknown(
                Unknown { word_lower: clone_chars(&u.word_lower) },
            ),
            StackSource::HyphenSeparatedParticle(p) => StackSource::HyphenSeparatedParticle(
                HyphenSeparatedParticle { particle: clone_chars(&p.particle) },
            ),
        }
    }
}

impl Affix {
    /// A fresh copy of this affix descriptor.
    pub fn duplicate(&self) -> (r: Affix)
        ensures
            r@ == self@,
    {
        Affix { part: clone_chars(&self.part), kind: self.kind }
    }

    /// An unknown-prefix descriptor around the given text.
    pub fn unknown_prefix(part: Vec<char>) -> (r: Affix)
        ensures
            r@.part == part@,
            r@.kind == AffixKind::UnknownPrefix,
    {
        Affix { part, kind: AffixKind::UnknownPrefix }
    }
}

impl StackAffix {
    /// A fresh copy of this affix stack.
    pub fn duplicate(&self) -> (r: StackAffix)
        ensures
            r@ == self@,
    {
        StackAffix {
            stack: self.stack.duplicate(),
            affix: match &self.affix {
                Some(af) => Some(af.duplicate()),
                None => None,
            },
        }
    }
}

/// Hyphen pass-through, surface side: a one-sided stack renders, ranks and
/// classifies exactly as its bare left half.
pub proof fn lemma_hyphen_passthrough(h: StackHyphenatedV)
    requires
        h.right is None,
    ensures
        hyph_word(h) == affix_word(h.left),
        hyph_is_known(h) == affix_is_known(h.left),
        hyph_is_lemma(h) == affix_is_lemma(h.left),
{
}

} // verus!
