//! Candidate wrappers and the per-call accumulators.
//!
//! `Lex` pairs one derivation stack with the capability set its consumers
//! use; `Parsed` adds the score a unit assigned; `ParseResult` is the
//! insertion-order collection of candidates for one word; `SeenSet` is the
//! deduplication index of canonical signatures shared by every unit during
//! one top-level parse call.

use crate::score::Score;
use crate::stack::{
    hyph_is_known, hyph_is_lemma, hyph_word, ShapeKind, SourceV, StackHyphenated,
    StackHyphenatedV,
};
use crate::text::chars_eq;
use vstd::prelude::*;

verus! {

/// One candidate interpretation: a derivation stack, exposing the full
/// capability set of its nodes.
#[derive(Clone, Debug)]
pub struct Lex {
    pub stack: StackHyphenated,
}

impl View for Lex {
    type V = StackHyphenatedV;

    open spec fn view(&self) -> StackHyphenatedV {
        self.stack@
    }
}

/// The part of a canonical signature that tells derivation kinds apart.
#[derive(Clone, Copy, Debug, PartialEq, Eq, Structural)]
pub enum SeenKey {
    /// A dictionary derivation: its paradigm identity.
    Dictionary { para_id: usize, idx: usize },
    /// A shape derivation: which shape fired.
    Shape(ShapeKind),
    /// An unknown-word derivation.
    Unknown,
    /// A hyphen-particle derivation.
    Particle,
}

/// The canonical signature of a derivation: the rendered word plus the
/// distinguishing key of its terminal source.
#[derive(Clone, Debug)]
pub struct Seen {
    pub word: Vec<char>,
    pub key: SeenKey,
}

/// The mathematical image of a canonical signature.
pub struct SeenV {
    pub word: Seq<char>,
    pub key: SeenKey,
}

impl View for Seen {
    type V = SeenV;

    open spec fn view(&self) -> SeenV {
        SeenV { word: self.word@, key: self.key }
    }
}

/// The distinguishing key of a terminal source.
pub open spec fn key_of_source(s: SourceV) -> SeenKey {
    match s {
        SourceV::Dictionary { para_id, idx, .. } => SeenKey::Dictionary {
            para_id: para_id as usize,
            idx: idx as usize,
        },
        SourceV::Shaped { kind, .. } => SeenKey::Shape(kind),
        SourceV::Unknown { .. } => SeenKey::Unknown,
        SourceV::Particle { .. } => SeenKey::Particle,
    }
}

/// The canonical signature of a whole stack.
pub open spec fn seen_of_stack(h: StackHyphenatedV) -> SeenV {
    SeenV { word: hyph_word(h), key: key_of_source(h.left.stack) }
}

impl Lex {
    /// Wraps a derivation stack as a candidate.
    pub fn from_stack(stack: StackHyphenated) -> (r: Lex)
        ensures
            r@ == stack@,
    {
        Lex { stack }
    }

    /// The rendered surface text.
    pub fn get_word(&self) -> (r: Vec<char>)
        ensures
            r@ == hyph_word(self@),
    {
        self.stack.get_word()
    }

    /// Whether every non-absent part is dictionary-backed.
    pub fn is_known(&self) -> (r: bool)
        ensures
            r == hyph_is_known(self@),
    {
        self.stack.is_known()
    }

    /// Whether the candidate is already the canonical form.
    pub fn is_lemma(&self) -> (r: bool)
        ensures
            r == hyph_is_lemma(self@),
    {
        self.stack.is_lemma()
    }

    /// The paradigm identifier, where the stack has a single one.
    pub fn try_get_para_id(&self) -> (r: Option<usize>)
        ensures
            match self@.right {
                Some(_) => r is None,
                None => match self@.left.stack {
                    SourceV::Dictionary { para_id, .. } => r == Some(para_id as usize),
                    _ => r is None,
                },
            },
    {
        self.stack.try_get_para_id()
    }

    /// The canonical signature used for deduplication.
    pub fn as_seen(&self) -> (r: Seen)
        ensures
            r@ == seen_of_stack(self@),
    {
        let word = self.stack.get_word();
        let key = match &self.stack.left.stack {
            crate::stack::StackSource::Dictionary(d) => SeenKey::Dictionary {
                para_id: d.para_id,
                idx: d.idx,
            },
            crate::stack::StackSource::Shaped(s) => SeenKey::Shape(s.kind),
            crate::stack::StackSource::Unknown(_) => SeenKey::Unknown,
            crate::stack::StackSource::HyphenSeparatedParticle(_) => SeenKey::Particle,
        };
        Seen { word, key }
    }
}

/// One ranked candidate: an interpretation and the score a unit assigned.
#[derive(Clone, Debug)]
pub struct Parsed {
    pub lex: Lex,
    pub score: Score,
}

/// The mathematical image of one ranked candidate.
pub struct ParsedV {
    pub stack: StackHyphenatedV,
    pub score: Score,
}

impl View for Parsed {
    type V = ParsedV;

    open spec fn view(&self) -> ParsedV {
        ParsedV { stack: self.lex@, score: self.score }
    }
}

impl Parsed {
    /// Pairs a candidate with its score.
    pub fn new(lex: Lex, score: Score) -> (r: Parsed)
        ensures
            r@.stack == lex@,
            r@.score == score,
    {
        Parsed { lex, score }
    }
}

/// The ordered, growable collection of candidates for one word. Candidates
/// keep their insertion order; nothing is ever removed or reordered.
#[derive(Debug)]
pub struct ParseResult {
    pub parses: Vec<Parsed>,
}

impl View for ParseResult {
    type V = Seq<ParsedV>;

    open spec fn view(&self) -> Seq<ParsedV> {
        self.parses@.map(|i: int, p: Parsed| p@)
    }
}

impl ParseResult {
    /// An empty collection.
    pub fn new() -> (r: ParseResult)
        ensures
            r@ == Seq::<ParsedV>::empty(),
    {
        let r = ParseResult { parses: Vec::new() };
        proof {
            assert(r@ =~= Seq::<ParsedV>::empty());
        }
        r
    }

    /// How many candidates are collected.
    pub fn len(&self) -> (n: usize)
        ensures
            n == self@.len(),
    {
        self.parses.len()
    }

    /// Whether no candidate is collected yet.
    pub fn is_empty(&self) -> (r: bool)
        ensures
            r == (self@.len() == 0),
    {
        self.parses.len() == 0
    }

    /// Appends one candidate, leaving everything already collected as is.
    pub fn push(&mut self, parsed: Parsed)
        ensures
            final(self)@ == old(self)@.push(parsed@),
    {
        self.parses.push(parsed);
        proof {
            assert(self@ =~= old(self)@.push(parsed@));
        }
    }

    /// The candidate at `i`.
    pub fn get(&self, i: usize) -> (r: &Parsed)
        requires
            i < self@.len(),
        ensures
            r@ == self@[i as int],
    {
        &self.parses[i]
    }
}

/// Whether a signature already stands in a seen sequence.
pub open spec fn seen_has(seen: Seq<SeenV>, s: SeenV) -> bool {
    exists|i: int| 0 <= i < seen.len() && seen[i] == s
}

/// The deduplication index: every canonical signature inserted during one
/// top-level parse call.
#[derive(Debug)]
pub struct SeenSet {
    pub items: Vec<Seen>,
}

impl View for SeenSet {
    type V = Seq<SeenV>;

    open spec fn view(&self) -> Seq<SeenV> {
        self.items@.map(|i: int, s: Seen| s@)
    }
}

impl SeenSet {
    /// An empty index.
    pub fn new() -> (r: SeenSet)
        ensures
            r@ == Seq::<SeenV>::empty(),
    {
        let r = SeenSet { items: Vec::new() };
        proof {
            assert(r@ =~= Seq::<SeenV>::empty());
        }
        r
    }

    /// Whether nothing was inserted yet.
    pub fn is_empty(&self) -> (r: bool)
        ensures
            r == (self@.len() == 0),
    {
        self.items.len() == 0
    }

    /// Inserts a signature and reports whether it is newly inserted; an
    /// already-present signature leaves the index unchanged.
    pub fn insert(&mut self, s: Seen) -> (fresh: bool)
        ensures
            fresh == !seen_has(old(self)@, s@),
            fresh ==> final(self)@ == old(self)@.push(s@),
            !fresh ==> final(self)@ == old(self)@,
    {
        let mut i: usize = 0;
        while i < self.items.len()
            invariant
                i <= self@.len(),
                self == old(self),
                forall|j: int| 0 <= j < i ==> self@[j] != s@,
            decreases self@.len() - i,
        {
            let item = &self.items[i];
            if item.key == s.key && chars_eq(&item.word, &s.word) {
                proof {
                    assert(self@[i as int] == s@);
                }
                return false;
            }
            proof {
                assert(self@[i as int] != s@);
            }
            i += 1;
        }
        proof {
            assert(!seen_has(self@, s@));
        }
        self.items.push(s);
        proof {
            assert(self@ =~= old(self)@.push(s@));
        }
        true
    }
}

} // verus!
