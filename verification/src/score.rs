//! Candidate confidence values.
//!
//! A score is a fixed-point number of millionths, tagged by provenance:
//! `Real` values are corpus-derived probabilities, `Fake` values are
//! synthetic confidences assigned by heuristic units. The two tags are not
//! comparable in meaning, but both are ordered by their raw numeric value
//! for ranking, and both support multiplication by a decay factor that
//! preserves the tag.

use vstd::prelude::*;

verus! {

/// The fixed-point scale: a score value of `SCORE_SCALE` means 1.0.
pub const SCORE_SCALE: u64 = 1_000_000;

/// A confidence value attached to one candidate interpretation.
#[derive(Clone, Copy, Debug, PartialEq, Eq, Structural)]
pub enum Score {
    /// A trustworthy, corpus-derived probability (in millionths).
    Real(u64),
    /// A synthetic confidence fabricated by a heuristic unit (in millionths).
    Fake(u64),
}

impl Score {
    /// The raw numeric value, disregarding the tag.
    pub open spec fn spec_value(self) -> u64 {
        match self {
            Score::Real(v) => v,
            Score::Fake(v) => v,
        }
    }

    /// Whether the score is corpus-derived rather than fabricated.
    pub open spec fn spec_is_real(self) -> bool {
        match self {
            Score::Real(_) => true,
            Score::Fake(_) => false,
        }
    }

    /// A score is in range when it does not exceed 1.0.
    pub open spec fn in_range(self) -> bool {
        self.spec_value() <= SCORE_SCALE
    }

    /// The raw numeric value, disregarding the tag.
    pub fn value(&self) -> (v: u64)
        ensures
            v == self.spec_value(),
    {
        match self {
            Score::Real(v) => *v,
            Score::Fake(v) => *v,
        }
    }

    /// Whether the score is corpus-derived rather than fabricated.
    pub fn is_real(&self) -> (r: bool)
        ensures
            r == self.spec_is_real(),
    {
        match self {
            Score::Real(_) => true,
            Score::Fake(_) => false,
        }
    }

    /// The decayed score, as a mathematical value.
    pub open spec fn spec_decay(self, factor: u64) -> Score {
        let v = (self.spec_value() * factor / (SCORE_SCALE as int)) as u64;
        if self.spec_is_real() {
            Score::Real(v)
        } else {
            Score::Fake(v)
        }
    }

    /// Multiplies the score by a fixed-point `factor` (in millionths),
    /// keeping the tag. Used by units that wrap a sub-parse to mark the
    /// reduced confidence of the derived candidate.
    pub fn decay(&self, factor: u64) -> (r: Score)
        requires
            self.in_range(),
            factor <= SCORE_SCALE,
        ensures
            r == self.spec_decay(factor),
            r.in_range(),
            r.spec_is_real() == self.spec_is_real(),
            r.spec_value() <= self.spec_value(),
    {
        let v = self.value();
        proof {
            lemma_decay_bounds(v, factor);
        }
        let decayed = v * factor / SCORE_SCALE;
        match self {
            Score::Real(_) => Score::Real(decayed),
            Score::Fake(_) => Score::Fake(decayed),
        }
    }

    /// Ranking order: by raw numeric value, whatever the tags.
    pub fn ranks_below(&self, other: &Score) -> (r: bool)
        ensures
            r == (self.spec_value() < other.spec_value()),
    {
        self.value() < other.value()
    }
}

/// The arithmetic behind `decay`: the product fits in `u64` and the
/// quotient never exceeds the original value.
proof fn lemma_decay_bounds(v: u64, factor: u64)
    by (nonlinear_arith)
    requires
        v <= SCORE_SCALE,
        factor <= SCORE_SCALE,
    ensures
        v * factor <= SCORE_SCALE * SCORE_SCALE,
        v * factor / (SCORE_SCALE as int) <= v,
        v * factor / (SCORE_SCALE as int) <= SCORE_SCALE,
{
}

/// Decay strictly lowers a positive score whenever the factor is below 1.0,
/// and never raises one; the provenance tag is always preserved.
pub proof fn lemma_decay_monotone(s: Score, factor: u64)
    requires
        s.in_range(),
        factor <= SCORE_SCALE,
    ensures
        s.spec_decay(factor).spec_value() <= s.spec_value(),
        s.spec_decay(factor).spec_is_real() == s.spec_is_real(),
        s.spec_value() > 0 && factor < SCORE_SCALE ==> s.spec_decay(factor).spec_value()
            < s.spec_value(),
{
    let v = s.spec_value();
    lemma_decay_bounds(v, factor);
    if v > 0 && factor < SCORE_SCALE {
        assert(v * factor / (SCORE_SCALE as int) < v) by (nonlinear_arith)
            requires
                v > 0,
                factor < SCORE_SCALE,
                v <= SCORE_SCALE,
        ;
    }
}

} // verus!
