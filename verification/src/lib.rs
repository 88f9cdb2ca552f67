//! A morphological analyzer core: derivation stacks that record how a
//! candidate interpretation of a word token was built, a bit-exact textual
//! codec for those stacks, and a pipeline of analyzer units that produce
//! ranked, deduplicated candidates for a word.

pub mod analyzer;
pub mod codec;
pub mod laws;
pub mod lex;
pub mod paradigm;
pub mod score;
pub mod shapes;
pub mod stack;
pub mod tag;
pub mod text;
pub mod units;
pub mod util;

pub use crate::analyzer::{DictEntry, MorphAnalyzer, Units};
pub use crate::codec::DecodeError;
pub use crate::lex::{Lex, Parsed, ParseResult, Seen, SeenSet};
pub use crate::paradigm::{Paradigm, ParadigmEntry};
pub use crate::score::Score;
pub use crate::stack::{
    Affix, AffixKind, DictionaryNode, HyphenSeparatedParticle, ShapeKind, Shaped, StackAffix,
    StackHyphenated, StackSource, Unknown,
};
pub use crate::tag::OpencorporaTagReg;
pub use crate::units::{
    AnalyzerUnit, DictionaryAnalyzer, LatinAnalyzer, NumberAnalyzer, PunctuationAnalyzer,
    RomanAnalyzer, UnknownAnalyzer, UnknownPrefixAnalyzer,
};
pub use crate::util::{add_parsed_if_not_seen, word_splits, DumbProfiler};

use vstd::prelude::*;

verus! {

} // verus!
