//! The analyzer units: pluggable strategies run in a fixed order over a
//! word, each appending zero or more deduplicated candidates to the shared
//! result while recording signatures in the shared seen-set.
//!
//! Every unit's contract is an exact transition function over the
//! mathematical views, so the pipeline's behaviour is fully determined and
//! the deduplication laws are proved from the contracts alone.

use crate::analyzer::{
    dict_entry_wf, source_tag, stack_wf, DictEntry, DictEntryV, MorphAnalyzer, MorphV,
};
use crate::lex::{seen_has, seen_of_stack, Lex, Parsed, ParsedV, ParseResult, SeenSet, SeenV};
use crate::score::{Score, SCORE_SCALE};
use crate::shapes::{
    is_integer, is_latin, is_punctuation, is_real, is_roman_number, spec_is_integer,
    spec_is_latin, spec_is_punctuation, spec_is_real, spec_is_roman_number,
};
use crate::stack::{
    AffixKind, AffixV, ShapeKind, Shaped, SourceV, StackAffix, StackAffixV, StackHyphenated,
    StackHyphenatedV, StackSource, Unknown, SHAPE_SCORE,
};
use crate::tag::{spec_is_productive, OpencorporaTagReg};
use crate::text::clone_chars;
use crate::util::add_parsed_if_not_seen;
use vstd::prelude::*;

verus! {

/// The capability every analyzer unit implements: append candidates for
/// `word` to `result`, deduplicating through the shared `seen_parses`.
/// Whatever the unit, nothing already collected is removed or reordered.
pub trait AnalyzerUnit {
    fn parse(
        &self,
        morph: &MorphAnalyzer,
        result: &mut ParseResult,
        word: &Vec<char>,
        word_lower: &Vec<char>,
        seen_parses: &mut SeenSet,
    )
        requires
            morph.wf(),
        ensures
            old(result)@.is_prefix_of(final(result)@),
            old(seen_parses)@.is_prefix_of(final(seen_parses)@),
    ;
}

// ---------------------------------------------------------------------------
// Shape units
// ---------------------------------------------------------------------------
/// The one-node stack of a shape-classified token.
pub open spec fn shaped_stack_v(word: Seq<char>, kind: ShapeKind) -> StackHyphenatedV {
    StackHyphenatedV {
        left: StackAffixV { stack: SourceV::Shaped { word, kind }, affix: None },
        right: None,
    }
}

/// The one-node stack of an unknown word.
pub open spec fn unknown_stack_v(word: Seq<char>) -> StackHyphenatedV {
    StackHyphenatedV {
        left: StackAffixV { stack: SourceV::Unknown { word }, affix: None },
        right: None,
    }
}

/// The one-node stack of a dictionary word.
pub open spec fn dict_stack_v(word: Seq<char>, para_id: int, idx: int) -> StackHyphenatedV {
    StackHyphenatedV {
        left: StackAffixV { stack: SourceV::Dictionary { word, para_id, idx }, affix: None },
        right: None,
    }
}

/// What one shape unit does: when its predicate fired and the candidate's
/// signature is new, append it with the fixed fabricated score and record
/// the signature; otherwise change nothing.
pub open spec fn shape_step(
    res: Seq<ParsedV>,
    seen: Seq<SeenV>,
    word: Seq<char>,
    kind: ShapeKind,
    fire: bool,
) -> (Seq<ParsedV>, Seq<SeenV>) {
    let st = shaped_stack_v(word, kind);
    let key = seen_of_stack(st);
    if fire && !seen_has(seen, key) {
        (res.push(ParsedV { stack: st, score: Score::Fake(SHAPE_SCORE) }), seen.push(key))
    } else {
        (res, seen)
    }
}

/// What the number unit does: an integer literal fires the integer kind,
/// any other real literal the real kind.
pub open spec fn number_step(res: Seq<ParsedV>, seen: Seq<SeenV>, word: Seq<char>) -> (
    Seq<ParsedV>,
    Seq<SeenV>,
) {
    if spec_is_integer(word) {
        shape_step(res, seen, word, ShapeKind::Number { is_float: false }, true)
    } else if spec_is_real(word) {
        shape_step(res, seen, word, ShapeKind::Number { is_float: true }, true)
    } else {
        (res, seen)
    }
}

/// What the fallback unit does: only while no unit has contributed
/// anything (the seen-set is still empty), append the one catch-all
/// candidate with full fabricated confidence.
pub open spec fn unknown_step(res: Seq<ParsedV>, seen: Seq<SeenV>, word: Seq<char>) -> (
    Seq<ParsedV>,
    Seq<SeenV>,
) {
    if seen.len() == 0 {
        let st = unknown_stack_v(word);
        (
            res.push(ParsedV { stack: st, score: Score::Fake(SCORE_SCALE) }),
            seen.push(seen_of_stack(st)),
        )
    } else {
        (res, seen)
    }
}

/// Builds and appends the shape candidate, deduplicated, exactly as
/// `shape_step` with a fired predicate says.
fn push_shaped(
    result: &mut ParseResult,
    seen_parses: &mut SeenSet,
    word_lower: &Vec<char>,
    kind: ShapeKind,
)
    ensures
        final(result)@ == shape_step(old(result)@, old(seen_parses)@, word_lower@, kind, true).0,
        final(seen_parses)@ == shape_step(
            old(result)@,
            old(seen_parses)@,
            word_lower@,
            kind,
            true,
        ).1,
{
    let node = StackSource::Shaped(Shaped { word_lower: clone_chars(word_lower), kind });
    let score = node.score();
    let lex = Lex::from_stack(
        StackHyphenated { left: StackAffix { stack: node, affix: None }, right: None },
    );
    add_parsed_if_not_seen(result, seen_parses, Parsed::new(lex, score));
}

/// Marks Latin-script words with the Latin tag.
#[derive(Clone, Debug)]
pub struct LatinAnalyzer {
    pub tag: OpencorporaTagReg,
}

impl Default for LatinAnalyzer {
    /// The unit with its registry tag `LATN`.
    fn default() -> (r: Self)
        ensures
            r.tag@ == seq!['L', 'A', 'T', 'N'],
    {
        let mut v: Vec<char> = Vec::new();
        v.push('L');
        v.push('A');
        v.push('T');
        v.push('N');
        proof {
            assert(v@ =~= seq!['L', 'A', 'T', 'N']);
        }
        LatinAnalyzer { tag: OpencorporaTagReg::new(v) }
    }
}

impl LatinAnalyzer {
    /// Appends the one Latin candidate when the word is Latin-script text
    /// and its signature is new.
    pub fn parse(
        &self,
        morph: &MorphAnalyzer,
        result: &mut ParseResult,
        word: &Vec<char>,
        word_lower: &Vec<char>,
        seen_parses: &mut SeenSet,
    )
        ensures
            final(result)@ == shape_step(
                old(result)@,
                old(seen_parses)@,
                word_lower@,
                ShapeKind::Latin,
                spec_is_latin(word_lower@),
            ).0,
            final(seen_parses)@ == shape_step(
                old(result)@,
                old(seen_parses)@,
                word_lower@,
                ShapeKind::Latin,
                spec_is_latin(word_lower@),
            ).1,
    {
        if !is_latin(word_lower) {
            return ;
        }
        push_shaped(result, seen_parses, word_lower, ShapeKind::Latin);
    }
}

impl AnalyzerUnit for LatinAnalyzer {
    fn parse(
        &self,
        morph: &MorphAnalyzer,
        result: &mut ParseResult,
        word: &Vec<char>,
        word_lower: &Vec<char>,
        seen_parses: &mut SeenSet,
    ) {
        LatinAnalyzer::parse(self, morph, result, word, word_lower, seen_parses);
        proof {
            assert(old(result)@.is_prefix_of(result@));
            assert(old(seen_parses)@.is_prefix_of(seen_parses@));
        }
    }
}

/// Marks integer and real numeric literals with the number tags.
#[derive(Clone, Debug)]
pub struct NumberAnalyzer {
    pub tag_int: OpencorporaTagReg,
    pub tag_real: OpencorporaTagReg,
}

impl Default for NumberAnalyzer {
    /// The unit with its registry tags `NUMB,intg` and `NUMB,real`.
    fn default() -> (r: Self)
        ensures
            r.tag_int@ == seq!['N', 'U', 'M', 'B', ',', 'i', 'n', 't', 'g'],
            r.tag_real@ == seq!['N', 'U', 'M', 'B', ',', 'r', 'e', 'a', 'l'],
    {
        let mut v: Vec<char> = Vec::new();
        v.push('N');
        v.push('U');
        v.push('M');
        v.push('B');
        v.push(',');
        v.push('i');
        v.push('n');
        v.push('t');
        v.push('g');
        proof {
            assert(v@ =~= seq!['N', 'U', 'M', 'B', ',', 'i', 'n', 't', 'g']);
        }
        let mut w: Vec<char> = Vec::new();
        w.push('N');
        w.push('U');
        w.push('M');
        w.push('B');
        w.push(',');
        w.push('r');
        w.push('e');
        w.push('a');
        w.push('l');
        proof {
            assert(w@ =~= seq!['N', 'U', 'M', 'B', ',', 'r', 'e', 'a', 'l']);
        }
        NumberAnalyzer { tag_int: OpencorporaTagReg::new(v), tag_real: OpencorporaTagReg::new(w) }
    }
}

impl NumberAnalyzer {
    /// Appends the one numeric candidate when the word is an integer or
    /// real literal, telling the two apart by the shape kind.
    pub fn parse(
        &self,
        morph: &MorphAnalyzer,
        result: &mut ParseResult,
        word: &Vec<char>,
        word_lower: &Vec<char>,
        seen_parses: &mut SeenSet,
    )
        ensures
            final(result)@ == number_step(old(result)@, old(seen_parses)@, word_lower@).0,
            final(seen_parses)@ == number_step(old(result)@, old(seen_parses)@, word_lower@).1,
    {
        if is_integer(word_lower) {
            push_shaped(result, seen_parses, word_lower, ShapeKind::Number { is_float: false });
        } else if is_real(word_lower) {
            push_shaped(result, seen_parses, word_lower, ShapeKind::Number { is_float: true });
        }
    }
}

impl AnalyzerUnit for NumberAnalyzer {
    fn parse(
        &self,
        morph: &MorphAnalyzer,
        result: &mut ParseResult,
        word: &Vec<char>,
        word_lower: &Vec<char>,
        seen_parses: &mut SeenSet,
    ) {
        NumberAnalyzer::parse(self, morph, result, word, word_lower, seen_parses);
        proof {
            assert(old(result)@.is_prefix_of(result@));
            assert(old(seen_parses)@.is_prefix_of(seen_parses@));
        }
    }
}

/// Marks punctuation-only tokens with the punctuation tag.
#[derive(Clone, Debug)]
pub struct PunctuationAnalyzer {
    pub tag: OpencorporaTagReg,
}

impl Default for PunctuationAnalyzer {
    /// The unit with its registry tag `PNCT`.
    fn default() -> (r: Self)
        ensures
            r.tag@ == seq!['P', 'N', 'C', 'T'],
    {
        let mut v: Vec<char> = Vec::new();
        v.push('P');
        v.push('N');
        v.push('C');
        v.push('T');
        proof {
            assert(v@ =~= seq!['P', 'N', 'C', 'T']);
        }
        PunctuationAnalyzer { tag: OpencorporaTagReg::new(v) }
    }
}

impl PunctuationAnalyzer {
    /// Appends the one punctuation candidate when the word is punctuation
    /// only and its signature is new.
    pub fn parse(
        &self,
        morph: &MorphAnalyzer,
        result: &mut ParseResult,
        word: &Vec<char>,
        word_lower: &Vec<char>,
        seen_parses: &mut SeenSet,
    )
        ensures
            final(result)@ == shape_step(
                old(result)@,
                old(seen_parses)@,
                word_lower@,
                ShapeKind::Punctuation,
                spec_is_punctuation(word_lower@),
            ).0,
            final(seen_parses)@ == shape_step(
                old(result)@,
                old(seen_parses)@,
                word_lower@,
                ShapeKind::Punctuation,
                spec_is_punctuation(word_lower@),
            ).1,
    {
        if !is_punctuation(word_lower) {
            return ;
        }
        push_shaped(result, seen_parses, word_lower, ShapeKind::Punctuation);
    }
}

impl AnalyzerUnit for PunctuationAnalyzer {
    fn parse(
        &self,
        morph: &MorphAnalyzer,
        result: &mut ParseResult,
        word: &Vec<char>,
        word_lower: &Vec<char>,
        seen_parses: &mut SeenSet,
    ) {
        PunctuationAnalyzer::parse(self, morph, result, word, word_lower, seen_parses);
        proof {
            assert(old(result)@.is_prefix_of(result@));
            assert(old(seen_parses)@.is_prefix_of(seen_parses@));
        }
    }
}

/// Marks Roman numerals with the Roman tag.
#[derive(Clone, Debug)]
pub struct RomanAnalyzer {
    pub tag: OpencorporaTagReg,
}

impl Default for RomanAnalyzer {
    /// The unit with its registry tag `ROMN`.
    fn default() -> (r: Self)
        ensures
            r.tag@ == seq!['R', 'O', 'M', 'N'],
    {
        let mut v: Vec<char> = Vec::new();
        v.push('R');
        v.push('O');
        v.push('M');
        v.push('N');
        proof {
            assert(v@ =~= seq!['R', 'O', 'M', 'N']);
        }
        RomanAnalyzer { tag: OpencorporaTagReg::new(v) }
    }
}

impl RomanAnalyzer {
    /// Appends the one Roman-numeral candidate when the word matches and
    /// its signature is new.
    pub fn parse(
        &self,
        morph: &MorphAnalyzer,
        result: &mut ParseResult,
        word: &Vec<char>,
        word_lower: &Vec<char>,
        seen_parses: &mut SeenSet,
    )
        ensures
            final(result)@ == shape_step(
                old(result)@,
                old(seen_parses)@,
                word_lower@,
                ShapeKind::RomanNumber,
                spec_is_roman_number(word_lower@),
            ).0,
            final(seen_parses)@ == shape_step(
                old(result)@,
                old(seen_parses)@,
                word_lower@,
                ShapeKind::RomanNumber,
                spec_is_roman_number(word_lower@),
            ).1,
    {
        if !is_roman_number(word_lower) {
            return ;
        }
        push_shaped(result, seen_parses, word_lower, ShapeKind::RomanNumber);
    }
}

impl AnalyzerUnit for RomanAnalyzer {
    fn parse(
        &self,
        morph: &MorphAnalyzer,
        result: &mut ParseResult,
        word: &Vec<char>,
        word_lower: &Vec<char>,
        seen_parses: &mut SeenSet,
    ) {
        RomanAnalyzer::parse(self, morph, result, word, word_lower, seen_parses);
        proof {
            assert(old(result)@.is_prefix_of(result@));
            assert(old(seen_parses)@.is_prefix_of(seen_parses@));
        }
    }
}

/// The catch-all fallback: tags a word nothing else interpreted.
#[derive(Clone, Debug)]
pub struct UnknownAnalyzer {
    pub tag: OpencorporaTagReg,
}

impl Default for UnknownAnalyzer {
    /// The unit with its registry tag `UNKN`.
    fn default() -> (r: Self)
        ensures
            r.tag@ == seq!['U', 'N', 'K', 'N'],
    {
        let mut v: Vec<char> = Vec::new();
        v.push('U');
        v.push('N');
        v.push('K');
        v.push('N');
        proof {
            assert(v@ =~= seq!['U', 'N', 'K', 'N']);
        }
        UnknownAnalyzer { tag: OpencorporaTagReg::new(v) }
    }
}

impl UnknownAnalyzer {
    /// Appends the one catch-all candidate, but only while no unit has
    /// contributed anything yet; it must therefore run last.
    pub fn parse(
        &self,
        morph: &MorphAnalyzer,
        result: &mut ParseResult,
        word: &Vec<char>,
        word_lower: &Vec<char>,
        seen_parses: &mut SeenSet,
    )
        ensures
            final(result)@ == unknown_step(old(result)@, old(seen_parses)@, word_lower@).0,
            final(seen_parses)@ == unknown_step(old(result)@, old(seen_parses)@, word_lower@).1,
    {
        if seen_parses.is_empty() {
            let node = StackSource::Unknown(Unknown { word_lower: clone_chars(word_lower) });
            let score = node.score();
            let lex = Lex::from_stack(
                StackHyphenated { left: StackAffix { stack: node, affix: None }, right: None },
            );
            add_parsed_if_not_seen(result, seen_parses, Parsed::new(lex, score));
        }
    }
}

impl AnalyzerUnit for UnknownAnalyzer {
    fn parse(
        &self,
        morph: &MorphAnalyzer,
        result: &mut ParseResult,
        word: &Vec<char>,
        word_lower: &Vec<char>,
        seen_parses: &mut SeenSet,
    ) {
        UnknownAnalyzer::parse(self, morph, result, word, word_lower, seen_parses);
        proof {
            assert(old(result)@.is_prefix_of(result@));
            assert(old(seen_parses)@.is_prefix_of(seen_parses@));
        }
    }
}

// ---------------------------------------------------------------------------
// The dictionary unit
// ---------------------------------------------------------------------------
/// What the dictionary unit does: walk the snapshot in order and, for each
/// entry whose surface form is the word and whose signature is new, append
/// a candidate carrying the entry's corpus-derived score.
pub open spec fn dict_step(
    entries: Seq<DictEntryV>,
    res: Seq<ParsedV>,
    seen: Seq<SeenV>,
    word: Seq<char>,
) -> (Seq<ParsedV>, Seq<SeenV>)
    decreases entries.len(),
{
    if entries.len() == 0 {
        (res, seen)
    } else {
        let e = entries[0];
        let st = dict_stack_v(e.word, e.para_id, e.idx);
        let key = seen_of_stack(st);
        let next = if e.word == word && !seen_has(seen, key) {
            (res.push(ParsedV { stack: st, score: Score::Real(e.score) }), seen.push(key))
        } else {
            (res, seen)
        };
        dict_step(entries.drop_first(), next.0, next.1, word)
    }
}

/// The dictionary unit: direct lookup in the in-memory snapshot of the
/// automaton, deterministic for a given snapshot.
#[derive(Clone, Debug)]
pub struct DictionaryAnalyzer {
    pub entries: Vec<DictEntry>,
}

impl View for DictionaryAnalyzer {
    type V = Seq<DictEntryV>;

    open spec fn view(&self) -> Seq<DictEntryV> {
        self.entries@.map(|i: int, e: DictEntry| e@)
    }
}

impl DictionaryAnalyzer {
    /// Appends one candidate per matching snapshot entry whose signature
    /// is new, in snapshot order, exactly as `dict_step` says.
    pub fn parse(
        &self,
        morph: &MorphAnalyzer,
        result: &mut ParseResult,
        word: &Vec<char>,
        word_lower: &Vec<char>,
        seen_parses: &mut SeenSet,
    )
        ensures
            final(result)@ == dict_step(self@, old(result)@, old(seen_parses)@, word_lower@).0,
            final(seen_parses)@ == dict_step(self@, old(result)@, old(seen_parses)@, word_lower@).1,
    {
        proof {
            assert(self@.skip(0) =~= self@);
        }
        let mut i: usize = 0;
        while i < self.entries.len()
            invariant
                i <= self@.len(),
                dict_step(self@, old(result)@, old(seen_parses)@, word_lower@) == dict_step(
                    self@.skip(i as int),
                    result@,
                    seen_parses@,
                    word_lower@,
                ),
            decreases self@.len() - i,
        {
            proof {
                assert(self@.skip(i as int).len() == self@.len() - i);
                assert(self@.skip(i as int)[0] == self@[i as int]);
                assert(self@.skip(i as int).drop_first() =~= self@.skip(i as int + 1));
                assert(self@[i as int] == self.entries@[i as int]@);
            }
            let entry = &self.entries[i];
            if crate::text::chars_eq(&entry.word_lower, word_lower) {
                let node = StackSource::Dictionary(
                    crate::stack::DictionaryNode {
                        word_lower: clone_chars(&entry.word_lower),
                        para_id: entry.para_id,
                        idx: entry.idx,
                    },
                );
                let lex = Lex::from_stack(
                    StackHyphenated { left: StackAffix { stack: node, affix: None }, right: None },
                );
                add_parsed_if_not_seen(
                    result,
                    seen_parses,
                    Parsed::new(lex, Score::Real(entry.score)),
                );
            }
            i += 1;
        }
        proof {
            assert(self@.skip(self@.len() as int) =~= Seq::<DictEntryV>::empty());
        }
    }
}

impl AnalyzerUnit for DictionaryAnalyzer {
    fn parse(
        &self,
        morph: &MorphAnalyzer,
        result: &mut ParseResult,
        word: &Vec<char>,
        word_lower: &Vec<char>,
        seen_parses: &mut SeenSet,
    ) {
        DictionaryAnalyzer::parse(self, morph, result, word, word_lower, seen_parses);
        proof {
            lemma_dict_step_monotone(
                self@,
                old(result)@,
                old(seen_parses)@,
                word_lower@,
            );
        }
    }
}

/// The dictionary transition only appends: what was collected stays a
/// prefix of what comes out.
pub proof fn lemma_dict_step_monotone(
    entries: Seq<DictEntryV>,
    res: Seq<ParsedV>,
    seen: Seq<SeenV>,
    word: Seq<char>,
)
    ensures
        res.is_prefix_of(dict_step(entries, res, seen, word).0),
        seen.is_prefix_of(dict_step(entries, res, seen, word).1),
    decreases entries.len(),
{
    if entries.len() > 0 {
        let e = entries[0];
        let st = dict_stack_v(e.word, e.para_id, e.idx);
        let key = seen_of_stack(st);
        if e.word == word && !seen_has(seen, key) {
            lemma_dict_step_monotone(
                entries.drop_first(),
                res.push(ParsedV { stack: st, score: Score::Real(e.score) }),
                seen.push(key),
                word,
            );
            assert(res.is_prefix_of(res.push(ParsedV { stack: st, score: Score::Real(e.score) })));
            assert(seen.is_prefix_of(seen.push(key)));
        } else {
            lemma_dict_step_monotone(entries.drop_first(), res, seen, word);
        }
    }
}

// ---------------------------------------------------------------------------
// The by-analogy unit
// ---------------------------------------------------------------------------
/// The wrapped candidate the by-analogy unit derives from one sub-parse:
/// the sub-parse's terminal source rewrapped under an unknown-prefix affix.
pub open spec fn wrapped_stack_v(p: ParsedV, prefix: Seq<char>) -> StackHyphenatedV {
    StackHyphenatedV {
        left: StackAffixV {
            stack: p.stack.left.stack,
            affix: Some(AffixV { part: prefix, kind: AffixKind::UnknownPrefix }),
        },
        right: None,
    }
}

/// What the by-analogy unit does with one sub-parse: keep it only when its
/// tag is productive, rewrap it under the guessed prefix, decay its score,
/// and append it when its signature is new.
pub open spec fn wrap_one(
    res: Seq<ParsedV>,
    seen: Seq<SeenV>,
    p: ParsedV,
    prefix: Seq<char>,
    decay: u64,
    m: MorphV,
) -> (Seq<ParsedV>, Seq<SeenV>) {
    if spec_is_productive(source_tag(p.stack.left.stack, m)) {
        let st = wrapped_stack_v(p, prefix);
        let key = seen_of_stack(st);
        if !seen_has(seen, key) {
            (res.push(ParsedV { stack: st, score: p.score.spec_decay(decay) }), seen.push(key))
        } else {
            (res, seen)
        }
    } else {
        (res, seen)
    }
}

/// `wrap_one` folded over a whole sub-result, in order.
pub open spec fn wrap_fold(
    subs: Seq<ParsedV>,
    res: Seq<ParsedV>,
    seen: Seq<SeenV>,
    prefix: Seq<char>,
    decay: u64,
    m: MorphV,
) -> (Seq<ParsedV>, Seq<SeenV>)
    decreases subs.len(),
{
    if subs.len() == 0 {
        (res, seen)
    } else {
        let next = wrap_one(res, seen, subs[0], prefix, decay, m);
        wrap_fold(subs.drop_first(), next.0, next.1, prefix, decay, m)
    }
}

/// What the by-analogy unit does with one word: for each (prefix,
/// remainder) split, look the remainder up in the dictionary snapshot
/// (marking the sub-parses seen), then wrap what came back.
pub open spec fn ba_fold(
    splits: Seq<(Seq<char>, Seq<char>)>,
    res: Seq<ParsedV>,
    seen: Seq<SeenV>,
    decay: u64,
    m: MorphV,
) -> (Seq<ParsedV>, Seq<SeenV>)
    decreases splits.len(),
{
    if splits.len() == 0 {
        (res, seen)
    } else {
        let sub = dict_step(m.dict, Seq::empty(), seen, splits[0].1);
        let next = wrap_fold(sub.0, res, sub.1, splits[0].0, decay, m);
        ba_fold(splits.drop_first(), next.0, next.1, decay, m)
    }
}

/// The (prefix, remainder) splits the unit tries, under the default
/// limits.
pub open spec fn splits_of(w: Seq<char>) -> Seq<(Seq<char>, Seq<char>)> {
    Seq::new(
        crate::util::split_count(w.len() as int, 3, 5) as nat,
        |i: int| (w.subrange(0, i + 1), w.subrange(i + 1, w.len() as int)),
    )
}

/// Candidates appended by the dictionary transition are well-formed
/// one-node dictionary stacks with in-range scores, provided the snapshot
/// entries are well formed; and what was collected stays a prefix.
pub proof fn lemma_dict_step_shape(
    entries: Seq<DictEntryV>,
    res: Seq<ParsedV>,
    seen: Seq<SeenV>,
    word: Seq<char>,
    m: MorphV,
)
    requires
        forall|i: int| 0 <= i < entries.len() ==> dict_entry_wf(#[trigger] entries[i], m),
    ensures
        ({
            let out = dict_step(entries, res, seen, word);
            &&& res.is_prefix_of(out.0)
            &&& seen.is_prefix_of(out.1)
            &&& forall|j: int|
                res.len() <= j < out.0.len() ==> {
                    &&& stack_wf((#[trigger] out.0[j]).stack, m)
                    &&& out.0[j].stack.right is None
                    &&& out.0[j].stack.left.affix is None
                    &&& out.0[j].score.in_range()
                }
        }),
    decreases entries.len(),
{
    let out = dict_step(entries, res, seen, word);
    if entries.len() == 0 {
        assert(res.is_prefix_of(out.0));
        assert(seen.is_prefix_of(out.1));
    } else {
        let e = entries[0];
        let st = dict_stack_v(e.word, e.para_id, e.idx);
        let key = seen_of_stack(st);
        assert(entries.drop_first().len() == entries.len() - 1);
        assert(forall|i: int|
            0 <= i < entries.drop_first().len() ==> dict_entry_wf(
                #[trigger] entries.drop_first()[i],
                m,
            ));
        if e.word == word && !seen_has(seen, key) {
            let pushed = ParsedV { stack: st, score: Score::Real(e.score) };
            let res1 = res.push(pushed);
            lemma_dict_step_shape(entries.drop_first(), res1, seen.push(key), word, m);
            assert(dict_entry_wf(e, m));
            assert(stack_wf(st, m));
            assert(res.is_prefix_of(res1));
            lemma_prefix_trans(res, res1, out.0);
            lemma_prefix_trans(seen, seen.push(key), out.1);
            assert forall|j: int| res.len() <= j < out.0.len() implies {
                &&& stack_wf((#[trigger] out.0[j]).stack, m)
                &&& out.0[j].stack.right is None
                &&& out.0[j].stack.left.affix is None
                &&& out.0[j].score.in_range()
            } by {
                if j == res.len() {
                    assert(res1.is_prefix_of(out.0));
                    assert(out.0[j] == res1[j]);
                    assert(res1[j] == pushed);
                }
            }
        } else {
            lemma_dict_step_shape(entries.drop_first(), res, seen, word, m);
        }
    }
}

/// A prefix of a prefix is a prefix.
proof fn lemma_prefix_trans<T>(a: Seq<T>, b: Seq<T>, c: Seq<T>)
    requires
        a.is_prefix_of(b),
        b.is_prefix_of(c),
    ensures
        a.is_prefix_of(c),
{
    assert(a =~= c.subrange(0, a.len() as int));
}

/// Parses the word by parsing only its tail: for each split the remainder
/// is looked up in the dictionary and productive sub-parses are rewrapped
/// under the guessed unknown prefix, with decayed confidence.
#[derive(Clone, Copy, Debug)]
pub struct UnknownPrefixAnalyzer {
    /// The fixed-point factor (in millionths) a wrapped candidate's score
    /// is multiplied by.
    pub estimate_decay: u64,
}

impl Default for UnknownPrefixAnalyzer {
    /// The unit with the default decay of one half.
    fn default() -> (r: Self)
        ensures
            r.estimate_decay == SCORE_SCALE / 2,
    {
        UnknownPrefixAnalyzer { estimate_decay: SCORE_SCALE / 2 }
    }
}

impl UnknownPrefixAnalyzer {
    /// Appends the deduplicated by-analogy candidates, exactly as
    /// `ba_fold` over the word's splits says; the decay factor is the one
    /// the analyzer's configured by-analogy unit carries.
    pub fn parse(
        &self,
        morph: &MorphAnalyzer,
        result: &mut ParseResult,
        word: &Vec<char>,
        word_lower: &Vec<char>,
        seen_parses: &mut SeenSet,
    )
        requires
            morph.wf(),
        ensures
            final(result)@ == ba_fold(
                splits_of(word_lower@),
                old(result)@,
                old(seen_parses)@,
                morph@.decay,
                morph@,
            ).0,
            final(seen_parses)@ == ba_fold(
                splits_of(word_lower@),
                old(result)@,
                old(seen_parses)@,
                morph@.decay,
                morph@,
            ).1,
    {
        let ghost sv = splits_of(word_lower@);
        let ghost decay_g = morph@.decay;
        let splits = crate::util::word_splits(word_lower, None, None);
        proof {
            assert(splits@.map(|i: int, p: (Vec<char>, Vec<char>)| (p.0@, p.1@)) =~= sv);
        }
        proof {
            assert(sv.skip(0) =~= sv);
        }
        let mut k: usize = 0;
        while k < splits.len()
            invariant
                morph.wf(),
                k <= splits@.len(),
                splits@.map(|i: int, p: (Vec<char>, Vec<char>)| (p.0@, p.1@)) == sv,
                ba_fold(sv, old(result)@, old(seen_parses)@, decay_g, morph@) == ba_fold(
                    sv.skip(k as int),
                    result@,
                    seen_parses@,
                    decay_g,
                    morph@,
                ),
                decay_g == morph@.decay,
            decreases splits@.len() - k,
        {
            proof {
                assert(sv.len() == splits@.len());
                assert(sv.skip(k as int).len() == sv.len() - k);
                assert(sv.skip(k as int)[0] == sv[k as int]);
                assert(sv.skip(k as int).drop_first() =~= sv.skip(k as int + 1));
                assert(sv[k as int] == (splits@[k as int].0@, splits@[k as int].1@));
            }
            let prefix = &splits[k].0;
            let remainder = &splits[k].1;
            let ghost seen_before = seen_parses@;
            let mut subresult = ParseResult::new();
            morph.units.dictionary.parse(morph, &mut subresult, remainder, remainder, seen_parses);
            proof {
                lemma_dict_step_shape(
                    morph@.dict,
                    Seq::<ParsedV>::empty(),
                    seen_before,
                    remainder@,
                    morph@,
                );
            }
            let ghost subs = subresult@;
            let ghost res_in = result@;
            let ghost seen_in = seen_parses@;
            proof {
                assert(subs.skip(0) =~= subs);
            }
            let mut j: usize = 0;
            while j < subresult.len()
                invariant
                    morph.wf(),
                    j <= subresult@.len(),
                    subresult@ == subs,
                    forall|t: int|
                        0 <= t < subs.len() ==> {
                            &&& stack_wf((#[trigger] subs[t]).stack, morph@)
                            &&& subs[t].stack.right is None
                            &&& subs[t].score.in_range()
                        },
                    wrap_fold(subs, res_in, seen_in, prefix@, decay_g, morph@) == wrap_fold(
                        subs.skip(j as int),
                        result@,
                        seen_parses@,
                        prefix@,
                        decay_g,
                        morph@,
                    ),
                    decay_g == morph@.decay,
                decreases subs.len() - j,
            {
                proof {
                    assert(subs.skip(j as int).len() == subs.len() - j);
                    assert(subs.skip(j as int)[0] == subs[j as int]);
                    assert(subs.skip(j as int).drop_first() =~= subs.skip(j as int + 1));
                }
                let parsed = subresult.get(j);
                let tag_opt = parsed.lex.get_tag(morph);
                match tag_opt {
                    Some(tag) => {
                        if tag.is_productive() {
                            let src = parsed.lex.stack.left.stack.duplicate();
                            let affix = crate::stack::Affix::unknown_prefix(clone_chars(prefix));
                            let lex = Lex::from_stack(
                                StackHyphenated {
                                    left: StackAffix { stack: src, affix: Some(affix) },
                                    right: None,
                                },
                            );
                            let score = parsed.score.decay(
                                morph.units.unknown_prefix.estimate_decay,
                            );
                            add_parsed_if_not_seen(result, seen_parses, Parsed::new(lex, score));
                            proof {
                                assert(lex@ == wrapped_stack_v(subs[j as int], prefix@));
                            }
                        }
                    },
                    None => {
                        proof {
                            assert(false);
                        }
                    },
                }
                j += 1;
            }
            proof {
                assert(subs.skip(subs.len() as int) =~= Seq::<ParsedV>::empty());
            }
            k += 1;
        }
        proof {
            assert(sv.skip(sv.len() as int) =~= Seq::<(Seq<char>, Seq<char>)>::empty());
        }
    }
}

/// The by-analogy transition only appends.
pub proof fn lemma_wrap_fold_monotone(
    subs: Seq<ParsedV>,
    res: Seq<ParsedV>,
    seen: Seq<SeenV>,
    prefix: Seq<char>,
    decay: u64,
    m: MorphV,
)
    ensures
        res.is_prefix_of(wrap_fold(subs, res, seen, prefix, decay, m).0),
        seen.is_prefix_of(wrap_fold(subs, res, seen, prefix, decay, m).1),
    decreases subs.len(),
{
    if subs.len() > 0 {
        let next = wrap_one(res, seen, subs[0], prefix, decay, m);
        lemma_wrap_fold_monotone(subs.drop_first(), next.0, next.1, prefix, decay, m);
        assert(res.is_prefix_of(next.0));
        assert(seen.is_prefix_of(next.1));
    }
}

/// The whole by-analogy pass only appends.
pub proof fn lemma_ba_fold_monotone(
    splits: Seq<(Seq<char>, Seq<char>)>,
    res: Seq<ParsedV>,
    seen: Seq<SeenV>,
    decay: u64,
    m: MorphV,
)
    ensures
        res.is_prefix_of(ba_fold(splits, res, seen, decay, m).0),
        seen.is_prefix_of(ba_fold(splits, res, seen, decay, m).1),
    decreases splits.len(),
{
    if splits.len() > 0 {
        let sub = dict_step(m.dict, Seq::empty(), seen, splits[0].1);
        lemma_dict_step_monotone(m.dict, Seq::empty(), seen, splits[0].1);
        let next = wrap_fold(sub.0, res, sub.1, splits[0].0, decay, m);
        lemma_wrap_fold_monotone(sub.0, res, sub.1, splits[0].0, decay, m);
        lemma_ba_fold_monotone(splits.drop_first(), next.0, next.1, decay, m);
        assert(res.is_prefix_of(next.0));
        assert(seen.is_prefix_of(next.1));
    }
}

impl AnalyzerUnit for UnknownPrefixAnalyzer {
    fn parse(
        &self,
        morph: &MorphAnalyzer,
        result: &mut ParseResult,
        word: &Vec<char>,
        word_lower: &Vec<char>,
        seen_parses: &mut SeenSet,
    ) {
        UnknownPrefixAnalyzer::parse(self, morph, result, word, word_lower, seen_parses);
        proof {
            lemma_ba_fold_monotone(
                splits_of(word_lower@),
                old(result)@,
                old(seen_parses)@,
                morph@.decay,
                morph@,
            );
        }
    }
}

// ---------------------------------------------------------------------------
// The pipeline
// ---------------------------------------------------------------------------
/// What one whole parse call produces: the units' transitions composed in
/// the fixed pipeline order over initially empty accumulators: dictionary,
/// by-analogy, Latin, number, punctuation, Roman, and last the fallback.
pub open spec fn pipeline_spec(m: MorphV, word: Seq<char>) -> (Seq<ParsedV>, Seq<SeenV>) {
    let s1 = dict_step(m.dict, Seq::empty(), Seq::empty(), word);
    let s2 = ba_fold(splits_of(word), s1.0, s1.1, m.decay, m);
    let s3 = shape_step(s2.0, s2.1, word, ShapeKind::Latin, spec_is_latin(word));
    let s4 = number_step(s3.0, s3.1, word);
    let s5 = shape_step(s4.0, s4.1, word, ShapeKind::Punctuation, spec_is_punctuation(word));
    let s6 = shape_step(s5.0, s5.1, word, ShapeKind::RomanNumber, spec_is_roman_number(word));
    unknown_step(s6.0, s6.1, word)
}

impl MorphAnalyzer {
    /// Runs every unit in the fixed order over `word`, threading one fresh
    /// result collection and one fresh seen-set through all of them, and
    /// returns the collected candidates: exactly what `pipeline_spec`
    /// names.
    pub fn parse(&self, word: &Vec<char>, word_lower: &Vec<char>) -> (r: ParseResult)
        requires
            self.wf(),
        ensures
            r@ == pipeline_spec(self@, word_lower@).0,
    {
        let mut result = ParseResult::new();
        let mut seen_parses = SeenSet::new();
        self.units.dictionary.parse(self, &mut result, word, word_lower, &mut seen_parses);
        self.units.unknown_prefix.parse(self, &mut result, word, word_lower, &mut seen_parses);
        self.units.latin.parse(self, &mut result, word, word_lower, &mut seen_parses);
        self.units.number.parse(self, &mut result, word, word_lower, &mut seen_parses);
        self.units.punctuation.parse(self, &mut result, word, word_lower, &mut seen_parses);
        self.units.roman.parse(self, &mut result, word, word_lower, &mut seen_parses);
        self.units.unknown.parse(self, &mut result, word, word_lower, &mut seen_parses);
        result
    }
}

} // verus!
