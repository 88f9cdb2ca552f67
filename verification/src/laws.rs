//! The deduplication laws of the pipeline, proved from the units' exact
//! transition contracts.
//!
//! Running any unit a second time over the same word with the seen-set the
//! first run left behind grows the result by nothing; and once the
//! dictionary has contributed a candidate, the catch-all fallback
//! contributes nothing for that same call.

use crate::analyzer::MorphV;
use crate::score::{lemma_decay_monotone, SCORE_SCALE};
use crate::lex::{seen_has, seen_of_stack, ParsedV, SeenV};
use crate::shapes::{spec_is_integer, spec_is_latin, spec_is_punctuation, spec_is_real,
    spec_is_roman_number};
use crate::stack::ShapeKind;
use crate::units::{
    ba_fold, dict_stack_v, dict_step, lemma_ba_fold_monotone, lemma_dict_step_monotone,
    lemma_wrap_fold_monotone, number_step, pipeline_spec, shape_step, shaped_stack_v, splits_of,
    unknown_step, wrap_fold, wrap_one,
};
use vstd::prelude::*;

verus! {

/// Score decay of the by-analogy unit: every candidate it derives carries
/// the inner sub-parse's score multiplied by the decay factor. The
/// provenance tag is preserved exactly (a fabricated inner score never
/// becomes a calibrated one, nor the reverse), the value never grows, and
/// it strictly shrinks whenever the inner score is positive and the decay
/// factor is below one.
pub proof fn lemma_by_analogy_score_decay(
    res: Seq<ParsedV>,
    seen: Seq<SeenV>,
    p: ParsedV,
    prefix: Seq<char>,
    decay: u64,
    m: MorphV,
)
    requires
        p.score.in_range(),
        decay <= SCORE_SCALE,
    ensures
        ({
            let out = wrap_one(res, seen, p, prefix, decay, m);
            forall|j: int|
                res.len() <= j < out.0.len() ==> {
                    &&& (#[trigger] out.0[j]).score == p.score.spec_decay(decay)
                    &&& out.0[j].score.spec_is_real() == p.score.spec_is_real()
                    &&& out.0[j].score.spec_value() <= p.score.spec_value()
                    &&& (p.score.spec_value() > 0 && decay < SCORE_SCALE
                        ==> out.0[j].score.spec_value() < p.score.spec_value())
                }
        }),
{
    lemma_decay_monotone(p.score, decay);
}

/// A signature stays found when the seen-set only grows.
proof fn lemma_seen_has_grow(s1: Seq<SeenV>, s2: Seq<SeenV>, k: SeenV)
    requires
        s1.is_prefix_of(s2),
        seen_has(s1, k),
    ensures
        seen_has(s2, k),
{
    let i = choose|i: int| 0 <= i < s1.len() && s1[i] == k;
    assert(s2[i] == s1[i]);
}

/// Dedup idempotence of a shape unit: the step it has already taken, taken
/// again over its own output, changes nothing.
pub proof fn lemma_shape_step_idempotent(
    res: Seq<ParsedV>,
    seen: Seq<SeenV>,
    word: Seq<char>,
    kind: ShapeKind,
    fire: bool,
)
    ensures
        ({
            let out = shape_step(res, seen, word, kind, fire);
            shape_step(out.0, out.1, word, kind, fire) == out
        }),
{
    let key = seen_of_stack(shaped_stack_v(word, kind));
    let out = shape_step(res, seen, word, kind, fire);
    if fire && !seen_has(seen, key) {
        assert(out.1[seen.len() as int] == key);
        assert(seen_has(out.1, key));
    }
}

/// Dedup idempotence of the number unit.
pub proof fn lemma_number_step_idempotent(res: Seq<ParsedV>, seen: Seq<SeenV>, word: Seq<char>)
    ensures
        ({
            let out = number_step(res, seen, word);
            number_step(out.0, out.1, word) == out
        }),
{
    if spec_is_integer(word) {
        lemma_shape_step_idempotent(res, seen, word, ShapeKind::Number { is_float: false }, true);
    } else if spec_is_real(word) {
        lemma_shape_step_idempotent(res, seen, word, ShapeKind::Number { is_float: true }, true);
    }
}

/// Dedup idempotence of the fallback unit: its own candidate fills the
/// seen-set, so a second run finds it no longer empty.
pub proof fn lemma_unknown_step_idempotent(res: Seq<ParsedV>, seen: Seq<SeenV>, word: Seq<char>)
    ensures
        ({
            let out = unknown_step(res, seen, word);
            unknown_step(out.0, out.1, word) == out
        }),
{
}

/// After the dictionary transition, the signature of every snapshot entry
/// matching the word stands in the seen-set.
proof fn lemma_dict_step_covers(
    entries: Seq<crate::analyzer::DictEntryV>,
    res: Seq<ParsedV>,
    seen: Seq<SeenV>,
    word: Seq<char>,
)
    ensures
        forall|i: int|
            0 <= i < entries.len() && (#[trigger] entries[i]).word == word ==> seen_has(
                dict_step(entries, res, seen, word).1,
                seen_of_stack(dict_stack_v(entries[i].word, entries[i].para_id, entries[i].idx)),
            ),
    decreases entries.len(),
{
    if entries.len() > 0 {
        let e = entries[0];
        let st = dict_stack_v(e.word, e.para_id, e.idx);
        let key = seen_of_stack(st);
        let out = dict_step(entries, res, seen, word);
        let next = if e.word == word && !seen_has(seen, key) {
            (res.push(ParsedV { stack: st, score: crate::score::Score::Real(e.score) }), seen.push(
                key,
            ))
        } else {
            (res, seen)
        };
        lemma_dict_step_covers(entries.drop_first(), next.0, next.1, word);
        lemma_dict_step_monotone(entries.drop_first(), next.0, next.1, word);
        assert forall|i: int|
            0 <= i < entries.len() && (#[trigger] entries[i]).word == word implies seen_has(
            out.1,
            seen_of_stack(dict_stack_v(entries[i].word, entries[i].para_id, entries[i].idx)),
        ) by {
            if i == 0 {
                if !seen_has(seen, key) {
                    assert(next.1[seen.len() as int] == key);
                    assert(seen_has(next.1, key));
                } else {
                    lemma_seen_has_grow(seen, next.1, key);
                }
                lemma_seen_has_grow(next.1, out.1, key);
            } else {
                assert(entries.drop_first()[i - 1] == entries[i]);
            }
        }
    }
}

/// A dictionary transition whose matches are all seen already changes
/// nothing.
proof fn lemma_dict_step_stable(
    entries: Seq<crate::analyzer::DictEntryV>,
    res: Seq<ParsedV>,
    seen: Seq<SeenV>,
    word: Seq<char>,
)
    requires
        forall|i: int|
            0 <= i < entries.len() && (#[trigger] entries[i]).word == word ==> seen_has(
                seen,
                seen_of_stack(dict_stack_v(entries[i].word, entries[i].para_id, entries[i].idx)),
            ),
    ensures
        dict_step(entries, res, seen, word) == (res, seen),
    decreases entries.len(),
{
    if entries.len() > 0 {
        assert(forall|i: int|
            0 <= i < entries.drop_first().len() ==> entries.drop_first()[i] == entries[i + 1]);
        lemma_dict_step_stable(entries.drop_first(), res, seen, word);
    }
}

/// Dedup idempotence of the dictionary unit: run over its own output, it
/// appends nothing and records nothing.
pub proof fn lemma_dict_step_idempotent(
    entries: Seq<crate::analyzer::DictEntryV>,
    res: Seq<ParsedV>,
    seen: Seq<SeenV>,
    word: Seq<char>,
)
    ensures
        ({
            let out = dict_step(entries, res, seen, word);
            dict_step(entries, out.0, out.1, word) == out
        }),
{
    let out = dict_step(entries, res, seen, word);
    lemma_dict_step_covers(entries, res, seen, word);
    lemma_dict_step_stable(entries, out.0, out.1, word);
}

/// After the by-analogy pass, the signature of every snapshot entry
/// matching any split's remainder stands in the seen-set.
proof fn lemma_ba_fold_covers(
    splits: Seq<(Seq<char>, Seq<char>)>,
    res: Seq<ParsedV>,
    seen: Seq<SeenV>,
    decay: u64,
    m: MorphV,
)
    ensures
        forall|k: int, i: int|
            0 <= k < splits.len() && 0 <= i < m.dict.len() && (#[trigger] m.dict[i]).word == (
            #[trigger] splits[k]).1 ==> seen_has(
                ba_fold(splits, res, seen, decay, m).1,
                seen_of_stack(dict_stack_v(m.dict[i].word, m.dict[i].para_id, m.dict[i].idx)),
            ),
    decreases splits.len(),
{
    if splits.len() > 0 {
        let sub = dict_step(m.dict, Seq::empty(), seen, splits[0].1);
        let next = wrap_fold(sub.0, res, sub.1, splits[0].0, decay, m);
        let out = ba_fold(splits, res, seen, decay, m);
        lemma_ba_fold_covers(splits.drop_first(), next.0, next.1, decay, m);
        lemma_wrap_fold_monotone(sub.0, res, sub.1, splits[0].0, decay, m);
        lemma_ba_fold_monotone(splits.drop_first(), next.0, next.1, decay, m);
        lemma_dict_step_covers(m.dict, Seq::empty(), seen, splits[0].1);
        assert forall|k: int, i: int|
            0 <= k < splits.len() && 0 <= i < m.dict.len() && (#[trigger] m.dict[i]).word == (
            #[trigger] splits[k]).1 implies seen_has(
            out.1,
            seen_of_stack(dict_stack_v(m.dict[i].word, m.dict[i].para_id, m.dict[i].idx)),
        ) by {
            let key = seen_of_stack(
                dict_stack_v(m.dict[i].word, m.dict[i].para_id, m.dict[i].idx),
            );
            if k == 0 {
                assert(seen_has(sub.1, key));
                lemma_seen_has_grow(sub.1, next.1, key);
                lemma_seen_has_grow(next.1, out.1, key);
            } else {
                assert(splits.drop_first()[k - 1] == splits[k]);
            }
        }
    }
}

/// A by-analogy pass whose sub-lookups are all seen already changes
/// nothing.
proof fn lemma_ba_fold_stable(
    splits: Seq<(Seq<char>, Seq<char>)>,
    res: Seq<ParsedV>,
    seen: Seq<SeenV>,
    decay: u64,
    m: MorphV,
)
    requires
        forall|k: int, i: int|
            0 <= k < splits.len() && 0 <= i < m.dict.len() && (#[trigger] m.dict[i]).word == (
            #[trigger] splits[k]).1 ==> seen_has(
                seen,
                seen_of_stack(dict_stack_v(m.dict[i].word, m.dict[i].para_id, m.dict[i].idx)),
            ),
    ensures
        ba_fold(splits, res, seen, decay, m) == (res, seen),
    decreases splits.len(),
{
    if splits.len() > 0 {
        lemma_dict_step_stable(m.dict, Seq::empty(), seen, splits[0].1);
        let sub = dict_step(m.dict, Seq::empty(), seen, splits[0].1);
        assert(sub == (Seq::<ParsedV>::empty(), seen));
        assert(wrap_fold(sub.0, res, sub.1, splits[0].0, decay, m) == (res, seen));
        assert(forall|k: int|
            0 <= k < splits.drop_first().len() ==> splits.drop_first()[k] == splits[k + 1]);
        lemma_ba_fold_stable(splits.drop_first(), res, seen, decay, m);
    }
}

/// Dedup idempotence of the by-analogy unit: run over its own output with
/// the seen-set it filled, it appends nothing, because every dictionary
/// sub-lookup now returns nothing new.
pub proof fn lemma_ba_fold_idempotent(
    splits: Seq<(Seq<char>, Seq<char>)>,
    res: Seq<ParsedV>,
    seen: Seq<SeenV>,
    decay: u64,
    m: MorphV,
)
    ensures
        ({
            let out = ba_fold(splits, res, seen, decay, m);
            ba_fold(splits, out.0, out.1, decay, m) == out
        }),
{
    let out = ba_fold(splits, res, seen, decay, m);
    lemma_ba_fold_covers(splits, res, seen, decay, m);
    lemma_ba_fold_stable(splits, out.0, out.1, decay, m);
}

/// The dictionary transition records exactly one signature per candidate
/// it appends.
proof fn lemma_dict_step_counts(
    entries: Seq<crate::analyzer::DictEntryV>,
    res: Seq<ParsedV>,
    seen: Seq<SeenV>,
    word: Seq<char>,
)
    ensures
        ({
            let out = dict_step(entries, res, seen, word);
            out.1.len() - seen.len() == out.0.len() - res.len()
        }),
    decreases entries.len(),
{
    if entries.len() > 0 {
        let e = entries[0];
        let st = dict_stack_v(e.word, e.para_id, e.idx);
        let key = seen_of_stack(st);
        if e.word == word && !seen_has(seen, key) {
            lemma_dict_step_counts(
                entries.drop_first(),
                res.push(ParsedV { stack: st, score: crate::score::Score::Real(e.score) }),
                seen.push(key),
                word,
            );
        } else {
            lemma_dict_step_counts(entries.drop_first(), res, seen, word);
        }
    }
}

/// Fallback ordering: when the dictionary unit found at least one
/// candidate for the word, the catch-all fallback contributes nothing to
/// that same call, so the pipeline output is exactly what the units before
/// the fallback collected.
pub proof fn lemma_fallback_ordering(m: MorphV, word: Seq<char>)
    ensures
        ({
            let s1 = dict_step(m.dict, Seq::empty(), Seq::empty(), word);
            let s2 = ba_fold(splits_of(word), s1.0, s1.1, m.decay, m);
            let s3 = shape_step(s2.0, s2.1, word, ShapeKind::Latin, spec_is_latin(word));
            let s4 = number_step(s3.0, s3.1, word);
            let s5 = shape_step(
                s4.0,
                s4.1,
                word,
                ShapeKind::Punctuation,
                spec_is_punctuation(word),
            );
            let s6 = shape_step(
                s5.0,
                s5.1,
                word,
                ShapeKind::RomanNumber,
                spec_is_roman_number(word),
            );
            s1.0.len() > 0 ==> pipeline_spec(m, word) == s6
        }),
{
    let s1 = dict_step(m.dict, Seq::empty(), Seq::empty(), word);
    let s2 = ba_fold(splits_of(word), s1.0, s1.1, m.decay, m);
    let s3 = shape_step(s2.0, s2.1, word, ShapeKind::Latin, spec_is_latin(word));
    let s4 = number_step(s3.0, s3.1, word);
    let s5 = shape_step(s4.0, s4.1, word, ShapeKind::Punctuation, spec_is_punctuation(word));
    let s6 = shape_step(s5.0, s5.1, word, ShapeKind::RomanNumber, spec_is_roman_number(word));
    if s1.0.len() > 0 {
        lemma_dict_step_counts(m.dict, Seq::empty(), Seq::empty(), word);
        assert(s1.1.len() > 0);
        lemma_ba_fold_monotone(splits_of(word), s1.0, s1.1, m.decay, m);
        assert(s2.1.len() > 0);
        assert(s3.1.len() > 0);
        assert(s4.1.len() > 0);
        assert(s5.1.len() > 0);
        assert(s6.1.len() > 0);
        assert(unknown_step(s6.0, s6.1, word) == s6);
    }
}

} // verus!
