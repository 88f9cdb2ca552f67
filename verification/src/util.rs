//! Word splitting, the shared dedup-append step, and a no-op profiler.

use crate::lex::{seen_of_stack, seen_has, Parsed, ParseResult, SeenSet};
use crate::text::copy_range;
use vstd::prelude::*;

verus! {

/// The default minimum remainder length of a split.
pub const DEFAULT_MIN_REMINDER: usize = 3;

/// The default maximum prefix length of a split.
pub const DEFAULT_MAX_PREFIX_LENGTH: usize = 5;

/// How many (prefix, remainder) splits a word of `len` characters yields
/// under the given limits: prefixes of one character up to
/// `min(max_prefix_length, len - min_reminder)` characters, and none at all
/// when the word is too short to leave the required remainder.
pub open spec fn split_count(len: int, min_reminder: int, max_prefix_length: int) -> int {
    if len > min_reminder {
        if max_prefix_length <= len - min_reminder {
            max_prefix_length
        } else {
            len - min_reminder
        }
    } else {
        0
    }
}

/// Appends `parsed` to `result` unless its canonical signature was already
/// inserted into `seen_parses`; a newly seen candidate also records its
/// signature there. A duplicate is dropped silently, leaving both
/// accumulators untouched.
pub fn add_parsed_if_not_seen(
    result: &mut ParseResult,
    seen_parses: &mut SeenSet,
    parsed: Parsed,
)
    ensures
        !seen_has(old(seen_parses)@, seen_of_stack(parsed@.stack)) ==> {
            &&& final(result)@ == old(result)@.push(parsed@)
            &&& final(seen_parses)@ == old(seen_parses)@.push(seen_of_stack(parsed@.stack))
        },
        seen_has(old(seen_parses)@, seen_of_stack(parsed@.stack)) ==> {
            &&& final(result)@ == old(result)@
            &&& final(seen_parses)@ == old(seen_parses)@
        },
{
    let seen = parsed.lex.as_seen();
    if seen_parses.insert(seen) {
        result.push(parsed);
    }
}

/// All (prefix, remainder) splits of `word` at successive character
/// boundaries, from a one-character prefix up to the limit: the remainder
/// keeps at least `min_reminder` characters and the prefix at most
/// `max_prefix_length`; a word too short for that yields no split. Absent
/// limits take the defaults of three and five.
pub fn word_splits(
    word: &Vec<char>,
    min_reminder: Option<usize>,
    max_prefix_length: Option<usize>,
) -> (r: Vec<(Vec<char>, Vec<char>)>)
    ensures
        r@.len() == split_count(
            word@.len() as int,
            min_reminder.unwrap_or(DEFAULT_MIN_REMINDER) as int,
            max_prefix_length.unwrap_or(DEFAULT_MAX_PREFIX_LENGTH) as int,
        ),
        forall|i: int|
            0 <= i < r@.len() ==> {
                &&& (#[trigger] r@[i]).0@ == word@.subrange(0, i + 1)
                &&& r@[i].1@ == word@.subrange(i + 1, word@.len() as int)
            },
{
    let min_reminder = match min_reminder {
        Some(v) => v,
        None => DEFAULT_MIN_REMINDER,
    };
    let max_prefix_length = match max_prefix_length {
        Some(v) => v,
        None => DEFAULT_MAX_PREFIX_LENGTH,
    };
    let char_len = word.len();
    let max_split: usize = if char_len > min_reminder {
        let avail = char_len - min_reminder;
        if max_prefix_length < avail {
            max_prefix_length
        } else {
            avail
        }
    } else {
        0
    };
    let mut r: Vec<(Vec<char>, Vec<char>)> = Vec::new();
    let mut k: usize = 0;
    while k < max_split
        invariant
            k <= max_split <= word@.len(),
            r@.len() == k,
            forall|i: int|
                0 <= i < r@.len() ==> {
                    &&& (#[trigger] r@[i]).0@ == word@.subrange(0, i + 1)
                    &&& r@[i].1@ == word@.subrange(i + 1, word@.len() as int)
                },
        decreases max_split - k,
    {
        let prefix = copy_range(word, 0, k + 1);
        let remainder = copy_range(word, k + 1, word.len());
        r.push((prefix, remainder));
        k += 1;
    }
    r
}

/// A profiling stub: the analyzer runs with instrumentation compiled out.
#[derive(Clone, Copy, Debug)]
pub struct DumbProfiler {}

impl DumbProfiler {
    /// Starts a profiling span.
    pub fn start() -> (r: DumbProfiler) {
        DumbProfiler {  }
    }

    /// Marks a waypoint; without instrumentation there is nothing to emit.
    pub fn waypoint(&mut self, _s: &str) {
    }
}

} // verus!
