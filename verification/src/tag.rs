//! Grammatical tags.
//!
//! A tag is a comma/space-separated list of grammemes, e.g. `NOUN,anim,masc`;
//! the first grammeme is the part of speech or a shape marker. A tag is
//! *productive* when its first grammeme names an open word class that still
//! accepts new coinages; only productive sub-parses are eligible for
//! affix-analogy guessing.

use vstd::prelude::*;

verus! {

/// A structured grammatical category label, stored as its registry text.
#[derive(Clone, Debug)]
pub struct OpencorporaTagReg {
    pub string: Vec<char>,
}

impl View for OpencorporaTagReg {
    type V = Seq<char>;

    open spec fn view(&self) -> Seq<char> {
        self.string@
    }
}

/// Whether `c` separates grammemes inside a tag.
pub open spec fn is_gram_sep(c: char) -> bool {
    c == ',' || c == ' '
}

/// Whether the first grammeme of `t` is exactly the four characters
/// `a b c d`.
pub open spec fn first_gram_is4(t: Seq<char>, a: char, b: char, c: char, d: char) -> bool {
    &&& t.len() >= 4
    &&& t[0] == a
    &&& t[1] == b
    &&& t[2] == c
    &&& t[3] == d
    &&& (t.len() == 4 || is_gram_sep(t[4]))
}

/// The closed set of non-productive first grammemes: closed word classes
/// (numerals, pronouns, predicatives, prepositions, conjunctions, particles,
/// interjections, pronominal adjectives) and the shape/unknown markers.
pub open spec fn spec_is_productive(t: Seq<char>) -> bool {
    &&& !first_gram_is4(t, 'N', 'U', 'M', 'R')
    &&& !first_gram_is4(t, 'N', 'P', 'R', 'O')
    &&& !first_gram_is4(t, 'P', 'R', 'E', 'D')
    &&& !first_gram_is4(t, 'P', 'R', 'E', 'P')
    &&& !first_gram_is4(t, 'C', 'O', 'N', 'J')
    &&& !first_gram_is4(t, 'P', 'R', 'C', 'L')
    &&& !first_gram_is4(t, 'I', 'N', 'T', 'J')
    &&& !first_gram_is4(t, 'A', 'p', 'r', 'o')
    &&& !first_gram_is4(t, 'L', 'A', 'T', 'N')
    &&& !first_gram_is4(t, 'P', 'N', 'C', 'T')
    &&& !first_gram_is4(t, 'R', 'O', 'M', 'N')
    &&& !first_gram_is4(t, 'N', 'U', 'M', 'B')
    &&& !first_gram_is4(t, 'U', 'N', 'K', 'N')
}

impl OpencorporaTagReg {
    /// Wraps registry text as a tag.
    pub fn new(string: Vec<char>) -> (r: Self)
        ensures
            r@ == string@,
    {
        OpencorporaTagReg { string }
    }

    /// Whether the first grammeme is exactly `a b c d`.
    fn first_gram_matches4(&self, a: char, b: char, c: char, d: char) -> (r: bool)
        ensures
            r == first_gram_is4(self@, a, b, c, d),
    {
        if self.string.len() < 4 {
            return false;
        }
        if !(self.string[0] == a && self.string[1] == b && self.string[2] == c && self.string[3]
            == d) {
            return false;
        }
        if self.string.len() == 4 {
            true
        } else {
            let e = self.string[4];
            e == ',' || e == ' '
        }
    }

    /// Whether this tag belongs to an open, inflecting word class.
    pub fn is_productive(&self) -> (r: bool)
        ensures
            r == spec_is_productive(self@),
    {
        !(self.first_gram_matches4('N', 'U', 'M', 'R') || self.first_gram_matches4(
            'N',
            'P',
            'R',
            'O',
        ) || self.first_gram_matches4('P', 'R', 'E', 'D') || self.first_gram_matches4(
            'P',
            'R',
            'E',
            'P',
        ) || self.first_gram_matches4('C', 'O', 'N', 'J') || self.first_gram_matches4(
            'P',
            'R',
            'C',
            'L',
        ) || self.first_gram_matches4('I', 'N', 'T', 'J') || self.first_gram_matches4(
            'A',
            'p',
            'r',
            'o',
        ) || self.first_gram_matches4('L', 'A', 'T', 'N') || self.first_gram_matches4(
            'P',
            'N',
            'C',
            'T',
        ) || self.first_gram_matches4('R', 'O', 'M', 'N') || self.first_gram_matches4(
            'N',
            'U',
            'M',
            'B',
        ) || self.first_gram_matches4('U', 'N', 'K', 'N'))
    }
}

} // verus!
