//! The bit-exact textual codec for derivation stacks.
//!
//! A stack is rendered to a compact token stream: each node kind emits its
//! own literal tag prefix followed by its payload, recursively delegating to
//! its child. The field separator `;` and the escape character `\` are
//! escaped inside word text on encode and reversed on decode. Decoding is a
//! left-to-right consuming parser: it returns the built node and the
//! unconsumed remainder, reports a token of an unknown kind as
//! `UnknownPartType`, and any malformed payload as a hard failure.
//!
//! The grammar, with `w` an escaped word and `n` a decimal number:
//!
//! - dictionary match: `d:` w `;` n `,` n (paradigm id, form index)
//! - shaped token: `sl:` / `si:` / `sr:` / `sp:` / `sn:` w
//!   (Latin, integer, real, punctuation, Roman)
//! - unknown word: `u:` w
//! - hyphen particle: `hp:` w
//! - affix wrap: `ap:` / `au:` / `as:` w `;` source
//!   (known prefix, unknown prefix, known suffix)
//! - hyphen compound: `hw:` left `;-` right; a stack with no right half
//!   encodes transparently as its left half, with no `hw:` tag.
//!
//! Every tag pair is distinct, so one full top-level token decodes back to
//! exactly the stack that produced it; `lemma_codec_round_trip` proves it.

use crate::stack::{
    Affix, AffixKind, AffixV, DictionaryNode, HyphenSeparatedParticle, ShapeKind, Shaped,
    SourceV, StackAffix, StackAffixV, StackHyphenated, StackHyphenatedV, StackSource, Unknown,
};
use crate::text::push_chars;
use vstd::prelude::*;

verus! {

/// Why a token stream failed to decode.
#[derive(Clone, Copy, Debug, PartialEq, Eq, Structural)]
pub enum DecodeError {
    /// The stream starts with no known node tag.
    UnknownPartType,
    /// The stream ended inside a token.
    Truncated,
    /// The escape character is followed by nothing or by an unescapable
    /// character.
    BadEscape,
    /// A numeric field does not fit the machine word.
    NumberOverflow,
    /// A required separator or numeric field is missing.
    Malformed,
}

// ---------------------------------------------------------------------------
// Escaped words
// ---------------------------------------------------------------------------
/// Whether `c` must be escaped inside word text.
pub open spec fn is_reserved(c: char) -> bool {
    c == ';' || c == '\\'
}

/// The escaped rendering of one word character.
pub open spec fn escape_char(c: char) -> Seq<char> {
    if is_reserved(c) {
        seq!['\\', c]
    } else {
        seq![c]
    }
}

/// The escaped rendering of a whole word.
pub open spec fn escape(w: Seq<char>) -> Seq<char>
    decreases w.len(),
{
    if w.len() == 0 {
        Seq::empty()
    } else {
        escape_char(w[0]) + escape(w.drop_first())
    }
}

/// Reads an escaped word from the front of `s`, up to the next unescaped
/// `;` or the end of the stream: the word read and the remainder, or
/// nothing when an escape sequence is malformed or cut short.
pub open spec fn take_word(s: Seq<char>) -> Option<(Seq<char>, Seq<char>)>
    decreases s.len(),
{
    if s.len() == 0 {
        Some((Seq::empty(), s))
    } else if s[0] == ';' {
        Some((Seq::empty(), s))
    } else if s[0] == '\\' {
        if s.len() >= 2 && is_reserved(s[1]) {
            match take_word(s.skip(2)) {
                Some((w, rest)) => Some((seq![s[1]] + w, rest)),
                None => None,
            }
        } else {
            None
        }
    } else {
        match take_word(s.drop_first()) {
            Some((w, rest)) => Some((seq![s[0]] + w, rest)),
            None => None,
        }
    }
}

/// Escaping then reading gives the word back untouched, with the trailer
/// intact, provided the trailer cannot be mistaken for word text: it is
/// empty or starts with the separator.
pub proof fn lemma_take_word_escape(w: Seq<char>, rest: Seq<char>)
    requires
        rest.len() == 0 || rest[0] == ';',
    ensures
        take_word(escape(w) + rest) == Some((w, rest)),
    decreases w.len(),
{
    if w.len() == 0 {
        assert(escape(w) + rest =~= rest);
    } else {
        let c = w[0];
        let tail = w.drop_first();
        let s = escape(w) + rest;
        assert(escape(w) == escape_char(c) + escape(tail));
        lemma_take_word_escape(tail, rest);
        if is_reserved(c) {
            assert(s =~= seq!['\\', c] + (escape(tail) + rest));
            assert(s[0] == '\\');
            assert(s[1] == c);
            assert(s.skip(2) =~= escape(tail) + rest);
            assert(take_word(s) == Some((seq![c] + tail, rest)));
            assert(seq![c] + tail =~= w);
        } else {
            assert(s =~= seq![c] + (escape(tail) + rest));
            assert(s[0] == c);
            assert(s.drop_first() =~= escape(tail) + rest);
            assert(take_word(s) == Some((seq![c] + tail, rest)));
            assert(seq![c] + tail =~= w);
        }
    }
}

/// Appends the escaped rendering of `w` to `out`.
pub fn push_escaped(out: &mut Vec<char>, w: &Vec<char>)
    ensures
        final(out)@ == old(out)@ + escape(w@),
{
    let mut i: usize = 0;
    while i < w.len()
        invariant
            i <= w@.len(),
            out@ == old(out)@ + escape(w@.subrange(0, i as int)),
        decreases w@.len() - i,
    {
        let c = w[i];
        if c == ';' || c == '\\' {
            out.push('\\');
            out.push(c);
        } else {
            out.push(c);
        }
        i += 1;
        proof {
            lemma_escape_snoc(w@.subrange(0, i - 1), c);
            assert(w@.subrange(0, i as int) =~= w@.subrange(0, i - 1).push(c));
            assert(out@ =~= old(out)@ + escape(w@.subrange(0, i as int)));
        }
    }
    proof {
        assert(w@.subrange(0, w@.len() as int) =~= w@);
    }
}

/// Escaping distributes over appending one character.
proof fn lemma_escape_snoc(w: Seq<char>, c: char)
    ensures
        escape(w.push(c)) == escape(w) + escape_char(c),
    decreases w.len(),
{
    if w.len() == 0 {
        assert(w.push(c)[0] == c);
        assert(w.push(c).drop_first() =~= Seq::<char>::empty());
        assert(escape(w.push(c)) == escape_char(c) + escape(Seq::<char>::empty()));
        assert(escape_char(c) + escape(Seq::<char>::empty()) =~= escape_char(c));
        assert(escape(w) + escape_char(c) =~= escape_char(c));
    } else {
        assert(w.push(c)[0] == w[0]);
        assert(w.push(c).drop_first() =~= w.drop_first().push(c));
        lemma_escape_snoc(w.drop_first(), c);
        assert(escape(w.push(c)) == escape_char(w[0]) + (escape(w.drop_first()) + escape_char(c)));
        assert(escape_char(w[0]) + (escape(w.drop_first()) + escape_char(c)) =~= escape(w)
            + escape_char(c));
    }
}

/// Reads an escaped word starting at `pos`, stopping before the next
/// unescaped `;` or at the end: the word and the index just past what was
/// consumed, mirroring `take_word` on the remainder of the stream.
pub fn read_word(s: &Vec<char>, pos: usize) -> (r: Result<(Vec<char>, usize), DecodeError>)
    requires
        pos <= s@.len(),
    ensures
        match r {
            Ok((w, p)) => {
                &&& pos <= p <= s@.len()
                &&& take_word(s@.skip(pos as int)) == Some((w@, s@.skip(p as int)))
                &&& (p == s@.len() || s@[p as int] == ';')
            },
            Err(_) => take_word(s@.skip(pos as int)) is None,
        },
{
    let mut i: usize = pos;
    let mut acc: Vec<char> = Vec::new();
    loop
        invariant
            pos <= i <= s@.len(),
            take_word(s@.skip(pos as int)) == match take_word(s@.skip(i as int)) {
                Some((w, rest)) => Some((acc@ + w, rest)),
                None => None::<(Seq<char>, Seq<char>)>,
            },
        decreases s@.len() - i,
    {
        proof {
            assert(s@.skip(i as int).len() == s@.len() - i);
        }
        if i == s.len() {
            proof {
                assert(take_word(s@.skip(i as int)) == Some(
                    (Seq::<char>::empty(), s@.skip(i as int)),
                ));
                assert(acc@ + Seq::<char>::empty() =~= acc@);
            }
            return Ok((acc, i));
        }
        let c = s[i];
        proof {
            assert(s@.skip(i as int)[0] == s@[i as int]);
        }
        if c == ';' {
            proof {
                assert(take_word(s@.skip(i as int)) == Some(
                    (Seq::<char>::empty(), s@.skip(i as int)),
                ));
                assert(acc@ + Seq::<char>::empty() =~= acc@);
            }
            return Ok((acc, i));
        } else if c == '\\' {
            if i + 1 == s.len() {
                return Err(DecodeError::BadEscape);
            }
            let e = s[i + 1];
            proof {
                assert(s@.skip(i as int)[1] == s@[i + 1]);
            }
            if e == ';' || e == '\\' {
                acc.push(e);
                proof {
                    assert(s@.skip(i as int).skip(2) =~= s@.skip(i + 2));
                    if let Some((w, rest)) = take_word(s@.skip(i + 2)) {
                        assert(acc@ + w =~= acc@.drop_last() + (seq![e] + w));
                    }
                }
                i += 2;
            } else {
                return Err(DecodeError::BadEscape);
            }
        } else {
            acc.push(c);
            proof {
                assert(s@.skip(i as int).drop_first() =~= s@.skip(i + 1));
                if let Some((w, rest)) = take_word(s@.skip(i + 1)) {
                    assert(acc@ + w =~= acc@.drop_last() + (seq![c] + w));
                }
            }
            i += 1;
        }
    }
}

// ---------------------------------------------------------------------------
// Decimal numbers
// ---------------------------------------------------------------------------
/// Whether `c` is a decimal digit.
pub open spec fn is_digit_char(c: char) -> bool {
    '0' <= c && c <= '9'
}

/// The numeric value of a digit character.
pub open spec fn digit_val(c: char) -> int {
    c as int - '0' as int
}

/// The digit character for a value below ten.
pub open spec fn digit_char(d: int) -> char {
    if d == 0 {
        '0'
    } else if d == 1 {
        '1'
    } else if d == 2 {
        '2'
    } else if d == 3 {
        '3'
    } else if d == 4 {
        '4'
    } else if d == 5 {
        '5'
    } else if d == 6 {
        '6'
    } else if d == 7 {
        '7'
    } else if d == 8 {
        '8'
    } else {
        '9'
    }
}

/// The decimal rendering of `n`, most significant digit first.
pub open spec fn digits(n: nat) -> Seq<char>
    decreases n,
{
    if n < 10 {
        seq![digit_char(n as int)]
    } else {
        digits(n / 10) + seq![digit_char((n % 10) as int)]
    }
}

/// Greedily consumes decimal digits from the front of `s` into `acc`.
pub open spec fn parse_num_loop(s: Seq<char>, acc: nat) -> (nat, Seq<char>)
    decreases s.len(),
{
    if s.len() > 0 && is_digit_char(s[0]) {
        parse_num_loop(s.drop_first(), acc * 10 + digit_val(s[0]) as nat)
    } else {
        (acc, s)
    }
}

/// Reads a decimal number from the front of `s`: its value and the
/// remainder, or nothing when no digit is there to read.
pub open spec fn parse_num(s: Seq<char>) -> Option<(nat, Seq<char>)> {
    if s.len() > 0 && is_digit_char(s[0]) {
        Some(parse_num_loop(s, 0))
    } else {
        None
    }
}

/// Ten to the `k`.
pub open spec fn pow10(k: nat) -> nat
    decreases k,
{
    if k == 0 {
        1
    } else {
        10 * pow10((k - 1) as nat)
    }
}

/// How many digits the decimal rendering of `n` has.
pub open spec fn num_digits(n: nat) -> nat
    decreases n,
{
    if n < 10 {
        1
    } else {
        1 + num_digits(n / 10)
    }
}

/// The digit characters are digits and carry their value.
proof fn lemma_digit_char_val(d: int)
    requires
        0 <= d < 10,
    ensures
        is_digit_char(digit_char(d)),
        digit_val(digit_char(d)) == d,
{
}

/// The decimal rendering starts with a digit.
proof fn lemma_digits_first_is_digit(n: nat)
    ensures
        digits(n).len() >= 1,
        is_digit_char(digits(n)[0]),
    decreases n,
{
    if n < 10 {
        lemma_digit_char_val(n as int);
    } else {
        lemma_digits_first_is_digit(n / 10);
        assert(digits(n)[0] == digits(n / 10)[0]);
    }
}

/// Consuming the rendering of `n` multiplies the accumulator by the
/// matching power of ten and adds `n`.
proof fn lemma_parse_digits(n: nat, rest: Seq<char>, acc: nat)
    ensures
        parse_num_loop(digits(n) + rest, acc) == parse_num_loop(
            rest,
            acc * pow10(num_digits(n)) + n,
        ),
    decreases n,
{
    if n < 10 {
        lemma_digit_char_val(n as int);
        let s = digits(n) + rest;
        assert(s[0] == digit_char(n as int));
        assert(s.drop_first() =~= rest);
        assert(pow10(1) == 10 * pow10(0));
        assert(num_digits(n) == 1);
        assert(acc * pow10(1) == acc * 10) by (nonlinear_arith)
            requires
                pow10(1) == 10,
        ;
    } else {
        let d = (n % 10) as int;
        lemma_digit_char_val(d);
        assert(digits(n) + rest =~= digits(n / 10) + (seq![digit_char(d)] + rest));
        lemma_parse_digits(n / 10, seq![digit_char(d)] + rest, acc);
        let mid = (acc * pow10(num_digits(n / 10)) + n / 10) as nat;
        let s2 = seq![digit_char(d)] + rest;
        assert(s2[0] == digit_char(d));
        assert(s2.drop_first() =~= rest);
        assert(parse_num_loop(s2, mid) == parse_num_loop(rest, mid * 10 + digit_val(s2[0]) as nat));
        assert(mid * 10 + d == acc * pow10(num_digits(n)) + n) by (nonlinear_arith)
            requires
                mid == acc * pow10(num_digits(n / 10)) + n / 10,
                pow10(num_digits(n)) == 10 * pow10(num_digits(n / 10)),
                d == n % 10,
                n >= 10,
        {
            assert(n / 10 * 10 + n % 10 == n);
        }
    }
}

/// Reading a rendered number gives the value back, with the trailer
/// intact, provided the trailer does not start with another digit.
pub proof fn lemma_parse_num_digits(n: nat, rest: Seq<char>)
    requires
        rest.len() == 0 || !is_digit_char(rest[0]),
    ensures
        parse_num(digits(n) + rest) == Some((n, rest)),
{
    lemma_digits_first_is_digit(n);
    assert((digits(n) + rest)[0] == digits(n)[0]);
    lemma_parse_digits(n, rest, 0);
    assert(parse_num_loop(rest, 0 * pow10(num_digits(n)) + n) == parse_num_loop(rest, n));
}

/// The accumulator never shrinks while digits are consumed.
proof fn lemma_parse_num_loop_grows(s: Seq<char>, acc: nat)
    ensures
        parse_num_loop(s, acc).0 >= acc,
    decreases s.len(),
{
    if s.len() > 0 && is_digit_char(s[0]) {
        lemma_parse_num_loop_grows(s.drop_first(), acc * 10 + digit_val(s[0]) as nat);
    }
}

/// Appends the decimal rendering of `n` to `out`.
pub fn push_number(out: &mut Vec<char>, n: usize)
    ensures
        final(out)@ == old(out)@ + digits(n as nat),
    decreases n,
{
    if n >= 10 {
        push_number(out, n / 10);
    }
    let d = n % 10;
    let c = match d {
        0 => '0',
        1 => '1',
        2 => '2',
        3 => '3',
        4 => '4',
        5 => '5',
        6 => '6',
        7 => '7',
        8 => '8',
        _ => '9',
    };
    proof {
        assert(c == digit_char((n % 10) as int));
    }
    out.push(c);
    proof {
        if n < 10 {
            assert(old(out)@ + digits(n as nat) =~= old(out)@.push(c));
        } else {
            assert(old(out)@ + digits(n as nat) =~= (old(out)@ + digits((n / 10) as nat)).push(c));
        }
    }
}

/// Reads a decimal number starting at `pos`, mirroring `parse_num` on the
/// remainder of the stream; a value over the machine word is reported as
/// `NumberOverflow`, a missing digit as `Malformed`.
pub fn read_number(s: &Vec<char>, pos: usize) -> (r: Result<(usize, usize), DecodeError>)
    requires
        pos <= s@.len(),
    ensures
        match r {
            Ok((v, p)) => {
                &&& pos <= p <= s@.len()
                &&& parse_num(s@.skip(pos as int)) == Some((v as nat, s@.skip(p as int)))
            },
            Err(DecodeError::Malformed) => parse_num(s@.skip(pos as int)) is None,
            Err(DecodeError::NumberOverflow) => match parse_num(s@.skip(pos as int)) {
                Some((v, _)) => v > usize::MAX,
                None => false,
            },
            Err(_) => false,
        },
{
    proof {
        assert(s@.skip(pos as int).len() == s@.len() - pos);
        if s@.len() - pos > 0 {
            assert(s@.skip(pos as int)[0] == s@[pos as int]);
        }
    }
    if pos == s.len() {
        return Err(DecodeError::Malformed);
    }
    let c0 = s[pos];
    if !(c0 >= '0' && c0 <= '9') {
        return Err(DecodeError::Malformed);
    }
    let mut i: usize = pos;
    let mut acc: usize = 0;
    loop
        invariant
            pos < s@.len(),
            pos <= i <= s@.len(),
            is_digit_char(s@[pos as int]),
            s@.skip(pos as int)[0] == s@[pos as int],
            parse_num_loop(s@.skip(pos as int), 0) == parse_num_loop(s@.skip(i as int), acc as nat),
        decreases s@.len() - i,
    {
        proof {
            assert(s@.skip(i as int).len() == s@.len() - i);
            if s@.len() - i > 0 {
                assert(s@.skip(i as int)[0] == s@[i as int]);
            }
        }
        if i == s.len() {
            proof {
                assert(is_digit_char(s@.skip(pos as int)[0]));
                assert(parse_num_loop(s@.skip(i as int), acc as nat) == (
                    acc as nat,
                    s@.skip(i as int),
                ));
            }
            return Ok((acc, i));
        }
        let c = s[i];
        if !(c >= '0' && c <= '9') {
            proof {
                assert(is_digit_char(s@.skip(pos as int)[0]));
                assert(!is_digit_char(s@.skip(i as int)[0]));
                assert(parse_num_loop(s@.skip(i as int), acc as nat) == (
                    acc as nat,
                    s@.skip(i as int),
                ));
            }
            return Ok((acc, i));
        }
        let d = (c as u32 - '0' as u32) as usize;
        proof {
            assert(d == digit_val(c));
            lemma_parse_num_loop_grows(s@.skip(i as int).drop_first(), acc as nat * 10 + d as nat);
            assert(s@.skip(i as int).drop_first() =~= s@.skip(i + 1));
        }
        if acc > (usize::MAX - d) / 10 {
            proof {
                assert(acc as nat * 10 + d as nat > usize::MAX) by (nonlinear_arith)
                    requires
                        acc > (usize::MAX - d) / 10,
                        0 <= d <= 9,
                ;
            }
            return Err(DecodeError::NumberOverflow);
        }
        acc = acc * 10 + d;
        i += 1;
    }
}

// ---------------------------------------------------------------------------
// The node grammar
// ---------------------------------------------------------------------------
/// The tag letter of a shape kind.
pub open spec fn shape_char(k: ShapeKind) -> char {
    match k {
        ShapeKind::Latin => 'l',
        ShapeKind::Number { is_float } => if is_float {
            'r'
        } else {
            'i'
        },
        ShapeKind::Punctuation => 'p',
        ShapeKind::RomanNumber => 'n',
    }
}

/// Whether `c` is the tag letter of some shape kind.
pub open spec fn is_shape_char(c: char) -> bool {
    c == 'l' || c == 'i' || c == 'r' || c == 'p' || c == 'n'
}

/// The shape kind a tag letter names.
pub open spec fn shape_of_char(c: char) -> ShapeKind {
    if c == 'l' {
        ShapeKind::Latin
    } else if c == 'i' {
        ShapeKind::Number { is_float: false }
    } else if c == 'r' {
        ShapeKind::Number { is_float: true }
    } else if c == 'p' {
        ShapeKind::Punctuation
    } else {
        ShapeKind::RomanNumber
    }
}

/// The tag letter of an affix kind.
pub open spec fn affix_kind_char(k: AffixKind) -> char {
    match k {
        AffixKind::KnownPrefix => 'p',
        AffixKind::UnknownPrefix => 'u',
        AffixKind::KnownSuffix => 's',
    }
}

/// Whether `c` is the tag letter of some affix kind.
pub open spec fn is_affix_kind_char(c: char) -> bool {
    c == 'p' || c == 'u' || c == 's'
}

/// The affix kind a tag letter names.
pub open spec fn affix_kind_of_char(c: char) -> AffixKind {
    if c == 'p' {
        AffixKind::KnownPrefix
    } else if c == 'u' {
        AffixKind::UnknownPrefix
    } else {
        AffixKind::KnownSuffix
    }
}

/// The token stream of a terminal source.
pub open spec fn encode_source(s: SourceV) -> Seq<char> {
    match s {
        SourceV::Dictionary { word, para_id, idx } => seq!['d', ':'] + escape(word) + seq![';']
            + digits(para_id as nat) + seq![','] + digits(idx as nat),
        SourceV::Shaped { word, kind } => seq!['s', shape_char(kind), ':'] + escape(word),
        SourceV::Unknown { word } => seq!['u', ':'] + escape(word),
        SourceV::Particle { particle } => seq!['h', 'p', ':'] + escape(particle),
    }
}

/// The token stream of an affix stack: a bare source encodes transparently.
pub open spec fn encode_affix(a: StackAffixV) -> Seq<char> {
    match a.affix {
        None => encode_source(a.stack),
        Some(af) => seq!['a', affix_kind_char(af.kind), ':'] + escape(af.part) + seq![';']
            + encode_source(a.stack),
    }
}

/// The token stream of a whole stack: only a two-sided compound emits the
/// `hw:` tag; a one-sided stack encodes transparently as its left half.
pub open spec fn encode_stack(h: StackHyphenatedV) -> Seq<char> {
    match h.right {
        None => encode_affix(h.left),
        Some(r) => seq!['h', 'w', ':'] + encode_affix(h.left) + seq![';', '-'] + encode_affix(r),
    }
}

/// Whether the numeric fields of a source fit the machine word, as those
/// of every source built by the analyzer do.
pub open spec fn source_v_encodable(s: SourceV) -> bool {
    match s {
        SourceV::Dictionary { para_id, idx, .. } => {
            &&& 0 <= para_id <= usize::MAX
            &&& 0 <= idx <= usize::MAX
        },
        _ => true,
    }
}

pub open spec fn affix_v_encodable(a: StackAffixV) -> bool {
    source_v_encodable(a.stack)
}

pub open spec fn stack_v_encodable(h: StackHyphenatedV) -> bool {
    &&& affix_v_encodable(h.left)
    &&& match h.right {
        None => true,
        Some(r) => affix_v_encodable(r),
    }
}

/// Decodes one terminal source from the front of `s`.
pub open spec fn decode_source(s: Seq<char>) -> Option<(SourceV, Seq<char>)> {
    if s.len() >= 2 && s[0] == 'd' && s[1] == ':' {
        match take_word(s.skip(2)) {
            Some((w, r1)) => if r1.len() >= 1 && r1[0] == ';' {
                match parse_num(r1.skip(1)) {
                    Some((para, r2)) => if r2.len() >= 1 && r2[0] == ',' {
                        match parse_num(r2.skip(1)) {
                            Some((idx, r3)) => if para <= usize::MAX && idx <= usize::MAX {
                                Some(
                                    (
                                        SourceV::Dictionary {
                                            word: w,
                                            para_id: para as int,
                                            idx: idx as int,
                                        },
                                        r3,
                                    ),
                                )
                            } else {
                                None
                            },
                            None => None,
                        }
                    } else {
                        None
                    },
                    None => None,
                }
            } else {
                None
            },
            None => None,
        }
    } else if s.len() >= 3 && s[0] == 's' && is_shape_char(s[1]) && s[2] == ':' {
        match take_word(s.skip(3)) {
            Some((w, r)) => Some((SourceV::Shaped { word: w, kind: shape_of_char(s[1]) }, r)),
            None => None,
        }
    } else if s.len() >= 2 && s[0] == 'u' && s[1] == ':' {
        match take_word(s.skip(2)) {
            Some((w, r)) => Some((SourceV::Unknown { word: w }, r)),
            None => None,
        }
    } else if s.len() >= 3 && s[0] == 'h' && s[1] == 'p' && s[2] == ':' {
        match take_word(s.skip(3)) {
            Some((w, r)) => Some((SourceV::Particle { particle: w }, r)),
            None => None,
        }
    } else {
        None
    }
}

/// Decodes one affix stack from the front of `s`.
pub open spec fn decode_affix(s: Seq<char>) -> Option<(StackAffixV, Seq<char>)> {
    if s.len() >= 3 && s[0] == 'a' && is_affix_kind_char(s[1]) && s[2] == ':' {
        match take_word(s.skip(3)) {
            Some((part, r1)) => if r1.len() >= 1 && r1[0] == ';' {
                match decode_source(r1.skip(1)) {
                    Some((src, r2)) => Some(
                        (
                            StackAffixV {
                                stack: src,
                                affix: Some(AffixV { part, kind: affix_kind_of_char(s[1]) }),
                            },
                            r2,
                        ),
                    ),
                    None => None,
                }
            } else {
                None
            },
            None => None,
        }
    } else {
        match decode_source(s) {
            Some((src, r)) => Some((StackAffixV { stack: src, affix: None }, r)),
            None => None,
        }
    }
}

/// Decodes one whole stack from the front of `s`.
pub open spec fn decode_stack(s: Seq<char>) -> Option<(StackHyphenatedV, Seq<char>)> {
    if s.len() >= 3 && s[0] == 'h' && s[1] == 'w' && s[2] == ':' {
        match decode_affix(s.skip(3)) {
            Some((left, r1)) => if r1.len() >= 2 && r1[0] == ';' && r1[1] == '-' {
                match decode_affix(r1.skip(2)) {
                    Some((right, r2)) => Some((StackHyphenatedV { left, right: Some(right) }, r2)),
                    None => None,
                }
            } else {
                None
            },
            None => None,
        }
    } else {
        match decode_affix(s) {
            Some((l, r)) => Some((StackHyphenatedV { left: l, right: None }, r)),
            None => None,
        }
    }
}

// ---------------------------------------------------------------------------
// The round-trip law
// ---------------------------------------------------------------------------
/// Decoding inverts encoding for a terminal source, with any trailer that
/// starts at a separator (or is empty) left untouched.
#[verifier::rlimit(50)]
proof fn lemma_rt_source(src: SourceV, rest: Seq<char>)
    requires
        source_v_encodable(src),
        rest.len() == 0 || rest[0] == ';',
    ensures
        decode_source(encode_source(src) + rest) == Some((src, rest)),
{
    let s = encode_source(src) + rest;
    match src {
        SourceV::Dictionary { word, para_id, idx } => {
            let ew = escape(word);
            let d1 = digits(para_id as nat);
            let d2 = digits(idx as nat);
            let after_word = seq![';'] + d1 + seq![','] + d2 + rest;
            assert(s[0] == 'd');
            assert(s[1] == ':');
            assert(s.skip(2) =~= ew + after_word);
            assert(after_word[0] == ';');
            lemma_take_word_escape(word, after_word);
            assert(after_word.skip(1) =~= d1 + (seq![','] + d2 + rest));
            assert((seq![','] + d2 + rest)[0] == ',');
            lemma_parse_num_digits(para_id as nat, seq![','] + d2 + rest);
            assert((seq![','] + d2 + rest).skip(1) =~= d2 + rest);
            lemma_parse_num_digits(idx as nat, rest);
        },
        SourceV::Shaped { word, kind } => {
            assert(s[0] == 's');
            assert(s[1] == shape_char(kind));
            assert(s[2] == ':');
            assert(is_shape_char(shape_char(kind)));
            assert(shape_of_char(shape_char(kind)) == kind);
            assert(s.skip(3) =~= escape(word) + rest);
            lemma_take_word_escape(word, rest);
        },
        SourceV::Unknown { word } => {
            assert(s[0] == 'u');
            assert(s[1] == ':');
            assert(s.skip(2) =~= escape(word) + rest);
            lemma_take_word_escape(word, rest);
        },
        SourceV::Particle { particle } => {
            assert(s[0] == 'h');
            assert(s[1] == 'p');
            assert(s[2] == ':');
            assert(s.skip(3) =~= escape(particle) + rest);
            lemma_take_word_escape(particle, rest);
        },
    }
}

/// A source token never starts with the affix tag letter.
proof fn lemma_source_not_affix_tag(src: SourceV, rest: Seq<char>)
    ensures
        (encode_source(src) + rest)[0] != 'a',
        (encode_source(src) + rest).len() >= 2,
{
    match src {
        SourceV::Dictionary { .. } => assert((encode_source(src) + rest)[0] == 'd'),
        SourceV::Shaped { .. } => assert((encode_source(src) + rest)[0] == 's'),
        SourceV::Unknown { .. } => assert((encode_source(src) + rest)[0] == 'u'),
        SourceV::Particle { .. } => assert((encode_source(src) + rest)[0] == 'h'),
    }
}

/// Decoding inverts encoding for an affix stack.
proof fn lemma_rt_affix(a: StackAffixV, rest: Seq<char>)
    requires
        affix_v_encodable(a),
        rest.len() == 0 || rest[0] == ';',
    ensures
        decode_affix(encode_affix(a) + rest) == Some((a, rest)),
{
    let s = encode_affix(a) + rest;
    match a.affix {
        None => {
            lemma_source_not_affix_tag(a.stack, rest);
            lemma_rt_source(a.stack, rest);
            assert(s =~= encode_source(a.stack) + rest);
        },
        Some(af) => {
            assert(s[0] == 'a');
            assert(s[1] == affix_kind_char(af.kind));
            assert(s[2] == ':');
            assert(is_affix_kind_char(affix_kind_char(af.kind)));
            assert(affix_kind_of_char(affix_kind_char(af.kind)) == af.kind);
            let after_part = seq![';'] + encode_source(a.stack) + rest;
            assert(s.skip(3) =~= escape(af.part) + after_part);
            assert(after_part[0] == ';');
            lemma_take_word_escape(af.part, after_part);
            assert(after_part.skip(1) =~= encode_source(a.stack) + rest);
            lemma_rt_source(a.stack, rest);
        },
    }
}

/// An affix or source token never starts with the compound tag `hw:`.
proof fn lemma_affix_not_compound_tag(a: StackAffixV, rest: Seq<char>)
    ensures
        (encode_affix(a) + rest).len() < 3 || (encode_affix(a) + rest)[0] != 'h' || (encode_affix(a)
            + rest)[1] != 'w',
{
    let s = encode_affix(a) + rest;
    match a.affix {
        None => {
            match a.stack {
                SourceV::Dictionary { .. } => assert(s[0] == 'd'),
                SourceV::Shaped { .. } => assert(s[0] == 's'),
                SourceV::Unknown { .. } => assert(s[0] == 'u'),
                SourceV::Particle { .. } => {
                    assert(s[0] == 'h');
                    assert(s[1] == 'p');
                },
            }
        },
        Some(_) => assert(s[0] == 'a'),
    }
}

/// Decoding inverts encoding for a whole stack, with the trailer intact.
pub proof fn lemma_rt_stack(h: StackHyphenatedV, rest: Seq<char>)
    requires
        stack_v_encodable(h),
        rest.len() == 0 || rest[0] == ';',
    ensures
        decode_stack(encode_stack(h) + rest) == Some((h, rest)),
{
    let s = encode_stack(h) + rest;
    match h.right {
        None => {
            lemma_affix_not_compound_tag(h.left, rest);
            lemma_rt_affix(h.left, rest);
            assert(s =~= encode_affix(h.left) + rest);
            assert(StackHyphenatedV { left: h.left, right: None } == h);
        },
        Some(r) => {
            assert(s[0] == 'h');
            assert(s[1] == 'w');
            assert(s[2] == ':');
            let mid = seq![';', '-'] + encode_affix(r) + rest;
            assert(s.skip(3) =~= encode_affix(h.left) + mid);
            assert(mid[0] == ';');
            lemma_rt_affix(h.left, mid);
            assert(mid[1] == '-');
            assert(mid.skip(2) =~= encode_affix(r) + rest);
            lemma_rt_affix(r, rest);
        },
    }
}

/// The round-trip law: decoding the token stream of any encodable stack
/// rebuilds exactly that stack and consumes the whole stream, so encoding
/// the decoded value is byte-identical to the original stream.
pub proof fn lemma_codec_round_trip(h: StackHyphenatedV)
    requires
        stack_v_encodable(h),
    ensures
        decode_stack(encode_stack(h)) == Some((h, Seq::<char>::empty())),
{
    lemma_rt_stack(h, Seq::<char>::empty());
    assert(encode_stack(h) + Seq::<char>::empty() =~= encode_stack(h));
}

// ---------------------------------------------------------------------------
// Executable encoder
// ---------------------------------------------------------------------------
impl StackSource {
    /// Appends this source's token stream to `out`.
    pub fn write_encoded(&self, out: &mut Vec<char>)
        ensures
            final(out)@ == old(out)@ + encode_source(self@),
    {
        match self {
            StackSource::Dictionary(d) => {
                out.push('d');
                out.push(':');
                push_escaped(out, &d.word_lower);
                out.push(';');
                push_number(out, d.para_id);
                out.push(',');
                push_number(out, d.idx);
                proof {
                    assert(out@ =~= old(out)@ + encode_source(self@));
                }
            },
            StackSource::Shaped(sh) => {
                out.push('s');
                let k = match sh.kind {
                    ShapeKind::Latin => 'l',
                    ShapeKind::Number { is_float } => if is_float {
                        'r'
                    } else {
                        'i'
                    },
                    ShapeKind::Punctuation => 'p',
                    ShapeKind::RomanNumber => 'n',
                };
                out.push(k);
                out.push(':');
                push_escaped(out, &sh.word_lower);
                proof {
                    assert(k == shape_char(sh.kind));
                    assert(out@ =~= old(out)@ + encode_source(self@));
                }
            },
            StackSource::Unknown(u) => {
                out.push('u');
                out.push(':');
                push_escaped(out, &u.word_lower);
                proof {
                    assert(out@ =~= old(out)@ + encode_source(self@));
                }
            },
            StackSource::HyphenSeparatedParticle(p) => {
                out.push('h');
                out.push('p');
                out.push(':');
                push_escaped(out, &p.particle);
                proof {
                    assert(out@ =~= old(out)@ + encode_source(self@));
                }
            },
        }
    }
}

impl StackAffix {
    /// Appends this affix stack's token stream to `out`.
    pub fn write_encoded(&self, out: &mut Vec<char>)
        ensures
            final(out)@ == old(out)@ + encode_affix(self@),
    {
        match &self.affix {
            None => self.stack.write_encoded(out),
            Some(af) => {
                out.push('a');
                let k = match af.kind {
                    AffixKind::KnownPrefix => 'p',
                    AffixKind::UnknownPrefix => 'u',
                    AffixKind::KnownSuffix => 's',
                };
                out.push(k);
                out.push(':');
                push_escaped(out, &af.part);
                out.push(';');
                self.stack.write_encoded(out);
                proof {
                    assert(k == affix_kind_char(af.kind));
                    assert(out@ =~= old(out)@ + encode_affix(self@));
                }
            },
        }
    }
}

impl StackHyphenated {
    /// Appends this stack's token stream to `out`.
    pub fn write_encoded(&self, out: &mut Vec<char>)
        ensures
            final(out)@ == old(out)@ + encode_stack(self@),
    {
        match &self.right {
            None => self.left.write_encoded(out),
            Some(right) => {
                out.push('h');
                out.push('w');
                out.push(':');
                self.left.write_encoded(out);
                out.push(';');
                out.push('-');
                right.write_encoded(out);
                proof {
                    assert(out@ =~= old(out)@ + encode_stack(self@));
                }
            },
        }
    }

    /// This stack's token stream, as a fresh vector.
    pub fn encode(&self) -> (r: Vec<char>)
        ensures
            r@ == encode_stack(self@),
    {
        let mut out: Vec<char> = Vec::new();
        self.write_encoded(&mut out);
        out
    }
}

// ---------------------------------------------------------------------------
// Executable decoder
// ---------------------------------------------------------------------------
/// Decodes one terminal source starting at `pos`, mirroring
/// `decode_source` on the remainder of the stream.
pub fn read_source(s: &Vec<char>, pos: usize) -> (r: Result<(StackSource, usize), DecodeError>)
    requires
        pos <= s@.len(),
    ensures
        match r {
            Ok((src, p)) => {
                &&& pos <= p <= s@.len()
                &&& decode_source(s@.skip(pos as int)) == Some((src@, s@.skip(p as int)))
            },
            Err(_) => decode_source(s@.skip(pos as int)) is None,
        },
{
    let ghost sp = s@.skip(pos as int);
    proof {
        assert(sp.len() == s@.len() - pos);
        if sp.len() > 0 {
            assert(sp[0] == s@[pos as int]);
        }
        if sp.len() > 1 {
            assert(sp[1] == s@[pos as int + 1]);
        }
        if sp.len() > 2 {
            assert(sp[2] == s@[pos as int + 2]);
        }
    }
    if s.len() - pos >= 2 && s[pos] == 'd' && s[pos + 1] == ':' {
        proof {
            assert(sp.skip(2) =~= s@.skip(pos + 2));
        }
        let (word, p1) = match read_word(s, pos + 2) {
            Ok(x) => x,
            Err(e) => {
                return Err(e);
            },
        };
        if p1 == s.len() {
            return Err(DecodeError::Truncated);
        }
        proof {
            assert(s@.skip(p1 as int)[0] == s@[p1 as int]);
            assert(s@.skip(p1 as int).skip(1) =~= s@.skip(p1 + 1));
        }
        let (para, p2) = match read_number(s, p1 + 1) {
            Ok(x) => x,
            Err(e) => {
                return Err(e);
            },
        };
        if p2 == s.len() {
            return Err(DecodeError::Truncated);
        }
        proof {
            assert(s@.skip(p2 as int).len() > 0);
            assert(s@.skip(p2 as int)[0] == s@[p2 as int]);
            assert(s@.skip(p2 as int).skip(1) =~= s@.skip(p2 + 1));
        }
        if !(s[p2] == ',') {
            return Err(DecodeError::Malformed);
        }
        let (idx, p3) = match read_number(s, p2 + 1) {
            Ok(x) => x,
            Err(e) => {
                return Err(e);
            },
        };
        return Ok(
            (StackSource::Dictionary(DictionaryNode { word_lower: word, para_id: para, idx }), p3),
        );
    }
    if s.len() - pos >= 3 && s[pos] == 's' && s[pos + 2] == ':' {
        let kc = s[pos + 1];
        let kind = if kc == 'l' {
            ShapeKind::Latin
        } else if kc == 'i' {
            ShapeKind::Number { is_float: false }
        } else if kc == 'r' {
            ShapeKind::Number { is_float: true }
        } else if kc == 'p' {
            ShapeKind::Punctuation
        } else if kc == 'n' {
            ShapeKind::RomanNumber
        } else {
            return Err(DecodeError::UnknownPartType);
        };
        proof {
            assert(kind == shape_of_char(kc));
            assert(sp.skip(3) =~= s@.skip(pos + 3));
        }
        let (word, p1) = match read_word(s, pos + 3) {
            Ok(x) => x,
            Err(e) => {
                return Err(e);
            },
        };
        return Ok((StackSource::Shaped(Shaped { word_lower: word, kind }), p1));
    }
    if s.len() - pos >= 2 && s[pos] == 'u' && s[pos + 1] == ':' {
        proof {
            assert(sp.skip(2) =~= s@.skip(pos + 2));
        }
        let (word, p1) = match read_word(s, pos + 2) {
            Ok(x) => x,
            Err(e) => {
                return Err(e);
            },
        };
        return Ok((StackSource::Unknown(Unknown { word_lower: word }), p1));
    }
    if s.len() - pos >= 3 && s[pos] == 'h' && s[pos + 1] == 'p' && s[pos + 2] == ':' {
        proof {
            assert(sp.skip(3) =~= s@.skip(pos + 3));
        }
        let (word, p1) = match read_word(s, pos + 3) {
            Ok(x) => x,
            Err(e) => {
                return Err(e);
            },
        };
        return Ok((StackSource::HyphenSeparatedParticle(HyphenSeparatedParticle { particle: word }), p1));
    }
    Err(DecodeError::UnknownPartType)
}

/// Decodes one affix stack starting at `pos`, mirroring `decode_affix` on
/// the remainder of the stream.
pub fn read_affix(s: &Vec<char>, pos: usize) -> (r: Result<(StackAffix, usize), DecodeError>)
    requires
        pos <= s@.len(),
    ensures
        match r {
            Ok((a, p)) => {
                &&& pos <= p <= s@.len()
                &&& decode_affix(s@.skip(pos as int)) == Some((a@, s@.skip(p as int)))
            },
            Err(_) => decode_affix(s@.skip(pos as int)) is None,
        },
{
    let ghost sp = s@.skip(pos as int);
    proof {
        assert(sp.len() == s@.len() - pos);
        if sp.len() > 0 {
            assert(sp[0] == s@[pos as int]);
        }
        if sp.len() > 1 {
            assert(sp[1] == s@[pos as int + 1]);
        }
        if sp.len() > 2 {
            assert(sp[2] == s@[pos as int + 2]);
        }
    }
    if s.len() - pos >= 3 && s[pos] == 'a' && s[pos + 2] == ':' && (s[pos + 1] == 'p' || s[pos + 1]
        == 'u' || s[pos + 1] == 's') {
        let kc = s[pos + 1];
        let kind = if kc == 'p' {
            AffixKind::KnownPrefix
        } else if kc == 'u' {
            AffixKind::UnknownPrefix
        } else {
            AffixKind::KnownSuffix
        };
        proof {
            assert(kind == affix_kind_of_char(kc));
            assert(sp.skip(3) =~= s@.skip(pos + 3));
        }
        let (part, p1) = match read_word(s, pos + 3) {
            Ok(x) => x,
            Err(e) => {
                return Err(e);
            },
        };
        if p1 == s.len() {
            return Err(DecodeError::Truncated);
        }
        proof {
            assert(s@.skip(p1 as int)[0] == s@[p1 as int]);
            assert(s@.skip(p1 as int).skip(1) =~= s@.skip(p1 + 1));
        }
        let (src, p2) = match read_source(s, p1 + 1) {
            Ok(x) => x,
            Err(e) => {
                return Err(e);
            },
        };
        Ok((StackAffix { stack: src, affix: Some(Affix { part, kind }) }, p2))
    } else {
        let (src, p) = match read_source(s, pos) {
            Ok(x) => x,
            Err(e) => {
                return Err(e);
            },
        };
        Ok((StackAffix { stack: src, affix: None }, p))
    }
}

impl StackHyphenated {
    /// Decodes one whole stack starting at `pos`: the stack and the index
    /// of the unconsumed remainder. Succeeds exactly when `decode_stack`
    /// accepts the remainder of the stream, and rebuilds exactly the value
    /// that `decode_stack` names; a token of an unknown kind reports
    /// `UnknownPartType`, a malformed payload one of the hard errors.
    pub fn decode(s: &Vec<char>, pos: usize) -> (r: Result<(StackHyphenated, usize), DecodeError>)
        requires
            pos <= s@.len(),
        ensures
            match r {
                Ok((h, p)) => {
                    &&& pos <= p <= s@.len()
                    &&& decode_stack(s@.skip(pos as int)) == Some((h@, s@.skip(p as int)))
                },
                Err(_) => decode_stack(s@.skip(pos as int)) is None,
            },
    {
        let ghost sp = s@.skip(pos as int);
        proof {
            assert(sp.len() == s@.len() - pos);
            if sp.len() > 0 {
                assert(sp[0] == s@[pos as int]);
            }
            if sp.len() > 1 {
                assert(sp[1] == s@[pos as int + 1]);
            }
            if sp.len() > 2 {
                assert(sp[2] == s@[pos as int + 2]);
            }
        }
        if s.len() - pos >= 3 && s[pos] == 'h' && s[pos + 1] == 'w' && s[pos + 2] == ':' {
            proof {
                assert(sp.skip(3) =~= s@.skip(pos + 3));
            }
            let (left, p1) = match read_affix(s, pos + 3) {
                Ok(x) => x,
                Err(e) => {
                    return Err(e);
                },
            };
            if s.len() - p1 < 2 {
                return Err(DecodeError::Truncated);
            }
            proof {
                assert(s@.skip(p1 as int)[0] == s@[p1 as int]);
                assert(s@.skip(p1 as int)[1] == s@[p1 as int + 1]);
                assert(s@.skip(p1 as int).skip(2) =~= s@.skip(p1 + 2));
            }
            if !(s[p1] == ';' && s[p1 + 1] == '-') {
                return Err(DecodeError::Malformed);
            }
            let (right, p2) = match read_affix(s, p1 + 2) {
                Ok(x) => x,
                Err(e) => {
                    return Err(e);
                },
            };
            Ok((StackHyphenated { left, right: Some(right) }, p2))
        } else {
            let (left, p) = match read_affix(s, pos) {
                Ok(x) => x,
                Err(e) => {
                    return Err(e);
                },
            };
            Ok((StackHyphenated { left, right: None }, p))
        }
    }
}

} // verus!
