use rsmorphy::{
    Affix, AffixKind, DecodeError, DictionaryNode, ShapeKind, Shaped, StackAffix, StackHyphenated,
    StackSource, Unknown,
};

fn chars(s: &str) -> Vec<char> {
    s.chars().collect()
}

fn unknown_stack(w: &str) -> StackHyphenated {
    StackHyphenated::from(StackSource::Unknown(Unknown::new(chars(w))))
}

fn dict_stack(w: &str, para_id: usize, idx: usize) -> StackHyphenated {
    StackHyphenated::from(StackSource::Dictionary(DictionaryNode {
        word_lower: chars(w),
        para_id,
        idx,
    }))
}

fn affix_stack(kind: AffixKind, part: &str, inner: StackSource) -> StackAffix {
    StackAffix::new(inner, Affix { part: chars(part), kind })
}

fn roundtrip(stack: &StackHyphenated) {
    let encoded = stack.encode();
    let (decoded, rest) = StackHyphenated::decode(&encoded, 0).expect("decodes");
    assert_eq!(rest, encoded.len());
    let reencoded = decoded.encode();
    assert_eq!(reencoded, encoded);
}

#[test]
fn unknown_word_encodes_with_its_tag() {
    assert_eq!(unknown_stack("кот").encode(), chars("u:кот"));
}

#[test]
fn dictionary_word_encodes_word_and_paradigm_identity() {
    assert_eq!(dict_stack("кот", 211, 4).encode(), chars("d:кот;211,4"));
}

#[test]
fn shaped_words_encode_one_tag_per_kind() {
    let latin = StackHyphenated::from(StackSource::Shaped(Shaped {
        word_lower: chars("pdf"),
        kind: ShapeKind::Latin,
    }));
    assert_eq!(latin.encode(), chars("sl:pdf"));
    let real = StackHyphenated::from(StackSource::Shaped(Shaped {
        word_lower: chars("3.14"),
        kind: ShapeKind::Number { is_float: true },
    }));
    assert_eq!(real.encode(), chars("sr:3.14"));
}

#[test]
fn affix_wrap_encodes_kind_part_and_inner_source() {
    let inner = StackSource::Dictionary(DictionaryNode {
        word_lower: chars("кот"),
        para_id: 0,
        idx: 0,
    });
    let stack = StackHyphenated::from(affix_stack(AffixKind::UnknownPrefix, "супер", inner));
    assert_eq!(stack.encode(), chars("au:супер;d:кот;0,0"));
}

#[test]
fn hyphen_compound_encodes_both_halves() {
    let left = StackAffix::from(StackSource::Unknown(Unknown::new(chars("кот"))));
    let right = StackAffix::from(StackSource::Unknown(Unknown::new(chars("пёс"))));
    let stack = StackHyphenated::new(left, Some(right));
    assert_eq!(stack.encode(), chars("hw:u:кот;-u:пёс"));
    roundtrip(&stack);
}

#[test]
fn one_sided_stack_encodes_without_the_compound_tag() {
    let left = StackAffix::from(StackSource::Unknown(Unknown::new(chars("кот"))));
    let one_sided = StackHyphenated::new(left, None);
    assert_eq!(one_sided.encode(), chars("u:кот"));
}

#[test]
fn reserved_characters_are_escaped_and_restored() {
    let stack = unknown_stack("a;b\\c");
    assert_eq!(stack.encode(), chars("u:a\\;b\\\\c"));
    let (decoded, rest) = StackHyphenated::decode(&stack.encode(), 0).expect("decodes");
    assert_eq!(rest, stack.encode().len());
    assert_eq!(decoded.get_word(), chars("a;b\\c"));
}

#[test]
fn every_node_kind_round_trips() {
    roundtrip(&unknown_stack("кот"));
    roundtrip(&unknown_stack(""));
    roundtrip(&dict_stack("кота", 18_446_744_073_709, 12));
    for kind in [
        ShapeKind::Latin,
        ShapeKind::Number { is_float: false },
        ShapeKind::Number { is_float: true },
        ShapeKind::Punctuation,
        ShapeKind::RomanNumber,
    ] {
        roundtrip(&StackHyphenated::from(StackSource::Shaped(Shaped {
            word_lower: chars("w;x"),
            kind,
        })));
    }
    roundtrip(&StackHyphenated::from(StackSource::HyphenSeparatedParticle(
        rsmorphy::HyphenSeparatedParticle { particle: chars("то") },
    )));
    let inner = StackSource::Dictionary(DictionaryNode {
        word_lower: chars("кот;пёс"),
        para_id: 7,
        idx: 0,
    });
    let left = affix_stack(AffixKind::KnownSuffix, "ся;", inner);
    let right = affix_stack(
        AffixKind::KnownPrefix,
        "не",
        StackSource::Unknown(Unknown::new(chars("ведомый"))),
    );
    roundtrip(&StackHyphenated::new(left, Some(right)));
}

#[test]
fn decoding_leaves_the_unconsumed_remainder() {
    let input = chars("u:abc;-junk");
    let (decoded, rest) = StackHyphenated::decode(&input, 0).expect("decodes");
    assert_eq!(decoded.get_word(), chars("abc"));
    assert_eq!(&input[rest..], &chars(";-junk")[..]);
}

#[test]
fn unknown_tag_prefix_is_reported() {
    assert_eq!(
        StackHyphenated::decode(&chars("x:abc"), 0).unwrap_err(),
        DecodeError::UnknownPartType
    );
}

#[test]
fn truncated_dictionary_token_is_a_hard_failure() {
    assert_eq!(
        StackHyphenated::decode(&chars("d:кот"), 0).unwrap_err(),
        DecodeError::Truncated
    );
}

#[test]
fn bad_escape_is_a_hard_failure() {
    assert_eq!(
        StackHyphenated::decode(&chars("u:a\\b"), 0).unwrap_err(),
        DecodeError::BadEscape
    );
    assert_eq!(
        StackHyphenated::decode(&chars("u:a\\"), 0).unwrap_err(),
        DecodeError::BadEscape
    );
}

#[test]
fn oversized_number_is_a_hard_failure() {
    assert_eq!(
        StackHyphenated::decode(&chars("d:к;99999999999999999999999999,1"), 0).unwrap_err(),
        DecodeError::NumberOverflow
    );
}

#[test]
fn missing_field_separator_is_a_hard_failure() {
    assert_eq!(
        StackHyphenated::decode(&chars("d:к;5x"), 0).unwrap_err(),
        DecodeError::Malformed
    );
}
