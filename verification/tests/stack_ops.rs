use rsmorphy::{
    word_splits, Affix, AffixKind, DictEntry, DictionaryAnalyzer, DictionaryNode, LatinAnalyzer,
    MorphAnalyzer, NumberAnalyzer, OpencorporaTagReg, Paradigm, ParadigmEntry,
    PunctuationAnalyzer, RomanAnalyzer, Score, StackAffix, StackHyphenated, StackSource, Units,
    Unknown, UnknownAnalyzer, UnknownPrefixAnalyzer,
};

fn chars(s: &str) -> Vec<char> {
    s.chars().collect()
}

fn tag(s: &str) -> OpencorporaTagReg {
    OpencorporaTagReg::new(chars(s))
}

fn morph() -> MorphAnalyzer {
    let noun = Paradigm {
        entries: vec![
            ParadigmEntry { prefix: chars(""), suffix: chars(""), tag: tag("NOUN,nomn") },
            ParadigmEntry { prefix: chars(""), suffix: chars("а"), tag: tag("NOUN,gent") },
            ParadigmEntry { prefix: chars("по"), suffix: chars("у"), tag: tag("NOUN,datv") },
        ],
    };
    let dictionary = DictionaryAnalyzer {
        entries: vec![DictEntry { word_lower: chars("кот"), para_id: 0, idx: 0, score: 750_000 }],
    };
    MorphAnalyzer {
        paradigms: vec![noun],
        units: Units {
            dictionary,
            unknown_prefix: UnknownPrefixAnalyzer::default(),
            latin: LatinAnalyzer::default(),
            number: NumberAnalyzer::default(),
            punctuation: PunctuationAnalyzer::default(),
            roman: RomanAnalyzer::default(),
            unknown: UnknownAnalyzer::default(),
        },
        particle_tag: tag("PRCL"),
    }
}

fn dict_stack(w: &str, idx: usize) -> StackHyphenated {
    StackHyphenated::from(StackSource::Dictionary(DictionaryNode {
        word_lower: chars(w),
        para_id: 0,
        idx,
    }))
}

#[test]
fn splits_respect_the_default_bounds() {
    assert_eq!(word_splits(&chars("коты"), None, None).len(), 1);
    assert_eq!(word_splits(&chars("абвгдежзик"), None, None).len(), 5);
    assert_eq!(word_splits(&chars("же"), None, None).len(), 0);
    assert_eq!(word_splits(&chars("кот"), None, None).len(), 0);
}

#[test]
fn splits_fall_at_character_boundaries() {
    let splits = word_splits(&chars("байткод"), None, None);
    assert_eq!(splits.len(), 4);
    assert_eq!(splits[0], (chars("б"), chars("айткод")));
    assert_eq!(splits[3], (chars("байт"), chars("код")));
}

#[test]
fn splits_honour_explicit_bounds() {
    assert_eq!(word_splits(&chars("абвгде"), Some(2), Some(3)).len(), 3);
    assert_eq!(word_splits(&chars("абвгде"), Some(5), Some(3)).len(), 1);
    assert_eq!(word_splits(&chars("абвгде"), Some(6), Some(3)).len(), 0);
}

#[test]
fn normal_form_is_form_zero_of_the_paradigm() {
    let m = morph();
    assert_eq!(dict_stack("кота", 1).get_normal_form(&m), chars("кот"));
    assert_eq!(dict_stack("покоту", 2).get_normal_form(&m), chars("кот"));
    assert_eq!(dict_stack("кот", 0).get_normal_form(&m), chars("кот"));
}

#[test]
fn lexeme_enumerates_every_form_of_the_paradigm() {
    let m = morph();
    let lexeme = dict_stack("кота", 1).get_lexeme(&m);
    assert_eq!(lexeme.len(), 3);
    assert_eq!(lexeme[0].get_word(), chars("кот"));
    assert_eq!(lexeme[1].get_word(), chars("кота"));
    assert_eq!(lexeme[2].get_word(), chars("покоту"));
    assert!(lexeme[0].is_lemma());
    assert!(!lexeme[1].is_lemma());
}

#[test]
fn lemma_is_the_first_element_of_the_lexeme() {
    let m = morph();
    let lemma = dict_stack("покоту", 2).get_lemma(&m);
    assert_eq!(lemma.get_word(), chars("кот"));
    assert!(lemma.is_lemma());
}

#[test]
fn unknown_lexeme_is_the_word_itself() {
    let m = morph();
    let u = Unknown::new(chars("бворк"));
    let lexeme = u.iter_lexeme(&m);
    assert_eq!(lexeme.len(), 1);
    assert_eq!(lexeme[0].get_word(), chars("бворк"));
}

#[test]
fn one_sided_compound_renders_like_its_bare_left_half() {
    let m = morph();
    let left = StackAffix::new(
        StackSource::Dictionary(DictionaryNode { word_lower: chars("кота"), para_id: 0, idx: 1 }),
        Affix { part: chars("не"), kind: AffixKind::UnknownPrefix },
    );
    let bare = StackHyphenated::new(left.duplicate(), None);
    assert_eq!(bare.get_word(), chars("некота"));
    assert_eq!(bare.get_normal_form(&m), chars("некот"));
    assert_eq!(bare.get_tag(&m).unwrap().string, chars("NOUN,gent"));
    assert_eq!(bare.try_get_para_id(), Some(0));
    assert!(!bare.is_known());
    assert!(!bare.is_lemma());
}

#[test]
fn two_sided_compound_joins_with_a_hyphen_and_has_no_single_tag() {
    let m = morph();
    let left = StackAffix::from(StackSource::Dictionary(DictionaryNode {
        word_lower: chars("кот"),
        para_id: 0,
        idx: 0,
    }));
    let right = StackAffix::from(StackSource::Unknown(Unknown::new(chars("пёс"))));
    let both = StackHyphenated::new(left, Some(right));
    assert_eq!(both.get_word(), chars("кот-пёс"));
    assert_eq!(both.get_normal_form(&m), chars("кот-пёс"));
    assert!(both.get_tag(&m).is_none());
    assert_eq!(both.try_get_para_id(), None);
    assert!(!both.is_known());
}

#[test]
fn scores_decay_by_a_fixed_point_factor_and_keep_their_tag() {
    assert_eq!(Score::Real(750_000).decay(500_000), Score::Real(375_000));
    assert_eq!(Score::Fake(900_000).decay(500_000), Score::Fake(450_000));
    assert_eq!(Score::Real(1).decay(500_000), Score::Real(0));
    assert_eq!(Score::Real(600_000).decay(1_000_000), Score::Real(600_000));
    assert!(Score::Real(1).ranks_below(&Score::Fake(2)));
    assert!(!Score::Fake(2).ranks_below(&Score::Real(1)));
}

#[test]
fn productivity_follows_the_first_grammeme() {
    assert!(tag("NOUN,nomn").is_productive());
    assert!(tag("VERB").is_productive());
    assert!(tag("NOUNX").is_productive());
    assert!(!tag("CONJ").is_productive());
    assert!(!tag("PRCL").is_productive());
    assert!(!tag("LATN").is_productive());
    assert!(!tag("UNKN").is_productive());
    assert!(!tag("Apro,anim").is_productive());
}
