use rsmorphy::{
    DictEntry, DictionaryAnalyzer, LatinAnalyzer, MorphAnalyzer, NumberAnalyzer, OpencorporaTagReg,
    Paradigm, ParadigmEntry, ParseResult, PunctuationAnalyzer, RomanAnalyzer, Score, SeenSet,
    Units, UnknownAnalyzer, UnknownPrefixAnalyzer,
};

fn chars(s: &str) -> Vec<char> {
    s.chars().collect()
}

fn tag(s: &str) -> OpencorporaTagReg {
    OpencorporaTagReg::new(chars(s))
}

fn morph() -> MorphAnalyzer {
    let noun = Paradigm {
        entries: vec![
            ParadigmEntry {
                prefix: chars(""),
                suffix: chars(""),
                tag: tag("NOUN,anim,masc sing,nomn"),
            },
            ParadigmEntry {
                prefix: chars(""),
                suffix: chars("а"),
                tag: tag("NOUN,anim,masc sing,gent"),
            },
        ],
    };
    let conj = Paradigm {
        entries: vec![ParadigmEntry { prefix: chars(""), suffix: chars(""), tag: tag("CONJ") }],
    };
    let dictionary = DictionaryAnalyzer {
        entries: vec![
            DictEntry { word_lower: chars("кот"), para_id: 0, idx: 0, score: 750_000 },
            DictEntry { word_lower: chars("кота"), para_id: 0, idx: 1, score: 250_000 },
            DictEntry { word_lower: chars("или"), para_id: 1, idx: 0, score: 900_000 },
        ],
    };
    MorphAnalyzer {
        paradigms: vec![noun, conj],
        units: Units {
            dictionary,
            unknown_prefix: UnknownPrefixAnalyzer::default(),
            latin: LatinAnalyzer::default(),
            number: NumberAnalyzer::default(),
            punctuation: PunctuationAnalyzer::default(),
            roman: RomanAnalyzer::default(),
            unknown: UnknownAnalyzer::default(),
        },
        particle_tag: tag("PRCL"),
    }
}

fn tag_of(m: &MorphAnalyzer, r: &ParseResult, i: usize) -> Vec<char> {
    r.parses[i].lex.get_tag(m).expect("one-sided stack has a tag").string.clone()
}

#[test]
fn latin_word_gets_exactly_one_latin_candidate() {
    let m = morph();
    let r = m.parse(&chars("pdf"), &chars("pdf"));
    assert_eq!(r.parses.len(), 1);
    assert_eq!(tag_of(&m, &r, 0), chars("LATN"));
    assert_eq!(r.parses[0].score, Score::Fake(900_000));
    assert_eq!(r.parses[0].lex.get_word(), chars("pdf"));
    assert!(!r.parses[0].lex.is_known());
}

#[test]
fn integer_gets_one_integer_number_candidate() {
    let m = morph();
    let r = m.parse(&chars("42"), &chars("42"));
    assert_eq!(r.parses.len(), 1);
    assert_eq!(tag_of(&m, &r, 0), chars("NUMB,intg"));
    assert_eq!(r.parses[0].score, Score::Fake(900_000));
}

#[test]
fn real_number_gets_one_real_number_candidate() {
    let m = morph();
    let r = m.parse(&chars("3.14"), &chars("3.14"));
    assert_eq!(r.parses.len(), 1);
    assert_eq!(tag_of(&m, &r, 0), chars("NUMB,real"));
}

#[test]
fn negative_real_is_still_a_real() {
    let m = morph();
    let r = m.parse(&chars("-3.14"), &chars("-3.14"));
    assert_eq!(r.parses.len(), 1);
    assert_eq!(tag_of(&m, &r, 0), chars("NUMB,real"));
}

#[test]
fn punctuation_gets_one_punctuation_candidate() {
    let m = morph();
    let r = m.parse(&chars(","), &chars(","));
    assert_eq!(r.parses.len(), 1);
    assert_eq!(tag_of(&m, &r, 0), chars("PNCT"));
}

#[test]
fn roman_numeral_is_both_latin_and_roman() {
    let m = morph();
    let r = m.parse(&chars("xiv"), &chars("xiv"));
    assert_eq!(r.parses.len(), 1);
    assert_eq!(tag_of(&m, &r, 0), chars("LATN"));
    let r = m.parse(&chars("XIV"), &chars("XIV"));
    assert_eq!(r.parses.len(), 2);
    assert_eq!(tag_of(&m, &r, 0), chars("LATN"));
    assert_eq!(tag_of(&m, &r, 1), chars("ROMN"));
}

#[test]
fn out_of_vocabulary_word_gets_one_unkn_candidate_with_score_one() {
    let m = morph();
    let r = m.parse(&chars("бворк"), &chars("бворк"));
    assert_eq!(r.parses.len(), 1);
    assert_eq!(tag_of(&m, &r, 0), chars("UNKN"));
    assert_eq!(r.parses[0].score, Score::Fake(1_000_000));
    assert!(r.parses[0].lex.is_lemma());
    assert!(!r.parses[0].lex.is_known());
}

#[test]
fn dictionary_hit_suppresses_the_fallback() {
    let m = morph();
    let r = m.parse(&chars("кот"), &chars("кот"));
    assert_eq!(r.parses.len(), 1);
    assert_eq!(tag_of(&m, &r, 0), chars("NOUN,anim,masc sing,nomn"));
    assert_eq!(r.parses[0].score, Score::Real(750_000));
    assert!(r.parses[0].lex.is_known());
    for i in 0..r.parses.len() {
        assert_ne!(tag_of(&m, &r, i), chars("UNKN"));
    }
}

#[test]
fn by_analogy_wraps_a_productive_sub_parse_and_halves_its_score() {
    let m = morph();
    let r = m.parse(&chars("суперкот"), &chars("суперкот"));
    assert_eq!(r.parses.len(), 1);
    let cand = &r.parses[0];
    assert_eq!(cand.score, Score::Real(375_000));
    assert_eq!(cand.lex.get_word(), chars("суперкот"));
    assert_eq!(tag_of(&m, &r, 0), chars("NOUN,anim,masc sing,nomn"));
    assert!(!cand.lex.is_known());
}

#[test]
fn by_analogy_skips_a_non_productive_sub_parse() {
    let m = morph();
    // The remainder hits the conjunction, whose tag is not productive; the
    // sub-parse is marked seen, so the fallback stays silent too.
    let r = m.parse(&chars("супеили"), &chars("супеили"));
    assert_eq!(r.parses.len(), 0);
}

#[test]
fn running_a_unit_twice_adds_nothing_the_second_time() {
    let m = morph();
    let mut result = ParseResult::new();
    let mut seen = SeenSet::new();
    let w = chars("pdf");
    m.units.latin.parse(&m, &mut result, &w, &w, &mut seen);
    assert_eq!(result.parses.len(), 1);
    m.units.latin.parse(&m, &mut result, &w, &w, &mut seen);
    assert_eq!(result.parses.len(), 1);
}

#[test]
fn running_the_dictionary_twice_adds_nothing_the_second_time() {
    let m = morph();
    let mut result = ParseResult::new();
    let mut seen = SeenSet::new();
    let w = chars("кот");
    m.units.dictionary.parse(&m, &mut result, &w, &w, &mut seen);
    assert_eq!(result.parses.len(), 1);
    m.units.dictionary.parse(&m, &mut result, &w, &w, &mut seen);
    assert_eq!(result.parses.len(), 1);
}

#[test]
fn running_by_analogy_twice_adds_nothing_the_second_time() {
    let m = morph();
    let mut result = ParseResult::new();
    let mut seen = SeenSet::new();
    let w = chars("суперкот");
    m.units.unknown_prefix.parse(&m, &mut result, &w, &w, &mut seen);
    assert_eq!(result.parses.len(), 1);
    m.units.unknown_prefix.parse(&m, &mut result, &w, &w, &mut seen);
    assert_eq!(result.parses.len(), 1);
}

#[test]
fn seen_set_reports_duplicates() {
    let m = morph();
    let r = m.parse(&chars("кот"), &chars("кот"));
    let mut seen = SeenSet::new();
    assert!(seen.is_empty());
    assert!(seen.insert(r.parses[0].lex.as_seen()));
    assert!(!seen.insert(r.parses[0].lex.as_seen()));
    assert!(!seen.is_empty());
}

#[test]
fn add_parsed_drops_a_duplicate_silently() {
    let m = morph();
    let r = m.parse(&chars("кот"), &chars("кот"));
    let parsed = r.parses[0].clone();
    let mut result = ParseResult::new();
    let mut seen = SeenSet::new();
    rsmorphy::add_parsed_if_not_seen(&mut result, &mut seen, parsed.clone());
    assert_eq!(result.parses.len(), 1);
    rsmorphy::add_parsed_if_not_seen(&mut result, &mut seen, parsed);
    assert_eq!(result.parses.len(), 1);
}

#[test]
fn pipeline_candidates_round_trip_through_the_codec() {
    let m = morph();
    for word in ["кот", "суперкот", "pdf", "3.14", "бворк"] {
        let r = m.parse(&chars(word), &chars(word));
        for p in &r.parses {
            let encoded = p.lex.stack.encode();
            let (decoded, rest) =
                rsmorphy::StackHyphenated::decode(&encoded, 0).expect("pipeline output decodes");
            assert_eq!(rest, encoded.len());
            assert_eq!(decoded.encode(), encoded);
            assert_eq!(decoded.get_word(), p.lex.get_word());
        }
    }
}

#[test]
fn profiler_stub_is_inert() {
    let mut profiler = rsmorphy::DumbProfiler::start();
    profiler.waypoint("lookup");
    profiler.waypoint("done");
}
