use stringsimile::config::{
    default_bitflip_case_sensitive, default_metaphone_max_code_length, default_nysiis_strict_mode,
    default_true, BitflipCharSubset, BitflipConfig, CommonRuleConfig, ConfusablesConfig,
    DamerauLevenshteinConfig, DamerauLevenshteinSubstringConfig, ExclusionSetPreprocessorConfig,
    HammingConfig, LevenshteinConfig, MatchRatingConfig, MetaphoneConfig, NysiisConfig,
    PreprocessorConfig, RuleConfigError, SoundexConfig,
};
use stringsimile::preprocessors::{ExclusionSetSource, Preprocessor};
use stringsimile::rule::{MatcherResultExt, MatcherRule};
use stringsimile::rules::metaphone::MetaphoneRuleType;
use stringsimile::rules::soundex::SoundexRuleType;

#[test]
fn defaults_of_configuration() {
    assert!(default_true());
    assert!(default_nysiis_strict_mode());
    assert!(default_bitflip_case_sensitive());
    assert_eq!(default_metaphone_max_code_length(), Some(4));
    let metaphone = MetaphoneConfig::default();
    assert_eq!(metaphone.max_code_length, Some(4));
    assert!(metaphone.metaphone_type == MetaphoneRuleType::Normal);
    assert!(NysiisConfig::default().strict);
    let bitflip = BitflipConfig::default();
    assert!(bitflip.char_subset == BitflipCharSubset::Dns);
    assert!(bitflip.custom_char_subset.is_empty());
    assert!(bitflip.case_sensitive);
    assert!(!CommonRuleConfig::default().exit_on_match);
    assert!(CommonRuleConfig { exit_on_match: true }.to_matcher_config().exit_on_match);
}

#[test]
fn distance_configs_build_their_rules() {
    let rule = LevenshteinConfig { maximum_distance: 2 }.build(true).ok().unwrap();
    assert_eq!(rule.maximum_distance, 2);
    assert!(rule.ignore_mismatch_metadata);
    let rule = DamerauLevenshteinConfig { maximum_distance: 3 }.build(false).ok().unwrap();
    assert_eq!(rule.maximum_distance, 3);
    assert!(!rule.ignore_mismatch_metadata);
    let rule = DamerauLevenshteinSubstringConfig { maximum_distance: 4 }.build().ok().unwrap();
    assert_eq!(rule.maximum_distance, 4);
    let rule = HammingConfig { maximum_distance: 5 }.build().ok().unwrap();
    assert_eq!(rule.maximum_distance, 5);
    let rule = ConfusablesConfig.build().ok().unwrap();
    assert!(rule.match_rule("t℮st", "test").is_match());
}

#[test]
fn soundex_config_refuses_similarity_above_four() {
    let config = SoundexConfig {
        minimum_similarity: 5,
        soundex_type: SoundexRuleType::Normal,
    };
    assert!(matches!(
        config.build("Smythers"),
        Err(RuleConfigError::SoundexConfigSimilarityError { input_value: 5 })
    ));

    let refined = SoundexConfig {
        minimum_similarity: 5,
        soundex_type: SoundexRuleType::Refined,
    };
    let rule = refined.build("Smythers").ok().unwrap();
    assert!(rule.match_rule("Smithers", "Smythers").is_match());
}

#[test]
fn normal_soundex_similarity_is_at_most_four() {
    let config = SoundexConfig {
        minimum_similarity: 0,
        soundex_type: SoundexRuleType::Normal,
    };
    let rule = config.build("Washington").ok().unwrap();
    let metadata = rule.match_rule("Washington", "Washington").into_metadata();
    assert_eq!(metadata.similarity, 4);
}

#[test]
fn metaphone_config_refuses_non_ascii_target() {
    let config = MetaphoneConfig::default();
    assert!(matches!(
        config.build("Séline"),
        Err(RuleConfigError::MetaphoneNonAsciiTargetError)
    ));
    let rule = config.build("Selina").ok().unwrap();
    assert!(rule.match_rule("Selena", "Selina").is_match());
}

#[test]
fn nysiis_and_match_rating_configs_build_their_rules() {
    let rule = NysiisConfig { strict: false }.build("Brown").ok().unwrap();
    assert!(!rule.strict);
    assert!(rule.match_rule("Brian", "Brown").is_match());
    let rule = MatchRatingConfig.build("Frances").ok().unwrap();
    assert!(rule.match_rule("Franciszek", "Frances").is_match());
}

#[test]
fn bitflip_config_refuses_wide_custom_chars() {
    let config = BitflipConfig {
        char_subset: BitflipCharSubset::Custom,
        custom_char_subset: "ab\u{100}c".to_string(),
        case_sensitive: true,
    };
    match config.build("www.google.com") {
        Err(RuleConfigError::BitflipNonAsciiCharError { input_str, index }) => {
            assert_eq!(input_str, "ab\u{100}c");
            assert_eq!(index, 2);
        }
        _ => panic!("expected a char subset error"),
    }
}

#[test]
fn bitflip_config_builds_each_subset() {
    let dns = BitflipConfig::default().build("www.google.com").ok().unwrap();
    assert!(dns.match_rule("wwwngoogle.com", "www.google.com").is_match());

    let printable = BitflipConfig {
        char_subset: BitflipCharSubset::Printable,
        custom_char_subset: String::new(),
        case_sensitive: true,
    }
    .build("ab")
    .ok()
    .unwrap();
    assert!(printable.match_rule("a\"", "ab").is_match());

    let custom = BitflipConfig {
        char_subset: BitflipCharSubset::Custom,
        custom_char_subset: ".n".to_string(),
        case_sensitive: true,
    }
    .build("www.google.com")
    .ok()
    .unwrap();
    assert!(custom.match_rule("wwwngoogle.com", "www.google.com").is_match());
    assert!(!custom.match_rule("licrosoft", "microsoft").is_match());
}

#[test]
fn preprocessor_configs_build_their_preprocessors() {
    match (PreprocessorConfig::SplitTarget { ignore_tld: true }).build() {
        Ok(Preprocessor::SplitTarget(c)) => assert!(c.ignore_tld),
        _ => panic!("expected a split target preprocessor"),
    }
    let exclusion = PreprocessorConfig::ExclusionSet {
        inner: ExclusionSetPreprocessorConfig::List {
            list: vec!["www".to_string()],
        },
        regex: false,
    };
    match exclusion.build() {
        Ok(Preprocessor::ExclusionSet(c)) => {
            assert!(!c.regex);
            assert!(matches!(&c.source, ExclusionSetSource::Static(l) if l == &vec!["www".to_string()]));
        }
        _ => panic!("expected an exclusion set preprocessor"),
    }
    let file = PreprocessorConfig::ExclusionSet {
        inner: ExclusionSetPreprocessorConfig::File {
            path: "list.txt".to_string(),
        },
        regex: true,
    };
    match file.build() {
        Ok(Preprocessor::ExclusionSet(c)) => {
            assert!(c.regex);
            assert!(matches!(&c.source, ExclusionSetSource::File(p) if p == "list.txt"));
        }
        _ => panic!("expected an exclusion set preprocessor"),
    }
    let punycode = PreprocessorConfig::Punycode {
        encode: true,
        decode: false,
        keep_both: true,
    };
    match punycode.build() {
        Ok(Preprocessor::Punycode(c)) => {
            assert!(c.encode);
            assert!(!c.decode);
            assert!(c.keep_both);
        }
        _ => panic!("expected a punycode preprocessor"),
    }
}

#[test]
fn bitflip_config_refuses_latin1_custom_chars() {
    let config = BitflipConfig {
        char_subset: BitflipCharSubset::Custom,
        custom_char_subset: "a\u{e9}".to_string(),
        case_sensitive: true,
    };
    match config.build("test") {
        Err(RuleConfigError::BitflipNonAsciiCharError { input_str, index }) => {
            assert_eq!(input_str, "a\u{e9}");
            assert_eq!(index, 1);
        }
        _ => panic!("expected a char subset error"),
    }
}
