use stringsimile::metadata::MetaValue;
use stringsimile::rule::{ExampleRule, GenericMatcherRule, MatcherRule};
use stringsimile::rules::any_rule::IntoGenericMatcherRule;
use stringsimile::rules::bitflip::BitflipRule;
use stringsimile::rules::damerau_levenshtein::DamerauLevenshteinSubstringRule;
use stringsimile::rules::hamming::HammingRule;
use stringsimile::rules::levenshtein::LevenshteinRule;
use stringsimile::rules::match_rating::MatchRatingRule;
use stringsimile::rules::metaphone::{MetaphoneError, MetaphoneRule, MetaphoneRuleType};
use stringsimile::rules::nysiis::NysiisRule;
use stringsimile::rules::soundex::{SoundexRule, SoundexRuleType};
use stringsimile::rule::MatcherResultExt;
use stringsimile::Error;

#[test]
fn generic_results_keep_metadata_of_matches_only() {
    let rule = LevenshteinRule {
        maximum_distance: 2,
        ignore_mismatch_metadata: false,
    }
    .into_generic_matcher();
    assert_eq!(rule.name(), "levenshtein");

    let matched = rule.match_rule_generic("test", "tset", false).ok().unwrap();
    assert!(matched.matched);
    assert_eq!(matched.rule_type, "levenshtein");
    assert_eq!(matched.metadata.get("distance"), Some(&MetaValue::UInt(2)));

    let missed = rule.match_rule_generic("test", "unrelated", false).ok().unwrap();
    assert!(!missed.matched);
    assert_eq!(missed.metadata.num_entries(), 0);

    let full = rule.match_rule_generic("test", "unrelated", true).ok().unwrap();
    assert!(!full.matched);
    assert_eq!(full.metadata.get("distance"), Some(&MetaValue::UInt(7)));
}

#[test]
fn generic_substring_result_reports_the_window() {
    let rule = DamerauLevenshteinSubstringRule { maximum_distance: 1 }.into_generic_matcher();
    let result = rule
        .match_rule_generic("confirmimonneftlixconfirmation", "netflix", false)
        .ok()
        .unwrap();
    assert!(result.matched);
    assert_eq!(
        result.metadata.get("substring"),
        Some(&MetaValue::Str("neftlix".to_string()))
    );
    assert_eq!(result.metadata.get("distance"), Some(&MetaValue::UInt(1)));
}

#[test]
fn generic_hamming_reports_missing_distance() {
    let rule = HammingRule { maximum_distance: 1 }.into_generic_matcher();
    let result = rule.match_rule_generic("abc", "abcd", true).ok().unwrap();
    assert!(!result.matched);
    assert_eq!(result.metadata.get("distance"), Some(&MetaValue::Null));
}

#[test]
fn input_outside_an_encoder_domain_is_refused() {
    let soundex = SoundexRule::new(SoundexRuleType::Normal, 3, "Smythers").into_generic_matcher();
    match soundex.match_rule_generic("Smïthers", "Smythers", false) {
        Err(Error::UnsupportedInput { rule, input }) => {
            assert_eq!(rule, "soundex");
            assert_eq!(input, "Smïthers");
        }
        _ => panic!("expected the input to be refused"),
    }
    let rating = MatchRatingRule::new("Frances").into_generic_matcher();
    assert!(rating.match_rule_generic("Fran\u{20ac}is", "Frances", false).is_err());
    assert!(rating.match_rule_generic("Françis", "Frances", false).is_ok());
    let nysiis = NysiisRule::new(true).into_generic_matcher();
    assert!(nysiis.match_rule_generic("Brian", "Bröwn", false).is_ok());
}

#[test]
fn metaphone_reports_non_ascii_input() {
    let rule = MetaphoneRule::new(MetaphoneRuleType::Normal, Some(4), "Selina");
    match rule.match_rule("Séléna", "Selina") {
        Err(MetaphoneError::NonAsciiInput { input }) => assert_eq!(input, "Séléna"),
        _ => panic!("expected a metaphone error"),
    }
    let error = MetaphoneError::NonAsciiInput {
        input: "Séléna".to_string(),
    };
    assert_eq!(
        error.message(),
        "Metaphone matcher failed. Non-ASCII input: Séléna"
    );
    let generic = rule.into_generic_matcher();
    assert!(matches!(
        generic.match_rule_generic("Séléna", "Selina", false),
        Err(Error::Metaphone(_))
    ));
}

#[test]
fn match_rating_short_inputs_must_equal_the_target() {
    let rule = MatchRatingRule::new("A");
    assert!(rule.match_rule(" A ", " A ").is_ok());
    assert!(matches!(rule.match_rule("x", "x"), Ok(r) if r.matched));
    assert!(matches!(rule.match_rule("x", "y"), Ok(r) if !r.matched));
}

#[test]
fn match_rating_rejects_codes_far_apart_in_length() {
    let rule = MatchRatingRule::new("Bo");
    assert!(matches!(rule.match_rule("Bartholomew", "Bo"), Ok(r) if !r.matched));
}

#[test]
fn bitflip_rule_never_matches_its_own_target() {
    let rule = BitflipRule::new_dns("test", true);
    assert!(matches!(rule.match_rule("test", "test"), Ok(r) if !r.matched));
    assert!(matches!(rule.match_rule("tesu", "test"), Ok(r) if r.matched));
}

#[test]
fn example_rule_generic_test_match() {
    let rule = ExampleRule;
    let generic_rule = rule.into_generic_matcher();

    assert!(generic_rule
        .match_rule_generic("test string", "test", false)
        .is_match());
    assert!(!generic_rule
        .match_rule_generic("some other string", "test", false)
        .is_match());
}
