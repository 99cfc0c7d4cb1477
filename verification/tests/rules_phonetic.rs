use stringsimile::rule::{GenericMatcherRule, MatcherResultExt, MatcherRule};
use stringsimile::rules::any_rule::IntoGenericMatcherRule;
use stringsimile::text::check_letters_uppercase_to_ascii;
use stringsimile::rules::match_rating::MatchRatingRule;
use stringsimile::rules::metaphone::{MetaphoneRule, MetaphoneRuleType};
use stringsimile::rules::nysiis::NysiisRule;
use stringsimile::rules::soundex::{SoundexRule, SoundexRuleType};

#[test]
fn match_rating_simple_example_normal() {
    let rule = MatchRatingRule::new("Frances");

    let result = rule.match_rule("Franciszek", "Frances");
    assert!(result.is_match());
}

#[test]
fn metaphone_simple_example_normal() {
    let rule = MetaphoneRule::new(MetaphoneRuleType::Normal, Some(4), "Selina");

    let result = rule.match_rule("Selena", "Selina");
    assert!(result.is_match());
    let metadata = result.into_metadata();
    assert_eq!(metadata.max_code_length, Some(4));
    assert_eq!(metadata.metaphone_type, "normal");
    assert_eq!(metadata.primary_code, "SLN");
    assert_eq!(metadata.alternate_code, None);
}

#[test]
fn simple_example_double() {
    let rule = MetaphoneRule::new(MetaphoneRuleType::Double, Some(4), "Bryan");

    let result = rule.match_rule("Brian", "Bryan");
    assert!(result.is_match());
    let metadata = result.into_metadata();
    assert_eq!(metadata.max_code_length, Some(4));
    assert_eq!(metadata.metaphone_type, "double");
    assert_eq!(metadata.primary_code, "PRN");
    assert_eq!(metadata.alternate_code, Some("PRN".to_string()));
}

#[test]
fn nysiis_simple_example_normal() {
    let rule = NysiisRule::default();

    let result = rule.match_rule("Brian", "Brown");
    assert!(result.is_match());
    let metadata = result.into_metadata();
    assert_eq!(metadata.encoded, "BRAN");
}

#[test]
fn soundex_simple_example_normal() {
    let rule = SoundexRule::new(SoundexRuleType::Normal, 3, "Smythers");

    let result = rule.match_rule("Smithers", "Smythers");
    assert!(result.is_match());
    let metadata = result.into_metadata();
    assert_eq!(metadata.similarity, 4);
    assert_eq!(metadata.soundex_type, "normal");
}

#[test]
fn simple_example_refined() {
    let rule = SoundexRule::new(SoundexRuleType::Refined, 3, "Smythers");

    let result = rule.match_rule("Smithers", "Smythers");
    assert!(result.is_match());
    let metadata = result.into_metadata();
    assert_eq!(metadata.similarity, 8);
    assert_eq!(metadata.soundex_type, "refined");
}

#[test]
fn soundex_and_nysiis_accept_non_letters_beyond_ascii() {
    assert!(check_letters_uppercase_to_ascii("Rob\u{20ac}rt"));
    assert!(!check_letters_uppercase_to_ascii("M\u{fc}ller"));

    let rule = SoundexRule::new(SoundexRuleType::Normal, 4, "Robert");
    let result = rule.match_rule("Rob\u{20ac}rt", "Robert");
    assert!(result.is_match());
    let generic = SoundexRule::new(SoundexRuleType::Refined, 1, "Robert").into_generic_matcher();
    assert!(generic.match_rule_generic("Rob\u{20ac}rt", "Robert", false).is_ok());
    assert!(generic.match_rule_generic("M\u{fc}ller", "Robert", false).is_err());

    let nysiis = NysiisRule::default();
    assert!(nysiis.match_rule("Rob\u{20ac}rt", "Robert").is_ok());
}

#[test]
fn match_rating_handles_accented_letters() {
    let rule = MatchRatingRule::new("Jose");
    assert!(rule.check_accepts("Jos\u{e9}", "Jose"));
    assert!(rule.match_rule("Jos\u{e9}", "Jose").is_match());
    let accented = MatchRatingRule::new("Jos\u{e9}");
    assert!(accented.match_rule("Jose", "Jos\u{e9}").is_match());
    assert!(!rule.check_accepts("Jos\u{20ac}", "Jose"));
    let generic = MatchRatingRule::new("Jose").into_generic_matcher();
    assert!(generic.match_rule_generic("Jos\u{e9}", "Jose", false).ok().unwrap().matched);
    assert!(generic.match_rule_generic("Jos\u{20ac}", "Jose", false).is_err());
}

#[test]
fn nysiis_handles_non_ascii_letters() {
    let strict = NysiisRule::default().into_generic_matcher();
    assert!(strict.match_rule_generic("M\u{fc}ller", "Muller", false).is_ok());
    let relaxed = NysiisRule::new(false);
    assert!(relaxed.check_accepts("\u{e9}\u{e9}\u{e9}\u{e9}\u{e9}\u{e9}\u{e9}", "Muller"));
    assert!(relaxed.match_rule("M\u{fc}ller", "Muller").is_ok());
}

#[test]
fn soundex_with_empty_target_code_matches_any_input_with_zero_similarity() {
    let rule = SoundexRule::new(SoundexRuleType::Normal, 0, "1234");
    assert!(rule.check_accepts("M\u{fc}ller", "1234"));
    let result = rule.match_rule("M\u{fc}ller", "1234");
    assert!(result.is_match());
    assert_eq!(result.into_metadata().similarity, 0);
}
