use stringsimile::rule::{ExampleRule, MatcherResultExt, MatcherRule};
use stringsimile::rules::bitflip::BitflipRule;
use stringsimile::rules::confusables::ConfusablesRule;
use stringsimile::rules::damerau_levenshtein::{
    DamerauLevenshteinRule, DamerauLevenshteinSubstringRule,
};
use stringsimile::rules::hamming::HammingRule;
use stringsimile::rules::levenshtein::LevenshteinRule;
use stringsimile::rules::MatcherResult as SingleResult;
use stringsimile::rules::MatcherRule as SingleMatcherRule;

#[test]
fn rule_example_rule_test_match() {
    let rule = ExampleRule;

    assert!(rule.match_rule("test string", "test").is_match());
    assert!(!rule.match_rule("some other string", "test").is_match());
}

#[test]
fn rules_example_rule_test_match() {
    let rule = stringsimile::rules::ExampleRule {
        target_match: "test".to_string(),
    };

    assert!(matches!(
        SingleMatcherRule::match_rule(&rule, "test string"),
        SingleResult::Match(())
    ));
    assert!(matches!(
        SingleMatcherRule::match_rule(&rule, "some other string"),
        SingleResult::NoMatch
    ));
}

#[test]
fn bitflip_simple_example() {
    let rule = BitflipRule::new_dns("www.google.com", true);

    let result = rule.match_rule("wwwngoogle.com", "www.google.com");
    assert!(result.is_match());
    let result = rule.match_rule("licrosoft", "microsoft");
    assert!(result.is_match());
}

#[test]
fn simple_example_case_insensitive() {
    let rule = BitflipRule::new_dns("www.google.com", false);

    let result = rule.match_rule("WWWNGOOGLE.COM", "www.google.com");
    assert!(result.is_match());
    let result = rule.match_rule("licrosoft", "microsoft");
    assert!(result.is_match());
}

#[test]
fn simple_example_custom_charset() {
    let rule = BitflipRule::new(&vec![b'.', b'n'], "www.google.com", true);

    let result = rule.match_rule("wwwngoogle.com", "www.google.com");
    assert!(result.is_match());
    let result = rule.match_rule("licrosoft", "microsoft");
    assert!(!result.is_match());
}

#[test]
fn mismatch() {
    let rule = BitflipRule::new_dns("test", true);

    let result = rule.match_rule("tset", "test");
    assert!(!result.is_match());
    let result = rule.match_rule("unrelated", "microsoft");
    assert!(!result.is_match());
}

#[test]
fn confusables_simple_example() {
    let rule = ConfusablesRule;

    let result = rule.match_rule("t℮st", "test");
    assert!(result.is_match());
}

#[test]
fn test_rules_file_example() {
    let rule = ConfusablesRule;

    let result = rule.match_rule("𝓗℮𝐥1೦", "Hello");
    assert!(result.is_match());
}

#[test]
fn exact_match_example() {
    let rule = ConfusablesRule;

    let result = rule.match_rule("hello", "hello");
    assert!(!result.is_match());
}

#[test]
fn unrelated_strings() {
    let rule = ConfusablesRule;

    let result = rule.match_rule("𝓗℮𝐥1೦", "test");
    assert!(!result.is_match());
}

#[test]
fn damerau_levenshtein_simple_example() {
    let rule = DamerauLevenshteinRule {
        maximum_distance: 2,
        ignore_mismatch_metadata: true,
    };

    let result = rule.match_rule("test", "tset");
    assert!(result.is_match());
    assert_eq!(result.into_metadata().unwrap().distance, 1);
}

#[test]
fn damerau_levenshtein_simple_example_ignore_mismatch_metadata() {
    let rule = DamerauLevenshteinRule {
        maximum_distance: 1,
        ignore_mismatch_metadata: true,
    };

    let result = rule.match_rule("test", "tsettest");
    assert!(!result.is_match());
    assert!(result.into_metadata().is_none());
}

#[test]
fn damerau_levenshtein_simple_example_provide_mismatch_metadata() {
    let rule = DamerauLevenshteinRule {
        maximum_distance: 1,
        ignore_mismatch_metadata: false,
    };

    let result = rule.match_rule("test", "tsettest");
    assert!(!result.is_match());
    assert_eq!(result.into_metadata().unwrap().distance, 4);
}

#[test]
fn simple_example_substring_match() {
    let rule = DamerauLevenshteinSubstringRule {
        maximum_distance: 1,
    };

    let result = rule.match_rule("confirmimonneftlixconfirmation", "netflix");
    assert!(result.is_match());
    let metadata = result.into_metadata().unwrap();
    assert_eq!(metadata.distance, 1);
    assert_eq!(metadata.substring, Some("neftlix".to_string()));
}

#[test]
fn simple_example_substring_match_shorter_string() {
    let rule = DamerauLevenshteinSubstringRule {
        maximum_distance: 1,
    };

    let result = rule.match_rule("neftli", "netflix");
    assert!(!result.is_match());
    let metadata = result.into_metadata().unwrap();
    assert_eq!(metadata.distance, 2);
    assert_eq!(metadata.substring, None);
}

#[test]
fn simple_example_substring_mismatch() {
    let rule = DamerauLevenshteinSubstringRule {
        maximum_distance: 1,
    };

    let result = rule.match_rule("somecompletelyotherstring", "netflix");
    assert!(!result.is_match());
}

#[test]
fn hamming_simple_example() {
    let rule = HammingRule {
        maximum_distance: 2,
    };

    let result = rule.match_rule("test", "tset");
    assert!(result.is_match());
    assert_eq!(result.into_metadata().distance, Some(2));
}

#[test]
fn different_length_example_example() {
    let rule = HammingRule {
        maximum_distance: 2,
    };

    let result = rule.match_rule("test", "longer string");
    assert!(!result.is_match());
    assert_eq!(result.into_metadata().distance, None);
}

#[test]
fn levenshtein_simple_example() {
    let rule = LevenshteinRule {
        maximum_distance: 2,
        ignore_mismatch_metadata: true,
    };

    let result = rule.match_rule("test", "tset");
    assert!(result.is_match());
    assert_eq!(result.into_metadata().unwrap().distance, 2);
}

#[test]
fn levenshtein_simple_example_ignore_mismatch_metadata() {
    let rule = LevenshteinRule {
        maximum_distance: 1,
        ignore_mismatch_metadata: true,
    };

    let result = rule.match_rule("test", "tsettest");
    assert!(!result.is_match());
    assert!(result.into_metadata().is_none());
}

#[test]
fn levenshtein_simple_example_provide_mismatch_metadata() {
    let rule = LevenshteinRule {
        maximum_distance: 1,
        ignore_mismatch_metadata: false,
    };

    let result = rule.match_rule("test", "tsettest");
    assert!(!result.is_match());
    assert_eq!(result.into_metadata().unwrap().distance, 4);
}

#[test]
fn substring_match_in_last_window() {
    let rule = DamerauLevenshteinSubstringRule {
        maximum_distance: 0,
    };

    let result = rule.match_rule("xab", "ab");
    assert!(result.is_match());
    let metadata = result.into_metadata().unwrap();
    assert_eq!(metadata.distance, 0);
    assert_eq!(metadata.substring, Some("ab".to_string()));

    let result = rule.match_rule("xaab", "ab");
    assert!(result.is_match());
    assert_eq!(result.into_metadata().unwrap().substring, Some("ab".to_string()));
}

#[test]
fn bitflip_flips_by_character_position() {
    let rule = BitflipRule::new(&vec![b'.', b'n'], "\u{e9}.a", true);
    assert!(rule.match_rule("\u{e9}na", "\u{e9}.a").is_match());
    assert!(!rule.match_rule("\u{e9}.a", "\u{e9}.a").is_match());
    let rule = BitflipRule::new_dns("\u{e9}!a", true);
    assert!(rule.match_rule("\u{e9}!c", "\u{e9}!a").is_match());
}
