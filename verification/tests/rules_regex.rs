use stringsimile::config::{RegexConfig, RuleConfigError};
use stringsimile::rule::{GenericMatcherRule, MatcherResultExt, MatcherRule};
use stringsimile::rules::any_rule::IntoGenericMatcherRule;
use stringsimile::rules::regex::{RegexBuildError, RegexRule};

#[test]
fn regex_simple_example() {
    let rule = RegexRule::new(r#"netflix\.com\.$"#.to_string()).ok().unwrap();

    let result = rule.match_rule("netflix.com.", "netflix.com.");
    assert!(result.is_match());
    let result = rule.match_rule("netflix.com", "netflix.com.");
    assert!(!result.is_match());
    let result = rule.match_rule("neftlix.com.", "netflix.com.");
    assert!(!result.is_match());
}

#[test]
fn complex_pattern_example() {
    let rule = RegexRule::new(r#".*n.*t.*f.*"#.to_string()).ok().unwrap();

    let result = rule.match_rule("netflix.com.", "netflix.com.");
    assert!(result.is_match());
    let result = rule.match_rule("netflix.com", "netflix.com.");
    assert!(result.is_match());
    let result = rule.match_rule("neftlix.com.", "netflix.com.");
    assert!(!result.is_match());
}

#[test]
fn regex_rule_refuses_invalid_pattern() {
    assert!(matches!(
        RegexRule::new("(unclosed".to_string()),
        Err(RegexBuildError::RegexCompilationError { .. })
    ));
    let config = RegexConfig {
        pattern: "[z-a]".to_string(),
    };
    assert!(matches!(
        config.build(),
        Err(RuleConfigError::RegexInvalidPattern { .. })
    ));
}

#[test]
fn regex_rule_keeps_its_pattern_and_matches_generically() {
    let rule = RegexConfig {
        pattern: "^www\\.".to_string(),
    }
    .build()
    .ok()
    .unwrap();
    assert_eq!(rule.pattern_str(), "^www\\.");
    let generic = rule.clone().into_generic_matcher();
    assert_eq!(generic.name(), "regex");
    let hit = generic.match_rule_generic("www.example.com", "unused", false).ok().unwrap();
    assert!(hit.matched);
    assert_eq!(hit.rule_type, "regex");
    let miss = generic.match_rule_generic("example.com", "unused", false).ok().unwrap();
    assert!(!miss.matched);
}
