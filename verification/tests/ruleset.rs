use stringsimile::metadata::MetaValue;
use stringsimile::preprocessors::{
    ExclusionSetConfig, ExclusionSetSource, Preprocessor, SplitTargetConfig,
};
use stringsimile::rules::any_rule::IntoGenericMatcherRule;
use stringsimile::rules::bitflip::BitflipRule;
use stringsimile::rules::levenshtein::LevenshteinRule;
use stringsimile::rules::metaphone::{MetaphoneRule, MetaphoneRuleType};
use stringsimile::ruleset::{
    CommonRuleConfig, RuleSet, StringGroup, StringGroupContext, StringGroupMatchResult,
};
use stringsimile::metadata::Metadata;
use stringsimile::rule::GenericMatcherRule;
use stringsimile::{Error, GenericMatchResult, MatchResult};

fn results_of<'a>(
    matches: &'a [(String, Vec<GenericMatchResult>)],
    name: &str,
) -> &'a Vec<GenericMatchResult> {
    &matches.iter().find(|(n, _)| n == name).unwrap().1
}

#[test]
fn basic_example_no_preprocessing() {
    let group = StringGroup::new(
        "test".to_string(),
        vec![RuleSet {
            name: "test_ruleset".to_string(),
            string_match: "www.test.com".to_string(),
            preprocessors: Vec::default(),
            rules: vec![
                (
                    CommonRuleConfig::default(),
                    BitflipRule::new_dns("www.test.com", true).into_generic_matcher(),
                ),
                (
                    CommonRuleConfig::default(),
                    LevenshteinRule {
                        maximum_distance: 3,
                        ignore_mismatch_metadata: false,
                    }
                    .into_generic_matcher(),
                ),
            ],
        }],
    );

    let matches = group.generate_matches("wwwntest.com", &StringGroupContext::new(&group), false);
    let result = results_of(&matches, "test_ruleset");

    assert_eq!(result.len(), 2);
    assert!(result[0].matched);
    assert_eq!(result[0].rule_type, "bitflip");
    assert!(result[1].matched);
    assert_eq!(result[1].rule_type, "levenshtein");
}

#[test]
fn basic_example_split_target_preprocessing() {
    let group = StringGroup::new(
        "test".to_string(),
        vec![RuleSet {
            name: "test_ruleset".to_string(),
            string_match: "test".to_string(),
            preprocessors: vec![Preprocessor::SplitTarget(SplitTargetConfig { ignore_tld: true })],
            rules: vec![
                (
                    CommonRuleConfig::default(),
                    BitflipRule::new_dns("test", true).into_generic_matcher(),
                ),
                (
                    CommonRuleConfig::default(),
                    LevenshteinRule {
                        maximum_distance: 3,
                        ignore_mismatch_metadata: false,
                    }
                    .into_generic_matcher(),
                ),
            ],
        }],
    );

    let matches = group.generate_matches("www.tset.com", &StringGroupContext::new(&group), true);
    let result = results_of(&matches, "test_ruleset");

    assert_eq!(result.len(), 4);
    assert!(!result[0].matched);
    assert_eq!(result[0].rule_type, "bitflip");
    assert_eq!(
        result[0].metadata.get("split_string"),
        Some(&MetaValue::Str("www".to_string()))
    );
    assert_eq!(result[0].metadata.get("split_position"), Some(&MetaValue::UInt(0)));
    assert!(!result[1].matched);
    assert_eq!(result[1].rule_type, "levenshtein");
    assert_eq!(
        result[1].metadata.get("split_string"),
        Some(&MetaValue::Str("www".to_string()))
    );
    assert_eq!(result[1].metadata.get("split_position"), Some(&MetaValue::UInt(0)));
    assert!(!result[2].matched);
    assert_eq!(result[2].rule_type, "bitflip");
    assert_eq!(
        result[2].metadata.get("split_string"),
        Some(&MetaValue::Str("tset".to_string()))
    );
    assert_eq!(result[2].metadata.get("split_position"), Some(&MetaValue::UInt(1)));
    assert!(result[3].matched);
    assert_eq!(result[3].rule_type, "levenshtein");
    assert_eq!(
        result[3].metadata.get("split_string"),
        Some(&MetaValue::Str("tset".to_string()))
    );
    assert_eq!(result[3].metadata.get("split_position"), Some(&MetaValue::UInt(1)));
}

#[test]
fn exit_on_match_stops_rule_set_for_the_string() {
    let group = StringGroup::new(
        "test".to_string(),
        vec![RuleSet {
            name: "early".to_string(),
            string_match: "www.test.com".to_string(),
            preprocessors: Vec::default(),
            rules: vec![
                (
                    CommonRuleConfig { exit_on_match: true },
                    BitflipRule::new_dns("www.test.com", true).into_generic_matcher(),
                ),
                (
                    CommonRuleConfig::default(),
                    LevenshteinRule {
                        maximum_distance: 3,
                        ignore_mismatch_metadata: false,
                    }
                    .into_generic_matcher(),
                ),
            ],
        }],
    );

    let matches = group.generate_matches("wwwntest.com", &StringGroupContext::new(&group), false);
    let result = results_of(&matches, "early");

    assert_eq!(result.len(), 1);
    assert_eq!(result[0].rule_type, "bitflip");
    assert_eq!(
        result[0].metadata.get("early_match_exit"),
        Some(&MetaValue::Bool(true))
    );
    assert_eq!(result[0].metadata.get("match"), Some(&MetaValue::Bool(true)));
    assert_eq!(
        result[0].metadata.get("rule_type"),
        Some(&MetaValue::Str("bitflip".to_string()))
    );
    assert!(matches.has_matches());
}

#[test]
fn rule_sets_without_results_are_left_out() {
    let group = StringGroup::new(
        "test".to_string(),
        vec![RuleSet {
            name: "quiet".to_string(),
            string_match: "test".to_string(),
            preprocessors: Vec::default(),
            rules: vec![(
                CommonRuleConfig::default(),
                LevenshteinRule {
                    maximum_distance: 0,
                    ignore_mismatch_metadata: false,
                }
                .into_generic_matcher(),
            )],
        }],
    );

    let context = StringGroupContext::new(&group);
    let matches = group.generate_matches("unrelated", &context, false);
    assert!(matches.is_empty());
    assert!(!matches.has_matches());

    let matches = group.generate_matches("unrelated", &context, true);
    assert_eq!(matches.len(), 1);
    assert_eq!(results_of(&matches, "quiet").len(), 1);
    assert!(!matches.has_matches());
}

#[test]
fn basic_example_exclusion_set_preprocessing() {
    let exclusion_file = || {
        Preprocessor::ExclusionSet(ExclusionSetConfig {
            source: ExclusionSetSource::File("exclusions.txt".to_string()),
            regex: false,
        })
    };
    let group = StringGroup::new(
        "test".to_string(),
        vec![
            RuleSet {
                name: "test_ruleset".to_string(),
                string_match: "test".to_string(),
                preprocessors: vec![
                    Preprocessor::SplitTarget(SplitTargetConfig { ignore_tld: false }),
                    exclusion_file(),
                ],
                rules: vec![
                    (
                        CommonRuleConfig::default(),
                        BitflipRule::new_dns("test", true).into_generic_matcher(),
                    ),
                    (
                        CommonRuleConfig::default(),
                        LevenshteinRule {
                            maximum_distance: 3,
                            ignore_mismatch_metadata: false,
                        }
                        .into_generic_matcher(),
                    ),
                ],
            },
            RuleSet {
                name: "test_ruleset_2".to_string(),
                string_match: "test".to_string(),
                preprocessors: vec![
                    exclusion_file(),
                    Preprocessor::SplitTarget(SplitTargetConfig { ignore_tld: true }),
                ],
                rules: vec![(
                    CommonRuleConfig::default(),
                    BitflipRule::new_dns("fdsfdsfs", true).into_generic_matcher(),
                )],
            },
        ],
    );
    // The lines of the exclusion file ("is\ncom\n"), as the application loads them.
    let mut context = StringGroupContext::new(&group);
    for (_, ruleset_context) in context.rulesets.iter_mut() {
        for preprocessor_context in ruleset_context.preprocessors.iter_mut() {
            preprocessor_context.load_lines(vec!["is".to_string(), "com".to_string()]);
        }
    }

    let matches = group.generate_matches("www.tset.com", &context, true);
    let result = results_of(&matches, "test_ruleset");

    assert_eq!(result.len(), 4);
    assert!(!result[0].matched);
    assert_eq!(result[0].rule_type, "bitflip");
    assert_eq!(
        result[0].metadata.get("split_string"),
        Some(&MetaValue::Str("www".to_string()))
    );
    assert_eq!(result[0].metadata.get("split_position"), Some(&MetaValue::UInt(0)));
    assert!(!result[1].matched);
    assert_eq!(result[1].rule_type, "levenshtein");
    assert_eq!(
        result[1].metadata.get("split_string"),
        Some(&MetaValue::Str("www".to_string()))
    );
    assert_eq!(result[1].metadata.get("split_position"), Some(&MetaValue::UInt(0)));
    assert!(!result[2].matched);
    assert_eq!(result[2].rule_type, "bitflip");
    assert_eq!(
        result[2].metadata.get("split_string"),
        Some(&MetaValue::Str("tset".to_string()))
    );
    assert_eq!(result[2].metadata.get("split_position"), Some(&MetaValue::UInt(1)));
    assert!(result[3].matched);
    assert_eq!(result[3].rule_type, "levenshtein");
    assert_eq!(
        result[3].metadata.get("split_string"),
        Some(&MetaValue::Str("tset".to_string()))
    );
    assert_eq!(result[3].metadata.get("split_position"), Some(&MetaValue::UInt(1)));
}

#[test]
fn rule_tallies_count_matches_and_errors() {
    let rule_set = RuleSet {
        name: "tallied".to_string(),
        string_match: "cafe".to_string(),
        preprocessors: vec![Preprocessor::SplitTarget(SplitTargetConfig { ignore_tld: false })],
        rules: vec![
            (
                CommonRuleConfig::default(),
                MetaphoneRule::new(MetaphoneRuleType::Normal, None, "cafe").into_generic_matcher(),
            ),
            (
                CommonRuleConfig::default(),
                LevenshteinRule {
                    maximum_distance: 2,
                    ignore_mismatch_metadata: false,
                }
                .into_generic_matcher(),
            ),
        ],
    };
    let context = rule_set.build_context();
    let (results, tallies) = rule_set.generate_matches_tallied("caf\u{e9}.x\u{e9}", &context, false);

    assert_eq!(tallies.len(), 2);
    assert!(!tallies[0].matched);
    assert_eq!(tallies[0].errors, 2);
    assert!(tallies[1].matched);
    assert_eq!(tallies[1].errors, 0);
    assert_eq!(results.len(), 1);
    assert_eq!(results[0].rule_type, "levenshtein");
}

/// A rule that states nothing of itself: it matches strings that start with its letter, and
/// fails on empty strings.
struct StartsWith(char);

impl GenericMatcherRule for StartsWith {
    fn name(&self) -> String {
        "starts_with".to_string()
    }

    fn match_rule_generic(
        &self,
        input_str: &str,
        _target_str: &str,
        _full_metadata_for_all: bool,
    ) -> Result<GenericMatchResult, Error> {
        if input_str.is_empty() {
            return Err(Error::UnsupportedInput {
                rule: "starts_with".to_string(),
                input: input_str.to_string(),
            });
        }
        let mut metadata = Metadata::new();
        metadata.insert("letter".to_string(), MetaValue::Str(self.0.to_string()));
        Ok(MatchResult {
            rule_type: "starts_with".to_string(),
            matched: input_str.starts_with(self.0),
            metadata,
        })
    }
}

#[test]
fn rule_set_records_results_of_any_rule_alike() {
    let rule_set = RuleSet {
        name: "letters".to_string(),
        string_match: "unused".to_string(),
        preprocessors: vec![Preprocessor::SplitTarget(SplitTargetConfig { ignore_tld: false })],
        rules: vec![
            (CommonRuleConfig::default(), StartsWith('a')),
            (CommonRuleConfig { exit_on_match: true }, StartsWith('b')),
            (CommonRuleConfig::default(), StartsWith('b')),
        ],
    };
    let context = rule_set.build_context();
    let results = rule_set.generate_matches("ab.bc.cd", &context, false);

    assert_eq!(results.len(), 2);
    assert_eq!(results[0].metadata.get("split_string"), Some(&MetaValue::Str("ab".to_string())));
    assert_eq!(results[0].metadata.get("match"), Some(&MetaValue::Bool(true)));
    assert_eq!(
        results[0].metadata.get("rule_type"),
        Some(&MetaValue::Str("starts_with".to_string()))
    );
    assert_eq!(results[1].metadata.get("split_string"), Some(&MetaValue::Str("bc".to_string())));
    assert_eq!(results[1].metadata.get("early_match_exit"), Some(&MetaValue::Bool(true)));

    let all = rule_set.generate_matches("ab.bc.cd", &context, true);
    assert_eq!(all.len(), 8);
    assert!(all.iter().all(|r| r.metadata.get("match") == Some(&MetaValue::Bool(r.matched))));
}

#[test]
fn string_group_context_holds_each_exclusion_set() {
    let group = StringGroup::new(
        "test".to_string(),
        vec![RuleSet {
            name: "excluding".to_string(),
            string_match: "test".to_string(),
            preprocessors: vec![
                Preprocessor::SplitTarget(SplitTargetConfig { ignore_tld: false }),
                Preprocessor::ExclusionSet(ExclusionSetConfig {
                    source: ExclusionSetSource::Static(vec!["www".to_string(), "com".to_string()]),
                    regex: false,
                }),
            ],
            rules: vec![(
                CommonRuleConfig::default(),
                LevenshteinRule {
                    maximum_distance: 4,
                    ignore_mismatch_metadata: false,
                }
                .into_generic_matcher(),
            )],
        }],
    );
    let context = StringGroupContext::new(&group);
    assert!(group.can_generate_matches(&context));
    let matches = group.generate_matches("www.tset.com", &context, false);
    let result = results_of(&matches, "excluding");
    assert_eq!(result.len(), 1);
    assert_eq!(result[0].metadata.get("split_string"), Some(&MetaValue::Str("tset".to_string())));
}
