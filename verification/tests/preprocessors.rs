use stringsimile::metadata::{MetaValue, Metadata};
use stringsimile::preprocessors::{
    ExclusionSetConfig, ExclusionSetSource, Preprocessor, PreprocessorContext, PunycodeConfig,
    SplitTargetConfig,
};

fn single(s: &str) -> Vec<(String, Metadata)> {
    vec![(s.to_string(), Metadata::new())]
}

fn many(items: &[&str]) -> Vec<(String, Metadata)> {
    items
        .iter()
        .map(|s| (s.to_string(), Metadata::new()))
        .collect()
}

fn texts(items: &[(String, Metadata)]) -> Vec<String> {
    items.iter().map(|(s, _)| s.clone()).collect()
}

fn punycode_flag(item: &(String, Metadata)) -> Option<&MetaValue> {
    item.1.get("punycode")
}

#[test]
fn split_target_basic() {
    let split_target = Preprocessor::SplitTarget(SplitTargetConfig { ignore_tld: false });

    let result = split_target.process(
        single("this.is.test.string.com."),
        &PreprocessorContext::Empty,
        &Vec::new(),
    );

    assert_eq!(texts(&result), vec!["this", "is", "test", "string", "com"]);
}

#[test]
fn split_target_basic_ignore_tld() {
    let split_target = Preprocessor::SplitTarget(SplitTargetConfig { ignore_tld: true });

    let result = split_target.process(
        single("this.is.test.string.com."),
        &PreprocessorContext::Empty,
        &Vec::new(),
    );

    assert_eq!(texts(&result), vec!["this", "is", "test", "string"]);
}

#[test]
fn split_target_records_piece_and_position() {
    let split_target = Preprocessor::SplitTarget(SplitTargetConfig { ignore_tld: false });

    let result = split_target.process(single("..a..bc."), &PreprocessorContext::Empty, &Vec::new());

    assert_eq!(texts(&result), vec!["a", "bc"]);
    assert_eq!(result[1].1.get("split_string"), Some(&MetaValue::Str("bc".to_string())));
    assert_eq!(result[1].1.get("split_position"), Some(&MetaValue::UInt(1)));
}

#[test]
fn exclusion_set_static() {
    let exclusion_set = Preprocessor::ExclusionSet(ExclusionSetConfig {
        source: ExclusionSetSource::Static(vec!["is".to_string(), "com".to_string()]),
        regex: false,
    });

    let ctx = exclusion_set.build_context();
    let result = exclusion_set.process(
        many(&["this", "is", "test", "string", "com"]),
        &ctx,
        &Vec::new(),
    );

    assert_eq!(texts(&result), vec!["this", "test", "string"]);
}

#[test]
fn exclusion_set_exact_file() {
    let exclusion_set = Preprocessor::ExclusionSet(ExclusionSetConfig {
        source: ExclusionSetSource::File("exclusions.txt".to_string()),
        regex: false,
    });

    let mut ctx = exclusion_set.build_context();
    let input = many(&["this", "is", "test", "string", "com"]);
    let unloaded = exclusion_set.process(input, &ctx, &Vec::new());
    assert_eq!(texts(&unloaded), vec!["this", "is", "test", "string", "com"]);

    ctx.load_lines(vec!["is".to_string(), "com".to_string()]);
    let result = exclusion_set.process(unloaded, &ctx, &Vec::new());
    assert_eq!(texts(&result), vec!["this", "test", "string"]);
}

#[test]
fn exclusion_set_regex() {
    let exclusion_set = Preprocessor::ExclusionSet(ExclusionSetConfig {
        source: ExclusionSetSource::Static(vec!["^t.*".to_string()]),
        regex: true,
    });

    let ctx = exclusion_set.build_context();
    assert!(ctx.needs_regex_scan());
    let result = exclusion_set.process(
        many(&["this", "is", "test", "string", "com"]),
        &ctx,
        &vec![true, false, true, false, false],
    );

    assert_eq!(texts(&result), vec!["is", "string", "com"]);
}

#[test]
fn exclusion_set_exact_file_with_repeated_lines() {
    let exclusion_set = Preprocessor::ExclusionSet(ExclusionSetConfig {
        source: ExclusionSetSource::File("exclusions.txt".to_string()),
        regex: false,
    });

    let mut ctx = exclusion_set.build_context();
    ctx.load_lines(vec!["is".to_string(), "com".to_string(), "is".to_string()]);
    let result = exclusion_set.process(
        many(&["this", "is", "test", "string", "com"]),
        &ctx,
        &Vec::new(),
    );
    assert_eq!(texts(&result), vec!["this", "test", "string"]);
}

#[test]
fn exclusion_set_regex_file() {
    let exclusion_set = Preprocessor::ExclusionSet(ExclusionSetConfig {
        source: ExclusionSetSource::File("patterns.txt".to_string()),
        regex: true,
    });

    let mut ctx = exclusion_set.build_context();
    assert!(!ctx.needs_regex_scan());
    // The lines of the pattern file ("^t.*\n^str.*\n"), compiled by the application.
    ctx.set_regex_db(vec!["^t.*".to_string(), "^str.*".to_string()]);
    assert!(ctx.needs_regex_scan());
    let result = exclusion_set.process(
        many(&["this", "is", "test", "string", "com"]),
        &ctx,
        &vec![true, false, true, true, false],
    );

    assert_eq!(texts(&result), vec!["is", "com"]);
}

#[test]
fn punycode_encode() {
    let punycode = Preprocessor::Punycode(PunycodeConfig {
        encode: true,
        decode: false,
        keep_both: false,
    });

    let result = punycode.process(single("www.café.com"), &PreprocessorContext::Empty, &Vec::new());

    assert_eq!(result.len(), 1);
    assert_eq!(result[0].0, "www.xn--caf-dma.com");
    assert_eq!(punycode_flag(&result[0]), Some(&MetaValue::Bool(true)));
}

#[test]
fn punycode_encode_keep_both() {
    let punycode = Preprocessor::Punycode(PunycodeConfig {
        encode: true,
        decode: false,
        keep_both: true,
    });

    let result = punycode.process(single("www.café.com"), &PreprocessorContext::Empty, &Vec::new());

    assert_eq!(result.len(), 2);
    assert_eq!(result[0].0, "www.xn--caf-dma.com");
    assert_eq!(punycode_flag(&result[0]), Some(&MetaValue::Bool(true)));
    assert_eq!(result[1].0, "www.café.com");
    assert_eq!(punycode_flag(&result[1]), Some(&MetaValue::Bool(false)));
}

#[test]
fn punycode_decode() {
    let punycode = Preprocessor::Punycode(PunycodeConfig {
        encode: false,
        decode: true,
        keep_both: false,
    });

    let result = punycode.process(
        single("www.xn--caf-dma.com"),
        &PreprocessorContext::Empty,
        &Vec::new(),
    );

    assert_eq!(result.len(), 1);
    assert_eq!(result[0].0, "www.café.com");
    assert_eq!(punycode_flag(&result[0]), Some(&MetaValue::Bool(false)));
}

#[test]
fn punycode_decode_keep_both() {
    let punycode = Preprocessor::Punycode(PunycodeConfig {
        encode: false,
        decode: true,
        keep_both: true,
    });

    let result = punycode.process(
        single("www.xn--caf-dma.com"),
        &PreprocessorContext::Empty,
        &Vec::new(),
    );

    assert_eq!(result.len(), 2);
    assert_eq!(result[0].0, "www.café.com");
    assert_eq!(punycode_flag(&result[0]), Some(&MetaValue::Bool(false)));
    assert_eq!(result[1].0, "www.xn--caf-dma.com");
    assert_eq!(punycode_flag(&result[1]), Some(&MetaValue::Bool(true)));
}

#[test]
fn punycode_encode_decode_keep_both() {
    let punycode = Preprocessor::Punycode(PunycodeConfig {
        encode: true,
        decode: true,
        keep_both: true,
    });

    let result = punycode.process(
        many(&["www.café.com", "www.xn--caf-dma.com"]),
        &PreprocessorContext::Empty,
        &Vec::new(),
    );

    assert_eq!(
        texts(&result),
        vec!["www.xn--caf-dma.com", "www.café.com", "www.café.com", "www.xn--caf-dma.com"]
    );
    assert_eq!(punycode_flag(&result[0]), Some(&MetaValue::Bool(true)));
    assert_eq!(punycode_flag(&result[1]), Some(&MetaValue::Bool(false)));
    assert_eq!(punycode_flag(&result[2]), Some(&MetaValue::Bool(false)));
    assert_eq!(punycode_flag(&result[3]), Some(&MetaValue::Bool(true)));
}

#[test]
fn punycode_encode_decode_with_split_target() {
    let punycode = Preprocessor::Punycode(PunycodeConfig {
        encode: true,
        decode: true,
        keep_both: true,
    });
    let split_target = Preprocessor::SplitTarget(SplitTargetConfig { ignore_tld: false });

    let split = split_target.process(
        many(&["www.café.com", "www.xn--caf-dma.com"]),
        &PreprocessorContext::Empty,
        &Vec::new(),
    );
    let result = punycode.process(split, &PreprocessorContext::Empty, &Vec::new());

    assert_eq!(
        texts(&result),
        vec!["www", "xn--caf-dma", "café", "com", "www", "café", "xn--caf-dma", "com"]
    );
    let flags: Vec<Option<&MetaValue>> = result.iter().map(punycode_flag).collect();
    assert_eq!(
        flags,
        vec![
            Some(&MetaValue::Bool(false)),
            Some(&MetaValue::Bool(true)),
            Some(&MetaValue::Bool(false)),
            Some(&MetaValue::Bool(false)),
            Some(&MetaValue::Bool(false)),
            Some(&MetaValue::Bool(false)),
            Some(&MetaValue::Bool(true)),
            Some(&MetaValue::Bool(false)),
        ]
    );
}
