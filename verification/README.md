# stringsimile

Compares input strings against target strings with similarity rules (Levenshtein,
Damerau-Levenshtein, Hamming, Soundex, Metaphone, NYSIIS, match rating, IDN confusables,
bitflips, regular expressions), after optional preprocessing (splitting on dots, Punycode,
exclusion sets).

## Layout

- `src/` — the library, written in Verus, which checks every function there; the public
  functions state in their contracts what they return:
  - `rule.rs`, `rules/` — the rule interface, each rule, and `AnyRule`, which holds a rule of
    any kind;
  - `preprocessors.rs` — the preprocessors and the contexts they read;
  - `ruleset.rs` — rule sets and string groups: preprocess, match every rule, collect results
    and a tally of what each rule did;
  - `config.rs` — checks rule configurations and builds rules from them;
  - `metadata.rs`, `text.rs` — key/value metadata and string helpers.

  Calls into the outside crates (`triple_accel`, `rphonetic`, `confusables`, `idna`,
  `hashbrown`, `xorf`, `regex`) and a few std functions sit behind small trusted wrappers.
  Each wrapper's doc comment says what its contract claims of the outside code and what it
  leaves unsaid; the proofs rest on those contracts.
- `app/` — ordinary Rust around the library: serde copies of the configuration types, the
  rules that need floating point or `std::net` (Jaro, Jaro-Winkler, Jaccard, CIDR), cost
  estimates, reading exclusion files, regex exclusion scans, metrics and JSON output.
  Regex exclusion sets are scanned with `regex::RegexSet`: the library takes the outcome of
  each scan as an argument (`Preprocessor::process`), and its all-in-one
  `RuleSet::generate_matches` / `StringGroup::generate_matches` take contexts that need no
  scan.
- `tests/` — tests run against the compiled library with the real outside crates.
