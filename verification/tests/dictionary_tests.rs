use murmure::dictionary::{
    fix_transcription_with_dictionary, parse_rule_table, CorrectionRule, Dictionary, RuleTable,
};

fn rule(wrong: &str, right: &str) -> CorrectionRule {
    CorrectionRule { wrong: wrong.to_string(), right: right.to_string() }
}

#[test]
fn dictionary_keeps_words_in_order() {
    let d = Dictionary::new(vec!["Alpha".to_string(), "beta".to_string()]);
    assert_eq!(d.get(), &vec!["Alpha".to_string(), "beta".to_string()]);
}

#[test]
fn empty_rule_table_is_identity() {
    let words = vec!["hello".to_string()];
    let table = RuleTable { rules: Vec::new() };
    let out = fix_transcription_with_dictionary("helo, wrold!".to_string(), &words, &table);
    assert_eq!(out, "helo, wrold!");
}

#[test]
fn rule_rewrites_matching_words() {
    let words = vec!["hello".to_string()];
    let table = RuleTable { rules: vec![rule("helo", "hello")] };
    let out = fix_transcription_with_dictionary("helo there, helo!".to_string(), &words, &table);
    assert_eq!(out, "hello there, hello!");
}

#[test]
fn rule_without_dictionary_word_does_not_apply() {
    let words = vec!["goodbye".to_string()];
    let table = RuleTable { rules: vec![rule("helo", "hello")] };
    let out = fix_transcription_with_dictionary("helo there".to_string(), &words, &table);
    assert_eq!(out, "helo there");
}

#[test]
fn first_matching_rule_wins() {
    let words = vec!["hello".to_string(), "halo".to_string()];
    let table = RuleTable { rules: vec![rule("helo", "hello"), rule("helo", "halo")] };
    let out = fix_transcription_with_dictionary("helo".to_string(), &words, &table);
    assert_eq!(out, "hello");
}

#[test]
fn rewriting_respects_word_boundaries() {
    let words = vec!["cat".to_string()];
    let table = RuleTable { rules: vec![rule("kat", "cat")] };
    // "kats" is a different word and must stay
    let out = fix_transcription_with_dictionary("kat kats kat.".to_string(), &words, &table);
    assert_eq!(out, "cat kats cat.");
}

#[test]
fn apostrophes_stay_inside_words() {
    let words = vec!["don't".to_string()];
    let table = RuleTable { rules: vec![rule("dont'", "don't")] };
    let out = fix_transcription_with_dictionary("dont' stop".to_string(), &words, &table);
    assert_eq!(out, "don't stop");
}

#[test]
fn correction_is_deterministic() {
    let words = vec!["hello".to_string()];
    let table = RuleTable { rules: vec![rule("helo", "hello")] };
    let a = fix_transcription_with_dictionary("helo x".to_string(), &words, &table);
    let b = fix_transcription_with_dictionary("helo x".to_string(), &words, &table);
    assert_eq!(a, b);
}

#[test]
fn parse_rule_table_reads_tab_separated_lines() {
    let t = parse_rule_table("helo\thello\nwrold\tworld\n");
    assert_eq!(t.rules.len(), 2);
    assert_eq!(t.rules[0].wrong, "helo");
    assert_eq!(t.rules[0].right, "hello");
    assert_eq!(t.rules[1].wrong, "wrold");
    assert_eq!(t.rules[1].right, "world");
}

#[test]
fn parse_rule_table_ignores_lines_without_tab() {
    let t = parse_rule_table("just a comment\nhelo\thello\n\n");
    assert_eq!(t.rules.len(), 1);
    assert_eq!(t.rules[0].wrong, "helo");
}

#[test]
fn parse_rule_table_reads_final_unterminated_line() {
    let t = parse_rule_table("helo\thello");
    assert_eq!(t.rules.len(), 1);
    assert_eq!(t.rules[0].wrong, "helo");
    assert_eq!(t.rules[0].right, "hello");
}

#[test]
fn parse_rule_table_uses_first_tab_of_a_line() {
    let t = parse_rule_table("a\tb\tc");
    assert_eq!(t.rules.len(), 1);
    assert_eq!(t.rules[0].wrong, "a");
    assert_eq!(t.rules[0].right, "b\tc");
}

#[test]
fn parsed_rules_drive_correction() {
    let words = vec!["world".to_string()];
    let table = parse_rule_table("wrold\tworld\n");
    let out = fix_transcription_with_dictionary("hello wrold".to_string(), &words, &table);
    assert_eq!(out, "hello world");
}
