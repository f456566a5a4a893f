use search_bench::phrase::{
    parse_phrase, regex_phrase_parts, regex_phrase_query, regex_terms, MAX_EXPANSIONS,
};
use tantivy::schema::Field;

fn strings(v: &[&str]) -> Vec<String> {
    v.iter().map(|s| s.to_string()).collect()
}

#[test]
fn slop_and_quotes() {
    let p = parse_phrase("\"ab* c\"~3");
    assert_eq!(p.words, strings(&["ab*", "c"]));
    assert_eq!(p.slop, 3);
}

#[test]
fn slop_with_spaces_and_plus() {
    let p = parse_phrase(" \"x y\" ~ +2 ");
    assert_eq!(p.words, strings(&["x", "y"]));
    assert_eq!(p.slop, 2);
}

#[test]
fn no_slop_when_tilde_tail_is_not_a_number() {
    let p = parse_phrase("foo~bar baz");
    assert_eq!(p.words, strings(&["foo~bar", "baz"]));
    assert_eq!(p.slop, 0);
    let p = parse_phrase("\"a b\"~-1");
    assert_eq!(p.words, strings(&["a", "b\"~-1"]));
    assert_eq!(p.slop, 0);
    let p = parse_phrase("a b~4294967296");
    assert_eq!(p.words, strings(&["a", "b~4294967296"]));
    assert_eq!(p.slop, 0);
    let p = parse_phrase("a b~4294967295");
    assert_eq!(p.words, strings(&["a", "b"]));
    assert_eq!(p.slop, 4294967295);
}

#[test]
fn last_tilde_counts() {
    let p = parse_phrase("a~b c~7");
    assert_eq!(p.words, strings(&["a~b", "c"]));
    assert_eq!(p.slop, 7);
}

#[test]
fn lone_quote() {
    let p = parse_phrase("\"");
    assert!(p.words.is_empty());
    assert_eq!(p.slop, 0);
}

#[test]
fn wildcard_terms() {
    let t = regex_terms(&strings(&["AB*CD", "a.b", "x-y~", "plain", "*"]));
    assert_eq!(t, strings(&["AB.*CD", "a\\.b", "x\\-y\\~", "plain", ".*"]));
    let t = regex_terms(&strings(&["\\*"]));
    assert_eq!(t, strings(&["\\\\.*"]));
}

#[test]
fn phrase_query_needs_two_words() {
    let field = Field::from_field_id(0);
    let q = regex_phrase_query("\"ca* hat\"~1", field).unwrap();
    assert_eq!(q.field(), field);
    assert_eq!(q.parts().terms, strings(&["ca.*", "hat"]));
    assert_eq!(q.parts().slop, 1);
    assert_eq!(q.parts().max_expansions, 1_000_000);
    let shown = format!("{:?}", q.query());
    assert!(shown.contains("phrase_terms: [(0, \"ca.*\"), (1, \"hat\")]"), "{shown}");
    assert!(shown.contains("slop: 1"), "{shown}");
    assert!(shown.contains("max_expansions: 1000000"), "{shown}");
    let terms: Vec<String> = q
        .query()
        .phrase_terms()
        .iter()
        .map(|t| t.value().as_str().unwrap().to_string())
        .collect();
    assert_eq!(terms, strings(&["ca.*", "hat"]));
    assert!(regex_phrase_query("ca*", field).is_none());
    assert!(regex_phrase_query("\"ca*\"~4", field).is_none());
    assert_eq!(MAX_EXPANSIONS, 1_000_000);
}

#[test]
fn phrase_parts() {
    let p = regex_phrase_parts("  a.b* -c~ 12 ").unwrap();
    assert_eq!(p.terms, strings(&["a\\.b.*", "\\-c"]));
    assert_eq!(p.slop, 12);
    assert_eq!(p.max_expansions, MAX_EXPANSIONS);
    assert!(regex_phrase_parts("solo*~2").is_none());
    assert!(regex_phrase_parts("").is_none());
}

#[test]
fn slop_suffix_matches_trimmed_prefix() {
    let field = Field::from_field_id(2);
    let with_slop = regex_phrase_query(" \"ca* hat\" ~17", field).unwrap();
    let prefix = regex_phrase_query("\"ca* hat\"", field).unwrap();
    assert_eq!(with_slop.parts().terms, prefix.parts().terms);
    assert_eq!(with_slop.parts().slop, 17);
    assert_eq!(prefix.parts().slop, 0);
    assert_eq!(with_slop.parts().max_expansions, prefix.parts().max_expansions);
    assert_eq!(with_slop.field(), field);
}
