use question_service::{QuestionEntity, QuestionFilter, QuestionId, str_contains};

fn question(title: &str, content: &str, tags: Option<Vec<&str>>) -> QuestionEntity {
    QuestionEntity::new(
        QuestionId(0),
        title.to_string(),
        content.to_string(),
        tags.map(|v| v.into_iter().map(|t| t.to_string()).collect()),
    )
    .unwrap()
}

fn pairs(raw: &[(&str, &str)]) -> Vec<(String, String)> {
    raw.iter().map(|(k, v)| (k.to_string(), v.to_string())).collect()
}

#[test]
fn unrecognized_keys_are_ignored() {
    let f = QuestionFilter::from_query(&pairs(&[("page", "3"), ("order", "desc")])).unwrap();
    assert!(f.tag.is_none());
    assert!(f.title.is_none());
}

#[test]
fn recognized_keys_constrain() {
    let f = QuestionFilter::from_query(&pairs(&[("tag", "faq"), ("title", "how")])).unwrap();
    assert_eq!(f.tag.as_deref(), Some("faq"));
    assert_eq!(f.title.as_deref(), Some("how"));
}

#[test]
fn last_occurrence_of_a_key_wins() {
    let f = QuestionFilter::from_query(&pairs(&[("tag", "old"), ("tag", "new")])).unwrap();
    assert_eq!(f.tag.as_deref(), Some("new"));
}

#[test]
fn empty_filter_matches_everything() {
    let f = QuestionFilter::from_query(&pairs(&[])).unwrap();
    assert!(f.matches(&question("anything", "at all", None)));
    assert!(f.matches(&question("tagged", "too", Some(vec!["a", "b"]))));
}

#[test]
fn tag_filter_matches_tagged_questions_only() {
    let f = QuestionFilter::from_query(&pairs(&[("tag", "faq")])).unwrap();
    assert!(f.matches(&question("t", "c", Some(vec!["misc", "faq"]))));
    assert!(!f.matches(&question("t", "c", Some(vec!["misc"]))));
    assert!(!f.matches(&question("t", "c", None)));
}

#[test]
fn title_filter_matches_substrings() {
    let f = QuestionFilter::from_query(&pairs(&[("title", "rust")])).unwrap();
    assert!(f.matches(&question("why rust works", "c", None)));
    assert!(!f.matches(&question("why it works", "c", None)));
}

#[test]
fn substring_search() {
    assert!(str_contains("xabcy", "abc"));
    assert!(str_contains("abc", "abc"));
    assert!(str_contains("abc", ""));
    assert!(!str_contains("", "abc"));
    assert!(!str_contains("abdc", "abc"));
}
