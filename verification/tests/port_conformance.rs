//! One conformance suite, run unchanged against both repository
//! implementations: substitutability means no test below may care which
//! backend it exercises.

use question_service::{
    CoreError, QuestionEntity, QuestionFilter, QuestionId, QuestionInMemoryRepository,
    QuestionPort, QuestionRowRepository,
};

fn question(title: &str, content: &str, tags: Option<Vec<&str>>) -> QuestionEntity {
    QuestionEntity::new(
        QuestionId(0),
        title.to_string(),
        content.to_string(),
        tags.map(|v| v.into_iter().map(|t| t.to_string()).collect()),
    )
    .unwrap()
}

fn empty_filter() -> QuestionFilter {
    QuestionFilter::from_query(&Vec::new()).unwrap()
}

fn conformance<P: QuestionPort>(mut port: P) {
    // Round trip: what was added is found again under the assigned id,
    // equal in all but the id.
    let q = question("T", "C", Some(vec!["faq", "intro"]));
    let id = port.add(q).unwrap();
    let got = port.get(&id).unwrap();
    assert_eq!(got.id, id);
    assert_eq!(got.title, "T");
    assert_eq!(got.content, "C");
    assert_eq!(got.tags, Some(vec!["faq".to_string(), "intro".to_string()]));

    // Assigned identifiers are distinct, and listing with an empty filter
    // returns exactly the non-deleted questions, size for size.
    let id2 = port.add(question("T2", "C2", None)).unwrap();
    assert_ne!(id, id2);
    let all = port.list(&empty_filter()).unwrap();
    assert_eq!(all.len(), 2);
    assert_eq!(all[0].id, id);
    assert_eq!(all[1].id, id2);

    // Update replaces the full entity; on an unknown id it fails NotFound
    // and creates nothing.
    let mut replacement = question("T2 new", "C2 new", Some(vec!["edited"]));
    replacement.id = id2;
    port.update(replacement).unwrap();
    let got2 = port.get(&id2).unwrap();
    assert_eq!(got2.title, "T2 new");
    assert_eq!(got2.content, "C2 new");
    assert_eq!(got2.tags, Some(vec!["edited".to_string()]));

    let mut ghost_update = question("nobody", "home", None);
    ghost_update.id = QuestionId(777);
    assert_eq!(port.update(ghost_update), Err(CoreError::NotFound));
    assert_eq!(port.list(&empty_filter()).unwrap().len(), 2);

    // Delete removes exactly the asked question; a lookup right after
    // fails NotFound, and so does a second delete of the same id.
    port.delete(&id).unwrap();
    assert!(matches!(port.get(&id), Err(CoreError::NotFound)));
    assert_eq!(port.delete(&id), Err(CoreError::NotFound));
    assert_eq!(port.delete(&QuestionId(777)), Err(CoreError::NotFound));
    let rest = port.list(&empty_filter()).unwrap();
    assert_eq!(rest.len(), 1);
    assert_eq!(rest[0].id, id2);

    // Identifiers are never reused, even after a delete.
    let id3 = port.add(question("T3", "C3", None)).unwrap();
    assert_ne!(id3, id);
    assert_ne!(id3, id2);

    // Listing can be narrowed by tag and by title text.
    let tag_filter =
        QuestionFilter::from_query(&vec![("tag".to_string(), "edited".to_string())]).unwrap();
    let tagged = port.list(&tag_filter).unwrap();
    assert_eq!(tagged.len(), 1);
    assert_eq!(tagged[0].id, id2);

    let title_filter =
        QuestionFilter::from_query(&vec![("title".to_string(), "T3".to_string())]).unwrap();
    let titled = port.list(&title_filter).unwrap();
    assert_eq!(titled.len(), 1);
    assert_eq!(titled[0].id, id3);
}

#[test]
fn conformance_in_memory() {
    conformance(QuestionInMemoryRepository::new());
}

#[test]
fn conformance_row_store() {
    let mut store = QuestionRowRepository::new();
    store.set_clock(1_700_000_000);
    conformance(store);
}
