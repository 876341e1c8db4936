use question_service::{QuestionEntity, QuestionId, QuestionModel};

#[test]
fn writing_a_row_wraps_each_tag_and_stamps_the_clock() {
    let entity = QuestionEntity::new(
        QuestionId(7),
        "T".to_string(),
        "C".to_string(),
        Some(vec!["a".to_string(), "b".to_string()]),
    )
    .unwrap();
    let row = QuestionModel::from(entity, 1_700_000_000).unwrap();
    assert_eq!(row.id, 7);
    assert_eq!(row.title, "T");
    assert_eq!(row.content, "C");
    assert_eq!(row.tags, Some(vec![Some("a".to_string()), Some("b".to_string())]));
    assert_eq!(row.created_on, 1_700_000_000);
}

#[test]
fn reading_a_row_discards_null_tag_entries() {
    let row = QuestionModel {
        id: 9,
        title: "T".to_string(),
        content: "C".to_string(),
        tags: Some(vec![Some("a".to_string()), None, Some("b".to_string()), None]),
        created_on: 1,
    };
    let entity = row.to_entity().unwrap();
    assert_eq!(entity.id, QuestionId(9));
    assert_eq!(entity.tags, Some(vec!["a".to_string(), "b".to_string()]));
}

#[test]
fn a_null_tag_array_reads_back_as_absent_tags() {
    let row = QuestionModel {
        id: 3,
        title: "T".to_string(),
        content: "C".to_string(),
        tags: None,
        created_on: 1,
    };
    let entity = row.to_entity().unwrap();
    assert_eq!(entity.tags, None);
}

#[test]
fn row_translation_round_trip() {
    let entity = QuestionEntity::new(
        QuestionId(-12),
        "negative ids survive too".to_string(),
        "content".to_string(),
        Some(vec!["x".to_string()]),
    )
    .unwrap();
    let copy = entity.clone();
    let row = QuestionModel::from(entity, 42).unwrap();
    assert_eq!(row.to_entity().unwrap(), copy);
}
