use question_service::{CoreError, QuestionEntity, QuestionId, StorageFault, parse_i32, render_i32};

#[test]
fn storage_faults_are_reclassified() {
    assert_eq!(
        CoreError::classify_storage_fault(StorageFault::ConnectionUnavailable),
        CoreError::InternalError
    );
    assert_eq!(CoreError::classify_storage_fault(StorageFault::Io), CoreError::IOError);
    assert_eq!(CoreError::classify_storage_fault(StorageFault::Other), CoreError::Unknown);
}

#[test]
fn parse_plain_number() {
    assert_eq!(parse_i32("42"), Ok(42));
    assert_eq!(parse_i32("0"), Ok(0));
    assert_eq!(parse_i32("-7"), Ok(-7));
}

#[test]
fn parse_extremes() {
    assert_eq!(parse_i32("2147483647"), Ok(i32::MAX));
    assert_eq!(parse_i32("-2147483648"), Ok(i32::MIN));
    assert_eq!(parse_i32("2147483648"), Err(CoreError::ParseError));
    assert_eq!(parse_i32("-2147483649"), Err(CoreError::ParseError));
    assert_eq!(parse_i32("99999999999999999999"), Err(CoreError::ParseError));
}

#[test]
fn parse_rejects_malformed_text() {
    assert_eq!(parse_i32(""), Err(CoreError::ParseError));
    assert_eq!(parse_i32("-"), Err(CoreError::ParseError));
    assert_eq!(parse_i32("abc"), Err(CoreError::ParseError));
    assert_eq!(parse_i32("12x"), Err(CoreError::ParseError));
    assert_eq!(parse_i32("+5"), Err(CoreError::ParseError));
    assert_eq!(parse_i32(" 5"), Err(CoreError::ParseError));
}

#[test]
fn render_gives_canonical_text() {
    assert_eq!(render_i32(0), "0");
    assert_eq!(render_i32(12345), "12345");
    assert_eq!(render_i32(-123), "-123");
    assert_eq!(render_i32(i32::MAX), "2147483647");
    assert_eq!(render_i32(i32::MIN), "-2147483648");
}

#[test]
fn id_text_round_trip() {
    for n in [0, 1, -1, 917, -45210, i32::MAX, i32::MIN] {
        let id = QuestionId(n);
        let text = id.to_text();
        assert_eq!(QuestionId::from_str(&text), Ok(id));
    }
}

#[test]
fn id_rejects_malformed_text() {
    assert_eq!(QuestionId::from_str("seven"), Err(CoreError::ParseError));
    assert_eq!(QuestionId::from_str(""), Err(CoreError::ParseError));
}

#[test]
fn entity_requires_title() {
    let missing = QuestionEntity::new(
        QuestionId(0),
        String::new(),
        "some content".to_string(),
        None,
    );
    assert_eq!(missing, Err(CoreError::MissingParameters));

    let ok = QuestionEntity::new(
        QuestionId(0),
        "a title".to_string(),
        "some content".to_string(),
        Some(vec!["faq".to_string()]),
    )
    .unwrap();
    assert_eq!(ok.title, "a title");
    assert_eq!(ok.content, "some content");
    assert_eq!(ok.tags, Some(vec!["faq".to_string()]));
}

#[test]
fn error_messages_and_status_codes() {
    assert_eq!(CoreError::ParseError.message(), "parse error");
    assert_eq!(CoreError::IOError.message(), "io error");
    assert_eq!(CoreError::MissingParameters.message(), "missing parameters");
    assert_eq!(CoreError::NotFound.message(), "not found");
    assert_eq!(CoreError::InternalError.message(), "internal error");
    assert_eq!(CoreError::Unknown.message(), "unknown data store error");

    assert_eq!(CoreError::NotFound.status_code(), 404);
    assert_eq!(CoreError::ParseError.status_code(), 500);
    assert_eq!(CoreError::InternalError.status_code(), 500);
}
