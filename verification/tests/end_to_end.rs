//! The full request flow at the library level: create a question, read it
//! back, ask for its answer, delete it, and see the deletion stick — once
//! per backend.

use question_service::{
    CoreError, GptAnswerClient, GptAnswerServer, QuestionEntity, QuestionId,
    QuestionInMemoryRepository, QuestionPort, QuestionRowRepository,
};

fn scenario<P: QuestionPort>(mut port: P) {
    // POST /questions with {title: "T", content: "C"}.
    let posted =
        QuestionEntity::new(QuestionId(0), "T".to_string(), "C".to_string(), None).unwrap();
    let id = port.add(posted).unwrap();

    // GET /questions/{id} returns {id, title: "T", content: "C", tags: null}.
    let got = port.get(&id).unwrap();
    assert_eq!(got.id, id);
    assert_eq!(got.title, "T");
    assert_eq!(got.content, "C");
    assert_eq!(got.tags, None);

    // GET /questions/{id}/answer returns a string derived from "C".
    let server = GptAnswerServer::default();
    let response = server.get_answer(GptAnswerClient::prepare_request(&got.content));
    assert_eq!(response.answer, "Answer to: C");
    assert!(response.answer.contains("C"));

    // DELETE /questions/{id} succeeds; a subsequent GET maps to 404.
    port.delete(&id).unwrap();
    let missing = port.get(&id).unwrap_err();
    assert_eq!(missing, CoreError::NotFound);
    assert_eq!(missing.status_code(), 404);
}

#[test]
fn end_to_end_in_memory() {
    scenario(QuestionInMemoryRepository::new());
}

#[test]
fn end_to_end_row_store() {
    let mut store = QuestionRowRepository::new();
    store.set_clock(1_700_000_000);
    scenario(store);
}
