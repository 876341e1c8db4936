use question_service::{
    CoreError, GetAnswerResponse, GptAnswerClient, GptAnswerServer, TransportFault,
    default_answer_uri, relay_answer,
};

#[test]
fn stub_answers_with_documented_shape() {
    let server = GptAnswerServer::default();
    let response = server.get_answer(GptAnswerClient::prepare_request("X"));
    assert_eq!(response.answer, "Answer to: X");
    assert!(response.answer.contains("X"));
}

#[test]
fn request_carries_the_question_verbatim() {
    let payload = GptAnswerClient::prepare_request("why is the sky blue?");
    assert_eq!(payload.question, "why is the sky blue?");
}

#[test]
fn client_accepts_a_well_formed_uri() {
    assert!(GptAnswerClient::new(default_answer_uri()).is_ok());
    assert!(GptAnswerClient::new("http://example.com:50051".to_string()).is_ok());
}

#[test]
fn client_rejects_a_malformed_uri() {
    let bad = GptAnswerClient::new("not a uri".to_string());
    assert!(matches!(bad, Err(CoreError::InternalError)));
}

#[test]
fn answers_are_relayed_verbatim() {
    let out = relay_answer(Ok(GetAnswerResponse { answer: "four".to_string() }));
    assert_eq!(out, Ok("four".to_string()));
}

#[test]
fn every_transport_fault_becomes_internal_error() {
    assert_eq!(
        relay_answer(Err(TransportFault::ConnectFailed)),
        Err(CoreError::InternalError)
    );
    assert_eq!(
        relay_answer(Err(TransportFault::CallFailed)),
        Err(CoreError::InternalError)
    );
}

#[test]
fn default_uri_names_the_documented_address() {
    assert_eq!(default_answer_uri(), "http://0.0.0.0:50051");
}
