//! The answer pipeline: client and service stub.
//!
//! A question's content flows out to an external answer-generation service
//! over one unary RPC — request `{ question }`, response `{ answer }` — and
//! the answer text is relayed back verbatim. The decisions of that pipeline
//! live here: building the request from the question text, settling the
//! outcome of the call, and classifying every transport fault as an
//! `InternalError` so the handler layer never sees a transport-native
//! error. The dialing and the awaiting themselves belong to the transport
//! layer, which drives them through these functions.

use vstd::prelude::*;
use vstd::string::StringExecFns;

use crate::errors::CoreError;

verus! {

/// The endpoint type of the transport library, carried through opaquely.
#[verifier::external_type_specification]
#[verifier::external_body]
pub struct ExEndpoint(tonic::transport::Endpoint);

/// The error the transport library reports for a malformed URI.
#[verifier::external_type_specification]
#[verifier::external_body]
pub struct ExInvalidUri(http::uri::InvalidUri);

/// Whether the transport library accepts this text as an endpoint URI.
pub uninterp spec fn uri_accepted(s: Seq<char>) -> bool;

/// Relies on tonic's `Channel::from_shared`, which builds an endpoint out
/// of URI text and fails exactly when the text does not parse as a URI.
#[verifier::external_body]
fn endpoint_from_uri(uri: String) -> (r: Result<
    tonic::transport::Endpoint,
    http::uri::InvalidUri,
>)
    ensures
        r is Ok <==> uri_accepted(uri@),
{
    tonic::transport::Channel::from_shared(uri)
}

/// The request of the answer service's one unary method.
#[derive(Debug, PartialEq)]
pub struct GetAnswerPayload {
    /// The question text, sent verbatim.
    pub question: String,
}

/// The response of the answer service's one unary method.
#[derive(Debug, PartialEq)]
pub struct GetAnswerResponse {
    /// The generated answer text.
    pub answer: String,
}

/// Where the answer pipeline can fail: the client holds no state beyond
/// disconnected and connected, so a call either fails while connecting or
/// fails during the RPC itself.
#[derive(Clone, Copy, Debug, PartialEq, Eq, Structural)]
pub enum TransportFault {
    /// The connection to the endpoint could not be established.
    ConnectFailed,
    /// The remote call itself returned a transport-level error.
    CallFailed,
}

/// A client of the answer-generation service, bound to one endpoint.
pub struct GptAnswerClient {
    endpoint: tonic::transport::Endpoint,
}

impl GptAnswerClient {
    /// Initializes a client with the service's URI; a malformed URI fails
    /// with `InternalError`.
    pub fn new(uri: String) -> (r: Result<GptAnswerClient, CoreError>)
        ensures
            r is Ok <==> uri_accepted(uri@),
            r is Err ==> r == Err::<GptAnswerClient, CoreError>(CoreError::InternalError),
    {
        match endpoint_from_uri(uri) {
            Ok(endpoint) => Ok(GptAnswerClient { endpoint }),
            Err(_) => Err(CoreError::InternalError),
        }
    }

    /// The endpoint this client dials; the transport layer connects to it
    /// per call, or reuses a cached connection.
    pub fn endpoint(&self) -> &tonic::transport::Endpoint {
        &self.endpoint
    }

    /// The request sent for a question: its text, verbatim.
    pub fn prepare_request(question: &str) -> (p: GetAnswerPayload)
        ensures
            p.question@ == question@,
    {
        GetAnswerPayload { question: question.to_owned() }
    }
}

/// Settles the outcome of one answer call: the answer text is relayed
/// verbatim, and every transport fault — failing to connect as well as a
/// failed call — is classified as `InternalError`.
pub fn relay_answer(outcome: Result<GetAnswerResponse, TransportFault>) -> (r: Result<
    String,
    CoreError,
>)
    ensures
        outcome matches Ok(resp) ==> r matches Ok(a) && a@ == resp.answer@,
        outcome is Err ==> r == Err::<String, CoreError>(CoreError::InternalError),
{
    match outcome {
        Ok(resp) => Ok(resp.answer),
        Err(_) => Err(CoreError::InternalError),
    }
}

/// The default address the answer service is served at.
pub fn default_answer_uri() -> (r: String)
    ensures
        r@ == "http://0.0.0.0:50051"@,
{
    "http://0.0.0.0:50051".to_owned()
}

/// The text the stub answers with: a fixed prefix, then the question
/// verbatim.
pub open spec fn stub_answer_text(question: Seq<char>) -> Seq<char> {
    "Answer to: "@ + question
}

/// The answer service stub: the counterpart the client talks to, answering
/// every question with a deterministic placeholder. Callers may rely on
/// the shape of the contract only, never on the answer being meaningful.
#[derive(Debug, Default)]
pub struct GptAnswerServer;

impl GptAnswerServer {
    /// Answers a request with the stub's documented transformation: the
    /// prefix `Answer to: ` followed by the question text.
    pub fn get_answer(&self, payload: GetAnswerPayload) -> (r: GetAnswerResponse)
        ensures
            r.answer@ == stub_answer_text(payload.question@),
    {
        let mut answer: String = "Answer to: ".to_owned();
        answer.append(payload.question.as_str());
        GetAnswerResponse { answer }
    }
}

} // verus!
