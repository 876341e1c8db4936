//! A small question-and-answer backend library.
//!
//! Questions (a title, a body of content, and optional tags) are kept behind
//! an abstract storage port with two interchangeable repository
//! implementations, and a question's content can be forwarded to an external
//! answer-generation service through a thin client whose decision logic is
//! verified here. Every operation classifies its failures into one shared
//! error taxonomy, so callers never see a backend-specific fault.

mod answer;
mod decimal;
mod errors;
mod filter;
mod in_memory;
mod port;
mod question;
mod question_model;
mod row_store;

pub use answer::{GetAnswerPayload, GetAnswerResponse, GptAnswerClient, GptAnswerServer, TransportFault, default_answer_uri, relay_answer, stub_answer_text, uri_accepted};
pub use decimal::{parse_i32, render_i32};
pub use errors::{CoreError, StorageFault};
pub use filter::{QuestionFilter, is_substring, lookup, opt_text, str_contains};
pub use in_memory::QuestionInMemoryRepository;
pub use port::{QuestionPort, entity_with_id, has_id, index_of_id, lemma_add_then_get, lemma_delete_then_get, lemma_index_of_id_unique, lemma_unconstrained_keeps_all, lemma_update_keeps_ids, matching, unique_ids, views_of};
pub use row_store::QuestionRowRepository;
pub use question_model::{QuestionModel, QuestionModelView, entity_of, flatten_tags, lemma_flatten_wrap, wrap_tags};
pub use question::{QuestionEntity, QuestionId, QuestionView, same_content, with_id};
