//! The question data model.
//!
//! A question carries a non-empty title, a body of content, and an optional
//! ordered list of tags. Its identifier is a distinct type wrapping the
//! integer id that the storage backend assigns on creation; the identifier
//! crosses the transport boundary as decimal text.

use vstd::prelude::*;

use crate::decimal::{decimal_value, is_decimal_text, parse_i32, render_i32};
use crate::errors::CoreError;

verus! {

/// The identifier of a persisted question, assigned by the storage backend.
#[derive(Clone, Copy, Debug, PartialEq, Eq, Hash, Structural)]
pub struct QuestionId(pub i32);

impl View for QuestionId {
    type V = int;

    open spec fn view(&self) -> int {
        self.0 as int
    }
}

impl QuestionId {
    /// Parses an identifier from its decimal text form; text that does not
    /// denote an identifier fails with `ParseError` rather than silently
    /// defaulting.
    pub fn from_str(s: &str) -> (r: Result<QuestionId, CoreError>)
        ensures
            r matches Ok(id) ==> is_decimal_text(s@) && id@ == decimal_value(s@)
                && i32::MIN <= decimal_value(s@) <= i32::MAX,
            r is Err ==> !(is_decimal_text(s@) && i32::MIN <= decimal_value(s@) <= i32::MAX)
                && r == Err::<QuestionId, CoreError>(CoreError::ParseError),
    {
        match parse_i32(s) {
            Ok(n) => Ok(QuestionId(n)),
            Err(e) => Err(e),
        }
    }

    /// Renders the identifier as decimal text denoting the same value.
    pub fn to_text(&self) -> (r: String)
        ensures
            is_decimal_text(r@),
            decimal_value(r@) == self@,
    {
        render_i32(self.0)
    }
}

/// The mathematical value of a question: its identifier and the character
/// sequences of its fields.
pub struct QuestionView {
    pub id: int,
    pub title: Seq<char>,
    pub content: Seq<char>,
    pub tags: Option<Seq<Seq<char>>>,
}

/// Two questions that agree everywhere except possibly the identifier.
pub open spec fn same_content(a: QuestionView, b: QuestionView) -> bool {
    a.title == b.title && a.content == b.content && a.tags == b.tags
}

/// The same question under another identifier.
pub open spec fn with_id(q: QuestionView, id: int) -> QuestionView {
    QuestionView { id, ..q }
}

/// A question as the domain sees it.
#[derive(Debug, PartialEq)]
pub struct QuestionEntity {
    /// Unique identifier, assigned by the storage backend on creation.
    pub id: QuestionId,
    /// Non-empty title of the question.
    pub title: String,
    /// Content of the question, sent verbatim to the answer service.
    pub content: String,
    /// Optional ordered tags attached to the question.
    pub tags: Option<Vec<String>>,
}

impl View for QuestionEntity {
    type V = QuestionView;

    open spec fn view(&self) -> QuestionView {
        QuestionView {
            id: self.id@,
            title: self.title@,
            content: self.content@,
            tags: match self.tags {
                Some(v) => Some(v.deep_view()),
                None => None,
            },
        }
    }
}

/// An owned copy of a tag list, equal element by element.
fn clone_tags(tags: &Vec<String>) -> (r: Vec<String>)
    ensures
        r.deep_view() == tags.deep_view(),
{
    let mut out: Vec<String> = Vec::new();
    let mut i: usize = 0;
    while i < tags.len()
        invariant
            i <= tags.len(),
            out.len() == i,
            forall|j: int| 0 <= j < i ==> out.deep_view()[j] == tags.deep_view()[j],
        decreases tags.len() - i,
    {
        out.push(tags[i].clone());
        i = i + 1;
    }
    proof {
        assert(out.deep_view() =~= tags.deep_view());
    }
    out
}

impl Clone for QuestionEntity {
    /// A copy with the same identifier and the same field values.
    fn clone(&self) -> (r: Self)
        ensures
            r@ == self@,
    {
        let r = QuestionEntity {
            id: self.id,
            title: self.title.clone(),
            content: self.content.clone(),
            tags: match &self.tags {
                Some(v) => Some(clone_tags(v)),
                None => None,
            },
        };
        proof {
            assert(r@.tags == self@.tags);
        }
        r
    }
}

impl QuestionEntity {
    /// Builds a question, rejecting an absent title: a question's title is
    /// required to be non-empty text.
    pub fn new(id: QuestionId, title: String, content: String, tags: Option<Vec<String>>) -> (r:
        Result<QuestionEntity, CoreError>)
        ensures
            r matches Ok(q) ==> title@.len() > 0 && q@.id == id@ && q@.title == title@
                && q@.content == content@ && (q@.tags matches Some(t) <==> tags is Some),
            r matches Ok(q) ==> q.tags == tags,
            r is Err ==> title@.len() == 0
                && r == Err::<QuestionEntity, CoreError>(CoreError::MissingParameters),
    {
        if title.as_str().is_empty() {
            return Err(CoreError::MissingParameters);
        }
        Ok(QuestionEntity { id, title, content, tags })
    }
}

} // verus!
