//! The storage row shape of a question.
//!
//! The relational table stores one row per question, with an adapter-local
//! `created_on` stamp and the tags held as a nullable array of nullable
//! text. Translating between the row and the domain entity follows two
//! rules: on write every tag is individually wrapped as nullable, and on
//! read null entries inside the array are discarded while a null array maps
//! to absent tags. The identifier passes through its textual external
//! representation on the way, so a malformed identifier would surface as a
//! `ParseError` rather than corrupt a row.

use vstd::prelude::*;

use crate::decimal::{parse_i32, render_i32};
use crate::errors::CoreError;
use crate::question::{QuestionEntity, QuestionId, QuestionView};

verus! {

/// Tags as written to the row: each tag individually wrapped as nullable.
pub open spec fn wrap_tags(ts: Seq<Seq<char>>) -> Seq<Option<Seq<char>>> {
    ts.map_values(|t: Seq<char>| Some(t))
}

/// Tags as read from the row: null entries inside the array are discarded.
pub open spec fn flatten_tags(ts: Seq<Option<Seq<char>>>) -> Seq<Seq<char>>
    decreases ts.len(),
{
    if ts.len() == 0 {
        Seq::empty()
    } else {
        let rest = flatten_tags(ts.drop_last());
        match ts.last() {
            Some(t) => rest.push(t),
            None => rest,
        }
    }
}

/// Round trip: wrapping tags for storage and reading them back discards
/// nothing and keeps their order.
pub proof fn lemma_flatten_wrap(ts: Seq<Seq<char>>)
    ensures
        flatten_tags(wrap_tags(ts)) == ts,
    decreases ts.len(),
{
    if ts.len() == 0 {
        assert(flatten_tags(wrap_tags(ts)) =~= ts);
    } else {
        lemma_flatten_wrap(ts.drop_last());
        let w = wrap_tags(ts);
        assert(w.drop_last() =~= wrap_tags(ts.drop_last()));
        assert(w.last() == Some(ts.last()));
        assert(flatten_tags(w) =~= ts);
    }
}

/// The mathematical value of a storage row.
pub struct QuestionModelView {
    pub id: int,
    pub title: Seq<char>,
    pub content: Seq<char>,
    pub tags: Option<Seq<Option<Seq<char>>>>,
    pub created_on: u64,
}

/// The domain entity that a row denotes.
pub open spec fn entity_of(m: QuestionModelView) -> QuestionView {
    QuestionView {
        id: m.id,
        title: m.title,
        content: m.content,
        tags: match m.tags {
            Some(ts) => Some(flatten_tags(ts)),
            None => None,
        },
    }
}

/// One row of the question table: the entity's fields in their storage
/// form, plus the adapter-local creation stamp.
#[derive(Debug)]
pub struct QuestionModel {
    /// Native integer storage form of the identifier.
    pub id: i32,
    /// Title of the question.
    pub title: String,
    /// Content of the question.
    pub content: String,
    /// Optional tags, each individually nullable in storage.
    pub tags: Option<Vec<Option<String>>>,
    /// Stamp set when the row is written; not part of the domain entity.
    pub created_on: u64,
}

impl View for QuestionModel {
    type V = QuestionModelView;

    open spec fn view(&self) -> QuestionModelView {
        QuestionModelView {
            id: self.id as int,
            title: self.title@,
            content: self.content@,
            tags: match self.tags {
                Some(v) => Some(v.deep_view()),
                None => None,
            },
            created_on: self.created_on,
        }
    }
}

/// An owned copy of a nullable tag list, equal element by element.
fn clone_row_tags(tags: &Vec<Option<String>>) -> (r: Vec<Option<String>>)
    ensures
        r.deep_view() == tags.deep_view(),
{
    let mut out: Vec<Option<String>> = Vec::new();
    let mut i: usize = 0;
    while i < tags.len()
        invariant
            i <= tags.len(),
            out.len() == i,
            forall|j: int| 0 <= j < i ==> out.deep_view()[j] == tags.deep_view()[j],
        decreases tags.len() - i,
    {
        let item: Option<String> = match &tags[i] {
            Some(s) => Some(s.clone()),
            None => None,
        };
        out.push(item);
        i = i + 1;
    }
    proof {
        assert(out.deep_view() =~= tags.deep_view());
    }
    out
}

impl Clone for QuestionModel {
    /// A copy denoting the same row value.
    fn clone(&self) -> (r: Self)
        ensures
            r@ == self@,
    {
        let r = QuestionModel {
            id: self.id,
            title: self.title.clone(),
            content: self.content.clone(),
            tags: match &self.tags {
                Some(v) => Some(clone_row_tags(v)),
                None => None,
            },
            created_on: self.created_on,
        };
        proof {
            assert(r@.tags == self@.tags);
        }
        r
    }
}

/// Wraps each tag as an individually nullable storage entry.
fn wrap_tag_vec(tags: Vec<String>) -> (r: Vec<Option<String>>)
    ensures
        r.deep_view() == wrap_tags(tags.deep_view()),
{
    let mut out: Vec<Option<String>> = Vec::new();
    let mut i: usize = 0;
    proof {
        assert(out.deep_view() =~= wrap_tags(tags.deep_view().subrange(0, 0)));
    }
    while i < tags.len()
        invariant
            i <= tags.len(),
            out.len() == i,
            out.deep_view() == wrap_tags(tags.deep_view().subrange(0, i as int)),
        decreases tags.len() - i,
    {
        let ghost pre_dv = out.deep_view();
        let item: Option<String> = Some(tags[i].clone());
        proof {
            assert(item.deep_view() == Some(tags.deep_view()[i as int]));
        }
        out.push(item);
        proof {
            assert(out.deep_view() =~= pre_dv.push(Some(tags.deep_view()[i as int])));
            assert(out.deep_view() =~= wrap_tags(tags.deep_view().subrange(0, i + 1)));
        }
        i = i + 1;
    }
    proof {
        assert(tags.deep_view().subrange(0, tags@.len() as int) =~= tags.deep_view());
    }
    out
}

/// Reads a nullable tag array back, discarding null entries.
fn flatten_tag_vec(tags: Vec<Option<String>>) -> (r: Vec<String>)
    ensures
        r.deep_view() == flatten_tags(tags.deep_view()),
{
    let mut out: Vec<String> = Vec::new();
    let mut i: usize = 0;
    proof {
        assert(tags.deep_view().subrange(0, 0) =~= Seq::<Option<Seq<char>>>::empty());
        assert(out.deep_view() =~= flatten_tags(tags.deep_view().subrange(0, 0)));
    }
    while i < tags.len()
        invariant
            i <= tags.len(),
            out.deep_view() == flatten_tags(tags.deep_view().subrange(0, i as int)),
        decreases tags.len() - i,
    {
        let ghost pre = tags.deep_view().subrange(0, i as int);
        let ghost pre_out = out.deep_view();
        match &tags[i] {
            Some(s) => {
                out.push(s.clone());
            },
            None => {},
        }
        proof {
            let post = tags.deep_view().subrange(0, i + 1);
            assert(post.drop_last() =~= pre);
            assert(post.last() == tags.deep_view()[i as int]);
            assert(out.deep_view() =~= flatten_tags(post));
        }
        i = i + 1;
    }
    proof {
        assert(tags.deep_view().subrange(0, tags@.len() as int) =~= tags.deep_view());
    }
    out
}

impl QuestionModel {
    /// Builds the storage row for an entity, stamping it with the given
    /// clock reading. The identifier travels through its textual external
    /// representation, whose parse is proved to give the native integer
    /// form back.
    pub fn from(entity: QuestionEntity, created_on: u64) -> (r: Result<QuestionModel, CoreError>)
        ensures
            r matches Ok(m) && m@.id == entity@.id && m@.title == entity@.title && m@.content
                == entity@.content && m@.created_on == created_on && m@.tags == (match entity@.tags {
                Some(ts) => Some(wrap_tags(ts)),
                None => None::<Seq<Option<Seq<char>>>>,
            }),
    {
        let text = entity.id.to_text();
        let id: i32 = match parse_i32(text.as_str()) {
            Ok(n) => n,
            Err(e) => {
                return Err(e);
            },
        };
        let m = QuestionModel {
            id,
            title: entity.title,
            content: entity.content,
            tags: match entity.tags {
                Some(v) => Some(wrap_tag_vec(v)),
                None => None,
            },
            created_on,
        };
        Ok(m)
    }

    /// Reads the row back as a domain entity. The identifier again travels
    /// through its textual external representation; the null entries of the
    /// tag array are discarded, and a null array maps to absent tags.
    pub fn to_entity(self) -> (r: Result<QuestionEntity, CoreError>)
        ensures
            r matches Ok(q) && q@ == entity_of(self@),
    {
        let text = render_i32(self.id);
        let id: QuestionId = match QuestionId::from_str(text.as_str()) {
            Ok(id) => id,
            Err(e) => {
                return Err(e);
            },
        };
        let q = QuestionEntity {
            id,
            title: self.title,
            content: self.content,
            tags: match self.tags {
                Some(v) => Some(flatten_tag_vec(v)),
                None => None,
            },
        };
        Ok(q)
    }
}

} // verus!
