//! The question port: the capability interface over question storage.
//!
//! A repository is specified by the sequence of stored questions it holds,
//! in backend order. Both repository implementations prove the same
//! contracts below, so a caller can substitute one backend for the other
//! without any change in behaviour:
//!
//! - `get` returns the stored question with the asked identifier, and fails
//!   with `NotFound` exactly when no stored question has it;
//! - `list` returns exactly the stored questions matching the filter, in
//!   backend order;
//! - `add` assigns a fresh identifier and appends the question under it;
//! - `update` replaces the stored question that has the given identifier in
//!   full, and fails with `NotFound` exactly when there is none, creating
//!   nothing in that case;
//! - `delete` removes the stored question with the given identifier, and
//!   fails with `NotFound` exactly when there is none; a second delete of
//!   the same identifier therefore fails.

use vstd::prelude::*;

use crate::errors::CoreError;
use crate::filter::QuestionFilter;
use crate::question::{QuestionEntity, QuestionId, QuestionView, same_content, with_id};

verus! {

/// The views of a sequence of stored questions.
pub open spec fn views_of(s: Seq<QuestionEntity>) -> Seq<QuestionView> {
    s.map_values(|q: QuestionEntity| q@)
}

/// No two stored questions share an identifier.
pub open spec fn unique_ids(s: Seq<QuestionView>) -> bool {
    forall|i: int, j: int| 0 <= i < j < s.len() ==> s[i].id != s[j].id
}

/// Some stored question has this identifier.
pub open spec fn has_id(s: Seq<QuestionView>, id: int) -> bool {
    exists|i: int| 0 <= i < s.len() && s[i].id == id
}

/// The position of the stored question with this identifier.
pub open spec fn index_of_id(s: Seq<QuestionView>, id: int) -> int {
    choose|i: int| 0 <= i < s.len() && s[i].id == id
}

/// The stored question with this identifier.
pub open spec fn entity_with_id(s: Seq<QuestionView>, id: int) -> QuestionView {
    s[index_of_id(s, id)]
}

/// The stored questions that a filter keeps, in their stored order.
pub open spec fn matching(s: Seq<QuestionView>, f: QuestionFilter) -> Seq<QuestionView> {
    s.filter(|q: QuestionView| f.matches_spec(q))
}

/// With unique identifiers, there is only one position holding a given
/// identifier.
pub proof fn lemma_index_of_id_unique(s: Seq<QuestionView>, id: int, i: int)
    requires
        unique_ids(s),
        0 <= i < s.len(),
        s[i].id == id,
    ensures
        has_id(s, id),
        index_of_id(s, id) == i,
{
    assert(has_id(s, id));
    let k = index_of_id(s, id);
    assert(0 <= k < s.len() && s[k].id == id);
    if k < i {
        assert(s[k].id != s[i].id);
    } else if i < k {
        assert(s[i].id != s[k].id);
    }
}

/// Round trip: a question added under a fresh identifier is found again
/// under that identifier, equal to what was added in all but the
/// identifier.
pub proof fn lemma_add_then_get(s: Seq<QuestionView>, q: QuestionView, id: int)
    requires
        unique_ids(s),
        !has_id(s, id),
    ensures
        has_id(s.push(with_id(q, id)), id),
        unique_ids(s.push(with_id(q, id))),
        entity_with_id(s.push(with_id(q, id)), id) == with_id(q, id),
        same_content(entity_with_id(s.push(with_id(q, id)), id), q),
        entity_with_id(s.push(with_id(q, id)), id).id == id,
{
    let s2 = s.push(with_id(q, id));
    assert(s2[s.len() as int] == with_id(q, id));
    assert(s2[s.len() as int].id == id);
    assert forall|a: int, b: int| 0 <= a < b < s2.len() implies s2[a].id != s2[b].id by {
        if b < s.len() {
            assert(s2[a] == s[a] && s2[b] == s[b]);
        } else {
            assert(s2[a] == s[a]);
            assert(s[a].id != id);
        }
    }
    lemma_index_of_id_unique(s2, id, s.len() as int);
}

/// After the question holding an identifier is removed, no stored question
/// has that identifier any more: a lookup right after a delete fails.
pub proof fn lemma_delete_then_get(s: Seq<QuestionView>, id: int)
    requires
        unique_ids(s),
        has_id(s, id),
    ensures
        unique_ids(s.remove(index_of_id(s, id))),
        !has_id(s.remove(index_of_id(s, id)), id),
        forall|j: int| 0 <= j < index_of_id(s, id) ==> s.remove(index_of_id(s, id))[j] == s[j],
        forall|j: int|
            index_of_id(s, id) <= j < s.len() - 1 ==> s.remove(index_of_id(s, id))[j] == s[j + 1],
{
    let k = index_of_id(s, id);
    assert(0 <= k < s.len() && s[k].id == id);
    let t = s.remove(k);
    assert forall|j: int| 0 <= j < k implies t[j] == s[j] by {}
    assert forall|j: int| k <= j < s.len() - 1 implies t[j] == s[j + 1] by {}
    assert forall|a: int, b: int| 0 <= a < b < t.len() implies t[a].id != t[b].id by {
        let a2 = if a < k { a } else { a + 1 };
        let b2 = if b < k { b } else { b + 1 };
        assert(t[a] == s[a2] && t[b] == s[b2]);
    }
    assert forall|j: int| 0 <= j < t.len() implies t[j].id != id by {
        let j2 = if j < k { j } else { j + 1 };
        assert(t[j] == s[j2]);
        if j2 < k {
            assert(s[j2].id != s[k].id);
        } else {
            assert(s[k].id != s[j2].id);
        }
    }
}

/// Replacing a stored question by one carrying the same identifier keeps
/// the identifiers unique.
pub proof fn lemma_update_keeps_ids(s: Seq<QuestionView>, k: int, q: QuestionView)
    requires
        unique_ids(s),
        0 <= k < s.len(),
        q.id == s[k].id,
    ensures
        unique_ids(s.update(k, q)),
        forall|j: int| 0 <= j < s.len() ==> s.update(k, q)[j].id == s[j].id,
{
    let t = s.update(k, q);
    assert forall|a: int, b: int| 0 <= a < b < t.len() implies t[a].id != t[b].id by {
        assert(s[a].id != s[b].id);
    }
}

/// An unconstrained filter keeps every stored question: listing with it
/// returns the whole store, size for size.
pub proof fn lemma_unconstrained_keeps_all(s: Seq<QuestionView>, f: QuestionFilter)
    requires
        f.is_unconstrained(),
    ensures
        matching(s, f) == s,
    decreases s.len(),
{
    reveal(Seq::filter);
    if s.len() == 0 {
        assert(matching(s, f) =~= s);
    } else {
        lemma_unconstrained_keeps_all(s.drop_last(), f);
        assert(f.matches_spec(s.last()));
        assert(matching(s, f) =~= s);
    }
}

/// The capability interface over question storage. Every implementation
/// proves the same contracts, so backends substitute for one another
/// without behaviour change.
pub trait QuestionPort: Sized {
    /// The stored questions, in backend order.
    spec fn entities(&self) -> Seq<QuestionView>;

    /// The representation invariant of the backend.
    spec fn inv(&self) -> bool;

    /// Whether the backend can still assign a fresh identifier.
    spec fn can_assign(&self) -> bool;

    /// A well-formed backend never stores two questions under one
    /// identifier.
    proof fn inv_implies_unique(&self)
        requires
            self.inv(),
        ensures
            unique_ids(self.entities()),
    ;

    /// Returns the stored question with this identifier, and `NotFound`
    /// exactly when there is none.
    fn get(&self, id: &QuestionId) -> (r: Result<QuestionEntity, CoreError>)
        requires
            self.inv(),
        ensures
            has_id(self.entities(), id@) ==> (r matches Ok(q) && q@ == entity_with_id(
                self.entities(),
                id@,
            )),
            !has_id(self.entities(), id@) ==> r == Err::<QuestionEntity, CoreError>(
                CoreError::NotFound,
            ),
    ;

    /// Returns exactly the stored questions that the filter keeps, in
    /// backend order.
    fn list(&self, filter: &QuestionFilter) -> (r: Result<Vec<QuestionEntity>, CoreError>)
        requires
            self.inv(),
        ensures
            r matches Ok(v) && views_of(v@) == matching(self.entities(), *filter),
    ;

    /// Stores the question under a freshly assigned identifier and returns
    /// that identifier; the identifier it arrived with is discarded, since
    /// assignment is the backend's task. Fails with `InternalError`, and
    /// stores nothing, exactly when the backend cannot assign a fresh
    /// identifier.
    fn add(&mut self, question: QuestionEntity) -> (r: Result<QuestionId, CoreError>)
        requires
            old(self).inv(),
        ensures
            final(self).inv(),
            old(self).can_assign() ==> (r matches Ok(id) && !has_id(old(self).entities(), id@)
                && final(self).entities() == old(self).entities().push(with_id(question@, id@))),
            !old(self).can_assign() ==> r == Err::<QuestionId, CoreError>(CoreError::InternalError)
                && final(self).entities() == old(self).entities(),
    ;

    /// Replaces, in full, the stored question carrying the same identifier
    /// as the given one. Fails with `NotFound`, and changes nothing — in
    /// particular creates nothing — exactly when no stored question has
    /// that identifier.
    fn update(&mut self, question: QuestionEntity) -> (r: Result<(), CoreError>)
        requires
            old(self).inv(),
        ensures
            final(self).inv(),
            has_id(old(self).entities(), question@.id) ==> (r == Ok::<(), CoreError>(())
                && final(self).entities() == old(self).entities().update(
                index_of_id(old(self).entities(), question@.id),
                question@,
            )),
            !has_id(old(self).entities(), question@.id) ==> (r == Err::<(), CoreError>(
                CoreError::NotFound,
            ) && final(self).entities() == old(self).entities()),
    ;

    /// Removes the stored question with this identifier, keeping the order
    /// of the rest. Fails with `NotFound`, and changes nothing, exactly
    /// when no stored question has it: deleting the same identifier twice
    /// fails the second time.
    fn delete(&mut self, id: &QuestionId) -> (r: Result<(), CoreError>)
        requires
            old(self).inv(),
        ensures
            final(self).inv(),
            has_id(old(self).entities(), id@) ==> (r == Ok::<(), CoreError>(())
                && final(self).entities() == old(self).entities().remove(
                index_of_id(old(self).entities(), id@),
            )),
            !has_id(old(self).entities(), id@) ==> (r == Err::<(), CoreError>(CoreError::NotFound)
                && final(self).entities() == old(self).entities()),
    ;
}

} // verus!
