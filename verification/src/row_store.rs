//! The row-store repository.
//!
//! A question port that keeps its state in the relational row shape
//! (`QuestionModel`): every write translates the entity into a row and
//! every read translates the row back, exactly the translation that the
//! database-backed adapter performs around its SQL statements. Identifiers
//! are assigned by a monotonically increasing counter, as a serial column
//! does. Each row is stamped with the repository's current clock reading on
//! insert, and re-stamped on update — the chosen, documented policy for the
//! adapter-local `created_on` column. The caller supplies clock readings
//! through `set_clock`, since reading a wall clock is no business of
//! verified storage logic.

use vstd::prelude::*;

use crate::errors::CoreError;
use crate::filter::QuestionFilter;
use crate::port::{
    QuestionPort, has_id, lemma_delete_then_get, lemma_index_of_id_unique,
    lemma_update_keeps_ids, matching, unique_ids, views_of,
};
use crate::question::{QuestionEntity, QuestionId, QuestionView, with_id};
use crate::question_model::{QuestionModel, entity_of, lemma_flatten_wrap};

verus! {

/// A question port storing relational rows, translating entities to rows
/// on write and rows back to entities on read.
pub struct QuestionRowRepository {
    rows: Vec<QuestionModel>,
    next_id: i32,
    clock: u64,
}

impl QuestionRowRepository {
    /// The repository's current clock reading, stamped onto written rows.
    pub closed spec fn clock_spec(&self) -> u64 {
        self.clock
    }

    /// An empty repository: no rows, the counter at the first identifier,
    /// the clock at zero until a reading is supplied.
    pub fn new() -> (r: Self)
        ensures
            r.inv(),
            r.entities() == Seq::<QuestionView>::empty(),
            r.can_assign(),
            r.clock_spec() == 0,
    {
        let r = QuestionRowRepository { rows: Vec::new(), next_id: 1, clock: 0 };
        proof {
            assert(r.entities() =~= Seq::<QuestionView>::empty());
        }
        r
    }

    /// Supplies the current wall-clock reading; rows written from now on
    /// are stamped with it. The stored questions are untouched.
    pub fn set_clock(&mut self, now: u64)
        requires
            old(self).inv(),
        ensures
            final(self).inv(),
            final(self).clock_spec() == now,
            final(self).entities() == old(self).entities(),
            final(self).can_assign() == old(self).can_assign(),
    {
        self.clock = now;
    }
}

impl QuestionPort for QuestionRowRepository {
    closed spec fn entities(&self) -> Seq<QuestionView> {
        self.rows@.map_values(|m: QuestionModel| entity_of(m@))
    }

    closed spec fn inv(&self) -> bool {
        &&& unique_ids(self.entities())
        &&& forall|i: int|
            0 <= i < self.entities().len() ==> #[trigger] self.entities()[i].id < self.next_id
    }

    closed spec fn can_assign(&self) -> bool {
        self.next_id < i32::MAX
    }

    proof fn inv_implies_unique(&self) {
    }

    fn get(&self, id: &QuestionId) -> (r: Result<QuestionEntity, CoreError>) {
        let mut i: usize = 0;
        while i < self.rows.len()
            invariant
                self.inv(),
                i <= self.rows.len(),
                forall|j: int| 0 <= j < i ==> #[trigger] self.entities()[j].id != id@,
            decreases self.rows.len() - i,
        {
            if self.rows[i].id == id.0 {
                proof {
                    lemma_index_of_id_unique(self.entities(), id@, i as int);
                }
                let row = self.rows[i].clone();
                match row.to_entity() {
                    Ok(q) => {
                        return Ok(q);
                    },
                    Err(_) => {
                        return Err(CoreError::InternalError);
                    },
                }
            }
            i = i + 1;
        }
        proof {
            if has_id(self.entities(), id@) {
                let k = choose|k: int|
                    0 <= k < self.entities().len() && self.entities()[k].id == id@;
                assert(self.entities()[k].id != id@);
            }
        }
        Err(CoreError::NotFound)
    }

    fn list(&self, filter: &QuestionFilter) -> (r: Result<Vec<QuestionEntity>, CoreError>) {
        let mut out: Vec<QuestionEntity> = Vec::new();
        let mut i: usize = 0;
        proof {
            assert(self.entities().take(0) =~= Seq::<QuestionView>::empty());
            reveal(Seq::filter);
            assert(views_of(out@) =~= matching(self.entities().take(0), *filter));
        }
        while i < self.rows.len()
            invariant
                self.inv(),
                i <= self.rows.len(),
                views_of(out@) == matching(self.entities().take(i as int), *filter),
            decreases self.rows.len() - i,
        {
            let ghost pre = self.entities().take(i as int);
            let ghost pre_out = out@;
            let row = self.rows[i].clone();
            let q = match row.to_entity() {
                Ok(q) => q,
                Err(_) => {
                    return Err(CoreError::InternalError);
                },
            };
            let matched = filter.matches(&q);
            if matched {
                out.push(q);
            }
            proof {
                reveal(Seq::filter);
                let post = self.entities().take(i + 1);
                assert(post.drop_last() =~= pre);
                assert(post.last() == self.entities()[i as int]);
                if matched {
                    assert(views_of(out@) =~= views_of(pre_out).push(self.entities()[i as int]));
                }
                assert(views_of(out@) =~= matching(post, *filter));
            }
            i = i + 1;
        }
        proof {
            assert(self.entities().take(self.rows@.len() as int) =~= self.entities());
        }
        Ok(out)
    }

    fn add(&mut self, question: QuestionEntity) -> (r: Result<QuestionId, CoreError>) {
        if self.next_id == i32::MAX {
            return Err(CoreError::InternalError);
        }
        let id = QuestionId(self.next_id);
        let ghost pre = self.entities();
        self.next_id = self.next_id + 1;
        let mut stored = question;
        stored.id = id;
        let ghost stored_view = stored@;
        let row = match QuestionModel::from(stored, self.clock) {
            Ok(m) => m,
            Err(_) => {
                return Err(CoreError::InternalError);
            },
        };
        proof {
            match stored_view.tags {
                Some(ts) => lemma_flatten_wrap(ts),
                None => {},
            }
            assert(entity_of(row@) == with_id(question@, id@));
        }
        self.rows.push(row);
        proof {
            assert(self.entities() =~= pre.push(with_id(question@, id@)));
            if has_id(pre, id@) {
                let k = choose|k: int| 0 <= k < pre.len() && pre[k].id == id@;
                assert(pre[k].id < id@);
            }
            let s2 = self.entities();
            assert forall|a: int, b: int| 0 <= a < b < s2.len() implies s2[a].id != s2[b].id by {
                if b < pre.len() {
                    assert(s2[a] == pre[a] && s2[b] == pre[b]);
                } else {
                    assert(s2[a] == pre[a]);
                    assert(pre[a].id < id@);
                }
            }
        }
        Ok(id)
    }

    fn update(&mut self, question: QuestionEntity) -> (r: Result<(), CoreError>) {
        let mut i: usize = 0;
        while i < self.rows.len()
            invariant
                *self == *old(self),
                self.inv(),
                i <= self.rows.len(),
                forall|j: int| 0 <= j < i ==> #[trigger] self.entities()[j].id != question@.id,
            decreases self.rows.len() - i,
        {
            if self.rows[i].id == question.id.0 {
                let ghost pre = self.entities();
                let ghost question_view = question@;
                proof {
                    lemma_index_of_id_unique(pre, question@.id, i as int);
                    lemma_update_keeps_ids(pre, i as int, question@);
                }
                let row = match QuestionModel::from(question, self.clock) {
                    Ok(m) => m,
                    Err(_) => {
                        return Err(CoreError::InternalError);
                    },
                };
                proof {
                    match question_view.tags {
                        Some(ts) => lemma_flatten_wrap(ts),
                        None => {},
                    }
                    assert(entity_of(row@) == question_view);
                }
                self.rows.remove(i);
                self.rows.insert(i, row);
                proof {
                    assert(self.entities() =~= pre.update(i as int, question_view));
                }
                return Ok(());
            }
            i = i + 1;
        }
        proof {
            if has_id(self.entities(), question@.id) {
                let k = choose|k: int|
                    0 <= k < self.entities().len() && self.entities()[k].id == question@.id;
                assert(self.entities()[k].id != question@.id);
            }
        }
        Err(CoreError::NotFound)
    }

    fn delete(&mut self, id: &QuestionId) -> (r: Result<(), CoreError>) {
        let mut i: usize = 0;
        while i < self.rows.len()
            invariant
                *self == *old(self),
                self.inv(),
                i <= self.rows.len(),
                forall|j: int| 0 <= j < i ==> #[trigger] self.entities()[j].id != id@,
            decreases self.rows.len() - i,
        {
            if self.rows[i].id == id.0 {
                let ghost pre = self.entities();
                proof {
                    lemma_index_of_id_unique(pre, id@, i as int);
                    lemma_delete_then_get(pre, id@);
                }
                self.rows.remove(i);
                proof {
                    assert(self.entities() =~= pre.remove(i as int));
                    assert forall|j: int|
                        0 <= j < self.entities().len() implies #[trigger] self.entities()[j].id
                        < self.next_id by {
                        if j < i {
                            assert(self.entities()[j] == pre[j]);
                        } else {
                            assert(self.entities()[j] == pre[j + 1]);
                        }
                    }
                }
                return Ok(());
            }
            i = i + 1;
        }
        proof {
            if has_id(self.entities(), id@) {
                let k = choose|k: int|
                    0 <= k < self.entities().len() && self.entities()[k].id == id@;
                assert(self.entities()[k].id != id@);
            }
        }
        Err(CoreError::NotFound)
    }
}

} // verus!
