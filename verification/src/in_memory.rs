//! The in-memory repository.
//!
//! A question port backed by a process-local vector, for test and
//! development use: nothing survives a process restart, which is the
//! documented tradeoff of this backend. Identifiers come from a
//! monotonically increasing counter and are never reused, even after a
//! delete. Listing returns questions in insertion order.

use vstd::prelude::*;

use crate::errors::CoreError;
use crate::filter::QuestionFilter;
use crate::port::{
    QuestionPort, has_id, lemma_delete_then_get, lemma_index_of_id_unique,
    lemma_update_keeps_ids, matching, unique_ids, views_of,
};
use crate::question::{QuestionEntity, QuestionId, QuestionView, with_id};

verus! {

/// A question port backed by a process-local vector, in insertion order.
pub struct QuestionInMemoryRepository {
    questions: Vec<QuestionEntity>,
    next_id: i32,
}

impl QuestionInMemoryRepository {
    /// An empty repository whose counter starts at the first identifier.
    pub fn new() -> (r: Self)
        ensures
            r.inv(),
            r.entities() == Seq::<QuestionView>::empty(),
            r.can_assign(),
    {
        let r = QuestionInMemoryRepository { questions: Vec::new(), next_id: 1 };
        proof {
            assert(r.entities() =~= Seq::<QuestionView>::empty());
        }
        r
    }
}

impl QuestionPort for QuestionInMemoryRepository {
    closed spec fn entities(&self) -> Seq<QuestionView> {
        views_of(self.questions@)
    }

    closed spec fn inv(&self) -> bool {
        &&& unique_ids(self.entities())
        &&& forall|i: int|
            0 <= i < self.entities().len() ==> #[trigger] self.entities()[i].id < self.next_id
    }

    closed spec fn can_assign(&self) -> bool {
        self.next_id < i32::MAX
    }

    proof fn inv_implies_unique(&self) {
    }

    fn get(&self, id: &QuestionId) -> (r: Result<QuestionEntity, CoreError>) {
        let mut i: usize = 0;
        while i < self.questions.len()
            invariant
                self.inv(),
                i <= self.questions.len(),
                forall|j: int| 0 <= j < i ==> #[trigger] self.entities()[j].id != id@,
            decreases self.questions.len() - i,
        {
            if self.questions[i].id.0 == id.0 {
                proof {
                    lemma_index_of_id_unique(self.entities(), id@, i as int);
                }
                return Ok(self.questions[i].clone());
            }
            i = i + 1;
        }
        proof {
            if has_id(self.entities(), id@) {
                let k = choose|k: int|
                    0 <= k < self.entities().len() && self.entities()[k].id == id@;
                assert(self.entities()[k].id != id@);
            }
        }
        Err(CoreError::NotFound)
    }

    fn list(&self, filter: &QuestionFilter) -> (r: Result<Vec<QuestionEntity>, CoreError>) {
        let mut out: Vec<QuestionEntity> = Vec::new();
        let mut i: usize = 0;
        proof {
            assert(self.entities().take(0) =~= Seq::<QuestionView>::empty());
            reveal(Seq::filter);
            assert(views_of(out@) =~= matching(self.entities().take(0), *filter));
        }
        while i < self.questions.len()
            invariant
                self.inv(),
                i <= self.questions.len(),
                views_of(out@) == matching(self.entities().take(i as int), *filter),
            decreases self.questions.len() - i,
        {
            let ghost pre = self.entities().take(i as int);
            let ghost pre_out = out@;
            let matched = filter.matches(&self.questions[i]);
            if matched {
                out.push(self.questions[i].clone());
            }
            proof {
                reveal(Seq::filter);
                let post = self.entities().take(i + 1);
                assert(post.drop_last() =~= pre);
                assert(post.last() == self.entities()[i as int]);
                if matched {
                    assert(views_of(out@) =~= views_of(pre_out).push(
                        self.questions@[i as int]@,
                    ));
                }
                assert(views_of(out@) =~= matching(post, *filter));
            }
            i = i + 1;
        }
        proof {
            assert(self.entities().take(self.questions@.len() as int) =~= self.entities());
        }
        Ok(out)
    }

    fn add(&mut self, question: QuestionEntity) -> (r: Result<QuestionId, CoreError>) {
        if self.next_id == i32::MAX {
            return Err(CoreError::InternalError);
        }
        let id = QuestionId(self.next_id);
        let ghost pre = self.entities();
        self.next_id = self.next_id + 1;
        let mut stored = question;
        stored.id = id;
        self.questions.push(stored);
        proof {
            assert(stored@ == with_id(question@, id@));
            assert(self.entities() =~= pre.push(with_id(question@, id@)));
            if has_id(pre, id@) {
                let k = choose|k: int| 0 <= k < pre.len() && pre[k].id == id@;
                assert(pre[k].id < id@);
            }
            let s2 = self.entities();
            assert forall|a: int, b: int| 0 <= a < b < s2.len() implies s2[a].id != s2[b].id by {
                if b < pre.len() {
                    assert(s2[a] == pre[a] && s2[b] == pre[b]);
                } else {
                    assert(s2[a] == pre[a]);
                    assert(pre[a].id < id@);
                }
            }
        }
        Ok(id)
    }

    fn update(&mut self, question: QuestionEntity) -> (r: Result<(), CoreError>) {
        let mut i: usize = 0;
        while i < self.questions.len()
            invariant
                *self == *old(self),
                self.inv(),
                i <= self.questions.len(),
                forall|j: int| 0 <= j < i ==> #[trigger] self.entities()[j].id != question@.id,
            decreases self.questions.len() - i,
        {
            if self.questions[i].id.0 == question.id.0 {
                let ghost pre = self.entities();
                proof {
                    lemma_index_of_id_unique(pre, question@.id, i as int);
                    lemma_update_keeps_ids(pre, i as int, question@);
                }
                self.questions.remove(i);
                self.questions.insert(i, question);
                proof {
                    assert(self.entities() =~= pre.update(i as int, question@));
                }
                return Ok(());
            }
            i = i + 1;
        }
        proof {
            if has_id(self.entities(), question@.id) {
                let k = choose|k: int|
                    0 <= k < self.entities().len() && self.entities()[k].id == question@.id;
                assert(self.entities()[k].id != question@.id);
            }
        }
        Err(CoreError::NotFound)
    }

    fn delete(&mut self, id: &QuestionId) -> (r: Result<(), CoreError>) {
        let mut i: usize = 0;
        while i < self.questions.len()
            invariant
                *self == *old(self),
                self.inv(),
                i <= self.questions.len(),
                forall|j: int| 0 <= j < i ==> #[trigger] self.entities()[j].id != id@,
            decreases self.questions.len() - i,
        {
            if self.questions[i].id.0 == id.0 {
                let ghost pre = self.entities();
                proof {
                    lemma_index_of_id_unique(pre, id@, i as int);
                    lemma_delete_then_get(pre, id@);
                }
                self.questions.remove(i);
                proof {
                    assert(self.entities() =~= pre.remove(i as int));
                    assert forall|j: int|
                        0 <= j < self.entities().len() implies #[trigger] self.entities()[j].id
                        < self.next_id by {
                        if j < i {
                            assert(self.entities()[j] == pre[j]);
                        } else {
                            assert(self.entities()[j] == pre[j + 1]);
                        }
                    }
                }
                return Ok(());
            }
            i = i + 1;
        }
        proof {
            if has_id(self.entities(), id@) {
                let k = choose|k: int|
                    0 <= k < self.entities().len() && self.entities()[k].id == id@;
                assert(self.entities()[k].id != id@);
            }
        }
        Err(CoreError::NotFound)
    }
}

} // verus!
