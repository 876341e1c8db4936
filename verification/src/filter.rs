//! Query filters for listing questions.
//!
//! A filter is built from free-form query-string key/value pairs,
//! independent of any transport framework. Unrecognized keys are ignored;
//! the recognized keys constrain the listing: `tag` keeps the questions
//! carrying that tag, and `title` keeps the questions whose title contains
//! the given text. When a key appears more than once, the last occurrence
//! wins.

use vstd::prelude::*;

use crate::errors::CoreError;
use crate::question::{QuestionEntity, QuestionView};

verus! {

/// The value bound to `key` by the pairs, the last occurrence winning.
pub open spec fn lookup(ps: Seq<(String, String)>, key: Seq<char>) -> Option<Seq<char>>
    decreases ps.len(),
{
    if ps.len() == 0 {
        None
    } else if ps.last().0@ == key {
        Some(ps.last().1@)
    } else {
        lookup(ps.drop_last(), key)
    }
}

/// The character sequence held by an optional string.
pub open spec fn opt_text(o: Option<String>) -> Option<Seq<char>> {
    match o {
        Some(s) => Some(s@),
        None => None,
    }
}

/// `needle` occurs contiguously inside `hay`.
pub open spec fn is_substring(needle: Seq<char>, hay: Seq<char>) -> bool {
    exists|k: int|
        0 <= k <= hay.len() - needle.len() && #[trigger] hay.subrange(k, k + needle.len())
            == needle
}

/// `needle` matches `hay` starting at position `k`.
fn matches_at(hay: &str, needle: &str, k: usize) -> (r: bool)
    requires
        k + needle@.len() <= hay@.len(),
    ensures
        r == (hay@.subrange(k as int, k + needle@.len()) == needle@),
{
    let n: usize = needle.unicode_len();
    let h: usize = hay.unicode_len();
    let mut i: usize = 0;
    while i < n
        invariant
            i <= n,
            n == needle@.len(),
            h == hay@.len(),
            k + n <= h,
            forall|j: int| 0 <= j < i ==> hay@[k + j] == needle@[j],
        decreases n - i,
    {
        if hay.get_char(k + i) != needle.get_char(i) {
            proof {
                let w = hay@.subrange(k as int, k + needle@.len());
                if w == needle@ {
                    assert(w[i as int] == hay@[k + i]);
                }
            }
            return false;
        }
        i = i + 1;
    }
    proof {
        assert(hay@.subrange(k as int, k + needle@.len()) =~= needle@);
    }
    true
}

/// Whether `needle` occurs contiguously inside `hay`.
pub fn str_contains(hay: &str, needle: &str) -> (r: bool)
    ensures
        r == is_substring(needle@, hay@),
{
    let n: usize = needle.unicode_len();
    let h: usize = hay.unicode_len();
    if n > h {
        return false;
    }
    if n == 0 {
        proof {
            assert(hay@.subrange(0, 0 + needle@.len() as int) =~= needle@);
        }
        return true;
    }
    let mut k: usize = 0;
    while k <= h - n
        invariant
            0 < n <= h,
            n == needle@.len(),
            h == hay@.len(),
            k <= h - n + 1,
            forall|j: int| 0 <= j < k ==> #[trigger] hay@.subrange(j, j + needle@.len())
                != needle@,
        decreases h - k,
    {
        if matches_at(hay, needle, k) {
            return true;
        }
        k = k + 1;
    }
    false
}

/// A query constraint over questions, derived from request parameters.
#[derive(Debug, Clone)]
pub struct QuestionFilter {
    /// Keep only the questions carrying this tag.
    pub tag: Option<String>,
    /// Keep only the questions whose title contains this text.
    pub title: Option<String>,
}

impl QuestionFilter {
    /// No constraint at all: such a filter keeps every question.
    pub open spec fn is_unconstrained(&self) -> bool {
        self.tag is None && self.title is None
    }

    /// Whether a question satisfies every constraint of the filter.
    pub open spec fn matches_spec(&self, q: QuestionView) -> bool {
        &&& match self.tag {
            Some(t) => q.tags matches Some(tags) && tags.contains(t@),
            None => true,
        }
        &&& match self.title {
            Some(t) => is_substring(t@, q.title),
            None => true,
        }
    }

    /// Builds a filter from query key/value pairs. Only the keys `tag` and
    /// `title` are recognized; every other key is ignored.
    pub fn from_query(pairs: &Vec<(String, String)>) -> (r: Result<QuestionFilter, CoreError>)
        ensures
            r matches Ok(f) && opt_text(f.tag) == lookup(pairs@, "tag"@) && opt_text(f.title)
                == lookup(pairs@, "title"@),
    {
        let tag_key: String = "tag".to_owned();
        let title_key: String = "title".to_owned();
        let mut tag: Option<String> = None;
        let mut title: Option<String> = None;
        let mut i: usize = 0;
        while i < pairs.len()
            invariant
                i <= pairs.len(),
                tag_key@ == "tag"@,
                title_key@ == "title"@,
                opt_text(tag) == lookup(pairs@.subrange(0, i as int), "tag"@),
                opt_text(title) == lookup(pairs@.subrange(0, i as int), "title"@),
            decreases pairs.len() - i,
        {
            let ghost pre = pairs@.subrange(0, i as int);
            let pair = &pairs[i];
            if pair.0 == tag_key {
                tag = Some(pair.1.clone());
            } else if pair.0 == title_key {
                title = Some(pair.1.clone());
            }
            proof {
                reveal_strlit("tag");
                reveal_strlit("title");
                assert("tag"@.len() == 3 && "title"@.len() == 5);
                let post = pairs@.subrange(0, i + 1);
                assert(post.drop_last() =~= pre);
                assert(post.last() == pairs@[i as int]);
            }
            i = i + 1;
        }
        proof {
            assert(pairs@.subrange(0, pairs@.len() as int) =~= pairs@);
        }
        Ok(QuestionFilter { tag, title })
    }

    /// Whether a question satisfies every constraint of the filter.
    pub fn matches(&self, q: &QuestionEntity) -> (r: bool)
        ensures
            r == self.matches_spec(q@),
    {
        let tag_ok: bool = match &self.tag {
            Some(t) => match &q.tags {
                Some(tags) => contains_string(tags, t),
                None => false,
            },
            None => true,
        };
        let title_ok: bool = match &self.title {
            Some(t) => str_contains(q.title.as_str(), t.as_str()),
            None => true,
        };
        tag_ok && title_ok
    }
}

/// Whether some element of `items` has exactly the text of `wanted`.
fn contains_string(items: &Vec<String>, wanted: &String) -> (r: bool)
    ensures
        r == items.deep_view().contains(wanted@),
{
    let mut i: usize = 0;
    while i < items.len()
        invariant
            i <= items.len(),
            forall|j: int| 0 <= j < i ==> items.deep_view()[j] != wanted@,
        decreases items.len() - i,
    {
        if items[i] == *wanted {
            assert(items.deep_view()[i as int] == wanted@);
            return true;
        }
        i = i + 1;
    }
    proof {
        if items.deep_view().contains(wanted@) {
            let j = choose|j: int| 0 <= j < items.deep_view().len() && items.deep_view()[j]
                == wanted@;
        }
    }
    false
}

} // verus!
