//! The order in which readers hand rows out: the most recent first, and rows
//! of one instant in the order in which the store holds them.

use vstd::prelude::*;
use vstd::seq_lib::{to_multiset_build, to_multiset_insert};
use crate::database::records::{
    comment_records, post_records, CommentDataWrapper, CommentRecord, PostDataWrapper, PostRecord,
};

verus! {

/// The instant of a post.
pub open spec fn post_time() -> spec_fn(PostRecord) -> int {
    |p: PostRecord| p.timestamp
}

/// The instant of a comment.
pub open spec fn comment_time() -> spec_fn(CommentRecord) -> int {
    |c: CommentRecord| c.timestamp
}

/// No row stands before a more recent one.
pub open spec fn recent_first<T>(rows: Seq<T>, when: spec_fn(T) -> int) -> bool {
    forall|i: int, j: int| 0 <= i < j < rows.len() ==> when(rows[i]) >= when(rows[j])
}

/// Where a row of instant `t` goes into `sorted`: behind the last row that is
/// at least as recent.
pub open spec fn slot<T>(sorted: Seq<T>, t: int, when: spec_fn(T) -> int) -> int
    decreases sorted.len(),
{
    if sorted.len() == 0 {
        0
    } else if when(sorted.last()) >= t {
        sorted.len() as int
    } else {
        slot(sorted.drop_last(), t, when)
    }
}

/// The rows ordered by recency: each row in turn goes behind the rows that are
/// at least as recent as it is.
pub open spec fn by_recency<T>(rows: Seq<T>, when: spec_fn(T) -> int) -> Seq<T>
    decreases rows.len(),
{
    if rows.len() == 0 {
        Seq::empty()
    } else {
        let sorted = by_recency(rows.drop_last(), when);
        sorted.insert(slot(sorted, when(rows.last()), when), rows.last())
    }
}

/// The slot lies within the rows; every row from it on is older than `t`, and
/// the row before it is not.
pub proof fn lemma_slot<T>(sorted: Seq<T>, t: int, when: spec_fn(T) -> int)
    ensures
        0 <= slot(sorted, t, when) <= sorted.len(),
        forall|j: int| slot(sorted, t, when) <= j < sorted.len() ==> when(sorted[j]) < t,
        slot(sorted, t, when) > 0 ==> when(sorted[slot(sorted, t, when) - 1]) >= t,
    decreases sorted.len(),
{
    if sorted.len() > 0 && when(sorted.last()) < t {
        let init = sorted.drop_last();
        lemma_slot(init, t, when);
        assert forall|j: int| slot(sorted, t, when) <= j < sorted.len() implies when(sorted[j])
            < t by {
            if j < init.len() {
                assert(init[j] == sorted[j]);
            }
        }
        if slot(sorted, t, when) > 0 {
            assert(init[slot(sorted, t, when) - 1] == sorted[slot(sorted, t, when) - 1]);
        }
    }
}

/// The slot is the only index with these two properties.
pub proof fn lemma_slot_is<T>(sorted: Seq<T>, t: int, when: spec_fn(T) -> int, k: int)
    requires
        0 <= k <= sorted.len(),
        forall|j: int| k <= j < sorted.len() ==> when(sorted[j]) < t,
        k > 0 ==> when(sorted[k - 1]) >= t,
    ensures
        slot(sorted, t, when) == k,
    decreases sorted.len(),
{
    if sorted.len() > 0 {
        if when(sorted.last()) >= t {
            if k < sorted.len() {
                assert(when(sorted[sorted.len() - 1]) < t);
            }
        } else {
            let init = sorted.drop_last();
            assert forall|j: int| k <= j < init.len() implies when(init[j]) < t by {
                assert(init[j] == sorted[j]);
            }
            if k > 0 {
                assert(init[k - 1] == sorted[k - 1]);
            }
            lemma_slot_is(init, t, when, k);
        }
    }
}

/// The ordered rows are the same rows, each as often as before, and no row
/// stands before a more recent one.
pub proof fn lemma_by_recency<T>(rows: Seq<T>, when: spec_fn(T) -> int)
    ensures
        by_recency(rows, when).len() == rows.len(),
        by_recency(rows, when).to_multiset() == rows.to_multiset(),
        recent_first(by_recency(rows, when), when),
    decreases rows.len(),
{
    if rows.len() == 0 {
        assert(by_recency(rows, when) =~= rows);
    } else {
        let init = rows.drop_last();
        let x = rows.last();
        let sorted = by_recency(init, when);
        let k = slot(sorted, when(x), when);
        lemma_by_recency(init, when);
        lemma_slot(sorted, when(x), when);
        to_multiset_insert(sorted, k, x);
        to_multiset_build(init, x);
        assert(init.push(x) =~= rows);
        let out = sorted.insert(k, x);
        assert forall|i: int, j: int| 0 <= i < j < out.len() implies when(out[i]) >= when(
            out[j],
        ) by {
            if j < k {
                assert(out[i] == sorted[i] && out[j] == sorted[j]);
            } else if j == k {
                assert(out[i] == sorted[i]);
                if i < k - 1 {
                    assert(when(sorted[i]) >= when(sorted[k - 1]));
                }
            } else if i < k {
                assert(out[i] == sorted[i] && out[j] == sorted[j - 1]);
            } else if i == k {
                assert(out[j] == sorted[j - 1]);
            } else {
                assert(out[i] == sorted[i - 1] && out[j] == sorted[j - 1]);
            }
        }
    }
}

/// Rows of one instant keep the order in which they stood: of two such rows
/// the one that stood first in `rows` comes first in the ordered rows. Stated
/// for a row appended last: it goes behind every row of its own instant.
pub proof fn lemma_by_recency_ties<T>(rows: Seq<T>, when: spec_fn(T) -> int)
    requires
        rows.len() > 0,
    ensures
        ({
            let sorted = by_recency(rows.drop_last(), when);
            let k = slot(sorted, when(rows.last()), when);
            &&& 0 <= k <= sorted.len()
            &&& by_recency(rows, when)[k] == rows.last()
            &&& forall|j: int| 0 <= j < sorted.len() && when(sorted[j]) == when(rows.last()) ==> j < k
        }),
{
    let sorted = by_recency(rows.drop_last(), when);
    lemma_slot(sorted, when(rows.last()), when);
}

/// The rows that are wanted, in the order in which they stand.
pub open spec fn keep<T>(rows: Seq<T>, wanted: spec_fn(T) -> bool) -> Seq<T>
    decreases rows.len(),
{
    if rows.len() == 0 {
        Seq::empty()
    } else {
        let init = keep(rows.drop_last(), wanted);
        if wanted(rows.last()) {
            init.push(rows.last())
        } else {
            init
        }
    }
}

/// Only wanted rows are kept, each of them a row that was there; and every
/// wanted row that was there is kept.
pub proof fn lemma_keep<T>(rows: Seq<T>, wanted: spec_fn(T) -> bool)
    ensures
        keep(rows, wanted).len() <= rows.len(),
        forall|k: int|
            0 <= k < keep(rows, wanted).len() ==> wanted(#[trigger] keep(rows, wanted)[k])
                && rows.contains(keep(rows, wanted)[k]),
        forall|i: int|
            0 <= i < rows.len() && wanted(#[trigger] rows[i]) ==> keep(rows, wanted).contains(
                rows[i],
            ),
    decreases rows.len(),
{
    if rows.len() > 0 {
        let init = rows.drop_last();
        let kept = keep(init, wanted);
        let out = keep(rows, wanted);
        lemma_keep(init, wanted);
        assert forall|k: int| 0 <= k < out.len() implies wanted(#[trigger] out[k])
            && rows.contains(out[k]) by {
            if k < kept.len() {
                assert(out[k] == kept[k]);
                let j = choose|j: int| 0 <= j < init.len() && init[j] == kept[k];
                assert(rows[j] == out[k]);
            } else {
                assert(out[k] == rows[rows.len() - 1]);
            }
        }
        assert forall|i: int| 0 <= i < rows.len() && wanted(#[trigger] rows[i]) implies out.contains(
            rows[i],
        ) by {
            if i < init.len() {
                assert(init[i] == rows[i]);
                let k = choose|k: int| 0 <= k < kept.len() && kept[k] == init[i];
                assert(out[k] == rows[i]);
            } else {
                assert(out[out.len() - 1] == rows[i]);
            }
        }
    }
}

/// The number of rows that are wanted.
pub open spec fn count<T>(rows: Seq<T>, wanted: spec_fn(T) -> bool) -> nat {
    keep(rows, wanted).len()
}

/// The posts ordered by recency.
pub fn posts_by_recency(rows: &Vec<PostDataWrapper>) -> (r: Vec<PostDataWrapper>)
    ensures
        post_records(r@) == by_recency(post_records(rows@), post_time()),
{
    let mut out: Vec<PostDataWrapper> = Vec::new();
    let mut i: usize = 0;
    assert(post_records(rows@).take(0) =~= Seq::<PostRecord>::empty());
    assert(post_records(out@) =~= Seq::<PostRecord>::empty());
    while i < rows.len()
        invariant
            i <= rows.len(),
            post_records(out@) == by_recency(post_records(rows@).take(i as int), post_time()),
        decreases rows.len() - i,
    {
        let t = rows[i].timestamp;
        let ghost sorted = post_records(out@);
        let mut k: usize = out.len();
        while k > 0 && out[k - 1].timestamp < t
            invariant
                k <= out.len(),
                sorted == post_records(out@),
                forall|j: int| k <= j < out.len() ==> post_time()(sorted[j]) < t,
            decreases k,
        {
            k -= 1;
        }
        proof {
            lemma_slot_is(sorted, t as int, post_time(), k as int);
            let upto = post_records(rows@).take(i + 1);
            assert(upto.drop_last() =~= post_records(rows@).take(i as int));
            assert(upto.last() == rows@[i as int]@);
        }
        out.insert(k, rows[i].clone());
        assert(post_records(out@) =~= sorted.insert(k as int, rows@[i as int]@));
        i += 1;
    }
    assert(post_records(rows@).take(i as int) =~= post_records(rows@));
    out
}

/// The comments ordered by recency.
pub fn comments_by_recency(rows: &Vec<CommentDataWrapper>) -> (r: Vec<CommentDataWrapper>)
    ensures
        comment_records(r@) == by_recency(comment_records(rows@), comment_time()),
{
    let mut out: Vec<CommentDataWrapper> = Vec::new();
    let mut i: usize = 0;
    assert(comment_records(rows@).take(0) =~= Seq::<CommentRecord>::empty());
    assert(comment_records(out@) =~= Seq::<CommentRecord>::empty());
    while i < rows.len()
        invariant
            i <= rows.len(),
            comment_records(out@) == by_recency(
                comment_records(rows@).take(i as int),
                comment_time(),
            ),
        decreases rows.len() - i,
    {
        let t = rows[i].timestamp;
        let ghost sorted = comment_records(out@);
        let mut k: usize = out.len();
        while k > 0 && out[k - 1].timestamp < t
            invariant
                k <= out.len(),
                sorted == comment_records(out@),
                forall|j: int| k <= j < out.len() ==> comment_time()(sorted[j]) < t,
            decreases k,
        {
            k -= 1;
        }
        proof {
            lemma_slot_is(sorted, t as int, comment_time(), k as int);
            let upto = comment_records(rows@).take(i + 1);
            assert(upto.drop_last() =~= comment_records(rows@).take(i as int));
            assert(upto.last() == rows@[i as int]@);
        }
        out.insert(k, rows[i].clone());
        assert(comment_records(out@) =~= sorted.insert(k as int, rows@[i as int]@));
        i += 1;
    }
    assert(comment_records(rows@).take(i as int) =~= comment_records(rows@));
    out
}

} // verus!
