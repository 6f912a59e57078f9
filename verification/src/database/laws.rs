//! What holds of the store whatever is written to it.

use vstd::prelude::*;
use vstd::seq_lib::to_multiset_contains;
use crate::database::adding::{
    add_comment, add_comments, distinct_comment_ids, has_comment, insert_all_or_ignore,
    insert_or_ignore,
};
use crate::database::order::{by_recency, count, keep, lemma_by_recency, lemma_keep, post_time};
use crate::database::read::{
    facet_counts, key_position, lemma_key_position, mentions, tally, with_sort_type,
};
use crate::database::records::{
    distinct_ids, lemma_position_of, position_of, CommentRecord, PostRecord,
};
use crate::text::is_substring;

verus! {

/// An identity is saved exactly when some row has it.
pub proof fn lemma_saved_iff_some_row(rows: Seq<PostRecord>, id: int)
    ensures
        position_of(rows, id) is Some <==> exists|i: int|
            0 <= i < rows.len() && (#[trigger] rows[i]).id == id,
{
    lemma_position_of(rows, id);
    if position_of(rows, id) is Some {
        assert(rows[position_of(rows, id)->0].id == id);
    }
}

/// Offering a post leaves every saved row as it is, in its place: its notes,
/// its assignee and its engagement flag as much as every other field. And
/// the identity of the post is saved afterwards.
pub proof fn lemma_offer_keeps_rows(rows: Seq<PostRecord>, post: PostRecord)
    ensures
        insert_or_ignore(rows, post).len() >= rows.len(),
        forall|i: int| 0 <= i < rows.len() ==> (#[trigger] insert_or_ignore(rows, post)[i]) == rows[i],
        position_of(insert_or_ignore(rows, post), post.id) is Some,
        distinct_ids(rows) ==> distinct_ids(insert_or_ignore(rows, post)),
{
    let out = insert_or_ignore(rows, post);
    lemma_position_of(rows, post.id);
    lemma_saved_iff_some_row(out, post.id);
    if position_of(rows, post.id) is None {
        assert(out[rows.len() as int].id == post.id);
    }
}

/// Offering a batch of posts leaves every saved row as it is, in its place,
/// whatever the batch holds under the identity of that row: the notes, the
/// assignee and the engagement flag of a saved post are never overwritten.
/// The identities stay distinct, and every identity of the batch is saved
/// afterwards.
pub proof fn lemma_saved_rows_stay(rows: Seq<PostRecord>, posts: Seq<PostRecord>)
    ensures
        insert_all_or_ignore(rows, posts).len() >= rows.len(),
        forall|i: int|
            0 <= i < rows.len() ==> (#[trigger] insert_all_or_ignore(rows, posts)[i]) == rows[i],
        forall|k: int|
            0 <= k < posts.len() ==> position_of(
                insert_all_or_ignore(rows, posts),
                (#[trigger] posts[k]).id,
            ) is Some,
        distinct_ids(rows) ==> distinct_ids(insert_all_or_ignore(rows, posts)),
    decreases posts.len(),
{
    if posts.len() > 0 {
        let init = insert_all_or_ignore(rows, posts.drop_last());
        let out = insert_all_or_ignore(rows, posts);
        lemma_saved_rows_stay(rows, posts.drop_last());
        lemma_offer_keeps_rows(init, posts.last());
        assert forall|k: int| 0 <= k < posts.len() implies position_of(
            out,
            (#[trigger] posts[k]).id,
        ) is Some by {
            if k < posts.len() - 1 {
                assert(posts.drop_last()[k] == posts[k]);
                lemma_saved_iff_some_row(init, posts[k].id);
                let i = choose|i: int| 0 <= i < init.len() && (#[trigger] init[i]).id == posts[k].id;
                assert(out[i] == init[i]);
                lemma_saved_iff_some_row(out, posts[k].id);
            }
        }
    }
}

/// A batch whose identities are all saved changes nothing.
pub proof fn lemma_saved_batch_is_ignored(rows: Seq<PostRecord>, posts: Seq<PostRecord>)
    requires
        forall|k: int| 0 <= k < posts.len() ==> position_of(rows, (#[trigger] posts[k]).id) is Some,
    ensures
        insert_all_or_ignore(rows, posts) == rows,
    decreases posts.len(),
{
    if posts.len() > 0 {
        assert forall|k: int| 0 <= k < posts.len() - 1 implies position_of(
            rows,
            (#[trigger] posts.drop_last()[k]).id,
        ) is Some by {
            assert(posts.drop_last()[k] == posts[k]);
        }
        lemma_saved_batch_is_ignored(rows, posts.drop_last());
        assert(posts.last() == posts[posts.len() - 1]);
    }
}

/// Saving a batch a second time changes nothing.
pub proof fn lemma_save_twice(rows: Seq<PostRecord>, posts: Seq<PostRecord>)
    ensures
        insert_all_or_ignore(insert_all_or_ignore(rows, posts), posts) == insert_all_or_ignore(
            rows,
            posts,
        ),
{
    lemma_saved_rows_stay(rows, posts);
    lemma_saved_batch_is_ignored(insert_all_or_ignore(rows, posts), posts);
}

/// Offering a comment leaves every stored comment as it is, in its place,
/// keeps the identifiers distinct, and has the identifier stored afterwards.
pub proof fn lemma_offer_keeps_comments(rows: Seq<CommentRecord>, comment: CommentRecord)
    ensures
        add_comment(rows, comment).len() >= rows.len(),
        forall|i: int| 0 <= i < rows.len() ==> (#[trigger] add_comment(rows, comment)[i]) == rows[i],
        has_comment(add_comment(rows, comment), comment.id),
        distinct_comment_ids(rows) ==> distinct_comment_ids(add_comment(rows, comment)),
{
    let out = add_comment(rows, comment);
    if !has_comment(rows, comment.id) {
        assert(out[rows.len() as int].id == comment.id);
    }
}

/// Offering a batch of comments leaves every stored comment as it is, in its
/// place, and stores no identifier twice: a comment that is stored already,
/// or that came earlier in the batch, adds no row.
pub proof fn lemma_comments_stay(rows: Seq<CommentRecord>, comments: Seq<CommentRecord>)
    ensures
        add_comments(rows, comments).len() >= rows.len(),
        forall|i: int|
            0 <= i < rows.len() ==> (#[trigger] add_comments(rows, comments)[i]) == rows[i],
        forall|k: int|
            0 <= k < comments.len() ==> has_comment(
                add_comments(rows, comments),
                (#[trigger] comments[k]).id,
            ),
        distinct_comment_ids(rows) ==> distinct_comment_ids(add_comments(rows, comments)),
    decreases comments.len(),
{
    if comments.len() > 0 {
        let init = add_comments(rows, comments.drop_last());
        let out = add_comments(rows, comments);
        lemma_comments_stay(rows, comments.drop_last());
        lemma_offer_keeps_comments(init, comments.last());
        assert forall|k: int| 0 <= k < comments.len() implies has_comment(
            out,
            (#[trigger] comments[k]).id,
        ) by {
            if k < comments.len() - 1 {
                assert(comments.drop_last()[k] == comments[k]);
                let i = choose|i: int|
                    0 <= i < init.len() && (#[trigger] init[i]).id == comments[k].id;
                assert(out[i] == init[i]);
            }
        }
    }
}

/// A batch of comments that are all stored changes nothing.
pub proof fn lemma_stored_batch_is_ignored(rows: Seq<CommentRecord>, comments: Seq<CommentRecord>)
    requires
        forall|k: int| 0 <= k < comments.len() ==> has_comment(rows, (#[trigger] comments[k]).id),
    ensures
        add_comments(rows, comments) == rows,
    decreases comments.len(),
{
    if comments.len() > 0 {
        assert forall|k: int| 0 <= k < comments.len() - 1 implies has_comment(
            rows,
            (#[trigger] comments.drop_last()[k]).id,
        ) by {
            assert(comments.drop_last()[k] == comments[k]);
        }
        lemma_stored_batch_is_ignored(rows, comments.drop_last());
        assert(comments.last() == comments[comments.len() - 1]);
    }
}

/// Storing a batch of comments a second time adds no row.
pub proof fn lemma_store_twice(rows: Seq<CommentRecord>, comments: Seq<CommentRecord>)
    ensures
        add_comments(add_comments(rows, comments), comments) == add_comments(rows, comments),
{
    lemma_comments_stay(rows, comments);
    lemma_stored_batch_is_ignored(add_comments(rows, comments), comments);
}

/// What a reader hands out for a filter: only rows that the filter wants,
/// each of them a row of the store; and every row of the store that the
/// filter wants.
pub proof fn lemma_reader_rows(rows: Seq<PostRecord>, wanted: spec_fn(PostRecord) -> bool)
    ensures
        forall|k: int|
            0 <= k < by_recency(keep(rows, wanted), post_time()).len() ==> wanted(
                #[trigger] by_recency(keep(rows, wanted), post_time())[k],
            ) && rows.contains(by_recency(keep(rows, wanted), post_time())[k]),
        forall|i: int|
            0 <= i < rows.len() && wanted(#[trigger] rows[i]) ==> by_recency(
                keep(rows, wanted),
                post_time(),
            ).contains(rows[i]),
{
    let kept = keep(rows, wanted);
    let out = by_recency(kept, post_time());
    lemma_keep(rows, wanted);
    lemma_by_recency(kept, post_time());
    assert forall|k: int| 0 <= k < out.len() implies wanted(#[trigger] out[k]) && rows.contains(
        out[k],
    ) by {
        to_multiset_contains(out, out[k]);
        to_multiset_contains(kept, out[k]);
        assert(out.contains(out[k]));
        let j = choose|j: int| 0 <= j < kept.len() && kept[j] == out[k];
        assert(wanted(kept[j]) && rows.contains(kept[j]));
    }
    assert forall|i: int| 0 <= i < rows.len() && wanted(#[trigger] rows[i]) implies out.contains(
        rows[i],
    ) by {
        to_multiset_contains(out, rows[i]);
        to_multiset_contains(kept, rows[i]);
    }
}

/// A search hands out only saved posts that hold the term in their title,
/// their community or their facet field, letter case observed, and it hands
/// out every such post.
pub proof fn lemma_search_rows(rows: Seq<PostRecord>, term: Seq<char>)
    ensures
        forall|k: int|
            0 <= k < by_recency(keep(rows, mentions(term)), post_time()).len() ==> {
                let row = #[trigger] by_recency(keep(rows, mentions(term)), post_time())[k];
                rows.contains(row) && (is_substring(term, row.title) || is_substring(
                    term,
                    row.subreddit,
                ) || is_substring(term, row.sort_type))
            },
        forall|i: int|
            0 <= i < rows.len() && (is_substring(term, (#[trigger] rows[i]).title) || is_substring(
                term,
                rows[i].subreddit,
            ) || is_substring(term, rows[i].sort_type)) ==> by_recency(
                keep(rows, mentions(term)),
                post_time(),
            ).contains(rows[i]),
{
    lemma_reader_rows(rows, mentions(term));
    let out = by_recency(keep(rows, mentions(term)), post_time());
    assert forall|k: int| 0 <= k < out.len() implies {
        let row = #[trigger] out[k];
        rows.contains(row) && (is_substring(term, row.title) || is_substring(term, row.subreddit)
            || is_substring(term, row.sort_type))
    } by {
        assert(mentions(term)(out[k]));
    }
    assert forall|i: int|
        0 <= i < rows.len() && (is_substring(term, (#[trigger] rows[i]).title) || is_substring(
            term,
            rows[i].subreddit,
        ) || is_substring(term, rows[i].sort_type)) implies out.contains(rows[i]) by {
        assert(mentions(term)(rows[i]));
    }
}

/// The counts by facet field are those of a grouping: no field has two
/// entries, every field that occurs among the rows has one, and the count of
/// a field is the number of rows that have exactly that field.
pub proof fn lemma_facet_counts(rows: Seq<PostRecord>)
    ensures
        forall|i: int, j: int|
            0 <= i < facet_counts(rows).len() && 0 <= j < facet_counts(rows).len() && i != j ==> (
            #[trigger] facet_counts(rows)[i]).0 != (#[trigger] facet_counts(rows)[j]).0,
        forall|i: int|
            0 <= i < facet_counts(rows).len() ==> (#[trigger] facet_counts(rows)[i]).1 == count(
                rows,
                with_sort_type(facet_counts(rows)[i].0),
            ),
        forall|k: int|
            0 <= k < rows.len() ==> key_position(
                facet_counts(rows),
                (#[trigger] rows[k]).sort_type,
            ) is Some,
    decreases rows.len(),
{
    if rows.len() > 0 {
        let before = rows.drop_last();
        let key = rows.last().sort_type;
        let init = facet_counts(before);
        let out = facet_counts(rows);
        lemma_facet_counts(before);
        lemma_key_position(init, key);
        assert(out == tally(init, key));
        assert forall|i: int| 0 <= i < out.len() implies (#[trigger] out[i]).1 == count(
            rows,
            with_sort_type(out[i].0),
        ) by {
            let field = out[i].0;
            if i < init.len() {
                assert(init[i].0 == field);
                assert(init[i].1 == count(before, with_sort_type(field)));
            } else {
                assert(field == key);
                lemma_keep(before, with_sort_type(key));
                let kept = keep(before, with_sort_type(key));
                if kept.len() > 0 {
                    let row = kept[0];
                    assert(with_sort_type(key)(row));
                    let k = choose|k: int| 0 <= k < before.len() && before[k] == row;
                    assert(key_position(init, before[k].sort_type) is Some);
                }
            }
        }
        assert forall|k: int| 0 <= k < rows.len() implies key_position(
            out,
            (#[trigger] rows[k]).sort_type,
        ) is Some by {
            lemma_key_position(out, rows[k].sort_type);
            if k < before.len() {
                assert(before[k] == rows[k]);
                lemma_key_position(init, rows[k].sort_type);
                let at = key_position(init, rows[k].sort_type)->0;
                assert(out[at].0 == rows[k].sort_type);
            } else {
                match key_position(init, key) {
                    Some(at) => {
                        assert(out[at].0 == key);
                    },
                    None => {
                        assert(out[init.len() as int].0 == key);
                    },
                }
            }
        }
    }
}

} // verus!
