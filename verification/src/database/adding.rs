//! The store: saved posts, the results of the current search, and comments.
//! Saved posts are keyed by their identity and comments by their identifier;
//! the results of the current search are a plain list.

use vstd::prelude::*;
use crate::database::order::{by_recency, comment_time, comments_by_recency, keep, lemma_keep,
    post_time, posts_by_recency};
use crate::database::records::{
    comment_records, copy_comments, copy_posts, distinct_ids, find_post, lemma_position_of,
    opt_text, position_of, post_records, CommentDataWrapper, CommentRecord, PostDataWrapper,
    PostRecord,
};

verus! {

/// The text `YYYY-MM-DD HH:MM:SS` of an instant given in epoch seconds, in UTC,
/// as chrono renders it; `None` where chrono has no calendar date for the
/// instant.
pub uninterp spec fn utc_text(timestamp: int) -> Option<Seq<char>>;

/// Calls chrono's `DateTime::from_timestamp` with no nanoseconds and renders
/// the instant with `DateTime::format` under `%Y-%m-%d %H:%M:%S`. chrono
/// returns `None` for a number of seconds outside the range of its calendar;
/// otherwise the text is that of the instant and depends on it alone.
#[verifier::external_body]
fn chrono_utc_text(timestamp: i64) -> (r: Option<String>)
    ensures
        opt_text(r) == utc_text(timestamp as int),
{
    match chrono::DateTime::from_timestamp(timestamp, 0) {
        Some(instant) => Some(instant.format("%Y-%m-%d %H:%M:%S").to_string()),
        None => None,
    }
}

/// The saved rows after one post was offered: a post whose identity is saved
/// already changes nothing; a new one is added at the end.
pub open spec fn insert_or_ignore(rows: Seq<PostRecord>, post: PostRecord) -> Seq<PostRecord> {
    if position_of(rows, post.id) is Some {
        rows
    } else {
        rows.push(post)
    }
}

/// The saved rows after a batch of posts was offered, one after the other.
pub open spec fn insert_all_or_ignore(rows: Seq<PostRecord>, posts: Seq<PostRecord>) -> Seq<
    PostRecord,
>
    decreases posts.len(),
{
    if posts.len() == 0 {
        rows
    } else {
        insert_or_ignore(insert_all_or_ignore(rows, posts.drop_last()), posts.last())
    }
}

/// The row has another identity than `id`.
pub open spec fn other_than(id: int) -> spec_fn(PostRecord) -> bool {
    |p: PostRecord| p.id != id
}

/// The rows with the notes of every row of identity `id` replaced.
pub open spec fn with_notes(rows: Seq<PostRecord>, id: int, notes: Seq<char>) -> Seq<PostRecord> {
    Seq::new(
        rows.len(),
        |i: int|
            if rows[i].id == id {
                PostRecord { notes: notes, ..rows[i] }
            } else {
                rows[i]
            },
    )
}

/// The rows with the assignee of every row of identity `id` replaced.
pub open spec fn with_assignee(rows: Seq<PostRecord>, id: int, assignee: Seq<char>) -> Seq<
    PostRecord,
> {
    Seq::new(
        rows.len(),
        |i: int|
            if rows[i].id == id {
                PostRecord { assignee: assignee, ..rows[i] }
            } else {
                rows[i]
            },
    )
}

/// The rows with the engagement flag of every row of identity `id` replaced.
pub open spec fn with_engaged(rows: Seq<PostRecord>, id: int, engaged: int) -> Seq<PostRecord> {
    Seq::new(
        rows.len(),
        |i: int|
            if rows[i].id == id {
                PostRecord { engaged: engaged, ..rows[i] }
            } else {
                rows[i]
            },
    )
}

/// Some comment of the rows has the identifier `id`.
pub open spec fn has_comment(rows: Seq<CommentRecord>, id: Seq<char>) -> bool {
    exists|i: int| 0 <= i < rows.len() && (#[trigger] rows[i]).id == id
}

/// No two comments have the same identifier.
pub open spec fn distinct_comment_ids(rows: Seq<CommentRecord>) -> bool {
    forall|i: int, j: int|
        0 <= i < rows.len() && 0 <= j < rows.len() && i != j ==> (#[trigger] rows[i]).id != (
        #[trigger] rows[j]).id
}

/// The comments after one comment was offered: one whose identifier is stored
/// already changes nothing; a new one is added at the end.
pub open spec fn add_comment(rows: Seq<CommentRecord>, comment: CommentRecord) -> Seq<
    CommentRecord,
> {
    if has_comment(rows, comment.id) {
        rows
    } else {
        rows.push(comment)
    }
}

/// The comments after a batch of comments was offered, one after the other.
pub open spec fn add_comments(rows: Seq<CommentRecord>, comments: Seq<CommentRecord>) -> Seq<
    CommentRecord,
>
    decreases comments.len(),
{
    if comments.len() == 0 {
        rows
    } else {
        add_comment(add_comments(rows, comments.drop_last()), comments.last())
    }
}

/// The comment belongs to the post `post_id`.
pub open spec fn of_post(post_id: Seq<char>) -> spec_fn(CommentRecord) -> bool {
    |c: CommentRecord| c.post_id == post_id
}

/// Keeping some of the rows keeps their identities distinct.
pub proof fn lemma_keep_distinct(rows: Seq<PostRecord>, wanted: spec_fn(PostRecord) -> bool)
    requires
        distinct_ids(rows),
    ensures
        distinct_ids(keep(rows, wanted)),
    decreases rows.len(),
{
    if rows.len() > 0 {
        let init = rows.drop_last();
        assert(distinct_ids(init)) by {
            assert forall|i: int, j: int|
                0 <= i < init.len() && 0 <= j < init.len() && i != j implies (#[trigger] init[i]).id
                != (#[trigger] init[j]).id by {
                assert(init[i] == rows[i] && init[j] == rows[j]);
            }
        }
        lemma_keep_distinct(init, wanted);
        lemma_keep(init, wanted);
        let kept = keep(init, wanted);
        let out = keep(rows, wanted);
        if wanted(rows.last()) {
            assert forall|i: int, j: int|
                0 <= i < out.len() && 0 <= j < out.len() && i != j implies (#[trigger] out[i]).id
                != (#[trigger] out[j]).id by {
                if i < kept.len() && j < kept.len() {
                    assert(out[i] == kept[i] && out[j] == kept[j]);
                } else if i < kept.len() {
                    let a = choose|a: int| 0 <= a < init.len() && init[a] == kept[i];
                    assert(rows[a] == out[i]);
                    assert(out[j] == rows[rows.len() - 1]);
                } else {
                    let a = choose|a: int| 0 <= a < init.len() && init[a] == kept[j];
                    assert(rows[a] == out[j]);
                    assert(out[i] == rows[rows.len() - 1]);
                }
            }
        }
    }
}

/// The three collections of the store.
pub struct DB {
    saved: Vec<PostDataWrapper>,
    current: Vec<PostDataWrapper>,
    comments: Vec<CommentDataWrapper>,
}

impl DB {
    /// The invariant of the store: no identity is saved twice and no comment
    /// is stored twice.
    pub open spec fn wf(&self) -> bool {
        &&& distinct_ids(self.saved_rows())
        &&& distinct_comment_ids(self.comment_rows())
    }

    /// The saved posts, in the order in which they were saved.
    pub closed spec fn saved_rows(&self) -> Seq<PostRecord> {
        post_records(self.saved@)
    }

    /// The results of the current search, in the order in which they were
    /// written.
    pub closed spec fn search_rows(&self) -> Seq<PostRecord> {
        post_records(self.current@)
    }

    /// The stored comments, in the order in which they were stored.
    pub closed spec fn comment_rows(&self) -> Seq<CommentRecord> {
        comment_records(self.comments@)
    }

    /// A store with three empty collections.
    pub fn new() -> (db: DB)
        ensures
            db.wf(),
            db.saved_rows() == Seq::<PostRecord>::empty(),
            db.search_rows() == Seq::<PostRecord>::empty(),
            db.comment_rows() == Seq::<CommentRecord>::empty(),
    {
        let db = DB { saved: Vec::new(), current: Vec::new(), comments: Vec::new() };
        assert(db.saved_rows() =~= Seq::<PostRecord>::empty());
        assert(db.search_rows() =~= Seq::<PostRecord>::empty());
        assert(db.comment_rows() =~= Seq::<CommentRecord>::empty());
        db
    }

    /// The date text of an instant, or `None` where the instant lies outside
    /// the calendar.
    pub fn format_timestamp(timestamp: i64) -> (r: Option<String>)
        ensures
            opt_text(r) == utc_text(timestamp as int),
    {
        chrono_utc_text(timestamp)
    }

    /// Saves one post unless its identity is saved already. A post that is
    /// saved already keeps every field it has, the user's notes, assignee and
    /// engagement flag among them.
    pub fn save_single_reddit(&mut self, post: &PostDataWrapper)
        requires
            old(self).wf(),
        ensures
            final(self).wf(),
            final(self).saved_rows() == insert_or_ignore(old(self).saved_rows(), post@),
            final(self).search_rows() == old(self).search_rows(),
            final(self).comment_rows() == old(self).comment_rows(),
    {
        proof {
            lemma_position_of(post_records(self.saved@), post.id as int);
        }
        let ghost before = post_records(self.saved@);
        if find_post(&self.saved, post.id).is_none() {
            let fresh = post.clone();
            assert(distinct_ids(before.push(fresh@)));
            assert(post_records(self.saved@.push(fresh)) =~= before.push(fresh@));
            self.saved.push(fresh);
        }
    }

    /// Saves a batch of posts: each in turn is saved unless its identity is
    /// saved already, be it from before or from earlier in the batch. No row
    /// that is there is ever overwritten.
    pub fn append_results(&mut self, results: &[PostDataWrapper])
        requires
            old(self).wf(),
        ensures
            final(self).wf(),
            final(self).saved_rows() == insert_all_or_ignore(
                old(self).saved_rows(),
                post_records(results@),
            ),
            final(self).search_rows() == old(self).search_rows(),
            final(self).comment_rows() == old(self).comment_rows(),
    {
        let ghost before = self.saved_rows();
        let ghost searched = self.search_rows();
        let ghost stored = self.comment_rows();
        let mut i: usize = 0;
        assert(post_records(results@).take(0) =~= Seq::<PostRecord>::empty());
        while i < results.len()
            invariant
                i <= results.len(),
                self.wf(),
                self.saved_rows() == insert_all_or_ignore(
                    before,
                    post_records(results@).take(i as int),
                ),
                self.search_rows() == searched,
                self.comment_rows() == stored,
            decreases results.len() - i,
        {
            proof {
                let upto = post_records(results@).take(i + 1);
                assert(upto.drop_last() =~= post_records(results@).take(i as int));
                assert(upto.last() == results@[i as int]@);
            }
            self.save_single_reddit(&results[i]);
            i += 1;
        }
        assert(post_records(results@).take(i as int) =~= post_records(results@));
    }

    /// Removes the saved post of identity `id`; nothing changes where there is
    /// none.
    pub fn remove_single_reddit(&mut self, id: &i64)
        requires
            old(self).wf(),
        ensures
            final(self).wf(),
            final(self).saved_rows() == keep(old(self).saved_rows(), other_than(*id as int)),
            final(self).search_rows() == old(self).search_rows(),
            final(self).comment_rows() == old(self).comment_rows(),
    {
        let ghost before = post_records(self.saved@);
        let mut out: Vec<PostDataWrapper> = Vec::new();
        let mut i: usize = 0;
        assert(before.take(0) =~= Seq::<PostRecord>::empty());
        assert(post_records(out@) =~= Seq::<PostRecord>::empty());
        while i < self.saved.len()
            invariant
                i <= self.saved.len(),
                before == post_records(self.saved@),
                post_records(out@) == keep(before.take(i as int), other_than(*id as int)),
            decreases self.saved.len() - i,
        {
            proof {
                assert(before.take(i + 1).drop_last() =~= before.take(i as int));
                assert(before.take(i + 1).last() == self.saved@[i as int]@);
            }
            if self.saved[i].id != *id {
                let ghost kept = post_records(out@);
                out.push(self.saved[i].clone());
                assert(post_records(out@) =~= kept.push(self.saved@[i as int]@));
            }
            i += 1;
        }
        proof {
            assert(before.take(i as int) =~= before);
            lemma_keep_distinct(before, other_than(*id as int));
        }
        self.saved = out;
    }

    /// Empties the results of the current search.
    pub fn clear_current_search_results(&mut self)
        ensures
            final(self).search_rows() == Seq::<PostRecord>::empty(),
            final(self).saved_rows() == old(self).saved_rows(),
            final(self).comment_rows() == old(self).comment_rows(),
    {
        self.current = Vec::new();
        assert(self.search_rows() =~= Seq::<PostRecord>::empty());
    }

    /// Replaces the results of the current search by `results`, in their
    /// order. Identities may occur more than once among them.
    pub fn replace_current_results(&mut self, results: &[PostDataWrapper])
        ensures
            final(self).search_rows() == post_records(results@),
            final(self).saved_rows() == old(self).saved_rows(),
            final(self).comment_rows() == old(self).comment_rows(),
    {
        self.current = copy_posts(results);
    }

    /// Adds `results` behind the results of the current search.
    pub fn append_current_results(&mut self, results: &[PostDataWrapper])
        ensures
            final(self).search_rows() == old(self).search_rows() + post_records(results@),
            final(self).saved_rows() == old(self).saved_rows(),
            final(self).comment_rows() == old(self).comment_rows(),
    {
        let ghost before = self.search_rows();
        let ghost saved = self.saved_rows();
        let ghost stored = self.comment_rows();
        let mut i: usize = 0;
        assert(self.search_rows() =~= before + post_records(results@).take(0));
        while i < results.len()
            invariant
                i <= results.len(),
                self.search_rows() == before + post_records(results@).take(i as int),
                self.saved_rows() == saved,
                self.comment_rows() == stored,
            decreases results.len() - i,
        {
            let ghost so_far = post_records(self.current@);
            self.current.push(results[i].clone());
            assert(post_records(self.current@) =~= so_far.push(results@[i as int]@));
            assert(self.search_rows() =~= before + post_records(results@).take(i + 1));
            i += 1;
        }
        assert(post_records(results@).take(i as int) =~= post_records(results@));
    }

    /// Whether a comment with this identifier is stored.
    pub fn holds_comment(&self, id: &str) -> (r: bool)
        ensures
            r == has_comment(self.comment_rows(), id@),
    {
        let key = id.to_owned();
        let mut i: usize = 0;
        while i < self.comments.len()
            invariant
                i <= self.comments.len(),
                key@ == id@,
                forall|j: int| 0 <= j < i ==> (#[trigger] comment_records(self.comments@)[j]).id != id@,
            decreases self.comments.len() - i,
        {
            if self.comments[i].id == key {
                assert(comment_records(self.comments@)[i as int].id == id@);
                return true;
            }
            assert(comment_records(self.comments@)[i as int].id != id@);
            i += 1;
        }
        false
    }

    /// Stores a batch of comments: each in turn is stored unless a comment
    /// with its identifier is stored already. No stored comment is ever
    /// overwritten or stored twice.
    pub fn append_comments(&mut self, comments: &[CommentDataWrapper])
        requires
            old(self).wf(),
        ensures
            final(self).wf(),
            final(self).comment_rows() == add_comments(
                old(self).comment_rows(),
                comment_records(comments@),
            ),
            final(self).saved_rows() == old(self).saved_rows(),
            final(self).search_rows() == old(self).search_rows(),
    {
        let ghost before = self.comment_rows();
        let ghost saved = self.saved_rows();
        let ghost searched = self.search_rows();
        let mut i: usize = 0;
        assert(comment_records(comments@).take(0) =~= Seq::<CommentRecord>::empty());
        while i < comments.len()
            invariant
                i <= comments.len(),
                self.wf(),
                self.comment_rows() == add_comments(
                    before,
                    comment_records(comments@).take(i as int),
                ),
                self.saved_rows() == saved,
                self.search_rows() == searched,
            decreases comments.len() - i,
        {
            proof {
                let upto = comment_records(comments@).take(i + 1);
                assert(upto.drop_last() =~= comment_records(comments@).take(i as int));
                assert(upto.last() == comments@[i as int]@);
            }
            if !self.holds_comment(comments[i].id.as_str()) {
                let ghost so_far = comment_records(self.comments@);
                let fresh = comments[i].clone();
                self.comments.push(fresh);
                assert(comment_records(self.comments@) =~= so_far.push(comments@[i as int]@));
            }
            i += 1;
        }
        assert(comment_records(comments@).take(i as int) =~= comment_records(comments@));
    }

    /// The saved posts, the most recent first.
    pub fn get_db_results(&self) -> (r: Vec<PostDataWrapper>)
        ensures
            post_records(r@) == by_recency(self.saved_rows(), post_time()),
    {
        posts_by_recency(&self.saved)
    }

    /// The comments of one post, the most recent first.
    pub fn get_post_comments(&self, post_id: &str) -> (r: Vec<CommentDataWrapper>)
        ensures
            comment_records(r@) == by_recency(
                keep(self.comment_rows(), of_post(post_id@)),
                comment_time(),
            ),
    {
        let key = post_id.to_owned();
        let ghost rows = comment_records(self.comments@);
        let mut picked: Vec<CommentDataWrapper> = Vec::new();
        let mut i: usize = 0;
        assert(rows.take(0) =~= Seq::<CommentRecord>::empty());
        assert(comment_records(picked@) =~= Seq::<CommentRecord>::empty());
        while i < self.comments.len()
            invariant
                i <= self.comments.len(),
                key@ == post_id@,
                rows == comment_records(self.comments@),
                comment_records(picked@) == keep(rows.take(i as int), of_post(post_id@)),
            decreases self.comments.len() - i,
        {
            proof {
                assert(rows.take(i + 1).drop_last() =~= rows.take(i as int));
                assert(rows.take(i + 1).last() == self.comments@[i as int]@);
            }
            if self.comments[i].post_id == key {
                let ghost kept = comment_records(picked@);
                picked.push(self.comments[i].clone());
                assert(comment_records(picked@) =~= kept.push(self.comments@[i as int]@));
            }
            i += 1;
        }
        assert(rows.take(i as int) =~= rows);
        comments_by_recency(&picked)
    }

    /// Sets the notes of the saved post of identity `id`; nothing changes
    /// where there is none.
    pub fn update_post_notes(&mut self, id: i64, notes: &str)
        requires
            old(self).wf(),
        ensures
            final(self).wf(),
            final(self).saved_rows() == with_notes(old(self).saved_rows(), id as int, notes@),
            final(self).search_rows() == old(self).search_rows(),
            final(self).comment_rows() == old(self).comment_rows(),
    {
        let ghost before = post_records(self.saved@);
        match find_post(&self.saved, id) {
            Some(i) => {
                proof {
                    lemma_position_of(before, id as int);
                }
                self.saved[i].notes = notes.to_owned();
                assert(post_records(self.saved@) =~= with_notes(before, id as int, notes@));
            },
            None => {
                proof {
                    lemma_position_of(before, id as int);
                }
                assert(before =~= with_notes(before, id as int, notes@));
            },
        }
    }

    /// Sets the assignee of the saved post of identity `id`; nothing changes
    /// where there is none.
    pub fn update_post_assignee(&mut self, id: i64, assignee: &str)
        requires
            old(self).wf(),
        ensures
            final(self).wf(),
            final(self).saved_rows() == with_assignee(
                old(self).saved_rows(),
                id as int,
                assignee@,
            ),
            final(self).search_rows() == old(self).search_rows(),
            final(self).comment_rows() == old(self).comment_rows(),
    {
        let ghost before = post_records(self.saved@);
        match find_post(&self.saved, id) {
            Some(i) => {
                proof {
                    lemma_position_of(before, id as int);
                }
                self.saved[i].assignee = assignee.to_owned();
                assert(post_records(self.saved@) =~= with_assignee(before, id as int, assignee@));
            },
            None => {
                proof {
                    lemma_position_of(before, id as int);
                }
                assert(before =~= with_assignee(before, id as int, assignee@));
            },
        }
    }

    /// Sets the engagement flag of the saved post of identity `id`; nothing
    /// changes where there is none.
    pub fn update_post_engaged_status(&mut self, id: i64, engaged: i64)
        requires
            old(self).wf(),
        ensures
            final(self).wf(),
            final(self).saved_rows() == with_engaged(
                old(self).saved_rows(),
                id as int,
                engaged as int,
            ),
            final(self).search_rows() == old(self).search_rows(),
            final(self).comment_rows() == old(self).comment_rows(),
    {
        let ghost before = post_records(self.saved@);
        match find_post(&self.saved, id) {
            Some(i) => {
                proof {
                    lemma_position_of(before, id as int);
                }
                self.saved[i].engaged = engaged;
                assert(post_records(self.saved@) =~= with_engaged(before, id as int, engaged as int));
            },
            None => {
                proof {
                    lemma_position_of(before, id as int);
                }
                assert(before =~= with_engaged(before, id as int, engaged as int));
            },
        }
    }

    /// Removes every saved post. Search results and comments stay.
    pub fn clear_database(&mut self)
        requires
            old(self).wf(),
        ensures
            final(self).wf(),
            final(self).saved_rows() == Seq::<PostRecord>::empty(),
            final(self).search_rows() == old(self).search_rows(),
            final(self).comment_rows() == old(self).comment_rows(),
    {
        self.saved = Vec::new();
        assert(self.saved_rows() =~= Seq::<PostRecord>::empty());
    }

    /// Removes every stored comment. Saved posts and search results stay.
    pub fn clear_comments_database(&mut self)
        requires
            old(self).wf(),
        ensures
            final(self).wf(),
            final(self).comment_rows() == Seq::<CommentRecord>::empty(),
            final(self).saved_rows() == old(self).saved_rows(),
            final(self).search_rows() == old(self).search_rows(),
    {
        self.comments = Vec::new();
        assert(self.comment_rows() =~= Seq::<CommentRecord>::empty());
    }

    /// The saved posts in the order in which the store holds them.
    pub fn saved_posts(&self) -> (r: &Vec<PostDataWrapper>)
        ensures
            post_records(r@) == self.saved_rows(),
    {
        &self.saved
    }

    /// The results of the current search in the order in which the store
    /// holds them.
    pub fn searched_posts(&self) -> (r: &Vec<PostDataWrapper>)
        ensures
            post_records(r@) == self.search_rows(),
    {
        &self.current
    }

    /// The comments in the order in which the store holds them.
    pub fn stored_comments(&self) -> (r: &Vec<CommentDataWrapper>)
        ensures
            comment_records(r@) == self.comment_rows(),
    {
        &self.comments
    }
}

} // verus!
