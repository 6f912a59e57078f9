//! The canonical records: a post and a comment as the store holds them, and
//! the mathematical values that contracts speak of.

use vstd::prelude::*;

verus! {

/// A post as contracts see it: every text as its sequence of characters, every
/// number as an integer.
pub struct PostRecord {
    pub id: int,
    pub timestamp: int,
    pub formatted_date: Seq<char>,
    pub title: Seq<char>,
    pub url: Seq<char>,
    pub sort_type: Seq<char>,
    pub relevance_score: int,
    pub subreddit: Seq<char>,
    pub permalink: Seq<char>,
    pub engaged: int,
    pub assignee: Seq<char>,
    pub notes: Seq<char>,
    pub name: Seq<char>,
    pub selftext: Option<Seq<char>>,
    pub author: Seq<char>,
    pub score: int,
    pub thumbnail: Option<Seq<char>>,
    pub is_self: bool,
    pub num_comments: int,
    pub intent: Seq<char>,
}

/// A comment as contracts see it.
pub struct CommentRecord {
    pub id: Seq<char>,
    pub post_id: Seq<char>,
    pub body: Seq<char>,
    pub author: Seq<char>,
    pub timestamp: int,
    pub formatted_date: Seq<char>,
    pub score: int,
    pub permalink: Seq<char>,
    pub parent_id: Seq<char>,
    pub subreddit: Seq<char>,
    pub post_title: Seq<char>,
    pub engaged: int,
    pub assignee: Seq<char>,
    pub notes: Seq<char>,
}

/// The characters of an optional text.
pub open spec fn opt_text(o: Option<String>) -> Option<Seq<char>> {
    match o {
        Some(s) => Some(s@),
        None => None,
    }
}

/// A copy of an optional text.
pub fn copy_opt_text(o: &Option<String>) -> (r: Option<String>)
    ensures
        opt_text(r) == opt_text(*o),
{
    match o {
        Some(s) => Some(s.clone()),
        None => None,
    }
}

/// A post. `sort_type` holds the comma-joined facets under which the post was
/// seen; `notes`, `assignee` and `engaged` belong to the user and change only
/// through the store's update operations.
#[derive(Debug, PartialEq, Eq)]
pub struct PostDataWrapper {
    pub id: i64,
    pub timestamp: i64,
    pub formatted_date: String,
    pub title: String,
    pub url: String,
    pub sort_type: String,
    pub relevance_score: i64,
    pub subreddit: String,
    pub permalink: String,
    pub engaged: i64,
    pub assignee: String,
    pub notes: String,
    pub name: String,
    pub selftext: Option<String>,
    pub author: String,
    pub score: i64,
    pub thumbnail: Option<String>,
    pub is_self: bool,
    pub num_comments: i64,
    pub intent: String,
}

impl View for PostDataWrapper {
    type V = PostRecord;

    open spec fn view(&self) -> PostRecord {
        PostRecord {
            id: self.id as int,
            timestamp: self.timestamp as int,
            formatted_date: self.formatted_date@,
            title: self.title@,
            url: self.url@,
            sort_type: self.sort_type@,
            relevance_score: self.relevance_score as int,
            subreddit: self.subreddit@,
            permalink: self.permalink@,
            engaged: self.engaged as int,
            assignee: self.assignee@,
            notes: self.notes@,
            name: self.name@,
            selftext: opt_text(self.selftext),
            author: self.author@,
            score: self.score as int,
            thumbnail: opt_text(self.thumbnail),
            is_self: self.is_self,
            num_comments: self.num_comments as int,
            intent: self.intent@,
        }
    }
}

impl Clone for PostDataWrapper {
    fn clone(&self) -> (r: Self)
        ensures
            r@ == self@,
    {
        PostDataWrapper {
            id: self.id,
            timestamp: self.timestamp,
            formatted_date: self.formatted_date.clone(),
            title: self.title.clone(),
            url: self.url.clone(),
            sort_type: self.sort_type.clone(),
            relevance_score: self.relevance_score,
            subreddit: self.subreddit.clone(),
            permalink: self.permalink.clone(),
            engaged: self.engaged,
            assignee: self.assignee.clone(),
            notes: self.notes.clone(),
            name: self.name.clone(),
            selftext: copy_opt_text(&self.selftext),
            author: self.author.clone(),
            score: self.score,
            thumbnail: copy_opt_text(&self.thumbnail),
            is_self: self.is_self,
            num_comments: self.num_comments,
            intent: self.intent.clone(),
        }
    }
}

/// A comment. `post_id` is the identifier that the fetch resolved, not one
/// taken from the comment's own payload.
#[derive(Debug, PartialEq, Eq)]
pub struct CommentDataWrapper {
    pub id: String,
    pub post_id: String,
    pub body: String,
    pub author: String,
    pub timestamp: i64,
    pub formatted_date: String,
    pub score: i32,
    pub permalink: String,
    pub parent_id: String,
    pub subreddit: String,
    pub post_title: String,
    pub engaged: i64,
    pub assignee: String,
    pub notes: String,
}

impl View for CommentDataWrapper {
    type V = CommentRecord;

    open spec fn view(&self) -> CommentRecord {
        CommentRecord {
            id: self.id@,
            post_id: self.post_id@,
            body: self.body@,
            author: self.author@,
            timestamp: self.timestamp as int,
            formatted_date: self.formatted_date@,
            score: self.score as int,
            permalink: self.permalink@,
            parent_id: self.parent_id@,
            subreddit: self.subreddit@,
            post_title: self.post_title@,
            engaged: self.engaged as int,
            assignee: self.assignee@,
            notes: self.notes@,
        }
    }
}

impl Clone for CommentDataWrapper {
    fn clone(&self) -> (r: Self)
        ensures
            r@ == self@,
    {
        CommentDataWrapper {
            id: self.id.clone(),
            post_id: self.post_id.clone(),
            body: self.body.clone(),
            author: self.author.clone(),
            timestamp: self.timestamp,
            formatted_date: self.formatted_date.clone(),
            score: self.score,
            permalink: self.permalink.clone(),
            parent_id: self.parent_id.clone(),
            subreddit: self.subreddit.clone(),
            post_title: self.post_title.clone(),
            engaged: self.engaged,
            assignee: self.assignee.clone(),
            notes: self.notes.clone(),
        }
    }
}

/// The records of a list of posts, in the same order.
pub open spec fn post_records(v: Seq<PostDataWrapper>) -> Seq<PostRecord> {
    Seq::new(v.len(), |i: int| v[i]@)
}

/// The records of a list of comments, in the same order.
pub open spec fn comment_records(v: Seq<CommentDataWrapper>) -> Seq<CommentRecord> {
    Seq::new(v.len(), |i: int| v[i]@)
}

/// A copy of a list of posts.
pub fn copy_posts(posts: &[PostDataWrapper]) -> (r: Vec<PostDataWrapper>)
    ensures
        post_records(r@) == post_records(posts@),
{
    let mut out: Vec<PostDataWrapper> = Vec::new();
    let mut i: usize = 0;
    while i < posts.len()
        invariant
            i <= posts.len(),
            out.len() == i,
            forall|j: int| 0 <= j < i ==> (#[trigger] out@[j])@ == posts@[j]@,
        decreases posts.len() - i,
    {
        out.push(posts[i].clone());
        i += 1;
    }
    assert(post_records(out@) =~= post_records(posts@));
    out
}

/// A copy of a list of comments.
pub fn copy_comments(comments: &[CommentDataWrapper]) -> (r: Vec<CommentDataWrapper>)
    ensures
        comment_records(r@) == comment_records(comments@),
{
    let mut out: Vec<CommentDataWrapper> = Vec::new();
    let mut i: usize = 0;
    while i < comments.len()
        invariant
            i <= comments.len(),
            out.len() == i,
            forall|j: int| 0 <= j < i ==> (#[trigger] out@[j])@ == comments@[j]@,
        decreases comments.len() - i,
    {
        out.push(comments[i].clone());
        i += 1;
    }
    assert(comment_records(out@) =~= comment_records(comments@));
    out
}

/// The least index at which a row with identity `id` stands.
pub open spec fn position_of(rows: Seq<PostRecord>, id: int) -> Option<int>
    decreases rows.len(),
{
    if rows.len() == 0 {
        None
    } else {
        match position_of(rows.drop_last(), id) {
            Some(i) => Some(i),
            None => if rows.last().id == id {
                Some(rows.len() - 1)
            } else {
                None
            },
        }
    }
}

/// No two rows have the same identity.
pub open spec fn distinct_ids(rows: Seq<PostRecord>) -> bool {
    forall|i: int, j: int|
        0 <= i < rows.len() && 0 <= j < rows.len() && i != j ==> (#[trigger] rows[i]).id != (
        #[trigger] rows[j]).id
}

/// What `position_of` finds is the first row with the identity; where it
/// finds none, no row has it.
pub proof fn lemma_position_of(rows: Seq<PostRecord>, id: int)
    ensures
        match position_of(rows, id) {
            Some(i) => 0 <= i < rows.len() && rows[i].id == id && forall|j: int|
                0 <= j < i ==> rows[j].id != id,
            None => forall|j: int| 0 <= j < rows.len() ==> rows[j].id != id,
        },
    decreases rows.len(),
{
    if rows.len() > 0 {
        lemma_position_of(rows.drop_last(), id);
        assert(forall|j: int| 0 <= j < rows.len() - 1 ==> rows.drop_last()[j] == rows[j]);
    }
}

/// The index of the row with identity `id`.
pub fn find_post(rows: &Vec<PostDataWrapper>, id: i64) -> (r: Option<usize>)
    ensures
        match r {
            Some(i) => i < rows.len() && position_of(post_records(rows@), id as int) == Some(
                i as int,
            ),
            None => position_of(post_records(rows@), id as int).is_none(),
        },
{
    let mut i: usize = 0;
    while i < rows.len()
        invariant
            i <= rows.len(),
            forall|j: int| 0 <= j < i ==> post_records(rows@)[j].id != id,
        decreases rows.len() - i,
    {
        if rows[i].id == id {
            proof {
                assert(post_records(rows@)[i as int].id == id);
                lemma_position_of(post_records(rows@), id as int);
            }
            return Some(i);
        }
        assert(post_records(rows@)[i as int].id != id);
        i += 1;
    }
    proof {
        lemma_position_of(post_records(rows@), id as int);
    }
    None
}

} // verus!
