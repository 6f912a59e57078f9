//! Readers over the store. Every reader hands its rows out by recency.

use vstd::prelude::*;
use crate::database::adding::{of_post, DB};
use crate::database::order::{
    by_recency, comment_time, comments_by_recency, keep, post_time, posts_by_recency,
};
use crate::database::records::{
    comment_records, post_records, CommentDataWrapper, PostDataWrapper, PostRecord,
};
use crate::text::{
    contains_text, decimal, decimal_text, is_substring, natural_text, texts,
};

verus! {

/// The post belongs to the community `name`.
pub open spec fn in_subreddit(name: Seq<char>) -> spec_fn(PostRecord) -> bool {
    |p: PostRecord| p.subreddit == name
}

/// The facet field of the post is exactly `field`.
pub open spec fn with_sort_type(field: Seq<char>) -> spec_fn(PostRecord) -> bool {
    |p: PostRecord| p.sort_type == field
}

/// The term occurs in the title, in the community or in the facet field of
/// the post, letter case observed.
pub open spec fn mentions(term: Seq<char>) -> spec_fn(PostRecord) -> bool {
    |p: PostRecord|
        is_substring(term, p.title) || is_substring(term, p.subreddit) || is_substring(
            term,
            p.sort_type,
        )
}

/// The first `limit` rows; all rows where `limit` is negative or no less than
/// their number.
pub open spec fn first_rows(rows: Seq<PostRecord>, limit: int) -> Seq<PostRecord> {
    if 0 <= limit < rows.len() {
        rows.take(limit)
    } else {
        rows
    }
}

/// The index of the entry for `key`.
pub open spec fn key_position(counts: Seq<(Seq<char>, int)>, key: Seq<char>) -> Option<int>
    decreases counts.len(),
{
    if counts.len() == 0 {
        None
    } else {
        match key_position(counts.drop_last(), key) {
            Some(i) => Some(i),
            None => if counts.last().0 == key {
                Some(counts.len() - 1)
            } else {
                None
            },
        }
    }
}

/// The counts after one more row with facet field `key` was seen.
pub open spec fn tally(counts: Seq<(Seq<char>, int)>, key: Seq<char>) -> Seq<(Seq<char>, int)> {
    match key_position(counts, key) {
        Some(i) => counts.update(i, (key, counts[i].1 + 1)),
        None => counts.push((key, 1)),
    }
}

/// For every facet field that occurs among the rows the number of rows that
/// have it, the fields in the order in which they first occur.
pub open spec fn facet_counts(rows: Seq<PostRecord>) -> Seq<(Seq<char>, int)>
    decreases rows.len(),
{
    if rows.len() == 0 {
        Seq::empty()
    } else {
        tally(facet_counts(rows.drop_last()), rows.last().sort_type)
    }
}

/// The counts as contracts see them.
pub open spec fn count_pairs(v: Seq<(String, usize)>) -> Seq<(Seq<char>, int)> {
    Seq::new(v.len(), |i: int| (v[i].0@, v[i].1 as int))
}

/// What `key_position` finds is the first entry for the key; where it finds
/// none, no entry has the key.
pub proof fn lemma_key_position(counts: Seq<(Seq<char>, int)>, key: Seq<char>)
    ensures
        match key_position(counts, key) {
            Some(i) => 0 <= i < counts.len() && counts[i].0 == key && forall|j: int|
                0 <= j < i ==> counts[j].0 != key,
            None => forall|j: int| 0 <= j < counts.len() ==> counts[j].0 != key,
        },
    decreases counts.len(),
{
    if counts.len() > 0 {
        lemma_key_position(counts.drop_last(), key);
        assert(forall|j: int| 0 <= j < counts.len() - 1 ==> counts.drop_last()[j] == counts[j]);
    }
}

/// No count exceeds the number of rows.
pub proof fn lemma_facet_counts_bounded(rows: Seq<PostRecord>)
    ensures
        forall|i: int|
            0 <= i < facet_counts(rows).len() ==> 1 <= (#[trigger] facet_counts(rows)[i]).1
                <= rows.len(),
    decreases rows.len(),
{
    if rows.len() > 0 {
        let init = facet_counts(rows.drop_last());
        lemma_facet_counts_bounded(rows.drop_last());
        lemma_key_position(init, rows.last().sort_type);
        let out = facet_counts(rows);
        assert forall|i: int| 0 <= i < out.len() implies 1 <= (#[trigger] out[i]).1
            <= rows.len() by {
            if i < init.len() {
                assert(1 <= init[i].1 <= rows.len() - 1);
            }
        }
    }
}

/// What a reader asks of a post.
pub enum PostFilter {
    Subreddit(String),
    SortType(String),
    Search(String),
}

impl PostFilter {
    /// The rows that the filter lets through.
    pub open spec fn wanted(self) -> spec_fn(PostRecord) -> bool {
        match self {
            PostFilter::Subreddit(name) => in_subreddit(name@),
            PostFilter::SortType(field) => with_sort_type(field@),
            PostFilter::Search(term) => mentions(term@),
        }
    }

    /// Whether the filter lets the post through.
    pub fn accepts(&self, post: &PostDataWrapper) -> (r: bool)
        ensures
            r == self.wanted()(post@),
    {
        match self {
            PostFilter::Subreddit(name) => post.subreddit == *name,
            PostFilter::SortType(field) => post.sort_type == *field,
            PostFilter::Search(term) => {
                contains_text(post.title.as_str(), term.as_str()) || contains_text(
                    post.subreddit.as_str(),
                    term.as_str(),
                ) || contains_text(post.sort_type.as_str(), term.as_str())
            },
        }
    }
}

/// The posts that the filter lets through, the most recent first.
pub fn select_posts(rows: &Vec<PostDataWrapper>, filter: &PostFilter) -> (r: Vec<PostDataWrapper>)
    ensures
        post_records(r@) == by_recency(keep(post_records(rows@), filter.wanted()), post_time()),
{
    let ghost all = post_records(rows@);
    let mut picked: Vec<PostDataWrapper> = Vec::new();
    let mut i: usize = 0;
    assert(all.take(0) =~= Seq::<PostRecord>::empty());
    assert(post_records(picked@) =~= Seq::<PostRecord>::empty());
    while i < rows.len()
        invariant
            i <= rows.len(),
            all == post_records(rows@),
            post_records(picked@) == keep(all.take(i as int), filter.wanted()),
        decreases rows.len() - i,
    {
        proof {
            assert(all.take(i + 1).drop_last() =~= all.take(i as int));
            assert(all.take(i + 1).last() == rows@[i as int]@);
        }
        if filter.accepts(&rows[i]) {
            let ghost kept = post_records(picked@);
            picked.push(rows[i].clone());
            assert(post_records(picked@) =~= kept.push(rows@[i as int]@));
        }
        i += 1;
    }
    assert(all.take(i as int) =~= all);
    posts_by_recency(&picked)
}

/// The index of the entry for `key`.
fn find_key(counts: &Vec<(String, usize)>, key: &String) -> (r: Option<usize>)
    ensures
        match r {
            Some(i) => i < counts.len() && key_position(count_pairs(counts@), key@) == Some(
                i as int,
            ),
            None => key_position(count_pairs(counts@), key@).is_none(),
        },
{
    let mut i: usize = 0;
    while i < counts.len()
        invariant
            i <= counts.len(),
            forall|j: int| 0 <= j < i ==> count_pairs(counts@)[j].0 != key@,
        decreases counts.len() - i,
    {
        if counts[i].0 == *key {
            proof {
                assert(count_pairs(counts@)[i as int].0 == key@);
                lemma_key_position(count_pairs(counts@), key@);
            }
            return Some(i);
        }
        assert(count_pairs(counts@)[i as int].0 != key@);
        i += 1;
    }
    proof {
        lemma_key_position(count_pairs(counts@), key@);
    }
    None
}

/// The lines that describe the post with number `number` of a list: what it
/// is, where it is, when it was made, and an empty line.
pub open spec fn post_lines(number: int, p: PostRecord) -> Seq<Seq<char>> {
    seq![
        decimal(number) + ". ["@ + p.sort_type + "] "@ + p.title + " - r/"@ + p.subreddit,
        "   URL: "@ + p.url,
        "   Date: "@ + p.formatted_date,
        ""@,
    ]
}

/// The lines that describe a list of posts, numbered from one.
pub open spec fn list_lines(rows: Seq<PostRecord>) -> Seq<Seq<char>>
    decreases rows.len(),
{
    if rows.len() == 0 {
        Seq::empty()
    } else {
        list_lines(rows.drop_last()) + post_lines(rows.len() as int, rows.last())
    }
}

/// The lines that describe a list of posts under a heading.
pub fn describe_posts(heading: String, posts: &Vec<PostDataWrapper>) -> (r: Vec<String>)
    ensures
        texts(r@) == seq![heading@] + list_lines(post_records(posts@)),
{
    let ghost rows = post_records(posts@);
    let ghost first = heading@;
    let mut out: Vec<String> = Vec::new();
    out.push(heading);
    let mut i: usize = 0;
    assert(rows.take(0) =~= Seq::<PostRecord>::empty());
    assert(texts(out@) =~= seq![first] + list_lines(rows.take(0)));
    while i < posts.len()
        invariant
            i <= posts.len(),
            rows == post_records(posts@),
            texts(out@) == seq![first] + list_lines(rows.take(i as int)),
        decreases posts.len() - i,
    {
        proof {
            assert(rows.take(i + 1).drop_last() =~= rows.take(i as int));
            assert(rows.take(i + 1).last() == posts@[i as int]@);
        }
        let ghost so_far = texts(out@);
        let post = &posts[i];
        let number = natural_text((i + 1) as u64);
        out.push(
            number.concat(". [").concat(post.sort_type.as_str()).concat("] ").concat(
                post.title.as_str(),
            ).concat(" - r/").concat(post.subreddit.as_str()),
        );
        out.push("   URL: ".to_owned().concat(post.url.as_str()));
        out.push("   Date: ".to_owned().concat(post.formatted_date.as_str()));
        out.push("".to_owned());
        assert(texts(out@) =~= so_far + post_lines(i + 1, posts@[i as int]@));
        assert(texts(out@) =~= seq![first] + list_lines(rows.take(i + 1)));
        i += 1;
    }
    assert(rows.take(i as int) =~= rows);
    out
}

/// The reader of the store.
pub struct DBReader;

impl DBReader {
    /// A reader. It holds nothing of its own: every reading names the store
    /// that is read.
    pub fn new() -> (r: Self)
        ensures
            r == DBReader,
    {
        DBReader
    }

    /// For every facet field among the saved posts the number of posts that
    /// have exactly that field.
    pub fn get_posts_by_relevance(&self, db: &DB) -> (r: Vec<(String, usize)>)
        ensures
            count_pairs(r@) == facet_counts(db.saved_rows()),
    {
        let rows = db.saved_posts();
        let ghost all = post_records(rows@);
        let mut counts: Vec<(String, usize)> = Vec::new();
        let mut i: usize = 0;
        assert(all.take(0) =~= Seq::<PostRecord>::empty());
        assert(count_pairs(counts@) =~= Seq::<(Seq<char>, int)>::empty());
        while i < rows.len()
            invariant
                i <= rows.len(),
                all == post_records(rows@),
                count_pairs(counts@) == facet_counts(all.take(i as int)),
            decreases rows.len() - i,
        {
            proof {
                assert(all.take(i + 1).drop_last() =~= all.take(i as int));
                assert(all.take(i + 1).last() == rows@[i as int]@);
                lemma_facet_counts_bounded(all.take(i as int));
            }
            let ghost so_far = count_pairs(counts@);
            match find_key(&counts, &rows[i].sort_type) {
                Some(k) => {
                    proof {
                        lemma_key_position(so_far, rows@[i as int]@.sort_type);
                        assert(so_far[k as int].1 <= i);
                    }
                    let n = counts[k].1;
                    counts[k].1 = n + 1;
                    assert(count_pairs(counts@)[k as int] == (
                        rows@[i as int]@.sort_type,
                        so_far[k as int].1 + 1,
                    ));
                    assert(count_pairs(counts@) =~= tally(so_far, rows@[i as int]@.sort_type));
                },
                None => {
                    counts.push((rows[i].sort_type.clone(), 1));
                    assert(count_pairs(counts@) =~= tally(so_far, rows@[i as int]@.sort_type));
                },
            }
            i += 1;
        }
        assert(all.take(i as int) =~= all);
        counts
    }

    /// All saved posts, the most recent first.
    pub fn get_all_posts(&self, db: &DB) -> (r: Vec<PostDataWrapper>)
        ensures
            post_records(r@) == by_recency(db.saved_rows(), post_time()),
    {
        posts_by_recency(db.saved_posts())
    }

    /// All results of the current search, the most recent first.
    pub fn get_all_searched_posts(&self, db: &DB) -> (r: Vec<PostDataWrapper>)
        ensures
            post_records(r@) == by_recency(db.search_rows(), post_time()),
    {
        posts_by_recency(db.searched_posts())
    }

    /// The `limit` most recent saved posts, the most recent first; all of
    /// them where `limit` is negative.
    pub fn get_recent_posts(&self, db: &DB, limit: i64) -> (r: Vec<PostDataWrapper>)
        ensures
            post_records(r@) == first_rows(by_recency(db.saved_rows(), post_time()), limit as int),
    {
        let mut all = posts_by_recency(db.saved_posts());
        let ghost sorted = post_records(all@);
        if limit >= 0 && (limit as u64) < (all.len() as u64) {
            all.truncate(limit as usize);
            assert(post_records(all@) =~= sorted.take(limit as int));
        }
        all
    }

    /// The saved posts of one community, the most recent first.
    pub fn get_posts_by_subreddit(&self, db: &DB, subreddit: &str) -> (r: Vec<PostDataWrapper>)
        ensures
            post_records(r@) == by_recency(
                keep(db.saved_rows(), in_subreddit(subreddit@)),
                post_time(),
            ),
    {
        select_posts(db.saved_posts(), &PostFilter::Subreddit(subreddit.to_owned()))
    }

    /// The saved posts whose facet field is exactly `sort_type`, the most
    /// recent first.
    pub fn get_posts_by_sort_type(&self, db: &DB, sort_type: &str) -> (r: Vec<PostDataWrapper>)
        ensures
            post_records(r@) == by_recency(
                keep(db.saved_rows(), with_sort_type(sort_type@)),
                post_time(),
            ),
    {
        select_posts(db.saved_posts(), &PostFilter::SortType(sort_type.to_owned()))
    }

    /// The saved posts that mention `search_term` in their title, their
    /// community or their facet field, the most recent first.
    pub fn search_posts(&self, db: &DB, search_term: &str) -> (r: Vec<PostDataWrapper>)
        ensures
            post_records(r@) == by_recency(
                keep(db.saved_rows(), mentions(search_term@)),
                post_time(),
            ),
    {
        select_posts(db.saved_posts(), &PostFilter::Search(search_term.to_owned()))
    }

    /// The comments of one post, the most recent first.
    pub fn get_post_comments(&self, db: &DB, post_id: &str) -> (r: Vec<CommentDataWrapper>)
        ensures
            comment_records(r@) == by_recency(
                keep(db.comment_rows(), of_post(post_id@)),
                comment_time(),
            ),
    {
        db.get_post_comments(post_id)
    }

    /// The lines that show the `limit` most recent saved posts.
    pub fn display_recent_posts(&self, db: &DB, limit: i64) -> (r: Vec<String>)
        ensures
            texts(r@) == seq!["=== MOST RECENT "@ + decimal(limit as int) + " POSTS ==="@]
                + list_lines(first_rows(by_recency(db.saved_rows(), post_time()), limit as int)),
    {
        let posts = self.get_recent_posts(db, limit);
        let heading = "=== MOST RECENT ".to_owned().concat(decimal_text(limit).as_str()).concat(
            " POSTS ===",
        );
        describe_posts(heading, &posts)
    }

    /// The lines that show all saved posts.
    pub fn display_all_posts(&self, db: &DB) -> (r: Vec<String>)
        ensures
            texts(r@) == seq![
                "=== ALL POSTS IN DATABASE ("@ + decimal(db.saved_rows().len() as int)
                    + " total) ==="@,
            ] + list_lines(by_recency(db.saved_rows(), post_time())),
    {
        let posts = self.get_all_posts(db);
        proof {
            crate::database::order::lemma_by_recency(db.saved_rows(), post_time());
        }
        let heading = "=== ALL POSTS IN DATABASE (".to_owned().concat(
            natural_text(posts.len() as u64).as_str(),
        ).concat(" total) ===");
        describe_posts(heading, &posts)
    }

    /// All comments, the most recent first.
    pub fn get_all_comments(&self, db: &DB) -> (r: Vec<CommentDataWrapper>)
        ensures
            comment_records(r@) == by_recency(db.comment_rows(), comment_time()),
    {
        comments_by_recency(db.stored_comments())
    }
}

} // verus!
