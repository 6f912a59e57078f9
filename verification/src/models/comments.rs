//! Fetching the comments of a post: what is asked for, and what the answer
//! comes to.

use vstd::prelude::*;
use crate::database::adding::{add_comments, DB};
use crate::database::records::{
    comment_records, opt_text, CommentDataWrapper, CommentRecord,
};
use crate::models::flatten::{all_dated, flat_all, flatten};
use crate::models::search::{
    comments_address, comments_url, extract_post_id_from_url, extract_subreddit_from_url,
    first_group, found_post_id, post_id_pattern, subreddit_in_url, undated_message,
    FetchContext, RedditComment, RedditError,
};

verus! {

/// What a fetch of comments starts with.
#[derive(Debug)]
pub enum CommentFetch {
    /// The address names no post; nothing is fetched.
    NoPostId,
    /// The comment tree of `post_id` is fetched from `api_url`.
    Fetch { post_id: String, subreddit: String, api_url: String },
}

/// The community that an address names, `unknown` where it names none.
pub open spec fn community_or_unknown(url: Seq<char>) -> Seq<char> {
    match subreddit_in_url(url) {
        Some(name) => name,
        None => "unknown"@,
    }
}

/// The plan of a fetch, given the identifier that was found in the address:
/// no fetch without an identifier; else the fetch of that post, for the
/// community that the address names, from the address of its comment tree.
pub fn comment_fetch_for(post_id: Option<String>, url: &str, sort_type: &str) -> (r: CommentFetch)
    ensures
        match post_id {
            None => r is NoPostId,
            Some(id) => match r {
                CommentFetch::NoPostId => false,
                CommentFetch::Fetch { post_id, subreddit, api_url } => post_id@ == id@
                    && subreddit@ == community_or_unknown(url@) && api_url@ == comments_address(
                    id@,
                    sort_type@,
                ),
            },
        },
{
    match post_id {
        None => CommentFetch::NoPostId,
        Some(post_id) => {
            let subreddit = match extract_subreddit_from_url(url) {
                Some(name) => name,
                None => "unknown".to_owned(),
            };
            let api_url = comments_url(post_id.as_str(), sort_type);
            CommentFetch::Fetch { post_id, subreddit, api_url }
        },
    }
}

/// Plans the fetch of the comments of the post that `url` names, under the
/// comment sort `sort_type`.
pub fn plan_comment_fetch(url: &str, sort_type: &str) -> (r: CommentFetch)
    ensures
        match found_post_id(first_group(post_id_pattern(), url@)) {
            None => r is NoPostId,
            Some(id) => match r {
                CommentFetch::NoPostId => false,
                CommentFetch::Fetch { post_id, subreddit, api_url } => post_id@ == id
                    && subreddit@ == community_or_unknown(url@) && api_url@ == comments_address(
                    id,
                    sort_type@,
                ),
            },
        },
{
    comment_fetch_for(extract_post_id_from_url(url), url, sort_type)
}

/// The record that stands for a fetch that could not start because the
/// address names no post.
pub open spec fn extraction_notice() -> CommentRecord {
    CommentRecord {
        id: "error"@,
        post_id: "error"@,
        body: "Failed to extract post ID from URL"@,
        author: "system"@,
        timestamp: 0,
        formatted_date: "1970-01-01 00:00:00"@,
        score: 0,
        permalink: ""@,
        parent_id: ""@,
        subreddit: ""@,
        post_title: ""@,
        engaged: 0,
        assignee: ""@,
        notes: ""@,
    }
}

/// The comment that is handed out in place of the comments of a post when
/// the address names no post.
pub fn extraction_failed_comment() -> (r: CommentDataWrapper)
    ensures
        r@ == extraction_notice(),
{
    CommentDataWrapper {
        id: "error".to_owned(),
        post_id: "error".to_owned(),
        body: "Failed to extract post ID from URL".to_owned(),
        author: "system".to_owned(),
        timestamp: 0,
        formatted_date: "1970-01-01 00:00:00".to_owned(),
        score: 0,
        permalink: "".to_owned(),
        parent_id: "".to_owned(),
        subreddit: "".to_owned(),
        post_title: "".to_owned(),
        engaged: 0,
        assignee: "".to_owned(),
        notes: "".to_owned(),
    }
}

/// The error of an answer whose status lies outside the 2xx range; `None` for
/// an answer that reports success.
pub fn http_failure(status: u16, body: &str) -> (r: Option<RedditError>)
    ensures
        match r {
            Some(e) => !(200 <= status < 300) && e.is_http_error(status, body@),
            None => 200 <= status < 300,
        },
{
    if status < 200 || status >= 300 {
        Some(RedditError::HttpError(status, body.to_owned()))
    } else {
        None
    }
}

/// The comments that the answer of the comment endpoint comes to. The answer
/// is a list of listings, of which the second holds the comments: with fewer
/// than two listings there are no comments; a second listing that could not
/// be read gives `ParseError` with the reader's message; else the comments
/// are the flattened tree.
pub fn comments_from_response(
    listings: usize,
    second: Result<Vec<RedditComment>, String>,
    post_id: &str,
    subreddit: &str,
    post_title: &str,
) -> (r: Result<Vec<CommentDataWrapper>, RedditError>)
    ensures
        ({
            let ctx = FetchContext {
                post_id: post_id@,
                subreddit: subreddit@,
                post_title: post_title@,
            };
            if listings < 2 {
                r is Ok && r->Ok_0@.len() == 0
            } else {
                match second {
                    Err(message) => r is Err && r->Err_0.is_parse_error(message@),
                    Ok(children) => match r {
                        Ok(v) => all_dated(children@) && comment_records(v@) == flat_all(
                            children@,
                            ctx,
                        ),
                        Err(e) => !all_dated(children@) && e.is_parse_error(undated_message()),
                    },
                }
            }
        }),
{
    if listings < 2 {
        return Ok(Vec::new());
    }
    match second {
        Err(message) => Err(RedditError::ParseError(message)),
        Ok(children) => flatten(&children, post_id, subreddit, post_title),
    }
}

/// Ends a fetch of comments: what the answer comes to is stored, each comment
/// unless one with its identifier is stored already, and handed out. Where the
/// answer comes to an error the store stays as it is.
pub fn finish_comment_fetch(
    db: &mut DB,
    listings: usize,
    second: Result<Vec<RedditComment>, String>,
    post_id: &str,
    subreddit: &str,
    post_title: &str,
) -> (r: Result<Vec<CommentDataWrapper>, RedditError>)
    requires
        old(db).wf(),
    ensures
        final(db).wf(),
        final(db).saved_rows() == old(db).saved_rows(),
        final(db).search_rows() == old(db).search_rows(),
        ({
            let ctx = FetchContext {
                post_id: post_id@,
                subreddit: subreddit@,
                post_title: post_title@,
            };
            if listings < 2 {
                r is Ok && r->Ok_0@.len() == 0 && final(db).comment_rows() == old(db).comment_rows()
            } else {
                match second {
                    Err(message) => r is Err && r->Err_0.is_parse_error(message@) && final(db).comment_rows() == old(db).comment_rows(),
                    Ok(children) => match r {
                        Ok(v) => all_dated(children@) && comment_records(v@) == flat_all(
                            children@,
                            ctx,
                        ) && final(db).comment_rows() == add_comments(
                            old(db).comment_rows(),
                            flat_all(children@, ctx),
                        ),
                        Err(e) => !all_dated(children@) && e.is_parse_error(undated_message())
                            && final(db).comment_rows() == old(db).comment_rows(),
                    },
                }
            }
        }),
{
    match comments_from_response(listings, second, post_id, subreddit, post_title) {
        Ok(comments) => {
            assert(comments@.len() == 0 ==> comment_records(comments@) =~= Seq::<
                CommentRecord,
            >::empty());
            db.append_comments(comments.as_slice());
            Ok(comments)
        },
        Err(e) => Err(e),
    }
}

} // verus!
