//! Raw items as the content API delivers them, their normal form, and the
//! flattening of a reply tree.

use vstd::prelude::*;
use crate::database::adding::{utc_text, DB};
use crate::database::order::{by_recency, post_time};
use crate::database::records::{
    comment_records, copy_opt_text, opt_text, post_records, CommentDataWrapper, CommentRecord,
    PostDataWrapper, PostRecord,
};
use crate::models::identity::{post_id_or_zero, post_identity};
use crate::settings::api_keys::{intent_subject, intent_tag, lowered, ApiKeys};
use crate::text::{
    chars_of, find_from, first_occurrence, lemma_first_occurrence, lowercase_text, slice_text,
    strip_leading, without_leading,
};

verus! {

/// Why an operation against the content API failed.
#[derive(Debug)]
pub enum RedditError {
    /// A credential is missing or still holds the placeholder of a fresh
    /// settings file. Not worth retrying before the user has acted.
    CredentialError(String),
    /// The remote party refused the application itself.
    AuthRejected(String),
    /// The request did not get through.
    TransportError(String),
    /// The token endpoint answered without a token.
    TokenExtraction,
    /// The remote party answered with a status outside the 2xx range.
    HttpError(u16, String),
    /// The answer had an unexpected shape.
    ParseError(String),
    /// The local store failed.
    PersistenceError(String),
}

impl RedditError {
    /// The error is a `ParseError` with the message `msg`.
    pub open spec fn is_parse_error(self, msg: Seq<char>) -> bool {
        match self {
            RedditError::ParseError(m) => m@ == msg,
            _ => false,
        }
    }

    /// The error is an `HttpError` with this status and body.
    pub open spec fn is_http_error(self, status: u16, body: Seq<char>) -> bool {
        match self {
            RedditError::HttpError(s, b) => s == status && b@ == body,
            _ => false,
        }
    }

    /// The error is a `CredentialError`.
    pub open spec fn is_credential_error(self) -> bool {
        self is CredentialError
    }
}

/// A link-type item. `created_utc` is in whole epoch seconds.
#[derive(Debug)]
pub struct RedditPost {
    pub id: String,
    pub title: String,
    pub url: String,
    pub created_utc: i64,
    pub subreddit: String,
    pub permalink: String,
    pub selftext: Option<String>,
    pub name: String,
    pub author: String,
    pub score: i64,
    pub thumbnail: Option<String>,
    pub is_self: bool,
    pub num_comments: i64,
}

/// What stands in the place of a comment's replies.
#[derive(Debug)]
pub enum Replies {
    /// The item names no replies.
    Absent,
    /// Something stands there that is no listing of comments.
    Malformed,
    /// The direct replies, in the order in which they were delivered.
    Listing(Vec<RedditComment>),
}

/// A comment-type item with its nested replies. `created_utc` is in whole
/// epoch seconds.
#[derive(Debug)]
pub struct RedditComment {
    pub id: String,
    pub body: String,
    pub author: String,
    pub created_utc: i64,
    pub score: i32,
    pub permalink: String,
    pub parent_id: String,
    pub replies: Replies,
}

/// A node of the comment tree that the comment endpoint delivers.
pub type CommentData = RedditComment;

/// An item of a listing: a post or a comment.
#[derive(Debug)]
pub enum RedditData {
    Post(RedditPost),
    Comment(RedditComment),
}

/// One entry of a listing.
#[derive(Debug)]
pub struct RedditListingChild {
    pub data: RedditData,
}

/// The items of a listing, and the cursor behind which the next page lies
/// where there is one.
#[derive(Debug)]
pub struct RedditListingData {
    pub children: Vec<RedditListingChild>,
    pub after: Option<String>,
}

/// A listing as the content API delivers it.
#[derive(Debug)]
pub struct RedditListing {
    pub data: RedditListingData,
}

/// What a fetch of comments knows of the post it was made for.
pub struct FetchContext {
    pub post_id: Seq<char>,
    pub subreddit: Seq<char>,
    pub post_title: Seq<char>,
}

/// The intent tag of a post under the pattern lists of `keys`.
pub open spec fn intent_of(keys: ApiKeys, title: Seq<char>, body: Option<Seq<char>>) -> Seq<char> {
    intent_tag(
        lowercase_text(intent_subject(title, body)),
        lowered(keys.intent_high@),
        lowered(keys.intent_medium@),
    )
}

/// The normal form of a link-type item seen under `facet`, given its date text
/// and its intent tag. The identity is the value of the item identifier, zero
/// where it cannot be read; the permalink is made absolute; the fields that
/// belong to the user start out empty.
pub open spec fn post_of(raw: RedditPost, facet: Seq<char>, date: Seq<char>, intent: Seq<char>)
    -> PostRecord {
    PostRecord {
        id: match post_identity(raw.id@) {
            Some(v) => v,
            None => 0,
        },
        timestamp: raw.created_utc as int,
        formatted_date: date,
        title: raw.title@,
        url: raw.url@,
        sort_type: facet,
        relevance_score: 0,
        subreddit: raw.subreddit@,
        permalink: "https://reddit.com"@ + raw.permalink@,
        engaged: 0,
        assignee: ""@,
        notes: ""@,
        name: raw.name@,
        selftext: opt_text(raw.selftext),
        author: raw.author@,
        score: raw.score as int,
        thumbnail: opt_text(raw.thumbnail),
        is_self: raw.is_self,
        num_comments: raw.num_comments as int,
        intent: intent,
    }
}

/// The record of one comment under a fetch context, given its date text. The
/// post it belongs to is the one the context names.
pub open spec fn comment_of(raw: RedditComment, ctx: FetchContext, date: Seq<char>)
    -> CommentRecord {
    CommentRecord {
        id: raw.id@,
        post_id: ctx.post_id,
        body: raw.body@,
        author: raw.author@,
        timestamp: raw.created_utc as int,
        formatted_date: date,
        score: raw.score as int,
        permalink: raw.permalink@,
        parent_id: raw.parent_id@,
        subreddit: ctx.subreddit,
        post_title: ctx.post_title,
        engaged: 0,
        assignee: ""@,
        notes: ""@,
    }
}

/// Builds the normal form of a link-type item from its parts.
pub fn post_from_parts(raw: &RedditPost, facet: &str, formatted_date: String, intent: String) -> (r:
    PostDataWrapper)
    ensures
        r@ == post_of(*raw, facet@, formatted_date@, intent@),
{
    PostDataWrapper {
        id: post_id_or_zero(raw.id.as_str()),
        timestamp: raw.created_utc,
        formatted_date,
        title: raw.title.clone(),
        url: raw.url.clone(),
        sort_type: facet.to_owned(),
        relevance_score: 0,
        subreddit: raw.subreddit.clone(),
        permalink: "https://reddit.com".to_owned().concat(raw.permalink.as_str()),
        engaged: 0,
        assignee: "".to_owned(),
        notes: "".to_owned(),
        name: raw.name.clone(),
        selftext: copy_opt_text(&raw.selftext),
        author: raw.author.clone(),
        score: raw.score,
        thumbnail: copy_opt_text(&raw.thumbnail),
        is_self: raw.is_self,
        num_comments: raw.num_comments,
        intent,
    }
}

/// Builds the record of one comment from its parts.
pub fn comment_from_parts(
    raw: &RedditComment,
    post_id: &str,
    subreddit: &str,
    post_title: &str,
    formatted_date: String,
) -> (r: CommentDataWrapper)
    ensures
        r@ == comment_of(
            *raw,
            FetchContext { post_id: post_id@, subreddit: subreddit@, post_title: post_title@ },
            formatted_date@,
        ),
{
    CommentDataWrapper {
        id: raw.id.clone(),
        post_id: post_id.to_owned(),
        body: raw.body.clone(),
        author: raw.author.clone(),
        timestamp: raw.created_utc,
        formatted_date,
        score: raw.score,
        permalink: raw.permalink.clone(),
        parent_id: raw.parent_id.clone(),
        subreddit: subreddit.to_owned(),
        post_title: post_title.to_owned(),
        engaged: 0,
        assignee: "".to_owned(),
        notes: "".to_owned(),
    }
}

/// The message of the error that an instant outside the calendar gives.
pub open spec fn undated_message() -> Seq<char> {
    "Invalid timestamp"@
}

/// Brings a link-type item into its normal form under `facet`. Fails with
/// `ParseError` exactly when the item's instant lies outside the calendar.
pub fn normalize_post(raw: &RedditPost, facet: &str, keys: &ApiKeys) -> (r: Result<
    PostDataWrapper,
    RedditError,
>)
    ensures
        match r {
            Ok(p) => utc_text(raw.created_utc as int) is Some && p@ == post_of(
                *raw,
                facet@,
                utc_text(raw.created_utc as int)->0,
                intent_of(*keys, raw.title@, opt_text(raw.selftext)),
            ),
            Err(e) => utc_text(raw.created_utc as int) is None && e.is_parse_error(
                undated_message(),
            ),
        },
{
    match DB::format_timestamp(raw.created_utc) {
        Some(date) => {
            let intent = match &raw.selftext {
                Some(body) => keys.calculate_intent(raw.title.as_str(), Some(body.as_str())),
                None => keys.calculate_intent(raw.title.as_str(), None),
            };
            Ok(post_from_parts(raw, facet, date, intent))
        },
        None => Err(RedditError::ParseError("Invalid timestamp".to_owned())),
    }
}

/// The posts of a listing under `facet`, in the order of the listing. Items
/// that are no posts are passed over.
pub open spec fn listing_posts(children: Seq<RedditListingChild>, facet: Seq<char>, keys: ApiKeys)
    -> Seq<PostRecord>
    decreases children.len(),
{
    if children.len() == 0 {
        Seq::empty()
    } else {
        let init = listing_posts(children.drop_last(), facet, keys);
        match children.last().data {
            RedditData::Post(raw) => init.push(
                post_of(
                    raw,
                    facet,
                    utc_text(raw.created_utc as int)->0,
                    intent_of(keys, raw.title@, opt_text(raw.selftext)),
                ),
            ),
            RedditData::Comment(_) => init,
        }
    }
}

/// Every post of the listing has an instant that the calendar can name.
pub open spec fn listing_dated(children: Seq<RedditListingChild>) -> bool
    decreases children.len(),
{
    if children.len() == 0 {
        true
    } else {
        listing_dated(children.drop_last()) && match children.last().data {
            RedditData::Post(raw) => utc_text(raw.created_utc as int) is Some,
            RedditData::Comment(_) => true,
        }
    }
}

/// A listing whose posts are all dated has only dated posts in each prefix.
pub proof fn lemma_listing_dated_prefix(children: Seq<RedditListingChild>, k: int)
    requires
        0 <= k <= children.len(),
        listing_dated(children),
    ensures
        listing_dated(children.take(k)),
    decreases children.len(),
{
    if k == children.len() {
        assert(children.take(k) =~= children);
    } else {
        lemma_listing_dated_prefix(children.drop_last(), k);
        assert(children.drop_last().take(k) =~= children.take(k));
    }
}

/// Brings the posts of a listing into their normal form under the facet that
/// the listing was asked for. Items of other types are passed over. Fails with
/// `ParseError` exactly when some post's instant lies outside the calendar.
pub fn posts_from_listing(listing: &RedditListing, sort_type: &str, keys: &ApiKeys) -> (r: Result<
    Vec<PostDataWrapper>,
    RedditError,
>)
    ensures
        match r {
            Ok(v) => listing_dated(listing.data.children@) && post_records(v@) == listing_posts(
                listing.data.children@,
                sort_type@,
                *keys,
            ),
            Err(e) => !listing_dated(listing.data.children@) && e.is_parse_error(
                undated_message(),
            ),
        },
{
    let children = &listing.data.children;
    let mut out: Vec<PostDataWrapper> = Vec::new();
    let mut i: usize = 0;
    assert(children@.take(0) =~= Seq::<RedditListingChild>::empty());
    assert(post_records(out@) =~= Seq::<PostRecord>::empty());
    while i < children.len()
        invariant
            i <= children.len(),
            children@ == listing.data.children@,
            listing_dated(children@.take(i as int)),
            post_records(out@) == listing_posts(children@.take(i as int), sort_type@, *keys),
        decreases children.len() - i,
    {
        proof {
            assert(children@.take(i + 1).drop_last() =~= children@.take(i as int));
            assert(children@.take(i + 1).last() == children@[i as int]);
            if listing_dated(children@) {
                lemma_listing_dated_prefix(children@, i + 1);
            }
        }
        match &children[i].data {
            RedditData::Post(raw) => {
                match normalize_post(raw, sort_type, keys) {
                    Ok(post) => {
                        let ghost so_far = post_records(out@);
                        out.push(post);
                        assert(post_records(out@) =~= so_far.push(post@));
                    },
                    Err(e) => {
                        proof {
                            if listing_dated(children@) {
                                assert(listing_dated(children@.take(i + 1)));
                                assert(utc_text(raw.created_utc as int) is Some);
                            }
                        }
                        return Err(e);
                    },
                }
            },
            RedditData::Comment(_) => {},
        }
        i += 1;
    }
    assert(children@.take(i as int) =~= children@);
    Ok(out)
}

/// An item in its normal form.
#[derive(Debug)]
pub enum Normalized {
    Post(PostDataWrapper),
    Comment(CommentDataWrapper),
}

/// Brings one item into its normal form: a link-type item becomes a post seen
/// under `facet`, a comment-type item becomes a comment of the post that the
/// fetch names, its replies aside. Fails with `ParseError` exactly when the
/// item's instant lies outside the calendar.
pub fn normalize(
    item: &RedditData,
    facet: &str,
    post_id: &str,
    subreddit: &str,
    post_title: &str,
    keys: &ApiKeys,
) -> (r: Result<Normalized, RedditError>)
    ensures
        match *item {
            RedditData::Post(raw) => match r {
                Ok(Normalized::Post(p)) => utc_text(raw.created_utc as int) is Some && p@
                    == post_of(
                    raw,
                    facet@,
                    utc_text(raw.created_utc as int)->0,
                    intent_of(*keys, raw.title@, opt_text(raw.selftext)),
                ),
                Ok(Normalized::Comment(_)) => false,
                Err(e) => utc_text(raw.created_utc as int) is None && e.is_parse_error(
                    undated_message(),
                ),
            },
            RedditData::Comment(raw) => match r {
                Ok(Normalized::Comment(c)) => utc_text(raw.created_utc as int) is Some && c@
                    == comment_of(
                    raw,
                    FetchContext {
                        post_id: post_id@,
                        subreddit: subreddit@,
                        post_title: post_title@,
                    },
                    utc_text(raw.created_utc as int)->0,
                ),
                Ok(Normalized::Post(_)) => false,
                Err(e) => utc_text(raw.created_utc as int) is None && e.is_parse_error(
                    undated_message(),
                ),
            },
        },
{
    match item {
        RedditData::Post(raw) => match normalize_post(raw, facet, keys) {
            Ok(post) => Ok(Normalized::Post(post)),
            Err(e) => Err(e),
        },
        RedditData::Comment(raw) => match DB::format_timestamp(raw.created_utc) {
            Some(date) => Ok(
                Normalized::Comment(comment_from_parts(raw, post_id, subreddit, post_title, date)),
            ),
            None => Err(RedditError::ParseError("Invalid timestamp".to_owned())),
        },
    }
}

/// The saved posts as the application shows them when it starts.
pub struct AppState {
    pub data: Vec<PostDataWrapper>,
}

impl AppState {
    /// The saved posts of the store, the most recent first.
    pub fn new(db: &DB) -> (r: Self)
        ensures
            post_records(r.data@) == by_recency(db.saved_rows(), post_time()),
    {
        AppState { data: db.get_db_results() }
    }
}

/// The address of the listing of a community under a sort facet. The name of
/// the community is taken without the `r/` in front of it, however often it
/// stands there.
pub open spec fn listing_address(subreddit: Seq<char>, sort_type: Seq<char>) -> Seq<char> {
    "https://oauth.reddit.com/r/"@ + without_leading(subreddit, "r/"@) + "/"@ + sort_type
        + "?limit=100"@
}

/// The address of a full-text search under a sort facet, from the cursor on
/// where one is given.
pub open spec fn search_address(query: Seq<char>, sort_type: Seq<char>, after: Option<Seq<char>>)
    -> Seq<char> {
    let first = "https://oauth.reddit.com/search?q=\""@ + query + "\"&sort="@ + sort_type
        + "&limit=100&t=all"@;
    match after {
        Some(cursor) => first + "&after="@ + cursor,
        None => first,
    }
}

/// The address of the comment tree of a post under a comment sort.
pub open spec fn comments_address(post_id: Seq<char>, sort_type: Seq<char>) -> Seq<char> {
    "https://oauth.reddit.com/comments/"@ + post_id + "?sort="@ + sort_type + "&limit=500"@
}

/// The address from which the posts of a community are fetched.
pub fn listing_url(subreddit: &str, sort_type: &str) -> (r: String)
    ensures
        r@ == listing_address(subreddit@, sort_type@),
{
    let name = strip_leading(subreddit, "r/");
    "https://oauth.reddit.com/r/".to_owned().concat(name.as_str()).concat("/").concat(
        sort_type,
    ).concat("?limit=100")
}

/// The address from which the results of a full-text search are fetched; with
/// a cursor, the page behind that cursor.
pub fn search_url(query: &str, sort_type: &str, after: Option<&str>) -> (r: String)
    ensures
        r@ == search_address(
            query@,
            sort_type@,
            match after {
                Some(c) => Some(c@),
                None => None,
            },
        ),
{
    let first = "https://oauth.reddit.com/search?q=\"".to_owned().concat(query).concat(
        "\"&sort=",
    ).concat(sort_type).concat("&limit=100&t=all");
    match after {
        Some(cursor) => first.concat("&after=").concat(cursor),
        None => first,
    }
}

/// The address of the page of a search that follows a listing; `None` where
/// the listing names no cursor, which is where the search ends.
pub fn next_search_url(query: &str, sort_type: &str, listing: &RedditListing) -> (r: Option<String>)
    ensures
        match listing.data.after {
            Some(cursor) => r.is_some() && r->0@ == search_address(
                query@,
                sort_type@,
                Some(cursor@),
            ),
            None => r.is_none(),
        },
{
    match &listing.data.after {
        Some(cursor) => Some(search_url(query, sort_type, Some(cursor.as_str()))),
        None => None,
    }
}

/// The address from which the comment tree of a post is fetched.
pub fn comments_url(post_id: &str, sort_type: &str) -> (r: String)
    ensures
        r@ == comments_address(post_id@, sort_type@),
{
    "https://oauth.reddit.com/comments/".to_owned().concat(post_id).concat("?sort=").concat(
        sort_type,
    ).concat("&limit=500")
}

/// The offset of the first `/` at or after `from`, or the length of the text.
pub open spec fn segment_end(url: Seq<char>, from: int) -> int {
    match first_occurrence("/"@, url, from) {
        Some(e) => e,
        None => url.len() as int,
    }
}

/// The community that an address names: what stands between the first `/r/`
/// and the next `/`, where that is not empty.
pub open spec fn subreddit_in_url(url: Seq<char>) -> Option<Seq<char>> {
    match first_occurrence("/r/"@, url, 0) {
        None => None,
        Some(p) => if segment_end(url, p + 3) > p + 3 {
            Some(url.subrange(p + 3, segment_end(url, p + 3)))
        } else {
            None
        },
    }
}

/// The community that an address names.
pub fn extract_subreddit_from_url(url: &str) -> (r: Option<String>)
    ensures
        opt_text(r) == subreddit_in_url(url@),
{
    let chars = chars_of(url);
    let marker = chars_of("/r/");
    let slash = chars_of("/");
    proof {
        reveal_strlit("/r/");
        reveal_strlit("/");
        lemma_first_occurrence("/r/"@, url@, 0);
    }
    match find_from(&chars, &marker, 0) {
        None => None,
        Some(p) => {
            proof {
                assert(crate::text::occurs_at("/r/"@, url@, p as int));
                assert("/r/"@.len() == 3);
                assert(chars@.len() == url@.len());
                assert(p + 3 <= url@.len());
                assert(p + 3 <= chars.len());
            }
            let start = p + 3;
            proof {
                lemma_first_occurrence("/"@, url@, start as int);
            }
            let end = match find_from(&chars, &slash, start) {
                Some(e) => e,
                None => chars.len(),
            };
            if end > start {
                Some(slice_text(url, start, end))
            } else {
                None
            }
        },
    }
}

/// The pattern that finds the identifier of a post in an address: behind
/// `/r/<community>/comments/`, `/comments/`, `/gallery/` or `/r/<community>/s/`
/// on reddit.com.
pub const POST_ID_PATTERN: &'static str =
    "(?:reddit\\.com/r/[^/]+/comments/|reddit\\.com/comments/|reddit\\.com/gallery/|reddit\\.com/r/[^/]+/s/)([a-z0-9]+)";

/// The characters of the post pattern.
pub open spec fn post_id_pattern() -> Seq<char> {
    POST_ID_PATTERN@
}

/// What the regex crate finds for `pattern` in `text`: `None` where the crate
/// refuses the pattern; else what the first capture group holds in the
/// leftmost match, `Some(None)` where nothing matches or the group took no
/// part in the match.
pub uninterp spec fn first_group(pattern: Seq<char>, text: Seq<char>) -> Option<Option<Seq<char>>>;

/// The characters of a text that may be missing at two levels.
pub open spec fn nested_text(o: Option<Option<String>>) -> Option<Option<Seq<char>>> {
    match o {
        Some(inner) => Some(opt_text(inner)),
        None => None,
    }
}

/// Compiles `pattern` with `Regex::new`, searches `text` with
/// `Regex::captures` and reads group 1 with `Captures::get`. The result
/// depends on the two texts alone; nothing more is claimed of it.
#[verifier::external_body]
fn regex_first_group(pattern: &str, text: &str) -> (r: Option<Option<String>>)
    ensures
        nested_text(r) == first_group(pattern@, text@),
{
    match regex::Regex::new(pattern) {
        Err(_) => None,
        Ok(re) => match re.captures(text) {
            None => Some(None),
            Some(found) => match found.get(1) {
                None => Some(None),
                Some(group) => Some(Some(group.as_str().to_owned())),
            },
        },
    }
}

/// The identifier that a search for the post pattern found, if any.
pub open spec fn found_post_id(found: Option<Option<Seq<char>>>) -> Option<Seq<char>> {
    match found {
        Some(Some(id)) => Some(id),
        _ => None,
    }
}

/// The identifier of the post that an address names.
pub fn extract_post_id_from_url(url: &str) -> (r: Option<String>)
    ensures
        opt_text(r) == found_post_id(first_group(post_id_pattern(), url@)),
{
    let found = regex_first_group(POST_ID_PATTERN, url);
    match found {
        Some(Some(id)) => Some(id),
        _ => None,
    }
}

} // verus!
