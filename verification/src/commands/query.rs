//! One query cycle: a request per sort facet, then the merged results as the
//! new contents of the current search.

use vstd::prelude::*;
use crate::commands::merge::{merge_all, merge_outcomes, FacetOutcome};
use crate::database::adding::DB;
use crate::database::records::{distinct_ids, post_records, PostDataWrapper, PostRecord};
use crate::models::search::{
    listing_address, listing_dated, listing_posts, listing_url, posts_from_listing,
    search_address, search_url, undated_message, RedditError, RedditListing,
};
use crate::settings::api_keys::ApiKeys;
use crate::text::chars_of;

verus! {

/// How a query is answered.
#[derive(Debug, PartialEq, Eq, Clone, Copy)]
pub enum QueryMode {
    /// The query names a community; its listing is fetched.
    CommunityListing,
    /// The query is a free-text term; the search is asked.
    FullTextSearch,
}

/// The query names a community: it starts with `r/`.
pub open spec fn names_community(query: Seq<char>) -> bool {
    query.len() >= 2 && query[0] == 'r' && query[1] == '/'
}

/// The address that answers a query under one facet.
pub open spec fn request_address(query: Seq<char>, facet: Seq<char>) -> Seq<char> {
    if names_community(query) {
        listing_address(query, facet)
    } else {
        search_address(query, facet, None)
    }
}

/// The mode of a query.
pub fn query_mode(query: &str) -> (r: QueryMode)
    ensures
        r == if names_community(query@) {
            QueryMode::CommunityListing
        } else {
            QueryMode::FullTextSearch
        },
{
    let chars = chars_of(query);
    if chars.len() >= 2 && chars[0] == 'r' && chars[1] == '/' {
        QueryMode::CommunityListing
    } else {
        QueryMode::FullTextSearch
    }
}

/// The request of one facet.
#[derive(Debug)]
pub struct FacetRequest {
    pub facet: String,
    pub url: String,
}

/// The address that answers `query` under `facet`.
pub fn request_url(query: &str, facet: &str) -> (r: String)
    ensures
        r@ == request_address(query@, facet@),
{
    match query_mode(query) {
        QueryMode::CommunityListing => listing_url(query, facet),
        QueryMode::FullTextSearch => search_url(query, facet, None),
    }
}

/// The requests of one query: exactly one for every facet, in the order of
/// the facets.
pub fn plan_query(query: &str, sort_types: &Vec<String>) -> (r: Vec<FacetRequest>)
    ensures
        r.len() == sort_types.len(),
        forall|i: int|
            0 <= i < r.len() ==> (#[trigger] r[i]).facet@ == sort_types[i]@ && r[i].url@
                == request_address(query@, sort_types[i]@),
{
    let mut out: Vec<FacetRequest> = Vec::new();
    let mut i: usize = 0;
    while i < sort_types.len()
        invariant
            i <= sort_types.len(),
            out.len() == i,
            forall|j: int|
                0 <= j < i ==> (#[trigger] out[j]).facet@ == sort_types[j]@ && out[j].url@
                    == request_address(query@, sort_types[j]@),
        decreases sort_types.len() - i,
    {
        let facet = sort_types[i].clone();
        let url = request_url(query, sort_types[i].as_str());
        out.push(FacetRequest { facet, url });
        i += 1;
    }
    out
}

/// What one facet came to, from the answer to its request: the posts of the
/// listing in their normal form, or the error of the request. A listing with
/// an instant outside the calendar counts as a failure of the facet.
pub fn facet_outcome(facet: &str, reply: Result<RedditListing, RedditError>, keys: &ApiKeys) -> (r:
    FacetOutcome)
    ensures
        r.facet@ == facet@,
        match reply {
            Ok(listing) => match r.posts {
                Ok(v) => listing_dated(listing.data.children@) && post_records(v@)
                    == listing_posts(listing.data.children@, facet@, *keys),
                Err(e) => !listing_dated(listing.data.children@) && e.is_parse_error(
                    undated_message(),
                ),
            },
            Err(e) => r.posts == Err::<Vec<PostDataWrapper>, RedditError>(e),
        },
{
    let posts = match reply {
        Ok(listing) => posts_from_listing(&listing, facet, keys),
        Err(e) => Err(e),
    };
    FacetOutcome { facet: facet.to_owned(), posts }
}

/// Ends a query cycle: merges what the facets came to and makes the merged
/// posts the contents of the current search, in place of what was there.
/// Facets that failed are passed over. Saved posts and comments stay.
pub fn finish_query(db: &mut DB, outcomes: &Vec<FacetOutcome>) -> (r: Vec<PostDataWrapper>)
    ensures
        post_records(r@) == merge_all(Seq::empty(), outcomes@),
        distinct_ids(post_records(r@)),
        final(db).search_rows() == post_records(r@),
        final(db).saved_rows() == old(db).saved_rows(),
        final(db).comment_rows() == old(db).comment_rows(),
        old(db).wf() ==> final(db).wf(),
{
    let merged = merge_outcomes(outcomes);
    db.replace_current_results(merged.as_slice());
    merged
}

} // verus!
