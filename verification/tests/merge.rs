use ruddit::commands::merge::{merge_outcomes, merge_post, merge_posts, FacetOutcome};
use ruddit::commands::query::{
    facet_outcome, finish_query, plan_query, query_mode, request_url, QueryMode,
};
use ruddit::database::adding::DB;
use ruddit::database::records::{find_post, PostDataWrapper};
use ruddit::models::facets::{add_facet, has_facet};
use ruddit::models::search::{
    RedditComment, RedditData, RedditError, RedditListing, RedditListingChild, RedditListingData,
    RedditPost, Replies,
};
use ruddit::settings::api_keys::ApiKeys;

fn post(id: i64, title: &str, sort_type: &str) -> PostDataWrapper {
    PostDataWrapper {
        id,
        timestamp: 1700000000 + id,
        formatted_date: String::from("2023-11-14 22:13:20"),
        title: title.to_string(),
        url: String::from("https://example.com"),
        sort_type: sort_type.to_string(),
        relevance_score: 0,
        subreddit: String::from("rust"),
        permalink: String::from("https://reddit.com/r/rust"),
        engaged: 0,
        assignee: String::new(),
        notes: String::new(),
        name: format!("t3_{}", id),
        selftext: None,
        author: String::from("someone"),
        score: 1,
        thumbnail: None,
        is_self: true,
        num_comments: 0,
        intent: String::from("Low"),
    }
}

fn outcome(facet: &str, posts: Result<Vec<PostDataWrapper>, RedditError>) -> FacetOutcome {
    FacetOutcome { facet: facet.to_string(), posts }
}

fn fields(posts: &[PostDataWrapper]) -> Vec<(i64, String)> {
    posts.iter().map(|p| (p.id, p.sort_type.clone())).collect()
}

fn raw_post(id: &str, title: &str, created_utc: i64) -> RedditPost {
    RedditPost {
        id: id.to_string(),
        title: title.to_string(),
        url: String::from("https://example.com"),
        created_utc,
        subreddit: String::from("rust"),
        permalink: format!("/r/rust/comments/{}/x/", id),
        selftext: None,
        name: format!("t3_{}", id),
        author: String::from("someone"),
        score: 3,
        thumbnail: None,
        is_self: false,
        num_comments: 4,
    }
}

fn listing(items: Vec<RedditData>) -> RedditListing {
    RedditListing {
        data: RedditListingData {
            children: items.into_iter().map(|data| RedditListingChild { data }).collect(),
            after: None,
        },
    }
}

#[test]
fn facet_is_listed_as_a_whole_piece() {
    assert!(has_facet("hot", "hot"));
    assert!(has_facet("hot,new", "hot"));
    assert!(has_facet("hot,new", "new"));
    assert!(has_facet("hot,new,top", "new"));
    assert!(!has_facet("hot,new", "top"));
    assert!(!has_facet("hot,new", "ho"));
    assert!(!has_facet("hot,new", "ne"));
    assert!(!has_facet("hot,new", "t,n"));
    assert!(!has_facet("hot,new", "hot,new"));
    assert!(!has_facet("top", "to"));
    assert!(!has_facet("hot", ""));
    assert!(has_facet("", ""));
    assert!(has_facet("hot,", ""));
    assert!(has_facet(",hot", ""));
    assert!(has_facet("a,,b", ""));
    assert!(!has_facet("", "hot"));
}

#[test]
fn adding_a_facet_joins_it_with_a_comma_once() {
    assert_eq!(add_facet("hot", "new"), "hot,new");
    assert_eq!(add_facet("hot,new", "hot"), "hot,new");
    assert_eq!(add_facet("hot,new", "new"), "hot,new");
    assert_eq!(add_facet("hot,new", "top"), "hot,new,top");
    assert_eq!(add_facet("top", "to"), "top,to");
    assert_eq!(add_facet("", "hot"), ",hot");
    assert_eq!(add_facet("hot", "hot"), "hot");
}

#[test]
fn same_identity_under_hot_and_new_lists_both_once_in_order() {
    let merged = merge_outcomes(&vec![
        outcome("hot", Ok(vec![post(1, "one", "")])),
        outcome("new", Ok(vec![post(1, "one", "")])),
    ]);
    assert_eq!(fields(&merged), vec![(1, String::from("hot,new"))]);
}

#[test]
fn facets_keep_the_order_in_which_they_were_first_seen() {
    let merged = merge_outcomes(&vec![
        outcome("new", Ok(vec![post(1, "one", "")])),
        outcome("hot", Ok(vec![post(1, "one", "")])),
        outcome("new", Ok(vec![post(1, "one", "")])),
        outcome("top", Ok(vec![post(1, "one", "")])),
        outcome("hot", Ok(vec![post(1, "one", "")])),
    ]);
    assert_eq!(fields(&merged), vec![(1, String::from("new,hot,top"))]);
}

#[test]
fn merged_posts_stand_in_the_order_of_first_appearance() {
    let merged = merge_outcomes(&vec![
        outcome("hot", Ok(vec![post(3, "three", ""), post(1, "one", "")])),
        outcome("new", Ok(vec![post(2, "two", ""), post(3, "three", "")])),
    ]);
    assert_eq!(
        fields(&merged),
        vec![
            (3, String::from("hot,new")),
            (1, String::from("hot")),
            (2, String::from("new")),
        ]
    );
}

#[test]
fn the_facet_of_the_request_replaces_what_the_post_brought() {
    let merged = merge_outcomes(&vec![outcome("hot", Ok(vec![post(1, "one", "rising,best")]))]);
    assert_eq!(fields(&merged), vec![(1, String::from("hot"))]);
}

#[test]
fn a_second_sighting_adds_its_facet_and_nothing_else() {
    let mut later = post(1, "changed title", "");
    later.score = 99;
    let merged = merge_outcomes(&vec![
        outcome("hot", Ok(vec![post(1, "one", "")])),
        outcome("new", Ok(vec![later])),
    ]);
    let mut expected = post(1, "one", "hot,new");
    expected.score = 1;
    assert_eq!(merged, vec![expected]);
}

#[test]
fn one_facet_with_one_identity_twice_keeps_one_row() {
    let merged = merge_outcomes(&vec![outcome(
        "hot",
        Ok(vec![post(1, "first", ""), post(1, "second", "")]),
    )]);
    assert_eq!(merged, vec![post(1, "first", "hot")]);
}

#[test]
fn a_failed_facet_does_not_stop_the_others() {
    let with_failure = merge_outcomes(&vec![
        outcome("hot", Ok(vec![post(1, "one", "")])),
        outcome("new", Err(RedditError::HttpError(503, String::from("busy")))),
        outcome("top", Ok(vec![post(1, "one", ""), post(2, "two", "")])),
    ]);
    let without = merge_outcomes(&vec![
        outcome("hot", Ok(vec![post(1, "one", "")])),
        outcome("top", Ok(vec![post(1, "one", ""), post(2, "two", "")])),
    ]);
    assert_eq!(
        fields(&with_failure),
        vec![(1, String::from("hot,top")), (2, String::from("top"))]
    );
    assert_eq!(with_failure, without);
}

#[test]
fn a_failed_facet_does_not_keep_the_others_from_the_store() {
    let mut db = DB::new();
    db.replace_current_results(&[post(9, "from the last query", "hot")]);
    db.save_single_reddit(&post(5, "saved", "hot"));
    let merged = finish_query(
        &mut db,
        &vec![
            outcome("hot", Err(RedditError::TransportError(String::from("timed out")))),
            outcome("new", Ok(vec![post(1, "one", ""), post(2, "two", "")])),
            outcome("top", Err(RedditError::ParseError(String::from("no listing")))),
        ],
    );
    assert_eq!(
        fields(&merged),
        vec![(1, String::from("new")), (2, String::from("new"))]
    );
    assert_eq!(db.searched_posts(), &merged);
    assert_eq!(db.saved_posts().len(), 1);
}

#[test]
fn every_kind_of_error_fails_its_facet_and_no_other() {
    let errors = vec![
        RedditError::CredentialError(String::from("c")),
        RedditError::AuthRejected(String::from("a")),
        RedditError::TransportError(String::from("t")),
        RedditError::TokenExtraction,
        RedditError::HttpError(500, String::from("h")),
        RedditError::ParseError(String::from("p")),
        RedditError::PersistenceError(String::from("s")),
    ];
    let mut outcomes = vec![outcome("hot", Ok(vec![post(1, "one", "")]))];
    for (i, e) in errors.into_iter().enumerate() {
        outcomes.push(outcome(&format!("failed{}", i), Err(e)));
    }
    outcomes.push(outcome("new", Ok(vec![post(1, "one", ""), post(2, "two", "")])));
    assert_eq!(
        fields(&merge_outcomes(&outcomes)),
        vec![(1, String::from("hot,new")), (2, String::from("new"))]
    );
}

#[test]
fn a_query_whose_facets_all_fail_leaves_an_empty_search() {
    let mut db = DB::new();
    db.replace_current_results(&[post(9, "from the last query", "hot")]);
    let merged = finish_query(
        &mut db,
        &vec![outcome("hot", Err(RedditError::TokenExtraction))],
    );
    assert!(merged.is_empty());
    assert!(db.searched_posts().is_empty());
    assert!(merge_outcomes(&vec![]).is_empty());
}

#[test]
fn merging_one_post_at_a_time() {
    let mut acc = vec![post(1, "one", "hot")];
    merge_post(&mut acc, &post(2, "two", "ignored"), "new");
    merge_post(&mut acc, &post(1, "one again", "ignored"), "new");
    assert_eq!(acc, vec![post(1, "one", "hot,new"), post(2, "two", "new")]);
    merge_posts(&mut acc, &[post(3, "three", ""), post(2, "two", "")], "top");
    assert_eq!(
        fields(&acc),
        vec![
            (1, String::from("hot,new")),
            (2, String::from("new,top")),
            (3, String::from("top")),
        ]
    );
    assert_eq!(find_post(&acc, 2), Some(1));
    assert_eq!(find_post(&acc, 4), None);
}

#[test]
fn a_query_that_starts_with_r_slash_names_a_community() {
    assert_eq!(query_mode("r/rust"), QueryMode::CommunityListing);
    assert_eq!(query_mode("r/"), QueryMode::CommunityListing);
    assert_eq!(query_mode("rust"), QueryMode::FullTextSearch);
    assert_eq!(query_mode("R/rust"), QueryMode::FullTextSearch);
    assert_eq!(query_mode(" r/rust"), QueryMode::FullTextSearch);
    assert_eq!(query_mode("r"), QueryMode::FullTextSearch);
    assert_eq!(query_mode(""), QueryMode::FullTextSearch);
}

#[test]
fn every_facet_gets_exactly_one_request() {
    let facets = vec![String::from("hot"), String::from("new"), String::from("hot")];
    let plan = plan_query("r/rust", &facets);
    assert_eq!(plan.len(), 3);
    assert_eq!(plan[0].facet, "hot");
    assert_eq!(plan[0].url, "https://oauth.reddit.com/r/rust/hot?limit=100");
    assert_eq!(plan[1].facet, "new");
    assert_eq!(plan[1].url, "https://oauth.reddit.com/r/rust/new?limit=100");
    assert_eq!(plan[2].facet, "hot");
    let plan = plan_query("inventory software", &facets);
    assert_eq!(
        plan[1].url,
        "https://oauth.reddit.com/search?q=\"inventory software\"&sort=new&limit=100&t=all"
    );
    assert!(plan_query("r/rust", &vec![]).is_empty());
    assert_eq!(request_url("r/rust", "top"), "https://oauth.reddit.com/r/rust/top?limit=100");
}

#[test]
fn the_outcome_of_a_facet_holds_its_posts_or_its_error() {
    let keys = ApiKeys::default();
    let ok = facet_outcome(
        "hot",
        Ok(listing(vec![
            RedditData::Post(raw_post("abc", "Looking for help", 1700000000)),
            RedditData::Comment(RedditComment {
                id: String::from("c"),
                body: String::from("b"),
                author: String::from("a"),
                created_utc: 1,
                score: 1,
                permalink: String::new(),
                parent_id: String::new(),
                replies: Replies::Absent,
            }),
        ])),
        &keys,
    );
    assert_eq!(ok.facet, "hot");
    let posts = ok.posts.unwrap();
    assert_eq!(posts.len(), 1);
    assert_eq!(posts[0].id, 13368);
    assert_eq!(posts[0].sort_type, "hot");
    let failed = facet_outcome("new", Err(RedditError::HttpError(429, String::from("slow down"))), &keys);
    assert_eq!(failed.facet, "new");
    assert!(matches!(failed.posts, Err(RedditError::HttpError(429, ref body)) if body == "slow down"));
    let undated = facet_outcome(
        "top",
        Ok(listing(vec![RedditData::Post(raw_post("abc", "t", i64::MAX))])),
        &keys,
    );
    assert!(matches!(undated.posts, Err(RedditError::ParseError(ref m)) if m == "Invalid timestamp"));
}
