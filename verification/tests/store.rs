use ruddit::database::adding::DB;
use ruddit::database::read::{DBReader, PostFilter};
use ruddit::database::records::{CommentDataWrapper, PostDataWrapper};
use ruddit::models::search::AppState;

fn post(id: i64, timestamp: i64, title: &str, subreddit: &str, sort_type: &str) -> PostDataWrapper {
    PostDataWrapper {
        id,
        timestamp,
        formatted_date: String::from("2023-11-14 22:13:20"),
        title: title.to_string(),
        url: format!("https://example.com/{}", id),
        sort_type: sort_type.to_string(),
        relevance_score: 0,
        subreddit: subreddit.to_string(),
        permalink: format!("https://reddit.com/r/{}/comments/{}", subreddit, id),
        engaged: 0,
        assignee: String::new(),
        notes: String::new(),
        name: format!("t3_{}", id),
        selftext: None,
        author: String::from("someone"),
        score: 1,
        thumbnail: None,
        is_self: true,
        num_comments: 0,
        intent: String::from("Low"),
    }
}

fn comment(id: &str, post_id: &str, timestamp: i64, body: &str) -> CommentDataWrapper {
    CommentDataWrapper {
        id: id.to_string(),
        post_id: post_id.to_string(),
        body: body.to_string(),
        author: String::from("someone"),
        timestamp,
        formatted_date: String::from("2023-11-14 22:13:20"),
        score: 1,
        permalink: String::new(),
        parent_id: format!("t3_{}", post_id),
        subreddit: String::from("rust"),
        post_title: String::from("a post"),
        engaged: 0,
        assignee: String::new(),
        notes: String::new(),
    }
}

fn ids(posts: &[PostDataWrapper]) -> Vec<i64> {
    posts.iter().map(|p| p.id).collect()
}

fn comment_ids(comments: &[CommentDataWrapper]) -> Vec<String> {
    comments.iter().map(|c| c.id.clone()).collect()
}

#[test]
fn new_store_is_empty() {
    let db = DB::new();
    assert!(db.saved_posts().is_empty());
    assert!(db.searched_posts().is_empty());
    assert!(db.stored_comments().is_empty());
    assert!(db.get_db_results().is_empty());
}

#[test]
fn saving_adds_a_new_identity_at_the_end() {
    let mut db = DB::new();
    db.save_single_reddit(&post(7, 10, "seven", "rust", "hot"));
    db.save_single_reddit(&post(3, 20, "three", "rust", "new"));
    assert_eq!(ids(db.saved_posts()), vec![7, 3]);
    assert_eq!(db.saved_posts()[1], post(3, 20, "three", "rust", "new"));
}

#[test]
fn saving_a_saved_identity_changes_nothing() {
    let mut db = DB::new();
    db.save_single_reddit(&post(7, 10, "seven", "rust", "hot"));
    db.save_single_reddit(&post(7, 99, "another title", "golang", "new"));
    assert_eq!(db.saved_posts().len(), 1);
    assert_eq!(db.saved_posts()[0], post(7, 10, "seven", "rust", "hot"));
}

#[test]
fn saving_again_keeps_notes_assignee_and_engagement() {
    let mut db = DB::new();
    db.append_results(&[post(1, 10, "one", "rust", "hot"), post(2, 20, "two", "rust", "hot")]);
    db.update_post_notes(1, "call them on Monday");
    db.update_post_assignee(1, "Maria");
    db.update_post_engaged_status(1, 1);
    let mut again = post(1, 10, "one", "rust", "hot");
    again.notes = String::from("overwritten?");
    again.assignee = String::from("Alex");
    again.engaged = 0;
    db.append_results(&[again, post(3, 30, "three", "rust", "new")]);
    assert_eq!(ids(db.saved_posts()), vec![1, 2, 3]);
    let kept = &db.saved_posts()[0];
    assert_eq!(kept.notes, "call them on Monday");
    assert_eq!(kept.assignee, "Maria");
    assert_eq!(kept.engaged, 1);
    db.save_single_reddit(&post(1, 10, "one", "rust", "hot"));
    let kept = &db.saved_posts()[0];
    assert_eq!(kept.notes, "call them on Monday");
    assert_eq!(kept.assignee, "Maria");
    assert_eq!(kept.engaged, 1);
}

#[test]
fn a_batch_with_one_identity_twice_saves_the_first() {
    let mut db = DB::new();
    db.append_results(&[post(5, 1, "first", "a", "hot"), post(5, 2, "second", "b", "new")]);
    assert_eq!(db.saved_posts().len(), 1);
    assert_eq!(db.saved_posts()[0].title, "first");
}

#[test]
fn saving_a_batch_twice_is_saving_it_once() {
    let batch = [post(1, 10, "one", "rust", "hot"), post(2, 20, "two", "rust", "hot")];
    let mut once = DB::new();
    once.append_results(&batch);
    let mut twice = DB::new();
    twice.append_results(&batch);
    twice.append_results(&batch);
    assert_eq!(once.saved_posts(), twice.saved_posts());
}

#[test]
fn saving_an_empty_batch_changes_nothing() {
    let mut db = DB::new();
    db.save_single_reddit(&post(1, 10, "one", "rust", "hot"));
    db.append_results(&[]);
    assert_eq!(ids(db.saved_posts()), vec![1]);
}

#[test]
fn identity_zero_is_an_identity_like_any_other() {
    let mut db = DB::new();
    db.append_results(&[post(0, 1, "unreadable a", "a", "hot"), post(0, 2, "unreadable b", "b", "hot")]);
    assert_eq!(db.saved_posts().len(), 1);
    assert_eq!(db.saved_posts()[0].title, "unreadable a");
}

#[test]
fn removing_takes_the_identity_away_and_nothing_else() {
    let mut db = DB::new();
    db.append_results(&[
        post(1, 10, "one", "rust", "hot"),
        post(2, 20, "two", "rust", "hot"),
        post(3, 30, "three", "rust", "hot"),
    ]);
    db.remove_single_reddit(&2);
    assert_eq!(ids(db.saved_posts()), vec![1, 3]);
    db.remove_single_reddit(&42);
    assert_eq!(ids(db.saved_posts()), vec![1, 3]);
}

#[test]
fn updates_touch_one_row_and_one_field() {
    let mut db = DB::new();
    db.append_results(&[post(1, 10, "one", "rust", "hot"), post(2, 20, "two", "rust", "hot")]);
    db.update_post_notes(2, "n");
    let mut expected = post(2, 20, "two", "rust", "hot");
    expected.notes = String::from("n");
    assert_eq!(db.saved_posts()[0], post(1, 10, "one", "rust", "hot"));
    assert_eq!(db.saved_posts()[1], expected);
    db.update_post_assignee(2, "David");
    expected.assignee = String::from("David");
    assert_eq!(db.saved_posts()[1], expected);
    db.update_post_engaged_status(2, 5);
    expected.engaged = 5;
    assert_eq!(db.saved_posts()[1], expected);
    assert_eq!(db.saved_posts()[0], post(1, 10, "one", "rust", "hot"));
}

#[test]
fn updates_of_an_absent_identity_are_no_error_and_no_change() {
    let mut db = DB::new();
    db.append_results(&[post(1, 10, "one", "rust", "hot")]);
    db.update_post_notes(9, "n");
    db.update_post_assignee(9, "a");
    db.update_post_engaged_status(9, 1);
    assert_eq!(db.saved_posts().len(), 1);
    assert_eq!(db.saved_posts()[0], post(1, 10, "one", "rust", "hot"));
}

#[test]
fn updates_do_not_reach_the_current_search() {
    let mut db = DB::new();
    db.replace_current_results(&[post(1, 10, "one", "rust", "hot")]);
    db.update_post_notes(1, "n");
    assert_eq!(db.searched_posts()[0].notes, "");
}

#[test]
fn replacing_the_current_search_forgets_what_was_there() {
    let mut db = DB::new();
    db.replace_current_results(&[post(1, 10, "one", "rust", "hot"), post(2, 20, "two", "rust", "hot")]);
    db.replace_current_results(&[post(3, 30, "three", "rust", "new")]);
    assert_eq!(ids(db.searched_posts()), vec![3]);
    db.replace_current_results(&[]);
    assert!(db.searched_posts().is_empty());
}

#[test]
fn the_current_search_may_hold_an_identity_twice() {
    let mut db = DB::new();
    db.replace_current_results(&[post(1, 10, "one", "rust", "hot")]);
    db.append_current_results(&[post(1, 10, "one", "rust", "new"), post(2, 5, "two", "rust", "new")]);
    assert_eq!(ids(db.searched_posts()), vec![1, 1, 2]);
    assert_eq!(db.searched_posts()[1].sort_type, "new");
}

#[test]
fn clearing_one_collection_leaves_the_others() {
    let mut db = DB::new();
    db.append_results(&[post(1, 10, "one", "rust", "hot")]);
    db.replace_current_results(&[post(2, 20, "two", "rust", "hot")]);
    db.append_comments(&[comment("c1", "1", 5, "hi")]);
    db.clear_current_search_results();
    assert!(db.searched_posts().is_empty());
    assert_eq!(db.saved_posts().len(), 1);
    assert_eq!(db.stored_comments().len(), 1);
    db.replace_current_results(&[post(2, 20, "two", "rust", "hot")]);
    db.clear_comments_database();
    assert!(db.stored_comments().is_empty());
    assert_eq!(db.saved_posts().len(), 1);
    assert_eq!(db.searched_posts().len(), 1);
    db.append_comments(&[comment("c1", "1", 5, "hi")]);
    db.clear_database();
    assert!(db.saved_posts().is_empty());
    assert_eq!(db.searched_posts().len(), 1);
    assert_eq!(db.stored_comments().len(), 1);
}

#[test]
fn appending_a_stored_comment_adds_no_row() {
    let mut db = DB::new();
    db.append_comments(&[comment("c1", "p", 5, "first"), comment("c2", "p", 6, "second")]);
    db.append_comments(&[comment("c1", "p", 7, "changed body"), comment("c3", "p", 8, "third")]);
    assert_eq!(comment_ids(db.stored_comments()), vec!["c1", "c2", "c3"]);
    assert_eq!(db.stored_comments()[0].body, "first");
    assert_eq!(db.stored_comments()[0].timestamp, 5);
    db.append_comments(&[comment("c1", "p", 5, "first"), comment("c2", "p", 6, "second")]);
    assert_eq!(db.stored_comments().len(), 3);
}

#[test]
fn a_batch_with_one_comment_twice_stores_it_once() {
    let mut db = DB::new();
    db.append_comments(&[comment("c1", "p", 5, "first"), comment("c1", "p", 6, "again")]);
    assert_eq!(db.stored_comments().len(), 1);
    assert_eq!(db.stored_comments()[0].body, "first");
    assert!(db.holds_comment("c1"));
    assert!(!db.holds_comment("c"));
    assert!(!db.holds_comment("C1"));
}

#[test]
fn comment_identifiers_are_texts_not_numbers() {
    let mut db = DB::new();
    db.append_comments(&[comment("01", "p", 5, "a"), comment("1", "p", 6, "b")]);
    assert_eq!(db.stored_comments().len(), 2);
}

#[test]
fn saved_posts_come_out_most_recent_first() {
    let mut db = DB::new();
    db.append_results(&[
        post(1, 10, "one", "rust", "hot"),
        post(2, 30, "two", "rust", "hot"),
        post(3, 20, "three", "rust", "hot"),
        post(4, -5, "four", "rust", "hot"),
    ]);
    assert_eq!(ids(&db.get_db_results()), vec![2, 3, 1, 4]);
    assert_eq!(ids(&DBReader::new().get_all_posts(&db)), vec![2, 3, 1, 4]);
    assert_eq!(ids(&AppState::new(&db).data), vec![2, 3, 1, 4]);
    assert_eq!(ids(db.saved_posts()), vec![1, 2, 3, 4]);
}

#[test]
fn posts_of_one_instant_keep_the_order_of_the_store() {
    let mut db = DB::new();
    db.append_results(&[
        post(1, 10, "one", "rust", "hot"),
        post(2, 20, "two", "rust", "hot"),
        post(3, 10, "three", "rust", "hot"),
        post(4, 20, "four", "rust", "hot"),
        post(5, 10, "five", "rust", "hot"),
    ]);
    assert_eq!(ids(&db.get_db_results()), vec![2, 4, 1, 3, 5]);
}

#[test]
fn recent_posts_are_cut_at_the_limit() {
    let mut db = DB::new();
    db.append_results(&[
        post(1, 10, "one", "rust", "hot"),
        post(2, 30, "two", "rust", "hot"),
        post(3, 20, "three", "rust", "hot"),
    ]);
    let reader = DBReader::new();
    assert_eq!(ids(&reader.get_recent_posts(&db, 2)), vec![2, 3]);
    assert_eq!(ids(&reader.get_recent_posts(&db, 0)), Vec::<i64>::new());
    assert_eq!(ids(&reader.get_recent_posts(&db, 3)), vec![2, 3, 1]);
    assert_eq!(ids(&reader.get_recent_posts(&db, 100)), vec![2, 3, 1]);
    assert_eq!(ids(&reader.get_recent_posts(&db, i64::MAX)), vec![2, 3, 1]);
    assert_eq!(ids(&reader.get_recent_posts(&db, -1)), vec![2, 3, 1]);
    assert_eq!(ids(&reader.get_recent_posts(&db, i64::MIN)), vec![2, 3, 1]);
}

#[test]
fn readers_select_by_community_and_by_facet_field() {
    let mut db = DB::new();
    db.append_results(&[
        post(1, 10, "one", "rust", "hot"),
        post(2, 30, "two", "golang", "hot,new"),
        post(3, 20, "three", "rust", "new"),
        post(4, 40, "four", "Rust", "hot"),
    ]);
    let reader = DBReader::new();
    assert_eq!(ids(&reader.get_posts_by_subreddit(&db, "rust")), vec![3, 1]);
    assert_eq!(ids(&reader.get_posts_by_subreddit(&db, "ru")), Vec::<i64>::new());
    assert_eq!(ids(&reader.get_posts_by_sort_type(&db, "hot")), vec![4, 1]);
    assert_eq!(ids(&reader.get_posts_by_sort_type(&db, "hot,new")), vec![2]);
    assert_eq!(ids(&reader.get_posts_by_sort_type(&db, "top")), Vec::<i64>::new());
}

#[test]
fn search_asks_title_community_and_facet_field() {
    let mut db = DB::new();
    db.append_results(&[
        post(1, 10, "learning rust today", "programming", "hot"),
        post(2, 20, "a question", "rust", "new"),
        post(3, 30, "sorted by rust", "golang", "rusty,top"),
        post(4, 40, "nothing here", "golang", "hot"),
        post(5, 50, "Rust in capitals", "RUST", "Rust"),
        post(6, 60, "tr ust", "r-u-s-t", "r,u,s,t"),
    ]);
    let reader = DBReader::new();
    assert_eq!(ids(&reader.search_posts(&db, "rust")), vec![3, 2, 1]);
    assert_eq!(ids(&reader.search_posts(&db, "Rust")), vec![5]);
    assert_eq!(ids(&reader.search_posts(&db, "rusty")), vec![3]);
    assert_eq!(ids(&reader.search_posts(&db, "zzz")), Vec::<i64>::new());
    assert_eq!(ids(&reader.search_posts(&db, "")), vec![6, 5, 4, 3, 2, 1]);
}

#[test]
fn search_does_not_ask_other_fields() {
    let mut db = DB::new();
    let mut p = post(1, 10, "title", "community", "hot");
    p.author = String::from("rust");
    p.notes = String::from("rust");
    p.selftext = Some(String::from("rust"));
    p.url = String::from("https://rust-lang.org");
    db.append_results(&[p]);
    assert!(DBReader::new().search_posts(&db, "rust").is_empty());
}

#[test]
fn search_takes_percent_and_underscore_literally() {
    let mut db = DB::new();
    db.append_results(&[post(1, 10, "100% sure", "a_b", "hot"), post(2, 20, "1000 sure", "axb", "hot")]);
    let reader = DBReader::new();
    assert_eq!(ids(&reader.search_posts(&db, "0%")), vec![1]);
    assert_eq!(ids(&reader.search_posts(&db, "a_b")), vec![1]);
}

#[test]
fn search_reads_only_saved_posts() {
    let mut db = DB::new();
    db.replace_current_results(&[post(1, 10, "rust", "rust", "rust")]);
    assert!(DBReader::new().search_posts(&db, "rust").is_empty());
    assert_eq!(ids(&DBReader::new().get_all_searched_posts(&db)), vec![1]);
}

#[test]
fn filters_accept_what_their_readers_hand_out() {
    let p = post(1, 10, "learning rust", "programming", "hot,new");
    assert!(PostFilter::Search(String::from("rust")).accepts(&p));
    assert!(PostFilter::Search(String::from("gram")).accepts(&p));
    assert!(PostFilter::Search(String::from(",new")).accepts(&p));
    assert!(!PostFilter::Search(String::from("RUST")).accepts(&p));
    assert!(PostFilter::Subreddit(String::from("programming")).accepts(&p));
    assert!(!PostFilter::Subreddit(String::from("program")).accepts(&p));
    assert!(PostFilter::SortType(String::from("hot,new")).accepts(&p));
    assert!(!PostFilter::SortType(String::from("hot")).accepts(&p));
}

#[test]
fn counts_by_facet_field_group_the_saved_posts() {
    let mut db = DB::new();
    db.append_results(&[
        post(1, 10, "one", "rust", "hot"),
        post(2, 30, "two", "golang", "new"),
        post(3, 20, "three", "rust", "hot"),
        post(4, 40, "four", "rust", "hot,new"),
        post(5, 50, "five", "rust", "new"),
        post(6, 60, "six", "rust", "hot"),
    ]);
    assert_eq!(
        DBReader::new().get_posts_by_relevance(&db),
        vec![
            (String::from("hot"), 3usize),
            (String::from("new"), 2usize),
            (String::from("hot,new"), 1usize),
        ]
    );
    assert!(DBReader::new().get_posts_by_relevance(&DB::new()).is_empty());
}

#[test]
fn comments_of_one_post_come_out_most_recent_first() {
    let mut db = DB::new();
    db.append_comments(&[
        comment("a", "p1", 10, "a"),
        comment("b", "p2", 50, "b"),
        comment("c", "p1", 30, "c"),
        comment("d", "p1", 20, "d"),
        comment("e", "p1", 30, "e"),
    ]);
    let reader = DBReader::new();
    assert_eq!(comment_ids(&db.get_post_comments("p1")), vec!["c", "e", "d", "a"]);
    assert_eq!(comment_ids(&reader.get_post_comments(&db, "p1")), vec!["c", "e", "d", "a"]);
    assert_eq!(comment_ids(&reader.get_post_comments(&db, "p2")), vec!["b"]);
    assert!(reader.get_post_comments(&db, "p").is_empty());
    assert_eq!(comment_ids(&reader.get_all_comments(&db)), vec!["b", "c", "e", "d", "a"]);
}

#[test]
fn lines_describe_the_posts_under_their_heading() {
    let mut db = DB::new();
    db.append_results(&[post(1, 10, "one", "rust", "hot"), post(2, 30, "two", "golang", "new")]);
    let reader = DBReader::new();
    assert_eq!(
        reader.display_recent_posts(&db, 1),
        vec![
            "=== MOST RECENT 1 POSTS ===",
            "1. [new] two - r/golang",
            "   URL: https://example.com/2",
            "   Date: 2023-11-14 22:13:20",
            "",
        ]
    );
    assert_eq!(
        reader.display_all_posts(&db),
        vec![
            "=== ALL POSTS IN DATABASE (2 total) ===",
            "1. [new] two - r/golang",
            "   URL: https://example.com/2",
            "   Date: 2023-11-14 22:13:20",
            "",
            "2. [hot] one - r/rust",
            "   URL: https://example.com/1",
            "   Date: 2023-11-14 22:13:20",
            "",
        ]
    );
    assert_eq!(reader.display_recent_posts(&db, -12)[0], "=== MOST RECENT -12 POSTS ===");
    assert_eq!(reader.display_all_posts(&DB::new()), vec!["=== ALL POSTS IN DATABASE (0 total) ==="]);
}

#[test]
fn dates_are_rendered_in_utc() {
    assert_eq!(DB::format_timestamp(0), Some(String::from("1970-01-01 00:00:00")));
    assert_eq!(DB::format_timestamp(1431648000), Some(String::from("2015-05-15 00:00:00")));
    assert_eq!(DB::format_timestamp(1700000000), Some(String::from("2023-11-14 22:13:20")));
    assert_eq!(DB::format_timestamp(-1), Some(String::from("1969-12-31 23:59:59")));
    assert_eq!(DB::format_timestamp(253402300799), Some(String::from("9999-12-31 23:59:59")));
}

#[test]
fn instants_outside_the_calendar_have_no_date() {
    assert_eq!(DB::format_timestamp(i64::MAX), None);
    assert_eq!(DB::format_timestamp(i64::MIN), None);
}
