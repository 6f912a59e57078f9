//! Flattening of a reply tree: every comment, parents before their replies and
//! siblings in the order in which they were delivered.

use vstd::prelude::*;
use crate::database::adding::{utc_text, DB};
use crate::database::records::{comment_records, CommentDataWrapper, CommentRecord};
use crate::models::search::{
    comment_from_parts, comment_of, undated_message, FetchContext, RedditComment, RedditError,
    Replies,
};

verus! {

/// The number of comments in a forest of comments.
pub open spec fn forest_size(cs: Seq<RedditComment>) -> nat
    decreases cs, 0int,
{
    if cs.len() == 0 {
        0
    } else {
        forest_size(cs.drop_last()) + tree_size(cs.last())
    }
}

/// The number of comments in the tree below and including `c`. Replies that
/// are absent or malformed count as none.
pub open spec fn tree_size(c: RedditComment) -> nat
    decreases c, 1int,
{
    1 + match c.replies {
        Replies::Listing(kids) => forest_size(kids@),
        _ => 0,
    }
}

/// Every comment of the forest has an instant that the calendar can name.
pub open spec fn all_dated(cs: Seq<RedditComment>) -> bool
    decreases cs, 0int,
{
    if cs.len() == 0 {
        true
    } else {
        all_dated(cs.drop_last()) && tree_dated(cs.last())
    }
}

/// Every comment of the tree has an instant that the calendar can name.
pub open spec fn tree_dated(c: RedditComment) -> bool
    decreases c, 1int,
{
    utc_text(c.created_utc as int) is Some && match c.replies {
        Replies::Listing(kids) => all_dated(kids@),
        _ => true,
    }
}

/// The records of a forest in pre-order: the trees one after the other.
pub open spec fn flat_all(cs: Seq<RedditComment>, ctx: FetchContext) -> Seq<CommentRecord>
    decreases cs, 0int,
{
    if cs.len() == 0 {
        Seq::empty()
    } else {
        flat_all(cs.drop_last(), ctx) + flat_one(cs.last(), ctx)
    }
}

/// The records of a tree in pre-order: the comment itself, then the records of
/// its replies. Replies that are absent or malformed are no replies.
pub open spec fn flat_one(c: RedditComment, ctx: FetchContext) -> Seq<CommentRecord>
    decreases c, 1int,
{
    seq![comment_of(c, ctx, utc_text(c.created_utc as int)->0)] + match c.replies {
        Replies::Listing(kids) => flat_all(kids@, ctx),
        _ => Seq::empty(),
    }
}

/// A forest of dated comments has only dated comments in each of its prefixes.
pub proof fn lemma_all_dated_prefix(cs: Seq<RedditComment>, k: int)
    requires
        0 <= k <= cs.len(),
        all_dated(cs),
    ensures
        all_dated(cs.take(k)),
    decreases cs.len(),
{
    if k == cs.len() {
        assert(cs.take(k) =~= cs);
    } else {
        lemma_all_dated_prefix(cs.drop_last(), k);
        assert(cs.drop_last().take(k) =~= cs.take(k));
    }
}

/// Flattening two forests one after the other flattens their concatenation.
pub proof fn lemma_flat_all_concat(a: Seq<RedditComment>, b: Seq<RedditComment>, ctx: FetchContext)
    ensures
        flat_all(a + b, ctx) == flat_all(a, ctx) + flat_all(b, ctx),
    decreases b.len(),
{
    if b.len() == 0 {
        assert(a + b =~= a);
        assert(flat_all(a, ctx) + flat_all(b, ctx) =~= flat_all(a, ctx));
    } else {
        lemma_flat_all_concat(a, b.drop_last(), ctx);
        assert((a + b).drop_last() =~= a + b.drop_last());
        assert((a + b).last() == b.last());
        assert(flat_all(a + b, ctx) =~= flat_all(a, ctx) + flat_all(b, ctx));
    }
}

/// The flattening reads from the front as well: the first tree with all its
/// replies comes first, and only then the next sibling.
pub proof fn lemma_flatten_first_then_rest(cs: Seq<RedditComment>, ctx: FetchContext)
    requires
        cs.len() > 0,
    ensures
        flat_all(cs, ctx) == flat_one(cs[0], ctx) + flat_all(cs.skip(1), ctx),
{
    let head = seq![cs[0]];
    assert(cs =~= head + cs.skip(1));
    lemma_flat_all_concat(head, cs.skip(1), ctx);
    assert(head.drop_last().len() == 0);
    assert(flat_all(head.drop_last(), ctx) =~= Seq::<CommentRecord>::empty());
    assert(head.last() == cs[0]);
    assert(flat_all(head, ctx) =~= flat_one(cs[0], ctx));
}

/// The flattening yields one record for every comment of the forest.
pub proof fn lemma_flatten_count(cs: Seq<RedditComment>, ctx: FetchContext)
    ensures
        flat_all(cs, ctx).len() == forest_size(cs),
    decreases cs, 0int,
{
    if cs.len() > 0 {
        lemma_flatten_count(cs.drop_last(), ctx);
        lemma_flatten_count_tree(cs.last(), ctx);
    }
}

/// The flattening of a tree yields one record for every comment in it.
pub proof fn lemma_flatten_count_tree(c: RedditComment, ctx: FetchContext)
    ensures
        flat_one(c, ctx).len() == tree_size(c),
    decreases c, 1int,
{
    match c.replies {
        Replies::Listing(kids) => {
            lemma_flatten_count(kids@, ctx);
        },
        _ => {},
    }
}

/// The record carries the post, the community and the title that the fetch
/// context names.
pub open spec fn carries_context(r: CommentRecord, ctx: FetchContext) -> bool {
    r.post_id == ctx.post_id && r.subreddit == ctx.subreddit && r.post_title == ctx.post_title
}

/// Every record of the flattening carries the post, the community and the
/// title that the fetch context names.
pub proof fn lemma_flatten_context(cs: Seq<RedditComment>, ctx: FetchContext)
    ensures
        forall|i: int|
            0 <= i < flat_all(cs, ctx).len() ==> carries_context(#[trigger] flat_all(cs, ctx)[i], ctx),
    decreases cs, 0int,
{
    if cs.len() > 0 {
        lemma_flatten_context(cs.drop_last(), ctx);
        lemma_flatten_context_tree(cs.last(), ctx);
        let a = flat_all(cs.drop_last(), ctx);
        let b = flat_one(cs.last(), ctx);
        assert forall|i: int| 0 <= i < flat_all(cs, ctx).len() implies carries_context(
            #[trigger] flat_all(cs, ctx)[i],
            ctx,
        ) by {
            if i < a.len() {
                assert((a + b)[i] == a[i]);
            } else {
                assert((a + b)[i] == b[i - a.len()]);
            }
        }
    }
}

/// Every record of a flattened tree carries what the fetch context names.
pub proof fn lemma_flatten_context_tree(c: RedditComment, ctx: FetchContext)
    ensures
        forall|i: int|
            0 <= i < flat_one(c, ctx).len() ==> carries_context(#[trigger] flat_one(c, ctx)[i], ctx),
    decreases c, 1int,
{
    let head = seq![comment_of(c, ctx, utc_text(c.created_utc as int)->0)];
    match c.replies {
        Replies::Listing(kids) => {
            lemma_flatten_context(kids@, ctx);
            let rest = flat_all(kids@, ctx);
            assert forall|i: int| 0 <= i < flat_one(c, ctx).len() implies carries_context(
                #[trigger] flat_one(c, ctx)[i],
                ctx,
            ) by {
                if i < 1 {
                    assert((head + rest)[i] == head[i]);
                } else {
                    assert((head + rest)[i] == rest[i - 1]);
                }
            }
        },
        _ => {
            assert(flat_one(c, ctx) =~= head);
        },
    }
}

/// Appends the records of `children` to `out`. Stops and returns `false` at
/// the first comment whose instant lies outside the calendar.
fn flatten_into(
    children: &Vec<RedditComment>,
    post_id: &str,
    subreddit: &str,
    post_title: &str,
    out: &mut Vec<CommentDataWrapper>,
) -> (ok: bool)
    ensures
        ok == all_dated(children@),
        ok ==> comment_records(final(out)@) == comment_records(old(out)@) + flat_all(
            children@,
            FetchContext { post_id: post_id@, subreddit: subreddit@, post_title: post_title@ },
        ),
    decreases children,
{
    let ghost ctx = FetchContext {
        post_id: post_id@,
        subreddit: subreddit@,
        post_title: post_title@,
    };
    let ghost before = comment_records(out@);
    let mut i: usize = 0;
    assert(comment_records(out@) =~= before + flat_all(children@.take(0), ctx));
    while i < children.len()
        invariant
            i <= children.len(),
            all_dated(children@.take(i as int)),
            comment_records(out@) == before + flat_all(children@.take(i as int), ctx),
            ctx == (FetchContext {
                post_id: post_id@,
                subreddit: subreddit@,
                post_title: post_title@,
            }),
        decreases children.len() - i,
    {
        let c = &children[i];
        proof {
            assert(children@.take(i + 1).drop_last() =~= children@.take(i as int));
            assert(children@.take(i + 1).last() == children@[i as int]);
            if all_dated(children@) {
                lemma_all_dated_prefix(children@, i + 1);
                assert(tree_dated(children@[i as int]));
            }
            assert(all_dated(children@) ==> tree_dated(*c));
        }
        let ghost so_far = comment_records(out@);
        match DB::format_timestamp(c.created_utc) {
            None => {
                return false;
            },
            Some(date) => {
                out.push(comment_from_parts(c, post_id, subreddit, post_title, date));
            },
        }
        assert(comment_records(out@) =~= so_far + seq![
            comment_of(*c, ctx, utc_text(c.created_utc as int)->0),
        ]);
        match &c.replies {
            Replies::Listing(kids) => {
                if !flatten_into(kids, post_id, subreddit, post_title, out) {
                    return false;
                }
            },
            _ => {},
        }
        assert(comment_records(out@) =~= so_far + flat_one(*c, ctx));
        assert(tree_dated(*c));
        assert(all_dated(children@.take(i + 1)));
        assert(comment_records(out@) =~= before + flat_all(children@.take(i + 1), ctx));
        i += 1;
    }
    assert(children@.take(i as int) =~= children@);
    true
}

/// Flattens a reply tree into the list of its comments, in pre-order: each
/// comment is followed by its replies, and those by its next sibling. Every
/// record carries `post_id`, `subreddit` and `post_title` as given. Replies
/// that are absent or malformed are no replies. Fails with `ParseError` exactly
/// when some comment's instant lies outside the calendar.
pub fn flatten(children: &Vec<RedditComment>, post_id: &str, subreddit: &str, post_title: &str)
    -> (r: Result<Vec<CommentDataWrapper>, RedditError>)
    ensures
        match r {
            Ok(v) => all_dated(children@) && comment_records(v@) == flat_all(
                children@,
                FetchContext { post_id: post_id@, subreddit: subreddit@, post_title: post_title@ },
            ),
            Err(e) => !all_dated(children@) && e.is_parse_error(undated_message()),
        },
{
    let mut out: Vec<CommentDataWrapper> = Vec::new();
    assert(comment_records(out@) =~= Seq::<CommentRecord>::empty());
    if flatten_into(children, post_id, subreddit, post_title, &mut out) {
        assert(Seq::<CommentRecord>::empty() + flat_all(
            children@,
            FetchContext { post_id: post_id@, subreddit: subreddit@, post_title: post_title@ },
        ) =~= flat_all(
            children@,
            FetchContext { post_id: post_id@, subreddit: subreddit@, post_title: post_title@ },
        ));
        Ok(out)
    } else {
        Err(RedditError::ParseError("Invalid timestamp".to_owned()))
    }
}

} // verus!
