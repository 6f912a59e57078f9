//! Merging the results of one query across its sort facets: one record per
//! post identity, with every facet under which the post was seen.

use vstd::prelude::*;
use crate::database::records::{
    distinct_ids, find_post, lemma_position_of, position_of, post_records, PostDataWrapper,
    PostRecord,
};
use crate::models::facets::{
    add_facet, comma_free, lemma_split_comma_free, lemma_with_facet_pieces, split_commas,
    with_facet,
};
use crate::models::search::RedditError;

verus! {

/// The merged rows after one post was seen under `facet`. A post whose
/// identity is present adds the facet to the row that is there and leaves the
/// rest of that row as it is; a new identity is added at the end, with the
/// facet as its whole facet field.
pub open spec fn merge_one(acc: Seq<PostRecord>, post: PostRecord, facet: Seq<char>) -> Seq<
    PostRecord,
> {
    match position_of(acc, post.id) {
        Some(i) => acc.update(
            i,
            PostRecord { sort_type: with_facet(acc[i].sort_type, facet), ..acc[i] },
        ),
        None => acc.push(PostRecord { sort_type: facet, ..post }),
    }
}

/// The merged rows after the posts of one facet were seen, in their order.
pub open spec fn merge_facet(acc: Seq<PostRecord>, posts: Seq<PostRecord>, facet: Seq<char>) -> Seq<
    PostRecord,
>
    decreases posts.len(),
{
    if posts.len() == 0 {
        acc
    } else {
        merge_one(merge_facet(acc, posts.drop_last(), facet), posts.last(), facet)
    }
}

/// Merging one post keeps the identities distinct, keeps every row that was
/// there in its place and identity, and leaves a row with the identity of the
/// post.
pub proof fn lemma_merge_one(acc: Seq<PostRecord>, post: PostRecord, facet: Seq<char>)
    requires
        distinct_ids(acc),
    ensures
        distinct_ids(merge_one(acc, post, facet)),
        merge_one(acc, post, facet).len() >= acc.len(),
        forall|i: int| 0 <= i < acc.len() ==> (#[trigger] merge_one(acc, post, facet)[i]).id == acc[i].id,
        position_of(merge_one(acc, post, facet), post.id) is Some,
{
    lemma_position_of(acc, post.id);
    let merged = merge_one(acc, post, facet);
    lemma_position_of(merged, post.id);
    match position_of(acc, post.id) {
        Some(i) => {
            assert(merged[i].id == post.id);
        },
        None => {
            assert(merged[acc.len() as int].id == post.id);
        },
    }
}

/// Merging the posts of a facet keeps the identities distinct and keeps every
/// row that was there in its place and identity.
pub proof fn lemma_merge_facet(acc: Seq<PostRecord>, posts: Seq<PostRecord>, facet: Seq<char>)
    requires
        distinct_ids(acc),
    ensures
        distinct_ids(merge_facet(acc, posts, facet)),
        merge_facet(acc, posts, facet).len() >= acc.len(),
        forall|i: int|
            0 <= i < acc.len() ==> (#[trigger] merge_facet(acc, posts, facet)[i]).id == acc[i].id,
    decreases posts.len(),
{
    if posts.len() > 0 {
        lemma_merge_facet(acc, posts.drop_last(), facet);
        lemma_merge_one(merge_facet(acc, posts.drop_last(), facet), posts.last(), facet);
    }
}

/// Sees one post under `facet`.
pub fn merge_post(acc: &mut Vec<PostDataWrapper>, post: &PostDataWrapper, facet: &str)
    ensures
        post_records(final(acc)@) == merge_one(post_records(old(acc)@), post@, facet@),
{
    let ghost before = post_records(acc@);
    match find_post(acc, post.id) {
        Some(i) => {
            let field = add_facet(acc[i].sort_type.as_str(), facet);
            acc[i].sort_type = field;
            assert(post_records(acc@) =~= merge_one(before, post@, facet@));
        },
        None => {
            let mut fresh = post.clone();
            fresh.sort_type = facet.to_owned();
            acc.push(fresh);
            assert(post_records(acc@) =~= merge_one(before, post@, facet@));
        },
    }
}

/// Sees the posts of one facet, in their order.
pub fn merge_posts(acc: &mut Vec<PostDataWrapper>, posts: &[PostDataWrapper], facet: &str)
    ensures
        post_records(final(acc)@) == merge_facet(
            post_records(old(acc)@),
            post_records(posts@),
            facet@,
        ),
{
    let ghost before = post_records(acc@);
    let mut i: usize = 0;
    assert(post_records(posts@).take(0) =~= Seq::<PostRecord>::empty());
    while i < posts.len()
        invariant
            i <= posts.len(),
            post_records(acc@) == merge_facet(before, post_records(posts@).take(i as int), facet@),
        decreases posts.len() - i,
    {
        proof {
            let upto = post_records(posts@).take(i + 1);
            assert(upto.drop_last() =~= post_records(posts@).take(i as int));
            assert(upto.last() == posts@[i as int]@);
        }
        merge_post(acc, &posts[i], facet);
        i += 1;
    }
    assert(post_records(posts@).take(i as int) =~= post_records(posts@));
}

/// What one facet of a query came to: the posts that its request delivered,
/// or the reason why it delivered none.
#[derive(Debug)]
pub struct FacetOutcome {
    pub facet: String,
    pub posts: Result<Vec<PostDataWrapper>, RedditError>,
}

/// The merged rows after the outcomes of the facets were seen, in their
/// order. A facet that failed contributes nothing and stops nothing.
pub open spec fn merge_all(acc: Seq<PostRecord>, outcomes: Seq<FacetOutcome>) -> Seq<PostRecord>
    decreases outcomes.len(),
{
    if outcomes.len() == 0 {
        acc
    } else {
        let init = merge_all(acc, outcomes.drop_last());
        match outcomes.last().posts {
            Ok(posts) => merge_facet(init, post_records(posts@), outcomes.last().facet@),
            Err(_) => init,
        }
    }
}

/// Merges the outcomes of all facets of one query: every post identity once,
/// in the order of first appearance, each with the facets of the successful
/// requests that delivered it.
pub fn merge_outcomes(outcomes: &Vec<FacetOutcome>) -> (r: Vec<PostDataWrapper>)
    ensures
        post_records(r@) == merge_all(Seq::empty(), outcomes@),
        distinct_ids(post_records(r@)),
{
    let mut acc: Vec<PostDataWrapper> = Vec::new();
    let mut i: usize = 0;
    assert(post_records(acc@) =~= Seq::<PostRecord>::empty());
    assert(outcomes@.take(0) =~= Seq::<FacetOutcome>::empty());
    while i < outcomes.len()
        invariant
            i <= outcomes.len(),
            post_records(acc@) == merge_all(Seq::empty(), outcomes@.take(i as int)),
            distinct_ids(post_records(acc@)),
        decreases outcomes.len() - i,
    {
        proof {
            assert(outcomes@.take(i + 1).drop_last() =~= outcomes@.take(i as int));
            assert(outcomes@.take(i + 1).last() == outcomes@[i as int]);
        }
        match &outcomes[i].posts {
            Ok(posts) => {
                proof {
                    lemma_merge_facet(
                        post_records(acc@),
                        post_records(posts@),
                        outcomes@[i as int].facet@,
                    );
                }
                merge_posts(&mut acc, posts.as_slice(), outcomes[i].facet.as_str());
            },
            Err(_) => {},
        }
        i += 1;
    }
    assert(outcomes@.take(i as int) =~= outcomes@);
    acc
}

/// A facet that failed makes no difference to the merged rows: they are what
/// the other facets alone would have given.
pub proof fn lemma_failed_facet_is_skipped(acc: Seq<PostRecord>, outcomes: Seq<FacetOutcome>, k: int)
    requires
        0 <= k < outcomes.len(),
        outcomes[k].posts is Err,
    ensures
        merge_all(acc, outcomes) == merge_all(acc, outcomes.remove(k)),
    decreases outcomes.len(),
{
    if k == outcomes.len() - 1 {
        assert(outcomes.remove(k) =~= outcomes.drop_last());
    } else {
        lemma_failed_facet_is_skipped(acc, outcomes.drop_last(), k);
        assert(outcomes.remove(k).drop_last() =~= outcomes.drop_last().remove(k));
        assert(outcomes.remove(k).last() == outcomes.last());
    }
}

/// Some row has the identity `id`.
pub open spec fn holds_id(rows: Seq<PostRecord>, id: int) -> bool {
    exists|i: int| 0 <= i < rows.len() && (#[trigger] rows[i]).id == id
}

/// Some facet that succeeded delivered a post of identity `id`.
pub open spec fn delivered(outcomes: Seq<FacetOutcome>, id: int) -> bool {
    exists|k: int|
        0 <= k < outcomes.len() && (#[trigger] outcomes[k]).posts is Ok && holds_id(
            post_records(outcomes[k].posts->Ok_0@),
            id,
        )
}

/// After a post was seen the rows hold the identities that they held, and
/// the identity of the post.
pub proof fn lemma_merge_one_ids(acc: Seq<PostRecord>, post: PostRecord, facet: Seq<char>, id: int)
    ensures
        holds_id(merge_one(acc, post, facet), id) <==> holds_id(acc, id) || post.id == id,
{
    let merged = merge_one(acc, post, facet);
    lemma_position_of(acc, post.id);
    match position_of(acc, post.id) {
        Some(at) => {
            assert(acc[at].id == post.id);
            if holds_id(merged, id) {
                let i = choose|i: int| 0 <= i < merged.len() && (#[trigger] merged[i]).id == id;
                assert(acc[i].id == id);
            }
            if holds_id(acc, id) {
                let i = choose|i: int| 0 <= i < acc.len() && (#[trigger] acc[i]).id == id;
                assert(merged[i].id == id);
            }
        },
        None => {
            if holds_id(merged, id) {
                let i = choose|i: int| 0 <= i < merged.len() && (#[trigger] merged[i]).id == id;
                if i < acc.len() {
                    assert(acc[i].id == id);
                }
            }
            if holds_id(acc, id) {
                let i = choose|i: int| 0 <= i < acc.len() && (#[trigger] acc[i]).id == id;
                assert(merged[i].id == id);
            }
            if post.id == id {
                assert(merged[acc.len() as int].id == id);
            }
        },
    }
}

/// After the posts of a facet were seen the rows hold the identities that
/// they held, and those of the posts.
pub proof fn lemma_merge_facet_ids(
    acc: Seq<PostRecord>,
    posts: Seq<PostRecord>,
    facet: Seq<char>,
    id: int,
)
    ensures
        holds_id(merge_facet(acc, posts, facet), id) <==> holds_id(acc, id) || holds_id(posts, id),
    decreases posts.len(),
{
    if posts.len() > 0 {
        let init = posts.drop_last();
        lemma_merge_facet_ids(acc, init, facet, id);
        lemma_merge_one_ids(merge_facet(acc, init, facet), posts.last(), facet, id);
        if holds_id(posts, id) {
            let i = choose|i: int| 0 <= i < posts.len() && (#[trigger] posts[i]).id == id;
            if i < init.len() {
                assert(init[i].id == id);
            }
        }
        if holds_id(init, id) {
            let i = choose|i: int| 0 <= i < init.len() && (#[trigger] init[i]).id == id;
            assert(posts[i].id == id);
        }
        if posts.last().id == id {
            assert(posts[posts.len() - 1].id == id);
        }
    }
}

/// The identities of the merged rows are those that were there and those
/// that some successful facet delivered. So the order in which the facets are
/// asked makes no difference to which posts are found: it shows only in the
/// order of the rows and of the facets within a facet field.
pub proof fn lemma_merged_identities(acc: Seq<PostRecord>, outcomes: Seq<FacetOutcome>, id: int)
    ensures
        holds_id(merge_all(acc, outcomes), id) <==> holds_id(acc, id) || delivered(outcomes, id),
    decreases outcomes.len(),
{
    if outcomes.len() > 0 {
        let init = outcomes.drop_last();
        let last = outcomes.last();
        lemma_merged_identities(acc, init, id);
        match last.posts {
            Ok(posts) => {
                lemma_merge_facet_ids(merge_all(acc, init), post_records(posts@), last.facet@, id);
            },
            Err(_) => {},
        }
        if delivered(outcomes, id) {
            let k = choose|k: int|
                0 <= k < outcomes.len() && (#[trigger] outcomes[k]).posts is Ok && holds_id(
                    post_records(outcomes[k].posts->Ok_0@),
                    id,
                );
            if k < init.len() {
                assert(init[k] == outcomes[k]);
            }
        }
        if delivered(init, id) {
            let k = choose|k: int|
                0 <= k < init.len() && (#[trigger] init[k]).posts is Ok && holds_id(
                    post_records(init[k].posts->Ok_0@),
                    id,
                );
            assert(outcomes[k] == init[k]);
        }
        if last.posts is Ok && holds_id(post_records(last.posts->Ok_0@), id) {
            assert(outcomes[outcomes.len() - 1] == last);
        }
    }
}

/// No row lists a facet twice.
pub open spec fn facets_listed_once(rows: Seq<PostRecord>) -> bool {
    forall|i: int| 0 <= i < rows.len() ==> split_commas((#[trigger] rows[i]).sort_type).no_duplicates()
}

/// Seeing a post under a facet without commas leaves no row that lists a
/// facet twice, and the row of the post lists the facet.
pub proof fn lemma_merge_one_facets(acc: Seq<PostRecord>, post: PostRecord, facet: Seq<char>)
    requires
        comma_free(facet),
        facets_listed_once(acc),
    ensures
        facets_listed_once(merge_one(acc, post, facet)),
        position_of(merge_one(acc, post, facet), post.id) is Some,
        split_commas(
            merge_one(acc, post, facet)[position_of(merge_one(acc, post, facet), post.id)->0].sort_type,
        ).contains(facet),
{
    let merged = merge_one(acc, post, facet);
    lemma_position_of(acc, post.id);
    lemma_position_of(merged, post.id);
    match position_of(acc, post.id) {
        Some(i) => {
            lemma_with_facet_pieces(acc[i].sort_type, facet);
            assert(merged[i].id == post.id);
            assert forall|k: int| 0 <= k < merged.len() implies split_commas(
                (#[trigger] merged[k]).sort_type,
            ).no_duplicates() by {
                if k != i {
                    assert(merged[k] == acc[k]);
                }
            }
        },
        None => {
            lemma_split_comma_free(facet);
            assert(merged[acc.len() as int].id == post.id);
            assert(seq![facet][0] == facet);
            assert forall|k: int| 0 <= k < merged.len() implies split_commas(
                (#[trigger] merged[k]).sort_type,
            ).no_duplicates() by {
                if k < acc.len() {
                    assert(merged[k] == acc[k]);
                }
            }
        },
    }
}

/// A post that is seen under one facet and then under another has both in its
/// facet field, the first one first, joined by a comma; seeing it again under
/// either of them changes nothing.
pub proof fn lemma_seen_under_two_facets(post: PostRecord, first: Seq<char>, second: Seq<char>)
    requires
        comma_free(first),
        comma_free(second),
        first != second,
    ensures
        ({
            let both = merge_one(merge_one(Seq::empty(), post, first), post, second);
            &&& both == seq![PostRecord { sort_type: first + ","@ + second, ..post }]
            &&& split_commas(both[0].sort_type) == seq![first, second]
            &&& merge_one(both, post, first) == both
            &&& merge_one(both, post, second) == both
        }),
{
    let none = Seq::<PostRecord>::empty();
    let once = merge_one(none, post, first);
    let seen = PostRecord { sort_type: first, ..post };
    assert(once =~= seq![seen]);
    lemma_position_of(once, post.id);
    assert(once[0].id == post.id);
    assert(position_of(once, post.id) == Some(0int));
    lemma_split_comma_free(first);
    assert(seq![first][0] == first);
    assert(!split_commas(first).contains(second));
    lemma_with_facet_pieces(first, second);
    let both = merge_one(once, post, second);
    let field = first + ","@ + second;
    assert(both =~= seq![PostRecord { sort_type: field, ..post }]);
    lemma_position_of(both, post.id);
    assert(both[0].id == post.id);
    assert(position_of(both, post.id) == Some(0int));
    let pieces = split_commas(field);
    assert(pieces =~= seq![first, second]);
    assert(pieces[0] == first && pieces[1] == second);
    assert(merge_one(both, post, first) =~= both);
    assert(merge_one(both, post, second) =~= both);
}

} // verus!
