//! The facet field of a post: the sort facets under which the post was seen,
//! joined by commas, each facet once, in the order in which it was first seen.

use vstd::prelude::*;
use crate::text::{chars_of, matches_at, occurs_at};

verus! {

/// The pieces of a text between its commas. A text without commas is one
/// piece; the empty text is one empty piece.
pub open spec fn split_commas(s: Seq<char>) -> Seq<Seq<char>>
    decreases s.len(),
{
    if s.len() == 0 {
        seq![Seq::empty()]
    } else {
        let init = split_commas(s.drop_last());
        if s.last() == ',' {
            init.push(Seq::empty())
        } else {
            init.drop_last().push(init.last().push(s.last()))
        }
    }
}

/// The facet is one of the pieces of the facet field.
pub open spec fn facet_listed(field: Seq<char>, facet: Seq<char>) -> bool {
    split_commas(field).contains(facet)
}

/// The facet field after `facet` was seen: unchanged where the facet is
/// listed already, else with a comma and the facet at its end.
pub open spec fn with_facet(field: Seq<char>, facet: Seq<char>) -> Seq<char> {
    if facet_listed(field, facet) {
        field
    } else {
        field + ","@ + facet
    }
}

/// The text holds no comma.
pub open spec fn comma_free(s: Seq<char>) -> bool {
    forall|i: int| 0 <= i < s.len() ==> s[i] != ','
}

/// A text without commas is its own single piece.
pub proof fn lemma_split_comma_free(s: Seq<char>)
    requires
        comma_free(s),
    ensures
        split_commas(s) == seq![s],
    decreases s.len(),
{
    if s.len() == 0 {
        assert(s =~= Seq::<char>::empty());
    } else {
        lemma_split_comma_free(s.drop_last());
        let init = split_commas(s.drop_last());
        assert(init.last().push(s.last()) =~= s);
        assert(init.drop_last().push(s) =~= seq![s]);
    }
}

/// Joining a facet without commas to a field adds exactly one piece, the
/// facet, behind the pieces of the field.
pub proof fn lemma_split_join(field: Seq<char>, facet: Seq<char>)
    requires
        comma_free(facet),
    ensures
        split_commas(field + seq![','] + facet) == split_commas(field).push(facet),
    decreases facet.len(),
{
    let joined = field + seq![','] + facet;
    if facet.len() == 0 {
        assert(joined.drop_last() =~= field);
        assert(facet =~= Seq::<char>::empty());
    } else {
        let shorter = facet.drop_last();
        lemma_split_join(field, shorter);
        assert(joined.drop_last() =~= field + seq![','] + shorter);
        assert(joined.last() == facet.last());
        let init = split_commas(joined.drop_last());
        assert(init.last() == shorter);
        assert(init.drop_last() =~= split_commas(field));
        assert(shorter.push(facet.last()) =~= facet);
    }
}

/// What seeing a facet does to the list of facets of a field: nothing where
/// the facet is listed, else the facet comes last. So a field that lists no
/// facet twice never comes to list one twice, and the facets keep the order in
/// which they were first seen.
pub proof fn lemma_with_facet_pieces(field: Seq<char>, facet: Seq<char>)
    requires
        comma_free(facet),
    ensures
        split_commas(with_facet(field, facet)) == if split_commas(field).contains(facet) {
            split_commas(field)
        } else {
            split_commas(field).push(facet)
        },
        facet_listed(with_facet(field, facet), facet),
        split_commas(field).no_duplicates() ==> split_commas(
            with_facet(field, facet),
        ).no_duplicates(),
{
    reveal_strlit(",");
    assert(","@ =~= seq![',']);
    if !facet_listed(field, facet) {
        lemma_split_join(field, facet);
        let pieces = split_commas(field);
        assert(pieces.push(facet)[pieces.len() as int] == facet);
    }
}

/// Seeing a facet a second time changes nothing.
pub proof fn lemma_with_facet_idempotent(field: Seq<char>, facet: Seq<char>)
    requires
        comma_free(facet),
    ensures
        with_facet(with_facet(field, facet), facet) == with_facet(field, facet),
{
    lemma_with_facet_pieces(field, facet);
}

/// A sequence with a last element contains a value exactly when the value is
/// that element or stands before it.
proof fn lemma_contains_last<A>(s: Seq<A>, x: A)
    requires
        s.len() > 0,
    ensures
        s.contains(x) <==> (s.drop_last().contains(x) || s.last() == x),
{
    if s.contains(x) {
        let i = choose|i: int| 0 <= i < s.len() && s[i] == x;
        if i < s.len() - 1 {
            assert(s.drop_last()[i] == x);
        }
    }
    if s.drop_last().contains(x) {
        let i = choose|i: int| 0 <= i < s.drop_last().len() && s.drop_last()[i] == x;
        assert(s[i] == x);
    }
    if s.last() == x {
        assert(s[s.len() - 1] == x);
    }
}

/// Whether the characters of `hay` from `from` up to `to` are those of `piece`.
fn piece_equals(hay: &Vec<char>, from: usize, to: usize, piece: &Vec<char>) -> (r: bool)
    requires
        from <= to <= hay.len(),
    ensures
        r == (hay@.subrange(from as int, to as int) == piece@),
{
    if to - from != piece.len() {
        return false;
    }
    matches_at(hay, piece, from)
}

/// Whether the facet field lists the facet.
pub fn has_facet(field: &str, facet: &str) -> (r: bool)
    ensures
        r == facet_listed(field@, facet@),
{
    let hay = chars_of(field);
    let piece = chars_of(facet);
    let mut start: usize = 0;
    let mut found = false;
    let mut j: usize = 0;
    proof {
        assert(hay@.take(0) =~= Seq::<char>::empty());
        assert(hay@.subrange(0, 0) =~= Seq::<char>::empty());
        assert(split_commas(hay@.take(0)).drop_last() =~= Seq::<Seq<char>>::empty());
    }
    while j < hay.len()
        invariant
            j <= hay.len(),
            start <= j,
            split_commas(hay@.take(j as int)).len() >= 1,
            split_commas(hay@.take(j as int)).last() == hay@.subrange(start as int, j as int),
            found == split_commas(hay@.take(j as int)).drop_last().contains(piece@),
        decreases hay.len() - j,
    {
        let ghost init = split_commas(hay@.take(j as int));
        proof {
            assert(hay@.take(j + 1).drop_last() =~= hay@.take(j as int));
            assert(hay@.take(j + 1).last() == hay@[j as int]);
            lemma_contains_last(init, piece@);
        }
        if hay[j] == ',' {
            if piece_equals(&hay, start, j, &piece) {
                found = true;
            }
            start = j + 1;
            proof {
                assert(init.push(Seq::<char>::empty()).drop_last() =~= init);
                assert(hay@.subrange(j + 1, j + 1) =~= Seq::<char>::empty());
            }
        } else {
            proof {
                let grown = init.last().push(hay@[j as int]);
                assert(grown =~= hay@.subrange(start as int, j + 1));
                assert(init.drop_last().push(grown).drop_last() =~= init.drop_last());
            }
        }
        j += 1;
    }
    proof {
        assert(hay@.take(j as int) =~= hay@);
        lemma_contains_last(split_commas(hay@), piece@);
    }
    found || piece_equals(&hay, start, j, &piece)
}

/// The facet field after `facet` was seen under it.
pub fn add_facet(field: &str, facet: &str) -> (r: String)
    ensures
        r@ == with_facet(field@, facet@),
{
    if has_facet(field, facet) {
        field.to_owned()
    } else {
        field.to_owned().concat(",").concat(facet)
    }
}

} // verus!
