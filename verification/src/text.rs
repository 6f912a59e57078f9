//! Text primitives shared by the other modules: character access, substring
//! search and replacement, case folding, trimming, joining and decimal forms.

use vstd::prelude::*;

verus! {

/// The character sequences of a list of texts.
pub open spec fn texts(v: Seq<String>) -> Seq<Seq<char>> {
    Seq::new(v.len(), |i: int| v[i]@)
}

/// `needle` stands in `hay` at character offset `i`.
pub open spec fn occurs_at(needle: Seq<char>, hay: Seq<char>, i: int) -> bool {
    &&& 0 <= i
    &&& i + needle.len() <= hay.len()
    &&& hay.subrange(i, i + needle.len()) == needle
}

/// `needle` occurs somewhere in `hay` as a contiguous run of characters.
/// The empty text occurs in every text.
pub open spec fn is_substring(needle: Seq<char>, hay: Seq<char>) -> bool {
    exists|i: int| #[trigger] occurs_at(needle, hay, i)
}

/// The lower-case form of a text as the standard library computes it
/// (`str::to_lowercase`, which follows the Unicode case mappings).
pub uninterp spec fn lowercase_text(s: Seq<char>) -> Seq<char>;

/// Calls `str::to_lowercase`. Nothing is claimed of the result but that it is
/// the standard library's lower-case form of the argument.
#[verifier::external_body]
pub(crate) fn lowercase(s: &str) -> (r: String)
    ensures
        r@ == lowercase_text(s@),
{
    s.to_lowercase()
}

/// The characters of `s`, in order.
pub fn chars_of(s: &str) -> (r: Vec<char>)
    ensures
        r@ == s@,
{
    let mut out: Vec<char> = Vec::new();
    for c in it: s.chars()
        invariant
            it.seq() == s@,
            out@ == it.seq().take(it.index()),
    {
        out.push(c);
    }
    out
}

/// Whether two texts hold the same characters.
pub fn same_text(a: &str, b: &str) -> (r: bool)
    ensures
        r == (a@ == b@),
{
    let x = a.to_owned();
    let y = b.to_owned();
    x == y
}

/// Whether `needle` stands in `hay` at offset `at`.
pub fn matches_at(hay: &Vec<char>, needle: &Vec<char>, at: usize) -> (r: bool)
    ensures
        r == occurs_at(needle@, hay@, at as int),
{
    if needle.len() > hay.len() || at > hay.len() - needle.len() {
        return false;
    }
    let mut k: usize = 0;
    while k < needle.len()
        invariant
            k <= needle.len(),
            at + needle.len() <= hay.len(),
            forall|j: int| 0 <= j < k ==> hay@[at + j] == needle@[j],
        decreases needle.len() - k,
    {
        if hay[at + k] != needle[k] {
            proof {
                let sub = hay@.subrange(at as int, at + needle@.len());
                assert(sub[k as int] == hay@[at + k]);
            }
            return false;
        }
        k += 1;
    }
    assert(hay@.subrange(at as int, at + needle@.len()) =~= needle@);
    true
}

/// The least offset at or after `from` at which `needle` stands in `hay`.
pub open spec fn first_occurrence(needle: Seq<char>, hay: Seq<char>, from: int) -> Option<int>
    decreases hay.len() - from + 1,
{
    if from < 0 || from + needle.len() > hay.len() {
        None
    } else if occurs_at(needle, hay, from) {
        Some(from)
    } else {
        first_occurrence(needle, hay, from + 1)
    }
}

/// What `first_occurrence` finds is an occurrence, and none stands between
/// `from` and it; where it finds nothing there is none at or after `from`.
pub proof fn lemma_first_occurrence(needle: Seq<char>, hay: Seq<char>, from: int)
    requires
        0 <= from,
    ensures
        match first_occurrence(needle, hay, from) {
            Some(p) => from <= p && occurs_at(needle, hay, p) && forall|j: int|
                from <= j < p ==> !occurs_at(needle, hay, j),
            None => forall|j: int| from <= j ==> !occurs_at(needle, hay, j),
        },
    decreases hay.len() - from + 1,
{
    if from + needle.len() > hay.len() {
    } else if occurs_at(needle, hay, from) {
    } else {
        lemma_first_occurrence(needle, hay, from + 1);
    }
}

/// Searches `hay` for `needle` from offset `from` on.
pub fn find_from(hay: &Vec<char>, needle: &Vec<char>, from: usize) -> (r: Option<usize>)
    ensures
        match r {
            Some(p) => first_occurrence(needle@, hay@, from as int) == Some(p as int),
            None => first_occurrence(needle@, hay@, from as int).is_none(),
        },
{
    if needle.len() > hay.len() {
        return None;
    }
    let last: usize = hay.len() - needle.len();
    let mut i: usize = from;
    while i <= last
        invariant
            from <= i,
            last == hay.len() - needle.len(),
            first_occurrence(needle@, hay@, from as int) == first_occurrence(
                needle@,
                hay@,
                i as int,
            ),
        decreases last - i,
    {
        if matches_at(hay, needle, i) {
            return Some(i);
        }
        if i == last {
            assert(first_occurrence(needle@, hay@, i + 1).is_none());
            return None;
        }
        i += 1;
    }
    None
}

/// Whether `needle` occurs somewhere in `hay`.
pub fn contains_text(hay: &str, needle: &str) -> (r: bool)
    ensures
        r == is_substring(needle@, hay@),
{
    let text = chars_of(hay);
    let wanted = chars_of(needle);
    proof {
        lemma_first_occurrence(needle@, hay@, 0);
    }
    match find_from(&text, &wanted, 0) {
        Some(p) => {
            assert(occurs_at(needle@, hay@, p as int));
            true
        },
        None => false,
    }
}

/// `s` with every occurrence of `from` replaced by `to`, the occurrences taken
/// from the left and not overlapping. An empty `from` occurs nowhere.
pub open spec fn replaced(s: Seq<char>, from: Seq<char>, to: Seq<char>) -> Seq<char>
    decreases s.len(),
{
    if from.len() == 0 || s.len() == 0 {
        s
    } else if occurs_at(from, s, 0) {
        to + replaced(s.skip(from.len() as int), from, to)
    } else {
        seq![s[0]] + replaced(s.skip(1), from, to)
    }
}

/// `s` with every occurrence of `from` replaced by `to`.
pub fn replace_all(s: &str, from: &str, to: &str) -> (r: String)
    ensures
        r@ == replaced(s@, from@, to@),
{
    let hay = chars_of(s);
    let pattern = chars_of(from);
    if pattern.len() == 0 {
        return s.to_owned();
    }
    let mut out = String::new();
    let mut kept: usize = 0;
    let mut i: usize = 0;
    proof {
        assert(s@.skip(0) =~= s@);
        assert(out@ + s@.subrange(0, 0) + replaced(s@, from@, to@) =~= replaced(s@, from@, to@));
    }
    while i < hay.len()
        invariant
            kept <= i <= hay.len(),
            hay@ == s@,
            pattern@ == from@,
            pattern.len() > 0,
            replaced(s@, from@, to@) == out@ + s@.subrange(kept as int, i as int) + replaced(
                s@.skip(i as int),
                from@,
                to@,
            ),
        decreases hay.len() - i,
    {
        let ghost rest = s@.skip(i as int);
        proof {
            assert(rest.len() > 0);
            if i + from@.len() <= s@.len() {
                assert(rest.subrange(0, from@.len() as int) =~= s@.subrange(
                    i as int,
                    i + from@.len(),
                ));
            }
        }
        if matches_at(&hay, &pattern, i) {
            proof {
                assert(rest.skip(from@.len() as int) =~= s@.skip(i + from@.len()));
            }
            out = out.concat(slice_text(s, kept, i).as_str()).concat(to);
            i += pattern.len();
            kept = i;
            proof {
                assert(s@.subrange(kept as int, i as int) =~= Seq::<char>::empty());
            }
        } else {
            proof {
                assert(rest.skip(1) =~= s@.skip(i + 1));
                assert(s@.subrange(kept as int, i as int) + seq![rest[0]] =~= s@.subrange(
                    kept as int,
                    i + 1,
                ));
            }
            i += 1;
        }
    }
    proof {
        assert(s@.skip(i as int).len() == 0);
    }
    let r = out.concat(slice_text(s, kept, i).as_str());
    assert(r@ =~= replaced(s@, from@, to@));
    r
}

/// A text without its leading and trailing white space, as the standard
/// library trims it (`str::trim`, which goes by the Unicode property
/// `White_Space`).
pub uninterp spec fn trimmed(s: Seq<char>) -> Seq<char>;

/// Calls `str::trim`. Nothing is claimed of the result but that it is the
/// standard library's trimmed form of the argument.
#[verifier::external_body]
pub(crate) fn trim_text(s: &str) -> (r: &str)
    ensures
        r@ == trimmed(s@),
{
    s.trim()
}

/// `s` without every copy of `prefix` that it starts with. An empty prefix
/// takes nothing away.
pub open spec fn without_leading(s: Seq<char>, prefix: Seq<char>) -> Seq<char>
    decreases s.len(),
{
    if prefix.len() > 0 && occurs_at(prefix, s, 0) {
        without_leading(s.skip(prefix.len() as int), prefix)
    } else {
        s
    }
}

/// `s` without every copy of `suffix` that it ends with. An empty suffix
/// takes nothing away.
pub open spec fn without_trailing(s: Seq<char>, suffix: Seq<char>) -> Seq<char>
    decreases s.len(),
{
    if suffix.len() > 0 && occurs_at(suffix, s, s.len() - suffix.len()) {
        without_trailing(s.take(s.len() - suffix.len()), suffix)
    } else {
        s
    }
}

/// The offset behind the leading copies of `prefix`, for the characters from
/// offset `from` up to offset `to`.
fn leading_run(hay: &Vec<char>, prefix: &Vec<char>, from: usize, to: usize) -> (k: usize)
    requires
        from <= to <= hay.len(),
    ensures
        from <= k <= to,
        without_leading(hay@.subrange(from as int, to as int), prefix@) == hay@.subrange(
            k as int,
            to as int,
        ),
{
    let mut k: usize = from;
    if prefix.len() == 0 {
        return k;
    }
    while to - k >= prefix.len() && matches_at(hay, prefix, k)
        invariant
            from <= k <= to <= hay.len(),
            prefix.len() > 0,
            without_leading(hay@.subrange(from as int, to as int), prefix@) == without_leading(
                hay@.subrange(k as int, to as int),
                prefix@,
            ),
        decreases to - k,
    {
        proof {
            let rest = hay@.subrange(k as int, to as int);
            assert(rest.subrange(0, prefix@.len() as int) =~= hay@.subrange(
                k as int,
                k + prefix@.len(),
            ));
            assert(rest.skip(prefix@.len() as int) =~= hay@.subrange(
                k + prefix@.len(),
                to as int,
            ));
        }
        k += prefix.len();
    }
    proof {
        let rest = hay@.subrange(k as int, to as int);
        if to - k >= prefix.len() {
            assert(rest.subrange(0, prefix@.len() as int) =~= hay@.subrange(
                k as int,
                k + prefix@.len(),
            ));
        }
    }
    k
}

/// The offset before which the trailing copies of `suffix` start, for the
/// characters from offset `from` up to offset `to`.
fn trailing_run(hay: &Vec<char>, suffix: &Vec<char>, from: usize, to: usize) -> (k: usize)
    requires
        from <= to <= hay.len(),
    ensures
        from <= k <= to,
        without_trailing(hay@.subrange(from as int, to as int), suffix@) == hay@.subrange(
            from as int,
            k as int,
        ),
{
    let mut k: usize = to;
    if suffix.len() == 0 {
        return k;
    }
    while k - from >= suffix.len() && matches_at(hay, suffix, k - suffix.len())
        invariant
            from <= k <= to <= hay.len(),
            suffix.len() > 0,
            without_trailing(hay@.subrange(from as int, to as int), suffix@) == without_trailing(
                hay@.subrange(from as int, k as int),
                suffix@,
            ),
        decreases k - from,
    {
        proof {
            let rest = hay@.subrange(from as int, k as int);
            assert(rest.subrange(rest.len() - suffix@.len(), rest.len() as int) =~= hay@.subrange(
                k - suffix@.len(),
                k as int,
            ));
            assert(rest.take(rest.len() - suffix@.len()) =~= hay@.subrange(
                from as int,
                k - suffix@.len(),
            ));
        }
        k -= suffix.len();
    }
    proof {
        let rest = hay@.subrange(from as int, k as int);
        if k - from >= suffix.len() {
            assert(rest.subrange(rest.len() - suffix@.len(), rest.len() as int) =~= hay@.subrange(
                k - suffix@.len(),
                k as int,
            ));
        }
    }
    k
}

/// `s` without every copy of `prefix` that it starts with.
pub fn strip_leading(s: &str, prefix: &str) -> (r: String)
    ensures
        r@ == without_leading(s@, prefix@),
{
    let hay = chars_of(s);
    let pre = chars_of(prefix);
    assert(hay@.subrange(0, hay@.len() as int) =~= hay@);
    let k = leading_run(&hay, &pre, 0, hay.len());
    slice_text(s, k, hay.len())
}

/// `s` without every copy of `prefix` that it starts with and then without
/// every copy of `suffix` that it ends with.
pub fn strip_both(s: &str, prefix: &str, suffix: &str) -> (r: String)
    ensures
        r@ == without_trailing(without_leading(s@, prefix@), suffix@),
{
    let hay = chars_of(s);
    let pre = chars_of(prefix);
    let suf = chars_of(suffix);
    assert(hay@.subrange(0, hay@.len() as int) =~= hay@);
    let k = leading_run(&hay, &pre, 0, hay.len());
    let e = trailing_run(&hay, &suf, k, hay.len());
    slice_text(s, k, e)
}

/// Whether `s` starts with `prefix`.
pub fn starts_with(s: &str, prefix: &str) -> (r: bool)
    ensures
        r == occurs_at(prefix@, s@, 0),
{
    let hay = chars_of(s);
    let pre = chars_of(prefix);
    matches_at(&hay, &pre, 0)
}

/// The texts of a list joined by a separator.
pub open spec fn joined(parts: Seq<Seq<char>>, separator: Seq<char>) -> Seq<char>
    decreases parts.len(),
{
    if parts.len() == 0 {
        Seq::empty()
    } else if parts.len() == 1 {
        parts[0]
    } else {
        joined(parts.drop_last(), separator) + separator + parts.last()
    }
}

/// The texts of a list joined by a separator.
pub fn join_texts(parts: &Vec<String>, separator: &str) -> (r: String)
    ensures
        r@ == joined(texts(parts@), separator@),
{
    let ghost views = texts(parts@);
    let mut out = String::new();
    let mut i: usize = 0;
    assert(views.take(0) =~= Seq::<Seq<char>>::empty());
    while i < parts.len()
        invariant
            i <= parts.len(),
            views == texts(parts@),
            out@ == joined(views.take(i as int), separator@),
        decreases parts.len() - i,
    {
        proof {
            assert(views.take(i + 1).drop_last() =~= views.take(i as int));
            assert(views.take(i + 1).last() == parts@[i as int]@);
        }
        if i > 0 {
            out = out.concat(separator);
        } else {
            assert(out@ =~= Seq::<char>::empty());
            assert(views.take(1)[0] == parts@[0]@);
            assert(out@ + parts@[0]@ =~= parts@[0]@);
        }
        out = out.concat(parts[i].as_str());
        i += 1;
    }
    assert(views.take(i as int) =~= views);
    out
}

/// The character of a digit below ten.
pub open spec fn digit_char(d: int) -> char {
    (0x30 + d) as char
}

/// The decimal digits of a natural number, without leading zeros.
pub open spec fn digits(n: nat) -> Seq<char>
    decreases n,
{
    if n < 10 {
        seq![digit_char(n as int)]
    } else {
        digits(n / 10).push(digit_char((n % 10) as int))
    }
}

/// The decimal form of an integer, with a minus sign where it is negative.
pub open spec fn decimal(n: int) -> Seq<char> {
    if n < 0 {
        seq!['-'] + digits((-n) as nat)
    } else {
        digits(n as nat)
    }
}

/// The text of one digit.
fn digit_text(d: u64) -> (r: &'static str)
    requires
        d < 10,
    ensures
        r@ == seq![digit_char(d as int)],
{
    proof {
        reveal_strlit("0");
        reveal_strlit("1");
        reveal_strlit("2");
        reveal_strlit("3");
        reveal_strlit("4");
        reveal_strlit("5");
        reveal_strlit("6");
        reveal_strlit("7");
        reveal_strlit("8");
        reveal_strlit("9");
    }
    let r = if d == 0 {
        "0"
    } else if d == 1 {
        "1"
    } else if d == 2 {
        "2"
    } else if d == 3 {
        "3"
    } else if d == 4 {
        "4"
    } else if d == 5 {
        "5"
    } else if d == 6 {
        "6"
    } else if d == 7 {
        "7"
    } else if d == 8 {
        "8"
    } else {
        "9"
    };
    assert(r@ =~= seq![digit_char(d as int)]);
    r
}

/// The decimal form of a natural number.
pub fn natural_text(n: u64) -> (r: String)
    ensures
        r@ == digits(n as nat),
    decreases n,
{
    if n < 10 {
        digit_text(n).to_owned()
    } else {
        let head = natural_text(n / 10);
        let r = head.concat(digit_text(n % 10));
        assert(r@ =~= digits((n / 10) as nat).push(digit_char((n % 10) as int)));
        r
    }
}

/// The decimal form of an integer.
pub fn decimal_text(n: i64) -> (r: String)
    ensures
        r@ == decimal(n as int),
{
    if n < 0 {
        let magnitude: u64 = if n == i64::MIN {
            9223372036854775808u64
        } else {
            (-n) as u64
        };
        proof {
            reveal_strlit("-");
        }
        let r = "-".to_owned().concat(natural_text(magnitude).as_str());
        assert(r@ =~= seq!['-'] + digits((-n) as nat));
        r
    } else {
        natural_text(n as u64)
    }
}

/// The characters of `s` from offset `from` up to offset `to`, as a text of
/// their own.
pub fn slice_text(s: &str, from: usize, to: usize) -> (r: String)
    requires
        from <= to <= s@.len(),
    ensures
        r@ == s@.subrange(from as int, to as int),
{
    s.substring_char(from, to).to_owned()
}

} // verus!
