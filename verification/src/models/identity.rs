//! The identity of a post: the number that its base-36 item identifier spells.

use vstd::prelude::*;
use crate::text::chars_of;

verus! {

/// The value of one base-36 digit: `0` to `9`, then `a` to `z`.
pub open spec fn base36_digit(c: char) -> Option<int> {
    if '0' as u32 <= c as u32 <= '9' as u32 {
        Some(c as u32 - '0' as u32)
    } else if 'a' as u32 <= c as u32 <= 'z' as u32 {
        Some(c as u32 - 'a' as u32 + 10)
    } else {
        None
    }
}

/// The number that a run of base-36 digits spells, most significant digit
/// first; the empty run spells zero. `None` where some character is no digit.
pub open spec fn base36_value(s: Seq<char>) -> Option<int>
    decreases s.len(),
{
    if s.len() == 0 {
        Some(0)
    } else {
        match (base36_value(s.drop_last()), base36_digit(s.last())) {
            (Some(v), Some(d)) => Some(v * 36 + d),
            _ => None,
        }
    }
}

/// The identity that an item identifier stands for: the identifier must be a
/// non-empty run of base-36 digits whose value fits in 64 bits.
pub open spec fn post_identity(s: Seq<char>) -> Option<int> {
    if s.len() == 0 {
        None
    } else {
        match base36_value(s) {
            Some(v) => if v <= i64::MAX {
                Some(v)
            } else {
                None
            },
            None => None,
        }
    }
}

/// A prefix of a run of digits is a run of digits, and spells no more than the
/// whole run does.
pub proof fn lemma_base36_prefix(s: Seq<char>, k: int)
    requires
        0 <= k <= s.len(),
    ensures
        base36_value(s) is Some ==> base36_value(s.take(k)) is Some && 0 <= base36_value(
            s.take(k),
        )->0 <= base36_value(s)->0,
    decreases s.len(),
{
    if k == s.len() {
        assert(s.take(k) =~= s);
        if s.len() > 0 {
            lemma_base36_prefix(s.drop_last(), k - 1);
            assert(s.drop_last().take(k - 1) =~= s.drop_last());
        }
    } else {
        lemma_base36_prefix(s.drop_last(), k);
        assert(s.drop_last().take(k) =~= s.take(k));
    }
}

/// The value of one base-36 digit.
pub fn digit_value(c: char) -> (r: Option<u8>)
    ensures
        match r {
            Some(d) => base36_digit(c) == Some(d as int) && d < 36,
            None => base36_digit(c).is_none(),
        },
{
    let code: u32 = c as u32;
    if 48 <= code && code <= 57 {
        Some((code - 48) as u8)
    } else if 97 <= code && code <= 122 {
        Some((code - 97 + 10) as u8)
    } else {
        None
    }
}

/// Reads an item identifier as a post identity. `None` where the identifier
/// is empty, holds a character that is no base-36 digit, or spells a number
/// beyond 64 bits.
pub fn parse_post_id(id: &str) -> (r: Option<i64>)
    ensures
        match r {
            Some(v) => post_identity(id@) == Some(v as int),
            None => post_identity(id@).is_none(),
        },
{
    let chars = chars_of(id);
    if chars.len() == 0 {
        return None;
    }
    let mut acc: i64 = 0;
    let mut i: usize = 0;
    while i < chars.len()
        invariant
            i <= chars.len(),
            chars@ == id@,
            0 <= acc,
            base36_value(chars@.take(i as int)) == Some(acc as int),
        decreases chars.len() - i,
    {
        proof {
            assert(chars@.take(i + 1).drop_last() =~= chars@.take(i as int));
            lemma_base36_prefix(chars@, i + 1);
        }
        match digit_value(chars[i]) {
            None => {
                return None;
            },
            Some(d) => {
                if acc > (i64::MAX - d as i64) / 36 {
                    return None;
                }
                acc = acc * 36 + d as i64;
            },
        }
        i += 1;
    }
    assert(chars@.take(i as int) =~= chars@);
    Some(acc)
}

/// The identity of a post, with zero standing for an identifier that cannot
/// be read.
pub fn post_id_or_zero(id: &str) -> (r: i64)
    ensures
        r == match post_identity(id@) {
            Some(v) => v,
            None => 0,
        },
{
    match parse_post_id(id) {
        Some(v) => v,
        None => 0,
    }
}

} // verus!
