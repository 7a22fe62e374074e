//! Calendar dates derived from ISO-8601 timestamps.
//!
//! A post's date is the calendar-date part of its metadata timestamp: the
//! text before the first time separator `'T'`. For a well-formed timestamp
//! this is always the ten characters `YYYY-MM-DD`, which keeps plain
//! lexicographic comparison equal to chronological comparison.

use vstd::prelude::*;

verus! {

/// Index of the first `'T'` in `s`, or `s.len()` when there is none.
pub open spec fn time_sep_index(s: Seq<char>) -> int
    decreases s.len(),
{
    if s.len() == 0 {
        0
    } else if s[0] == 'T' {
        0
    } else {
        1 + time_sep_index(s.skip(1))
    }
}

/// The calendar-date part of a timestamp: everything before the first `'T'`.
pub open spec fn date_part(s: Seq<char>) -> Seq<char> {
    s.take(time_sep_index(s))
}

/// The first `'T'` is at exactly the position before which no `'T'` occurs.
pub proof fn lemma_time_sep_index_is(s: Seq<char>, i: int)
    requires
        0 <= i <= s.len(),
        forall|j: int| 0 <= j < i ==> s[j] != 'T',
        i < s.len() ==> s[i] == 'T',
    ensures
        time_sep_index(s) == i,
    decreases i,
{
    if i == 0 {
    } else {
        assert(s[0] != 'T');
        assert forall|j: int| 0 <= j < i - 1 implies s.skip(1)[j] != 'T' by {
            assert(s.skip(1)[j] == s[j + 1]);
        }
        if i - 1 < s.skip(1).len() {
            assert(s.skip(1)[i - 1] == s[i]);
        }
        lemma_time_sep_index_is(s.skip(1), i - 1);
    }
}

/// Extract the calendar date from an ISO-8601 timestamp: the text before the
/// first `'T'`, or the whole string when no time part is present.
pub fn get_date_from_iso8601(iso8601: &String) -> (r: String)
    ensures
        r@ == date_part(iso8601@),
{
    let s = iso8601.as_str();
    let n = s.unicode_len();
    let mut i: usize = 0;
    while i < n
        invariant
            i <= n,
            n == s@.len(),
            forall|j: int| 0 <= j < i ==> s@[j] != 'T',
        ensures
            i <= n,
            n == s@.len(),
            forall|j: int| 0 <= j < i ==> s@[j] != 'T',
            i < n ==> s@[i as int] == 'T',
        decreases n - i,
    {
        if s.get_char(i) == 'T' {
            break;
        }
        i += 1;
    }
    proof {
        lemma_time_sep_index_is(s@, i as int);
    }
    String::from_str(s.substring_char(0, i))
}

/// A decimal digit.
pub open spec fn is_digit(c: char) -> bool {
    '0' <= c && c <= '9'
}

/// The ten-character `YYYY-MM-DD` shape.
pub open spec fn valid_date_shape(d: Seq<char>) -> bool {
    &&& d.len() == 10
    &&& d[4] == '-'
    &&& d[7] == '-'
    &&& forall|j: int| 0 <= j < 10 && j != 4 && j != 7 ==> is_digit(#[trigger] d[j])
}

/// A valid ISO-8601 timestamp for this system's purposes: a `YYYY-MM-DD`
/// calendar date, either alone or followed by `'T'` and a time part.
pub open spec fn valid_iso8601(s: Seq<char>) -> bool {
    &&& s.len() >= 10
    &&& valid_date_shape(s.take(10))
    &&& (s.len() == 10 || s[10] == 'T')
}

/// For every valid ISO-8601 timestamp, the derived calendar date is the text
/// before the first time separator, and is exactly ten characters in
/// `YYYY-MM-DD` form.
pub proof fn lemma_date_part_of_iso8601(s: Seq<char>)
    requires
        valid_iso8601(s),
    ensures
        date_part(s) == s.take(10),
        date_part(s).len() == 10,
        valid_date_shape(date_part(s)),
{
    assert forall|j: int| 0 <= j < 10 implies s[j] != 'T' by {
        assert(s.take(10)[j] == s[j]);
        if j != 4 && j != 7 {
            assert(is_digit(s.take(10)[j]));
        }
    }
    lemma_time_sep_index_is(s, 10);
}

} // verus!
