//! The coordinate pairs of a location column.
//!
//! A location holds pairs of decimal numbers: an optional minus sign, two
//! digits, a point and at least one more digit; the two numbers of a pair
//! are split by one white-space character, and a pair may be followed by up
//! to two commas or white-space characters. The first number of a pair is
//! called its latitude and the second its longitude. Pairs are found from
//! left to right, each as far left as it can start after the end of the one
//! before, each number and the trailing separators taking as many characters
//! as they can; text between pairs is skipped.
use vstd::prelude::*;

use crate::text::{chars_of, is_white_space, white_space};

verus! {

/// An ASCII decimal digit.
pub open spec fn is_ascii_digit(c: char) -> bool {
    '0' <= c <= '9'
}

/// A character that may follow a pair: a comma or white space.
pub open spec fn is_pair_separator(c: char) -> bool {
    c == ',' || is_white_space(c)
}

/// The number of digits in `s` from position `i` on.
pub open spec fn digit_run(s: Seq<char>, i: int) -> nat
    decreases s.len() - i,
{
    if 0 <= i < s.len() && is_ascii_digit(s[i]) {
        1 + digit_run(s, i + 1)
    } else {
        0
    }
}

/// Where a number that starts at `i` ends, taking all the digits after its
/// point; `None` where no number starts at `i`.
pub open spec fn number_end(s: Seq<char>, i: int) -> Option<int> {
    let j = if 0 <= i < s.len() && s[i] == '-' {
        i + 1
    } else {
        i
    };
    if 0 <= j && j + 2 < s.len() && is_ascii_digit(s[j]) && is_ascii_digit(s[j + 1]) && s[j + 2]
        == '.' && digit_run(s, j + 3) > 0 {
        Some(j + 3 + digit_run(s, j + 3))
    } else {
        None
    }
}

/// The number of separators, at most two, from position `i` on.
pub open spec fn separator_run(s: Seq<char>, i: int) -> int {
    if 0 <= i < s.len() && is_pair_separator(s[i]) {
        if i + 1 < s.len() && is_pair_separator(s[i + 1]) {
            2
        } else {
            1
        }
    } else {
        0
    }
}

/// A pair that starts at `i`: where its latitude ends, where its longitude
/// ends, and where the pair with its separators ends.
pub open spec fn pair_at(s: Seq<char>, i: int) -> Option<(int, int, int)> {
    match number_end(s, i) {
        Some(a) => if a < s.len() && is_white_space(s[a]) {
            match number_end(s, a + 1) {
                Some(b) => Some((a, b, b + separator_run(s, b))),
                None => None,
            }
        } else {
            None
        },
        None => None,
    }
}

proof fn lemma_digit_run_bound(s: Seq<char>, i: int)
    requires
        0 <= i,
    ensures
        i + digit_run(s, i) <= if i <= s.len() { s.len() as int } else { i },
    decreases s.len() - i,
{
    if 0 <= i < s.len() && is_ascii_digit(s[i]) {
        lemma_digit_run_bound(s, i + 1);
    }
}

/// A run of digits is maximal: from `i` it covers every consecutive ASCII
/// digit, and stops at the end of `s` or at a character that is no digit.
pub proof fn lemma_digit_run_maximal(s: Seq<char>, i: int)
    requires
        0 <= i <= s.len(),
    ensures
        i + digit_run(s, i) <= s.len(),
        forall|k: int| i <= k < i + digit_run(s, i) ==> is_ascii_digit(#[trigger] s[k]),
        i + digit_run(s, i) == s.len() || !is_ascii_digit(s[i + digit_run(s, i)]),
    decreases s.len() - i,
{
    if i < s.len() && is_ascii_digit(s[i]) {
        lemma_digit_run_maximal(s, i + 1);
    }
}

/// Where a number starts at `i`: an optional minus sign, two digits and a
/// point, then at least one digit; the number ends after all the digits
/// that follow the point, at the end of `s` or before a character that is
/// no digit. No number starts at `i` where this shape is absent.
pub proof fn lemma_number_end_shape(s: Seq<char>, i: int)
    requires
        0 <= i <= s.len(),
    ensures
        ({
            let j = if i < s.len() && s[i] == '-' { i + 1 } else { i };
            let shaped = j + 3 < s.len() && is_ascii_digit(s[j]) && is_ascii_digit(s[j + 1]) && s[j + 2] == '.'
                && is_ascii_digit(s[j + 3]);
            &&& number_end(s, i) is Some <==> shaped
            &&& number_end(s, i) matches Some(e) ==> {
                &&& j + 3 < e <= s.len()
                &&& forall|k: int| j + 3 <= k < e ==> is_ascii_digit(#[trigger] s[k])
                &&& e == s.len() || !is_ascii_digit(s[e])
            }
        }),
{
    let j = if i < s.len() && s[i] == '-' { i + 1 } else { i };
    if j + 3 <= s.len() {
        lemma_digit_run_maximal(s, j + 3);
    }
}

/// The separators after a pair are as many commas or white-space
/// characters as follow it, but at most two.
pub proof fn lemma_separator_run_maximal(s: Seq<char>, b: int)
    requires
        0 <= b <= s.len(),
    ensures
        0 <= separator_run(s, b) <= 2,
        b + separator_run(s, b) <= s.len(),
        forall|k: int| b <= k < b + separator_run(s, b) ==> is_pair_separator(#[trigger] s[k]),
        separator_run(s, b) == 2 || b + separator_run(s, b) == s.len() || !is_pair_separator(s[b + separator_run(s, b)]),
{
}

/// A pair starts at `i` exactly when a number starts there, is followed by
/// one white-space character, and a second number starts after it; the pair
/// then takes the separators that follow the second number.
pub proof fn lemma_pair_at_shape(s: Seq<char>, i: int)
    requires
        0 <= i <= s.len(),
    ensures
        pair_at(s, i) is Some <==> (number_end(s, i) matches Some(a) && a < s.len() && is_white_space(s[a]) && number_end(
            s,
            a + 1,
        ) is Some),
        pair_at(s, i) matches Some((a, b, e)) ==> {
            &&& number_end(s, i) == Some(a)
            &&& number_end(s, a + 1) == Some(b)
            &&& e == b + separator_run(s, b)
        },
{
}

/// A pair found at `i` lies within `s` and ends after `i`.
pub proof fn lemma_pair_at_bounds(s: Seq<char>, i: int)
    requires
        0 <= i,
    ensures
        pair_at(s, i) matches Some((a, b, e)) ==> i < a < b <= e <= s.len(),
{
    if let Some(a) = number_end(s, i) {
        let j = if 0 <= i < s.len() && s[i] == '-' { i + 1 } else { i };
        lemma_digit_run_bound(s, j + 3);
        if a < s.len() {
            if let Some(b) = number_end(s, a + 1) {
                let k = if 0 <= a + 1 < s.len() && s[a + 1] == '-' { a + 2 } else { a + 1 };
                lemma_digit_run_bound(s, k + 3);
            }
        }
    }
}

/// The (latitude, longitude) texts of the pairs found from position `pos` on.
pub open spec fn pairs_from(s: Seq<char>, pos: int) -> Seq<(Seq<char>, Seq<char>)>
    decreases s.len() - pos,
{
    if pos < 0 || pos >= s.len() {
        seq![]
    } else {
        match pair_at(s, pos) {
            Some((a, b, e)) => {
                proof {
                    lemma_pair_at_bounds(s, pos);
                }
                seq![(s.subrange(pos, a), s.subrange(a + 1, b))] + pairs_from(s, e)
            },
            None => pairs_from(s, pos + 1),
        }
    }
}

/// The (latitude, longitude) texts of all pairs of a location.
pub open spec fn location_pairs_spec(s: Seq<char>) -> Seq<(Seq<char>, Seq<char>)> {
    pairs_from(s, 0)
}

/// Whether `t` is one number of a pair and nothing more.
pub open spec fn is_number_text(t: Seq<char>) -> bool {
    number_end(t, 0) == Some(t.len() as int)
}

proof fn lemma_digit_run_sub(s: Seq<char>, lo: int, hi: int, k: int)
    requires
        0 <= lo <= k <= hi <= s.len(),
        k + digit_run(s, k) >= hi,
    ensures
        digit_run(s.subrange(lo, hi), k - lo) == hi - k,
    decreases hi - k,
{
    let sub = s.subrange(lo, hi);
    if k < hi {
        assert(sub[k - lo] == s[k]);
        lemma_digit_run_sub(s, lo, hi, k + 1);
    }
}

proof fn lemma_number_sub(s: Seq<char>, i: int)
    requires
        0 <= i,
        number_end(s, i) is Some,
    ensures
        is_number_text(s.subrange(i, number_end(s, i)->0)),
{
    let a = number_end(s, i)->0;
    let j = if 0 <= i < s.len() && s[i] == '-' { i + 1 } else { i };
    lemma_digit_run_bound(s, j + 3);
    let sub = s.subrange(i, a);
    lemma_digit_run_sub(s, i, a, j + 3);
    assert(sub[j - i] == s[j]);
    assert(sub[j - i + 1] == s[j + 1]);
    assert(sub[j - i + 2] == s[j + 2]);
    if j == i + 1 {
        assert(sub[0] == s[i]);
    } else {
        assert(sub[0] == s[i]);
    }
}

/// Whether the first pair at or after `pos` starts at `p`.
pub open spec fn first_pair_at(s: Seq<char>, pos: int, p: int) -> bool {
    &&& pos <= p < s.len()
    &&& pair_at(s, p) is Some
    &&& forall|q: int| pos <= q < p ==> #[trigger] pair_at(s, q) is None
}

/// Pairs are found from left to right: from `pos` on, some pair is found
/// exactly when a pair starts at or after `pos`; the first pair found is the
/// one starting furthest left, its two numbers' texts, and the pairs after it
/// are those found from where it ends, separators included.
pub proof fn lemma_pairs_from_leftmost(s: Seq<char>, pos: int)
    requires
        0 <= pos,
    ensures
        pairs_from(s, pos).len() > 0 <==> exists|p: int| pos <= p < s.len() && #[trigger] pair_at(s, p) is Some,
        pairs_from(s, pos).len() > 0 ==> exists|p: int|
            #[trigger] first_pair_at(s, pos, p) && (pair_at(s, p) matches Some((a, b, e)) && pairs_from(s, pos)[0] == (
                s.subrange(p, a),
                s.subrange(a + 1, b),
            ) && pairs_from(s, pos).drop_first() == pairs_from(s, e)),
    decreases s.len() - pos,
{
    if pos < s.len() {
        lemma_pairs_from_leftmost(s, pos + 1);
        match pair_at(s, pos) {
            Some((a, b, e)) => {
                lemma_pair_at_bounds(s, pos);
                let head = seq![(s.subrange(pos, a), s.subrange(a + 1, b))];
                assert((head + pairs_from(s, e)).drop_first() =~= pairs_from(s, e));
                assert(first_pair_at(s, pos, pos));
            },
            None => {
                if pairs_from(s, pos).len() > 0 {
                    let p = choose|p: int|
                        #[trigger] first_pair_at(s, pos + 1, p) && (pair_at(s, p) matches Some((a, b, e)) && pairs_from(
                            s,
                            pos + 1,
                        )[0] == (s.subrange(p, a), s.subrange(a + 1, b)) && pairs_from(s, pos + 1).drop_first() == pairs_from(
                            s,
                            e,
                        ));
                    assert forall|q: int| pos <= q < p implies #[trigger] pair_at(s, q) is None by {
                        if q > pos {
                            assert(pos + 1 <= q < p);
                        }
                    }
                    assert(first_pair_at(s, pos, p));
                }
                if exists|p: int| pos <= p < s.len() && #[trigger] pair_at(s, p) is Some {
                    let p = choose|p: int| pos <= p < s.len() && #[trigger] pair_at(s, p) is Some;
                    assert(p != pos);
                    assert(pos + 1 <= p < s.len() && pair_at(s, p) is Some);
                }
            },
        }
    }
}

/// Every pair found is two well-formed numbers: each latitude and longitude
/// text is one number, as the location format writes it, and nothing else.
pub proof fn lemma_pairs_are_numbers(s: Seq<char>, pos: int)
    ensures
        forall|k: int|
            0 <= k < pairs_from(s, pos).len() ==> is_number_text(#[trigger] pairs_from(s, pos)[k].0)
                && is_number_text(pairs_from(s, pos)[k].1),
    decreases s.len() - pos,
{
    if 0 <= pos < s.len() {
        match pair_at(s, pos) {
            Some((a, b, e)) => {
                lemma_pair_at_bounds(s, pos);
                lemma_pairs_are_numbers(s, e);
                lemma_number_sub(s, pos);
                lemma_number_sub(s, a + 1);
                let head = (s.subrange(pos, a), s.subrange(a + 1, b));
                let rest = pairs_from(s, e);
                assert(pairs_from(s, pos) == seq![head] + rest);
                assert(number_end(s, pos) == Some(a));
                assert(number_end(s, a + 1) == Some(b));
                assert(is_number_text(head.0));
                assert(is_number_text(head.1));
                assert forall|k: int| 0 <= k < pairs_from(s, pos).len() implies is_number_text(
                    #[trigger] pairs_from(s, pos)[k].0,
                ) && is_number_text(pairs_from(s, pos)[k].1) by {
                    if k > 0 {
                        assert(pairs_from(s, pos)[k] == rest[k - 1]);
                    }
                }
            },
            None => {
                lemma_pairs_are_numbers(s, pos + 1);
                assert(pairs_from(s, pos) == pairs_from(s, pos + 1));
            },
        }
    }
}

/// The views of a list of text pairs.
pub open spec fn pair_views(v: Seq<(String, String)>) -> Seq<(Seq<char>, Seq<char>)> {
    v.map_values(|p: (String, String)| (p.0@, p.1@))
}

fn is_digit(c: char) -> (b: bool)
    ensures
        b == is_ascii_digit(c),
{
    '0' <= c && c <= '9'
}

fn digit_run_at(v: &Vec<char>, i: usize) -> (k: usize)
    requires
        i <= v@.len(),
    ensures
        k == digit_run(v@, i as int),
        i + k <= v@.len(),
{
    let n = v.len();
    let mut j = i;
    while j < n && is_digit(v[j])
        invariant
            n == v@.len(),
            i <= j <= n,
            digit_run(v@, i as int) == (j - i) + digit_run(v@, j as int),
        decreases n - j,
    {
        j = j + 1;
    }
    j - i
}

fn number_end_at(v: &Vec<char>, i: usize) -> (r: Option<usize>)
    requires
        i <= v@.len(),
    ensures
        match r {
            Some(e) => number_end(v@, i as int) == Some(e as int),
            None => number_end(v@, i as int) is None,
        },
{
    let n = v.len();
    let j = if i < n && v[i] == '-' {
        i + 1
    } else {
        i
    };
    if j < n && n - j > 2 && is_digit(v[j]) && is_digit(v[j + 1]) && v[j + 2] == '.' {
        let run = digit_run_at(v, j + 3);
        if run > 0 {
            return Some(j + 3 + run);
        }
    }
    None
}

fn pair_at_exec(v: &Vec<char>, i: usize) -> (r: Option<(usize, usize, usize)>)
    requires
        i <= v@.len(),
    ensures
        match r {
            Some((a, b, e)) => pair_at(v@, i as int) == Some((a as int, b as int, e as int)),
            None => pair_at(v@, i as int) is None,
        },
{
    let n = v.len();
    proof {
        lemma_pair_at_bounds(v@, i as int);
    }
    match number_end_at(v, i) {
        Some(a) => {
            if a < n && white_space(v[a]) {
                match number_end_at(v, a + 1) {
                    Some(b) => {
                        let sep = if b < n && (v[b] == ',' || white_space(v[b])) {
                            if b + 1 < n && (v[b + 1] == ',' || white_space(v[b + 1])) {
                                2
                            } else {
                                1
                            }
                        } else {
                            0
                        };
                        Some((a, b, b + sep))
                    },
                    None => None,
                }
            } else {
                None
            }
        },
        None => None,
    }
}

/// The (latitude, longitude) texts of the coordinate pairs of a location, in
/// the order they stand.
pub fn location_pairs(location: &str) -> (pairs: Vec<(String, String)>)
    ensures
        pair_views(pairs@) == location_pairs_spec(location@),
{
    let chars = chars_of(location);
    let n = chars.len();
    let mut out: Vec<(String, String)> = Vec::new();
    let mut pos: usize = 0;
    while pos < n
        invariant
            n == chars@.len(),
            chars@ == location@,
            pos <= n,
            location_pairs_spec(location@) == pair_views(out@) + pairs_from(location@, pos as int),
        decreases n - pos,
    {
        match pair_at_exec(&chars, pos) {
            Some((a, b, e)) => {
                proof {
                    lemma_pair_at_bounds(location@, pos as int);
                }
                let latitude = location.substring_char(pos, a).to_owned();
                let longitude = location.substring_char(a + 1, b).to_owned();
                let ghost before = pair_views(out@);
                out.push((latitude, longitude));
                proof {
                    let p = (location@.subrange(pos as int, a as int), location@.subrange(a + 1, b as int));
                    assert(pair_views(out@) =~= before.push(p));
                    assert(before + (seq![p] + pairs_from(location@, e as int)) =~= before.push(p)
                        + pairs_from(location@, e as int));
                }
                pos = e;
            },
            None => {
                pos = pos + 1;
            },
        }
    }
    assert(pair_views(out@) + seq![] =~= pair_views(out@));
    out
}

} // verus!
