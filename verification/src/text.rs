//! Plain operations on text that the rest of the crate builds on.

use vstd::prelude::*;
use vstd::string::StringExecFns;

verus! {

/// The text of an optional string.
pub open spec fn option_text(s: Option<String>) -> Option<Seq<char>> {
    match s {
        Some(s) => Some(s@),
        None => None,
    }
}

/// The texts of a vector of strings.
pub open spec fn texts_of(strings: Seq<String>) -> Seq<Seq<char>> {
    Seq::new(strings.len(), |i: int| strings[i]@)
}

/// The characters of `s`, one by one.
pub fn chars_of(s: &str) -> (r: Vec<char>)
    ensures
        r@ == s@,
{
    let mut out: Vec<char> = Vec::new();
    for c in it: s.chars()
        invariant
            it.seq() == s@,
            out@ == it.seq().take(it.index()),
    {
        out.push(c);
        assert(it.seq().take(it.index() + 1) =~= it.seq().take(it.index()).push(c));
    }
    out
}

/// The character that stands for the digit `d`.
pub open spec fn digit_char(d: nat) -> char
    recommends
        d < 10,
{
    if d == 0 {
        '0'
    } else if d == 1 {
        '1'
    } else if d == 2 {
        '2'
    } else if d == 3 {
        '3'
    } else if d == 4 {
        '4'
    } else if d == 5 {
        '5'
    } else if d == 6 {
        '6'
    } else if d == 7 {
        '7'
    } else if d == 8 {
        '8'
    } else {
        '9'
    }
}

/// The decimal numeral of `n`, without leading zeros.
pub open spec fn decimal(n: nat) -> Seq<char>
    decreases n,
{
    if n < 10 {
        seq![digit_char(n)]
    } else {
        decimal(n / 10).push(digit_char(n % 10))
    }
}

/// The text of one digit.
fn digit_text(d: u64) -> (r: &'static str)
    requires
        d < 10,
    ensures
        r@ == seq![digit_char(d as nat)],
{
    proof {
        reveal_strlit("0");
        reveal_strlit("1");
        reveal_strlit("2");
        reveal_strlit("3");
        reveal_strlit("4");
        reveal_strlit("5");
        reveal_strlit("6");
        reveal_strlit("7");
        reveal_strlit("8");
        reveal_strlit("9");
    }
    let r = if d == 0 {
        "0"
    } else if d == 1 {
        "1"
    } else if d == 2 {
        "2"
    } else if d == 3 {
        "3"
    } else if d == 4 {
        "4"
    } else if d == 5 {
        "5"
    } else if d == 6 {
        "6"
    } else if d == 7 {
        "7"
    } else if d == 8 {
        "8"
    } else {
        "9"
    };
    assert(r@ =~= seq![digit_char(d as nat)]);
    r
}

/// Appends the decimal numeral of `n` to `text`.
pub fn append_decimal(text: &mut String, n: u64)
    ensures
        final(text)@ == old(text)@ + decimal(n as nat),
    decreases n,
{
    if n >= 10 {
        append_decimal(text, n / 10);
    }
    text.append(digit_text(n % 10));
    proof {
        if n >= 10 {
            assert(old(text)@ + decimal(n as nat) =~= old(text)@ + decimal((n / 10) as nat)
                + seq![digit_char((n % 10) as nat)]);
        }
    }
}

/// Whether `needle` stands in `hay` at position `at`.
pub open spec fn occurs_at(hay: Seq<char>, needle: Seq<char>, at: int) -> bool {
    &&& 0 <= at
    &&& at + needle.len() <= hay.len()
    &&& hay.subrange(at, at + needle.len()) =~= needle
}

/// The first position at or after `from` where `needle` stands in `hay`.
pub open spec fn first_occurrence(hay: Seq<char>, needle: Seq<char>, from: int) -> Option<int>
    decreases hay.len() - from + 1,
{
    if from < 0 || from + needle.len() > hay.len() {
        None
    } else if occurs_at(hay, needle, from) {
        Some(from)
    } else {
        first_occurrence(hay, needle, from + 1)
    }
}

/// What `first_occurrence` finds is an occurrence with none before it, and it
/// finds one wherever there is one.
pub proof fn lemma_first_occurrence(hay: Seq<char>, needle: Seq<char>, from: int)
    requires
        0 <= from,
    ensures
        match first_occurrence(hay, needle, from) {
            Some(at) => {
                &&& from <= at
                &&& occurs_at(hay, needle, at)
                &&& forall|k: int| from <= k < at ==> !occurs_at(hay, needle, k)
            },
            None => forall|k: int| from <= k ==> !occurs_at(hay, needle, k),
        },
    decreases hay.len() - from + 1,
{
    if from + needle.len() <= hay.len() && !occurs_at(hay, needle, from) {
        lemma_first_occurrence(hay, needle, from + 1);
    }
}

/// `hay` up to the first occurrence of `needle`; all of it where there is
/// none.
pub open spec fn text_before(hay: Seq<char>, needle: Seq<char>) -> Seq<char> {
    match first_occurrence(hay, needle, 0) {
        Some(at) => hay.take(at),
        None => hay,
    }
}

/// `hay` behind the first occurrence of `needle`, where there is one.
pub open spec fn text_after(hay: Seq<char>, needle: Seq<char>) -> Option<Seq<char>> {
    match first_occurrence(hay, needle, 0) {
        Some(at) => Some(hay.skip(at + needle.len())),
        None => None,
    }
}

/// Finds the first occurrence of `needle` in the characters of `hay` from
/// position `low` up to, not including, position `high`. The position found
/// counts from `low`.
pub fn find_between(hay: &Vec<char>, low: usize, high: usize, needle: &Vec<char>) -> (r: Option<
    usize,
>)
    requires
        low <= high <= hay@.len(),
    ensures
        match r {
            Some(at) => first_occurrence(hay@.subrange(low as int, high as int), needle@, 0)
                == Some(at as int) && low + at + needle@.len() <= high,
            None => first_occurrence(hay@.subrange(low as int, high as int), needle@, 0) is None,
        },
        match r {
            Some(at) => occurs_at(hay@.subrange(low as int, high as int), needle@, at as int)
                && forall|k: int|
                0 <= k < at ==> !occurs_at(hay@.subrange(low as int, high as int), needle@, k),
            None => forall|k: int|
                0 <= k ==> !occurs_at(hay@.subrange(low as int, high as int), needle@, k),
        },
{
    proof {
        lemma_first_occurrence(hay@.subrange(low as int, high as int), needle@, 0);
    }
    let ghost window = hay@.subrange(low as int, high as int);
    let width = high - low;
    let m = needle.len();
    if m > width {
        return None;
    }
    let mut at: usize = 0;
    while at <= width - m
        invariant
            low <= high <= hay@.len(),
            width == high - low,
            m == needle@.len(),
            m <= width,
            at <= width - m + 1,
            window == hay@.subrange(low as int, high as int),
            first_occurrence(window, needle@, 0) == first_occurrence(window, needle@, at as int),
        decreases width - m + 1 - at,
    {
        let mut k: usize = 0;
        while k < m && hay[low + at + k] == needle[k]
            invariant
                low <= high <= hay@.len(),
                width == high - low,
                m == needle@.len(),
                at + m <= width,
                k <= m,
                window == hay@.subrange(low as int, high as int),
                forall|j: int| 0 <= j < k ==> window[at + j] == needle@[j],
            decreases m - k,
        {
            k = k + 1;
        }
        if k == m {
            proof {
                assert(window.subrange(at as int, at + m) =~= needle@);
                lemma_first_occurrence(window, needle@, 0);
            }
            return Some(at);
        }
        proof {
            if occurs_at(window, needle@, at as int) {
                assert(window.subrange(at as int, at + m)[k as int] == needle@[k as int]);
                assert(window[at + k] == hay@[low + at + k]);
            }
        }
        at = at + 1;
    }
    proof {
        lemma_first_occurrence(window, needle@, 0);
    }
    None
}

/// How often `c` occurs in `s`.
pub open spec fn count_char(s: Seq<char>, c: char) -> nat
    decreases s.len(),
{
    if s.len() == 0 {
        0
    } else {
        count_char(s.drop_last(), c) + if s.last() == c {
            1nat
        } else {
            0nat
        }
    }
}

/// A character occurs in a concatenation as often as in its two halves
/// together.
pub proof fn lemma_count_char_concat(a: Seq<char>, b: Seq<char>, c: char)
    ensures
        count_char(a + b, c) == count_char(a, c) + count_char(b, c),
    decreases b.len(),
{
    if b.len() == 0 {
        assert(a + b =~= a);
    } else {
        assert((a + b).drop_last() =~= a + b.drop_last());
        lemma_count_char_concat(a, b.drop_last(), c);
    }
}

/// Two texts that differ still differ when put between the same two texts.
pub proof fn lemma_concat_cancel(
    before: Seq<char>,
    x: Seq<char>,
    y: Seq<char>,
    after: Seq<char>,
)
    requires
        before + x + after == before + y + after,
    ensures
        x == y,
{
    let l = before + x + after;
    let r = before + y + after;
    assert(l.len() == before.len() + x.len() + after.len());
    assert(r.len() == before.len() + y.len() + after.len());
    assert(x.len() == y.len());
    assert forall|i: int| 0 <= i < x.len() implies x[i] == y[i] by {
        assert(l[before.len() + i] == x[i]);
        assert(r[before.len() + i] == y[i]);
    }
    assert(x =~= y);
}

} // verus!
