//! Small text utilities: strings as sequences of characters.

use vstd::prelude::*;
use vstd::utf8::{decode_utf8, valid_utf8};

verus! {

broadcast use vstd::string::axiom_spec_iter;

/// The characters of `s`, in order.
pub fn chars_of(s: &str) -> (result: Vec<char>)
    ensures
        result@ == s@,
{
    let mut result: Vec<char> = Vec::new();
    for c in it: s.chars()
        invariant
            result@ == it.seq().take(it.index() as int),
    {
        result.push(c);
    }
    result
}

} // verus!

verus! {

/// Calls `collect` of std on the characters of `chars`, which builds a
/// `String` of exactly those characters, in order.
#[verifier::external_body]
pub(crate) fn string_from_chars(chars: &Vec<char>) -> (result: String)
    ensures
        result@ == chars@,
{
    String::from_iter(chars.iter())
}

} // verus!

verus! {

#[verifier::external_type_specification]
#[verifier::external_body]
pub struct ExFromUtf8Error(std::string::FromUtf8Error);

/// Calls `String::from_utf8` of std, which accepts exactly the valid UTF-8
/// byte strings and decodes them.
#[verifier::external_body]
pub(crate) fn string_from_utf8(bytes: Vec<u8>) -> (result: Result<String, std::string::FromUtf8Error>)
    ensures
        result is Ok <==> valid_utf8(bytes@),
        result matches Ok(s) ==> s@ == decode_utf8(bytes@),
{
    String::from_utf8(bytes)
}

} // verus!

verus! {

/// `pat` occurs in `s` at position `i`.
pub open spec fn occurs_at(s: Seq<char>, pat: Seq<char>, i: int) -> bool {
    0 <= i && i + pat.len() <= s.len() && s.subrange(i, i + pat.len()) == pat
}

/// The first position at or after `i` where `pat` occurs in `s`, or -1.
pub open spec fn find_from(s: Seq<char>, pat: Seq<char>, i: int) -> int
    decreases s.len() + 1 - i,
{
    if i < 0 || i + pat.len() > s.len() {
        -1
    } else if occurs_at(s, pat, i) {
        i
    } else {
        find_from(s, pat, i + 1)
    }
}

/// The first position where `pat` occurs in `s`, or -1.
pub open spec fn find(s: Seq<char>, pat: Seq<char>) -> int {
    find_from(s, pat, 0)
}

/// The last position of `c` in `s`, or -1.
pub open spec fn last_index_of(s: Seq<char>, c: char) -> int
    decreases s.len(),
{
    if s.len() == 0 {
        -1
    } else if s.last() == c {
        s.len() - 1
    } else {
        last_index_of(s.drop_last(), c)
    }
}

/// The part of `s` after the last `c`; all of `s` when it holds no `c`.
pub open spec fn after_last(s: Seq<char>, c: char) -> Seq<char> {
    s.skip(last_index_of(s, c) + 1)
}

/// The first position at or after `from` where `pat` occurs in `s`.
pub fn find_pattern(s: &Vec<char>, from: usize, pat: &Vec<char>) -> (result: Option<usize>)
    ensures
        match result {
            Some(k) => k == find_from(s@, pat@, from as int) && occurs_at(s@, pat@, k as int),
            None => find_from(s@, pat@, from as int) == -1,
        },
{
    let n = s.len();
    let m = pat.len();
    if m > n {
        return None;
    }
    let mut i: usize = from;
    while i <= n - m
        invariant
            n == s@.len(),
            m == pat@.len(),
            m <= n,
            from <= i,
            find_from(s@, pat@, i as int) == find_from(s@, pat@, from as int),
        decreases n - m + 1 - i,
    {
        let mut j: usize = 0;
        while j < m && s[i + j] == pat[j]
            invariant
                n == s@.len(),
                m == pat@.len(),
                i + m <= n,
                j <= m,
                forall|t: int| 0 <= t < j ==> s@[i + t] == pat@[t],
            decreases m - j,
        {
            j = j + 1;
        }
        if j == m {
            assert(s@.subrange(i as int, i + m) =~= pat@);
            return Some(i);
        }
        assert(s@.subrange(i as int, i + m)[j as int] != pat@[j as int]);
        assert(!occurs_at(s@, pat@, i as int));
        i = i + 1;
    }
    None
}

/// The last position of `c` in `s`.
pub fn find_last(s: &Vec<char>, c: char) -> (result: Option<usize>)
    ensures
        match result {
            Some(k) => k == last_index_of(s@, c) && k < s@.len(),
            None => last_index_of(s@, c) == -1,
        },
{
    let mut i: usize = s.len();
    assert(s@.take(i as int) =~= s@);
    while i > 0
        invariant
            i <= s@.len(),
            last_index_of(s@.take(i as int), c) == last_index_of(s@, c),
        decreases i,
    {
        assert(s@.take(i as int).last() == s@[i - 1]);
        if s[i - 1] == c {
            return Some(i - 1);
        }
        assert(s@.take(i as int).drop_last() =~= s@.take(i - 1));
        i = i - 1;
    }
    None
}

/// The characters of `s` from `start` up to, not including, `end`.
pub fn sub_chars(s: &Vec<char>, start: usize, end: usize) -> (result: Vec<char>)
    requires
        start <= end <= s@.len(),
    ensures
        result@ == s@.subrange(start as int, end as int),
{
    let mut result: Vec<char> = Vec::with_capacity(end - start);
    let mut i: usize = start;
    while i < end
        invariant
            start <= i <= end <= s@.len(),
            result@ == s@.subrange(start as int, i as int),
        decreases end - i,
    {
        result.push(s[i]);
        i = i + 1;
        assert(result@ =~= s@.subrange(start as int, i as int));
    }
    result
}

/// `a` followed by `b`.
pub fn concat_chars(a: &Vec<char>, b: &Vec<char>) -> (result: Vec<char>)
    ensures
        result@ == a@ + b@,
{
    let mut result = sub_chars(a, 0, a.len());
    let mut i: usize = 0;
    assert(a@.subrange(0, a@.len() as int) =~= a@);
    while i < b.len()
        invariant
            i <= b@.len(),
            result@ == a@ + b@.take(i as int),
        decreases b@.len() - i,
    {
        result.push(b[i]);
        i = i + 1;
        assert(result@ =~= a@ + b@.take(i as int));
    }
    assert(b@.take(b@.len() as int) =~= b@);
    result
}

} // verus!

verus! {

/// The character of the decimal digit `d`.
pub open spec fn digit_char(d: nat) -> char {
    if d == 0 {
        '0'
    } else if d == 1 {
        '1'
    } else if d == 2 {
        '2'
    } else if d == 3 {
        '3'
    } else if d == 4 {
        '4'
    } else if d == 5 {
        '5'
    } else if d == 6 {
        '6'
    } else if d == 7 {
        '7'
    } else if d == 8 {
        '8'
    } else {
        '9'
    }
}

/// The decimal digits of `n`, most significant first, with no leading zero.
pub open spec fn decimal(n: nat) -> Seq<char>
    decreases n,
{
    if n < 10 {
        seq![digit_char(n)]
    } else {
        decimal(n / 10).push(digit_char(n % 10))
    }
}

fn digit(d: u64) -> (result: char)
    requires
        d < 10,
    ensures
        result == digit_char(d as nat),
{
    if d == 0 {
        '0'
    } else if d == 1 {
        '1'
    } else if d == 2 {
        '2'
    } else if d == 3 {
        '3'
    } else if d == 4 {
        '4'
    } else if d == 5 {
        '5'
    } else if d == 6 {
        '6'
    } else if d == 7 {
        '7'
    } else if d == 8 {
        '8'
    } else {
        '9'
    }
}

/// Appends the decimal digits of `n` to `out`.
pub fn push_decimal(out: &mut Vec<char>, n: u64)
    ensures
        final(out)@ == old(out)@ + decimal(n as nat),
    decreases n,
{
    if n >= 10 {
        push_decimal(out, n / 10);
    }
    out.push(digit(n % 10));
    assert(out@ =~= old(out)@ + decimal(n as nat));
}

/// Appends the characters of `s` to `out`.
pub fn push_chars(out: &mut Vec<char>, s: &Vec<char>)
    ensures
        final(out)@ == old(out)@ + s@,
{
    let mut i: usize = 0;
    while i < s.len()
        invariant
            i <= s@.len(),
            out@ == old(out)@ + s@.take(i as int),
        decreases s@.len() - i,
    {
        out.push(s[i]);
        i = i + 1;
        assert(out@ =~= old(out)@ + s@.take(i as int));
    }
    assert(s@.take(s@.len() as int) =~= s@);
}

} // verus!
