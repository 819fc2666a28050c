//! Reading the file id and key out of a MEGA link.
//!
//! Two formats are understood:
//! `https://mega.nz/file/FILE_ID#FILE_KEY` and `https://mega.nz/#!FILE_ID!FILE_KEY`.

use vstd::prelude::*;

use crate::text::{
    after_last, concat_chars, find, find_from, find_last, find_pattern, occurs_at, sub_chars,
};

verus! {

/// `mega.nz/file/`, the mark of the current link format.
pub open spec fn file_link_mark() -> Seq<char> {
    seq!['m', 'e', 'g', 'a', '.', 'n', 'z', '/', 'f', 'i', 'l', 'e', '/']
}

/// `mega.nz/#!`, the mark of the legacy link format.
pub open spec fn legacy_link_mark() -> Seq<char> {
    seq!['m', 'e', 'g', 'a', '.', 'n', 'z', '/', '#', '!']
}

/// `#!`, the separator of the legacy link format.
pub open spec fn hash_bang() -> Seq<char> {
    seq!['#', '!']
}

/// `downloaded_file_`, the prefix of the provisional name of a file whose
/// link has been read but whose real name is not known yet.
pub open spec fn provisional_prefix() -> Seq<char> {
    seq!['d', 'o', 'w', 'n', 'l', 'o', 'a', 'd', 'e', 'd', '_', 'f', 'i', 'l', 'e', '_']
}

/// The part of `s` before the first `c` (all of `s` if there is none).
pub open spec fn before_first(s: Seq<char>, c: char) -> Seq<char> {
    let k = find(s, seq![c]);
    if k >= 0 {
        s.take(k)
    } else {
        s
    }
}

/// The file id and file key that `url` holds, or `None` when it is not a
/// MEGA link of either format.
///
/// In the current format the id and key are the two sides of the first `#`
/// in the part after the last `/`. In the legacy format they are the first
/// two `!`-separated fields of the text between the first `#!` and the next.
pub open spec fn parse_mega_link(url: Seq<char>) -> Option<(Seq<char>, Seq<char>)> {
    if find(url, file_link_mark()) >= 0 {
        let part = after_last(url, '/');
        let h = find(part, seq!['#']);
        if h >= 0 {
            Some((part.take(h), part.skip(h + 1)))
        } else {
            None
        }
    } else if find(url, legacy_link_mark()) >= 0 {
        let a = find(url, hash_bang());
        let rest = url.skip(a + 2);
        let b = find(rest, hash_bang());
        let segment = if b >= 0 {
            rest.take(b)
        } else {
            rest
        };
        let p = find(segment, seq!['!']);
        if p >= 0 {
            Some((segment.take(p), before_first(segment.skip(p + 1), '!')))
        } else {
            None
        }
    } else {
        None
    }
}

/// The provisional name given to the file with id `id`.
pub open spec fn provisional_name(id: Seq<char>) -> Seq<char> {
    provisional_prefix() + id
}

/// The file id to ask the API about: the id in a provisional `name`, else the
/// one in `url`, else nothing.
pub open spec fn file_id_for(name: Seq<char>, url: Seq<char>) -> Seq<char> {
    if name.len() >= 16 && name.take(16) == provisional_prefix() {
        name.skip(16)
    } else {
        match parse_mega_link(url) {
            Some(parts) => parts.0,
            None => Seq::empty(),
        }
    }
}

proof fn lemma_find_from_reaches(s: Seq<char>, pat: Seq<char>, i: int, k: int)
    requires
        0 <= i <= k,
        occurs_at(s, pat, k),
    ensures
        0 <= find_from(s, pat, i) <= k,
    decreases k - i,
{
    if !occurs_at(s, pat, i) {
        lemma_find_from_reaches(s, pat, i + 1, k);
    }
}

proof fn lemma_find_from_first(s: Seq<char>, pat: Seq<char>, i: int)
    requires
        0 <= i,
    ensures
        find_from(s, pat, i) >= 0 ==> {
            &&& i <= find_from(s, pat, i)
            &&& occurs_at(s, pat, find_from(s, pat, i))
            &&& forall|j: int| i <= j < find_from(s, pat, i) ==> !occurs_at(s, pat, j)
        },
    decreases s.len() + 1 - i,
{
    if i + pat.len() <= s.len() && !occurs_at(s, pat, i) {
        lemma_find_from_first(s, pat, i + 1);
    }
}

/// In the current link format the id and the key are exactly the two sides
/// of the first `#` in the part after the last `/`: the id holds no `#`,
/// and id, `#` and key put back together give that part, for a key of any
/// length.
pub proof fn lemma_current_link_parts(url: Seq<char>)
    requires
        find(url, file_link_mark()) >= 0,
        exists|k: int|
            0 <= k < after_last(url, '/').len() && #[trigger] after_last(url, '/')[k] == '#',
    ensures
        parse_mega_link(url) matches Some((id, key)) && id + seq!['#'] + key == after_last(url, '/')
            && (forall|j: int| 0 <= j < id.len() ==> id[j] != '#'),
{
    let part = after_last(url, '/');
    let k = choose|k: int| 0 <= k < part.len() && #[trigger] part[k] == '#';
    assert(part.subrange(k, k + 1) =~= seq!['#']);
    lemma_find_from_reaches(part, seq!['#'], 0, k);
    lemma_find_from_first(part, seq!['#'], 0);
    let h = find(part, seq!['#']);
    assert(0 <= h);
    assert(part.subrange(h, h + 1) == seq!['#']);
    assert(part[h] == part.subrange(h, h + 1)[0]);
    let id = part.take(h);
    let key = part.skip(h + 1);
    assert(id + seq!['#'] + key =~= part);
    assert forall|j: int| 0 <= j < id.len() implies id[j] != '#' by {
        if id[j] == '#' {
            assert(part.subrange(j, j + 1) =~= seq!['#']);
            assert(occurs_at(part, seq!['#'], j));
        }
    }
}

/// The first position of `c` in `s`, when there is one, holds `c`, and no
/// position before it does.
proof fn lemma_find_char(s: Seq<char>, c: char)
    ensures
        find(s, seq![c]) >= 0 ==> 0 <= find(s, seq![c]) < s.len() && s[find(s, seq![c])] == c,
        forall|j: int| 0 <= j < s.len() && (find(s, seq![c]) < 0 || j < find(s, seq![c])) ==> s[j] != c,
{
    lemma_find_from_first(s, seq![c], 0);
    let h = find(s, seq![c]);
    if h >= 0 {
        assert(s.subrange(h, h + 1) == seq![c]);
        assert(s[h] == s.subrange(h, h + 1)[0]);
    }
    assert forall|j: int| 0 <= j < s.len() && (h < 0 || j < h) implies s[j] != c by {
        if s[j] == c {
            assert(s.subrange(j, j + 1) =~= seq![c]);
            lemma_find_from_reaches(s, seq![c], 0, j);
        }
    }
}

/// In the legacy link format the id and the key are the first two
/// `!`-separated fields after the first `#!`: neither holds a `!`, the text
/// after that `#!` starts with id, `!` and key, and the key ends where that
/// text ends, at the next `!`, or at the next `#!`.
pub proof fn lemma_legacy_link_parts(url: Seq<char>)
    requires
        find(url, file_link_mark()) < 0,
        find(url, legacy_link_mark()) >= 0,
        parse_mega_link(url) is Some,
    ensures
        find(url, hash_bang()) >= 0,
        parse_mega_link(url) matches Some((id, key)) && {
            let rest = url.skip(find(url, hash_bang()) + 2);
            let n = (id.len() + 1 + key.len()) as int;
            &&& n <= rest.len()
            &&& rest.take(n) == id + seq!['!'] + key
            &&& forall|j: int| 0 <= j < id.len() ==> id[j] != '!'
            &&& forall|j: int| 0 <= j < key.len() ==> key[j] != '!'
            &&& (n == rest.len() || rest[n] == '!' || (n + 1 < rest.len() && rest[n] == '#'
                && rest[n + 1] == '!'))
        },
{
    let k = find(url, legacy_link_mark());
    lemma_find_from_first(url, legacy_link_mark(), 0);
    assert(url.subrange(k + 8, k + 10) =~= hash_bang()) by {
        assert(url.subrange(k, k + 10) == legacy_link_mark());
        assert forall|j: int| 0 <= j < 2 implies url.subrange(k + 8, k + 10)[j] == hash_bang()[j] by {
            assert(url.subrange(k + 8, k + 10)[j] == url.subrange(k, k + 10)[j + 8]);
        }
    }
    lemma_find_from_reaches(url, hash_bang(), 0, k + 8);
    let a = find(url, hash_bang());
    let rest = url.skip(a + 2);
    let b = find(rest, hash_bang());
    lemma_find_from_first(rest, hash_bang(), 0);
    let segment = if b >= 0 {
        rest.take(b)
    } else {
        rest
    };
    lemma_find_char(segment, '!');
    let p = find(segment, seq!['!']);
    let id = segment.take(p);
    let tail = segment.skip(p + 1);
    lemma_find_char(tail, '!');
    let q = find(tail, seq!['!']);
    let key = before_first(tail, '!');
    let n = (id.len() + 1 + key.len()) as int;
    assert(n <= segment.len());
    assert(rest.take(n) =~= id + seq!['!'] + key) by {
        assert forall|j: int| 0 <= j < n implies rest.take(n)[j] == (id + seq!['!'] + key)[j] by {
            assert(rest[j] == segment[j]);
            if j > p {
                assert(segment[j] == tail[j - p - 1]);
            }
        }
    }
    assert forall|j: int| 0 <= j < key.len() implies key[j] != '!' by {
        assert(key[j] == tail[j]);
    }
    if q >= 0 {
        assert(rest[n] == segment[n]);
        assert(segment[n] == tail[q]);
    } else if b >= 0 {
        assert(rest.subrange(b, b + 2) == hash_bang());
        assert(rest[b] == rest.subrange(b, b + 2)[0]);
        assert(rest[b + 1] == rest.subrange(b, b + 2)[1]);
    }
}

/// `s` without its `k` first characters.
fn chars_from(s: &Vec<char>, k: usize) -> (result: Vec<char>)
    requires
        k <= s@.len(),
    ensures
        result@ == s@.skip(k as int),
{
    let r = sub_chars(s, k, s.len());
    assert(r@ =~= s@.skip(k as int));
    r
}

/// The part of `s` before the first `c`.
fn chars_before_first(s: &Vec<char>, c: char) -> (result: Vec<char>)
    ensures
        result@ == before_first(s@, c),
{
    let pat = vec![c];
    assert(pat@ =~= seq![c]);
    match find_pattern(s, 0, &pat) {
        Some(k) => sub_chars(s, 0, k),
        None => {
            let r = sub_chars(s, 0, s.len());
            assert(r@ =~= s@);
            r
        },
    }
}

/// Reads the file id and key out of the characters of a MEGA link.
pub fn parse_link_chars(url: &Vec<char>) -> (result: Option<(Vec<char>, Vec<char>)>)
    ensures
        match parse_mega_link(url@) {
            Some(parts) => result matches Some(r) && r.0@ == parts.0 && r.1@ == parts.1,
            None => result is None,
        },
{
    let file_mark = vec!['m', 'e', 'g', 'a', '.', 'n', 'z', '/', 'f', 'i', 'l', 'e', '/'];
    assert(file_mark@ =~= file_link_mark());
    let legacy_mark = vec!['m', 'e', 'g', 'a', '.', 'n', 'z', '/', '#', '!'];
    assert(legacy_mark@ =~= legacy_link_mark());
    let hb = vec!['#', '!'];
    assert(hb@ =~= hash_bang());
    let _url_len = url.len();
    if find_pattern(url, 0, &file_mark).is_some() {
        let part = match find_last(url, '/') {
            Some(k) => chars_from(url, k + 1),
            None => chars_from(url, 0),
        };
        let _part_len = part.len();
        let hash = vec!['#'];
        assert(hash@ =~= seq!['#']);
        match find_pattern(&part, 0, &hash) {
            Some(h) => {
                let id = sub_chars(&part, 0, h);
                let key = chars_from(&part, h + 1);
                assert(id@ =~= part@.take(h as int));
                Some((id, key))
            },
            None => None,
        }
    } else {
        match find_pattern(url, 0, &legacy_mark) {
            None => None,
            Some(m) => {
                proof {
                    let w = url@.subrange(m as int, m + 10);
                    assert(w == legacy_link_mark());
                    assert(w[8] == '#' && w[9] == '!');
                    assert(url@[m + 8] == w[8] && url@[m + 9] == w[9]);
                    assert(url@.subrange(m + 8, m + 10) =~= hash_bang());
                    assert(occurs_at(url@, hash_bang(), m + 8));
                    lemma_find_from_reaches(url@, hash_bang(), 0, m + 8);
                }
                let a = match find_pattern(url, 0, &hb) {
                    Some(a) => a,
                    None => {
                        return None;
                    },
                };
                let rest = chars_from(url, a + 2);
                let segment = match find_pattern(&rest, 0, &hb) {
                    Some(b) => sub_chars(&rest, 0, b),
                    None => chars_from(&rest, 0),
                };
                proof {
                    assert(rest@.skip(0) =~= rest@);
                    if find(rest@, hash_bang()) >= 0 {
                        assert(segment@ =~= rest@.take(find(rest@, hash_bang())));
                    }
                }
                let bang = vec!['!'];
                assert(bang@ =~= seq!['!']);
                match find_pattern(&segment, 0, &bang) {
                    Some(p) => {
                        let id = sub_chars(&segment, 0, p);
                        assert(id@ =~= segment@.take(p as int));
                        let after = chars_from(&segment, p + 1);
                        let key = chars_before_first(&after, '!');
                        Some((id, key))
                    },
                    None => None,
                }
            },
        }
    }
}

/// `provisional_prefix` followed by `id`.
pub fn provisional_name_chars(id: &Vec<char>) -> (result: Vec<char>)
    ensures
        result@ == provisional_name(id@),
{
    let prefix = vec![
        'd', 'o', 'w', 'n', 'l', 'o', 'a', 'd', 'e', 'd', '_', 'f', 'i', 'l', 'e', '_',
    ];
    assert(prefix@ =~= provisional_prefix());
    concat_chars(&prefix, id)
}

/// The file id to ask the API about, from the file's current name and link.
pub fn file_id_chars(name: &Vec<char>, url: &Vec<char>) -> (result: Vec<char>)
    ensures
        result@ == file_id_for(name@, url@),
{
    let prefix = vec![
        'd', 'o', 'w', 'n', 'l', 'o', 'a', 'd', 'e', 'd', '_', 'f', 'i', 'l', 'e', '_',
    ];
    assert(prefix@ =~= provisional_prefix());
    if name.len() >= 16 {
        let mut i: usize = 0;
        while i < 16 && name[i] == prefix[i]
            invariant
                i <= 16,
                name@.len() >= 16,
                prefix@ == provisional_prefix(),
                forall|j: int| 0 <= j < i ==> name@[j] == prefix@[j],
            decreases 16 - i,
        {
            i = i + 1;
        }
        if i == 16 {
            assert(name@.take(16) =~= provisional_prefix());
            return chars_from(name, 16);
        }
        assert(name@.take(16)[i as int] != provisional_prefix()[i as int]);
    }
    match parse_link_chars(url) {
        Some(parts) => parts.0,
        None => Vec::new(),
    }
}

} // verus!
