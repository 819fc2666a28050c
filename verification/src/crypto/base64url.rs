//! URL-safe Base64 as MEGA writes it: the standard alphabet with `-` for
//! `+`, `_` for `/`, and no `=` padding. The Base64 coding itself is the
//! `base64` crate's standard engine.

use vstd::prelude::*;

use base64::engine::general_purpose::STANDARD;
use base64::{DecodeError, Engine};

use super::CryptoError;
use crate::text::{chars_of, string_from_chars};

verus! {

/// What the `base64` crate's `STANDARD` engine encodes `data` to.
pub uninterp spec fn base64_standard_encode(data: Seq<u8>) -> Seq<char>;

/// What the `base64` crate's `STANDARD` engine decodes `text` to, or `None`
/// when it rejects it.
pub uninterp spec fn base64_standard_decode(text: Seq<char>) -> Option<Seq<u8>>;

/// A character of the standard Base64 alphabet (`A-Z`, `a-z`, `0-9`, `+`, `/`).
pub open spec fn is_standard_base64_char(c: char) -> bool {
    ('A' <= c && c <= 'Z') || ('a' <= c && c <= 'z') || ('0' <= c && c <= '9') || c == '+' || c
        == '/'
}

/// A character of the URL-safe Base64 alphabet (`A-Z`, `a-z`, `0-9`, `-`, `_`).
pub open spec fn is_url_base64_char(c: char) -> bool {
    ('A' <= c && c <= 'Z') || ('a' <= c && c <= 'z') || ('0' <= c && c <= '9') || c == '-' || c
        == '_'
}

/// The number of `=` that standard Base64 appends to the encoding of `n` bytes.
pub open spec fn padding_len(n: nat) -> nat {
    if n % 3 == 0 {
        0
    } else {
        (3 - n % 3) as nat
    }
}

/// The URL-safe character for a standard one.
pub open spec fn url_char(c: char) -> char {
    if c == '+' {
        '-'
    } else if c == '/' {
        '_'
    } else {
        c
    }
}

/// The standard character for a URL-safe one.
pub open spec fn standard_char(c: char) -> char {
    if c == '-' {
        '+'
    } else if c == '_' {
        '/'
    } else {
        c
    }
}

/// Standard Base64 text rewritten URL-safe: `+` to `-`, `/` to `_`, every
/// `=` removed.
pub open spec fn url_from_standard(s: Seq<char>) -> Seq<char>
    decreases s.len(),
{
    if s.len() == 0 {
        Seq::empty()
    } else if s.last() == '=' {
        url_from_standard(s.drop_last())
    } else {
        url_from_standard(s.drop_last()).push(url_char(s.last()))
    }
}

/// URL-safe Base64 text rewritten with the standard alphabet: `-` to `+`,
/// `_` to `/`.
pub open spec fn standard_from_url(s: Seq<char>) -> Seq<char> {
    Seq::new(s.len(), |i: int| standard_char(s[i]))
}

/// `s` followed by the `=` that bring its length to a multiple of four.
pub open spec fn repad(s: Seq<char>) -> Seq<char> {
    s + Seq::new(((4 - s.len() % 4) % 4) as nat, |i: int| '=')
}

#[verifier::external_type_specification]
#[verifier::external_body]
pub struct ExDecodeError(DecodeError);

/// Calls `encode` of the `base64` crate's `STANDARD` engine. Claims what its
/// documentation states of the output: four characters for every three
/// bytes or part of three, characters of the standard alphabet followed by
/// the `=` padding, and that decoding it with the same engine gives the
/// data back.
#[verifier::external_body]
fn standard_encode(data: &[u8]) -> (result: String)
    ensures
        result@ == base64_standard_encode(data@),
        result@.len() == 4 * ((data@.len() + 2) / 3),
        forall|i: int|
            0 <= i < result@.len() - padding_len(data@.len()) ==> is_standard_base64_char(
                #[trigger] result@[i],
            ),
        forall|i: int|
            result@.len() - padding_len(data@.len()) <= i < result@.len() ==> #[trigger] result@[i]
                == '=',
        base64_standard_decode(result@) == Some(data@),
{
    STANDARD.encode(data)
}

/// Calls `decode` of the `base64` crate's `STANDARD` engine: the result is
/// the one `base64_standard_decode` names.
#[verifier::external_body]
fn standard_decode(text: &str) -> (result: Result<Vec<u8>, DecodeError>)
    ensures
        result is Ok <==> base64_standard_decode(text@) is Some,
        result matches Ok(v) ==> v@ == base64_standard_decode(text@)->0,
{
    STANDARD.decode(text)
}

/// Decodes URL-safe Base64, with or without its `=` padding: rewrites it
/// with the standard alphabet, restores the padding and decodes it with the
/// standard engine.
pub fn url_base64_to_bin(data: &str) -> (result: Result<Vec<u8>, CryptoError>)
    ensures
        match base64_standard_decode(repad(standard_from_url(data@))) {
            Some(bytes) => result matches Ok(v) && v@ == bytes,
            None => result == Err::<Vec<u8>, CryptoError>(CryptoError::Base64Decode),
        },
{
    let chars = chars_of(data);
    let mut mapped: Vec<char> = Vec::with_capacity(chars.len());
    let mut i: usize = 0;
    while i < chars.len()
        invariant
            chars@ == data@,
            i <= chars@.len(),
            mapped@ == standard_from_url(data@).take(i as int),
        decreases chars@.len() - i,
    {
        let c = chars[i];
        let s = if c == '-' {
            '+'
        } else if c == '_' {
            '/'
        } else {
            c
        };
        mapped.push(s);
        i = i + 1;
        assert(mapped@ =~= standard_from_url(data@).take(i as int));
    }
    assert(mapped@ =~= standard_from_url(data@));
    let ghost body = mapped@;
    let missing = (4 - mapped.len() % 4) % 4;
    let mut k: usize = 0;
    while k < missing
        invariant
            k <= missing,
            missing == (4 - body.len() % 4) % 4,
            mapped@ == body + Seq::new(k as nat, |j: int| '='),
        decreases missing - k,
    {
        mapped.push('=');
        k = k + 1;
        assert(mapped@ =~= body + Seq::new(k as nat, |j: int| '='));
    }
    assert(mapped@ =~= repad(standard_from_url(data@)));
    let text = string_from_chars(&mapped);
    match standard_decode(text.as_str()) {
        Ok(v) => Ok(v),
        Err(_) => Err(CryptoError::Base64Decode),
    }
}

/// Dropping `=` from standard text does not depend on how many trail it.
proof fn lemma_url_from_standard_padded(body: Seq<char>, k: nat)
    ensures
        url_from_standard(body + Seq::new(k, |j: int| '=')) == url_from_standard(body),
    decreases k,
{
    let s = body + Seq::new(k, |j: int| '=');
    if k == 0 {
        assert(s =~= body);
    } else {
        assert(s.drop_last() =~= body + Seq::new((k - 1) as nat, |j: int| '='));
        assert(s.last() == '=');
        lemma_url_from_standard_padded(body, (k - 1) as nat);
    }
}

proof fn lemma_url_from_standard_no_padding(s: Seq<char>)
    requires
        forall|i: int| 0 <= i < s.len() ==> is_standard_base64_char(#[trigger] s[i]),
    ensures
        url_from_standard(s).len() == s.len(),
        standard_from_url(url_from_standard(s)) == s,
        forall|i: int|
            0 <= i < s.len() ==> is_url_base64_char(#[trigger] url_from_standard(s)[i]),
    decreases s.len(),
{
    if s.len() > 0 {
        let p = s.drop_last();
        assert forall|i: int| 0 <= i < p.len() implies is_standard_base64_char(#[trigger] p[i]) by {
            assert(p[i] == s[i]);
        }
        lemma_url_from_standard_no_padding(p);
        let c = s.last();
        assert(s[s.len() - 1] == c);
        assert(is_standard_base64_char(c));
        assert(c != '=');
        let u = url_from_standard(s);
        assert(u == url_from_standard(p).push(url_char(c)));
        assert(standard_char(url_char(c)) == c);
        assert(is_url_base64_char(url_char(c)));
        assert forall|i: int| 0 <= i < s.len() implies #[trigger] standard_from_url(u)[i] == s[i]
            by {
            if i < p.len() {
                assert(u[i] == url_from_standard(p)[i]);
                assert(standard_from_url(url_from_standard(p))[i] == p[i]);
            }
        }
        assert(standard_from_url(u) =~= s);
        assert forall|i: int| 0 <= i < s.len() implies is_url_base64_char(#[trigger] u[i]) by {
            if i < p.len() {
                assert(u[i] == url_from_standard(p)[i]);
            }
        }
    }
}

proof fn lemma_url_from_standard_all_url_chars(s: Seq<char>)
    requires
        forall|i: int|
            0 <= i < s.len() ==> is_standard_base64_char(#[trigger] s[i]) || s[i] == '=',
    ensures
        forall|i: int|
            0 <= i < url_from_standard(s).len() ==> is_url_base64_char(
                #[trigger] url_from_standard(s)[i],
            ),
    decreases s.len(),
{
    if s.len() > 0 {
        let p = s.drop_last();
        assert forall|i: int| 0 <= i < p.len() implies is_standard_base64_char(#[trigger] p[i])
            || p[i] == '=' by {
            assert(p[i] == s[i]);
        }
        lemma_url_from_standard_all_url_chars(p);
        let c = s.last();
        assert(s[s.len() - 1] == c);
        let u = url_from_standard(s);
        let up = url_from_standard(p);
        if c != '=' {
            assert(u == up.push(url_char(c)));
            assert(is_url_base64_char(url_char(c)));
            assert forall|i: int| 0 <= i < u.len() implies is_url_base64_char(#[trigger] u[i]) by {
                if i < up.len() {
                    assert(u[i] == up[i]);
                }
            }
        }
    }
}

/// Encodes `data` as URL-safe Base64 without padding. The output holds only
/// URL-safe characters, and `url_base64_to_bin` decodes it back to `data`.
pub fn bin_to_url_base64(data: &[u8]) -> (result: String)
    ensures
        result@ == url_from_standard(base64_standard_encode(data@)),
        forall|i: int| 0 <= i < result@.len() ==> is_url_base64_char(#[trigger] result@[i]),
        base64_standard_decode(repad(standard_from_url(result@))) == Some(data@),
{
    let encoded = standard_encode(data);
    let chars = chars_of(encoded.as_str());
    let ghost std_text = encoded@;
    let mut out: Vec<char> = Vec::with_capacity(chars.len());
    let mut i: usize = 0;
    while i < chars.len()
        invariant
            chars@ == std_text,
            i <= chars@.len(),
            out@ == url_from_standard(std_text.take(i as int)),
        decreases chars@.len() - i,
    {
        let c = chars[i];
        assert(std_text.take(i + 1).drop_last() =~= std_text.take(i as int));
        if c != '=' {
            let u = if c == '+' {
                '-'
            } else if c == '/' {
                '_'
            } else {
                c
            };
            out.push(u);
        }
        i = i + 1;
    }
    assert(std_text.take(chars@.len() as int) =~= std_text);
    proof {
        assert forall|i: int| 0 <= i < std_text.len() implies is_standard_base64_char(
            #[trigger] std_text[i],
        ) || std_text[i] == '=' by {
            if i < std_text.len() - padding_len(data@.len()) {
                assert(is_standard_base64_char(encoded@[i]));
            } else {
                assert(encoded@[i] == '=');
            }
        }
        lemma_url_from_standard_all_url_chars(std_text);
        let pad = padding_len(data@.len());
        let body = std_text.take(std_text.len() - pad);
        assert(std_text =~= body + Seq::new(pad, |j: int| '='));
        assert forall|i: int| 0 <= i < body.len() implies is_standard_base64_char(
            #[trigger] body[i],
        ) by {
            assert(is_standard_base64_char(encoded@[i]));
        }
        lemma_url_from_standard_padded(body, pad);
        lemma_url_from_standard_no_padding(body);
        assert(body.len() % 4 == (4 - pad) % 4);
        assert(repad(body) =~= std_text);
    }
    string_from_chars(&out)
}

} // verus!
