//! Decryption of a MEGA file's attributes: URL-safe Base64, then AES-CBC
//! with a zero IV, then UTF-8 text framed by a `MEGA` prefix and trailing
//! NUL characters.

use vstd::prelude::*;
use vstd::utf8::{decode_utf8, valid_utf8};

use super::aes_modes::cbc_decrypt;
use super::base64url::{base64_standard_decode, repad, standard_from_url, url_base64_to_bin};
use super::{decrypt_aes_cbc, CryptoError};
use crate::text::{chars_of, string_from_chars, string_from_utf8};

verus! {

/// `s` starts with the four characters `MEGA`.
pub open spec fn starts_with_mega(s: Seq<char>) -> bool {
    s.len() >= 4 && s[0] == 'M' && s[1] == 'E' && s[2] == 'G' && s[3] == 'A'
}

/// `s` with every leading repetition of `MEGA` removed.
pub open spec fn strip_mega_prefixes(s: Seq<char>) -> Seq<char>
    decreases s.len(),
{
    if starts_with_mega(s) {
        strip_mega_prefixes(s.skip(4))
    } else {
        s
    }
}

/// `s` with every trailing NUL character removed.
pub open spec fn strip_trailing_nuls(s: Seq<char>) -> Seq<char>
    decreases s.len(),
{
    if s.len() > 0 && s.last() == '\0' {
        strip_trailing_nuls(s.drop_last())
    } else {
        s
    }
}

/// Sixteen zero bytes: the IV under which attributes are encrypted.
pub open spec fn zero_iv() -> Seq<u8> {
    Seq::new(16, |i: int| 0u8)
}

/// The text the encrypted attributes `encrypted` stand for under `key`, or
/// the error met on the way.
pub open spec fn attributes_of(encrypted: Seq<char>, key: Seq<u8>) -> Result<Seq<char>, CryptoError> {
    match base64_standard_decode(repad(standard_from_url(encrypted))) {
        None => Err(CryptoError::Base64Decode),
        Some(cipher) => if cipher.len() % 16 != 0 {
            Err(CryptoError::CbcDecrypt)
        } else {
            let plain = cbc_decrypt(key.take(16), zero_iv(), cipher);
            if valid_utf8(plain) {
                Ok(strip_trailing_nuls(strip_mega_prefixes(decode_utf8(plain))))
            } else {
                Err(CryptoError::InvalidUtf8)
            }
        },
    }
}

/// The characters of `s` with leading `MEGA` repetitions and trailing NULs
/// removed.
fn trim_attributes(s: &str) -> (result: String)
    ensures
        result@ == strip_trailing_nuls(strip_mega_prefixes(s@)),
{
    let chars = chars_of(s);
    let len = chars.len();
    let mut start: usize = 0;
    assert(chars@.skip(0) =~= chars@);
    while 4 <= len - start && chars[start] == 'M' && chars[start + 1] == 'E' && chars[start + 2]
        == 'G' && chars[start + 3] == 'A'
        invariant
            chars@ == s@,
            len == chars@.len(),
            start <= len,
            strip_mega_prefixes(chars@.skip(start as int)) == strip_mega_prefixes(s@),
        decreases len - start,
    {
        assert(starts_with_mega(chars@.skip(start as int)));
        assert(chars@.skip(start as int).skip(4) =~= chars@.skip(start + 4));
        start = start + 4;
    }
    let ghost rest = chars@.skip(start as int);
    assert(!starts_with_mega(rest));
    assert(strip_mega_prefixes(rest) == rest);
    let mut end: usize = len;
    while end > start && chars[end - 1] == '\0'
        invariant
            chars@ == s@,
            len == chars@.len(),
            start <= end <= len,
            rest == chars@.skip(start as int),
            strip_trailing_nuls(chars@.subrange(start as int, end as int)) == strip_trailing_nuls(
                rest,
            ),
        decreases end - start,
    {
        assert(chars@.subrange(start as int, end as int).drop_last() =~= chars@.subrange(
            start as int,
            end - 1,
        ));
        end = end - 1;
    }
    assert(strip_trailing_nuls(chars@.subrange(start as int, end as int)) == chars@.subrange(
        start as int,
        end as int,
    ));
    let mut out: Vec<char> = Vec::with_capacity(end - start);
    let mut i: usize = start;
    while i < end
        invariant
            chars@ == s@,
            start <= i <= end <= chars@.len(),
            out@ == chars@.subrange(start as int, i as int),
        decreases end - i,
    {
        out.push(chars[i]);
        i = i + 1;
        assert(out@ =~= chars@.subrange(start as int, i as int));
    }
    string_from_chars(&out)
}

/// Decrypts a file's attributes: decodes `encrypted_attributes` from
/// URL-safe Base64, decrypts it with AES-128-CBC under the first 16 bytes of
/// `key` and a zero IV, reads the result as UTF-8 and removes the leading
/// `MEGA` marks and the trailing NUL padding.
pub fn decrypt_file_attributes(encrypted_attributes: &str, key: &[u8]) -> (result: Result<
    String,
    CryptoError,
>)
    requires
        key@.len() >= 16,
    ensures
        match attributes_of(encrypted_attributes@, key@) {
            Ok(text) => result matches Ok(s) && s@ == text,
            Err(e) => result == Err::<String, CryptoError>(e),
        },
{
    let encrypted = match url_base64_to_bin(encrypted_attributes) {
        Ok(v) => v,
        Err(e) => return Err(e),
    };
    let zeros: [u8; 16] = [0u8; 16];
    assert(zeros@ =~= zero_iv());
    let decrypted = match decrypt_aes_cbc(encrypted.as_slice(), key, &zeros) {
        Ok(v) => v,
        Err(e) => return Err(e),
    };
    assert(zeros@.take(16) =~= zero_iv());
    let text = match string_from_utf8(decrypted) {
        Ok(t) => t,
        Err(_) => return Err(CryptoError::InvalidUtf8),
    };
    Ok(trim_attributes(text.as_str()))
}

/// Attributes that decode and decrypt are refused as not UTF-8 exactly when
/// the decrypted bytes are not valid UTF-8; whenever they are, the result is
/// their text with the leading `MEGA` marks and trailing NULs removed, for
/// any characters the text holds.
pub proof fn lemma_attributes_accept_valid_utf8(encrypted: Seq<char>, key: Seq<u8>, cipher: Seq<u8>)
    requires
        base64_standard_decode(repad(standard_from_url(encrypted))) == Some(cipher),
        cipher.len() % 16 == 0,
    ensures
        attributes_of(encrypted, key) is Ok <==> valid_utf8(cbc_decrypt(key.take(16), zero_iv(), cipher)),
        attributes_of(encrypted, key) == Err::<Seq<char>, CryptoError>(CryptoError::InvalidUtf8)
            <==> !valid_utf8(cbc_decrypt(key.take(16), zero_iv(), cipher)),
        valid_utf8(cbc_decrypt(key.take(16), zero_iv(), cipher)) ==> attributes_of(encrypted, key)
            == Ok::<Seq<char>, CryptoError>(
            strip_trailing_nuls(
                strip_mega_prefixes(decode_utf8(cbc_decrypt(key.take(16), zero_iv(), cipher))),
            ),
        ),
{
}

/// Attributes that are not Base64 are refused as such, and attributes
/// that decode to a length that is not a whole number of AES blocks are
/// refused as undecryptable; no other error comes before decryption.
pub proof fn lemma_attributes_early_errors(encrypted: Seq<char>, key: Seq<u8>)
    ensures
        base64_standard_decode(repad(standard_from_url(encrypted))) is None ==> attributes_of(
            encrypted,
            key,
        ) == Err::<Seq<char>, CryptoError>(CryptoError::Base64Decode),
        base64_standard_decode(repad(standard_from_url(encrypted))) matches Some(c) && c.len() % 16
            != 0 ==> attributes_of(encrypted, key) == Err::<Seq<char>, CryptoError>(
            CryptoError::CbcDecrypt,
        ),
        base64_standard_decode(repad(standard_from_url(encrypted))) matches Some(c) && c.len() % 16
            == 0 ==> attributes_of(encrypted, key) != Err::<Seq<char>, CryptoError>(
            CryptoError::Base64Decode,
        ) && attributes_of(encrypted, key) != Err::<Seq<char>, CryptoError>(
            CryptoError::CbcDecrypt,
        ),
{
}

/// The four characters `MEGA`.
pub open spec fn mega_mark() -> Seq<char> {
    seq!['M', 'E', 'G', 'A']
}

proof fn lemma_strip_mega_shape(s: Seq<char>) -> (m: int)
    ensures
        0 <= 4 * m <= s.len(),
        strip_mega_prefixes(s) == s.skip(4 * m),
        forall|k: int| 0 <= k < m ==> #[trigger] s.subrange(4 * k, 4 * k + 4) == mega_mark(),
        !(s.skip(4 * m).len() >= 4 && s.skip(4 * m).take(4) == mega_mark()),
    decreases s.len(),
{
    if starts_with_mega(s) {
        let t = s.skip(4);
        let m0 = lemma_strip_mega_shape(t);
        assert(s.subrange(0, 4) =~= mega_mark());
        assert(t.skip(4 * m0) =~= s.skip(4 * (m0 + 1)));
        assert forall|k: int| 0 <= k < m0 + 1 implies #[trigger] s.subrange(4 * k, 4 * k + 4)
            == mega_mark() by {
            if k > 0 {
                assert(t.subrange(4 * (k - 1), 4 * (k - 1) + 4) =~= s.subrange(4 * k, 4 * k + 4));
            }
        }
        m0 + 1
    } else {
        assert(s.skip(0) =~= s);
        if s.len() >= 4 && s.take(4) == mega_mark() {
            assert(s[0] == s.take(4)[0] && s[1] == s.take(4)[1] && s[2] == s.take(4)[2] && s[3]
                == s.take(4)[3]);
        }
        0
    }
}

proof fn lemma_strip_nuls_shape(s: Seq<char>) -> (e: int)
    ensures
        0 <= e <= s.len(),
        strip_trailing_nuls(s) == s.take(e),
        forall|j: int| e <= j < s.len() ==> #[trigger] s[j] == '\0',
        e == 0 || s[e - 1] != '\0',
    decreases s.len(),
{
    if s.len() > 0 && s.last() == '\0' {
        let t = s.drop_last();
        let e0 = lemma_strip_nuls_shape(t);
        assert(t.take(e0) =~= s.take(e0));
        assert forall|j: int| e0 <= j < s.len() implies #[trigger] s[j] == '\0' by {
            if j < t.len() {
                assert(s[j] == t[j]);
            }
        }
        e0
    } else {
        assert(s.take(s.len() as int) =~= s);
        s.len() as int
    }
}

/// The attribute text is what lies between the leading `MEGA` marks and
/// the trailing NULs: it is `s[4m..e]` where `s` starts with `m` copies of
/// `MEGA` and holds only NULs from `e` on; every leading `MEGA` is removed
/// (the text does not start with one) and every trailing NUL is removed (the
/// text does not end with one), and nothing else is.
pub proof fn lemma_trimmed_attributes_shape(s: Seq<char>) -> (bounds: (int, int))
    ensures
        0 <= 4 * bounds.0 <= bounds.1 <= s.len(),
        strip_trailing_nuls(strip_mega_prefixes(s)) == s.subrange(4 * bounds.0, bounds.1),
        forall|k: int|
            0 <= k < bounds.0 ==> #[trigger] s.subrange(4 * k, 4 * k + 4) == mega_mark(),
        forall|j: int| bounds.1 <= j < s.len() ==> #[trigger] s[j] == '\0',
        !(strip_trailing_nuls(strip_mega_prefixes(s)).len() >= 4 && strip_trailing_nuls(
            strip_mega_prefixes(s),
        ).take(4) == mega_mark()),
        strip_trailing_nuls(strip_mega_prefixes(s)).len() == 0 || strip_trailing_nuls(
            strip_mega_prefixes(s),
        ).last() != '\0',
{
    let m = lemma_strip_mega_shape(s);
    let t = s.skip(4 * m);
    let e = lemma_strip_nuls_shape(t);
    let r = t.take(e);
    assert(r =~= s.subrange(4 * m, 4 * m + e));
    assert forall|j: int| 4 * m + e <= j < s.len() implies #[trigger] s[j] == '\0' by {
        assert(s[j] == t[j - 4 * m]);
    }
    if r.len() >= 4 && r.take(4) == mega_mark() {
        assert(t.take(4) =~= r.take(4));
    }
    (m, 4 * m + e)
}

} // verus!
