//! Cryptographic helpers used by the MEGA protocol: word/byte conversion,
//! URL-safe Base64, AES in CTR, CBC and ECB modes, key derivation, RSA
//! decryption and the CBC-MAC used to check a downloaded file.

pub mod aes_modes;
pub mod attributes;
pub mod base64url;
pub mod kdf;
pub mod mac;
pub mod rsa_raw;
pub mod words;

pub use aes_modes::AES_BLOCK_SIZE;
pub use attributes::decrypt_file_attributes;
pub use base64url::{bin_to_url_base64, url_base64_to_bin};
pub use mac::{calculate_cbc_mac, verify_file_integrity, verify_mac};
pub use words::{bin_to_i32a, i32a_to_bin};

use vstd::arithmetic::div_mod::{
    lemma_add_mod_noop_right, lemma_fundamental_div_mod_converse, lemma_small_mod,
};
use vstd::prelude::*;

use base64url::{base64_standard_decode, repad, standard_from_url};
use kdf::{pbkdf2_hmac_sha256, pbkdf2_sha256_32};
use rsa_raw::{bytes_modpow, bytes_mul, minimal_be};
use vstd::arithmetic::power::pow;
use crate::text::{chars_of, string_from_chars};
use vstd::string::StringSliceAdditionalSpecFns;
use aes_modes::{
    aes128_cbc_decrypt, aes128_cbc_encrypt_padded, aes128_ctr_apply, aes128_decrypt_block,
    aes128_decrypt_one, be_value, block_of, cbc_chain_block, cbc_decrypt, cbc_encrypt, ctr_apply,
    ctr_apply_from, ctr_block_at, ctr_counter_block, ctr_keystream_byte, ecb_decrypt,
    lemma_be_bytes_value, lemma_pow256_16, pkcs7_pad, xor_block, aes128_encrypt_block,
};

verus! {

/// Length of the salt used to derive the master password key.
pub const MASTER_PASSWORD_PBKDF2_SALT_BYTE_LENGTH: usize = 16;

/// Length, in bits, of the key derived from the master password.
pub const MASTER_PASSWORD_PBKDF2_OUTPUT_BIT_LENGTH: usize = 256;

/// PBKDF2 rounds for the master password.
pub const MASTER_PASSWORD_PBKDF2_ITERATIONS: u32 = 65536;

/// Size of the pieces in which a MEGA file is decrypted: 128 KiB.
pub const MEGA_CHUNK_SIZE: usize = 131072;

/// Why a cryptographic operation failed.
#[derive(Debug, Clone, Copy, PartialEq, Eq, Structural)]
pub enum CryptoError {
    /// The text is not valid Base64.
    Base64Decode,
    /// AES-CBC decryption was given data whose length is not a multiple of
    /// the block size.
    CbcDecrypt,
    /// An encrypted key whose length is not a multiple of the block size.
    KeyNotBlockAligned,
    /// Decrypted attributes that are not valid UTF-8.
    InvalidUtf8,
    /// A decoded file key too short for what is asked of it.
    KeyTooShort,
}

/// The message that goes with `e`.
pub open spec fn crypto_error_text(e: CryptoError) -> Seq<char> {
    match e {
        CryptoError::Base64Decode => "Error al decodificar Base64"@,
        CryptoError::CbcDecrypt => "Error al descifrar datos con AES-CBC: BlockModeError"@,
        CryptoError::KeyNotBlockAligned => "La clave cifrada debe tener un tamaño múltiplo de 16"@,
        CryptoError::InvalidUtf8 => "Los atributos descifrados no son UTF-8 válido"@,
        CryptoError::KeyTooShort => "La clave del archivo es demasiado corta"@,
    }
}

impl CryptoError {
    /// The message that goes with this error.
    pub fn message(&self) -> (result: String)
        ensures
            result@ == crypto_error_text(*self),
    {
        let text = match self {
            CryptoError::Base64Decode => chars_of("Error al decodificar Base64"),
            CryptoError::CbcDecrypt => chars_of("Error al descifrar datos con AES-CBC: BlockModeError"),
            CryptoError::KeyNotBlockAligned => chars_of(
                "La clave cifrada debe tener un tamaño múltiplo de 16",
            ),
            CryptoError::InvalidUtf8 => chars_of("Los atributos descifrados no son UTF-8 válido"),
            CryptoError::KeyTooShort => chars_of("La clave del archivo es demasiado corta"),
        };
        string_from_chars(&text)
    }
}

/// A copy of `data`.
pub fn copy_bytes(data: &[u8]) -> (result: Vec<u8>)
    ensures
        result@ == data@,
{
    let mut result: Vec<u8> = Vec::with_capacity(data.len());
    let mut i: usize = 0;
    while i < data.len()
        invariant
            i <= data@.len(),
            result@ == data@.take(i as int),
        decreases data@.len() - i,
    {
        result.push(data[i]);
        i = i + 1;
        assert(result@ =~= data@.take(i as int));
    }
    assert(data@.take(data@.len() as int) =~= data@);
    result
}

/// Decrypts `data` with AES-128-CTR, using the first 16 bytes of `key` and
/// of `iv` (the counter starts at the IV, read as a big-endian number).
pub fn decrypt_aes_ctr(data: &[u8], key: &[u8], iv: &[u8]) -> (result: Result<Vec<u8>, CryptoError>)
    requires
        key@.len() >= 16,
        iv@.len() >= 16,
    ensures
        result matches Ok(v) && v@ == ctr_apply(key@.take(16), iv@.take(16), data@),
{
    let key = &key[0..16];
    let iv = &iv[0..16];
    let buffer = aes128_ctr_apply(key, iv, data);
    assert(buffer@ =~= ctr_apply(key@, iv@, data@));
    Ok(buffer)
}

/// Encrypts `data` with AES-128-CTR. In CTR mode encryption and decryption
/// are the same operation.
pub fn encrypt_aes_ctr(data: &[u8], key: &[u8], iv: &[u8]) -> (result: Result<Vec<u8>, CryptoError>)
    requires
        key@.len() >= 16,
        iv@.len() >= 16,
    ensures
        result matches Ok(v) && v@ == ctr_apply(key@.take(16), iv@.take(16), data@),
{
    decrypt_aes_ctr(data, key, iv)
}

/// Applying AES-128-CTR twice with the same key and IV gives back the data:
/// decrypting what was encrypted returns the plaintext.
pub proof fn lemma_ctr_involution(key: Seq<u8>, iv: Seq<u8>, data: Seq<u8>)
    ensures
        ctr_apply(key, iv, ctr_apply(key, iv, data)) == data,
{
    let once = ctr_apply(key, iv, data);
    let twice = ctr_apply(key, iv, once);
    assert forall|i: int| 0 <= i < data.len() implies #[trigger] twice[i] == data[i] by {
        let k = ctr_keystream_byte(key, iv, i);
        let d = data[i];
        assert((d ^ k) ^ k == d) by (bit_vector);
    }
    assert(twice =~= data);
}

/// Decrypts `data` with AES-128-CBC and no padding, using the first 16
/// bytes of `key` and of `iv`. Fails when the length of `data` is not a
/// multiple of 16.
pub fn decrypt_aes_cbc(data: &[u8], key: &[u8], iv: &[u8]) -> (result: Result<Vec<u8>, CryptoError>)
    requires
        key@.len() >= 16,
        iv@.len() >= 16,
    ensures
        data@.len() % 16 == 0 ==> (result matches Ok(v) && v@ == cbc_decrypt(
            key@.take(16),
            iv@.take(16),
            data@,
        )),
        data@.len() % 16 != 0 ==> result == Err::<Vec<u8>, CryptoError>(CryptoError::CbcDecrypt),
{
    let key = &key[0..16];
    let iv = &iv[0..16];
    match aes128_cbc_decrypt(key, iv, data) {
        Ok(v) => Ok(v),
        Err(_) => Err(CryptoError::CbcDecrypt),
    }
}

/// Encrypts `data` with AES-128-CBC under the first 16 bytes of `key` and
/// of `iv`, after padding it with PKCS#7 to a whole number of blocks. Never
/// fails. `decrypt_aes_cbc` with the same key and IV gives back the padded
/// data.
pub fn encrypt_aes_cbc(data: &[u8], key: &[u8], iv: &[u8]) -> (result: Result<Vec<u8>, CryptoError>)
    requires
        key@.len() >= 16,
        iv@.len() >= 16,
    ensures
        result matches Ok(v) && v@ == cbc_encrypt(key@.take(16), iv@.take(16), pkcs7_pad(data@)),
        result matches Ok(v) && v@.len() == pkcs7_pad(data@).len(),
        result matches Ok(v) && forall|b: int|
            0 <= b < pkcs7_pad(data@).len() / 16 ==> #[trigger] block_of(v@, b)
                == aes128_encrypt_block(
                key@.take(16),
                xor_block(cbc_chain_block(iv@.take(16), v@, b), block_of(pkcs7_pad(data@), b)),
            ),
        result matches Ok(v) && cbc_decrypt(key@.take(16), iv@.take(16), v@) == pkcs7_pad(data@),
{
    let key = &key[0..16];
    let iv = &iv[0..16];
    let v = aes128_cbc_encrypt_padded(key, iv, data);
    proof {
        assert(pkcs7_pad(data@).len() % 16 == 0);
        lemma_cbc_decrypt_inverts(key@, iv@, pkcs7_pad(data@), v@);
    }
    Ok(v)
}

/// When decrypting each ciphertext block under `key` gives the plaintext
/// block XORed with the block before it (the IV for the first), CBC
/// decryption gives the whole plaintext back.
proof fn lemma_cbc_decrypt_inverts(key: Seq<u8>, iv: Seq<u8>, data: Seq<u8>, v: Seq<u8>)
    requires
        iv.len() == 16,
        data.len() % 16 == 0,
        v.len() == data.len(),
        forall|b: int|
            0 <= b < data.len() / 16 ==> aes128_decrypt_block(key, #[trigger] block_of(v, b))
                == xor_block(cbc_chain_block(iv, v, b), block_of(data, b)),
    ensures
        cbc_decrypt(key, iv, v) == data,
{
    let d = cbc_decrypt(key, iv, v);
    assert forall|i: int| 0 <= i < data.len() implies #[trigger] d[i] == data[i] by {
        let b = i / 16;
        let j = i % 16;
        assert(0 <= b < data.len() / 16);
        assert(16 * b + j == i);
        let c = cbc_chain_block(iv, v, b);
        let p = block_of(data, b);
        assert(p[j] == data[i]);
        assert(aes128_decrypt_block(key, block_of(v, b))[j] == c[j] ^ p[j]);
        let x = c[j];
        let y = p[j];
        assert((x ^ y) ^ x == y) by (bit_vector);
    }
    assert(d =~= data);
}

/// AES-128-ECB decrypts each 16-byte block on its own: block `b` of the
/// result is the AES-128 decryption of block `b` of the input.
pub proof fn lemma_ecb_block_by_block(key: Seq<u8>, data: Seq<u8>)
    requires
        data.len() % 16 == 0,
    ensures
        ecb_decrypt(key, data).len() == data.len(),
        forall|b: int, j: int|
            0 <= b < data.len() / 16 && 0 <= j < 16 ==> ecb_decrypt(key, data)[16 * b + j]
                == #[trigger] aes128_decrypt_block(key, data.subrange(16 * b, 16 * b + 16))[j],
{
    assert forall|b: int, j: int| 0 <= b < data.len() / 16 && 0 <= j < 16 implies ecb_decrypt(
        key,
        data,
    )[16 * b + j] == #[trigger] aes128_decrypt_block(key, data.subrange(16 * b, 16 * b + 16))[j] by {
        let i = 16 * b + j;
        assert(i / 16 == b && i % 16 == j) by {
            lemma_fundamental_div_mod_converse(i, 16, b, j);
        }
        assert(i < data.len());
    }
}

/// Decrypts an encrypted key with AES-128-ECB under the first 16 bytes of
/// `key`. Fails when the length of `encrypted_key` is not a multiple of 16.
pub fn decrypt_key(encrypted_key: &[u8], key: &[u8]) -> (result: Result<Vec<u8>, CryptoError>)
    requires
        key@.len() >= 16,
    ensures
        encrypted_key@.len() % 16 == 0 ==> (result matches Ok(v) && v@ == ecb_decrypt(
            key@.take(16),
            encrypted_key@,
        )),
        encrypted_key@.len() % 16 != 0 ==> result == Err::<Vec<u8>, CryptoError>(
            CryptoError::KeyNotBlockAligned,
        ),
{
    let key = &key[0..16];
    let len = encrypted_key.len();
    if len % AES_BLOCK_SIZE != 0 {
        return Err(CryptoError::KeyNotBlockAligned);
    }
    let ghost expected = ecb_decrypt(key@, encrypted_key@);
    let mut result: Vec<u8> = Vec::with_capacity(len);
    let mut b: usize = 0;
    while b < len / 16
        invariant
            len == encrypted_key@.len(),
            len % 16 == 0,
            key@.len() == 16,
            b <= len / 16,
            expected == ecb_decrypt(key@, encrypted_key@),
            result@.len() == 16 * b,
            forall|j: int| 0 <= j < 16 * b ==> #[trigger] result@[j] == expected[j],
        decreases len / 16 - b,
    {
        assert(16 * b + 16 <= len);
        let block = &encrypted_key[16 * b..16 * b + 16];
        let plain = aes128_decrypt_one(key, block);
        assert(block@ == block_of(encrypted_key@, b as int));
        let mut k: usize = 0;
        while k < 16
            invariant
                k <= 16,
                plain@.len() == 16,
                plain@ == aes128_decrypt_block(key@, block_of(encrypted_key@, b as int)),
                result@.len() == 16 * b + k,
                16 * b + 16 <= len,
                len == encrypted_key@.len(),
                expected == ecb_decrypt(key@, encrypted_key@),
                forall|j: int| 0 <= j < 16 * b + k ==> #[trigger] result@[j] == expected[j],
            decreases 16 - k,
        {
            result.push(plain[k]);
            proof {
                let j = 16 * b + k;
                assert(j / 16 == b && j % 16 == k);
            }
            k = k + 1;
        }
        b = b + 1;
    }
    assert(result@ =~= expected);
    Ok(result)
}

/// Derives the 32-byte master key from `password` (its UTF-8 bytes) and
/// `salt` with PBKDF2-HMAC-SHA256 in `MASTER_PASSWORD_PBKDF2_ITERATIONS`
/// rounds.
pub fn derive_key(password: &str, salt: &[u8]) -> (result: Vec<u8>)
    ensures
        result@ == pbkdf2_hmac_sha256(
            password.spec_bytes(),
            salt@,
            MASTER_PASSWORD_PBKDF2_ITERATIONS,
        ),
        result@.len() == 32,
{
    pbkdf2_sha256_32(password.as_bytes(), salt, MASTER_PASSWORD_PBKDF2_ITERATIONS)
}

/// Decrypts `data` with the RSA private key `(p, q, d)`: reads `data` as a
/// big-endian number `c` and returns the big-endian form of `c^d mod p·q`
/// (one byte for zero, otherwise no leading zero byte). The primes and the
/// exponent are big-endian bytes too.
pub fn rsa_decrypt(data: &[u8], p: &[u8], q: &[u8], d: &[u8]) -> (result: Result<Vec<u8>, CryptoError>)
    requires
        be_value(p@) * be_value(q@) > 0,
    ensures
        result matches Ok(v) && be_value(v@) == pow(be_value(data@) as int, be_value(d@)) % ((
        be_value(p@) * be_value(q@)) as int) && minimal_be(v@),
{
    let n = bytes_mul(p, q);
    if n.len() == 1 && n[0] == 1 {
        let zero: Vec<u8> = vec![0u8];
        proof {
            reveal_with_fuel(be_value, 2);
            assert(n@.drop_last() =~= Seq::<u8>::empty());
            assert(be_value(n@) == 1);
            let x = pow(be_value(data@) as int, be_value(d@));
            assert(x % 1 == 0);
            assert(zero@.drop_last() =~= Seq::<u8>::empty());
        }
        return Ok(zero);
    }
    proof {
        if n@.len() == 1 {
            reveal_with_fuel(be_value, 2);
            assert(n@.drop_last() =~= Seq::<u8>::empty());
        } else {
            lemma_be_value_leading(n@);
        }
    }
    Ok(bytes_modpow(data, d, n.as_slice()))
}

/// Big-endian bytes of two or more that do not start with zero stand for a
/// number of at least 256.
proof fn lemma_be_value_leading(b: Seq<u8>)
    requires
        b.len() >= 2,
        b[0] != 0,
    ensures
        be_value(b) >= 256,
    decreases b.len(),
{
    let p = b.drop_last();
    if p.len() == 1 {
        reveal_with_fuel(be_value, 2);
        assert(p.drop_last() =~= Seq::<u8>::empty());
        assert(be_value(p) == p[0]);
    } else {
        assert(p[0] == b[0]);
        lemma_be_value_leading(p);
    }
    assert(be_value(b) >= be_value(p) * 256) by (nonlinear_arith)
        requires
            be_value(b) == be_value(p) * 256 + b.last() as nat,
    ;
}

/// Decrypts the piece of a MEGA file that starts at byte `offset` (a
/// multiple of 16). The decoded file key holds the AES key in bytes 0..16
/// and the CTR IV in bytes 16..32; the whole file is one AES-128-CTR
/// keystream, so the counter of this piece starts `offset / 16` blocks after
/// the IV.
pub fn decrypt_mega_chunk(chunk: &[u8], key_bytes: &[u8], offset: u64) -> (result: Result<
    Vec<u8>,
    CryptoError,
>)
    requires
        key_bytes@.len() >= 32,
        offset % 16 == 0,
    ensures
        result matches Ok(v) && v@ == ctr_apply_from(
            key_bytes@.subrange(0, 16),
            key_bytes@.subrange(16, 32),
            offset as int,
            chunk@,
        ),
{
    let key = &key_bytes[0..16];
    let iv = &key_bytes[16..32];
    let blocks = offset / 16;
    let counter = ctr_block_at(iv, blocks);
    proof {
        lemma_be_bytes_value(
            ((be_value(iv@) + blocks) % 0x1_0000_0000_0000_0000_0000_0000_0000_0000int) as nat,
            16,
        );
    }
    let out = aes128_ctr_apply(key, counter.as_slice(), chunk);
    proof {
        let m = 0x1_0000_0000_0000_0000_0000_0000_0000_0000int;
        let start = (be_value(iv@) + blocks) % m;
        lemma_pow256_16();
        lemma_small_mod(start as nat, m as nat);
        assert(be_value(counter@) == start);
        assert forall|i: int| 0 <= i < chunk@.len() implies #[trigger] out@[i] == chunk@[i]
            ^ ctr_keystream_byte(key@, iv@, offset + i) by {
            let j = i / 16;
            assert((offset + i) / 16 == blocks + j && (offset + i) % 16 == i % 16) by {
                lemma_fundamental_div_mod_converse(
                    offset + i,
                    16,
                    blocks + j,
                    i % 16,
                );
            }
            lemma_add_mod_noop_right(j, be_value(iv@) + blocks, m);
            assert(ctr_counter_block(counter@, j) == ctr_counter_block(iv@, blocks + j));
        }
        assert(out@ =~= ctr_apply_from(key@, iv@, offset as int, chunk@));
    }
    Ok(out)
}

/// Decrypting a stream piece by piece, each piece with the keystream
/// advanced to where it starts, gives the same bytes as decrypting the
/// whole stream at once.
pub proof fn lemma_ctr_pieces(key: Seq<u8>, iv: Seq<u8>, data: Seq<u8>, start: int, end: int)
    requires
        0 <= start <= end <= data.len(),
    ensures
        ctr_apply(key, iv, data).subrange(start, end) == ctr_apply_from(
            key,
            iv,
            start,
            data.subrange(start, end),
        ),
{
    assert(ctr_apply(key, iv, data).subrange(start, end) =~= ctr_apply_from(
        key,
        iv,
        start,
        data.subrange(start, end),
    ));
}

/// Decrypts the contents of a MEGA file with its URL-safe Base64 file key,
/// whose bytes 0..16 are the AES key and 16..32 the CTR IV. The file is one
/// AES-128-CTR keystream; it is decrypted in pieces of `MEGA_CHUNK_SIZE`
/// bytes, each with the counter advanced to where the piece starts. Fails
/// when the key is not Base64, or decodes to fewer than 32 bytes.
pub fn decrypt_mega_file(data: &[u8], file_key: &str) -> (result: Result<Vec<u8>, CryptoError>)
    ensures
        match base64_standard_decode(repad(standard_from_url(file_key@))) {
            None => result == Err::<Vec<u8>, CryptoError>(CryptoError::Base64Decode),
            Some(k) => if k.len() < 32 {
                result == Err::<Vec<u8>, CryptoError>(CryptoError::KeyTooShort)
            } else {
                result matches Ok(v) && v@ == ctr_apply(k.subrange(0, 16), k.subrange(16, 32), data@)
            },
        },
{
    let key_bytes = match url_base64_to_bin(file_key) {
        Ok(k) => k,
        Err(e) => return Err(e),
    };
    if key_bytes.len() < 32 {
        return Err(CryptoError::KeyTooShort);
    }
    let ghost key = key_bytes@.subrange(0, 16);
    let ghost iv = key_bytes@.subrange(16, 32);
    let ghost whole = ctr_apply(key, iv, data@);
    let len = data.len();
    let mut out: Vec<u8> = Vec::with_capacity(len);
    let mut pos: usize = 0;
    while pos < len
        invariant
            len == data@.len(),
            pos <= len,
            pos % 16 == 0 || pos == len,
            key_bytes@.len() >= 32,
            key == key_bytes@.subrange(0, 16),
            iv == key_bytes@.subrange(16, 32),
            whole == ctr_apply(key, iv, data@),
            out@ == whole.take(pos as int),
        decreases len - pos,
    {
        let n: usize = if len - pos < MEGA_CHUNK_SIZE {
            len - pos
        } else {
            MEGA_CHUNK_SIZE
        };
        let piece = &data[pos..pos + n];
        let plain = match decrypt_mega_chunk(piece, key_bytes.as_slice(), pos as u64) {
            Ok(p) => p,
            Err(e) => return Err(e),
        };
        proof {
            lemma_ctr_pieces(key, iv, data@, pos as int, pos + n);
        }
        let ghost before = out@;
        let mut i: usize = 0;
        while i < plain.len()
            invariant
                i <= plain@.len(),
                out@ == before + plain@.take(i as int),
            decreases plain@.len() - i,
        {
            out.push(plain[i]);
            i = i + 1;
            assert(out@ =~= before + plain@.take(i as int));
        }
        assert(plain@.take(plain@.len() as int) =~= plain@);
        assert(out@ =~= whole.take(pos + n));
        pos = pos + n;
    }
    assert(out@ =~= whole);
    Ok(out)
}

} // verus!
