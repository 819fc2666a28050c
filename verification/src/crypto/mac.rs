//! The CBC-MAC with which a downloaded MEGA file is checked against the MAC
//! carried in its key.

use vstd::prelude::*;

use super::aes_modes::{aes128_encrypt_block, block_of, cbc_chain_block, pkcs7_pad, xor_block};
use super::attributes::zero_iv;
use super::base64url::{base64_standard_decode, repad, standard_from_url, url_base64_to_bin};
use super::{copy_bytes, encrypt_aes_cbc, CryptoError};

verus! {

/// `mac` with the first bytes XORed with `block` (which is no longer).
pub open spec fn xor_into(mac: Seq<u8>, block: Seq<u8>) -> Seq<u8> {
    Seq::new(mac.len(), |i: int| if i < block.len() { mac[i] ^ block[i] } else { mac[i] })
}

/// One step of the CBC-MAC: XOR the next block in, then encrypt the result
/// with AES-128 under `key`.
pub open spec fn mac_step(key: Seq<u8>, mac: Seq<u8>, block: Seq<u8>) -> Seq<u8> {
    aes128_encrypt_block(key, xor_into(mac, block))
}

/// The first block of the padded AES-128-CBC encryption of one block under
/// a zero IV is the AES-128 encryption of that block.
proof fn lemma_cbc_first_block(key: Seq<u8>, block: Seq<u8>, v: Seq<u8>)
    requires
        block.len() == 16,
        v.len() == pkcs7_pad(block).len(),
        forall|b: int|
            0 <= b < pkcs7_pad(block).len() / 16 ==> #[trigger] block_of(v, b)
                == aes128_encrypt_block(
                key,
                xor_block(cbc_chain_block(zero_iv(), v, b), block_of(pkcs7_pad(block), b)),
            ),
    ensures
        v.subrange(0, 16) == aes128_encrypt_block(key, block),
{
    assert(pkcs7_pad(block).len() == 32);
    assert(block_of(pkcs7_pad(block), 0) =~= block);
    assert(xor_block(zero_iv(), block) =~= block) by {
        assert forall|i: int| 0 <= i < 16 implies #[trigger] xor_block(zero_iv(), block)[i]
            == block[i] by {
            let x = block[i];
            assert(0u8 ^ x == x) by (bit_vector);
        }
    }
    assert(block_of(v, 0) == v.subrange(0, 16));
}

/// The number of bytes of `data` that the next step reads: a whole block,
/// or what is left.
pub open spec fn next_block_len(data: Seq<u8>) -> int {
    if data.len() < 16 {
        data.len() as int
    } else {
        16
    }
}

/// The MAC of `data` under `key`, starting from `mac`: one step for each
/// 16-byte block of `data`, the last block possibly shorter.
pub open spec fn cbc_mac(key: Seq<u8>, mac: Seq<u8>, data: Seq<u8>) -> Seq<u8>
    decreases data.len(),
{
    if data.len() == 0 {
        mac
    } else {
        let n = next_block_len(data);
        cbc_mac(key, mac_step(key, mac, data.take(n)), data.skip(n))
    }
}

/// Computes the CBC-MAC of `data` under the first 16 bytes of `key`,
/// starting from the 16-byte `iv`: each 16-byte block (the last one possibly
/// shorter) is XORed into the running value, which is then encrypted with
/// AES-128-CBC under `key` and a zero IV.
pub fn calculate_cbc_mac(data: &[u8], key: &[u8], iv: &[u8]) -> (result: Result<Vec<u8>, CryptoError>)
    requires
        key@.len() >= 16,
        iv@.len() == 16,
    ensures
        result matches Ok(m) && m@ == cbc_mac(key@.take(16), iv@, data@),
        result matches Ok(m) && m@.len() == 16,
{
    let mut mac: Vec<u8> = Vec::with_capacity(16);
    let mut k: usize = 0;
    while k < 16
        invariant
            k <= 16,
            iv@.len() == 16,
            mac@ == iv@.take(k as int),
        decreases 16 - k,
    {
        mac.push(iv[k]);
        k = k + 1;
        assert(mac@ =~= iv@.take(k as int));
    }
    assert(iv@.take(16) =~= iv@);
    let zeros: [u8; 16] = [0u8; 16];
    assert(zeros@ =~= zero_iv());
    assert(zeros@.take(16) =~= zero_iv());
    let ghost k16 = key@.take(16);
    let len = data.len();
    let mut pos: usize = 0;
    assert(data@.skip(0) =~= data@);
    while pos < len
        invariant
            len == data@.len(),
            pos <= len,
            key@.len() >= 16,
            k16 == key@.take(16),
            zeros@ == zero_iv(),
            zeros@.take(16) == zero_iv(),
            mac@.len() == 16,
            cbc_mac(k16, mac@, data@.skip(pos as int)) == cbc_mac(k16, iv@, data@),
        decreases len - pos,
    {
        let n: usize = if len - pos < 16 {
            len - pos
        } else {
            16
        };
        let ghost rest = data@.skip(pos as int);
        let ghost old_mac = mac@;
        assert(n == next_block_len(rest));
        let mut i: usize = 0;
        while i < n
            invariant
                n <= 16,
                pos + n <= len,
                len == data@.len(),
                i <= n,
                mac@.len() == 16,
                forall|j: int|
                    0 <= j < 16 ==> #[trigger] mac@[j] == if j < i {
                        old_mac[j] ^ data@[pos + j]
                    } else {
                        old_mac[j]
                    },
            decreases n - i,
        {
            let x = mac[i] ^ data[pos + i];
            mac.set(i, x);
            i = i + 1;
        }
        let ghost block = rest.take(n as int);
        assert(mac@ =~= xor_into(old_mac, block));
        let encrypted = match encrypt_aes_cbc(mac.as_slice(), key, &zeros) {
            Ok(v) => v,
            Err(e) => {
                return Err(e);
            },
        };
        proof {
            assert(zeros@.take(16) == zero_iv());
            lemma_cbc_first_block(k16, mac@, encrypted@);
        }
        let next = copy_bytes(&encrypted[0..16]);
        assert(next@ == mac_step(k16, old_mac, block));
        assert(rest.skip(n as int) =~= data@.skip(pos + n));
        mac = next;
        pos = pos + n;
    }
    assert(data@.skip(len as int) =~= Seq::<u8>::empty());
    Ok(mac)
}

/// Checks `data` against a 48-byte MEGA file key: bytes 0..16 are the AES
/// key, 16..32 the starting value of the MAC and 32..48 the expected MAC.
pub fn verify_mac(data: &[u8], key_bytes: &[u8]) -> (result: Result<bool, CryptoError>)
    requires
        key_bytes@.len() >= 48,
    ensures
        result matches Ok(b) && b == (key_bytes@.subrange(32, 48) == cbc_mac(
            key_bytes@.subrange(0, 16),
            key_bytes@.subrange(16, 32),
            data@,
        )),
{
    let key = &key_bytes[0..16];
    let iv = &key_bytes[16..32];
    let expected = &key_bytes[32..48];
    let computed = match calculate_cbc_mac(data, key, iv) {
        Ok(m) => m,
        Err(e) => return Err(e),
    };
    assert(key@.take(16) =~= key@);
    let ghost want = cbc_mac(key@, iv@, data@);
    let mut i: usize = 0;
    while i < 16
        invariant
            i <= 16,
            expected@.len() == 16,
            computed@.len() == 16,
            computed@ == want,
            expected@ == key_bytes@.subrange(32, 48),
            want == cbc_mac(key_bytes@.subrange(0, 16), key_bytes@.subrange(16, 32), data@),
            forall|j: int| 0 <= j < i ==> expected@[j] == computed@[j],
        decreases 16 - i,
    {
        if expected[i] != computed[i] {
            assert(expected@[i as int] != want[i as int]);
            return Ok(false);
        }
        i = i + 1;
    }
    assert(expected@ =~= want);
    Ok(true)
}

/// Checks the contents of a downloaded file against its URL-safe Base64 file
/// key, whose bytes 0..16 are the AES key, 16..32 the starting value of the
/// MAC and 32..48 the expected MAC. Fails when the key is not Base64, or
/// decodes to fewer than 48 bytes.
pub fn verify_file_integrity(data: &[u8], file_key: &str) -> (result: Result<bool, CryptoError>)
    ensures
        match base64_standard_decode(repad(standard_from_url(file_key@))) {
            None => result == Err::<bool, CryptoError>(CryptoError::Base64Decode),
            Some(k) => if k.len() < 48 {
                result == Err::<bool, CryptoError>(CryptoError::KeyTooShort)
            } else {
                result == Ok::<bool, CryptoError>(
                    k.subrange(32, 48) == cbc_mac(k.subrange(0, 16), k.subrange(16, 32), data@),
                )
            },
        },
{
    let key_bytes = match url_base64_to_bin(file_key) {
        Ok(k) => k,
        Err(e) => return Err(e),
    };
    if key_bytes.len() < 48 {
        return Err(CryptoError::KeyTooShort);
    }
    verify_mac(data, key_bytes.as_slice())
}

} // verus!
