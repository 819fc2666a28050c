//! AES-128 in the modes MEGA uses: CTR for file contents, CBC (without
//! padding) for file attributes, and single blocks (ECB) for keys.
//!
//! The block cipher itself is the `aes` crate's; what one block encrypts or
//! decrypts to is named below and not spelled out. The modes are stated
//! exactly in terms of those names.

use vstd::arithmetic::div_mod::{lemma_add_mod_noop, lemma_mod_breakdown, lemma_small_mod};
use vstd::prelude::*;

use aes::cipher::generic_array::GenericArray;
use aes::{Aes128, BlockDecrypt, NewBlockCipher};
use block_modes::block_padding::{NoPadding, Pkcs7};
use block_modes::{BlockMode, BlockModeError, Cbc};
use ctr::cipher::{NewCipher, StreamCipher};
use ctr::Ctr128BE;

verus! {

/// The AES block size, in bytes.
pub const AES_BLOCK_SIZE: usize = 16;

/// What AES-128 with the 16-byte `key` encrypts the 16-byte `block` to.
pub uninterp spec fn aes128_encrypt_block(key: Seq<u8>, block: Seq<u8>) -> Seq<u8>;

/// What AES-128 with the 16-byte `key` decrypts the 16-byte `block` to.
pub uninterp spec fn aes128_decrypt_block(key: Seq<u8>, block: Seq<u8>) -> Seq<u8>;

/// The unsigned value of the big-endian bytes `b`.
pub open spec fn be_value(b: Seq<u8>) -> nat
    decreases b.len(),
{
    if b.len() == 0 {
        0
    } else {
        be_value(b.drop_last()) * 256 + b.last() as nat
    }
}

/// The `n` low bytes of `v`, big-endian.
pub open spec fn be_bytes(v: nat, n: nat) -> Seq<u8>
    decreases n,
{
    if n == 0 {
        Seq::empty()
    } else {
        be_bytes(v / 256, (n - 1) as nat).push((v % 256) as u8)
    }
}

/// The counter block that CTR mode encrypts for block `j` of the data: the
/// IV read as a big-endian 128-bit number, plus `j`, modulo 2^128.
pub open spec fn ctr_counter_block(iv: Seq<u8>, j: int) -> Seq<u8> {
    be_bytes(((be_value(iv) + j) % 0x1_0000_0000_0000_0000_0000_0000_0000_0000int) as nat, 16)
}

/// Byte `i` of the AES-128-CTR keystream for `key` and `iv`.
pub open spec fn ctr_keystream_byte(key: Seq<u8>, iv: Seq<u8>, i: int) -> u8 {
    aes128_encrypt_block(key, ctr_counter_block(iv, i / 16))[i % 16]
}

/// AES-128-CTR applied to `data`: each byte XORed with the keystream.
pub open spec fn ctr_apply(key: Seq<u8>, iv: Seq<u8>, data: Seq<u8>) -> Seq<u8> {
    Seq::new(data.len(), |i: int| data[i] ^ ctr_keystream_byte(key, iv, i))
}

/// AES-128-CTR applied to `data` that stands at byte `start` of a longer
/// stream: byte `i` is XORed with keystream byte `start + i`.
pub open spec fn ctr_apply_from(key: Seq<u8>, iv: Seq<u8>, start: int, data: Seq<u8>) -> Seq<u8> {
    Seq::new(data.len(), |i: int| data[i] ^ ctr_keystream_byte(key, iv, start + i))
}

/// Block `b` (16 bytes) of `data`.
pub open spec fn block_of(data: Seq<u8>, b: int) -> Seq<u8> {
    data.subrange(16 * b, 16 * b + 16)
}

/// AES-128-ECB decryption: each 16-byte block decrypted on its own.
pub open spec fn ecb_decrypt(key: Seq<u8>, data: Seq<u8>) -> Seq<u8> {
    Seq::new(data.len(), |i: int| aes128_decrypt_block(key, block_of(data, i / 16))[i % 16])
}

/// The block that CBC decryption XORs into the decryption of block `b`:
/// the IV for the first block, the previous ciphertext block after that.
pub open spec fn cbc_chain_block(iv: Seq<u8>, data: Seq<u8>, b: int) -> Seq<u8> {
    if b == 0 {
        iv
    } else {
        block_of(data, b - 1)
    }
}

/// AES-128-CBC decryption without padding.
pub open spec fn cbc_decrypt(key: Seq<u8>, iv: Seq<u8>, data: Seq<u8>) -> Seq<u8> {
    Seq::new(
        data.len(),
        |i: int|
            aes128_decrypt_block(key, block_of(data, i / 16))[i % 16] ^ cbc_chain_block(
                iv,
                data,
                i / 16,
            )[i % 16],
    )
}

/// The bytes of `b` XORed with the first bytes of `a`.
pub open spec fn xor_block(a: Seq<u8>, b: Seq<u8>) -> Seq<u8> {
    Seq::new(b.len(), |i: int| a[i] ^ b[i])
}

/// AES-128-CBC encryption without padding, chained from `prev`: each
/// 16-byte block is XORed with the previous ciphertext block (`prev` for the
/// first) and encrypted. A trailing partial block is not encrypted.
pub open spec fn cbc_encrypt(key: Seq<u8>, prev: Seq<u8>, data: Seq<u8>) -> Seq<u8>
    decreases data.len(),
{
    if data.len() < 16 {
        Seq::empty()
    } else {
        let c = aes128_encrypt_block(key, xor_block(prev, data.take(16)));
        c + cbc_encrypt(key, c, data.skip(16))
    }
}

/// `data` padded with PKCS#7 to a whole number of 16-byte blocks: `k`
/// bytes of value `k` are appended, `k` between 1 and 16 (a whole block of
/// 16 when `data` already ends on a block boundary).
pub open spec fn pkcs7_pad(data: Seq<u8>) -> Seq<u8> {
    let k = 16 - data.len() % 16;
    data + Seq::new(k as nat, |i: int| k as u8)
}

/// 256 to the power `n`.
pub open spec fn pow256(n: nat) -> nat
    decreases n,
{
    if n == 0 {
        1
    } else {
        256 * pow256((n - 1) as nat)
    }
}

/// The value of big-endian bytes is below 256 to the power of their number.
pub proof fn lemma_be_value_bound(b: Seq<u8>)
    ensures
        be_value(b) < pow256(b.len()),
    decreases b.len(),
{
    if b.len() > 0 {
        lemma_be_value_bound(b.drop_last());
        let v = be_value(b.drop_last());
        let p = pow256(b.drop_last().len());
        assert(v * 256 + b.last() < 256 * p) by (nonlinear_arith)
            requires
                v < p,
                b.last() < 256,
        ;
    }
}

/// Reading back the `n` low bytes of `v` gives `v` modulo 256^n.
pub proof fn lemma_be_bytes_value(v: nat, n: nat)
    ensures
        be_bytes(v, n).len() == n,
        be_value(be_bytes(v, n)) == v % pow256(n),
    decreases n,
{
    if n > 0 {
        lemma_be_bytes_value(v / 256, (n - 1) as nat);
        let s = be_bytes(v, n);
        assert(s.drop_last() =~= be_bytes(v / 256, (n - 1) as nat));
        let p = pow256((n - 1) as nat);
        assert(p > 0) by {
            lemma_pow256_positive((n - 1) as nat);
        }
        lemma_mod_breakdown(v as int, 256, p as int);
        assert(256 * ((v / 256) % p) + v % 256 == ((v / 256) % p) * 256 + v % 256) by (nonlinear_arith);
    }
}

proof fn lemma_pow256_positive(n: nat)
    ensures
        pow256(n) > 0,
    decreases n,
{
    if n > 0 {
        lemma_pow256_positive((n - 1) as nat);
    }
}

/// 256^16 is 2^128.
pub proof fn lemma_pow256_16()
    ensures
        pow256(16) == 0x1_0000_0000_0000_0000_0000_0000_0000_0000int,
{
    reveal_with_fuel(pow256, 17);
}

/// The value of the 16 big-endian bytes `b`.
fn be16_value(b: &[u8]) -> (result: u128)
    requires
        b@.len() == 16,
    ensures
        result == be_value(b@),
{
    let mut v: u128 = 0;
    let mut i: usize = 0;
    proof {
        lemma_pow256_16();
        assert(b@.take(0) =~= Seq::<u8>::empty());
    }
    while i < 16
        invariant
            i <= 16,
            b@.len() == 16,
            v == be_value(b@.take(i as int)),
            pow256(16) == 0x1_0000_0000_0000_0000_0000_0000_0000_0000int,
        decreases 16 - i,
    {
        proof {
            lemma_be_value_bound(b@.take(i + 1));
            assert(b@.take(i + 1).drop_last() =~= b@.take(i as int));
            lemma_pow256_monotone((i + 1) as nat, 16);
        }
        v = v * 256 + b[i] as u128;
        i = i + 1;
    }
    assert(b@.take(16) =~= b@);
    v
}

proof fn lemma_pow256_monotone(m: nat, n: nat)
    requires
        m <= n,
    ensures
        pow256(m) <= pow256(n),
    decreases n,
{
    if m < n {
        lemma_pow256_monotone(m, (n - 1) as nat);
        lemma_pow256_positive((n - 1) as nat);
    }
}

/// Appends the `n` low bytes of `v`, big-endian, to `out`.
fn push_be_bytes(out: &mut Vec<u8>, v: u128, n: usize)
    ensures
        final(out)@ == old(out)@ + be_bytes(v as nat, n as nat),
    decreases n,
{
    if n > 0 {
        push_be_bytes(out, v / 256, n - 1);
        out.push((v % 256) as u8);
        assert(out@ =~= old(out)@ + be_bytes(v as nat, n as nat));
    } else {
        assert(out@ =~= old(out)@ + be_bytes(v as nat, n as nat));
    }
}

/// The counter block of block `index` for the 16-byte `iv`: the IV as a
/// big-endian number plus `index`, modulo 2^128.
pub fn ctr_block_at(iv: &[u8], index: u64) -> (result: Vec<u8>)
    requires
        iv@.len() == 16,
    ensures
        result@ == ctr_counter_block(iv@, index as int),
{
    let start = be16_value(iv);
    let step = index as u128;
    let counter: u128 = if start > u128::MAX - step {
        start - (u128::MAX - step) - 1
    } else {
        start + step
    };
    assert(counter == (be_value(iv@) + index) % 0x1_0000_0000_0000_0000_0000_0000_0000_0000int) by {
        let m = 0x1_0000_0000_0000_0000_0000_0000_0000_0000int;
        let t = be_value(iv@) + index;
        if start > u128::MAX - step {
            assert(t - m == counter);
            assert(0 <= t - m < m);
            lemma_small_mod((t - m) as nat, m as nat);
            assert((t - m) % m == t % m) by {
                lemma_add_mod_noop(t - m, m, m);
                lemma_small_mod(0nat, m as nat);
            }
        } else {
            lemma_small_mod(t as nat, m as nat);
        }
    }
    let mut out: Vec<u8> = Vec::with_capacity(16);
    push_be_bytes(&mut out, counter, 16);
    assert(out@ =~= ctr_counter_block(iv@, index as int));
    out
}

#[verifier::external_type_specification]
#[verifier::external_body]
pub struct ExBlockModeError(BlockModeError);

/// Calls `decrypt_block` of the `aes` crate's `Aes128` on one block. Claims
/// that the result is the 16 bytes that `aes128_decrypt_block` names.
#[verifier::external_body]
pub(crate) fn aes128_decrypt_one(key: &[u8], block: &[u8]) -> (result: Vec<u8>)
    requires
        key@.len() == 16,
        block@.len() == 16,
    ensures
        result@ == aes128_decrypt_block(key@, block@),
        result@.len() == 16,
{
    let cipher = Aes128::new(GenericArray::from_slice(key));
    let mut b = GenericArray::clone_from_slice(block);
    cipher.decrypt_block(&mut b);
    b.to_vec()
}

/// Calls `apply_keystream` of the `ctr` crate's `Ctr128BE<Aes128>` on a copy
/// of `data`. Claims what the crate's source shows: each byte is XORed with
/// the AES-128 encryption of a big-endian 128-bit counter that starts at the
/// IV and grows by one every 16 bytes (wrapping at 2^128).
#[verifier::external_body]
pub(crate) fn aes128_ctr_apply(key: &[u8], iv: &[u8], data: &[u8]) -> (result: Vec<u8>)
    requires
        key@.len() == 16,
        iv@.len() == 16,
    ensures
        result@.len() == data@.len(),
        forall|i: int|
            0 <= i < data@.len() ==> #[trigger] result@[i] == data@[i]
                ^ aes128_encrypt_block(key@, ctr_counter_block(iv@, i / 16))[i % 16],
{
    let mut cipher = Ctr128BE::<Aes128>::new(GenericArray::from_slice(key), GenericArray::from_slice(iv));
    let mut buffer = data.to_vec();
    cipher.apply_keystream(&mut buffer);
    buffer
}

/// Calls `encrypt_vec` of the `block_modes` crate's `Cbc<Aes128, Pkcs7>`.
/// Claims what the crate's source shows: the data is first padded with
/// PKCS#7 (`pkcs7_pad`), then each block is XORed with the previous
/// ciphertext block (the IV for the first) and encrypted. Claims too that
/// AES-128 decryption inverts AES-128 encryption on those blocks: each
/// ciphertext block decrypts to the padded plaintext block XORed with the
/// block before it.
#[verifier::external_body]
pub(crate) fn aes128_cbc_encrypt_padded(key: &[u8], iv: &[u8], data: &[u8]) -> (result: Vec<u8>)
    requires
        key@.len() == 16,
        iv@.len() == 16,
    ensures
        result@ == cbc_encrypt(key@, iv@, pkcs7_pad(data@)),
        result@.len() == pkcs7_pad(data@).len(),
        forall|b: int|
            0 <= b < pkcs7_pad(data@).len() / 16 ==> #[trigger] block_of(result@, b)
                == aes128_encrypt_block(
                key@,
                xor_block(cbc_chain_block(iv@, result@, b), block_of(pkcs7_pad(data@), b)),
            ),
        forall|b: int|
            0 <= b < pkcs7_pad(data@).len() / 16 ==> aes128_decrypt_block(
                key@,
                #[trigger] block_of(result@, b),
            ) == xor_block(cbc_chain_block(iv@, result@, b), block_of(pkcs7_pad(data@), b)),
{
    let cipher = Aes128::new(GenericArray::from_slice(key));
    Cbc::<Aes128, Pkcs7>::new(cipher, GenericArray::from_slice(iv)).encrypt_vec(data)
}

/// Calls `decrypt_vec` of the `block_modes` crate's `Cbc<Aes128, NoPadding>`.
/// Claims what the crate's source shows: it fails exactly when the length
/// of `data` is not a multiple of 16, and otherwise decrypts each block and
/// XORs it with the previous ciphertext block (the IV for the first).
#[verifier::external_body]
pub(crate) fn aes128_cbc_decrypt(key: &[u8], iv: &[u8], data: &[u8]) -> (result: Result<
    Vec<u8>,
    BlockModeError,
>)
    requires
        key@.len() == 16,
        iv@.len() == 16,
    ensures
        result is Ok <==> data@.len() % 16 == 0,
        result matches Ok(v) ==> v@ == cbc_decrypt(key@, iv@, data@),
{
    let cipher = Aes128::new(GenericArray::from_slice(key));
    Cbc::<Aes128, NoPadding>::new(cipher, GenericArray::from_slice(iv)).decrypt_vec(data)
}

} // verus!
