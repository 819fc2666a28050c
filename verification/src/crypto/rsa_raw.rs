//! Arithmetic on big unsigned integers written as big-endian bytes, done by
//! the `BigUint` that the `rsa` crate re-exports.

use vstd::arithmetic::power::pow;
use vstd::prelude::*;

use rsa::BigUint;

use super::aes_modes::be_value;

verus! {

/// `b` is the shortest big-endian form of its value: at least one byte, and
/// no leading zero byte unless the value is zero.
pub open spec fn minimal_be(b: Seq<u8>) -> bool {
    b.len() >= 1 && (b.len() > 1 ==> b[0] != 0)
}

/// Multiplies the numbers whose big-endian bytes are `a` and `b`, with the
/// `*` of `BigUint` (built by `BigUint::from_bytes_be`, read back by
/// `BigUint::to_bytes_be`). Claims that the result is the big-endian form of
/// the product, in as few bytes as `to_bytes_be` gives: one byte for zero,
/// otherwise no leading zero byte.
#[verifier::external_body]
pub(crate) fn bytes_mul(a: &[u8], b: &[u8]) -> (result: Vec<u8>)
    ensures
        be_value(result@) == be_value(a@) * be_value(b@),
        minimal_be(result@),
{
    let x = BigUint::from_bytes_be(a);
    let y = BigUint::from_bytes_be(b);
    (&x * &y).to_bytes_be()
}

/// Calls `BigUint::modpow` on the numbers whose big-endian bytes are given.
/// Claims what its documentation states: the result is `(base ^ exponent)
/// % modulus`, read back in as few bytes as `to_bytes_be` gives. The call
/// panics on a zero modulus; `requires` asks for a modulus above one.
#[verifier::external_body]
pub(crate) fn bytes_modpow(base: &[u8], exponent: &[u8], modulus: &[u8]) -> (result: Vec<u8>)
    requires
        be_value(modulus@) > 1,
    ensures
        be_value(result@) == pow(be_value(base@) as int, be_value(exponent@)) % (be_value(
            modulus@,
        ) as int),
        minimal_be(result@),
{
    let b = BigUint::from_bytes_be(base);
    let e = BigUint::from_bytes_be(exponent);
    let m = BigUint::from_bytes_be(modulus);
    b.modpow(&e, &m).to_bytes_be()
}

} // verus!
