//! The fixed-size wire form of a fixed-point number: the 16 little-endian
//! bytes of the raw value followed by the 4 little-endian bytes of the
//! precision, 20 bytes in all, written and read through borsh.

use vstd::arithmetic::div_mod::{
    lemma_fundamental_div_mod_converse_div, lemma_fundamental_div_mod_converse_mod,
};
use vstd::prelude::*;

use crate::error::CurveError;
use crate::safe_number::SafeNumber;
use crate::SAFE_MATH_SIZE;

verus! {

/// 256 to the `e`: how many values `e` bytes can hold.
pub open spec fn pow256(e: nat) -> nat
    decreases e,
{
    if e == 0 {
        1
    } else {
        256 * pow256((e - 1) as nat)
    }
}

/// The `n`-byte little-endian rendering of `v`.
pub open spec fn le_bytes(v: nat, n: nat) -> Seq<u8>
    decreases n,
{
    if n == 0 {
        Seq::empty()
    } else {
        seq![(v % 256) as u8] + le_bytes(v / 256, (n - 1) as nat)
    }
}

/// The integer a little-endian byte run denotes.
pub open spec fn le_decode(s: Seq<u8>) -> nat
    decreases s.len(),
{
    if s.len() == 0 {
        0
    } else {
        s[0] as nat + 256 * le_decode(s.skip(1))
    }
}

/// The precision field as the unsigned 32-bit pattern its two's-complement
/// bytes denote.
pub open spec fn percision_encoding(p: int) -> nat {
    if p >= 0 {
        p as nat
    } else {
        (p + 0x1_0000_0000) as nat
    }
}

/// The 20-byte wire form of a number.
pub open spec fn spec_serialized(n: SafeNumber) -> Seq<u8> {
    le_bytes(n.value as nat, 16) + le_bytes(percision_encoding(n.percision as int), 4)
}

proof fn lemma_le_bytes_len(v: nat, n: nat)
    ensures
        le_bytes(v, n).len() == n,
    decreases n,
{
    if n > 0 {
        lemma_le_bytes_len(v / 256, (n - 1) as nat);
    }
}

proof fn lemma_le_decode_bound(s: Seq<u8>)
    ensures
        le_decode(s) < pow256(s.len()),
    decreases s.len(),
{
    if s.len() > 0 {
        lemma_le_decode_bound(s.skip(1));
    }
}

/// Decoding inverts encoding for any value the byte run can hold.
proof fn lemma_le_decode_encode(v: nat, n: nat)
    requires
        v < pow256(n),
    ensures
        le_decode(le_bytes(v, n)) == v,
    decreases n,
{
    if n > 0 {
        lemma_le_bytes_len(v / 256, (n - 1) as nat);
        assert(le_bytes(v, n).skip(1) =~= le_bytes(v / 256, (n - 1) as nat));
        let p = pow256((n - 1) as nat) as int;
        assert(v / 256 < p) by {
            vstd::arithmetic::div_mod::lemma_div_is_ordered(v as int, 256 * p - 1, 256);
            lemma_fundamental_div_mod_converse_div(256 * p - 1, 256, p - 1, 255);
        }
        lemma_le_decode_encode(v / 256, (n - 1) as nat);
    }
}

/// Encoding inverts decoding for a byte run of the stated length.
proof fn lemma_le_encode_decode(s: Seq<u8>)
    ensures
        le_bytes(le_decode(s), s.len()) =~= s,
    decreases s.len(),
{
    if s.len() > 0 {
        let v = le_decode(s);
        let rest = le_decode(s.skip(1));
        lemma_fundamental_div_mod_converse_mod(v as int, 256, rest as int, s[0] as int);
        lemma_fundamental_div_mod_converse_div(v as int, 256, rest as int, s[0] as int);
        lemma_le_encode_decode(s.skip(1));
        lemma_le_bytes_len(v / 256, (s.len() - 1) as nat);
    }
}

proof fn lemma_pow256_16_is_u128()
    ensures
        pow256(16) == u128::MAX as nat + 1,
{
    reveal_with_fuel(pow256, 18);
}

proof fn lemma_pow256_4_is_u32()
    ensures
        pow256(4) == 0x1_0000_0000,
{
    reveal_with_fuel(pow256, 6);
}

/// Relies on `borsh::to_vec` with borsh's serializers for pairs and
/// integers: a `(u128, i32)` pair is written as the 16 little-endian bytes
/// of the `u128` followed by the 4 little-endian (two's-complement) bytes of
/// the `i32`; writing into a fresh in-memory vector cannot fail, so the
/// result is taken directly.
#[verifier::external_body]
fn borsh_encode_parts(value: u128, percision: i32) -> (r: Vec<u8>)
    ensures
        r@ == le_bytes(value as nat, 16) + le_bytes(percision_encoding(percision as int), 4),
{
    borsh::to_vec(&(value, percision)).unwrap()
}

#[verifier::external_type_specification]
#[verifier::external_body]
pub struct ExBorshIoError(borsh::io::Error);

/// Relies on `borsh::from_slice` for `(u128, i32)`: it reads 16 then 4
/// little-endian bytes into the pair and fails on any other length (too few
/// bytes, or bytes left over).
#[verifier::external_body]
fn borsh_decode_parts(bytes: &[u8]) -> (r: Result<(u128, i32), borsh::io::Error>)
    ensures
        bytes@.len() == 20 ==> match r {
            Ok(p) => p.0 as nat == le_decode(bytes@.take(16)) && percision_encoding(p.1 as int)
                == le_decode(bytes@.skip(16)),
            Err(_) => false,
        },
        bytes@.len() != 20 ==> r is Err,
{
    borsh::from_slice(bytes)
}

impl SafeNumber {
    /// Serializes the number into its 20-byte wire form.
    pub fn to_bytes(&self) -> (r: Vec<u8>)
        ensures
            r@ == spec_serialized(*self),
            r@.len() == SAFE_MATH_SIZE,
    {
        let r = borsh_encode_parts(self.value, self.percision);
        proof {
            lemma_le_bytes_len(self.value as nat, 16);
            lemma_le_bytes_len(percision_encoding(self.percision as int), 4);
        }
        r
    }

    /// Restores a number from its 20-byte wire form; any other length is
    /// invalid input. The returned number is exactly the one whose wire form
    /// the bytes are.
    pub fn from_bytes(bytes: &[u8]) -> (r: Result<SafeNumber, CurveError>)
        ensures
            match r {
                Ok(n) => bytes@.len() == SAFE_MATH_SIZE && spec_serialized(n) == bytes@,
                Err(e) => bytes@.len() != SAFE_MATH_SIZE && e == CurveError::InvalidInput,
            },
    {
        if bytes.len() != SAFE_MATH_SIZE {
            return Err(CurveError::InvalidInput);
        }
        match borsh_decode_parts(bytes) {
            Ok((value, percision)) => {
                proof {
                    lemma_le_encode_decode(bytes@.take(16));
                    lemma_le_encode_decode(bytes@.skip(16));
                    assert(bytes@.take(16) + bytes@.skip(16) =~= bytes@);
                }
                Ok(SafeNumber { value, percision })
            },
            Err(_) => Err(CurveError::InvalidInput),
        }
    }
}

/// The wire form is lossless: equal byte runs come only from equal numbers.
pub proof fn lemma_serialization_injective(a: SafeNumber, b: SafeNumber)
    requires
        spec_serialized(a) == spec_serialized(b),
    ensures
        a == b,
{
    lemma_le_bytes_len(a.value as nat, 16);
    lemma_le_bytes_len(b.value as nat, 16);
    lemma_le_bytes_len(percision_encoding(a.percision as int), 4);
    lemma_le_bytes_len(percision_encoding(b.percision as int), 4);
    assert(spec_serialized(a).take(16) =~= le_bytes(a.value as nat, 16));
    assert(spec_serialized(b).take(16) =~= le_bytes(b.value as nat, 16));
    assert(spec_serialized(a).skip(16) =~= le_bytes(percision_encoding(a.percision as int), 4));
    assert(spec_serialized(b).skip(16) =~= le_bytes(percision_encoding(b.percision as int), 4));
    lemma_pow256_16_is_u128();
    lemma_pow256_4_is_u32();
    lemma_le_decode_encode(a.value as nat, 16);
    lemma_le_decode_encode(b.value as nat, 16);
    lemma_le_decode_encode(percision_encoding(a.percision as int), 4);
    lemma_le_decode_encode(percision_encoding(b.percision as int), 4);
}

} // verus!
