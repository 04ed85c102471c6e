//! The Ristretto group and its scalar field, as seen by the protocol.
//!
//! Scalars and group elements are held as their canonical 32-byte encodings.
//! The arithmetic itself is done by `curve25519_dalek`; the protocol only
//! moves encodings around and compares them.
use vstd::prelude::*;
use vstd::arithmetic::power::pow;
use curve25519_dalek::constants::RISTRETTO_BASEPOINT_POINT;
use curve25519_dalek::ristretto::{CompressedRistretto, RistrettoPoint};
use curve25519_dalek::scalar::Scalar;
use curve25519_dalek::traits::MultiscalarMul;
use rand::rngs::OsRng;

verus! {

#[verifier::external_type_specification]
#[verifier::external_body]
pub struct ExOsRng(OsRng);

/// The little-endian encoding of the scalar `x`: eight bytes of `x`, then zeros.
pub open spec fn u64_scalar_encoding(x: u64) -> Seq<u8> {
    Seq::new(32, |i: int| if i < 8 { ((x as int / pow(256, i as nat)) % 256) as u8 } else { 0u8 })
}

/// The encoding of `a·G`, for the scalar encoded by `a` (reduced modulo the group order)
/// and the Ristretto base point `G`.
pub uninterp spec fn basepoint_mul_of(a: Seq<u8>) -> Seq<u8>;

/// The encoding of `r·G + m·H`, where `H` is the point encoded by `h`, or `None` when
/// `h` encodes no point.
pub uninterp spec fn lincomb_of(r: Seq<u8>, m: Seq<u8>, h: Seq<u8>) -> Option<Seq<u8>>;

/// Every combination `r·G + m·H` exists for a point `H` that the group produced.
pub open spec fn is_point(h: Seq<u8>) -> bool {
    forall|r: Seq<u8>, m: Seq<u8>|
        r.len() == 32 && m.len() == 32 ==> (#[trigger] lincomb_of(r, m, h)) is Some
}

/// The byte sequence of an optional encoding.
pub open spec fn encodings(c: Option<[u8; 32]>) -> Option<Seq<u8>> {
    match c {
        Some(b) => Some(b@),
        None => None,
    }
}

/// Relies on `Scalar::from(u64)` and `Scalar::to_bytes`: the integer's little-endian
/// bytes, zero-padded to 32.
#[verifier::external_body]
pub(crate) fn scalar_from_u64(x: u64) -> (r: [u8; 32])
    ensures
        r@ == u64_scalar_encoding(x),
{
    Scalar::from(x).to_bytes()
}

/// Relies on `Scalar::random` over the operating system's generator; the scalar
/// drawn is arbitrary as far as the protocol is concerned.
#[verifier::external_body]
pub(crate) fn random_scalar(rng: &mut OsRng) -> (r: [u8; 32]) {
    Scalar::random(rng).to_bytes()
}

/// Relies on `Scalar::from_bytes_mod_order`, `Scalar * RistrettoPoint` and
/// `RistrettoPoint::compress`: the encoding of `a·G`. A compressed point always
/// decompresses, so every combination with it exists.
#[verifier::external_body]
pub(crate) fn basepoint_mul(a: &[u8; 32]) -> (r: [u8; 32])
    ensures
        r@ == basepoint_mul_of(a@),
        is_point(r@),
{
    (Scalar::from_bytes_mod_order(*a) * RISTRETTO_BASEPOINT_POINT).compress().to_bytes()
}

/// Relies on `CompressedRistretto::decompress`, `RistrettoPoint::multiscalar_mul` and
/// `RistrettoPoint::compress`: the encoding of `r·G + m·H`, or `None` when `h` is not
/// the encoding of a point.
#[verifier::external_body]
pub(crate) fn lincomb(r: &[u8; 32], m: &[u8; 32], h: &[u8; 32]) -> (c: Option<[u8; 32]>)
    ensures
        encodings(c) == lincomb_of(r@, m@, h@),
{
    let point = CompressedRistretto(*h).decompress()?;
    let scalars = [Scalar::from_bytes_mod_order(*r), Scalar::from_bytes_mod_order(*m)];
    let points = [RISTRETTO_BASEPOINT_POINT, point];
    Some(RistrettoPoint::multiscalar_mul(&scalars, &points).compress().to_bytes())
}

/// Compares two encodings byte by byte, reading all of both.
pub fn bytes_equal(a: &[u8; 32], b: &[u8; 32]) -> (r: bool)
    ensures
        r == (a@ == b@),
{
    let mut same: bool = true;
    let mut i: usize = 0;
    while i < 32
        invariant
            i <= 32,
            a@.len() == 32,
            b@.len() == 32,
            same == (forall|j: int| 0 <= j < i ==> a@[j] == b@[j]),
        decreases 32 - i,
    {
        let byte_same: bool = a[i] == b[i];
        same = same && byte_same;
        i = i + 1;
    }
    if !same {
        assert(a@ != b@) by {
            let j = choose|j: int| 0 <= j < 32 && a@[j] != b@[j];
            assert(a@[j] != b@[j]);
        }
    } else {
        assert(a@ =~= b@);
    }
    same
}

} // verus!
