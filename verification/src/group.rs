//! The Ristretto group operations the commitment algebra is built on.
//!
//! Scalars are carried as their canonical 32-byte little-endian encodings and
//! specified exactly through [`le_val`].  Group points are carried as their
//! canonical compressed encodings; what the curve library computes for them
//! is named by uninterpreted functions and characterised by the contracts of
//! the wrappers below.

use vstd::prelude::*;

use crate::bytes::le_val;

verus! {

/// The order of the Ristretto group: 2^252 + 27742317777372353535851937790883648493.
pub open spec fn group_order() -> nat {
    0x1000000000000000000000000000000014def9dea2f79cd65812631a5cf5d3ednat
}

/// Whether `b` is the canonical encoding of a scalar: 32 little-endian bytes
/// whose value lies below the group order.
pub open spec fn is_canonical_scalar(b: Seq<u8>) -> bool {
    b.len() == 32 && le_val(b) < group_order()
}

/// Whether `b` is the canonical compressed encoding of a Ristretto point,
/// that is, whether `CompressedRistretto::decompress` accepts it.
pub uninterp spec fn is_canonical_point(b: Seq<u8>) -> bool;

/// The canonical compressed encoding of the Pedersen commitment
/// `v * G + s * H`, where `G` and `H` are the fixed generators of
/// `bulletproofs::PedersenGens::default()`.
pub uninterp spec fn pedersen_commit(v: nat, s: nat) -> Seq<u8>;

/// The canonical compressed encoding of the sum of the points encoded by
/// `a` and `b`.
pub uninterp spec fn point_sum(a: Seq<u8>, b: Seq<u8>) -> Seq<u8>;

/// The canonical compressed encoding of the difference of the points encoded
/// by `a` and `b`.
pub uninterp spec fn point_diff(a: Seq<u8>, b: Seq<u8>) -> Seq<u8>;

/// Reduces a 256-bit little-endian integer modulo the group order.
///
/// Relies on `curve25519_dalek_ng::scalar::Scalar::from_bytes_mod_order`,
/// which reduces its input modulo the order, and on `Scalar::to_bytes`,
/// which returns the canonical little-endian encoding.
#[verifier::external_body]
pub(crate) fn scalar_reduce(b: &Vec<u8>) -> (r: Vec<u8>)
    requires
        b@.len() == 32,
    ensures
        is_canonical_scalar(r@),
        le_val(r@) == le_val(b@) % group_order(),
{
    let mut arr = [0u8; 32];
    arr.copy_from_slice(&b[..]);
    let s = curve25519_dalek_ng::scalar::Scalar::from_bytes_mod_order(arr);
    s.to_bytes().to_vec()
}

/// Decides whether `b` encodes a scalar canonically.
///
/// Relies on `curve25519_dalek_ng::scalar::Scalar::from_canonical_bytes`,
/// which returns `Some` exactly when its input is the canonical little-endian
/// encoding of a scalar below the group order.
#[verifier::external_body]
pub(crate) fn scalar_canonical_check(b: &Vec<u8>) -> (r: bool)
    requires
        b@.len() == 32,
    ensures
        r == is_canonical_scalar(b@),
{
    let mut arr = [0u8; 32];
    arr.copy_from_slice(&b[..]);
    curve25519_dalek_ng::scalar::Scalar::from_canonical_bytes(arr).is_some()
}

/// Adds two canonically encoded scalars modulo the group order.
///
/// Relies on `Add for curve25519_dalek_ng::scalar::Scalar`, which reduces its
/// result modulo the order, so the sum's canonical encoding is returned.
#[verifier::external_body]
pub(crate) fn scalar_add_bytes(a: &Vec<u8>, b: &Vec<u8>) -> (r: Vec<u8>)
    requires
        is_canonical_scalar(a@),
        is_canonical_scalar(b@),
    ensures
        is_canonical_scalar(r@),
        le_val(r@) == (le_val(a@) + le_val(b@)) % group_order(),
{
    let mut aa = [0u8; 32];
    aa.copy_from_slice(&a[..]);
    let mut bb = [0u8; 32];
    bb.copy_from_slice(&b[..]);
    let x = curve25519_dalek_ng::scalar::Scalar::from_canonical_bytes(aa).unwrap();
    let y = curve25519_dalek_ng::scalar::Scalar::from_canonical_bytes(bb).unwrap();
    (x + y).to_bytes().to_vec()
}

/// Subtracts two canonically encoded scalars modulo the group order.
///
/// Relies on `Sub for curve25519_dalek_ng::scalar::Scalar`, which reduces its
/// result modulo the order.
#[verifier::external_body]
pub(crate) fn scalar_sub_bytes(a: &Vec<u8>, b: &Vec<u8>) -> (r: Vec<u8>)
    requires
        is_canonical_scalar(a@),
        is_canonical_scalar(b@),
    ensures
        is_canonical_scalar(r@),
        le_val(r@) == ((le_val(a@) + group_order() - le_val(b@)) as nat) % group_order(),
{
    let mut aa = [0u8; 32];
    aa.copy_from_slice(&a[..]);
    let mut bb = [0u8; 32];
    bb.copy_from_slice(&b[..]);
    let x = curve25519_dalek_ng::scalar::Scalar::from_canonical_bytes(aa).unwrap();
    let y = curve25519_dalek_ng::scalar::Scalar::from_canonical_bytes(bb).unwrap();
    (x - y).to_bytes().to_vec()
}

/// Computes the Pedersen commitment `v * G + s * H` and compresses it.
///
/// Relies on `bulletproofs::PedersenGens::commit` over the default
/// generators, on `Scalar::from::<u64>`, and on `RistrettoPoint::compress`,
/// whose output is the canonical encoding of the committed point.
#[verifier::external_body]
pub(crate) fn pedersen_commit_bytes(v: u64, s: &Vec<u8>) -> (r: Vec<u8>)
    requires
        is_canonical_scalar(s@),
    ensures
        r@.len() == 32,
        is_canonical_point(r@),
        r@ == pedersen_commit(v as nat, le_val(s@)),
{
    let mut arr = [0u8; 32];
    arr.copy_from_slice(&s[..]);
    let blinding = curve25519_dalek_ng::scalar::Scalar::from_canonical_bytes(arr).unwrap();
    let gens = bulletproofs::PedersenGens::default();
    let point = gens.commit(curve25519_dalek_ng::scalar::Scalar::from(v), blinding);
    point.compress().to_bytes().to_vec()
}

/// Decides whether `b` is the canonical encoding of a point.
///
/// Relies on `CompressedRistretto::from_slice` and
/// `CompressedRistretto::decompress`, which returns `Some` exactly when the
/// encoding is canonical.
#[verifier::external_body]
pub(crate) fn point_canonical_check(b: &Vec<u8>) -> (r: bool)
    requires
        b@.len() == 32,
    ensures
        r == is_canonical_point(b@),
{
    let c = curve25519_dalek_ng::ristretto::CompressedRistretto::from_slice(&b[..]);
    c.decompress().is_some()
}

/// Adds the points encoded by `a` and `b` and compresses the sum.
///
/// Relies on `Add for curve25519_dalek_ng::ristretto::RistrettoPoint` and on
/// `compress`/`decompress` being canonical and mutually inverse.  The group
/// laws give the next clauses: addition commutes, associates, and is undone
/// by subtracting either summand.  The last clause is the defining
/// homomorphism of Pedersen commitments: the group sum of `v1*G + s1*H` and
/// `v2*G + s2*H` is `(v1+v2)*G + ((s1+s2) mod l)*H`.
#[verifier::external_body]
pub(crate) fn point_add_bytes(a: &Vec<u8>, b: &Vec<u8>) -> (r: Vec<u8>)
    requires
        a@.len() == 32,
        is_canonical_point(a@),
        b@.len() == 32,
        is_canonical_point(b@),
    ensures
        r@.len() == 32,
        is_canonical_point(r@),
        r@ == point_sum(a@, b@),
        r@ == point_sum(b@, a@),
        forall|c: Seq<u8>|
            c.len() == 32 && is_canonical_point(c) ==> #[trigger] point_sum(r@, c) == point_sum(
                a@,
                point_sum(b@, c),
            ),
        point_diff(r@, b@) == a@,
        point_diff(r@, a@) == b@,
        forall|v1: nat, s1: nat, v2: nat, s2: nat|
            #![trigger pedersen_commit(v1, s1), pedersen_commit(v2, s2)]
            a@ == pedersen_commit(v1, s1) && b@ == pedersen_commit(v2, s2) && v1 + v2
                <= u64::MAX && s1 < group_order() && s2 < group_order() ==> r@
                == pedersen_commit(v1 + v2, (s1 + s2) % group_order()),
{
    let pa = curve25519_dalek_ng::ristretto::CompressedRistretto::from_slice(&a[..])
        .decompress()
        .unwrap();
    let pb = curve25519_dalek_ng::ristretto::CompressedRistretto::from_slice(&b[..])
        .decompress()
        .unwrap();
    (pa + pb).compress().to_bytes().to_vec()
}

/// Subtracts the points encoded by `a` and `b` and compresses the difference.
///
/// Relies on `Sub for curve25519_dalek_ng::ristretto::RistrettoPoint` and on
/// `compress`/`decompress` being canonical and mutually inverse.  By the
/// group laws, adding the subtrahend back restores the minuend.  The last
/// clause mirrors the homomorphism: the difference of `v1*G + s1*H` and
/// `v2*G + s2*H` is `(v1-v2)*G + ((s1-s2) mod l)*H`.
#[verifier::external_body]
pub(crate) fn point_sub_bytes(a: &Vec<u8>, b: &Vec<u8>) -> (r: Vec<u8>)
    requires
        a@.len() == 32,
        is_canonical_point(a@),
        b@.len() == 32,
        is_canonical_point(b@),
    ensures
        r@.len() == 32,
        is_canonical_point(r@),
        r@ == point_diff(a@, b@),
        point_sum(r@, b@) == a@,
        forall|v1: nat, s1: nat, v2: nat, s2: nat|
            #![trigger pedersen_commit(v1, s1), pedersen_commit(v2, s2)]
            a@ == pedersen_commit(v1, s1) && b@ == pedersen_commit(v2, s2) && v2 <= v1 && v1
                <= u64::MAX && s1 < group_order() && s2 < group_order() ==> r@
                == pedersen_commit(
                (v1 - v2) as nat,
                ((s1 + group_order() - s2) as nat) % group_order(),
            ),
{
    let pa = curve25519_dalek_ng::ristretto::CompressedRistretto::from_slice(&a[..])
        .decompress()
        .unwrap();
    let pb = curve25519_dalek_ng::ristretto::CompressedRistretto::from_slice(&b[..])
        .decompress()
        .unwrap();
    (pa - pb).compress().to_bytes().to_vec()
}

} // verus!
