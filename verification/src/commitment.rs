//! Pedersen commitments and their openings.
//!
//! A [`Commitment`] is carried as the canonical compressed encoding of the
//! group element `v*G + r*H`; an [`Opening`] is the pair `(v, r)` with the
//! blinding scalar `r` carried as its canonical 32-byte encoding.

use vstd::prelude::*;

use crate::bytes::{append_bytes, bytes_eq, copy_bytes, le_val, sub_bytes, u64_from_le_bytes,
    u64_to_le_bytes};
use crate::errors::RandomGenerationError;
use crate::group::{group_order, is_canonical_point, is_canonical_scalar, pedersen_commit,
    pedersen_commit_bytes, point_add_bytes, point_diff, point_canonical_check, point_sum,
    point_sub_bytes, scalar_add_bytes, scalar_canonical_check, scalar_reduce, scalar_sub_bytes};
use crate::random::generate_random;

verus! {

use vstd::slice::slice_to_vec;

/// Pedersen commitment to an integer value, as a canonical compressed point.
#[derive(Debug)]
pub struct Commitment {
    bytes: Vec<u8>,
}

/// Opening for a Pedersen commitment: the committed value and the canonical
/// encoding of the blinding scalar.
#[derive(Debug)]
pub struct Opening {
    value: u64,
    blinding: Vec<u8>,
}

impl View for Commitment {
    type V = Seq<u8>;

    closed spec fn view(&self) -> Seq<u8> {
        self.bytes@
    }
}

impl View for Opening {
    type V = (u64, Seq<u8>);

    closed spec fn view(&self) -> (u64, Seq<u8>) {
        (self.value, self.blinding@)
    }
}

impl Commitment {
    #[verifier::type_invariant]
    spec fn type_inv(self) -> bool {
        self.bytes@.len() == 32 && is_canonical_point(self.bytes@)
    }

    /// Whether `o` opens this commitment: the commitment is exactly the
    /// Pedersen commitment to `o`'s value under `o`'s blinding.
    pub open spec fn opened_by(self, o: Opening) -> bool {
        self@ == pedersen_commit(o@.0 as nat, le_val(o@.1))
    }

    /// Creates a commitment to `value` with a freshly drawn blinding.
    ///
    /// Fails only when the entropy source does.
    pub fn new(value: u64) -> (r: Result<(Commitment, Opening), RandomGenerationError>)
        ensures
            r is Ok ==> r->Ok_0.0.opened_by(r->Ok_0.1) && r->Ok_0.1@.0 == value
                && is_canonical_scalar(r->Ok_0.1@.1) && r->Ok_0.0@.len() == 32
                && is_canonical_point(r->Ok_0.0@),
    {
        let raw = match generate_random(32) {
            Ok(raw) => raw,
            Err(e) => {
                return Err(e);
            },
        };
        let blinding = scalar_reduce(&raw);
        let opening = Opening { value, blinding };
        let commitment = Self::from_opening(&opening);
        Ok((commitment, opening))
    }

    /// Recomputes the commitment that `opening` opens.
    pub fn from_opening(opening: &Opening) -> (r: Commitment)
        ensures
            r.opened_by(*opening),
            r@ == pedersen_commit(opening@.0 as nat, le_val(opening@.1)),
            r@.len() == 32,
            is_canonical_point(r@),
    {
        proof {
            use_type_invariant(opening);
        }
        let bytes = pedersen_commit_bytes(opening.value, &opening.blinding);
        Commitment { bytes }
    }

    /// Deserializes a commitment; returns `None` unless the input is the
    /// canonical 32-byte encoding of a point.
    pub fn from_slice(slice: &[u8]) -> (r: Option<Commitment>)
        ensures
            r is Some <==> slice@.len() == 32 && is_canonical_point(slice@),
            r is Some ==> r->0@ == slice@,
    {
        let bytes = slice_to_vec(slice);
        if bytes.len() != 32 {
            return None;
        }
        if point_canonical_check(&bytes) {
            Some(Commitment { bytes })
        } else {
            None
        }
    }

    /// Serializes this commitment to its canonical 32 bytes.
    pub fn to_bytes(&self) -> (r: Vec<u8>)
        ensures
            r@ == self@,
            r@.len() == 32,
    {
        proof {
            use_type_invariant(self);
        }
        copy_bytes(&self.bytes)
    }

    /// Decides whether this commitment corresponds to the provided opening.
    pub fn verify(&self, opening: &Opening) -> (r: bool)
        ensures
            r == self.opened_by(*opening),
    {
        let recomputed = Self::from_opening(opening);
        bytes_eq(&self.bytes, &recomputed.bytes)
    }

    /// Adds two commitments.  The addition is commutative and associative,
    /// subtracting either summand restores the other, and on commitments to
    /// `(v1, s1)` and `(v2, s2)` the result commits to
    /// `(v1 + v2, s1 + s2 mod l)`.
    pub fn add(self, rhs: Commitment) -> (r: Commitment)
        ensures
            r@ == point_sum(self@, rhs@),
            r@ == point_sum(rhs@, self@),
            forall|c: Seq<u8>|
                c.len() == 32 && is_canonical_point(c) ==> #[trigger] point_sum(r@, c)
                    == point_sum(self@, point_sum(rhs@, c)),
            point_diff(r@, rhs@) == self@,
            point_diff(r@, self@) == rhs@,
            forall|v1: nat, s1: nat, v2: nat, s2: nat|
                #![trigger pedersen_commit(v1, s1), pedersen_commit(v2, s2)]
                self@ == pedersen_commit(v1, s1) && rhs@ == pedersen_commit(v2, s2) && v1 + v2
                    <= u64::MAX && s1 < group_order() && s2 < group_order() ==> r@
                    == pedersen_commit(v1 + v2, (s1 + s2) % group_order()),
    {
        proof {
            use_type_invariant(&self);
            use_type_invariant(&rhs);
        }
        let bytes = point_add_bytes(&self.bytes, &rhs.bytes);
        Commitment { bytes }
    }

    /// Subtracts two commitments.  Adding the subtrahend back restores the
    /// minuend, and on commitments to `(v1, s1)` and `(v2, s2)` with
    /// `v2 <= v1` the result commits to `(v1 - v2, s1 - s2 mod l)`.
    pub fn sub(self, rhs: Commitment) -> (r: Commitment)
        ensures
            r@ == point_diff(self@, rhs@),
            point_sum(r@, rhs@) == self@,
            forall|v1: nat, s1: nat, v2: nat, s2: nat|
                #![trigger pedersen_commit(v1, s1), pedersen_commit(v2, s2)]
                self@ == pedersen_commit(v1, s1) && rhs@ == pedersen_commit(v2, s2) && v2 <= v1
                    && v1 <= u64::MAX && s1 < group_order() && s2 < group_order() ==> r@
                    == pedersen_commit(
                    (v1 - v2) as nat,
                    ((s1 + group_order() - s2) as nat) % group_order(),
                ),
    {
        proof {
            use_type_invariant(&self);
            use_type_invariant(&rhs);
        }
        let bytes = point_sub_bytes(&self.bytes, &rhs.bytes);
        Commitment { bytes }
    }
}

impl Clone for Commitment {
    fn clone(&self) -> (r: Self)
        ensures
            r@ == self@,
    {
        proof {
            use_type_invariant(self);
        }
        Commitment { bytes: copy_bytes(&self.bytes) }
    }
}

impl PartialEq for Commitment {
    fn eq(&self, other: &Self) -> (r: bool) {
        bytes_eq(&self.bytes, &other.bytes)
    }
}

impl vstd::std_specs::cmp::PartialEqSpecImpl for Commitment {
    open spec fn obeys_eq_spec() -> bool {
        true
    }

    open spec fn eq_spec(&self, other: &Self) -> bool {
        self@ == other@
    }
}

impl Opening {
    #[verifier::type_invariant]
    spec fn type_inv(self) -> bool {
        is_canonical_scalar(self.blinding@)
    }

    /// The committed value.
    pub fn value(&self) -> (r: u64)
        ensures
            r == self@.0,
    {
        self.value
    }

    /// Packs a value and a canonically encoded blinding scalar.
    pub(crate) fn new(value: u64, blinding: Vec<u8>) -> (r: Opening)
        requires
            is_canonical_scalar(blinding@),
        ensures
            r@ == (value, blinding@),
    {
        Opening { value, blinding }
    }

    /// Deserializes an opening; returns `None` unless the input is 40 bytes
    /// whose trailing 32 bytes encode a scalar canonically.
    pub fn from_slice(slice: &[u8]) -> (r: Option<Opening>)
        ensures
            r is Some <==> slice@.len() == 40 && is_canonical_scalar(slice@.subrange(8, 40)),
            r is Some ==> r->0@.0 as nat == le_val(slice@.subrange(0, 8)) && r->0@.1 == slice@
                .subrange(8, 40),
    {
        let bytes = slice_to_vec(slice);
        if bytes.len() != 40 {
            return None;
        }
        let blinding = sub_bytes(&bytes, 8, 40);
        if !scalar_canonical_check(&blinding) {
            return None;
        }
        let value = u64_from_le_bytes(&bytes, 0);
        Some(Opening { value, blinding })
    }

    /// Serializes to 40 bytes: the value in little-endian order, then the
    /// canonical encoding of the blinding scalar.
    pub fn to_bytes(&self) -> (r: Vec<u8>)
        ensures
            r@.len() == 40,
            le_val(r@.subrange(0, 8)) == self@.0 as nat,
            r@.subrange(8, 40) == self@.1,
    {
        proof {
            use_type_invariant(self);
        }
        let mut out = u64_to_le_bytes(self.value);
        let ghost head = out@;
        append_bytes(&mut out, &self.blinding);
        proof {
            assert(out@.subrange(0, 8) =~= head);
            assert(out@.subrange(8, 40) =~= self.blinding@);
        }
        out
    }

    /// Adds two openings; the committed values add as integers, the blinding
    /// scalars add modulo the group order.
    pub fn add(self, rhs: Opening) -> (r: Opening)
        requires
            self@.0 + rhs@.0 <= u64::MAX,
        ensures
            r@.0 == self@.0 + rhs@.0,
            le_val(r@.1) == (le_val(self@.1) + le_val(rhs@.1)) % group_order(),
            is_canonical_scalar(r@.1),
    {
        proof {
            use_type_invariant(&self);
            use_type_invariant(&rhs);
        }
        let blinding = scalar_add_bytes(&self.blinding, &rhs.blinding);
        Opening { value: self.value + rhs.value, blinding }
    }

    /// Subtracts two openings; the committed values subtract as integers, the
    /// blinding scalars subtract modulo the group order.
    pub fn sub(self, rhs: Opening) -> (r: Opening)
        requires
            rhs@.0 <= self@.0,
        ensures
            r@.0 == self@.0 - rhs@.0,
            le_val(r@.1) == ((le_val(self@.1) + group_order() - le_val(rhs@.1)) as nat)
                % group_order(),
            is_canonical_scalar(r@.1),
    {
        proof {
            use_type_invariant(&self);
            use_type_invariant(&rhs);
        }
        let blinding = scalar_sub_bytes(&self.blinding, &rhs.blinding);
        Opening { value: self.value - rhs.value, blinding }
    }
}

impl Clone for Opening {
    fn clone(&self) -> (r: Self)
        ensures
            r@ == self@,
    {
        proof {
            use_type_invariant(self);
        }
        Opening { value: self.value, blinding: copy_bytes(&self.blinding) }
    }
}

impl PartialEq for Opening {
    fn eq(&self, other: &Self) -> (r: bool) {
        self.value == other.value && bytes_eq(&self.blinding, &other.blinding)
    }
}

impl vstd::std_specs::cmp::PartialEqSpecImpl for Opening {
    open spec fn obeys_eq_spec() -> bool {
        true
    }

    open spec fn eq_spec(&self, other: &Self) -> bool {
        self@ == other@
    }
}

/// A commitment survives serialization: deserializing its bytes yields an
/// equal commitment.
pub fn commitment_roundtrip_law(c: &Commitment) -> (r: bool)
    ensures
        r == true,
{
    proof {
        use_type_invariant(c);
    }
    let bytes = c.to_bytes();
    match Commitment::from_slice(bytes.as_slice()) {
        Some(recovered) => recovered == *c,
        None => false,
    }
}

/// An opening survives serialization: deserializing its bytes yields an
/// equal opening.
pub fn opening_roundtrip_law(o: &Opening) -> (r: bool)
    ensures
        r == true,
{
    proof {
        use_type_invariant(o);
    }
    let bytes = o.to_bytes();
    match Opening::from_slice(bytes.as_slice()) {
        Some(recovered) => recovered == *o,
        None => false,
    }
}

} // verus!
