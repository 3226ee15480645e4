//! The algebraic and protocol laws of the library, each proved by Verus.
//!
//! Every function here returns a boolean that its contract pins to `true`
//! (except for a failing entropy source, in which case the law was not
//! exercised): the checks they run can never fail.

use vstd::prelude::*;

use crate::bytes::le_val;
use crate::commitment::{Commitment, Opening};
use crate::errors::{HandlerError, RandomGenerationError};
use crate::group::{group_order, is_canonical_scalar, pedersen_commit, point_diff, point_sum};
use crate::handlers::{reveal_random, spec_aggregate};
use crate::state::{CommitmentForRandom, SessionCache};

verus! {

use vstd::arithmetic::div_mod::{lemma_add_mod_noop, lemma_add_mod_noop_right,
    lemma_mod_add_multiples_vanish, lemma_mod_bound, lemma_small_mod};

/// Adding a reduced summand is the same as adding the summand:
/// `((x mod l) + y) mod l == (x + y) mod l`.
proof fn lemma_mod_l_add_left(x: nat, y: nat)
    ensures
        ((x % group_order()) + y) % group_order() == (x + y) % group_order(),
{
    let l = group_order() as int;
    lemma_add_mod_noop_right(x as int % l, y as int, l);
    lemma_add_mod_noop(x as int, y as int, l);
    lemma_add_mod_noop_right(x as int, y as int, l);
}

/// Adding one multiple of the order changes nothing:
/// `(x + l) mod l == x mod l`.
proof fn lemma_mod_l_cycle(x: nat)
    ensures
        (x + group_order()) % group_order() == x % group_order(),
{
    let l = group_order() as int;
    lemma_mod_add_multiples_vanish(x as int, l);
}

/// The sum of two commitments verifies against the sum of their openings.
pub fn additive_verification_law(v1: u64, v2: u64) -> (r: Result<bool, RandomGenerationError>)
    requires
        v1 + v2 <= u64::MAX,
    ensures
        r is Ok ==> r->Ok_0 == true,
{
    let (c1, o1) = match Commitment::new(v1) {
        Ok(p) => p,
        Err(e) => {
            return Err(e);
        },
    };
    let (c2, o2) = match Commitment::new(v2) {
        Ok(p) => p,
        Err(e) => {
            return Err(e);
        },
    };
    let sum_commitment = c1.add(c2);
    let sum_opening = o1.add(o2);
    Ok(sum_commitment.verify(&sum_opening))
}

/// The difference of two commitments verifies against the difference of
/// their openings, provided the first committed value is the larger.
pub fn subtractive_verification_law(v1: u64, v2: u64) -> (r: Result<bool, RandomGenerationError>)
    requires
        v2 <= v1,
    ensures
        r is Ok ==> r->Ok_0 == true,
{
    let (c1, o1) = match Commitment::new(v1) {
        Ok(p) => p,
        Err(e) => {
            return Err(e);
        },
    };
    let (c2, o2) = match Commitment::new(v2) {
        Ok(p) => p,
        Err(e) => {
            return Err(e);
        },
    };
    let diff_commitment = c1.sub(c2);
    let diff_opening = o1.sub(o2);
    Ok(diff_commitment.verify(&diff_opening))
}

/// Committing to a sum of three openings equals summing the three
/// commitments: the n-ary homomorphism on a triple.
pub fn triple_homomorphism_law(v1: u64, v2: u64, v3: u64) -> (r: Result<
    bool,
    RandomGenerationError,
>)
    requires
        v1 + v2 + v3 <= u64::MAX,
    ensures
        r is Ok ==> r->Ok_0 == true,
{
    let (c1, o1) = match Commitment::new(v1) {
        Ok(p) => p,
        Err(e) => {
            return Err(e);
        },
    };
    let (c2, o2) = match Commitment::new(v2) {
        Ok(p) => p,
        Err(e) => {
            return Err(e);
        },
    };
    let (c3, o3) = match Commitment::new(v3) {
        Ok(p) => p,
        Err(e) => {
            return Err(e);
        },
    };
    let summed = c1.add(c2).add(c3);
    let opening = o1.add(o2).add(o3);
    let recommitted = Commitment::from_opening(&opening);
    Ok(summed == recommitted && summed.verify(&opening))
}

/// Aggregation is not unique: `(C1+C2) + (C1+C3)` is a commitment to
/// `o1+o1+o2+o3`, with the first contribution counted twice.
pub fn overlapping_sum_law(v1: u64, v2: u64, v3: u64) -> (r: Result<bool, RandomGenerationError>)
    requires
        v1 + v1 + v2 + v3 <= u64::MAX,
    ensures
        r is Ok ==> r->Ok_0 == true,
{
    let (c1, o1) = match Commitment::new(v1) {
        Ok(p) => p,
        Err(e) => {
            return Err(e);
        },
    };
    let (c2, o2) = match Commitment::new(v2) {
        Ok(p) => p,
        Err(e) => {
            return Err(e);
        },
    };
    let (c3, o3) = match Commitment::new(v3) {
        Ok(p) => p,
        Err(e) => {
            return Err(e);
        },
    };
    let ghost s1 = crate::bytes::le_val(o1@.1);
    let ghost s2 = crate::bytes::le_val(o2@.1);
    let ghost s3 = crate::bytes::le_val(o3@.1);
    let c12 = c1.clone().add(c2);
    let c13 = c1.clone().add(c3);
    let combined = c12.add(c13);
    let opening = o1.clone().add(o1).add(o2).add(o3);
    proof {
        let l = group_order();
        lemma_add_mod_noop((s1 + s2) as int, (s1 + s3) as int, l as int);
        lemma_mod_l_add_left((s1 + s1) as nat, s2);
        lemma_mod_l_add_left((s1 + s1 + s2) as nat, s3);
    }
    let recommitted = Commitment::from_opening(&opening);
    Ok(combined == recommitted)
}

/// The dealer's aggregation undoes its overcommitment: with two peers that
/// each answer `C_d + C_i`, the dealer's fold yields `C_d + C_1 + C_2`,
/// which verifies against the sum of all three openings.
#[verifier::rlimit(60)]
pub fn aggregation_law(vd: u64, v1: u64, v2: u64) -> (r: Result<bool, RandomGenerationError>)
    requires
        vd + vd + v1 + v2 <= u64::MAX,
    ensures
        r is Ok ==> r->Ok_0 == true,
{
    let (cd, od) = match Commitment::new(vd) {
        Ok(p) => p,
        Err(e) => {
            return Err(e);
        },
    };
    let (c1, o1) = match Commitment::new(v1) {
        Ok(p) => p,
        Err(e) => {
            return Err(e);
        },
    };
    let (c2, o2) = match Commitment::new(v2) {
        Ok(p) => p,
        Err(e) => {
            return Err(e);
        },
    };
    let ghost sd = crate::bytes::le_val(od@.1);
    let ghost s1 = crate::bytes::le_val(o1@.1);
    let ghost s2 = crate::bytes::le_val(o2@.1);
    // What each peer would answer: its own commitment plus the dealer's.
    let response1 = c1.add(cd.clone());
    let response2 = c2.add(cd.clone());
    // The dealer's fold over the responses.
    let after1 = cd.clone().add(response1).sub(cd.clone());
    proof {
        let l = group_order();
        lemma_mod_bound((s1 + sd) as int, l as int);
        lemma_mod_l_add_left((s1 + sd) as nat, sd);
        lemma_mod_bound((s1 + sd + sd) as int, l as int);
        lemma_mod_l_add_left((s1 + sd + sd) as nat, (l - sd) as nat);
        lemma_mod_l_cycle((s1 + sd) as nat);
    }
    let after2 = after1.add(response2).sub(cd.clone());
    proof {
        let l = group_order();
        lemma_mod_bound((s1 + sd) as int, l as int);
        lemma_mod_bound((s2 + sd) as int, l as int);
        lemma_add_mod_noop((s1 + sd) as int, (s2 + sd) as int, l as int);
        lemma_mod_bound((s1 + sd + s2 + sd) as int, l as int);
        lemma_mod_l_add_left((s1 + sd + s2 + sd) as nat, (l - sd) as nat);
        lemma_mod_l_cycle((s1 + sd + s2) as nat);
    }
    let opening = od.add(o1).add(o2);
    proof {
        lemma_mod_l_add_left((sd + s1) as nat, s2);
    }
    Ok(after2.verify(&opening))
}

/// The sum of a sequence of values.
pub open spec fn seq_sum(s: Seq<u64>) -> nat
    decreases s.len(),
{
    if s.len() == 0 {
        0
    } else {
        (seq_sum(s.drop_last()) + s.last()) as nat
    }
}

/// A prefix sums to no more than the whole sequence.
proof fn lemma_seq_sum_prefix(s: Seq<u64>, i: int)
    requires
        0 <= i <= s.len(),
    ensures
        seq_sum(s.subrange(0, i)) <= seq_sum(s),
    decreases s.len() - i,
{
    if i < s.len() {
        assert(s.subrange(0, i + 1).drop_last() =~= s.subrange(0, i));
        assert(s.subrange(0, i + 1).last() == s[i]);
        lemma_seq_sum_prefix(s, i + 1);
    } else {
        assert(s.subrange(0, i) =~= s);
    }
}

/// The dealer's aggregation undoes its overcommitment for any number of
/// peers: when peer `i` answers `C_d + C_i`, the dealer's fold over the
/// responses — the recursion of [`spec_aggregate`], which adds each response
/// and subtracts `C_d` once per response — equals the plain sum
/// `C_d + C_1 + ... + C_n`, and that sum verifies against the summed opening
/// `o_d + o_1 + ... + o_n`.
#[verifier::rlimit(100)]
pub fn n_ary_aggregation_law(vd: u64, values: &Vec<u64>) -> (r: Result<bool, RandomGenerationError>)
    requires
        vd + vd + seq_sum(values@) <= u64::MAX,
    ensures
        r is Ok ==> r->Ok_0 == true,
{
    let (cd, od) = match Commitment::new(vd) {
        Ok(p) => p,
        Err(e) => {
            return Err(e);
        },
    };
    let ghost sd = le_val(od@.1);
    let ghost l = group_order();
    // The dealer's fold over the responses, the plain sum of the
    // commitments, and the summed opening.
    let mut agg = cd.clone();
    let mut expected = cd.clone();
    let mut opening = od.clone();
    let ghost mut sb: nat = sd;
    let ghost mut resp_views: Seq<Seq<u8>> = Seq::empty();
    proof {
        lemma_small_mod(sd, l);
        assert(values@.subrange(0, 0) =~= Seq::<u64>::empty());
    }
    let mut i: usize = 0;
    while i < values.len()
        invariant
            i <= values@.len(),
            vd + vd + seq_sum(values@) <= u64::MAX,
            l == group_order(),
            cd@ == pedersen_commit(vd as nat, sd),
            sd < l,
            opening@.0 == vd + seq_sum(values@.subrange(0, i as int)),
            is_canonical_scalar(opening@.1),
            le_val(opening@.1) == sb % l,
            agg@ == pedersen_commit(
                (vd + seq_sum(values@.subrange(0, i as int))) as nat,
                sb % l,
            ),
            expected@ == agg@,
            agg@ == spec_aggregate(cd@, resp_views),
        decreases values@.len() - i,
    {
        let ghost sv = seq_sum(values@.subrange(0, i as int));
        let (ci, oi) = match Commitment::new(values[i]) {
            Ok(p) => p,
            Err(e) => {
                return Err(e);
            },
        };
        let ghost si = le_val(oi@.1);
        proof {
            lemma_seq_sum_prefix(values@, i + 1);
            assert(values@.subrange(0, i + 1).drop_last() =~= values@.subrange(0, i as int));
            assert(values@.subrange(0, i + 1).last() == values@[i as int]);
            assert(ci@ == pedersen_commit(values@[i as int] as nat, si));
        }
        let response = ci.clone().add(cd.clone());
        proof {
            assert(response@ == pedersen_commit(
                (values@[i as int] + vd) as nat,
                (si + sd) % l,
            ));
            lemma_mod_bound(sb as int, l as int);
            lemma_mod_bound((si + sd) as int, l as int);
        }
        let ghost agg_prev = agg@;
        let agg1 = agg.add(response);
        proof {
            lemma_add_mod_noop(sb as int, (si + sd) as int, l as int);
            assert(agg1@ == pedersen_commit(
                (vd + sv + values@[i as int] + vd) as nat,
                (sb + si + sd) % l,
            ));
            lemma_mod_bound((sb + si + sd) as int, l as int);
        }
        agg = agg1.sub(cd.clone());
        proof {
            lemma_mod_l_add_left((sb + si + sd) as nat, (l - sd) as nat);
            lemma_mod_l_cycle((sb + si) as nat);
            assert(agg@ == pedersen_commit(
                (vd + sv + values@[i as int]) as nat,
                (sb + si) % l,
            ));
        }
        expected = expected.add(ci);
        proof {
            lemma_mod_l_add_left(sb, si);
            assert(expected@ == pedersen_commit(
                (vd + sv + values@[i as int]) as nat,
                (sb + si) % l,
            ));
        }
        opening = opening.add(oi);
        proof {
            let old_views = resp_views;
            resp_views = resp_views.push(response@);
            assert(resp_views.drop_last() =~= old_views);
            assert(resp_views.last() == response@);
            assert(spec_aggregate(cd@, resp_views) == point_diff(
                point_sum(spec_aggregate(cd@, old_views), response@),
                cd@,
            ));
            assert(agg@ == point_diff(point_sum(agg_prev, response@), cd@));
            sb = sb + si;
        }
        i = i + 1;
    }
    proof {
        assert(values@.subrange(0, values@.len() as int) =~= values@);
    }
    Ok(agg == expected && agg.verify(&opening))
}

/// Revealing is one-shot: once a reveal has succeeded for a session, a
/// second reveal of the same session reports `NOT_FOUND`.
pub fn reveal_one_shot_law(cache: &mut SessionCache, session_id: u128) -> (r: bool)
    ensures
        r == true,
{
    let request = CommitmentForRandom {
        node_id: 0,
        commitment_id: session_id,
        commitment: Vec::new(),
    };
    let first = reveal_random(cache, &request);
    if first.is_ok() {
        let second = reveal_random(cache, &request);
        match second {
            Err(HandlerError::NotFound) => true,
            _ => false,
        }
    } else {
        true
    }
}

} // verus!

