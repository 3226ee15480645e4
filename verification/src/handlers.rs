//! The protocol handlers: commit (dealer side), co-commit (peer side) and
//! reveal.
//!
//! The dealer's commit round is split around the peer fan-out, which is
//! transport work: `begin_commit_to_random` draws and caches the dealer's
//! commitment, the transport layer gathers the peers' co-commitments, and
//! `finish_commit_to_random` checks the threshold and aggregates.

use vstd::prelude::*;

use crate::bytes::{le_val, lemma_pow256_4};
use crate::commitment::{Commitment, Opening};
use crate::config::Config;
use crate::errors::{CacheError, HandlerError, RandomGenerationError};
use crate::group::{is_canonical_point, is_canonical_scalar, pedersen_commit, point_diff,
    point_sum};
use crate::random::generate_random;
use crate::state::{CommittedRandom, CommittedRandomData, CommitmentForRandom,
    CommitmentForRandoms, SessionCache, data_view, fresh_session_id};

verus! {

/// Whether `b` can be deserialized into a commitment.
pub open spec fn valid_commitment_bytes(b: Seq<u8>) -> bool {
    b.len() == 32 && is_canonical_point(b)
}

/// A fresh commitment to a random 32-bit value, lifted to 64 bits so that
/// summing one contribution per node cannot overflow.
fn get_commitment_for_random() -> (r: Result<(Commitment, Opening), HandlerError>)
    ensures
        r is Ok ==> r->Ok_0.0.opened_by(r->Ok_0.1) && r->Ok_0.1@.0 < 0x1_0000_0000
            && is_canonical_scalar(r->Ok_0.1@.1) && valid_commitment_bytes(r->Ok_0.0@),
        r is Err ==> r->Err_0 == HandlerError::RandomnessUnavailable,
{
    let raw = match generate_random(4) {
        Ok(b) => b,
        Err(_) => {
            return Err(HandlerError::RandomnessUnavailable);
        },
    };
    let value = crate::bytes::le_bytes_to_u64(&raw, 0, 4);
    proof {
        lemma_pow256_4();
    }
    match Commitment::new(value) {
        Ok(pair) => Ok(pair),
        Err(_) => Err(HandlerError::RandomnessUnavailable),
    }
}

/// Stores a commitment/opening pair under a session id.  The cache reports
/// no failure; the error type is kept for callers that match on it.
fn store_commitment(
    cache: &mut SessionCache,
    commitment_id: u128,
    committed_random: CommittedRandomData,
) -> (r: Result<(), CacheError>)
    ensures
        r is Ok,
        final(cache).entries().submap_of(
            old(cache).entries().insert(commitment_id, data_view(committed_random)),
        ),
        final(cache).entries().contains_key(commitment_id) ==> final(cache).entries()[commitment_id]
            == data_view(committed_random),
{
    cache.insert(commitment_id, committed_random);
    Ok(())
}

/// Peer side of a session with the randomness already drawn: deserializes
/// the dealer's commitment, adds its own, caches the aggregate beside its
/// own opening and returns the aggregate.  Succeeds exactly when the
/// dealer's bytes are a canonical commitment encoding.
pub fn co_commit_with(
    cache: &mut SessionCache,
    cfg: &Config,
    previous_commitment: &CommitmentForRandom,
    commitment: Commitment,
    opening: Opening,
) -> (r: Result<CommitmentForRandom, HandlerError>)
    requires
        commitment.opened_by(opening),
    ensures
        r is Ok <==> valid_commitment_bytes(previous_commitment.commitment@),
        r is Err ==> r->Err_0 == HandlerError::BadRequest && final(cache).entries() == old(
            cache,
        ).entries(),
        r is Ok ==> ({
            let resp = r->Ok_0;
            let stored = (resp.commitment@, opening@.0, opening@.1);
            &&& resp.node_id == cfg.node_id
            &&& resp.commitment_id == previous_commitment.commitment_id
            &&& resp.commitment@ == point_sum(
                pedersen_commit(opening@.0 as nat, le_val(opening@.1)),
                previous_commitment.commitment@,
            )
            &&& final(cache).entries().submap_of(
                old(cache).entries().insert(previous_commitment.commitment_id, stored),
            )
            &&& (final(cache).entries().contains_key(previous_commitment.commitment_id)
                ==> final(cache).entries()[previous_commitment.commitment_id] == stored)
        }),
{
    let prev = match Commitment::from_slice(previous_commitment.commitment.as_slice()) {
        Some(c) => c,
        None => {
            return Err(HandlerError::BadRequest);
        },
    };
    let co_commitment = commitment.add(prev);
    let response_bytes = co_commitment.to_bytes();
    match store_commitment(
        cache,
        previous_commitment.commitment_id,
        CommittedRandomData { commitment: co_commitment, opening },
    ) {
        Ok(()) => {},
        Err(_) => {
            return Err(HandlerError::BadRequest);
        },
    }
    Ok(
        CommitmentForRandom {
            node_id: cfg.node_id,
            commitment_id: previous_commitment.commitment_id,
            commitment: response_bytes,
        },
    )
}

/// Peer side of a session: draws a fresh commitment to a random value and
/// co-commits to the dealer's commitment with it.
pub fn co_commit_to_random(
    cache: &mut SessionCache,
    cfg: &Config,
    previous_commitment: &CommitmentForRandom,
) -> (r: Result<CommitmentForRandom, HandlerError>)
    ensures
        r is Ok ==> valid_commitment_bytes(previous_commitment.commitment@),
        !valid_commitment_bytes(previous_commitment.commitment@) ==> r is Err,
        r is Err ==> final(cache).entries() == old(cache).entries() && (r->Err_0
            == HandlerError::BadRequest || r->Err_0 == HandlerError::RandomnessUnavailable),
        r is Err && r->Err_0 == HandlerError::BadRequest ==> !valid_commitment_bytes(
            previous_commitment.commitment@,
        ),
        r is Ok ==> ({
            let resp = r->Ok_0;
            let key = previous_commitment.commitment_id;
            &&& resp.node_id == cfg.node_id
            &&& resp.commitment_id == key
            &&& exists|v: u64, s: Seq<u8>|
                #![trigger pedersen_commit(v as nat, le_val(s))]
                {
                    &&& resp.commitment@ == point_sum(
                        pedersen_commit(v as nat, le_val(s)),
                        previous_commitment.commitment@,
                    )
                    &&& v < 0x1_0000_0000
                    &&& is_canonical_scalar(s)
                    &&& final(cache).entries().submap_of(
                        old(cache).entries().insert(key, (resp.commitment@, v, s)),
                    )
                    &&& (final(cache).entries().contains_key(key)
                        ==> final(cache).entries()[key] == (resp.commitment@, v, s))
                }
        }),
{
    let (commitment, opening) = match get_commitment_for_random() {
        Ok(pair) => pair,
        Err(e) => {
            return Err(e);
        },
    };
    let ghost o_view = opening@;
    let result = co_commit_with(cache, cfg, previous_commitment, commitment, opening);
    proof {
        if result is Ok {
            let resp = result->Ok_0;
            assert(resp.commitment@ == point_sum(
                pedersen_commit(o_view.0 as nat, le_val(o_view.1)),
                previous_commitment.commitment@,
            ));
        }
    }
    result
}

/// Reveals the pair cached for a session and evicts it, so that a second
/// reveal of the same session fails.
pub fn reveal_random(cache: &mut SessionCache, commitment: &CommitmentForRandom) -> (r: Result<
    CommittedRandom,
    HandlerError,
>)
    ensures
        final(cache).entries().submap_of(old(cache).entries()),
        !final(cache).entries().contains_key(commitment.commitment_id),
        !old(cache).entries().contains_key(commitment.commitment_id) ==> r is Err,
        r is Err ==> r->Err_0 == HandlerError::NotFound,
        r is Ok ==> ({
            let e = old(cache).entries()[commitment.commitment_id];
            &&& old(cache).entries().contains_key(commitment.commitment_id)
            &&& r->Ok_0.commitment@ == e.0
            &&& r->Ok_0.opening@.len() == 40
            &&& le_val(r->Ok_0.opening@.subrange(0, 8)) == e.1 as nat
            &&& r->Ok_0.opening@.subrange(8, 40) == e.2
        }),
{
    let key = commitment.commitment_id;
    let ghost m0 = cache.entries();
    let value = match cache.get(key) {
        Some(v) => v,
        None => {
            return Err(HandlerError::NotFound);
        },
    };
    let ghost m1 = cache.entries();
    cache.invalidate(key);
    proof {
        assert forall|k: u128| #[trigger] cache.entries().dom().contains(k) implies m0
            .dom()
            .contains(k) && cache.entries()[k] == m0[k] by {
            assert(m1.dom().contains(k));
        }
        assert(cache.entries().submap_of(m0));
    }
    Ok(
        CommittedRandom {
            commitment: value.commitment.to_bytes(),
            opening: value.opening.to_bytes(),
        },
    )
}

/// Dealer side of a session, first half: draws the dealer's commitment,
/// allocates a session id, caches the pair, and returns the request to fan
/// out together with the dealer's commitment.
pub fn begin_commit_to_random(cache: &mut SessionCache, cfg: &Config) -> (r: Result<
    (CommitmentForRandom, Commitment),
    HandlerError,
>)
    ensures
        r is Err ==> final(cache).entries() == old(cache).entries() && r->Err_0
            == HandlerError::RandomnessUnavailable,
        r is Ok ==> ({
            let cfr = r->Ok_0.0;
            let dealer = r->Ok_0.1;
            &&& cfr.node_id == cfg.node_id
            &&& dealer@ == cfr.commitment@
            &&& valid_commitment_bytes(cfr.commitment@)
            &&& exists|v: u64, s: Seq<u8>|
                #![trigger pedersen_commit(v as nat, le_val(s))]
                {
                    &&& cfr.commitment@ == pedersen_commit(v as nat, le_val(s))
                    &&& v < 0x1_0000_0000
                    &&& is_canonical_scalar(s)
                    &&& final(cache).entries().submap_of(
                        old(cache).entries().insert(cfr.commitment_id, (cfr.commitment@, v, s)),
                    )
                    &&& (final(cache).entries().contains_key(cfr.commitment_id)
                        ==> final(cache).entries()[cfr.commitment_id] == (cfr.commitment@, v, s))
                }
        }),
{
    let (commitment, opening) = match get_commitment_for_random() {
        Ok(pair) => pair,
        Err(e) => {
            return Err(e);
        },
    };
    let ghost o_view = opening@;
    let commitment_id = match fresh_session_id() {
        Ok(id) => id,
        Err(_) => {
            return Err(HandlerError::RandomnessUnavailable);
        },
    };
    let stored_commitment = commitment.clone();
    match store_commitment(
        cache,
        commitment_id,
        CommittedRandomData { commitment: stored_commitment, opening },
    ) {
        Ok(()) => {},
        Err(_) => {
            return Err(HandlerError::RandomnessUnavailable);
        },
    }
    let commitment_for_random = CommitmentForRandom {
        node_id: cfg.node_id,
        commitment_id,
        commitment: commitment.to_bytes(),
    };
    proof {
        assert(commitment_for_random.commitment@ == pedersen_commit(
            o_view.0 as nat,
            le_val(o_view.1),
        ));
    }
    Ok((commitment_for_random, commitment))
}

/// The aggregate the dealer computes: starting from its own commitment, add
/// each peer's aggregated co-commitment and subtract the dealer's own once,
/// undoing the dealer overcommitment each peer folded in.
pub open spec fn spec_aggregate(dealer: Seq<u8>, responses: Seq<Seq<u8>>) -> Seq<u8>
    decreases responses.len(),
{
    if responses.len() == 0 {
        dealer
    } else {
        point_diff(
            point_sum(spec_aggregate(dealer, responses.drop_last()), responses.last()),
            dealer,
        )
    }
}

/// The commitment bytes of each response.
pub open spec fn response_views(responses: Seq<CommitmentForRandom>) -> Seq<Seq<u8>> {
    responses.map_values(|c: CommitmentForRandom| c.commitment@)
}

/// Aggregates the peers' co-commitments into one commitment and collects
/// the responding node ids.  Fails when a response does not deserialize.
pub fn aggregate_commitments(
    dealer_commitment: &Commitment,
    co_commitments: &Vec<CommitmentForRandom>,
) -> (r: Result<(Commitment, Vec<u16>), HandlerError>)
    ensures
        r is Ok <==> (forall|j: int|
            0 <= j < co_commitments@.len() ==> valid_commitment_bytes(
                co_commitments@[j].commitment@,
            )),
        r is Err ==> r->Err_0 == HandlerError::Internal,
        r is Ok ==> r->Ok_0.0@ == spec_aggregate(
            dealer_commitment@,
            response_views(co_commitments@),
        ) && r->Ok_0.1@ == co_commitments@.map_values(|c: CommitmentForRandom| c.node_id),
{
    let mut aggregated = dealer_commitment.clone();
    let mut node_ids: Vec<u16> = Vec::new();
    let mut i: usize = 0;
    proof {
        assert(response_views(co_commitments@).subrange(0, 0) =~= Seq::<Seq<u8>>::empty());
    }
    while i < co_commitments.len()
        invariant
            i <= co_commitments@.len(),
            forall|j: int|
                0 <= j < i ==> valid_commitment_bytes(#[trigger] co_commitments@[j].commitment@),
            aggregated@ == spec_aggregate(
                dealer_commitment@,
                response_views(co_commitments@).subrange(0, i as int),
            ),
            node_ids@ =~= co_commitments@.subrange(0, i as int).map_values(
                |c: CommitmentForRandom| c.node_id,
            ),
        decreases co_commitments@.len() - i,
    {
        let peer_commitment = match Commitment::from_slice(
            co_commitments[i].commitment.as_slice(),
        ) {
            Some(c) => c,
            None => {
                return Err(HandlerError::Internal);
            },
        };
        aggregated = aggregated.add(peer_commitment).sub(dealer_commitment.clone());
        node_ids.push(co_commitments[i].node_id);
        i = i + 1;
        proof {
            let views = response_views(co_commitments@);
            assert(views.subrange(0, i as int).drop_last() =~= views.subrange(0, i - 1));
            assert(views.subrange(0, i as int).last() == co_commitments@[i - 1].commitment@);
            assert(node_ids@ =~= co_commitments@.subrange(0, i as int).map_values(
                |c: CommitmentForRandom| c.node_id,
            ));
        }
    }
    proof {
        assert(response_views(co_commitments@).subrange(0, co_commitments@.len() as int)
            =~= response_views(co_commitments@));
        assert(co_commitments@.subrange(0, co_commitments@.len() as int) =~= co_commitments@);
    }
    Ok((aggregated, node_ids))
}

/// Dealer side of a session, second half: checks that enough peers
/// responded, aggregates their co-commitments, and builds the reply.
pub fn finish_commit_to_random(
    cfg: &Config,
    commitment_id: u128,
    dealer_commitment: Commitment,
    co_commitments: Vec<CommitmentForRandom>,
    threshold: u64,
) -> (r: Result<CommitmentForRandoms, HandlerError>)
    ensures
        r is Ok <==> (co_commitments@.len() >= threshold && (forall|j: int|
            0 <= j < co_commitments@.len() ==> valid_commitment_bytes(
                co_commitments@[j].commitment@,
            ))),
        r is Err && co_commitments@.len() < threshold ==> r->Err_0
            == HandlerError::ThresholdNotReached,
        r is Err && co_commitments@.len() >= threshold ==> r->Err_0 == HandlerError::Internal,
        r is Ok ==> ({
            let out = r->Ok_0;
            &&& out.commitment_id == commitment_id
            &&& out.dealer_id == cfg.node_id
            &&& out.commitment@ == spec_aggregate(
                dealer_commitment@,
                response_views(co_commitments@),
            )
            &&& out.node_ids@ == co_commitments@.map_values(
                |c: CommitmentForRandom| c.node_id,
            ).push(cfg.node_id)
        }),
{
    let responses = match crate::peers::collect_with_threshold(co_commitments, threshold) {
        Ok(rs) => rs,
        Err(_) => {
            return Err(HandlerError::ThresholdNotReached);
        },
    };
    let (aggregated, mut node_ids) = match aggregate_commitments(&dealer_commitment, &responses) {
        Ok(pair) => pair,
        Err(e) => {
            return Err(e);
        },
    };
    node_ids.push(cfg.node_id);
    Ok(
        CommitmentForRandoms {
            commitment_id,
            commitment: aggregated.to_bytes(),
            node_ids,
            dealer_id: cfg.node_id,
        },
    )
}

/// Thirty-two fresh random bytes for a client.
pub fn get_committed_random() -> (r: Result<Vec<u8>, RandomGenerationError>)
    ensures
        r is Ok ==> r->Ok_0@.len() == 32,
{
    generate_random(32)
}

} // verus!
