use random_pedersen::commitment::{Commitment, Opening};
use random_pedersen::config::{threshold_count, Config};
use random_pedersen::errors::HandlerError;
use random_pedersen::handlers::{begin_commit_to_random, co_commit_to_random,
    finish_commit_to_random, get_committed_random, reveal_random};
use random_pedersen::laws::{additive_verification_law, aggregation_law, n_ary_aggregation_law,
    overlapping_sum_law, reveal_one_shot_law, subtractive_verification_law,
    triple_homomorphism_law};
use random_pedersen::state::{create_state, CommitmentForRandom};

fn config_with_node_id(node_id: u16) -> Config {
    Config {
        node_id,
        num_nodes: 5,
        ..Config::default()
    }
}

#[test]
fn test_co_commit_to_random() {
    let random1 = 123124;
    let (commitment1, opening1) = Commitment::new(random1).unwrap();

    let node_1_commitment = CommitmentForRandom {
        node_id: 1,
        commitment_id: 123u128,
        commitment: commitment1.to_bytes(),
    };

    let state = create_state();
    let mut cache = state.cache;
    let cfg = config_with_node_id(5);

    let co_commitment_response =
        co_commit_to_random(&mut cache, &cfg, &node_1_commitment).unwrap();
    let co_commitment_from_response =
        Commitment::from_slice(&co_commitment_response.commitment).unwrap();
    assert_eq!(co_commitment_response.node_id, 5);

    let value = cache.get(node_1_commitment.commitment_id).unwrap();

    // validate cache
    assert_eq!(co_commitment_from_response, value.commitment);

    // validate co-commitment
    let commitment2_from_opening = Commitment::from_opening(&value.opening);
    let aggregated_commitment = commitment2_from_opening.add(commitment1.clone());
    assert_eq!(aggregated_commitment, co_commitment_from_response);

    // validate aggregated random
    let aggregated_opening = value.opening.add(opening1);
    let commitment_from_aggregated_opening = Commitment::from_opening(&aggregated_opening);
    assert_eq!(
        co_commitment_from_response,
        commitment_from_aggregated_opening
    );
}

#[test]
fn test_reveal_random() {
    let random1 = 123124;
    let (commitment1, _opening1) = Commitment::new(random1).unwrap();

    let node_1_commitment = CommitmentForRandom {
        node_id: 1,
        commitment_id: 123u128,
        commitment: commitment1.to_bytes(),
    };

    let state = create_state();
    let mut cache = state.cache;
    let cfg = config_with_node_id(5);

    let co_commitment_response =
        co_commit_to_random(&mut cache, &cfg, &node_1_commitment).unwrap();
    let key = co_commitment_response.commitment_id;
    assert_eq!(cache.contains_key(key), true); // should exist

    let random2_response = reveal_random(&mut cache, &co_commitment_response).unwrap();
    assert_eq!(cache.contains_key(key), false); // shouldn't exist

    // validate cache and response
    let co_commitment_from_response =
        Commitment::from_slice(&co_commitment_response.commitment).unwrap();
    let co_commitment_from_cache = Commitment::from_slice(&random2_response.commitment).unwrap();
    assert_eq!(co_commitment_from_response, co_commitment_from_cache);

    // validate openings
    let opening2_from_response = Opening::from_slice(&random2_response.opening).unwrap();
    let commitment2_from_opening = Commitment::from_opening(&opening2_from_response);
    let aggregated_commitment = commitment2_from_opening.add(commitment1);
    assert_eq!(aggregated_commitment, co_commitment_from_response);
}

#[test]
fn reveal_is_one_shot() {
    let (commitment1, _) = Commitment::new(9).unwrap();
    let request = CommitmentForRandom {
        node_id: 1,
        commitment_id: 77u128,
        commitment: commitment1.to_bytes(),
    };
    let mut cache = create_state().cache;
    let cfg = config_with_node_id(2);
    co_commit_to_random(&mut cache, &cfg, &request).unwrap();

    let first = reveal_random(&mut cache, &request);
    assert!(first.is_ok());
    let second = reveal_random(&mut cache, &request);
    assert!(matches!(second, Err(HandlerError::NotFound)));
}

#[test]
fn reveal_unknown_session_is_not_found() {
    let mut cache = create_state().cache;
    let request = CommitmentForRandom {
        node_id: 1,
        commitment_id: 4242u128,
        commitment: Vec::new(),
    };
    let result = reveal_random(&mut cache, &request);
    assert!(matches!(result, Err(HandlerError::NotFound)));
}

#[test]
fn co_commit_rejects_malformed_commitment() {
    let mut cache = create_state().cache;
    let cfg = config_with_node_id(2);
    let request = CommitmentForRandom {
        node_id: 1,
        commitment_id: 1u128,
        commitment: vec![1, 2, 3],
    };
    let result = co_commit_to_random(&mut cache, &cfg, &request);
    assert!(matches!(result, Err(HandlerError::BadRequest)));
}

#[test]
fn commit_flow_aggregates_across_nodes() {
    // A dealer and two peers, all in one process: the dealer commits, both
    // peers co-commit, the dealer aggregates, and the revealed openings
    // verify against the aggregate.
    let dealer_cfg = Config {
        node_id: 1,
        num_nodes: 3,
        ..Config::default()
    };
    let mut dealer_cache = create_state().cache;
    let (request, dealer_commitment) =
        begin_commit_to_random(&mut dealer_cache, &dealer_cfg).unwrap();
    assert_eq!(request.node_id, 1);

    let mut peer2_cache = create_state().cache;
    let peer2_cfg = Config {
        node_id: 2,
        num_nodes: 3,
        ..Config::default()
    };
    let response2 = co_commit_to_random(&mut peer2_cache, &peer2_cfg, &request).unwrap();

    let mut peer3_cache = create_state().cache;
    let peer3_cfg = Config {
        node_id: 3,
        num_nodes: 3,
        ..Config::default()
    };
    let response3 = co_commit_to_random(&mut peer3_cache, &peer3_cfg, &request).unwrap();

    let threshold = threshold_count(66, 3);
    let reply = finish_commit_to_random(
        &dealer_cfg,
        request.commitment_id,
        dealer_commitment,
        vec![response2.clone(), response3.clone()],
        threshold,
    )
    .unwrap();
    assert_eq!(reply.dealer_id, 1);
    assert_eq!(reply.commitment_id, request.commitment_id);
    assert_eq!(reply.node_ids, vec![2, 3, 1]);

    // Client side: reveal every participant and verify the joint opening.
    let dealer_reveal = reveal_random(&mut dealer_cache, &request).unwrap();
    let dealer_opening = Opening::from_slice(&dealer_reveal.opening).unwrap();
    let peer2_reveal = reveal_random(&mut peer2_cache, &response2).unwrap();
    let peer2_opening = Opening::from_slice(&peer2_reveal.opening).unwrap();
    let peer3_reveal = reveal_random(&mut peer3_cache, &response3).unwrap();
    let peer3_opening = Opening::from_slice(&peer3_reveal.opening).unwrap();

    let joint_opening = dealer_opening.add(peer2_opening).add(peer3_opening);
    let aggregate = Commitment::from_slice(&reply.commitment).unwrap();
    assert!(aggregate.verify(&joint_opening));
}

#[test]
fn commit_fails_below_threshold() {
    // NUM_NODES = 5 and threshold 0.66 ask for floor(0.66 * 5) == 3 peers;
    // with only two responding the commit round fails and no session is
    // returned.
    let dealer_cfg = config_with_node_id(1);
    let mut dealer_cache = create_state().cache;
    let (request, dealer_commitment) =
        begin_commit_to_random(&mut dealer_cache, &dealer_cfg).unwrap();

    let mut responses = Vec::new();
    for peer in 2..=3u16 {
        let mut peer_cache = create_state().cache;
        let peer_cfg = config_with_node_id(peer);
        responses.push(co_commit_to_random(&mut peer_cache, &peer_cfg, &request).unwrap());
    }

    let threshold = threshold_count(66, 5);
    assert_eq!(threshold, 3);
    let result = finish_commit_to_random(
        &dealer_cfg,
        request.commitment_id,
        dealer_commitment,
        responses,
        threshold,
    );
    assert!(matches!(result, Err(HandlerError::ThresholdNotReached)));
}

#[test]
fn aggregation_fails_on_malformed_response() {
    let dealer_cfg = config_with_node_id(1);
    let mut dealer_cache = create_state().cache;
    let (request, dealer_commitment) =
        begin_commit_to_random(&mut dealer_cache, &dealer_cfg).unwrap();

    let garbage = CommitmentForRandom {
        node_id: 2,
        commitment_id: request.commitment_id,
        commitment: vec![0xff; 32],
    };
    let result = finish_commit_to_random(
        &dealer_cfg,
        request.commitment_id,
        dealer_commitment,
        vec![garbage],
        1,
    );
    assert!(matches!(result, Err(HandlerError::Internal)));
}

#[test]
fn get_committed_random_returns_32_bytes() {
    assert_eq!(get_committed_random().unwrap().len(), 32);
}

#[test]
fn algebraic_laws_hold_on_concrete_values() {
    assert_eq!(additive_verification_law(100, 200).unwrap(), true);
    assert_eq!(subtractive_verification_law(1234, 234).unwrap(), true);
    assert_eq!(triple_homomorphism_law(1000, 500, 250).unwrap(), true);
    assert_eq!(overlapping_sum_law(1000, 500, 250).unwrap(), true);
    assert_eq!(aggregation_law(5, 6, 7).unwrap(), true);
}

#[test]
fn n_ary_aggregation_law_holds_on_concrete_values() {
    assert_eq!(n_ary_aggregation_law(5, &vec![]).unwrap(), true);
    assert_eq!(n_ary_aggregation_law(5, &vec![6]).unwrap(), true);
    assert_eq!(n_ary_aggregation_law(5, &vec![6, 7, 8, 9]).unwrap(), true);
    assert_eq!(n_ary_aggregation_law(0, &vec![0, u64::MAX]).unwrap(), true);
}

#[test]
fn reveal_one_shot_law_holds_after_co_commit() {
    let (commitment1, _) = Commitment::new(3).unwrap();
    let request = CommitmentForRandom {
        node_id: 1,
        commitment_id: 99u128,
        commitment: commitment1.to_bytes(),
    };
    let mut cache = create_state().cache;
    let cfg = config_with_node_id(4);
    co_commit_to_random(&mut cache, &cfg, &request).unwrap();
    assert!(reveal_one_shot_law(&mut cache, 99u128));
    assert!(reveal_one_shot_law(&mut cache, 1234567u128));
}
