use std::collections::HashSet;

use random_pedersen::config::{threshold_count, Config};
use random_pedersen::peers::{get_co_commit_to_random_endpoint, get_commit_to_random_endpoint,
    get_node_address, get_node_addresses, get_nodes_endpoint, get_peer_address,
    get_peer_addresses, get_peer_endpoint, get_peer_hostname, get_peer_port,
    get_reveal_random_endpoint, u16_to_dec};

#[test]
fn test_get_peer_addresses() {
    let node_id: u16 = 2;
    let num_nodes: u16 = 5;
    let cfg = Config::default();

    let initial_peers = get_peer_addresses(&cfg, node_id, num_nodes);

    // Ensure that the generated addresses do not contain the address for the current node.
    assert!(!initial_peers.contains(&get_peer_endpoint(&cfg, node_id)));
}

#[test]
fn test_get_peer_addresses_no_duplicate() {
    let node_id: u16 = 2; // Example node ID
    let num_nodes: u16 = 5; // Example number of nodes
    let cfg = Config::default();

    let initial_peers = get_peer_addresses(&cfg, node_id, num_nodes);

    // Ensure that the generated addresses do not contain duplicates
    assert_eq!(
        initial_peers.len(),
        initial_peers.iter().collect::<HashSet<_>>().len()
    );
}

#[test]
fn test_get_peer_addresses_count() {
    let node_id: u16 = 2; // Example node ID
    let num_nodes: u16 = 5; // Example number of nodes
    let cfg = Config::default();

    let initial_peers = get_peer_addresses(&cfg, node_id, num_nodes);

    // Ensure that the number of received addresses is num_nodes - 1
    assert_eq!(initial_peers.len(), (num_nodes - 1) as usize);
}

#[test]
fn peer_address_has_expected_shape() {
    let cfg = Config::default();
    assert_eq!(get_peer_hostname(&cfg, 3), "random_pedersen_node_3");
    assert_eq!(get_peer_address(&cfg, 3), "http://random_pedersen_node_3:7000");
    assert_eq!(
        get_peer_endpoint(&cfg, 3),
        "http://random_pedersen_node_3:7000/co-commit-random"
    );
    assert_eq!(get_peer_port(&cfg, 3), 7000);
}

#[test]
fn node_addresses_cover_all_nodes() {
    let cfg = Config {
        node_id: 2,
        num_nodes: 4,
        ..Config::default()
    };
    let all = get_node_addresses(&cfg);
    assert_eq!(all.len(), 4);
    assert!(all.contains(&get_node_address(&cfg)));
    for index in 1..=4u16 {
        assert!(all.contains(&get_peer_address(&cfg, index)));
    }
}

#[test]
fn endpoint_paths_are_fixed() {
    assert_eq!(get_commit_to_random_endpoint(), "/commit-random");
    assert_eq!(get_co_commit_to_random_endpoint(), "/co-commit-random");
    assert_eq!(get_nodes_endpoint(), "/nodes");
    assert_eq!(get_reveal_random_endpoint(), "/reveal-random");
}

#[test]
fn decimal_formatting_is_exact() {
    assert_eq!(u16_to_dec(0), "0");
    assert_eq!(u16_to_dec(7), "7");
    assert_eq!(u16_to_dec(10), "10");
    assert_eq!(u16_to_dec(65535), "65535");
}

#[test]
fn threshold_is_the_floor_of_the_product() {
    // floor(0.66 * 5) == 3, floor(0.66 * 2) == 1, floor(0.66 * 3) == 1
    assert_eq!(threshold_count(66, 5), 3);
    assert_eq!(threshold_count(66, 2), 1);
    assert_eq!(threshold_count(66, 3), 1);
    assert_eq!(threshold_count(100, 4), 4);
}
