//! The static peer directory: node ids, hostnames and endpoints.
//!
//! Addresses are built deterministically from the configuration, so the
//! directory can be specified exactly: the peer list excludes the node
//! itself, has one entry per other node, and contains no duplicates.

use vstd::prelude::*;

use crate::config::Config;
use crate::errors::CommitmentGenerationError;
use crate::state::CommitmentForRandom;

verus! {

use vstd::string::StringExecFns;

/// The decimal digit character for `d`.
pub open spec fn digit_char(d: nat) -> char {
    if d == 0 {
        '0'
    } else if d == 1 {
        '1'
    } else if d == 2 {
        '2'
    } else if d == 3 {
        '3'
    } else if d == 4 {
        '4'
    } else if d == 5 {
        '5'
    } else if d == 6 {
        '6'
    } else if d == 7 {
        '7'
    } else if d == 8 {
        '8'
    } else {
        '9'
    }
}

/// The decimal representation of `n`, without leading zeros.
pub open spec fn dec_rep(n: nat) -> Seq<char>
    decreases n,
{
    if n < 10 {
        seq![digit_char(n)]
    } else {
        dec_rep(n / 10).push(digit_char(n % 10))
    }
}

/// A one-character string for the digit `d`.
fn digit_str(d: u16) -> (r: &'static str)
    requires
        d < 10,
    ensures
        r@ == seq![digit_char(d as nat)],
{
    let s: &'static str = if d == 0 {
        "0"
    } else if d == 1 {
        "1"
    } else if d == 2 {
        "2"
    } else if d == 3 {
        "3"
    } else if d == 4 {
        "4"
    } else if d == 5 {
        "5"
    } else if d == 6 {
        "6"
    } else if d == 7 {
        "7"
    } else if d == 8 {
        "8"
    } else {
        "9"
    };
    proof {
        reveal_strlit("0");
        reveal_strlit("1");
        reveal_strlit("2");
        reveal_strlit("3");
        reveal_strlit("4");
        reveal_strlit("5");
        reveal_strlit("6");
        reveal_strlit("7");
        reveal_strlit("8");
        reveal_strlit("9");
        assert(s@ =~= seq![digit_char(d as nat)]);
    }
    s
}

/// Formats `n` in decimal.
pub fn u16_to_dec(n: u16) -> (r: String)
    ensures
        r@ == dec_rep(n as nat),
    decreases n,
{
    if n < 10 {
        let s = digit_str(n);
        s.to_owned()
    } else {
        let mut s = u16_to_dec(n / 10);
        s.append(digit_str(n % 10));
        proof {
            assert((n / 10) as nat == (n as nat) / 10);
            assert((n % 10) as nat == (n as nat) % 10);
            assert(s@ =~= dec_rep((n as nat) / 10).push(digit_char((n as nat) % 10)));
        }
        s
    }
}

/// Distinct digits have distinct characters.
proof fn lemma_digit_char_inj(d1: nat, d2: nat)
    requires
        d1 < 10,
        d2 < 10,
        digit_char(d1) == digit_char(d2),
    ensures
        d1 == d2,
{
}

/// A number below ten prints as one character, a larger one as more.
proof fn lemma_dec_rep_len(n: nat)
    ensures
        n < 10 ==> dec_rep(n).len() == 1,
        n >= 10 ==> dec_rep(n).len() >= 2,
        dec_rep(n).len() >= 1,
    decreases n,
{
    if n >= 10 {
        lemma_dec_rep_len(n / 10);
    }
}

/// Decimal representations are unique.
proof fn lemma_dec_rep_inj(a: nat, b: nat)
    requires
        dec_rep(a) == dec_rep(b),
    ensures
        a == b,
    decreases a + b,
{
    lemma_dec_rep_len(a);
    lemma_dec_rep_len(b);
    if a < 10 && b < 10 {
        assert(dec_rep(a)[0] == digit_char(a));
        assert(dec_rep(b)[0] == digit_char(b));
        lemma_digit_char_inj(a, b);
    } else if a >= 10 && b >= 10 {
        let sa = dec_rep(a / 10);
        let sb = dec_rep(b / 10);
        assert(sa.push(digit_char(a % 10)) == sb.push(digit_char(b % 10)));
        assert(sa.push(digit_char(a % 10)).last() == digit_char(a % 10));
        assert(sb.push(digit_char(b % 10)).last() == digit_char(b % 10));
        lemma_digit_char_inj(a % 10, b % 10);
        assert(sa =~= sa.push(digit_char(a % 10)).drop_last());
        assert(sb =~= sb.push(digit_char(b % 10)).drop_last());
        lemma_dec_rep_inj(a / 10, b / 10);
        assert(a == 10 * (a / 10) + a % 10) by (nonlinear_arith);
        assert(b == 10 * (b / 10) + b % 10) by (nonlinear_arith);
    }
}

/// The hostname of node `index`: `{project}_{service}_{index}`.
pub open spec fn spec_peer_hostname(c: Config, index: nat) -> Seq<char> {
    c.project@ + "_"@ + c.service@ + "_"@ + dec_rep(index)
}

/// The base address of node `index`: `http://{hostname}:{port}`.
pub open spec fn spec_peer_address(c: Config, index: nat) -> Seq<char> {
    "http://"@ + spec_peer_hostname(c, index) + ":"@ + dec_rep(c.port as nat)
}

/// The co-commitment endpoint of node `index`.
pub open spec fn spec_peer_endpoint(c: Config, index: nat) -> Seq<char> {
    spec_peer_address(c, index) + "/co-commit-random"@
}

/// Two node indices with the same endpoint are the same node.
pub proof fn lemma_peer_endpoint_inj(c: Config, i: nat, j: nat)
    requires
        spec_peer_endpoint(c, i) == spec_peer_endpoint(c, j),
    ensures
        i == j,
{
    let head = "http://"@ + c.project@ + "_"@ + c.service@ + "_"@;
    let tail = ":"@ + dec_rep(c.port as nat) + "/co-commit-random"@;
    assert(spec_peer_endpoint(c, i) =~= head + dec_rep(i) + tail);
    assert(spec_peer_endpoint(c, j) =~= head + dec_rep(j) + tail);
    let li = dec_rep(i).len() as int;
    let lj = dec_rep(j).len() as int;
    assert(li == lj);
    assert((head + dec_rep(i) + tail).subrange(head.len() as int, head.len() + li)
        =~= dec_rep(i));
    assert((head + dec_rep(j) + tail).subrange(head.len() as int, head.len() + lj)
        =~= dec_rep(j));
    lemma_dec_rep_inj(i, j);
}

/// The commitment endpoint path.
pub fn get_commit_to_random_endpoint() -> (r: String)
    ensures
        r@ == "/commit-random"@,
{
    "/commit-random".to_owned()
}

/// The co-commitment endpoint path.
pub fn get_co_commit_to_random_endpoint() -> (r: String)
    ensures
        r@ == "/co-commit-random"@,
{
    "/co-commit-random".to_owned()
}

/// The node-listing endpoint path.
pub fn get_nodes_endpoint() -> (r: String)
    ensures
        r@ == "/nodes"@,
{
    "/nodes".to_owned()
}

/// The reveal endpoint path.
pub fn get_reveal_random_endpoint() -> (r: String)
    ensures
        r@ == "/reveal-random"@,
{
    "/reveal-random".to_owned()
}

/// The hostname of node `index`.
pub fn get_peer_hostname(cfg: &Config, index: u16) -> (r: String)
    ensures
        r@ == spec_peer_hostname(*cfg, index as nat),
{
    let mut s = String::new();
    s.append(cfg.project.as_str());
    s.append("_");
    s.append(cfg.service.as_str());
    s.append("_");
    let num = u16_to_dec(index);
    s.append(num.as_str());
    proof {
        assert(s@ =~= spec_peer_hostname(*cfg, index as nat));
    }
    s
}

/// The port on which a peer listens.  Every node listens on the one
/// configured port; the hostname is what distinguishes peers.
pub fn get_peer_port(cfg: &Config, _node_number: u16) -> (r: u16)
    ensures
        r == cfg.port,
{
    cfg.port
}

/// The base address of node `index`.
pub fn get_peer_address(cfg: &Config, index: u16) -> (r: String)
    ensures
        r@ == spec_peer_address(*cfg, index as nat),
{
    let mut s = String::new();
    s.append("http://");
    let host = get_peer_hostname(cfg, index);
    s.append(host.as_str());
    s.append(":");
    let port = u16_to_dec(get_peer_port(cfg, index));
    s.append(port.as_str());
    proof {
        assert(s@ =~= spec_peer_address(*cfg, index as nat));
    }
    s
}

/// The co-commitment endpoint of node `index`.
pub fn get_peer_endpoint(cfg: &Config, index: u16) -> (r: String)
    ensures
        r@ == spec_peer_endpoint(*cfg, index as nat),
{
    let mut s = get_peer_address(cfg, index);
    s.append("/co-commit-random");
    proof {
        assert(s@ =~= spec_peer_endpoint(*cfg, index as nat));
    }
    s
}

/// This node's own base address.
pub fn get_node_address(cfg: &Config) -> (r: String)
    ensures
        r@ == spec_peer_address(*cfg, cfg.node_id as nat),
{
    get_peer_address(cfg, cfg.node_id)
}

/// The base addresses of all nodes, the node's own included.
pub fn get_node_addresses(cfg: &Config) -> (r: Vec<String>)
    ensures
        r@.len() == cfg.num_nodes,
        forall|j: int|
            0 <= j < r@.len() ==> r@[j]@ == spec_peer_address(*cfg, (j + 1) as nat),
{
    let mut peers: Vec<String> = Vec::new();
    let num: u32 = cfg.num_nodes as u32;
    let mut i: u32 = 1;
    while i <= num
        invariant
            1 <= i <= num + 1,
            num == cfg.num_nodes,
            peers@.len() == i - 1,
            forall|j: int|
                0 <= j < peers@.len() ==> peers@[j]@ == spec_peer_address(*cfg, (j + 1) as nat),
        decreases num + 1 - i,
    {
        peers.push(get_peer_address(cfg, i as u16));
        i = i + 1;
    }
    peers
}

/// The index of the peer at position `j` of the peer list of `node_id`:
/// node indices count up from one and skip the node itself.
pub open spec fn peer_slot(node_id: int, j: int) -> int {
    if node_id < 1 {
        j + 1
    } else if j + 1 < node_id {
        j + 1
    } else {
        j + 2
    }
}

/// The co-commitment endpoints of every other node: one per node index in
/// `1 ..= num_nodes` except `node_id`, in index order, without duplicates.
pub fn get_peer_addresses(cfg: &Config, node_id: u16, num_nodes: u16) -> (r: Vec<String>)
    ensures
        r@.len() == if 1 <= node_id <= num_nodes {
            num_nodes - 1
        } else {
            num_nodes as int
        },
        forall|j: int|
            0 <= j < r@.len() ==> r@[j]@ == spec_peer_endpoint(
                *cfg,
                peer_slot(node_id as int, j) as nat,
            ),
        forall|j: int| 0 <= j < r@.len() ==> r@[j]@ != spec_peer_endpoint(*cfg, node_id as nat),
        forall|j: int, k: int| 0 <= j < k < r@.len() ==> r@[j]@ != r@[k]@,
{
    let mut peers: Vec<String> = Vec::new();
    let num: u32 = num_nodes as u32;
    let mut i: u32 = 1;
    while i <= num
        invariant
            1 <= i <= num + 1,
            num == num_nodes,
            peers@.len() + (if 1 <= node_id && (node_id as u32) < i {
                1int
            } else {
                0
            }) == i - 1,
            forall|j: int|
                0 <= j < peers@.len() ==> peers@[j]@ == spec_peer_endpoint(
                    *cfg,
                    peer_slot(node_id as int, j) as nat,
                ),
        decreases num + 1 - i,
    {
        if (i as u16) != node_id {
            proof {
                assert(peer_slot(node_id as int, peers@.len() as int) == i);
            }
            peers.push(get_peer_endpoint(cfg, i as u16));
        }
        i = i + 1;
    }
    proof {
        assert forall|j: int| 0 <= j < peers@.len() implies peers@[j]@ != spec_peer_endpoint(
            *cfg,
            node_id as nat,
        ) by {
            assert(peer_slot(node_id as int, j) != node_id);
            if peers@[j]@ == spec_peer_endpoint(*cfg, node_id as nat) {
                lemma_peer_endpoint_inj(*cfg, peer_slot(node_id as int, j) as nat, node_id as nat);
            }
        }
        assert forall|j: int, k: int| 0 <= j < k < peers@.len() implies peers@[j]@ != peers@[k]@ by {
            assert(peer_slot(node_id as int, j) < peer_slot(node_id as int, k));
            if peers@[j]@ == peers@[k]@ {
                lemma_peer_endpoint_inj(
                    *cfg,
                    peer_slot(node_id as int, j) as nat,
                    peer_slot(node_id as int, k) as nat,
                );
            }
        }
    }
    peers
}

/// Keeps the gathered co-commitments when at least `threshold` of them are
/// in, and reports a threshold failure otherwise.
pub fn collect_with_threshold(responses: Vec<CommitmentForRandom>, threshold: u64) -> (r: Result<
    Vec<CommitmentForRandom>,
    CommitmentGenerationError,
>)
    ensures
        r is Ok <==> responses@.len() >= threshold,
        r is Ok ==> r->Ok_0 == responses,
{
    if responses.len() as u64 >= threshold {
        Ok(responses)
    } else {
        Err(CommitmentGenerationError)
    }
}

} // verus!
