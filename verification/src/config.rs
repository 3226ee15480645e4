//! Process-wide configuration of the node.
//!
//! The values come from the environment; the layer that reads the
//! environment builds a `Config` and hands it to the library.

use vstd::prelude::*;

verus! {

use vstd::string::StringExecFns;

/// Static configuration of one node.
///
/// The commitment threshold is carried in hundredths, so that
/// `floor(threshold * num_nodes)` can be computed exactly as
/// `threshold_hundredths * num_nodes / 100`.
pub struct Config {
    pub port: u16,
    pub project: String,
    pub service: String,
    pub node_id: u16,
    pub num_nodes: u16,
    pub threshold_hundredths: u16,
}

impl Config {
    /// A configuration is well formed when its own node id lies among the
    /// node ids `1 ..= num_nodes`.
    pub open spec fn wf(self) -> bool {
        1 <= self.node_id <= self.num_nodes
    }
}

impl Default for Config {
    /// The defaults the original deployment uses.
    fn default() -> (r: Config)
        ensures
            r.port == 7000,
            r.project@ == "random_pedersen"@,
            r.service@ == "node"@,
            r.node_id == 1,
            r.num_nodes == 2,
            r.threshold_hundredths == 66,
            r.wf(),
    {
        Config {
            port: 7000,
            project: String::from_str("random_pedersen"),
            service: String::from_str("node"),
            node_id: 1,
            num_nodes: 2,
            threshold_hundredths: 66,
        }
    }
}

/// How many peer responses a commitment round needs:
/// `floor((threshold_hundredths / 100) * num_nodes)`.
pub open spec fn spec_threshold_count(threshold_hundredths: nat, num_nodes: nat) -> nat {
    (threshold_hundredths * num_nodes) / 100
}

/// Computes the response threshold from the configured fraction.
pub fn threshold_count(threshold_hundredths: u16, num_nodes: u16) -> (r: u64)
    ensures
        r == spec_threshold_count(threshold_hundredths as nat, num_nodes as nat),
{
    proof {
        assert((threshold_hundredths as u64) * (num_nodes as u64) <= 0xffff * 0xffff)
            by (nonlinear_arith)
            requires
                threshold_hundredths <= 0xffff,
                num_nodes <= 0xffff,
        ;
    }
    ((threshold_hundredths as u64) * (num_nodes as u64)) / 100
}

} // verus!
