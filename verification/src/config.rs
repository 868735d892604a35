//! RPC endpoints, the modes that select among them, and the fetcher that holds them.

use vstd::prelude::*;

verus! {

/// The mode corresponding to the chain we are fetching data for.
#[derive(Clone, Copy, Debug, PartialEq, Eq, Structural)]
pub enum RPCMode {
    L1,
    L1Beacon,
    L2,
    L2Node,
}

/// Whether to keep the cache or delete the cache.
#[derive(Clone, Copy, Debug, PartialEq, Eq, Structural)]
pub enum CacheMode {
    KeepCache,
    DeleteCache,
}

impl CacheMode {
    /// Whether the data directory is removed before the host runs.
    pub fn deletes_cache(&self) -> (deletes: bool)
        ensures
            deletes == (*self == CacheMode::DeleteCache),
    {
        match self {
            CacheMode::KeepCache => false,
            CacheMode::DeleteCache => true,
        }
    }
}

/// The L1 endpoint used when `L1_RPC` is not set.
pub open spec fn default_l1_rpc() -> Seq<char> {
    seq!['h', 't', 't', 'p', ':', '/', '/', 'l', 'o', 'c', 'a', 'l', 'h', 'o', 's', 't', ':', '8', '5', '4', '5']
}

/// The L1 beacon endpoint used when `L1_BEACON_RPC` is not set.
pub open spec fn default_l1_beacon_rpc() -> Seq<char> {
    seq!['h', 't', 't', 'p', ':', '/', '/', 'l', 'o', 'c', 'a', 'l', 'h', 'o', 's', 't', ':', '5', '0', '5', '2']
}

/// The L2 endpoint used when `L2_RPC` is not set.
pub open spec fn default_l2_rpc() -> Seq<char> {
    seq!['h', 't', 't', 'p', ':', '/', '/', 'l', 'o', 'c', 'a', 'l', 'h', 'o', 's', 't', ':', '9', '5', '4', '5']
}

/// The L2 node endpoint used when `L2_NODE_RPC` is not set.
pub open spec fn default_l2_node_rpc() -> Seq<char> {
    seq!['h', 't', 't', 'p', ':', '/', '/', 'l', 'o', 'c', 'a', 'l', 'h', 'o', 's', 't', ':', '5', '0', '5', '8']
}

/// The endpoint given, or the default one.
pub open spec fn endpoint_or(given: Option<String>, default: Seq<char>) -> Seq<char> {
    match given {
        Some(s) => s@,
        None => default,
    }
}

/// The URLs of the four RPC endpoints.
#[derive(Debug, Clone)]
pub struct RPCConfig {
    l1_rpc: String,
    l1_beacon_rpc: String,
    l2_rpc: String,
    l2_node_rpc: String,
}

impl RPCConfig {
    /// The URL of the endpoint for `mode`.
    pub closed spec fn url(self, mode: RPCMode) -> Seq<char> {
        match mode {
            RPCMode::L1 => self.l1_rpc@,
            RPCMode::L1Beacon => self.l1_beacon_rpc@,
            RPCMode::L2 => self.l2_rpc@,
            RPCMode::L2Node => self.l2_node_rpc@,
        }
    }

    /// The configuration from the endpoints that are set (`L1_RPC`, `L1_BEACON_RPC`,
    /// `L2_RPC`, `L2_NODE_RPC`), each missing one replaced by its local default.
    pub fn from_endpoints(
        l1_rpc: Option<String>,
        l1_beacon_rpc: Option<String>,
        l2_rpc: Option<String>,
        l2_node_rpc: Option<String>,
    ) -> (config: RPCConfig)
        ensures
            config.url(RPCMode::L1) == endpoint_or(l1_rpc, default_l1_rpc()),
            config.url(RPCMode::L1Beacon) == endpoint_or(l1_beacon_rpc, default_l1_beacon_rpc()),
            config.url(RPCMode::L2) == endpoint_or(l2_rpc, default_l2_rpc()),
            config.url(RPCMode::L2Node) == endpoint_or(l2_node_rpc, default_l2_node_rpc()),
    {
        proof {
            reveal_strlit("http://localhost:8545");
            reveal_strlit("http://localhost:5052");
            reveal_strlit("http://localhost:9545");
            reveal_strlit("http://localhost:5058");
            assert("http://localhost:8545"@ =~= default_l1_rpc());
            assert("http://localhost:5052"@ =~= default_l1_beacon_rpc());
            assert("http://localhost:9545"@ =~= default_l2_rpc());
            assert("http://localhost:5058"@ =~= default_l2_node_rpc());
        }
        RPCConfig {
            l1_rpc: endpoint_or_default(l1_rpc, "http://localhost:8545"),
            l1_beacon_rpc: endpoint_or_default(l1_beacon_rpc, "http://localhost:5052"),
            l2_rpc: endpoint_or_default(l2_rpc, "http://localhost:9545"),
            l2_node_rpc: endpoint_or_default(l2_node_rpc, "http://localhost:5058"),
        }
    }

    /// The URL of the endpoint for `mode`.
    pub fn url_for(&self, mode: RPCMode) -> (url: String)
        ensures
            url@ == self.url(mode),
    {
        match mode {
            RPCMode::L1 => self.l1_rpc.clone(),
            RPCMode::L2 => self.l2_rpc.clone(),
            RPCMode::L1Beacon => self.l1_beacon_rpc.clone(),
            RPCMode::L2Node => self.l2_node_rpc.clone(),
        }
    }
}

fn endpoint_or_default(given: Option<String>, default: &str) -> (url: String)
    ensures
        url@ == match given {
            Some(s) => s@,
            None => default@,
        },
{
    match given {
        Some(s) => s,
        None => String::from_str(default),
    }
}

/// Fetches L2 output data and L2 claim data for given block numbers. The providers are
/// handles on the L1 and L2 execution endpoints; `rollup_config` is the chain's rollup
/// configuration.
#[derive(Clone)]
pub struct OPSuccinctDataFetcher<P, C> {
    pub rpc_config: RPCConfig,
    pub l1_provider: P,
    pub l2_provider: P,
    pub rollup_config: C,
}

/// The RPC modes that have a provider.
pub open spec fn has_provider(mode: RPCMode) -> bool {
    mode == RPCMode::L1 || mode == RPCMode::L2
}

impl<P, C> OPSuccinctDataFetcher<P, C> {
    /// Get the RPC URL for the given RPC mode.
    pub fn get_rpc_url(&self, rpc_mode: RPCMode) -> (url: String)
        ensures
            url@ == self.rpc_config.url(rpc_mode),
    {
        self.rpc_config.url_for(rpc_mode)
    }

    /// Get the provider for the given RPC mode. Only the L1 and L2 modes have one.
    pub fn get_provider(&self, rpc_mode: RPCMode) -> (provider: &P)
        requires
            has_provider(rpc_mode),
        ensures
            rpc_mode == RPCMode::L1 ==> *provider == self.l1_provider,
            rpc_mode == RPCMode::L2 ==> *provider == self.l2_provider,
    {
        match rpc_mode {
            RPCMode::L1 => &self.l1_provider,
            _ => &self.l2_provider,
        }
    }
}

} // verus!
