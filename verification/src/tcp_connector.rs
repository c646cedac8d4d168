//! Decision half of the outbound connector: where a tunnel connects, under
//! which deadline, and which address of a resolved set is used. Opening
//! the socket itself is the caller's part.
use crate::addr::{parse_ipv4, spec_parse_ipv4, SockAddrV4};
use crate::conf::TargetConnectionConfig;
use crate::rng::rand_below;
use vstd::prelude::*;

verus! {

/// How to reach a target: straight to a literal address, or through the
/// resolver first.
#[derive(Clone, Copy, Debug)]
pub enum ConnectPlan {
    /// The host is an IPv4 literal: connect here; neither the cache nor
    /// the resolver is consulted.
    Direct(SockAddrV4),
    /// The host is a name and must be resolved first.
    Resolve,
}

/// Connection policy of the outbound side.
pub struct TcpConnector {
    pub target_connection_config: TargetConnectionConfig,
}

impl TcpConnector {
    pub fn new(target_connection_config: TargetConnectionConfig) -> (r: Self)
        ensures
            r.target_connection_config == target_connection_config,
    {
        TcpConnector { target_connection_config }
    }

    /// Deadline for one outbound connect attempt, in milliseconds.
    pub fn connect_timeout_ms(&self) -> (r: u64)
        ensures
            r == self.target_connection_config.connect_timeout,
    {
        self.target_connection_config.connect_timeout
    }

    /// Socket address of `host:port` when the host is an IPv4 literal,
    /// which bypasses cache and resolver entirely; otherwise the host
    /// must go to the resolver.
    pub fn to_socket_addr(&self, host: &str, port: u16) -> (r: ConnectPlan)
        ensures
            match spec_parse_ipv4(host@) {
                Some((a, b, c, d)) => r matches ConnectPlan::Direct(sa) && sa.ip@ == seq![
                    a,
                    b,
                    c,
                    d,
                ] && sa.port == port,
                None => r is Resolve,
            },
    {
        match parse_ipv4(host) {
            Some(ip) => ConnectPlan::Direct(SockAddrV4 { ip, port }),
            None => ConnectPlan::Resolve,
        }
    }

    /// One address of the resolved set, chosen at random; the connector
    /// picks exactly once per call and never invents an address.
    pub fn choose_addr(&self, addrs: &Vec<SockAddrV4>) -> (r: Option<SockAddrV4>)
        ensures
            r is None <==> addrs@.len() == 0,
            r matches Some(a) ==> addrs@.contains(a),
    {
        if addrs.is_empty() {
            None
        } else {
            let i = rand_below(addrs.len() as u64) as usize;
            let a = addrs[i];
            proof {
                assert(addrs@.contains(addrs@[i as int]));
            }
            Some(a)
        }
    }
}

} // verus!
