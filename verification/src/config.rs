//! Relayer configuration and the checks made on it before a connection.

use vstd::prelude::*;
use vstd::string::StringSliceAdditionalSpecFns;

verus! {

/// Per-call RPC timeout, in seconds.
pub const CONNECTION_TIMEOUT_S: u64 = 10;

/// Fixed pause between reconnection attempts, in seconds.
pub const CONNECTION_BACKOFF_S: u64 = 5;

/// TCP keepalive applied to the backend endpoint, in seconds.
pub const BACKEND_TCP_KEEPALIVE_S: u64 = 60;

/// Configuration of one relayer connection, compared by equality.
pub struct RelayerConfig {
    /// Address of the authentication service.
    pub auth_service_addr: String,
    /// Address of the relayer backend.
    pub backend_addr: String,
    /// Interval at which heartbeats are expected, in milliseconds.
    pub expected_heartbeat_interval_ms: u64,
    /// Maximum tolerable age of the last heartbeat, in milliseconds.
    pub oldest_allowed_heartbeat_ms: u64,
    /// When set, streamed packets are routed to the channel whose consumers
    /// skip signature verification.
    pub trust_packets: bool,
}

impl Clone for RelayerConfig {
    fn clone(&self) -> (r: Self)
        ensures
            r == *self,
    {
        let r = RelayerConfig {
            auth_service_addr: self.auth_service_addr.clone(),
            backend_addr: self.backend_addr.clone(),
            expected_heartbeat_interval_ms: self.expected_heartbeat_interval_ms,
            oldest_allowed_heartbeat_ms: self.oldest_allowed_heartbeat_ms,
            trust_packets: self.trust_packets,
        };
        assert(r == *self);
        r
    }
}

impl PartialEq for RelayerConfig {
    fn eq(&self, other: &RelayerConfig) -> (r: bool) {
        let r = self.auth_service_addr == other.auth_service_addr
            && self.backend_addr == other.backend_addr
            && self.expected_heartbeat_interval_ms == other.expected_heartbeat_interval_ms
            && self.oldest_allowed_heartbeat_ms == other.oldest_allowed_heartbeat_ms
            && self.trust_packets == other.trust_packets;
        r
    }
}

impl Eq for RelayerConfig {}

/// Two configs are the same when every field agrees.
pub open spec fn spec_config_eq(a: &RelayerConfig, b: &RelayerConfig) -> bool {
    &&& a.auth_service_addr@ == b.auth_service_addr@
    &&& a.backend_addr@ == b.backend_addr@
    &&& a.expected_heartbeat_interval_ms == b.expected_heartbeat_interval_ms
    &&& a.oldest_allowed_heartbeat_ms == b.oldest_allowed_heartbeat_ms
    &&& a.trust_packets == b.trust_packets
}

impl vstd::std_specs::cmp::PartialEqSpecImpl for RelayerConfig {
    open spec fn obeys_eq_spec() -> bool {
        true
    }

    open spec fn eq_spec(&self, other: &RelayerConfig) -> bool {
        spec_config_eq(self, other)
    }
}

impl RelayerConfig {
    /// A connection is attempted only on a config with both addresses present
    /// and both watchdog durations positive.
    pub open spec fn spec_valid(&self) -> bool {
        &&& self.auth_service_addr@.len() > 0
        &&& self.backend_addr@.len() > 0
        &&& self.oldest_allowed_heartbeat_ms > 0
        &&& self.expected_heartbeat_interval_ms > 0
    }

    /// Decides whether a connection may be attempted with this config.
    pub fn validate_relayer_config(&self) -> (r: bool)
        ensures
            r == self.spec_valid(),
    {
        if self.auth_service_addr.as_str().is_empty() {
            return false;
        }
        if self.backend_addr.as_str().is_empty() {
            return false;
        }
        if self.oldest_allowed_heartbeat_ms == 0 {
            return false;
        }
        if self.expected_heartbeat_interval_ms == 0 {
            return false;
        }
        true
    }
}

/// The ASCII bytes of `https`, the substring whose presence in a URL selects TLS.
pub open spec fn https_marker() -> Seq<u8> {
    seq![104u8, 116u8, 116u8, 112u8, 115u8]
}

/// Whether `needle` occurs as a contiguous substring of `haystack`.
pub open spec fn contains_sub(haystack: Seq<u8>, needle: Seq<u8>) -> bool {
    exists|i: int|
        0 <= i && i + needle.len() <= haystack.len() && #[trigger] haystack.subrange(
            i,
            i + needle.len(),
        ) == needle
}

/// Checks whether `needle` occurs in `haystack` starting at position `at`.
fn matches_at(haystack: &[u8], needle: &[u8], at: usize) -> (r: bool)
    requires
        at + needle@.len() <= haystack@.len(),
    ensures
        r == (haystack@.subrange(at as int, at + needle@.len()) =~= needle@),
{
    let hlen = haystack.len();
    let nlen = needle.len();
    let mut j: usize = 0;
    while j < nlen
        invariant
            j <= nlen,
            nlen == needle@.len(),
            hlen == haystack@.len(),
            at + nlen <= hlen,
            forall|k: int| 0 <= k < j ==> haystack@[at + k] == needle@[k],
        decreases nlen - j,
    {
        if haystack[at + j] != needle[j] {
            assert(haystack@.subrange(at as int, at + needle@.len())[j as int] != needle@[j as int]);
            return false;
        }
        j += 1;
    }
    assert(haystack@.subrange(at as int, at + needle@.len()) =~= needle@);
    true
}

/// Searches `haystack` for `needle` as a contiguous substring.
pub fn contains_bytes(haystack: &[u8], needle: &[u8]) -> (r: bool)
    ensures
        r == contains_sub(haystack@, needle@),
{
    if needle.len() > haystack.len() {
        return false;
    }
    if needle.len() == 0 {
        assert(contains_sub(haystack@, needle@)) by {
            assert(haystack@.subrange(0, 0 + needle@.len() as int) =~= needle@);
        }
        return true;
    }
    let mut i: usize = 0;
    let last = haystack.len() - needle.len();
    loop
        invariant
            0 < needle@.len() <= haystack@.len(),
            last == haystack@.len() - needle@.len(),
            i <= last,
            forall|k: int|
                0 <= k < i ==> #[trigger] haystack@.subrange(k, k + needle@.len()) != needle@,
        decreases last - i,
    {
        if matches_at(haystack, needle, i) {
            return true;
        }
        if i == last {
            return false;
        }
        i += 1;
    }
}

/// Whether the URL selects TLS: it does exactly when it contains `https`.
pub fn url_uses_tls(url: &str) -> (r: bool)
    ensures
        r == contains_sub(url.spec_bytes(), https_marker()),
{
    let needle: [u8; 5] = [104u8, 116u8, 116u8, 112u8, 115u8];
    assert(needle@ =~= https_marker());
    contains_bytes(url.as_bytes(), needle.as_slice())
}

/// The UTF-8 bytes of a string value, over which URL substring checks are stated.
pub open spec fn url_bytes(s: Seq<char>) -> Seq<u8> {
    vstd::utf8::encode_utf8(s)
}

/// What the supervisor builds before connecting: which endpoints use TLS and
/// the fixed socket options applied to them.
pub struct EndpointPlan {
    pub auth_tls: bool,
    pub backend_tls: bool,
    pub backend_tcp_keepalive_s: u64,
    pub connection_timeout_s: u64,
}

/// Derives the endpoint settings from a config snapshot: each endpoint uses
/// TLS exactly when its URL contains `https`; the backend gets a 60 s TCP
/// keepalive; every connect and RPC gets the 10 s timeout.
pub fn plan_endpoints(config: &RelayerConfig) -> (r: EndpointPlan)
    ensures
        r.auth_tls == contains_sub(url_bytes(config.auth_service_addr@), https_marker()),
        r.backend_tls == contains_sub(url_bytes(config.backend_addr@), https_marker()),
        r.backend_tcp_keepalive_s == BACKEND_TCP_KEEPALIVE_S,
        r.connection_timeout_s == CONNECTION_TIMEOUT_S,
{
    EndpointPlan {
        auth_tls: url_uses_tls(config.auth_service_addr.as_str()),
        backend_tls: url_uses_tls(config.backend_addr.as_str()),
        backend_tcp_keepalive_s: BACKEND_TCP_KEEPALIVE_S,
        connection_timeout_s: CONNECTION_TIMEOUT_S,
    }
}

} // verus!
