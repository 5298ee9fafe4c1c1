use vstd::prelude::*;

use crate::text::{chars_of, decimal, push_decimal, to_string};

verus! {

/// Number of proxies located in one country.
#[derive(Debug, Clone)]
pub struct CountryCount {
    pub country: String,
    pub count: i64,
}

/// Number of proxies whose latency falls in one range.
#[derive(Debug, Clone)]
pub struct LatencyBucket {
    pub range: String,
    pub count: i64,
}

/// Number of proxies of one protocol.
#[derive(Debug, Clone)]
pub struct ProtocolCount {
    pub protocol: String,
    pub count: i64,
}

/// Number of proxies whose score falls in one range.
#[derive(Debug, Clone)]
pub struct ScoreBucket {
    pub range: String,
    pub count: i64,
}

/// The text `ip:port` under which a proxy is handed to clients.
pub open spec fn address_text(ip: Seq<char>, port: u16) -> Seq<char> {
    ip + seq![':'] + decimal(port as nat)
}

/// The address of a proxy as clients receive it: the IP, a ':' and the port
/// in decimal.
pub fn proxy_address(ip: &str, port: u16) -> (res: String)
    ensures
        res@ == address_text(ip@, port),
{
    let mut cs = chars_of(ip);
    cs.push(':');
    push_decimal(&mut cs, port);
    to_string(&cs)
}

} // verus!
