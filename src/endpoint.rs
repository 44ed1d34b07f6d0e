use vstd::prelude::*;

verus! {

/// An IP address as carried by a PROXY header.
#[derive(Clone, Copy, Debug, PartialEq, Eq, Structural)]
pub enum IpAddress {
    V4(u8, u8, u8, u8),
    V6(u16, u16, u16, u16, u16, u16, u16, u16),
}

/// One end of a TCP flow.
#[derive(Clone, Copy, Debug, PartialEq, Eq, Structural)]
pub struct Endpoint {
    pub ip: IpAddress,
    pub port: u16,
}

/// One physical flow behind the proxy: where it came from and where the
/// client was connecting to.
#[derive(Clone, Copy, Debug, PartialEq, Eq, Structural)]
pub struct ProxyConnection {
    pub source: Endpoint,
    pub destination: Endpoint,
}

impl ProxyConnection {
    pub fn new(source: Endpoint, destination: Endpoint) -> (r: ProxyConnection)
        ensures
            r.source == source,
            r.destination == destination,
    {
        ProxyConnection { source, destination }
    }
}

} // verus!
