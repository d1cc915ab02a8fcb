//! Transport-level types shared by the client and the server side.

use vstd::prelude::*;

pub mod client;
pub mod server;

verus! {

#[verifier::external_type_specification]
#[verifier::external_body]
pub struct ExIoError(std::io::Error);

/// A transport failure surfaced synchronously to a caller.  Construction
/// failures are fatal to the transport being built; a send failure concerns
/// the one send whose caller observes it.
#[derive(Debug)]
pub enum UdpError {
    /// A message failed to send.
    SendError(std::io::Error),
    /// The socket failed to bind to the local address.
    BindError(std::io::Error),
    /// No remote address could be resolved.
    ConnectionError(std::io::Error),
}

impl UdpError {
    /// A short description of the failure, for logs and error reports.
    pub fn describe(&self) -> (s: String)
        ensures
            s@ == match self {
                UdpError::SendError(_) => "Failed to send message."@,
                UdpError::BindError(_) => "Failed to bind to local address."@,
                UdpError::ConnectionError(_) => "Failed to resolve remote address."@,
            },
    {
        match self {
            UdpError::SendError(_) => "Failed to send message.".to_string(),
            UdpError::BindError(_) => "Failed to bind to local address.".to_string(),
            UdpError::ConnectionError(_) => "Failed to resolve remote address.".to_string(),
        }
    }
}

/// A peer's network address: an IPv6 address (IPv4 peers appear as mapped
/// addresses) together with a port.
#[derive(Clone, Copy, Debug, PartialEq, Eq, Hash, Structural)]
pub struct PeerAddr {
    /// The 128-bit address, in the usual big-endian integer reading.
    pub ip: u128,
    /// The port.
    pub port: u16,
}

} // verus!
