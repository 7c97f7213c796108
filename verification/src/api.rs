//! What a server says to its clients when it refuses a call.
use vstd::prelude::*;

verus! {

/// A fault of the client in the exchange itself.
#[derive(Clone, Copy, Debug, PartialEq, Eq)]
pub enum ClientError {
    /// The client is gone, or took back what it had lent.
    WentAway,
    /// The client has lent too little.
    BadLease,
    /// The message makes no sense.
    BadMessageContents,
}

/// Why a call is refused.
#[derive(Debug, PartialEq, Eq)]
pub enum RequestError<E> {
    /// With an error of the server's own interface, which the client is told.
    Runtime(E),
    /// Because of a fault of the client.
    Fail(ClientError),
}

} // verus!
