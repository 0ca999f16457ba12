//! Errors of the protocol layer.
use vstd::prelude::*;

verus! {

/// Why a frame could not be handled.
#[derive(Copy, Clone, Debug, PartialEq, Eq, Structural)]
pub enum Error {
    /// No handler is registered for the frame's identity.
    FunctionNotFound,
    /// The frame itself does not parse.
    Protocol,
    /// The frame parses, but its body is not the argument type of the call.
    Deserialization,
    /// An identity is not lowercase-hyphenated text.
    InvalidIdentity,
    /// A handler is already registered under this identity.
    DuplicateId,
    /// The connection has closed.
    ConnectionClosed,
    /// No outstanding call has this token.
    UnknownToken,
    /// Every token of the connection has been issued.
    TokensExhausted,
}

/// An error from a fallible call: either the transport failed, or the call
/// reached the server and the server's function reported a failure.
#[derive(Copy, Clone, Debug, PartialEq, Eq)]
pub enum ErrorFrom<C, S> {
    /// A transport error.
    Connection(C),
    /// An error from the function's own output.
    Server(S),
}

/// Flattens the outcome of a fallible call, keeping apart which side failed.
pub fn flatten<S, E, C>(r: Result<Result<S, E>, C>) -> (f: Result<S, ErrorFrom<C, E>>)
    ensures
        f == match r {
            Ok(Ok(s)) => Ok(s),
            Ok(Err(e)) => Err(ErrorFrom::Server(e)),
            Err(c) => Err(ErrorFrom::Connection(c)),
        },
{
    match r {
        Ok(Ok(s)) => Ok(s),
        Ok(Err(e)) => Err(ErrorFrom::Server(e)),
        Err(c) => Err(ErrorFrom::Connection(c)),
    }
}

} // verus!
