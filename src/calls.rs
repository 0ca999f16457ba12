//! Two remote functions, `Add` and `TryMultiply`, with CBOR payloads: the
//! client builds their frames and reads their results, and `TestServer`
//! runs them.
use vstd::prelude::*;
use vstd::string::StringSliceAdditionalSpecFns;
use crate::bytes::copy_range;
use crate::envelope::Envelope;
use crate::error::{Error, ErrorFrom, flatten};
use crate::id::RpcId;
use crate::server::RpcHandler;

verus! {

/// The CBOR encoding of a pair of integers.
pub uninterp spec fn cbor_pair(a: i32, b: i32) -> Seq<u8>;

/// The pair of integers that CBOR bytes hold, if they hold one.
pub uninterp spec fn cbor_pair_of(s: Seq<u8>) -> Option<(i32, i32)>;

/// The CBOR encoding of an integer.
pub uninterp spec fn cbor_i32(v: i32) -> Seq<u8>;

/// The integer that CBOR bytes hold, if they hold one.
pub uninterp spec fn cbor_i32_of(s: Seq<u8>) -> Option<i32>;

/// The CBOR encoding of an integer or a unit failure.
pub uninterp spec fn cbor_result(v: Result<i32, ()>) -> Seq<u8>;

/// The integer or unit failure that CBOR bytes hold, if they hold one.
pub uninterp spec fn cbor_result_of(s: Seq<u8>) -> Option<Result<i32, ()>>;

/// Relies on `ciborium::ser::into_writer`, writing into a `Vec`, which
/// cannot fail.
#[verifier::external_body]
fn encode_pair(a: i32, b: i32) -> (r: Vec<u8>)
    ensures
        r@ == cbor_pair(a, b),
{
    let mut out: Vec<u8> = Vec::new();
    let _ = ciborium::ser::into_writer(&(a, b), &mut out);
    out
}

/// Relies on `ciborium::de::from_reader`: reads a pair of integers.
#[verifier::external_body]
fn decode_pair(s: &[u8]) -> (r: Option<(i32, i32)>)
    ensures
        r == cbor_pair_of(s@),
{
    ciborium::de::from_reader::<(i32, i32), &[u8]>(s).ok()
}

/// Relies on `ciborium::ser::into_writer`, writing into a `Vec`, which
/// cannot fail.
#[verifier::external_body]
fn encode_i32(v: i32) -> (r: Vec<u8>)
    ensures
        r@ == cbor_i32(v),
{
    let mut out: Vec<u8> = Vec::new();
    let _ = ciborium::ser::into_writer(&v, &mut out);
    out
}

/// Relies on `ciborium::de::from_reader`: reads an integer.
#[verifier::external_body]
fn decode_i32(s: &[u8]) -> (r: Option<i32>)
    ensures
        r == cbor_i32_of(s@),
{
    ciborium::de::from_reader::<i32, &[u8]>(s).ok()
}

/// Relies on `ciborium::ser::into_writer`, writing into a `Vec`, which
/// cannot fail.
#[verifier::external_body]
fn encode_result(v: Result<i32, ()>) -> (r: Vec<u8>)
    ensures
        r@ == cbor_result(v),
{
    let mut out: Vec<u8> = Vec::new();
    let _ = ciborium::ser::into_writer(&v, &mut out);
    out
}

/// Relies on `ciborium::de::from_reader`: reads an integer or a unit failure.
#[verifier::external_body]
fn decode_result(s: &[u8]) -> (r: Option<Result<i32, ()>>)
    ensures
        r == cbor_result_of(s@),
{
    ciborium::de::from_reader::<Result<i32, ()>, &[u8]>(s).ok()
}

/// Adds two integers; the sum wraps on overflow.
#[derive(Copy, Clone, Debug, PartialEq, Eq, Structural)]
pub struct Add(pub i32, pub i32);

/// Multiplies two integers; fails where the product overflows.
#[derive(Copy, Clone, Debug, PartialEq, Eq, Structural)]
pub struct TryMultiply(pub i32, pub i32);

impl RpcId for Add {
    const ID: &'static str = "add";
}

impl RpcId for TryMultiply {
    const ID: &'static str = "try-multiply";
}

pub open spec fn add_id() -> Seq<u8> {
    seq![97u8, 100u8, 100u8]
}

pub open spec fn try_multiply_id() -> Seq<u8> {
    seq![116u8, 114u8, 121u8, 45u8, 109u8, 117u8, 108u8, 116u8, 105u8, 112u8, 108u8, 121u8]
}

fn id_bytes(s: &str) -> (r: Vec<u8>)
    ensures
        r@ == s.spec_bytes(),
{
    let b = s.as_bytes();
    let r = copy_range(b, 0, b.len());
    assert(b@.subrange(0, b@.len() as int) =~= b@);
    r
}

/// The output of a call of `Add` from its encoded result.
pub open spec fn spec_add_output(body: Seq<u8>) -> Result<i32, Error> {
    match cbor_i32_of(body) {
        Some(v) => Ok(v),
        None => Err(Error::Deserialization),
    }
}

/// The output of a call of `TryMultiply` from its encoded result.
pub open spec fn spec_try_multiply_output(body: Seq<u8>) -> Result<Result<i32, ()>, Error> {
    match cbor_result_of(body) {
        Some(v) => Ok(v),
        None => Err(Error::Deserialization),
    }
}

impl Add {
    /// The frame contents of this call.
    pub fn envelope(&self) -> (r: Envelope)
        ensures
            r.identity@ == add_id(),
            r.body@ == cbor_pair(self.0, self.1),
    {
        let identity = id_bytes(Add::ID);
        proof {
            reveal_strlit("add");
            vstd::string::is_ascii_spec_bytes("add");
            assert(identity@ =~= add_id());
        }
        Envelope { identity, body: encode_pair(self.0, self.1) }
    }

    /// Reads the output of a call from its encoded result.
    pub fn output(body: &[u8]) -> (r: Result<i32, Error>)
        ensures
            r == spec_add_output(body@),
    {
        match decode_i32(body) {
            Some(v) => Ok(v),
            None => Err(Error::Deserialization),
        }
    }

    /// The outcome of a call from what the connection delivered for it.
    pub fn finish(delivered: Result<Vec<u8>, Error>) -> (r: Result<i32, Error>)
        ensures
            r == match delivered {
                Ok(body) => spec_add_output(body@),
                Err(e) => Err(e),
            },
    {
        match delivered {
            Ok(body) => Add::output(body.as_slice()),
            Err(e) => Err(e),
        }
    }
}

impl TryMultiply {
    /// The frame contents of this call.
    pub fn envelope(&self) -> (r: Envelope)
        ensures
            r.identity@ == try_multiply_id(),
            r.body@ == cbor_pair(self.0, self.1),
    {
        let identity = id_bytes(TryMultiply::ID);
        proof {
            reveal_strlit("try-multiply");
            vstd::string::is_ascii_spec_bytes("try-multiply");
            assert(identity@ =~= try_multiply_id());
        }
        Envelope { identity, body: encode_pair(self.0, self.1) }
    }

    /// Reads the output of a call from its encoded result.
    pub fn output(body: &[u8]) -> (r: Result<Result<i32, ()>, Error>)
        ensures
            r == spec_try_multiply_output(body@),
    {
        match decode_result(body) {
            Some(v) => Ok(v),
            None => Err(Error::Deserialization),
        }
    }

    /// The outcome of a call from what the connection delivered for it,
    /// with the server's failure kept apart from the connection's.
    pub fn try_finish(delivered: Result<Vec<u8>, Error>) -> (r: Result<i32, ErrorFrom<Error, ()>>)
        ensures
            r == match delivered {
                Ok(body) => match spec_try_multiply_output(body@) {
                    Ok(Ok(v)) => Ok(v),
                    Ok(Err(u)) => Err(ErrorFrom::Server(u)),
                    Err(e) => Err(ErrorFrom::Connection(e)),
                },
                Err(e) => Err(ErrorFrom::Connection(e)),
            },
    {
        let decoded = match delivered {
            Ok(body) => TryMultiply::output(body.as_slice()),
            Err(e) => Err(e),
        };
        flatten(decoded)
    }
}

/// The functions `Add` and `TryMultiply` as a server runs them.
#[derive(Copy, Clone, Debug, PartialEq, Eq, Structural)]
pub enum TestServer {
    Add,
    TryMultiply,
}

impl RpcHandler for TestServer {
    open spec fn spec_run(&self, args: Seq<u8>) -> Option<Seq<u8>> {
        match cbor_pair_of(args) {
            None => None,
            Some((a, b)) => Some(
                match self {
                    TestServer::Add => cbor_i32(a.wrapping_add(b)),
                    TestServer::TryMultiply => cbor_result(
                        match a.checked_mul(b) {
                            Some(p) => Ok(p),
                            None => Err(()),
                        },
                    ),
                },
            ),
        }
    }

    fn run(&self, args: &[u8]) -> (r: Option<Vec<u8>>) {
        let (a, b) = match decode_pair(args) {
            Some(p) => p,
            None => {
                return None;
            },
        };
        match self {
            TestServer::Add => Some(encode_i32(a.wrapping_add(b))),
            TestServer::TryMultiply => {
                let p = match a.checked_mul(b) {
                    Some(p) => Ok(p),
                    None => Err(()),
                };
                Some(encode_result(p))
            },
        }
    }
}

} // verus!
