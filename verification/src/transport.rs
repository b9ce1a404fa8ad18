//! Trusted boundary to the transport crate.
//!
//! The pool attaches a lazily-connecting transport endpoint to each
//! connection. Building that endpoint — parsing the address — is the one
//! transport operation that is pure computation, so it is the one the
//! library calls itself, behind the trusted wrapper below. Actually opening
//! the channel and exchanging messages happens on an isolated asynchronous
//! execution context outside the library.

use vstd::prelude::*;

verus! {

#[verifier::external_type_specification]
#[verifier::external_body]
pub struct ExEndpoint(tonic::transport::Endpoint);

#[verifier::external_type_specification]
#[verifier::external_body]
pub struct ExInvalidUri(http::uri::InvalidUri);

/// Whether `http://{ip}:{port}` is an address the transport accepts.
/// This names the outcome of tonic's URI validation; it depends on the
/// characters of `ip` and the value of `port` alone.
pub uninterp spec fn grpc_uri_ok(ip: Seq<char>, port: u16) -> bool;

/// Relies on tonic's `Channel::from_shared`: it returns a lazily-connecting
/// `Endpoint` exactly when the formatted address parses as a URI, and the
/// URI error otherwise. No I/O happens here; the endpoint connects only on
/// first use, outside the library.
#[verifier::external_body]
pub(crate) fn make_grpc_endpoint(ip: &str, port: u16) -> (r: Result<
    tonic::transport::Endpoint,
    http::uri::InvalidUri,
>)
    ensures
        r is Ok <==> grpc_uri_ok(ip@, port),
{
    tonic::transport::Channel::from_shared(format!("http://{}:{}", ip, port))
}

} // verus!
