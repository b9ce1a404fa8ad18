//! One pooled connection: a backend server's identity, its weight, its
//! circuit breaker, and an optional lazily-attached transport endpoint.

use vstd::prelude::*;

use crate::breaker::{Breaker, BreakerConfig, BreakerState};
use crate::errors::PoolError;
use crate::transport::{grpc_uri_ok, make_grpc_endpoint};

verus! {

/// Address of one backend server: host plus one port per transport kind.
#[derive(Debug)]
pub struct HostInfo {
    /// IP address or hostname.
    pub ip: String,
    /// Port of the legacy request path.
    pub port: u16,
    /// Port of the rpc transport.
    pub grpc_port: u16,
}

/// Immutable client-identity metadata, sent with every request.
#[derive(Debug)]
pub struct ClientInfo {
    /// Version tag of this client.
    pub client_version: String,
    /// Tenant the client acts for.
    pub tenant: String,
}

impl ClientInfo {
    /// An exact copy; each connection carries its own.
    pub fn duplicate(&self) -> (r: ClientInfo)
        ensures
            r == *self,
    {
        ClientInfo { client_version: self.client_version.clone(), tenant: self.tenant.clone() }
    }
}

/// One pooled connection.
///
/// The transport endpoint is `Some` exactly while the transport has been
/// initialized and not yet closed; it is only ever attached when the
/// connection supports the rpc transport.
pub struct InnerConn {
    /// Identity, unique within one manager.
    pub id: u32,
    /// Relative selection weight, always positive.
    pub weight: u64,
    pub host_info: HostInfo,
    pub breaker: Breaker,
    /// Whether this server offers the rpc transport at all.
    pub support_grpc: bool,
    /// The lazily-connecting transport endpoint, while attached.
    pub channel: Option<tonic::transport::Endpoint>,
    pub client_info: ClientInfo,
}

impl InnerConn {
    /// Internal invariant, established by `new` and preserved by every
    /// operation.
    pub open spec fn wf(self) -> bool {
        &&& self.breaker.wf()
        &&& self.weight >= 1
        &&& (self.channel is Some ==> self.support_grpc)
    }

    /// Do the two values agree on everything but the attached endpoint?
    pub open spec fn same_but_channel(self, other: InnerConn) -> bool {
        &&& other.id == self.id
        &&& other.weight == self.weight
        &&& other.host_info == self.host_info
        &&& other.breaker == self.breaker
        &&& other.support_grpc == self.support_grpc
        &&& other.client_info == self.client_info
    }

    /// The connection after `close_grpc`: the endpoint detached, everything
    /// else untouched.
    pub open spec fn close_step(self) -> InnerConn {
        InnerConn { channel: None, ..self }
    }

    /// May a request be dispatched on this connection right now?
    pub open spec fn dispatchable(self, now_ms: u64) -> bool {
        self.channel is Some && self.breaker.allows(now_ms)
    }

    /// The whole contract of `init_grpc`: how the connection after an init
    /// attempt and the attempt's result relate to the connection before.
    pub open spec fn init_step_ok(self, post: InnerConn, r: Result<(), PoolError>) -> bool {
        if !self.support_grpc || self.channel is Some {
            r is Ok && post == self
        } else if grpc_uri_ok(self.host_info.ip@, self.host_info.grpc_port) {
            r is Ok && post.channel is Some && self.same_but_channel(post)
        } else {
            r == Err::<(), PoolError>(PoolError::ConnectError) && post == self
        }
    }

    /// A fresh connection: weight one, a closed breaker, no transport
    /// attached yet.
    pub fn new(
        id: u32,
        host_info: HostInfo,
        support_grpc: bool,
        breaker_config: BreakerConfig,
        client_info: ClientInfo,
    ) -> (r: InnerConn)
        requires
            breaker_config.wf(),
        ensures
            r.wf(),
            r.id == id,
            r.weight == 1,
            r.host_info == host_info,
            r.support_grpc == support_grpc,
            r.channel is None,
            r.client_info == client_info,
            r.breaker.state is Closed,
            r.breaker.failures == 0,
            r.breaker.config == breaker_config,
    {
        InnerConn {
            id,
            weight: 1,
            host_info,
            breaker: Breaker::new(breaker_config),
            support_grpc,
            channel: None,
            client_info,
        }
    }

    /// Attach the transport endpoint, lazily and at most once.
    ///
    /// A connection without rpc support, or with an endpoint already
    /// attached, is left untouched and reports success. Otherwise the
    /// address is validated: a well-formed address attaches the endpoint,
    /// a malformed one fails with `ConnectError` and changes nothing.
    pub fn init_grpc(&mut self) -> (r: Result<(), PoolError>)
        requires
            old(self).wf(),
        ensures
            final(self).wf(),
            old(self).init_step_ok(*final(self), r),
    {
        if self.support_grpc && self.channel.is_none() {
            match make_grpc_endpoint(self.host_info.ip.as_str(), self.host_info.grpc_port) {
                Ok(endpoint) => {
                    self.channel = Some(endpoint);
                    Ok(())
                },
                Err(_invalid) => Err(PoolError::ConnectError),
            }
        } else {
            Ok(())
        }
    }

    /// Detach the transport endpoint. Idempotent: closing an already-closed
    /// connection succeeds and changes nothing.
    pub fn close_grpc(&mut self) -> (r: Result<(), PoolError>)
        requires
            old(self).wf(),
        ensures
            final(self).wf(),
            r is Ok,
            *final(self) == old(self).close_step(),
            final(self).channel is None,
    {
        if self.support_grpc {
            self.channel = None;
        }
        Ok(())
    }

    /// Admission decision for one outgoing request, made just before the
    /// request is handed to the transport.
    ///
    /// Without an attached transport, or against the breaker's denial, the
    /// request fails with `Unavailable` and the connection — its breaker
    /// included — is left exactly as it was. An admitted request consumes
    /// the breaker's `allow` step (which is what admits a half-open probe).
    pub fn begin_dispatch(&mut self, now_ms: u64) -> (r: Result<(), PoolError>)
        requires
            old(self).wf(),
        ensures
            final(self).wf(),
            old(self).channel is None ==> r == Err::<(), PoolError>(PoolError::Unavailable)
                && *final(self) == *old(self),
            old(self).channel is Some && !old(self).breaker.allows(now_ms) ==> r == Err::<
                (),
                PoolError,
            >(PoolError::Unavailable) && *final(self) == *old(self),
            old(self).dispatchable(now_ms) ==> r is Ok && *final(self) == (InnerConn {
                breaker: old(self).breaker.allow_step(now_ms),
                ..*old(self)
            }),
    {
        if self.channel.is_none() {
            return Err(PoolError::Unavailable);
        }
        if !self.breaker.allow(now_ms) {
            return Err(PoolError::Unavailable);
        }
        Ok(())
    }

    /// Feed one completed request attempt's outcome into the breaker.
    pub fn record_outcome(&mut self, success: bool, now_ms: u64)
        requires
            old(self).wf(),
        ensures
            final(self).wf(),
            *final(self) == (InnerConn {
                breaker: old(self).breaker.record_step(success, now_ms),
                ..*old(self)
            }),
    {
        self.breaker.record(success, now_ms);
    }
}

/// Law: `close_grpc` is idempotent — a second close finds the connection
/// exactly as the first close left it. Together with `close_grpc`'s
/// contract (it always returns `Ok`), closing twice produces no error and
/// no double release.
pub proof fn lemma_close_idempotent(c: InnerConn)
    ensures
        c.close_step().close_step() == c.close_step(),
{
}

} // verus!
