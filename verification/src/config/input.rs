//! Where StrIEM listens for events.
use vstd::prelude::*;

use super::{HostConfig, DEFAULT_VECTOR_LISTEN_PORT, default_host_with_port, is_reconciled, reconciled};
use crate::net::SocketAddress;

verus! {

/// The listener events arrive on: a Vector gRPC sink or plain HTTP.
pub enum Listener {
    Vector(HostConfig),
    Http(HostConfig),
}

impl Listener {
    /// The host settings of either kind of listener.
    pub open spec fn host(self) -> HostConfig {
        match self {
            Listener::Vector(h) => h,
            Listener::Http(h) => h,
        }
    }

    /// `after` is `before` with its host settings reconciled, of the same kind.
    pub open spec fn reconciled_from(before: Listener, after: Listener) -> bool {
        &&& (before is Vector <==> after is Vector)
        &&& reconciled(before.host(), after.host())
    }

    /// The listener used when none is configured: a Vector listener on
    /// `127.0.0.1:<DEFAULT_VECTOR_LISTEN_PORT>` with the default URL.
    pub open spec fn is_default(self) -> bool {
        self is Vector && default_host_with_port(DEFAULT_VECTOR_LISTEN_PORT, self.host())
    }

    /// Synchronizes the port of address and URL (see [`HostConfig::reconcile`]).
    pub fn reconcile(&mut self)
        ensures
            Listener::reconciled_from(*old(self), *final(self)),
            is_reconciled(final(self).host()),
    {
        match self {
            Listener::Vector(cfg) => {
                cfg.reconcile();
            },
            Listener::Http(cfg) => {
                cfg.reconcile();
            },
        }
    }

    /// The listener's URL as text.
    pub fn url(&self) -> (s: String)
        ensures
            s@ == self.host().url@,
    {
        match self {
            Listener::Vector(cfg) => cfg.url.to_text(),
            Listener::Http(cfg) => cfg.url.to_text(),
        }
    }

    /// The listener's socket address.
    pub fn address(&self) -> (a: SocketAddress)
        ensures
            a == self.host().address,
    {
        match self {
            Listener::Vector(cfg) => cfg.address,
            Listener::Http(cfg) => cfg.address,
        }
    }
}

impl Default for Listener {
    /// See [`Listener::is_default`].
    fn default() -> (r: Self)
        ensures
            r.is_default(),
            is_reconciled(r.host()),
    {
        Listener::Vector(HostConfig::default().set_port(DEFAULT_VECTOR_LISTEN_PORT))
    }
}

} // verus!
