//! Where StrIEM sends events.
use vstd::prelude::*;

use super::{HostConfig, DEFAULT_VECTOR_LISTEN_PORT, default_host_with_port, is_reconciled, reconciled};

verus! {

/// A Vector destination, with optional extra HEC and HTTP listeners for Vector.
pub struct VectorDestinationConfig {
    pub cfg: HostConfig,
    pub hec: Option<HostConfig>,
    pub http: Option<HostConfig>,
}

/// The destination events are forwarded to.
pub enum Destination {
    Vector(VectorDestinationConfig),
    Http(HostConfig),
}

impl Destination {
    /// The main host settings: a Vector destination's, or the HTTP one.
    pub open spec fn host(self) -> HostConfig {
        match self {
            Destination::Vector(v) => v.cfg,
            Destination::Http(h) => h,
        }
    }

    /// `after` is `before` with its main host settings reconciled; the HEC and
    /// HTTP settings of a Vector destination are left as they were.
    pub open spec fn reconciled_from(before: Destination, after: Destination) -> bool {
        match (before, after) {
            (Destination::Vector(b), Destination::Vector(a)) => {
                &&& reconciled(b.cfg, a.cfg)
                &&& a.hec == b.hec
                &&& a.http == b.http
            },
            (Destination::Http(b), Destination::Http(a)) => reconciled(b, a),
            _ => false,
        }
    }

    /// The destination used by default: Vector at `127.0.0.1:<DEFAULT_VECTOR_LISTEN_PORT>`
    /// with the default URL, and no HEC or HTTP listener.
    pub open spec fn is_default(self) -> bool {
        &&& self matches Destination::Vector(v)
        &&& default_host_with_port(DEFAULT_VECTOR_LISTEN_PORT, v.cfg)
        &&& v.hec is None
        &&& v.http is None
    }

    /// Synchronizes the port of address and URL of the main host settings
    /// (see [`HostConfig::reconcile`]).
    pub fn reconcile(&mut self)
        ensures
            Destination::reconciled_from(*old(self), *final(self)),
            is_reconciled(final(self).host()),
    {
        match self {
            Destination::Vector(v) => v.cfg.reconcile(),
            Destination::Http(cfg) => cfg.reconcile(),
        }
    }
}

impl Default for Destination {
    /// See [`Destination::is_default`].
    fn default() -> (r: Self)
        ensures
            r.is_default(),
    {
        Destination::Vector(
            VectorDestinationConfig {
                cfg: HostConfig::default().set_port(DEFAULT_VECTOR_LISTEN_PORT),
                hec: None,
                http: None,
            },
        )
    }
}

} // verus!
