//! Configuration of a StrIEM instance: host address/URL reconciliation, the
//! listener, destination, storage and API sections, and the rule that decides
//! whether a configuration can run.
use vstd::prelude::*;

use crate::net::{IpAddress, SocketAddress};
use crate::url::{url_host_ip, url_host_str, url_parse, url_path, url_port, url_query, url_scheme, url_with_port, Url};

pub mod api;
pub mod input;
pub mod output;
pub mod storage;

use api::ApiConfig;
use input::Listener;
use output::Destination;
use storage::StorageConfig;

verus! {

/// Port of the API server when none is configured.
pub const DEFAULT_API_LISTEN_PORT: u16 = 8080;

/// Port of the Vector gRPC endpoints when none is configured.
pub const DEFAULT_VECTOR_LISTEN_PORT: u16 = 9000;

/// A setting that is either one string or a list of strings
/// (`detections: ./rules` or `detections: [./a, ./b]`).
pub enum StringOrList {
    String(String),
    List(Vec<String>),
}

/// A host's socket address and the URL under which it is reached.
pub struct HostConfig {
    pub address: SocketAddress,
    pub url: Url,
}

/// The URL names this machine: its host is `localhost` or a loopback IP address.
pub open spec fn url_is_local(href: Seq<char>) -> bool {
    ||| url_host_str(href) == Some("localhost"@)
    ||| (url_host_ip(href) matches Some(ip) && ip.spec_is_loopback())
}

/// `after` is what reconciliation makes of the address `address` and URL `href`:
/// - with port 0, the address takes the URL's explicit port, if it has one, and
///   the URL is unchanged;
/// - otherwise the address is unchanged, and a local URL gets the address's
///   port (left as it was if the URL cannot carry a port); other URLs are unchanged.
pub open spec fn reconciled_parts(address: SocketAddress, href: Seq<char>, after: HostConfig) -> bool {
    if address.port == 0 {
        &&& after.url@ == href
        &&& after.address == SocketAddress {
            port: match url_port(href) {
                Some(p) => p,
                None => 0,
            },
            ..address
        }
    } else {
        &&& after.address == address
        &&& after.url@ == (if url_is_local(href) {
            match url_with_port(href, address.port) {
                Some(h) => h,
                None => href,
            }
        } else {
            href
        })
    }
}

/// `after` is `before` reconciled.
pub open spec fn reconciled(before: HostConfig, after: HostConfig) -> bool {
    reconciled_parts(before.address, before.url@, after)
}

/// Reconciling `h` gives `h` back: its address and URL already agree.
pub open spec fn is_reconciled(h: HostConfig) -> bool {
    reconciled(h, h)
}

/// The default address `127.0.0.1:0`.
pub open spec fn is_default_address(a: SocketAddress) -> bool {
    &&& a.ip matches IpAddress::V4(o) && o@ == seq![127u8, 0, 0, 1]
    &&& a.port == 0
    &&& a.flowinfo == 0
    &&& a.scope_id == 0
}

/// The default URL: what `http://localhost` parses to.
pub open spec fn is_default_url(href: Seq<char>) -> bool {
    url_parse("http://localhost"@) == Some(href)
}

/// `h` is the default host settings with their port set to `port`
/// (see [`HostConfig::set_port`]).
pub open spec fn default_host_with_port(port: u16, h: HostConfig) -> bool {
    exists|d: HostConfig|
        #![trigger is_default_address(d.address), is_default_url(d.url@)]
        is_default_address(d.address) && is_default_url(d.url@) && reconciled_parts(
            SocketAddress { port, ..d.address },
            d.url@,
            h,
        )
}

impl HostConfig {
    /// `127.0.0.1:0`
    pub fn default_address() -> (a: SocketAddress)
        ensures
            is_default_address(a),
    {
        SocketAddress::localhost_unbound()
    }

    /// The URL `http://localhost` parses to.
    pub fn default_url() -> (u: Url)
        ensures
            is_default_url(u@),
    {
        Url::localhost()
    }

    /// Sets the address's port and then reconciles address and URL.
    pub fn set_port(self, port: u16) -> (r: Self)
        ensures
            reconciled_parts(SocketAddress { port, ..self.address }, self.url@, r),
            is_reconciled(r),
    {
        let mut h = self;
        h.address.port = port;
        h.reconcile();
        h
    }

    /// Synchronizes the port between the socket address and the URL.
    ///
    /// When the address has port 0, it takes the URL's explicit port. Otherwise,
    /// when the URL's host is `localhost` or a loopback address, the URL takes the
    /// address's port; URLs naming other hosts are never changed. So an address
    /// `0.0.0.0:3000` with the URL `http://localhost` gives `http://localhost:3000/`.
    ///
    /// Only a port is synchronized: the address keeps its IP, and the URL its
    /// scheme, host, path and query; at most one of the two ports changes. A
    /// local URL that can carry a port ends up with the address's port (none
    /// shown when it is the scheme's default). Reconciling is idempotent: the
    /// result is already reconciled.
    pub fn reconcile(&mut self)
        ensures
            reconciled(*old(self), *final(self)),
            final(self).address.ip == old(self).address.ip,
            url_scheme(final(self).url@) == url_scheme(old(self).url@),
            url_host_str(final(self).url@) == url_host_str(old(self).url@),
            url_host_ip(final(self).url@) == url_host_ip(old(self).url@),
            url_path(final(self).url@) == url_path(old(self).url@),
            url_query(final(self).url@) == url_query(old(self).url@),
            final(self).address.port == old(self).address.port || final(self).url@ == old(self).url@,
            old(self).address.port != 0 && url_is_local(old(self).url@) && url_with_port(
                old(self).url@,
                old(self).address.port,
            ) is Some ==> (url_port(final(self).url@) == Some(old(self).address.port) || url_port(
                final(self).url@,
            ) is None),
            is_reconciled(*final(self)),
    {
        proof {
            use_type_invariant(&self.url);
        }
        proof {
            reveal_strlit("localhost");
        }
        if self.address.port == 0 {
            if let Some(port) = self.url.port() {
                self.address.port = port;
            }
        } else {
            let named_localhost = match self.url.host_str() {
                Some(host) => host == String::from_str("localhost"),
                None => false,
            };
            let local = named_localhost || match self.url.host_ip() {
                Some(ip) => ip.is_loopback(),
                None => false,
            };
            if local {
                if let Some(u) = self.url.with_port(self.address.port) {
                    self.url = u;
                }
            }
        }
    }
}

impl Default for HostConfig {
    /// `127.0.0.1:0` reached at `http://localhost/`.
    fn default() -> (r: Self)
        ensures
            is_default_address(r.address),
            is_default_url(r.url@),
    {
        HostConfig { address: HostConfig::default_address(), url: HostConfig::default_url() }
    }
}

/// Why a configuration cannot be used.
#[derive(Debug)]
pub enum ConfigError {
    /// There is no output, no storage and no enabled API: events would have
    /// nowhere to go and nothing could be managed.
    NothingToRun,
}

impl ConfigError {
    /// The error's message.
    pub fn message(&self) -> (s: String)
        ensures
            self is NothingToRun ==> s@ == "No output, storage, or API configured; StrIEM cannot run"@,
    {
        match self {
            ConfigError::NothingToRun => String::from_str(
                "No output, storage, or API configured; StrIEM cannot run",
            ),
        }
    }
}

/// The settings as read from a configuration file and the environment.
pub struct StrIEMConfigOptions {
    /// Path to the source configuration and rule database.
    pub db: String,
    /// Top-level Sigma detection directories.
    pub detections: Option<StringOrList>,
    /// Input listener.
    pub input: Option<Listener>,
    /// Output destination.
    pub output: Option<Destination>,
    /// Storage backend.
    pub storage: Option<StorageConfig>,
    /// API server.
    pub api: Option<ApiConfig>,
    /// Fully qualified domain name of this instance.
    pub fqdn: Option<String>,
}

/// The configuration a StrIEM instance runs with.
pub struct StrIEMConfig {
    pub detections: Option<StringOrList>,
    pub input: Listener,
    pub output: Option<Destination>,
    pub storage: Option<StorageConfig>,
    pub api: ApiConfig,
    pub fqdn: Option<String>,
}

impl StrIEMConfigOptions {
    /// The options leave StrIEM nothing to do: no output, no storage, and no
    /// enabled API.
    pub open spec fn is_unrunnable(self) -> bool {
        &&& self.output is None
        &&& self.storage is None
        &&& !(self.api matches Some(a) && a.enabled)
    }

    /// `c` is the configuration made of these options: the input listener (the
    /// default one when absent) and the output destination reconciled, the API
    /// settings defaulted when absent, everything else carried over.
    pub open spec fn converts_to(self, c: StrIEMConfig) -> bool {
        &&& c.detections == self.detections
        &&& (match self.input {
            Some(l) => Listener::reconciled_from(l, c.input),
            None => exists|d: Listener| #[trigger] d.is_default() && Listener::reconciled_from(d, c.input),
        })
        &&& (match self.output {
            Some(o) => c.output matches Some(co) && Destination::reconciled_from(o, co),
            None => c.output is None,
        })
        &&& c.storage == self.storage
        &&& (match self.api {
            Some(a) => c.api == a,
            None => c.api.is_unset(),
        })
        &&& c.fqdn == self.fqdn
    }

    /// Builds the configuration (see [`StrIEMConfigOptions::converts_to`]).
    pub fn into_config(self) -> (c: StrIEMConfig)
        ensures
            self.converts_to(c),
            c.is_settled(),
    {
        let mut input = match self.input {
            Some(l) => l,
            None => Listener::default(),
        };
        let ghost before = input;
        input.reconcile();
        let output = match self.output {
            Some(o) => {
                let mut o = o;
                o.reconcile();
                Some(o)
            },
            None => None,
        };
        let api = match self.api {
            Some(a) => a,
            None => ApiConfig::default(),
        };
        let c = StrIEMConfig {
            detections: self.detections,
            input,
            output,
            storage: self.storage,
            api,
            fqdn: self.fqdn,
        };
        proof {
            if self.input is None {
                assert(before.is_default() && Listener::reconciled_from(before, c.input));
            }
        }
        c
    }
}

impl StrIEMConfig {
    /// The input listener and the output destination are already reconciled:
    /// reconciling them again changes nothing.
    pub open spec fn is_settled(self) -> bool {
        &&& is_reconciled(self.input.host())
        &&& (self.output matches Some(o) ==> is_reconciled(o.host()))
    }

    /// Refuses options that leave StrIEM nothing to do
    /// (see [`StrIEMConfigOptions::is_unrunnable`]).
    pub fn check(config: &StrIEMConfigOptions) -> (r: Result<(), ConfigError>)
        ensures
            r is Err <==> config.is_unrunnable(),
    {
        let api = match &config.api {
            Some(a) => a.enabled,
            None => false,
        };
        if !(config.output.is_some() || config.storage.is_some()) {
            if !api {
                return Err(ConfigError::NothingToRun);
            }
        }
        Ok(())
    }

    fn from_options(options: StrIEMConfigOptions) -> (r: Result<StrIEMConfig, ConfigError>)
        ensures
            r is Err <==> options.is_unrunnable(),
            r matches Ok(c) ==> options.converts_to(c),
            r matches Ok(c) ==> c.is_settled(),
    {
        match StrIEMConfig::check(&options) {
            Err(e) => Err(e),
            Ok(()) => Ok(options.into_config()),
        }
    }

    /// The configuration from options read from the environment alone.
    pub fn new(options: StrIEMConfigOptions) -> (r: Result<StrIEMConfig, ConfigError>)
        ensures
            r is Err <==> options.is_unrunnable(),
            r matches Ok(c) ==> options.converts_to(c),
            r matches Ok(c) ==> c.is_settled(),
    {
        StrIEMConfig::from_options(options)
    }

    /// The configuration from options read from a file, overridden by the environment.
    pub fn from_file(options: StrIEMConfigOptions) -> (r: Result<StrIEMConfig, ConfigError>)
        ensures
            r is Err <==> options.is_unrunnable(),
            r matches Ok(c) ==> options.converts_to(c),
            r matches Ok(c) ==> c.is_settled(),
    {
        StrIEMConfig::from_options(options)
    }

    /// The configuration from options read from YAML text, overridden by the environment.
    pub fn from_yaml(options: StrIEMConfigOptions) -> (r: Result<StrIEMConfig, ConfigError>)
        ensures
            r is Err <==> options.is_unrunnable(),
            r matches Ok(c) ==> options.converts_to(c),
            r matches Ok(c) ==> c.is_settled(),
    {
        StrIEMConfig::from_options(options)
    }
}

/// Two configurations agree: every setting is the same, text settings and URLs
/// compared by their text.
pub open spec fn configs_agree(a: StrIEMConfig, b: StrIEMConfig) -> bool {
    &&& a.detections == b.detections
    &&& (a.input is Vector <==> b.input is Vector)
    &&& a.input.host().address == b.input.host().address
    &&& a.input.host().url@ == b.input.host().url@
    &&& match (a.output, b.output) {
        (None, None) => true,
        (Some(Destination::Vector(x)), Some(Destination::Vector(y))) => {
            &&& x.cfg.address == y.cfg.address
            &&& x.cfg.url@ == y.cfg.url@
            &&& x.hec == y.hec
            &&& x.http == y.http
        },
        (Some(Destination::Http(x)), Some(Destination::Http(y))) => x.address == y.address && x.url@
            == y.url@,
        _ => false,
    }
    &&& a.storage == b.storage
    &&& a.api.enabled == b.api.enabled
    &&& a.api.address@ == b.api.address@
    &&& a.api.data == b.api.data
    &&& a.api.mcp == b.api.mcp
    &&& a.api.ui == b.api.ui
    &&& a.fqdn == b.fqdn
}

proof fn lemma_reconciled_unique(address: SocketAddress, href: Seq<char>, x: HostConfig, y: HostConfig)
    requires
        reconciled_parts(address, href, x),
        reconciled_parts(address, href, y),
    ensures
        x.address == y.address,
        x.url@ == y.url@,
{
}

proof fn lemma_default_hosts_agree(port: u16, x: HostConfig, y: HostConfig)
    requires
        default_host_with_port(port, x),
        default_host_with_port(port, y),
    ensures
        x.address == y.address,
        x.url@ == y.url@,
{
    let dx = choose|d: HostConfig|
        #![trigger is_default_address(d.address), is_default_url(d.url@)]
        is_default_address(d.address) && is_default_url(d.url@) && reconciled_parts(
            SocketAddress { port, ..d.address },
            d.url@,
            x,
        );
    let dy = choose|d: HostConfig|
        #![trigger is_default_address(d.address), is_default_url(d.url@)]
        is_default_address(d.address) && is_default_url(d.url@) && reconciled_parts(
            SocketAddress { port, ..d.address },
            d.url@,
            y,
        );
    if let (IpAddress::V4(ox), IpAddress::V4(oy)) = (dx.address.ip, dy.address.ip) {
        assert(ox@ =~= oy@);
        assert(ox == oy);
    }
    assert(dx.address == dy.address);
    lemma_reconciled_unique(SocketAddress { port, ..dx.address }, dx.url@, x, y);
}

/// The options decide the configuration: any two configurations made of the
/// same options agree, so `new`, `from_file` and `from_yaml` give the same
/// configuration for the same options (and refuse the same options).
pub proof fn lemma_options_determine_configuration(o: StrIEMConfigOptions, a: StrIEMConfig, b: StrIEMConfig)
    requires
        o.converts_to(a),
        o.converts_to(b),
    ensures
        configs_agree(a, b),
{
    match o.input {
        Some(l) => {
            lemma_reconciled_unique(l.host().address, l.host().url@, a.input.host(), b.input.host());
        },
        None => {
            let da = choose|d: Listener| #[trigger] d.is_default() && Listener::reconciled_from(d, a.input);
            let db = choose|d: Listener| #[trigger] d.is_default() && Listener::reconciled_from(d, b.input);
            lemma_default_hosts_agree(DEFAULT_VECTOR_LISTEN_PORT, da.host(), db.host());
            lemma_reconciled_unique(da.host().address, da.host().url@, a.input.host(), b.input.host());
        },
    }
    match o.output {
        Some(Destination::Vector(v)) => {
            lemma_reconciled_unique(v.cfg.address, v.cfg.url@, a.output->Some_0->Vector_0.cfg, b.output->Some_0->Vector_0.cfg);
        },
        Some(Destination::Http(h)) => {
            lemma_reconciled_unique(h.address, h.url@, a.output->Some_0->Http_0, b.output->Some_0->Http_0);
        },
        None => {},
    }
}

/// Options can run when they have an output destination (Vector or HTTP),
/// storage, or an enabled API; they are refused exactly when they have none.
pub proof fn lemma_runnable(o: StrIEMConfigOptions)
    ensures
        o.output matches Some(Destination::Vector(_)) ==> !o.is_unrunnable(),
        o.output matches Some(Destination::Http(_)) ==> !o.is_unrunnable(),
        o.storage is Some ==> !o.is_unrunnable(),
        (o.api matches Some(a) && a.enabled) ==> !o.is_unrunnable(),
        o.output is None && o.storage is None && (o.api is None || !o.api->Some_0.enabled)
            ==> o.is_unrunnable(),
{
}

} // verus!
