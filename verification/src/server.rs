//! What the API server is set up with, decided from the configuration.
use vstd::prelude::*;

use crate::config::api::ApiConfig;
use crate::config::output::Destination;
use crate::config::{StrIEMConfig, StringOrList, DEFAULT_VECTOR_LISTEN_PORT};
use crate::net::socket_text;
use crate::text::{concat2, decimal, decimal_text};

verus! {

/// The database behind the API.
pub enum DatabasePlan {
    /// A database file at this path.
    File(String),
    /// An in-memory database.
    Memory,
    /// No database.
    Absent,
}

/// The API server's settings derived from the configuration.
pub struct ServerPlan {
    /// The storage directory queries read from.
    pub data: Option<String>,
    /// The database to open: a file `striem.db` in the API's data directory
    /// when one is set, otherwise in memory when storage is configured.
    pub database: DatabasePlan,
    /// The MCP action service, if one is configured.
    pub action_url: Option<String>,
    /// The address Vector's StrIEM sink sends to.
    pub fqdn: String,
    /// Where Vector is reached.
    pub vector: String,
    /// The configured UI directory, when the UI is enabled.
    pub ui_path: Option<String>,
    /// The address the server listens on.
    pub listen: String,
}

/// The MCP service URL: the configured one, or the first of a configured list.
pub open spec fn action_url_of(api: ApiConfig) -> Option<Seq<char>> {
    match api.mcp {
        Some(m) => match m.url {
            StringOrList::String(u) => Some(u@),
            StringOrList::List(l) => if l@.len() > 0 {
                Some(l@[0]@)
            } else {
                None
            },
        },
        None => None,
    }
}

/// Where Vector is reached: the address of a Vector destination, nothing for
/// an HTTP destination, and `0.0.0.0:<DEFAULT_VECTOR_LISTEN_PORT>` without one.
pub open spec fn vector_address_of(config: StrIEMConfig) -> Seq<char> {
    match config.output {
        Some(Destination::Vector(v)) => socket_text(v.cfg.address),
        Some(Destination::Http(_)) => Seq::empty(),
        None => "0.0.0.0:"@ + decimal(DEFAULT_VECTOR_LISTEN_PORT as nat),
    }
}

/// The plan for `config`.
pub open spec fn is_plan_for(config: StrIEMConfig, p: ServerPlan) -> bool {
    &&& (match config.storage {
        Some(s) => p.data matches Some(d) && d@ == s.path@,
        None => p.data is None,
    })
    &&& (match config.api.data {
        Some(d) => p.database matches DatabasePlan::File(f) && f@ == d@ + "/striem.db"@,
        None => if config.storage is Some {
            p.database is Memory
        } else {
            p.database is Absent
        },
    })
    &&& (match action_url_of(config.api) {
        Some(u) => p.action_url matches Some(a) && a@ == u,
        None => p.action_url is None,
    })
    &&& p.fqdn@ == (match config.fqdn {
        Some(f) => f@,
        None => config.input.host().url@,
    })
    &&& p.vector@ == vector_address_of(config)
    &&& (match config.api.ui {
        Some(ui) if ui.enabled => match ui.path {
            Some(path) => p.ui_path matches Some(q) && q@ == path@,
            None => p.ui_path is None,
        },
        _ => p.ui_path is None,
    })
    &&& p.listen@ == config.api.address@
}

/// The server settings for `config` (see [`is_plan_for`]).
pub fn server_plan(config: &StrIEMConfig) -> (p: ServerPlan)
    ensures
        is_plan_for(*config, p),
{
    let data = match &config.storage {
        Some(s) => Some(s.path.clone()),
        None => None,
    };
    let database = match &config.api.data {
        Some(d) => DatabasePlan::File(concat2(d.as_str(), "/striem.db")),
        None => if config.storage.is_some() {
            DatabasePlan::Memory
        } else {
            DatabasePlan::Absent
        },
    };
    let action_url = match &config.api.mcp {
        Some(m) => match &m.url {
            StringOrList::String(u) => Some(u.clone()),
            StringOrList::List(l) => if l.len() > 0 {
                Some(l[0].clone())
            } else {
                None
            },
        },
        None => None,
    };
    let fqdn = match &config.fqdn {
        Some(f) => f.clone(),
        None => config.input.url(),
    };
    let vector = match &config.output {
        Some(Destination::Vector(v)) => v.cfg.address.to_text(),
        Some(Destination::Http(_)) => String::new(),
        None => {
            let port = decimal_text(DEFAULT_VECTOR_LISTEN_PORT as u64);
            concat2("0.0.0.0:", port.as_str())
        },
    };
    let ui_path = match &config.api.ui {
        Some(ui) => if ui.enabled {
            match &ui.path {
                Some(p) => Some(p.clone()),
                None => None,
            }
        } else {
            None
        },
        None => None,
    };
    let listen = config.api.address.clone();
    ServerPlan { data, database, action_url, fqdn, vector, ui_path, listen }
}

/// What the server is set up with, in terms of the configuration:
/// - queries read the storage directory, if storage is configured;
/// - the database is the file `striem.db` in the API's data directory when one
///   is set, otherwise in memory when storage is configured, otherwise none;
/// - the MCP action service is the configured URL, or the first of a
///   configured list (none for an empty list or no MCP settings);
/// - Vector's StrIEM sink sends to the configured FQDN, else the input URL;
/// - Vector is reached at a Vector destination's address, at nothing for an
///   HTTP destination, and at `0.0.0.0:9000` without a destination;
/// - the UI directory is the configured one while the UI is enabled;
/// - the server listens on the API's address.
pub proof fn lemma_plan(config: StrIEMConfig, p: ServerPlan)
    requires
        is_plan_for(config, p),
    ensures
        config.storage matches Some(s) ==> (p.data matches Some(d) && d@ == s.path@),
        config.storage is None ==> p.data is None,
        config.api.data matches Some(d) ==> (p.database matches DatabasePlan::File(f) && f@ == d@
            + "/striem.db"@),
        config.api.data is None && config.storage is Some ==> p.database is Memory,
        config.api.data is None && config.storage is None ==> p.database is Absent,
        config.api.mcp matches Some(m) ==> (m.url matches StringOrList::String(u) ==> (
        p.action_url matches Some(a) && a@ == u@)),
        config.api.mcp matches Some(m) ==> (m.url matches StringOrList::List(l) ==> (l@.len() > 0
            ==> (p.action_url matches Some(a) && a@ == l@[0]@))),
        config.api.mcp matches Some(m) ==> (m.url matches StringOrList::List(l) ==> (l@.len() == 0
            ==> p.action_url is None)),
        config.api.mcp is None ==> p.action_url is None,
        config.fqdn matches Some(f) ==> p.fqdn@ == f@,
        config.fqdn is None ==> p.fqdn@ == config.input.host().url@,
        config.output matches Some(Destination::Vector(v)) ==> p.vector@ == socket_text(v.cfg.address),
        config.output matches Some(Destination::Http(_)) ==> p.vector@.len() == 0,
        config.output is None ==> p.vector@ == "0.0.0.0:9000"@,
        config.api.ui matches Some(ui) ==> (ui.enabled ==> (ui.path matches Some(q) ==> (
        p.ui_path matches Some(r) && r@ == q@))),
        config.api.ui matches Some(ui) ==> (ui.enabled && ui.path is None ==> p.ui_path is None),
        config.api.ui matches Some(ui) ==> (!ui.enabled ==> p.ui_path is None),
        config.api.ui is None ==> p.ui_path is None,
        p.listen@ == config.api.address@,
{
    reveal_strlit("0.0.0.0:");
    reveal_strlit("0.0.0.0:9000");
    assert(decimal(9) == seq!['9']);
    assert(decimal(90) == seq!['9', '0']);
    assert(decimal(900) == seq!['9', '0', '0']);
    assert(decimal(9000) == seq!['9', '0', '0', '0']);
    assert("0.0.0.0:"@ + decimal(9000) =~= "0.0.0.0:9000"@);
}

} // verus!
