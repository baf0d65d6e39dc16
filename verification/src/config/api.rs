//! API server settings.
use vstd::prelude::*;

use super::{StringOrList, DEFAULT_API_LISTEN_PORT};
use crate::text::{concat2, decimal, decimal_text};

verus! {

/// Where the MCP action service is reached.
pub struct MCPConfig {
    pub url: StringOrList,
}

/// Management UI settings.
pub struct UIConfig {
    pub enabled: bool,
    pub path: Option<String>,
}

/// API server settings.
pub struct ApiConfig {
    pub enabled: bool,
    pub address: String,
    pub data: Option<String>,
    pub mcp: Option<MCPConfig>,
    pub ui: Option<UIConfig>,
}

/// The value a missing `enabled` setting reads as in a configuration file.
pub fn default_enabled() -> (b: bool)
    ensures
        b,
{
    true
}

/// The text of the API's default listen address, `127.0.0.1:<DEFAULT_API_LISTEN_PORT>`.
pub open spec fn default_api_address_text() -> Seq<char> {
    "127.0.0.1:"@ + decimal(DEFAULT_API_LISTEN_PORT as nat)
}

/// The address a missing `address` setting reads as in a configuration file.
pub fn default_address() -> (s: String)
    ensures
        s@ == default_api_address_text(),
{
    let port = decimal_text(DEFAULT_API_LISTEN_PORT as u64);
    concat2("127.0.0.1:", port.as_str())
}

impl Default for UIConfig {
    /// Disabled, with no path.
    fn default() -> (r: Self)
        ensures
            !r.enabled,
            r.path is None,
    {
        UIConfig { enabled: false, path: None }
    }
}

impl ApiConfig {
    /// The settings used when a configuration has no `api` section: every
    /// field at its type's zero value (disabled, empty address, nothing else set).
    pub open spec fn is_unset(self) -> bool {
        &&& !self.enabled
        &&& self.address@ == Seq::<char>::empty()
        &&& self.data is None
        &&& self.mcp is None
        &&& self.ui is None
    }
}

impl Default for ApiConfig {
    /// See [`ApiConfig::is_unset`].
    fn default() -> (r: Self)
        ensures
            r.is_unset(),
    {
        ApiConfig { enabled: false, address: String::new(), data: None, mcp: None, ui: None }
    }
}

} // verus!
