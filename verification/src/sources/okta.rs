//! Okta system log source.
use vstd::prelude::*;

use super::Source;

verus! {

/// Settings of an Okta source.
pub struct OktaConfig {
    /// The Vector source type.
    pub _type: String,
    pub domain: String,
    pub token: String,
    pub scrape_interval_secs: Option<u64>,
    pub scrape_timeout_secs: Option<u64>,
    pub since: Option<u64>,
}

impl OktaConfig {
    /// The settings read for an Okta source; its Vector source type is `okta`.
    pub fn from_fields(
        domain: String,
        token: String,
        scrape_interval_secs: Option<u64>,
        scrape_timeout_secs: Option<u64>,
        since: Option<u64>,
    ) -> (c: Self)
        ensures
            c._type@ == "okta"@,
            c.domain == domain,
            c.token == token,
            c.scrape_interval_secs == scrape_interval_secs,
            c.scrape_timeout_secs == scrape_timeout_secs,
            c.since == since,
    {
        OktaConfig {
            _type: String::from_str("okta"),
            domain,
            token,
            scrape_interval_secs,
            scrape_timeout_secs,
            since,
        }
    }

    /// The Vector source type.
    pub fn source_type(&self) -> (s: &String)
        ensures
            s@ == self._type@,
    {
        &self._type
    }
}

/// An Okta source.
pub struct Okta {
    id: String,
    config: OktaConfig,
}

impl Okta {
    /// An Okta source with this identifier and these settings.
    pub fn new(id: String, config: OktaConfig) -> (o: Self)
        ensures
            o.id_view() == id@,
            o.config_view() == config,
    {
        Okta { id, config }
    }

    /// The identifier.
    pub closed spec fn id_view(&self) -> Seq<char> {
        self.id@
    }

    /// The settings.
    pub closed spec fn config_view(&self) -> OktaConfig {
        self.config
    }

    /// The settings.
    pub fn config(&self) -> (c: &OktaConfig)
        ensures
            *c == self.config_view(),
    {
        &self.config
    }
}

impl Source for Okta {
    fn id(&self) -> (s: String)
        ensures
            s@ == self.id_view(),
    {
        self.id.clone()
    }

    /// The Okta domain.
    fn friendly_id(&self) -> (s: String)
        ensures
            s@ == self.config_view().domain@,
    {
        self.config.domain.clone()
    }

    fn sourcetype(&self) -> (s: String)
        ensures
            s@ == "okta"@,
    {
        String::from_str("okta")
    }

    fn logsource_vendor(&self) -> (s: Option<String>)
        ensures
            s matches Some(v) && v@ == "okta"@,
    {
        Some(String::from_str("okta"))
    }

    fn logsource_product(&self) -> (s: Option<String>)
        ensures
            s matches Some(v) && v@ == "audit"@,
    {
        Some(String::from_str("audit"))
    }
}

} // verus!
