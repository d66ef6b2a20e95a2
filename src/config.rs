use vstd::prelude::*;
use vstd::string::StringExecFns;

use crate::dns_providers::{record_type_of, DnsBackendError, DnsRecordType};
use crate::providers::{CloudFlareBackendConfig, DigitalOceanBackendConfig};

verus! {

/// Marker for the settings of one DNS provider.
pub trait BackendConfig {

}

impl BackendConfig for DigitalOceanBackendConfig {

}

impl BackendConfig for CloudFlareBackendConfig {

}

/// The whole configuration: global settings and the managed domains.
#[derive(Debug, Clone, PartialEq)]
pub struct Config {
    pub settings: Option<Settings>,
    pub domains: Vec<DomainConfig>,
}

/// Global settings.
#[derive(Debug, Clone, PartialEq)]
pub struct Settings {
    pub external_ipv4_check_url: Option<String>,
}

/// One managed domain as configured: its provider and its records.
#[derive(Debug, Clone, PartialEq)]
pub struct DomainConfig {
    pub name: String,
    pub digital_ocean_backend: Option<DigitalOceanBackendConfig>,
    pub cloudflare_backend: Option<CloudFlareBackendConfig>,
    pub records: Vec<Record>,
}

/// A domain whose records carry a parsed type and a definite interface.
#[derive(Debug, Clone, PartialEq)]
pub struct ParsedDomainConfig {
    pub name: String,
    pub digital_ocean_backend: Option<DigitalOceanBackendConfig>,
    pub cloudflare_backend: Option<CloudFlareBackendConfig>,
    pub records: Vec<ParsedRecord>,
}

/// A record as configured; without an interface the default one is meant.
#[derive(Debug, Clone, PartialEq)]
pub struct Record {
    pub name: String,
    pub record_type: String,
    pub interface: Option<String>,
}

/// A desired record: a host name, a record type and the interface whose
/// address the record should hold.
#[derive(Debug, Clone, PartialEq)]
pub struct ParsedRecord {
    pub name: String,
    pub record_type: DnsRecordType,
    pub interface: String,
}

/// The desired record that a configured record stands for.
pub open spec fn parsed_record_of(r: Record, default_interface: Seq<char>) -> (
    Seq<char>,
    DnsRecordType,
    Seq<char>,
) {
    (
        r.name@,
        record_type_of(r.record_type@),
        match r.interface {
            Some(i) => i@,
            None => default_interface,
        },
    )
}

impl ParsedRecord {
    pub open spec fn view(&self) -> (Seq<char>, DnsRecordType, Seq<char>) {
        (self.name@, self.record_type, self.interface@)
    }
}

impl Record {
    /// The desired record, with `default_interface` where none is given.
    pub fn parse(&self, default_interface: &str) -> (r: ParsedRecord)
        ensures
            r.view() == parsed_record_of(*self, default_interface@),
    {
        let interface = match &self.interface {
            Some(i) => i.clone(),
            None => String::from_str(default_interface),
        };
        ParsedRecord {
            name: self.name.clone(),
            record_type: DnsRecordType::from(self.record_type.as_str()),
            interface,
        }
    }
}

impl DomainConfig {
    /// Parses every record's type and fills in the default interface name
    /// where a record names none; the rest is carried over.
    pub fn parse_config(&self, default_interface: &str) -> (r: ParsedDomainConfig)
        ensures
            r.name@ == self.name@,
            r.digital_ocean_backend == self.digital_ocean_backend,
            r.cloudflare_backend == self.cloudflare_backend,
            r.records@.len() == self.records@.len(),
            forall|i: int|
                0 <= i < r.records@.len() ==> #[trigger] r.records@[i].view() == parsed_record_of(
                    self.records@[i],
                    default_interface@,
                ),
    {
        let mut records: Vec<ParsedRecord> = Vec::new();
        let mut i: usize = 0;
        while i < self.records.len()
            invariant
                i <= self.records@.len(),
                records@.len() == i,
                forall|j: int|
                    0 <= j < i ==> #[trigger] records@[j].view() == parsed_record_of(
                        self.records@[j],
                        default_interface@,
                    ),
            decreases self.records.len() - i,
        {
            records.push(self.records[i].parse(default_interface));
            i = i + 1;
        }
        let digital_ocean_backend = match &self.digital_ocean_backend {
            Some(c) => Some(c.copy()),
            None => None,
        };
        let cloudflare_backend = match &self.cloudflare_backend {
            Some(c) => Some(c.copy()),
            None => None,
        };
        ParsedDomainConfig {
            name: self.name.clone(),
            digital_ocean_backend,
            cloudflare_backend,
            records,
        }
    }
}

/// The provider that a domain is to be reconciled with.
#[derive(Debug, Clone, PartialEq)]
pub enum ProviderChoice {
    DigitalOcean(DigitalOceanBackendConfig),
    CloudFlare(CloudFlareBackendConfig),
}

/// Message for a domain that names no provider.
pub open spec fn no_backend_message(domain: Seq<char>) -> Seq<char> {
    "No dns backend configured for: "@ + domain
}

impl ParsedDomainConfig {
    /// The domain's provider: DigitalOcean when its settings are given, else
    /// CloudFlare; an error when neither is.
    pub fn provider(&self) -> (r: Result<ProviderChoice, DnsBackendError>)
        ensures
            match r {
                Ok(ProviderChoice::DigitalOcean(c)) => self.digital_ocean_backend == Some(c),
                Ok(ProviderChoice::CloudFlare(c)) => self.digital_ocean_backend is None
                    && self.cloudflare_backend == Some(c),
                Err(e) => self.digital_ocean_backend is None && self.cloudflare_backend is None
                    && e.message@ == no_backend_message(self.name@),
            },
    {
        match &self.digital_ocean_backend {
            Some(c) => Ok(ProviderChoice::DigitalOcean(c.copy())),
            None => match &self.cloudflare_backend {
                Some(c) => Ok(ProviderChoice::CloudFlare(c.copy())),
                None => {
                    let mut message = String::from_str("No dns backend configured for: ");
                    message.append(self.name.as_str());
                    Err(DnsBackendError { message })
                },
            },
        }
    }
}

} // verus!
