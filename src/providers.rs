use vstd::prelude::*;
use vstd::string::StrSliceExecFns;

use crate::dns_providers::{DnsRecord, DnsRecordType};
use crate::ip::{push_char, IpAddress};

verus! {

/// Settings of a DigitalOcean account.
#[derive(Debug, Clone, PartialEq)]
pub struct DigitalOceanBackendConfig {
    pub api_key: String,
}

/// Settings of a CloudFlare zone.
#[derive(Debug, Clone, PartialEq)]
pub struct CloudFlareBackendConfig {
    pub api_token: String,
    pub zone_identifier: String,
    pub zone: String,
}

impl DigitalOceanBackendConfig {
    pub fn copy(&self) -> (r: Self)
        ensures
            r == *self,
    {
        DigitalOceanBackendConfig { api_key: self.api_key.clone() }
    }
}

impl CloudFlareBackendConfig {
    pub fn copy(&self) -> (r: Self)
        ensures
            r == *self,
    {
        CloudFlareBackendConfig {
            api_token: self.api_token.clone(),
            zone_identifier: self.zone_identifier.clone(),
            zone: self.zone.clone(),
        }
    }
}

/// The host part of a name: what comes before its first dot.
pub open spec fn host_label(s: Seq<char>) -> Seq<char>
    decreases s.len(),
{
    if s.len() == 0 || s[0] == '.' {
        seq![]
    } else {
        seq![s[0]] + host_label(s.drop_first())
    }
}

/// The host part of a fully qualified name, as `www` of `www.example.com`.
pub fn short_name(name: &str) -> (r: String)
    ensures
        r@ == host_label(name@),
{
    let len = name.unicode_len();
    let mut out = String::new();
    let mut i: usize = 0;
    assert(name@.subrange(0, len as int) =~= name@);
    while i < len && name.get_char(i) != '.'
        invariant
            i <= len,
            len == name@.len(),
            host_label(name@) == out@ + host_label(name@.subrange(i as int, len as int)),
        decreases len - i,
    {
        let c = name.get_char(i);
        let ghost rest = name@.subrange(i as int, len as int);
        assert(rest.drop_first() =~= name@.subrange(i + 1, len as int));
        push_char(&mut out, c);
        assert(out@ + host_label(name@.subrange(i + 1, len as int)) =~= out@.drop_last() + (
        seq![c] + host_label(rest.drop_first())));
        i = i + 1;
    }
    assert(host_label(name@.subrange(i as int, len as int)) =~= seq![]);
    assert(out@ + seq![] =~= out@);
    out
}

/// The record that a provider's record stands for: its host label as name,
/// and for an address record the type of its family and the address as data;
/// other records are of type `Other` with no data.
pub fn provider_record(name: &str, address: Option<IpAddress>) -> (r: DnsRecord)
    ensures
        r.name@ == host_label(name@),
        match address {
            Some(IpAddress::V4(a)) => r.kind == DnsRecordType::A && r.data@ == a.text(),
            Some(IpAddress::V6(a)) => r.kind == DnsRecordType::AAAA && r.data@ == a.text(),
            None => r.kind == DnsRecordType::Other && r.data@ == Seq::<char>::empty(),
        },
{
    let (kind, data) = match address {
        Some(IpAddress::V4(a)) => (DnsRecordType::A, a.to_text()),
        Some(IpAddress::V6(a)) => (DnsRecordType::AAAA, a.to_text()),
        None => (DnsRecordType::Other, String::new()),
    };
    DnsRecord { kind, name: short_name(name), data }
}

/// Position of the first record named `name`.
pub fn position_by_name(records: &Vec<DnsRecord>, name: &String) -> (r: Option<usize>)
    ensures
        match r {
            Some(i) => i < records@.len() && records@[i as int].name@ == name@ && forall|j: int|
                0 <= j < i ==> (#[trigger] records@[j]).name@ != name@,
            None => forall|j: int|
                0 <= j < records@.len() ==> (#[trigger] records@[j]).name@ != name@,
        },
{
    let mut i: usize = 0;
    while i < records.len()
        invariant
            i <= records@.len(),
            forall|j: int| 0 <= j < i ==> (#[trigger] records@[j]).name@ != name@,
        decreases records.len() - i,
    {
        if records[i].name == *name {
            return Some(i);
        }
        i = i + 1;
    }
    None
}

/// Position of the first record with the name and type of `record`.
pub fn position_of(records: &Vec<DnsRecord>, record: &DnsRecord) -> (r: Option<usize>)
    ensures
        match r {
            Some(i) => i < records@.len() && records@[i as int].name@ == record.name@
                && records@[i as int].kind == record.kind && forall|j: int|
                0 <= j < i ==> !((#[trigger] records@[j]).name@ == record.name@ && records@[j].kind
                    == record.kind),
            None => forall|j: int|
                0 <= j < records@.len() ==> !((#[trigger] records@[j]).name@ == record.name@
                    && records@[j].kind == record.kind),
        },
{
    let mut i: usize = 0;
    while i < records.len()
        invariant
            i <= records@.len(),
            forall|j: int|
                0 <= j < i ==> !((#[trigger] records@[j]).name@ == record.name@ && records@[j].kind
                    == record.kind),
        decreases records.len() - i,
    {
        if records[i].name == record.name && records[i].kind == record.kind {
            return Some(i);
        }
        i = i + 1;
    }
    None
}

} // verus!
