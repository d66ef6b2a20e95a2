use vstd::prelude::*;
use vstd::string::StringExecFns;

use crate::ip::{IpAddress, Ipv4Address, Ipv6Address};

verus! {

/// One address of a local network interface, as the host reports it.
#[derive(Debug, PartialEq, Clone)]
pub struct InterfaceAddress {
    pub name: String,
    pub address: IpAddress,
}

/// An IPv4 address of a named interface.
#[derive(Debug, PartialEq, Clone)]
pub struct SystemV4Address {
    pub interface: String,
    pub address: Ipv4Address,
}

/// An IPv6 address of a named interface.
#[derive(Debug, PartialEq, Clone)]
pub struct SystemV6Address {
    pub interface: String,
    pub address: Ipv6Address,
}

/// An address found for a record, of either family.
#[derive(Debug, PartialEq)]
pub enum SystemAddress {
    V4(SystemV4Address),
    V6(SystemV6Address),
}

/// The addresses known on this host, by family, in the order they were found.
#[derive(Debug, PartialEq, Clone)]
pub struct SystemAddresses {
    pub v4_addresses: Vec<SystemV4Address>,
    pub v6_addresses: Vec<SystemV6Address>,
}

impl View for SystemV4Address {
    type V = (Seq<char>, Ipv4Address);

    open spec fn view(&self) -> (Seq<char>, Ipv4Address) {
        (self.interface@, self.address)
    }
}

impl View for SystemV6Address {
    type V = (Seq<char>, Ipv6Address);

    open spec fn view(&self) -> (Seq<char>, Ipv6Address) {
        (self.interface@, self.address)
    }
}

impl View for SystemAddress {
    type V = (Seq<char>, IpAddress);

    /// The interface name and the address.
    open spec fn view(&self) -> (Seq<char>, IpAddress) {
        match self {
            SystemAddress::V4(a) => (a.interface@, IpAddress::V4(a.address)),
            SystemAddress::V6(a) => (a.interface@, IpAddress::V6(a.address)),
        }
    }
}

/// Name of the entry that holds the externally discovered IPv4 address.
pub open spec fn external_name() -> Seq<char> {
    "external"@
}

/// The IPv4 entries among the interface addresses, in order.
pub open spec fn v4_entries(ifs: Seq<InterfaceAddress>) -> Seq<(Seq<char>, Ipv4Address)>
    decreases ifs.len(),
{
    if ifs.len() == 0 {
        seq![]
    } else {
        let rest = v4_entries(ifs.drop_last());
        match ifs.last().address {
            IpAddress::V4(a) => rest.push((ifs.last().name@, a)),
            IpAddress::V6(_) => rest,
        }
    }
}

/// The IPv6 entries among the interface addresses, in order.
pub open spec fn v6_entries(ifs: Seq<InterfaceAddress>) -> Seq<(Seq<char>, Ipv6Address)>
    decreases ifs.len(),
{
    if ifs.len() == 0 {
        seq![]
    } else {
        let rest = v6_entries(ifs.drop_last());
        match ifs.last().address {
            IpAddress::V6(a) => rest.push((ifs.last().name@, a)),
            IpAddress::V4(_) => rest,
        }
    }
}

impl SystemAddresses {
    pub open spec fn v4_view(&self) -> Seq<(Seq<char>, Ipv4Address)> {
        self.v4_addresses@.map_values(|x: SystemV4Address| x@)
    }

    pub open spec fn v6_view(&self) -> Seq<(Seq<char>, Ipv6Address)> {
        self.v6_addresses@.map_values(|x: SystemV6Address| x@)
    }

    /// Sorts the interface addresses by family, keeping their order, and
    /// appends the externally discovered address, if any, to the IPv4 list
    /// under the name `external`.
    pub fn new(interfaces: Vec<InterfaceAddress>, external_address: Option<Ipv4Address>) -> (r:
        Self)
        ensures
            r.v4_view() == v4_entries(interfaces@) + match external_address {
                Some(a) => seq![(external_name(), a)],
                None => seq![],
            },
            r.v6_view() == v6_entries(interfaces@),
    {
        let mut v4: Vec<SystemV4Address> = Vec::new();
        let mut v6: Vec<SystemV6Address> = Vec::new();
        let mut i: usize = 0;
        assert(interfaces@.subrange(0, 0) =~= Seq::<InterfaceAddress>::empty());
        assert(v4@.map_values(|x: SystemV4Address| x@) =~= seq![]);
        assert(v6@.map_values(|x: SystemV6Address| x@) =~= seq![]);
        while i < interfaces.len()
            invariant
                i <= interfaces@.len(),
                v4@.map_values(|x: SystemV4Address| x@) == v4_entries(
                    interfaces@.subrange(0, i as int),
                ),
                v6@.map_values(|x: SystemV6Address| x@) == v6_entries(
                    interfaces@.subrange(0, i as int),
                ),
            decreases interfaces.len() - i,
        {
            let entry = &interfaces[i];
            let ghost prefix = interfaces@.subrange(0, i + 1);
            assert(prefix.drop_last() =~= interfaces@.subrange(0, i as int));
            assert(prefix.last() == interfaces@[i as int]);
            match entry.address {
                IpAddress::V4(a) => {
                    let ghost before = v4@;
                    v4.push(SystemV4Address { interface: entry.name.clone(), address: a });
                    assert(v4@.map_values(|x: SystemV4Address| x@) =~= before.map_values(
                        |x: SystemV4Address| x@,
                    ).push((entry.name@, a)));
                },
                IpAddress::V6(a) => {
                    let ghost before = v6@;
                    v6.push(SystemV6Address { interface: entry.name.clone(), address: a });
                    assert(v6@.map_values(|x: SystemV6Address| x@) =~= before.map_values(
                        |x: SystemV6Address| x@,
                    ).push((entry.name@, a)));
                },
            }
            i = i + 1;
        }
        assert(interfaces@.subrange(0, interfaces@.len() as int) =~= interfaces@);
        let ghost local = v4@.map_values(|x: SystemV4Address| x@);
        match external_address {
            Some(a) => {
                v4.push(SystemV4Address { interface: String::from_str("external"), address: a });
                assert(v4@.map_values(|x: SystemV4Address| x@) =~= local + seq![
                    (external_name(), a),
                ]);
            },
            None => {
                assert(local + seq![] =~= local);
            },
        }
        SystemAddresses { v4_addresses: v4, v6_addresses: v6 }
    }
}

} // verus!
