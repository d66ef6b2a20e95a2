use std::cell::RefCell;

use dns_agent::config::ParsedRecord;
use dns_agent::dns_providers::{
    find_matching_interface, plan_updates, update_records, DnsBackend, DnsBackendError, DnsRecord,
    DnsRecordType, RecordAction,
};
use dns_agent::ip::{Ipv4Address, Ipv6Address};
use dns_agent::update::{SystemAddress, SystemAddresses, SystemV4Address, SystemV6Address};

struct MockBackend {
    records: RefCell<Vec<DnsRecord>>,
    fail_fetch: bool,
    fail_writes: bool,
    fetches: RefCell<usize>,
    created: RefCell<Vec<DnsRecord>>,
    updated: RefCell<Vec<(DnsRecord, String)>>,
}

impl MockBackend {
    fn with_records(records: Vec<DnsRecord>) -> MockBackend {
        MockBackend {
            records: RefCell::new(records),
            fail_fetch: false,
            fail_writes: false,
            fetches: RefCell::new(0),
            created: RefCell::new(Vec::new()),
            updated: RefCell::new(Vec::new()),
        }
    }

    fn writes(&self) -> usize {
        self.created.borrow().len() + self.updated.borrow().len()
    }
}

impl DnsBackend for &MockBackend {
    fn zone(&self) -> String {
        "example.com".to_string()
    }

    fn get_zone_records(&self) -> Result<Vec<DnsRecord>, DnsBackendError> {
        *self.fetches.borrow_mut() += 1;
        if self.fail_fetch {
            return Err(DnsBackendError { message: "unreachable provider".to_string() });
        }
        Ok(self.records.borrow().clone())
    }

    fn create_record(&self, record: DnsRecord) -> Result<(), DnsBackendError> {
        if self.fail_writes {
            return Err(DnsBackendError { message: "create refused".to_string() });
        }
        self.records.borrow_mut().push(record.clone());
        self.created.borrow_mut().push(record);
        Ok(())
    }

    fn update_record(&self, record: &DnsRecord, new_data: &str) -> Result<(), DnsBackendError> {
        if self.fail_writes {
            return Err(DnsBackendError { message: "update refused".to_string() });
        }
        for stored in self.records.borrow_mut().iter_mut() {
            if stored.name == record.name && stored.kind == record.kind {
                stored.data = new_data.to_string();
            }
        }
        self.updated.borrow_mut().push((record.clone(), new_data.to_string()));
        Ok(())
    }
}

fn desired(name: &str, record_type: DnsRecordType, interface: &str) -> ParsedRecord {
    ParsedRecord {
        name: name.to_string(),
        record_type,
        interface: interface.to_string(),
    }
}

fn a_record(name: &str, data: &str) -> DnsRecord {
    DnsRecord { kind: DnsRecordType::A, name: name.to_string(), data: data.to_string() }
}

fn v4(interface: &str, a: u8, b: u8, c: u8, d: u8) -> SystemV4Address {
    SystemV4Address { interface: interface.to_string(), address: Ipv4Address::new(a, b, c, d) }
}

fn eth0_snapshot(last: u8) -> SystemAddresses {
    SystemAddresses { v4_addresses: vec![v4("eth0", 10, 1, 1, last)], v6_addresses: Vec::new() }
}

#[test]
fn test_find_matching_interface_match_v4() {
    let record = ParsedRecord {
        name: "test_record".to_string(),
        record_type: DnsRecordType::A,
        interface: "eth0".to_string(),
    };
    let interface = SystemV4Address {
        interface: "eth0".to_string(),
        address: Ipv4Address::new(10, 1, 1, 1),
    };
    let interfaces = SystemAddresses {
        v4_addresses: vec![interface.clone()],
        v6_addresses: Vec::new(),
    };

    let result = find_matching_interface(&record, &interfaces);
    assert_eq!(result.unwrap(), SystemAddress::V4(interface))
}

#[test]
fn test_find_matching_interface_match_v6() {
    let record = ParsedRecord {
        name: "test_record".to_string(),
        record_type: DnsRecordType::AAAA,
        interface: "eth0".to_string(),
    };
    let interface = SystemV6Address {
        interface: "eth0".to_string(),
        address: Ipv6Address::new(0, 0, 0, 0, 0, 0, 0, 1),
    };
    let interfaces = SystemAddresses {
        v4_addresses: Vec::new(),
        v6_addresses: vec![interface.clone()],
    };
    let result = find_matching_interface(&record, &interfaces);
    assert_eq!(result.unwrap(), SystemAddress::V6(interface))
}

#[test]
fn test_find_matching_interface_no_match() {
    let record = ParsedRecord {
        name: "test_record".to_string(),
        record_type: DnsRecordType::A,
        interface: "eth0".to_string(),
    };
    let interface = SystemV4Address {
        interface: "eth1".to_string(),
        address: Ipv4Address::new(10, 1, 1, 1),
    };
    let interfaces = SystemAddresses {
        v4_addresses: vec![interface],
        v6_addresses: Vec::new(),
    };

    let result = find_matching_interface(&record, &interfaces);
    assert_eq!(
        result,
        Err(DnsBackendError {
            message: "Couldn't find interface eth0 in system interfaces".to_string()
        })
    )
}

#[test]
fn find_matching_interface_rejects_other_types() {
    let record = desired("txt", DnsRecordType::TXT, "eth0");
    let result = find_matching_interface(&record, &eth0_snapshot(1));
    assert_eq!(
        result,
        Err(DnsBackendError {
            message: "TXT is not a valid record type, try \"A\" or \"AAAA\"".to_string()
        })
    );
}

#[test]
fn find_matching_interface_takes_last_duplicate() {
    let snapshot = SystemAddresses {
        v4_addresses: vec![v4("eth0", 10, 0, 0, 1), v4("eth1", 10, 0, 0, 2), v4("eth0", 10, 0, 0, 3)],
        v6_addresses: Vec::new(),
    };
    let result = find_matching_interface(&desired("h", DnsRecordType::A, "eth0"), &snapshot);
    assert_eq!(result.unwrap(), SystemAddress::V4(v4("eth0", 10, 0, 0, 3)));
}

#[test]
fn aaaa_never_matches_v4_entries() {
    let snapshot = eth0_snapshot(1);
    let result = find_matching_interface(&desired("h", DnsRecordType::AAAA, "eth0"), &snapshot);
    assert_eq!(
        result,
        Err(DnsBackendError {
            message: "Couldn't find interface eth0 in system interfaces".to_string()
        })
    );
    let both = SystemAddresses {
        v4_addresses: vec![v4("eth0", 10, 1, 1, 1)],
        v6_addresses: vec![SystemV6Address {
            interface: "eth0".to_string(),
            address: Ipv6Address::new(0xfe80, 0, 0, 0, 0, 0, 0, 1),
        }],
    };
    let found = find_matching_interface(&desired("h", DnsRecordType::AAAA, "eth0"), &both).unwrap();
    assert_eq!(found.ip_address().to_text(), "fe80::1");
}

#[test]
fn reconcile_up_to_date_makes_no_writes() {
    let backend = MockBackend::with_records(vec![a_record("host", "10.1.1.1")]);
    let result = update_records(
        &backend,
        vec![desired("host", DnsRecordType::A, "eth0")],
        &eth0_snapshot(1),
    );
    assert_eq!(result, Ok(()));
    assert_eq!(backend.writes(), 0);
    assert_eq!(*backend.fetches.borrow(), 1);
}

#[test]
fn reconcile_creates_absent_record() {
    let backend = MockBackend::with_records(Vec::new());
    let result = update_records(
        &backend,
        vec![desired("host", DnsRecordType::A, "eth0")],
        &eth0_snapshot(1),
    );
    assert_eq!(result, Ok(()));
    assert_eq!(*backend.created.borrow(), vec![a_record("host", "10.1.1.1")]);
    assert!(backend.updated.borrow().is_empty());
}

#[test]
fn reconcile_updates_mismatched_record() {
    let backend = MockBackend::with_records(vec![a_record("host", "10.1.1.1")]);
    let result = update_records(
        &backend,
        vec![desired("host", DnsRecordType::A, "eth0")],
        &eth0_snapshot(2),
    );
    assert_eq!(result, Ok(()));
    assert!(backend.created.borrow().is_empty());
    assert_eq!(
        *backend.updated.borrow(),
        vec![(a_record("host", "10.1.1.1"), "10.1.1.2".to_string())]
    );
}

#[test]
fn reconcile_skips_ambiguous_record_and_continues() {
    let backend = MockBackend::with_records(vec![
        a_record("host", "10.9.9.9"),
        a_record("host", "10.8.8.8"),
    ]);
    let result = update_records(
        &backend,
        vec![
            desired("host", DnsRecordType::A, "eth0"),
            desired("other", DnsRecordType::A, "eth0"),
        ],
        &eth0_snapshot(1),
    );
    assert_eq!(result, Ok(()));
    assert!(backend.updated.borrow().is_empty());
    assert_eq!(*backend.created.borrow(), vec![a_record("other", "10.1.1.1")]);
}

#[test]
fn reconcile_missing_interface_fails_whole_batch() {
    let backend = MockBackend::with_records(Vec::new());
    let result = update_records(
        &backend,
        vec![
            desired("first", DnsRecordType::A, "eth0"),
            desired("broken", DnsRecordType::A, "eth9"),
            desired("last", DnsRecordType::A, "eth0"),
        ],
        &eth0_snapshot(1),
    );
    assert_eq!(
        result,
        Err(DnsBackendError {
            message: "Couldn't find interface eth9 in system interfaces".to_string()
        })
    );
    assert_eq!(backend.writes(), 0);
}

#[test]
fn reconcile_propagates_fetch_failure() {
    let mut backend = MockBackend::with_records(Vec::new());
    backend.fail_fetch = true;
    let result = update_records(
        &backend,
        vec![desired("host", DnsRecordType::A, "eth0")],
        &eth0_snapshot(1),
    );
    assert_eq!(result, Err(DnsBackendError { message: "unreachable provider".to_string() }));
    assert_eq!(backend.writes(), 0);
}

#[test]
fn reconcile_propagates_write_failure() {
    let mut backend = MockBackend::with_records(Vec::new());
    backend.fail_writes = true;
    let result = update_records(
        &backend,
        vec![desired("host", DnsRecordType::A, "eth0")],
        &eth0_snapshot(1),
    );
    assert_eq!(result, Err(DnsBackendError { message: "create refused".to_string() }));
}

#[test]
fn reconcile_matches_on_name_and_type() {
    let backend = MockBackend::with_records(vec![
        DnsRecord {
            kind: DnsRecordType::AAAA,
            name: "host".to_string(),
            data: "::1".to_string(),
        },
        a_record("host.example.com", "10.1.1.1"),
    ]);
    let result = update_records(
        &backend,
        vec![desired("host", DnsRecordType::A, "eth0")],
        &eth0_snapshot(1),
    );
    assert_eq!(result, Ok(()));
    assert_eq!(*backend.created.borrow(), vec![a_record("host", "10.1.1.1")]);
}

#[test]
fn plan_lists_one_action_per_record() {
    let current = vec![
        a_record("same", "10.1.1.1"),
        a_record("stale", "10.0.0.9"),
        a_record("twice", "1.1.1.1"),
        a_record("twice", "2.2.2.2"),
    ];
    let records = vec![
        desired("same", DnsRecordType::A, "eth0"),
        desired("stale", DnsRecordType::A, "eth0"),
        desired("twice", DnsRecordType::A, "eth0"),
        desired("new", DnsRecordType::A, "eth0"),
    ];
    let plan = plan_updates(&records, &current, &eth0_snapshot(1)).unwrap();
    assert_eq!(
        plan,
        vec![
            RecordAction::Unchanged,
            RecordAction::Update(a_record("stale", "10.0.0.9"), "10.1.1.1".to_string()),
            RecordAction::Ambiguous,
            RecordAction::Create(a_record("new", "10.1.1.1")),
        ]
    );
}

#[test]
fn backend_error_text_is_its_message() {
    let e = DnsBackendError { message: "boom".to_string() };
    assert_eq!(e.to_string(), "boom");
}

#[test]
fn record_accessors() {
    let r = a_record("host", "10.1.1.1");
    assert_eq!(r.name(), "host");
    assert_eq!(r.data(), "10.1.1.1");
    assert_eq!(r.kind(), DnsRecordType::A);
}

#[test]
fn record_type_from_name() {
    assert_eq!(DnsRecordType::from("A"), DnsRecordType::A);
    assert_eq!(DnsRecordType::from("AAAA"), DnsRecordType::AAAA);
    assert_eq!(DnsRecordType::from("TXT"), DnsRecordType::TXT);
    assert_eq!(DnsRecordType::from("NS"), DnsRecordType::NS);
    assert_eq!(DnsRecordType::from("SRV"), DnsRecordType::SRV);
    assert_eq!(DnsRecordType::from("a"), DnsRecordType::Other);
    assert_eq!(DnsRecordType::from("MX"), DnsRecordType::Other);
    assert_eq!(DnsRecordType::AAAA.name(), "AAAA");
    assert_eq!(DnsRecordType::Other.name(), "Other");
}

#[test]
fn reconcile_twice_writes_once() {
    let backend = MockBackend::with_records(vec![a_record("stale", "10.0.0.9")]);
    let records = vec![
        desired("stale", DnsRecordType::A, "eth0"),
        desired("new", DnsRecordType::A, "eth0"),
    ];
    let snapshot = eth0_snapshot(7);
    assert_eq!(update_records(&backend, records.clone(), &snapshot), Ok(()));
    assert_eq!(backend.writes(), 2);
    assert_eq!(update_records(&backend, records, &snapshot), Ok(()));
    assert_eq!(backend.writes(), 2);
    assert_eq!(
        *backend.records.borrow(),
        vec![a_record("stale", "10.1.1.7"), a_record("new", "10.1.1.7")]
    );
}
