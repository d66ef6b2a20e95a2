use vstd::prelude::*;
use vstd::string::StringExecFns;

use crate::config::ParsedRecord;
use crate::ip::{IpAddress, Ipv4Address, Ipv6Address};
use crate::update::{SystemAddress, SystemAddresses, SystemV4Address, SystemV6Address};

verus! {

/// The type of a DNS record.
#[derive(Debug, Clone, Copy, PartialEq, Eq, Structural)]
pub enum DnsRecordType {
    A,
    AAAA,
    TXT,
    NS,
    SRV,
    Other,
}

/// The record type that a name stands for; unknown names give `Other`.
pub open spec fn record_type_of(s: Seq<char>) -> DnsRecordType {
    if s == "A"@ {
        DnsRecordType::A
    } else if s == "AAAA"@ {
        DnsRecordType::AAAA
    } else if s == "TXT"@ {
        DnsRecordType::TXT
    } else if s == "NS"@ {
        DnsRecordType::NS
    } else if s == "SRV"@ {
        DnsRecordType::SRV
    } else {
        DnsRecordType::Other
    }
}

/// The name of a record type.
pub open spec fn record_type_text(t: DnsRecordType) -> Seq<char> {
    match t {
        DnsRecordType::A => "A"@,
        DnsRecordType::AAAA => "AAAA"@,
        DnsRecordType::TXT => "TXT"@,
        DnsRecordType::NS => "NS"@,
        DnsRecordType::SRV => "SRV"@,
        DnsRecordType::Other => "Other"@,
    }
}

fn text_is(value: &str, name: &str) -> (r: bool)
    ensures
        r == (value@ == name@),
{
    value.to_owned() == name.to_owned()
}

impl<'a> From<&'a str> for DnsRecordType {
    fn from(value: &'a str) -> Self {
        if text_is(value, "A") {
            DnsRecordType::A
        } else if text_is(value, "AAAA") {
            DnsRecordType::AAAA
        } else if text_is(value, "TXT") {
            DnsRecordType::TXT
        } else if text_is(value, "NS") {
            DnsRecordType::NS
        } else if text_is(value, "SRV") {
            DnsRecordType::SRV
        } else {
            DnsRecordType::Other
        }
    }
}

impl<'a> vstd::std_specs::convert::FromSpecImpl<&'a str> for DnsRecordType {
    open spec fn obeys_from_spec() -> bool {
        true
    }

    open spec fn from_spec(v: &'a str) -> DnsRecordType {
        record_type_of(v@)
    }
}

impl DnsRecordType {
    /// The name of the type, as `AAAA`.
    pub fn name(&self) -> (r: String)
        ensures
            r@ == record_type_text(*self),
    {
        match self {
            DnsRecordType::A => String::from_str("A"),
            DnsRecordType::AAAA => String::from_str("AAAA"),
            DnsRecordType::TXT => String::from_str("TXT"),
            DnsRecordType::NS => String::from_str("NS"),
            DnsRecordType::SRV => String::from_str("SRV"),
            DnsRecordType::Other => String::from_str("Other"),
        }
    }
}

/// A record as the provider stores it.
#[derive(Debug, Clone, PartialEq)]
pub struct DnsRecord {
    pub kind: DnsRecordType,
    pub name: String,
    pub data: String,
}

/// A record as type, name and data.
pub type RecordView = (DnsRecordType, Seq<char>, Seq<char>);

impl View for DnsRecord {
    type V = RecordView;

    open spec fn view(&self) -> RecordView {
        (self.kind, self.name@, self.data@)
    }
}

impl DnsRecord {
    pub fn kind(&self) -> (r: DnsRecordType)
        ensures
            r == self.kind,
    {
        self.kind
    }

    pub fn name(&self) -> (r: String)
        ensures
            r@ == self.name@,
    {
        self.name.clone()
    }

    pub fn data(&self) -> (r: String)
        ensures
            r@ == self.data@,
    {
        self.data.clone()
    }

    fn copy(&self) -> (r: DnsRecord)
        ensures
            r@ == self@,
    {
        DnsRecord { kind: self.kind, name: self.name.clone(), data: self.data.clone() }
    }
}

/// A failure of resolution or of a provider, with a readable message.
#[derive(Debug, PartialEq)]
pub struct DnsBackendError {
    pub message: String,
}

impl DnsBackendError {
    /// The message of the error.
    pub fn to_string(&self) -> (r: String)
        ensures
            r@ == self.message@,
    {
        self.message.clone()
    }
}

/// A DNS provider that holds the records of one zone.
pub trait DnsBackend {
    /// The zone that this backend manages.
    fn zone(&self) -> String;

    /// Every record of the zone, of any type.
    fn get_zone_records(&self) -> Result<Vec<DnsRecord>, DnsBackendError>;

    /// Creates the record at the provider's default time to live.
    fn create_record(&self, record: DnsRecord) -> Result<(), DnsBackendError>;

    /// Sets the data of an existing record.
    fn update_record(&self, record: &DnsRecord, new_data: &str) -> Result<(), DnsBackendError>;
}

/// Message of a failed lookup of an interface.
pub open spec fn interface_not_found(interface: Seq<char>) -> Seq<char> {
    "Couldn't find interface "@ + interface + " in system interfaces"@
}

/// Message for a record type that has no address family.
pub open spec fn unsupported_type(t: DnsRecordType) -> Seq<char> {
    record_type_text(t) + " is not a valid record type, try \"A\" or \"AAAA\""@
}

/// Position of the last name equal to `name`.
pub open spec fn last_match(names: Seq<Seq<char>>, name: Seq<char>) -> Option<int>
    decreases names.len(),
{
    if names.len() == 0 {
        None
    } else if names.last() == name {
        Some(names.len() - 1)
    } else {
        last_match(names.drop_last(), name)
    }
}

pub open spec fn v4_names(snap: SystemAddresses) -> Seq<Seq<char>> {
    snap.v4_addresses@.map_values(|a: SystemV4Address| a.interface@)
}

pub open spec fn v6_names(snap: SystemAddresses) -> Seq<Seq<char>> {
    snap.v6_addresses@.map_values(|a: SystemV6Address| a.interface@)
}

/// The interface and address that back a record of type `t` on `interface`:
/// `A` looks in the IPv4 list, `AAAA` in the IPv6 list, and the last entry of
/// that name wins. Other types have no address. Errors are messages.
pub open spec fn resolve(t: DnsRecordType, interface: Seq<char>, snap: SystemAddresses) -> Result<
    (Seq<char>, IpAddress),
    Seq<char>,
> {
    match t {
        DnsRecordType::A => match last_match(v4_names(snap), interface) {
            Some(i) => Ok((interface, IpAddress::V4(snap.v4_addresses@[i].address))),
            None => Err(interface_not_found(interface)),
        },
        DnsRecordType::AAAA => match last_match(v6_names(snap), interface) {
            Some(i) => Ok((interface, IpAddress::V6(snap.v6_addresses@[i].address))),
            None => Err(interface_not_found(interface)),
        },
        _ => Err(unsupported_type(t)),
    }
}

pub open spec fn resolve_record(r: ParsedRecord, snap: SystemAddresses) -> Result<
    (Seq<char>, IpAddress),
    Seq<char>,
> {
    resolve(r.record_type, r.interface@, snap)
}

/// Text of the address that a record resolves to.
pub open spec fn resolved_text(r: ParsedRecord, snap: SystemAddresses) -> Seq<char> {
    match resolve_record(r, snap) {
        Ok(found) => found.1.text(),
        Err(_) => seq![],
    }
}

impl SystemAddress {
    /// The address, without its interface.
    pub fn ip_address(&self) -> (r: IpAddress)
        ensures
            r == self@.1,
    {
        match self {
            SystemAddress::V4(a) => IpAddress::V4(a.address),
            SystemAddress::V6(a) => IpAddress::V6(a.address),
        }
    }
}

fn last_v4_index(v: &Vec<SystemV4Address>, name: &String) -> (r: Option<usize>)
    ensures
        match r {
            Some(i) => last_match(v@.map_values(|a: SystemV4Address| a.interface@), name@) == Some(
                i as int,
            ) && i < v@.len() && v@[i as int].interface@ == name@,
            None => last_match(v@.map_values(|a: SystemV4Address| a.interface@), name@) is None,
        },
{
    let ghost names = v@.map_values(|a: SystemV4Address| a.interface@);
    let mut i = v.len();
    assert(names.subrange(0, i as int) =~= names);
    while i > 0
        invariant
            i <= v@.len(),
            names == v@.map_values(|a: SystemV4Address| a.interface@),
            last_match(names, name@) == last_match(names.subrange(0, i as int), name@),
        decreases i,
    {
        assert(names.subrange(0, i as int).drop_last() =~= names.subrange(0, i - 1));
        if v[i - 1].interface == *name {
            return Some(i - 1);
        }
        i = i - 1;
    }
    None
}

fn last_v6_index(v: &Vec<SystemV6Address>, name: &String) -> (r: Option<usize>)
    ensures
        match r {
            Some(i) => last_match(v@.map_values(|a: SystemV6Address| a.interface@), name@) == Some(
                i as int,
            ) && i < v@.len() && v@[i as int].interface@ == name@,
            None => last_match(v@.map_values(|a: SystemV6Address| a.interface@), name@) is None,
        },
{
    let ghost names = v@.map_values(|a: SystemV6Address| a.interface@);
    let mut i = v.len();
    assert(names.subrange(0, i as int) =~= names);
    while i > 0
        invariant
            i <= v@.len(),
            names == v@.map_values(|a: SystemV6Address| a.interface@),
            last_match(names, name@) == last_match(names.subrange(0, i as int), name@),
        decreases i,
    {
        assert(names.subrange(0, i as int).drop_last() =~= names.subrange(0, i - 1));
        if v[i - 1].interface == *name {
            return Some(i - 1);
        }
        i = i - 1;
    }
    None
}

fn interface_not_found_error(interface: &String) -> (e: DnsBackendError)
    ensures
        e.message@ == interface_not_found(interface@),
{
    let mut message = String::from_str("Couldn't find interface ");
    message.append(interface.as_str());
    message.append(" in system interfaces");
    DnsBackendError { message }
}

/// Finds the address that should back `record`: for `A` the last IPv4 entry
/// of the record's interface, for `AAAA` the last IPv6 entry. Fails when the
/// interface has no address of that family, or the type has no family.
pub fn find_matching_interface(record: &ParsedRecord, system_interfaces: &SystemAddresses) -> (r:
    Result<SystemAddress, DnsBackendError>)
    ensures
        match r {
            Ok(a) => resolve_record(*record, *system_interfaces) == Ok::<
                (Seq<char>, IpAddress),
                Seq<char>,
            >(a@),
            Err(e) => resolve_record(*record, *system_interfaces) == Err::<
                (Seq<char>, IpAddress),
                Seq<char>,
            >(e.message@),
        },
{
    match record.record_type {
        DnsRecordType::A => {
            match last_v4_index(&system_interfaces.v4_addresses, &record.interface) {
                Some(i) => {
                    let found = &system_interfaces.v4_addresses[i];
                    Ok(
                        SystemAddress::V4(
                            SystemV4Address {
                                interface: found.interface.clone(),
                                address: found.address,
                            },
                        ),
                    )
                },
                None => Err(interface_not_found_error(&record.interface)),
            }
        },
        DnsRecordType::AAAA => {
            match last_v6_index(&system_interfaces.v6_addresses, &record.interface) {
                Some(i) => {
                    let found = &system_interfaces.v6_addresses[i];
                    Ok(
                        SystemAddress::V6(
                            SystemV6Address {
                                interface: found.interface.clone(),
                                address: found.address,
                            },
                        ),
                    )
                },
                None => Err(interface_not_found_error(&record.interface)),
            }
        },
        _ => {
            let mut message = record.record_type.name();
            message.append(" is not a valid record type, try \"A\" or \"AAAA\"");
            Err(DnsBackendError { message })
        },
    }
}

/// The current records with the given name and type.
pub open spec fn matching_records(records: Seq<RecordView>, name: Seq<char>, kind: DnsRecordType) -> Seq<
    RecordView,
> {
    records.filter(has_key(name, kind))
}

/// Whether a record has the given name and type.
pub open spec fn has_key(name: Seq<char>, kind: DnsRecordType) -> spec_fn(RecordView) -> bool {
    |v: RecordView| v.1 == name && v.0 == kind
}

/// The views of the records.
pub open spec fn records_view(current: Seq<DnsRecord>) -> Seq<RecordView> {
    current.map_values(|r: DnsRecord| r@)
}

/// What reconciliation does for one desired record, in terms of views.
pub enum PlannedAction {
    Create(RecordView),
    Update(RecordView, Seq<char>),
    Unchanged,
    Ambiguous,
}

/// The action for a desired record of `name` and `kind` whose address reads
/// `data`: create it when no current record has that name and type, update
/// the one that has when its data differs, and leave it when the data agrees
/// or when several records have that name and type.
pub open spec fn planned_action(
    name: Seq<char>,
    kind: DnsRecordType,
    current: Seq<RecordView>,
    data: Seq<char>,
) -> PlannedAction {
    let m = matching_records(current, name, kind);
    if m.len() == 0 {
        PlannedAction::Create((kind, name, data))
    } else if m.len() == 1 {
        if m[0].2 == data {
            PlannedAction::Unchanged
        } else {
            PlannedAction::Update(m[0], data)
        }
    } else {
        PlannedAction::Ambiguous
    }
}

/// Whether an action writes to the provider.
pub open spec fn is_write(a: PlannedAction) -> bool {
    a is Create || a is Update
}

/// The action planned for the `i`-th desired record.
pub open spec fn action_for(
    desired: Seq<ParsedRecord>,
    i: int,
    current: Seq<RecordView>,
    snap: SystemAddresses,
) -> PlannedAction {
    planned_action(
        desired[i].name@,
        desired[i].record_type,
        current,
        resolved_text(desired[i], snap),
    )
}

/// Whether every desired record resolves to an address.
pub open spec fn all_resolve(desired: Seq<ParsedRecord>, snap: SystemAddresses) -> bool {
    forall|i: int| 0 <= i < desired.len() ==> (#[trigger] resolve_record(desired[i], snap)) is Ok
}

/// A write, or the lack of one, that reconciliation decided on.
#[derive(Debug, PartialEq)]
pub enum RecordAction {
    /// Create this record.
    Create(DnsRecord),
    /// Give this existing record the new data.
    Update(DnsRecord, String),
    /// The record already holds the address.
    Unchanged,
    /// Several records have the name and type: none is touched.
    Ambiguous,
}

impl View for RecordAction {
    type V = PlannedAction;

    open spec fn view(&self) -> PlannedAction {
        match self {
            RecordAction::Create(r) => PlannedAction::Create(r@),
            RecordAction::Update(r, d) => PlannedAction::Update(r@, d@),
            RecordAction::Unchanged => PlannedAction::Unchanged,
            RecordAction::Ambiguous => PlannedAction::Ambiguous,
        }
    }
}

/// Decides what to do for `desired`, whose address reads `data`, given the
/// records that the provider holds now.
pub fn plan_record(desired: &ParsedRecord, current: &Vec<DnsRecord>, data: String) -> (r:
    RecordAction)
    ensures
        r@ == planned_action(desired.name@, desired.record_type, records_view(current@), data@),
{
    let ghost pred = has_key(desired.name@, desired.record_type);
    let ghost views = records_view(current@);
    let mut count: usize = 0;
    let mut first: usize = 0;
    let mut i: usize = 0;
    proof {
        reveal(Seq::filter);
        assert(views.subrange(0, 0) =~= Seq::<RecordView>::empty());
    }
    while i < current.len()
        invariant
            i <= current@.len(),
            pred == has_key(desired.name@, desired.record_type),
            views == records_view(current@),
            count <= i,
            count == views.subrange(0, i as int).filter(pred).len(),
            count > 0 ==> first < i && views.subrange(0, i as int).filter(pred)[0]
                == current@[first as int]@,
        decreases current.len() - i,
    {
        proof {
            reveal(Seq::filter);
            assert(views.subrange(0, i + 1).drop_last() =~= views.subrange(0, i as int));
        }
        if current[i].name == desired.name && current[i].kind == desired.record_type {
            if count == 0 {
                first = i;
            }
            count = count + 1;
        }
        i = i + 1;
    }
    assert(views.subrange(0, current@.len() as int) =~= views);
    if count == 0 {
        RecordAction::Create(
            DnsRecord { kind: desired.record_type, name: desired.name.clone(), data },
        )
    } else if count == 1 {
        let existing = &current[first];
        if existing.data == data {
            RecordAction::Unchanged
        } else {
            RecordAction::Update(existing.copy(), data)
        }
    } else {
        RecordAction::Ambiguous
    }
}

/// Resolves every desired record and decides, against the same current
/// records, what to do for each. The first record that does not resolve makes
/// the whole plan fail with its error.
pub fn plan_updates(
    desired_records: &Vec<ParsedRecord>,
    current_records: &Vec<DnsRecord>,
    system_interfaces: &SystemAddresses,
) -> (r: Result<Vec<RecordAction>, DnsBackendError>)
    ensures
        r is Ok <==> all_resolve(desired_records@, *system_interfaces),
        match r {
            Ok(actions) => actions@.len() == desired_records@.len() && forall|i: int|
                0 <= i < actions@.len() ==> #[trigger] actions@[i]@ == action_for(
                    desired_records@,
                    i,
                    records_view(current_records@),
                    *system_interfaces,
                ),
            Err(e) => exists|i: int|
                0 <= i < desired_records@.len() && resolve_record(
                    #[trigger] desired_records@[i],
                    *system_interfaces,
                ) == Err::<(Seq<char>, IpAddress), Seq<char>>(e.message@) && forall|j: int|
                    0 <= j < i ==> (#[trigger] resolve_record(
                        desired_records@[j],
                        *system_interfaces,
                    )) is Ok,
        },
{
    let mut actions: Vec<RecordAction> = Vec::new();
    let mut i: usize = 0;
    while i < desired_records.len()
        invariant
            i <= desired_records@.len(),
            actions@.len() == i,
            forall|j: int|
                0 <= j < i ==> (#[trigger] resolve_record(
                    desired_records@[j],
                    *system_interfaces,
                )) is Ok,
            forall|j: int|
                0 <= j < i ==> #[trigger] actions@[j]@ == action_for(
                    desired_records@,
                    j,
                    records_view(current_records@),
                    *system_interfaces,
                ),
        decreases desired_records.len() - i,
    {
        let desired = &desired_records[i];
        match find_matching_interface(desired, system_interfaces) {
            Ok(found) => {
                let data = found.ip_address().to_text();
                actions.push(plan_record(desired, current_records, data));
            },
            Err(e) => {
                assert(!all_resolve(desired_records@, *system_interfaces));
                return Err(e);
            },
        }
        i = i + 1;
    }
    Ok(actions)
}

/// Carries out the writes of a plan in order, and stops at the first that
/// fails.
pub fn apply_actions<T: DnsBackend>(backend: &T, actions: &Vec<RecordAction>) -> (r: Result<
    (),
    DnsBackendError,
>)
    ensures
        (forall|i: int| 0 <= i < actions@.len() ==> !is_write(#[trigger] actions@[i]@)) ==> r is Ok,
{
    let mut i: usize = 0;
    while i < actions.len()
        invariant
            i <= actions@.len(),
        decreases actions.len() - i,
    {
        match &actions[i] {
            RecordAction::Create(record) => {
                match backend.create_record(record.copy()) {
                    Ok(()) => {},
                    Err(e) => {
                        assert(is_write(actions@[i as int]@));
                        return Err(e);
                    },
                }
            },
            RecordAction::Update(record, data) => {
                match backend.update_record(record, data.as_str()) {
                    Ok(()) => {},
                    Err(e) => {
                        assert(is_write(actions@[i as int]@));
                        return Err(e);
                    },
                }
            },
            RecordAction::Unchanged => {},
            RecordAction::Ambiguous => {},
        }
        i = i + 1;
    }
    Ok(())
}

/// Reconciles one zone: reads its records once, resolves every desired
/// record, then creates or updates what differs. A record that does not
/// resolve fails the whole call before any write.
pub fn update_records<T: DnsBackend>(
    backend: T,
    desired_records: Vec<ParsedRecord>,
    system_interfaces: &SystemAddresses,
) -> (r: Result<(), DnsBackendError>)
    ensures
        !all_resolve(desired_records@, *system_interfaces) ==> r is Err,
{
    let current_records = match backend.get_zone_records() {
        Ok(records) => records,
        Err(e) => {
            return Err(e);
        },
    };
    let actions = match plan_updates(&desired_records, &current_records, system_interfaces) {
        Ok(actions) => actions,
        Err(e) => {
            return Err(e);
        },
    };
    apply_actions(&backend, &actions)
}

/// When every desired record resolves and the provider already holds, for
/// each of them, exactly one record of that name and type whose data is the
/// resolved address, the plan makes no write.
pub proof fn lemma_up_to_date_plan_writes_nothing(
    desired: Seq<ParsedRecord>,
    current: Seq<RecordView>,
    snap: SystemAddresses,
)
    requires
        all_resolve(desired, snap),
        forall|i: int|
            0 <= i < desired.len() ==> {
                let m = #[trigger] matching_records(
                    current,
                    desired[i].name@,
                    desired[i].record_type,
                );
                m.len() == 1 && m[0].2 == resolved_text(desired[i], snap)
            },
    ensures
        forall|i: int|
            0 <= i < desired.len() ==> !is_write(#[trigger] action_for(desired, i, current, snap)),
{
    assert forall|i: int| 0 <= i < desired.len() implies !is_write(
        #[trigger] action_for(desired, i, current, snap),
    ) by {
        let m = matching_records(current, desired[i].name@, desired[i].record_type);
        assert(m.len() == 1);
    }
}

/// With no current record of its name and type, a desired record is created
/// with the resolved address as its data.
pub proof fn lemma_absent_record_is_created(
    desired: Seq<ParsedRecord>,
    i: int,
    current: Seq<RecordView>,
    snap: SystemAddresses,
)
    requires
        0 <= i < desired.len(),
        matching_records(current, desired[i].name@, desired[i].record_type).len() == 0,
    ensures
        action_for(desired, i, current, snap) == PlannedAction::Create(
            (desired[i].record_type, desired[i].name@, resolved_text(desired[i], snap)),
        ),
{
}

/// With one current record of its name and type whose data differs from the
/// resolved address, that record is updated to the address and nothing is
/// created.
pub proof fn lemma_stale_record_is_updated(
    desired: Seq<ParsedRecord>,
    i: int,
    current: Seq<RecordView>,
    snap: SystemAddresses,
)
    requires
        0 <= i < desired.len(),
        matching_records(current, desired[i].name@, desired[i].record_type).len() == 1,
        matching_records(current, desired[i].name@, desired[i].record_type)[0].2
            != resolved_text(desired[i], snap),
    ensures
        action_for(desired, i, current, snap) == PlannedAction::Update(
            matching_records(current, desired[i].name@, desired[i].record_type)[0],
            resolved_text(desired[i], snap),
        ),
{
}

/// Two or more current records of a desired record's name and type make its
/// action a no-op, and do not stop the plan: when every record resolves, the
/// plan succeeds and the other records keep their own actions.
pub proof fn lemma_ambiguous_record_is_skipped(
    desired: Seq<ParsedRecord>,
    i: int,
    current: Seq<RecordView>,
    snap: SystemAddresses,
)
    requires
        0 <= i < desired.len(),
        matching_records(current, desired[i].name@, desired[i].record_type).len() >= 2,
    ensures
        action_for(desired, i, current, snap) == PlannedAction::Ambiguous,
        !is_write(action_for(desired, i, current, snap)),
{
}

/// An `AAAA` record resolves from the IPv6 list alone: snapshots that share
/// that list resolve it alike, whatever their IPv4 lists hold, and what it
/// resolves to is an IPv6 address.
pub proof fn lemma_aaaa_ignores_v4_list(
    interface: Seq<char>,
    snap1: SystemAddresses,
    snap2: SystemAddresses,
)
    requires
        snap1.v6_addresses@ == snap2.v6_addresses@,
    ensures
        resolve(DnsRecordType::AAAA, interface, snap1) == resolve(
            DnsRecordType::AAAA,
            interface,
            snap2,
        ),
        resolve(DnsRecordType::AAAA, interface, snap1) matches Ok(found) ==> found.1 is V6,
{
}

/// An `A` record resolves from the IPv4 list alone, to an IPv4 address.
pub proof fn lemma_a_ignores_v6_list(
    interface: Seq<char>,
    snap1: SystemAddresses,
    snap2: SystemAddresses,
)
    requires
        snap1.v4_addresses@ == snap2.v4_addresses@,
    ensures
        resolve(DnsRecordType::A, interface, snap1) == resolve(DnsRecordType::A, interface, snap2),
        resolve(DnsRecordType::A, interface, snap1) matches Ok(found) ==> found.1 is V4,
{
}

/// An interface with no entry in the list of the record's family fails to
/// resolve with a message that names it, and then the plan for a batch that
/// holds the record fails, whatever its place in the batch.
pub proof fn lemma_missing_interface_fails_batch(
    desired: Seq<ParsedRecord>,
    i: int,
    snap: SystemAddresses,
)
    requires
        0 <= i < desired.len(),
        desired[i].record_type == DnsRecordType::A ==> !v4_names(snap).contains(
            desired[i].interface@,
        ),
        desired[i].record_type == DnsRecordType::AAAA ==> !v6_names(snap).contains(
            desired[i].interface@,
        ),
    ensures
        (desired[i].record_type == DnsRecordType::A || desired[i].record_type
            == DnsRecordType::AAAA) ==> resolve_record(desired[i], snap) == Err::<
            (Seq<char>, IpAddress),
            Seq<char>,
        >(interface_not_found(desired[i].interface@)),
        !all_resolve(desired, snap),
{
    lemma_last_match_found(v4_names(snap), desired[i].interface@);
    lemma_last_match_found(v6_names(snap), desired[i].interface@);
    assert(resolve_record(desired[i], snap) is Err);
}

/// A position that `last_match` gives holds the name.
pub proof fn lemma_last_match_found(names: Seq<Seq<char>>, name: Seq<char>)
    ensures
        last_match(names, name) matches Some(i) ==> 0 <= i < names.len() && names[i] == name,
    decreases names.len(),
{
    if names.len() > 0 && names.last() != name {
        lemma_last_match_found(names.drop_last(), name);
    }
}

/// The data of every record with the given name and type replaced.
pub open spec fn set_data(name: Seq<char>, kind: DnsRecordType, data: Seq<char>) -> spec_fn(
    RecordView,
) -> RecordView {
    |v: RecordView|
        if v.1 == name && v.0 == kind {
            (v.0, v.1, data)
        } else {
            v
        }
}

/// The provider's records once a planned action is carried out: a creation
/// adds the record, an update gives the records of its name and type the new
/// data, and the other actions change nothing.
pub open spec fn apply_action(records: Seq<RecordView>, a: PlannedAction) -> Seq<RecordView> {
    match a {
        PlannedAction::Create(r) => records.push(r),
        PlannedAction::Update(old, data) => records.map_values(set_data(old.1, old.0, data)),
        _ => records,
    }
}

/// The provider's records once the actions are carried out in order.
pub open spec fn apply_plan(records: Seq<RecordView>, actions: Seq<PlannedAction>) -> Seq<
    RecordView,
>
    decreases actions.len(),
{
    if actions.len() == 0 {
        records
    } else {
        apply_action(apply_plan(records, actions.drop_last()), actions.last())
    }
}

/// The actions planned for all desired records against `current`.
pub open spec fn plan_of(
    desired: Seq<ParsedRecord>,
    current: Seq<RecordView>,
    snap: SystemAddresses,
) -> Seq<PlannedAction> {
    Seq::new(desired.len(), |i: int| action_for(desired, i, current, snap))
}

/// No two desired records share a name and a type.
pub open spec fn distinct_keys(desired: Seq<ParsedRecord>) -> bool {
    forall|i: int, j: int|
        0 <= i < j < desired.len() ==> !(desired[i].name@ == desired[j].name@ && desired[i].record_type
            == desired[j].record_type)
}

/// The records of the `i`-th desired record's name and type.
pub open spec fn key_matches(records: Seq<RecordView>, desired: Seq<ParsedRecord>, i: int) -> Seq<
    RecordView,
> {
    matching_records(records, desired[i].name@, desired[i].record_type)
}

/// Records of one name and type that call for no write.
pub open spec fn settled(m: Seq<RecordView>, data: Seq<char>) -> bool {
    m.len() >= 2 || (m.len() == 1 && m[0].2 == data)
}

proof fn lemma_filter_push(s: Seq<RecordView>, x: RecordView, p: spec_fn(RecordView) -> bool)
    ensures
        s.push(x).filter(p) == if p(x) {
            s.filter(p).push(x)
        } else {
            s.filter(p)
        },
{
    reveal(Seq::filter);
    assert(s.push(x).drop_last() =~= s);
}

proof fn lemma_filter_set_data(
    s: Seq<RecordView>,
    name: Seq<char>,
    kind: DnsRecordType,
    other_name: Seq<char>,
    other_kind: DnsRecordType,
    data: Seq<char>,
)
    ensures
        s.map_values(set_data(other_name, other_kind, data)).filter(has_key(name, kind)) == s.filter(
            has_key(name, kind),
        ).map_values(set_data(other_name, other_kind, data)),
    decreases s.len(),
{
    let f = set_data(other_name, other_kind, data);
    let p = has_key(name, kind);
    reveal(Seq::filter);
    if s.len() == 0 {
        assert(s.map_values(f) =~= s);
        assert(s.filter(p).map_values(f) =~= Seq::<RecordView>::empty());
    } else {
        lemma_filter_set_data(s.drop_last(), name, kind, other_name, other_kind, data);
        assert(s.map_values(f).drop_last() =~= s.drop_last().map_values(f));
        assert(p(f(s.last())) == p(s.last()));
        assert(s.drop_last().filter(p).push(s.last()).map_values(f) =~= s.drop_last().filter(
            p,
        ).map_values(f).push(f(s.last())));
    }
}

proof fn lemma_set_data_keeps_others(
    m: Seq<RecordView>,
    name: Seq<char>,
    kind: DnsRecordType,
    other_name: Seq<char>,
    other_kind: DnsRecordType,
    data: Seq<char>,
)
    requires
        forall|j: int| 0 <= j < m.len() ==> (#[trigger] m[j]).1 == name && m[j].0 == kind,
        !(name == other_name && kind == other_kind),
    ensures
        m.map_values(set_data(other_name, other_kind, data)) == m,
{
    assert(m.map_values(set_data(other_name, other_kind, data)) =~= m);
}

proof fn lemma_step(
    before: Seq<RecordView>,
    desired: Seq<ParsedRecord>,
    k: int,
    i: int,
    current: Seq<RecordView>,
    snap: SystemAddresses,
)
    requires
        distinct_keys(desired),
        0 <= k < desired.len(),
        0 <= i < desired.len(),
        key_matches(before, desired, k) == key_matches(current, desired, k),
    ensures
        ({
            let after = apply_action(before, action_for(desired, k, current, snap));
            &&& i == k ==> settled(key_matches(after, desired, i), resolved_text(desired[i], snap))
            &&& i != k ==> key_matches(after, desired, i) == key_matches(before, desired, i)
        }),
{
    let a = action_for(desired, k, current, snap);
    let after = apply_action(before, a);
    let name = desired[i].name@;
    let kind = desired[i].record_type;
    let p = has_key(name, kind);
    let mk = key_matches(current, desired, k);
    let text = resolved_text(desired[k], snap);
    if i != k {
        assert(!(desired[i].name@ == desired[k].name@ && desired[i].record_type
            == desired[k].record_type)) by {
            if i < k {
            } else {
            }
        }
    }
    match a {
        PlannedAction::Create(r) => {
            lemma_filter_push(before, r, p);
        },
        PlannedAction::Update(old, data) => {
            assert(mk.len() == 1);
            current.lemma_filter_pred(has_key(desired[k].name@, desired[k].record_type), 0);
            assert(old == mk[0]);
            lemma_filter_set_data(before, name, kind, old.1, old.0, data);
            let m = before.filter(p);
            assert forall|j: int| 0 <= j < m.len() implies (#[trigger] m[j]).1 == name && m[j].0
                == kind by {
                before.lemma_filter_pred(p, j);
            }
            if i != k {
                lemma_set_data_keeps_others(m, name, kind, old.1, old.0, data);
            } else {
                assert(m.map_values(set_data(old.1, old.0, data))[0].2 == data);
            }
        },
        _ => {},
    }
}

proof fn lemma_prefix_settles(
    desired: Seq<ParsedRecord>,
    current: Seq<RecordView>,
    snap: SystemAddresses,
    k: int,
)
    requires
        distinct_keys(desired),
        0 <= k <= desired.len(),
    ensures
        forall|i: int|
            0 <= i < k ==> settled(
                #[trigger] key_matches(
                    apply_plan(current, plan_of(desired, current, snap).take(k)),
                    desired,
                    i,
                ),
                resolved_text(desired[i], snap),
            ),
        forall|i: int|
            k <= i < desired.len() ==> #[trigger] key_matches(
                apply_plan(current, plan_of(desired, current, snap).take(k)),
                desired,
                i,
            ) == key_matches(current, desired, i),
    decreases k,
{
    let plan = plan_of(desired, current, snap);
    if k == 0 {
        assert(plan.take(0) =~= Seq::<PlannedAction>::empty());
    } else {
        lemma_prefix_settles(desired, current, snap, k - 1);
        let before = apply_plan(current, plan.take(k - 1));
        assert(plan.take(k).drop_last() =~= plan.take(k - 1));
        assert(plan.take(k).last() == action_for(desired, k - 1, current, snap));
        let after = apply_plan(current, plan.take(k));
        assert(after == apply_action(before, action_for(desired, k - 1, current, snap)));
        assert(key_matches(before, desired, k - 1) == key_matches(current, desired, k - 1));
        assert forall|i: int| 0 <= i < k implies settled(
            #[trigger] key_matches(after, desired, i),
            resolved_text(desired[i], snap),
        ) by {
            lemma_step(before, desired, k - 1, i, current, snap);
        }
        assert forall|i: int| k <= i < desired.len() implies #[trigger] key_matches(
            after,
            desired,
            i,
        ) == key_matches(current, desired, i) by {
            lemma_step(before, desired, k - 1, i, current, snap);
        }
    }
}

/// Reconciling twice writes once: when no two desired records share a name
/// and a type, the records that result from carrying out a plan call for no
/// write when the plan is made again with the same addresses.
pub proof fn lemma_reconcile_idempotent(
    desired: Seq<ParsedRecord>,
    current: Seq<RecordView>,
    snap: SystemAddresses,
)
    requires
        distinct_keys(desired),
    ensures
        forall|i: int|
            0 <= i < desired.len() ==> !is_write(
                #[trigger] action_for(
                    desired,
                    i,
                    apply_plan(current, plan_of(desired, current, snap)),
                    snap,
                ),
            ),
{
    let plan = plan_of(desired, current, snap);
    lemma_prefix_settles(desired, current, snap, desired.len() as int);
    assert(plan.take(desired.len() as int) =~= plan);
    let after = apply_plan(current, plan);
    assert forall|i: int| 0 <= i < desired.len() implies !is_write(
        #[trigger] action_for(desired, i, after, snap),
    ) by {
        assert(settled(key_matches(after, desired, i), resolved_text(desired[i], snap)));
    }
}

} // verus!
