//! The scripted devices that the mock backend plays.
use vstd::prelude::*;
use crate::device::{ClassOfDevice, DeviceId, DeviceInfo, DeviceView};
use crate::event::{EventOrigin, OriginView, PairingMethodHint};
use crate::hardware::{CompanyId, ControllerModel, ControllerView};
use crate::pairing::PairingRequest;
use crate::standards::StandardsProfile;
use crate::text;
use crate::time::Duration;
use crate::uuid::Uuid;
use crate::version::{CoreVersion, SpecContext, Transport};

verus! {

/// The passkey that every scripted pairing shows.
pub const MOCK_PASSKEY: u32 = 123_456;

/// What a pairing of the given model asks of the agent.
pub open spec fn asked(method: PairingMethodHint) -> PairingRequest {
    match method {
        PairingMethodHint::JustWorks => PairingRequest::ConfirmJustWorks,
        PairingMethodHint::NumericComparison => PairingRequest::ConfirmPasskey {
            passkey: MOCK_PASSKEY,
        },
        PairingMethodHint::PinCode => PairingRequest::RequestPinCode,
        PairingMethodHint::PasskeyEntry => PairingRequest::RequestPasskey,
        PairingMethodHint::PasskeyDisplay => PairingRequest::DisplayPasskey {
            passkey: MOCK_PASSKEY,
        },
        PairingMethodHint::OutOfBand => PairingRequest::ConfirmJustWorks,
    }
}

/// What a pairing of the given model asks of the agent.
pub fn request_for(method: PairingMethodHint) -> (r: PairingRequest)
    ensures
        r == asked(method),
{
    match method {
        PairingMethodHint::JustWorks => PairingRequest::ConfirmJustWorks,
        PairingMethodHint::NumericComparison => PairingRequest::ConfirmPasskey {
            passkey: MOCK_PASSKEY,
        },
        PairingMethodHint::PinCode => PairingRequest::RequestPinCode,
        PairingMethodHint::PasskeyEntry => PairingRequest::RequestPasskey,
        PairingMethodHint::PasskeyDisplay => PairingRequest::DisplayPasskey {
            passkey: MOCK_PASSKEY,
        },
        PairingMethodHint::OutOfBand => PairingRequest::ConfirmJustWorks,
    }
}

/// A request names the model it was made for, but for the out-of-band model, which is
/// confirmed like "just works".
pub proof fn request_names_its_model(method: PairingMethodHint)
    ensures
        asked(method).model() == if method is OutOfBand {
            PairingMethodHint::JustWorks
        } else {
            method
        },
{
}

/// A GATT characteristic and a value of it.
#[derive(Debug)]
pub struct GattEntry {
    /// The service.
    pub service: Uuid,
    /// The characteristic.
    pub characteristic: Uuid,
    /// The value.
    pub value: Vec<u8>,
}

/// What a [`GattEntry`] holds.
pub struct GattView {
    pub service: Seq<u8>,
    pub characteristic: Seq<u8>,
    pub value: Seq<u8>,
}

impl View for GattEntry {
    type V = GattView;

    open spec fn view(&self) -> GattView {
        GattView {
            service: self.service@,
            characteristic: self.characteristic@,
            value: self.value@,
        }
    }
}

impl GattView {
    /// Whether this is the given characteristic.
    pub open spec fn names(self, service: Seq<u8>, characteristic: Seq<u8>) -> bool {
        self.service == service && self.characteristic == characteristic
    }
}

/// A table of characteristics as plain values.
pub open spec fn gatt_view(v: Seq<GattEntry>) -> Seq<GattView> {
    v.map_values(|e: GattEntry| e@)
}

/// The value of a characteristic: that of its first entry.
pub open spec fn value_at(g: Seq<GattView>, service: Seq<u8>, characteristic: Seq<u8>) -> Option<
    Seq<u8>,
>
    decreases g.len(),
{
    if g.len() == 0 {
        None
    } else if g[0].names(service, characteristic) {
        Some(g[0].value)
    } else {
        value_at(g.drop_first(), service, characteristic)
    }
}

/// The table with the first entry of a characteristic set to a value.
pub open spec fn stored(
    g: Seq<GattView>,
    service: Seq<u8>,
    characteristic: Seq<u8>,
    data: Seq<u8>,
) -> Seq<GattView>
    decreases g.len(),
{
    if g.len() == 0 {
        g
    } else if g[0].names(service, characteristic) {
        seq![GattView { value: data, ..g[0] }] + g.drop_first()
    } else {
        seq![g[0]] + stored(g.drop_first(), service, characteristic, data)
    }
}

/// The values of all entries of a characteristic, in order.
pub open spec fn values_of(g: Seq<GattView>, service: Seq<u8>, characteristic: Seq<u8>) -> Seq<
    Seq<u8>,
>
    decreases g.len(),
{
    if g.len() == 0 {
        Seq::empty()
    } else if g.last().names(service, characteristic) {
        values_of(g.drop_last(), service, characteristic).push(g.last().value)
    } else {
        values_of(g.drop_last(), service, characteristic)
    }
}

/// A read gives back what a write stored, and a write leaves every other characteristic
/// as it was.
pub proof fn write_is_read_back(
    g: Seq<GattView>,
    service: Seq<u8>,
    characteristic: Seq<u8>,
    data: Seq<u8>,
)
    ensures
        value_at(g, service, characteristic) is Some ==> value_at(
            stored(g, service, characteristic, data),
            service,
            characteristic,
        ) == Some(data),
        value_at(g, service, characteristic) is None ==> stored(g, service, characteristic, data)
            == g,
        forall|s: Seq<u8>, c: Seq<u8>|
            !(s == service && c == characteristic) ==> #[trigger] value_at(
                stored(g, service, characteristic, data),
                s,
                c,
            ) == value_at(g, s, c),
    decreases g.len(),
{
    if g.len() > 0 {
        let rest = g.drop_first();
        let after = stored(g, service, characteristic, data);
        if g[0].names(service, characteristic) {
            assert(after.drop_first() =~= rest);
            assert(after[0].value == data);
        } else {
            write_is_read_back(rest, service, characteristic, data);
            assert(after.drop_first() =~= stored(rest, service, characteristic, data));
            assert(after[0] == g[0]);
            if value_at(g, service, characteristic) is None {
                assert(after =~= g);
            }
        }
        assert forall|s: Seq<u8>, c: Seq<u8>|
            !(s == service && c == characteristic) implies #[trigger] value_at(
            after,
            s,
            c,
        ) == value_at(g, s, c) by {
            if g[0].names(service, characteristic) {
                assert(after.drop_first() =~= rest);
                assert(!g[0].names(s, c) && !after[0].names(s, c));
            } else {
                let inner = stored(rest, service, characteristic, data);
                assert(after.drop_first() =~= inner);
                assert(after[0] == g[0]);
                assert(value_at(inner, s, c) == value_at(rest, s, c));
            }
        }
    }
}

fn clone_gatt(v: &Vec<GattEntry>) -> (r: Vec<GattEntry>)
    ensures
        gatt_view(r@) == gatt_view(v@),
{
    let mut r: Vec<GattEntry> = Vec::new();
    let mut i: usize = 0;
    while i < v.len()
        invariant
            i <= v@.len(),
            r@.len() == i,
            forall|k: int| 0 <= k < i ==> (#[trigger] r@[k])@ == v@[k]@,
        decreases v@.len() - i,
    {
        let value: Vec<u8> = v[i].value.clone();
        assert(value@ =~= v@[i as int].value@);
        r.push(
            GattEntry { service: v[i].service, characteristic: v[i].characteristic, value },
        );
        i = i + 1;
    }
    assert(gatt_view(r@) =~= gatt_view(v@));
    r
}

/// A scripted device.
#[derive(Debug)]
pub struct MockDevice {
    /// What a scan reports.
    pub info: DeviceInfo,
    /// The specification context of links to it.
    pub spec: SpecContext,
    /// The standards context of links to it.
    pub standards: StandardsProfile,
    /// The association model of its pairings.
    pub pairing_method: PairingMethodHint,
    /// Why its pairings fail, if they do.
    pub pairing_failure: Option<String>,
    /// The size of the chunks it takes.
    pub chunk_size: u64,
    /// How long a chunk takes.
    pub per_chunk_latency: Duration,
    /// After how many bytes its transfers fail, if they do.
    pub transfer_failure_after: Option<u64>,
    /// Its characteristics.
    pub gatt: Vec<GattEntry>,
    /// The notifications it sends.
    pub notifications: Vec<GattEntry>,
}

/// What a [`MockDevice`] holds.
pub struct MockDeviceView {
    pub info: DeviceView,
    pub spec: SpecContext,
    pub standards: StandardsProfile,
    pub pairing_method: PairingMethodHint,
    pub pairing_failure: Option<Seq<char>>,
    pub chunk_size: u64,
    pub per_chunk_latency: Duration,
    pub transfer_failure_after: Option<u64>,
    pub gatt: Seq<GattView>,
    pub notifications: Seq<GattView>,
}

impl View for MockDevice {
    type V = MockDeviceView;

    open spec fn view(&self) -> MockDeviceView {
        MockDeviceView {
            info: self.info@,
            spec: self.spec,
            standards: self.standards,
            pairing_method: self.pairing_method,
            pairing_failure: text::optional(self.pairing_failure),
            chunk_size: self.chunk_size,
            per_chunk_latency: self.per_chunk_latency,
            transfer_failure_after: self.transfer_failure_after,
            gatt: gatt_view(self.gatt@),
            notifications: gatt_view(self.notifications@),
        }
    }
}

/// A list of scripted devices as plain values.
pub open spec fn script_view(v: Seq<MockDevice>) -> Seq<MockDeviceView> {
    v.map_values(|d: MockDevice| d@)
}

impl MockDeviceView {
    /// A device that answers to everything in the simplest way.
    pub open spec fn simple(id: DeviceId, name: Seq<char>) -> MockDeviceView {
        MockDeviceView {
            info: DeviceView { name: Some(name), ..DeviceView::only(id) },
            spec: SpecContext { version: CoreVersion::V5_2, transport: Transport::BrEdr },
            standards: StandardsProfile::plain(),
            pairing_method: PairingMethodHint::JustWorks,
            pairing_failure: None,
            chunk_size: 1024,
            per_chunk_latency: Duration { nanos: 1_000_000 },
            transfer_failure_after: None,
            gatt: Seq::empty(),
            notifications: Seq::empty(),
        }
    }

    /// The origin of events that concern the device.
    pub open spec fn origin(self, local: ControllerView) -> OriginView {
        OriginView { local, peer: self.info.id, spec: self.spec, standards: self.standards }
    }
}

impl Clone for MockDevice {
    fn clone(&self) -> (r: MockDevice)
        ensures
            r@ == self@,
    {
        MockDevice {
            info: self.info.clone(),
            spec: self.spec,
            standards: self.standards,
            pairing_method: self.pairing_method,
            pairing_failure: text::clone_optional(&self.pairing_failure),
            chunk_size: self.chunk_size,
            per_chunk_latency: self.per_chunk_latency,
            transfer_failure_after: self.transfer_failure_after,
            gatt: clone_gatt(&self.gatt),
            notifications: clone_gatt(&self.notifications),
        }
    }
}

impl MockDevice {
    /// A device that answers to everything in the simplest way.
    pub fn new(id: DeviceId, name: &str) -> (r: MockDevice)
        ensures
            r@ == MockDeviceView::simple(id, name@),
    {
        let r = MockDevice {
            info: DeviceInfo::new(id).with_name(name),
            spec: SpecContext::new(CoreVersion::V5_2, Transport::BrEdr),
            standards: StandardsProfile::bredr_default(),
            pairing_method: PairingMethodHint::JustWorks,
            pairing_failure: None,
            chunk_size: 1024,
            per_chunk_latency: Duration::from_millis(1),
            transfer_failure_after: None,
            gatt: Vec::new(),
            notifications: Vec::new(),
        };
        assert(r@.gatt =~= Seq::empty());
        assert(r@.notifications =~= Seq::empty());
        r
    }

    /// The identity.
    pub fn id(&self) -> (r: DeviceId)
        ensures
            r == self@.info.id,
    {
        self.info.id
    }

    /// The same device with a signal strength.
    pub fn with_rssi(self, dbm: i16) -> (r: MockDevice)
        ensures
            r@ == (MockDeviceView {
                info: DeviceView { rssi: Some(dbm), ..self@.info },
                ..self@
            }),
    {
        let info = self.info.with_rssi(dbm);
        MockDevice { info, ..self }
    }

    /// The same device with a Class-of-Device.
    pub fn with_class(self, class: ClassOfDevice) -> (r: MockDevice)
        ensures
            r@ == (MockDeviceView {
                info: DeviceView { class: Some(class), ..self@.info },
                ..self@
            }),
    {
        let info = self.info.with_class(class);
        MockDevice { info, ..self }
    }

    /// The same device with one more block of manufacturer data.
    pub fn with_manufacturer_data(self, company: CompanyId, data: Vec<u8>) -> (r: MockDevice)
        ensures
            r@ == (MockDeviceView {
                info: DeviceView {
                    manufacturer_data: self@.info.manufacturer_data.push((company, data@)),
                    ..self@.info
                },
                ..self@
            }),
    {
        let info = self.info.with_manufacturer_data(company, data);
        MockDevice { info, ..self }
    }

    /// The same device with one more service.
    pub fn with_service(self, uuid: &str) -> (r: MockDevice)
        ensures
            r@ == (MockDeviceView {
                info: DeviceView { services: self@.info.services.push(uuid@), ..self@.info },
                ..self@
            }),
    {
        let info = self.info.with_service(uuid);
        MockDevice { info, ..self }
    }

    /// The same device under another specification context.
    pub fn with_spec(self, spec: SpecContext) -> (r: MockDevice)
        ensures
            r@ == (MockDeviceView { spec, ..self@ }),
    {
        MockDevice { spec, ..self }
    }

    /// The same device under another standards context.
    pub fn with_standards(self, standards: StandardsProfile) -> (r: MockDevice)
        ensures
            r@ == (MockDeviceView { standards, ..self@ }),
    {
        MockDevice { standards, ..self }
    }

    /// The same device with another association model.
    pub fn with_pairing_method(self, method: PairingMethodHint) -> (r: MockDevice)
        ensures
            r@ == (MockDeviceView { pairing_method: method, ..self@ }),
    {
        MockDevice { pairing_method: method, ..self }
    }

    /// The same device, failing its pairings.
    pub fn failing_pairing(self, reason: &str) -> (r: MockDevice)
        ensures
            r@ == (MockDeviceView { pairing_failure: Some(reason@), ..self@ }),
    {
        MockDevice { pairing_failure: Some(reason.to_owned()), ..self }
    }

    /// The same device with another chunk size, at least one byte, and latency.
    pub fn with_transfer_profile(self, chunk_size: u64, per_chunk: Duration) -> (r: MockDevice)
        ensures
            r@ == (MockDeviceView {
                chunk_size: if chunk_size == 0 {
                    1
                } else {
                    chunk_size
                },
                per_chunk_latency: per_chunk,
                ..self@
            }),
    {
        let chunk_size: u64 = if chunk_size == 0 {
            1
        } else {
            chunk_size
        };
        MockDevice { chunk_size, per_chunk_latency: per_chunk, ..self }
    }

    /// The same device, failing its transfers once they would pass `bytes`.
    pub fn failing_transfer_after(self, bytes: u64) -> (r: MockDevice)
        ensures
            r@ == (MockDeviceView { transfer_failure_after: Some(bytes), ..self@ }),
    {
        MockDevice { transfer_failure_after: Some(bytes), ..self }
    }

    /// The same device with one more characteristic.
    pub fn with_gatt(self, service: Uuid, characteristic: Uuid, value: Vec<u8>) -> (r: MockDevice)
        ensures
            r@ == (MockDeviceView {
                gatt: self@.gatt.push(
                    GattView {
                        service: service@,
                        characteristic: characteristic@,
                        value: value@,
                    },
                ),
                ..self@
            }),
    {
        let ghost before = self@;
        let ghost bytes = value@;
        let mut r = self;
        r.gatt.push(GattEntry { service, characteristic, value });
        assert(r@.gatt =~= before.gatt.push(
            GattView { service: service@, characteristic: characteristic@, value: bytes },
        ));
        r
    }

    /// The same device with one more notification.
    pub fn with_notification(self, service: Uuid, characteristic: Uuid, value: Vec<u8>) -> (r:
        MockDevice)
        ensures
            r@ == (MockDeviceView {
                notifications: self@.notifications.push(
                    GattView {
                        service: service@,
                        characteristic: characteristic@,
                        value: value@,
                    },
                ),
                ..self@
            }),
    {
        let ghost before = self@;
        let ghost bytes = value@;
        let mut r = self;
        r.notifications.push(GattEntry { service, characteristic, value });
        assert(r@.notifications =~= before.notifications.push(
            GattView { service: service@, characteristic: characteristic@, value: bytes },
        ));
        r
    }

    /// The origin of events that concern the device.
    pub fn origin(&self, local: &ControllerModel) -> (r: EventOrigin)
        ensures
            r@ == self@.origin(local@),
    {
        EventOrigin::new(local.clone(), self.info.id, self.spec, self.standards)
    }
}

/// Whether `j` is the place of the first entry of a characteristic.
pub open spec fn entry_at(
    g: Seq<GattView>,
    service: Seq<u8>,
    characteristic: Seq<u8>,
    j: int,
) -> bool {
    &&& 0 <= j < g.len()
    &&& g[j].names(service, characteristic)
    &&& forall|k: int| 0 <= k < j ==> !(#[trigger] g[k]).names(service, characteristic)
}

/// The first entry of a characteristic holds its value, and a write sets that entry.
pub proof fn first_entry_counts(
    g: Seq<GattView>,
    service: Seq<u8>,
    characteristic: Seq<u8>,
    data: Seq<u8>,
    j: int,
)
    requires
        entry_at(g, service, characteristic, j),
    ensures
        value_at(g, service, characteristic) == Some(g[j].value),
        stored(g, service, characteristic, data) == g.update(
            j,
            GattView { value: data, ..g[j] },
        ),
    decreases g.len(),
{
    let rest = g.drop_first();
    if j > 0 {
        assert(!g[0].names(service, characteristic));
        assert forall|k: int| 0 <= k < j - 1 implies !(#[trigger] rest[k]).names(
            service,
            characteristic,
        ) by {
            assert(rest[k] == g[k + 1]);
        }
        first_entry_counts(rest, service, characteristic, data, j - 1);
    }
    assert(stored(g, service, characteristic, data) =~= g.update(
        j,
        GattView { value: data, ..g[j] },
    ));
}

/// A characteristic without an entry has no value.
pub proof fn no_entry_no_value(g: Seq<GattView>, service: Seq<u8>, characteristic: Seq<u8>)
    requires
        forall|k: int| 0 <= k < g.len() ==> !(#[trigger] g[k]).names(service, characteristic),
    ensures
        value_at(g, service, characteristic) is None,
    decreases g.len(),
{
    if g.len() > 0 {
        let rest = g.drop_first();
        assert(!g[0].names(service, characteristic));
        assert forall|k: int| 0 <= k < rest.len() implies !(#[trigger] rest[k]).names(
            service,
            characteristic,
        ) by {
            assert(rest[k] == g[k + 1]);
        }
        no_entry_no_value(rest, service, characteristic);
    }
}

/// The place of the first entry of a characteristic.
pub fn entry_position(g: &Vec<GattEntry>, service: Uuid, characteristic: Uuid) -> (r: Option<usize>)
    ensures
        match r {
            Some(j) => entry_at(gatt_view(g@), service@, characteristic@, j as int),
            None => value_at(gatt_view(g@), service@, characteristic@) is None,
        },
{
    let ghost all = gatt_view(g@);
    let mut j: usize = 0;
    while j < g.len()
        invariant
            j <= g@.len(),
            all == gatt_view(g@),
            forall|k: int| 0 <= k < j ==> !(#[trigger] all[k]).names(service@, characteristic@),
        decreases g@.len() - j,
    {
        assert(all[j as int] == g@[j as int]@);
        if g[j].service == service && g[j].characteristic == characteristic {
            return Some(j);
        }
        j = j + 1;
    }
    proof {
        no_entry_no_value(all, service@, characteristic@);
    }
    None
}

} // verus!
