//! What every Bluetooth backend offers, and the helpers built on it.
use std::sync::Arc;
use vstd::prelude::*;
use crate::address::BdAddr;
use crate::device::{DeviceId, DeviceInfo, DeviceView};
use crate::event::{EventOrigin, OriginView};
use crate::hardware::{ControllerModel, ControllerView};
use crate::pairing;
use crate::pairing::{PairingAgent, PairingOutcome, PairingRequest, PairingResponse};
use crate::peer;
use crate::standards::StandardsProfile;
use crate::text;
use crate::time::Duration;
use crate::transfer::{FileView, OutboundFile, ReceiptView, TransferReceipt};
use crate::transport_error::{TransportError, TransportErrorView};
use crate::uuid::Uuid;
use crate::version::{SpecContext, Transport};

verus! {

/// Which backend produced a value.
#[derive(Clone, Copy, Debug, PartialEq, Eq, Structural, Hash)]
#[non_exhaustive]
pub enum BackendKind {
    /// The in-memory mock.
    Mock,
    /// Linux BlueZ.
    BlueZ,
    /// btleplug, for Bluetooth LE.
    Btleplug,
    /// Android.
    Android,
    /// iOS.
    Ios,
}

impl BackendKind {
    /// The lower case name.
    pub open spec fn word(self) -> Seq<char> {
        match self {
            BackendKind::Mock => "mock"@,
            BackendKind::BlueZ => "bluez"@,
            BackendKind::Btleplug => "btleplug"@,
            BackendKind::Android => "android"@,
            BackendKind::Ios => "ios"@,
        }
    }

    /// The lower case name.
    pub fn name(self) -> (r: &'static str)
        ensures
            r@ == self.word(),
    {
        match self {
            BackendKind::Mock => "mock",
            BackendKind::BlueZ => "bluez",
            BackendKind::Btleplug => "btleplug",
            BackendKind::Android => "android",
            BackendKind::Ios => "ios",
        }
    }
}

/// What a backend can do.
#[derive(Clone, Debug, PartialEq, Eq)]
pub struct Capabilities {
    /// Which backend this is.
    pub kind: BackendKind,
    /// The radios it can use.
    pub transports: Vec<Transport>,
    /// Whether it can start a pairing.
    pub can_pair: bool,
    /// Whether it can push files.
    pub can_push_files: bool,
    /// How many pairings may run at once.
    pub max_concurrent_pairings: usize,
    /// Whether it can accept pairings from others.
    pub can_accept_pairings: bool,
    /// Whether it can read, write and watch GATT characteristics.
    pub can_gatt: bool,
    /// Whether it can change the local address.
    pub can_spoof_address: bool,
}

/// What a [`Capabilities`] holds.
pub struct CapabilitiesView {
    pub kind: BackendKind,
    pub transports: Seq<Transport>,
    pub can_pair: bool,
    pub can_push_files: bool,
    pub max_concurrent_pairings: usize,
    pub can_accept_pairings: bool,
    pub can_gatt: bool,
    pub can_spoof_address: bool,
}

impl View for Capabilities {
    type V = CapabilitiesView;

    open spec fn view(&self) -> CapabilitiesView {
        CapabilitiesView {
            kind: self.kind,
            transports: self.transports@,
            can_pair: self.can_pair,
            can_push_files: self.can_push_files,
            max_concurrent_pairings: self.max_concurrent_pairings,
            can_accept_pairings: self.can_accept_pairings,
            can_gatt: self.can_gatt,
            can_spoof_address: self.can_spoof_address,
        }
    }
}

impl Capabilities {
    /// Whether the backend offers the radio.
    pub fn supports(&self, transport: Transport) -> (r: bool)
        ensures
            r == self@.transports.contains(transport),
    {
        let mut i: usize = 0;
        while i < self.transports.len()
            invariant
                i <= self.transports@.len(),
                forall|k: int| 0 <= k < i ==> self.transports@[k] != transport,
            decreases self.transports@.len() - i,
        {
            if self.transports[i] == transport {
                return true;
            }
            i = i + 1;
        }
        false
    }
}

/// The local adapter.
#[derive(Clone, Debug, PartialEq, Eq)]
pub struct AdapterInfo {
    /// Its address.
    pub address: BdAddr,
    /// Its friendly name.
    pub name: String,
    /// Its hardware.
    pub controller: ControllerModel,
    /// Its specification context.
    pub spec: SpecContext,
    /// Whether it is powered on.
    pub powered: bool,
}

/// What an [`AdapterInfo`] holds.
pub struct AdapterView {
    pub address: BdAddr,
    pub name: Seq<char>,
    pub controller: ControllerView,
    pub spec: SpecContext,
    pub powered: bool,
}

impl View for AdapterInfo {
    type V = AdapterView;

    open spec fn view(&self) -> AdapterView {
        AdapterView {
            address: self.address,
            name: self.name@,
            controller: self.controller@,
            spec: self.spec,
            powered: self.powered,
        }
    }
}

/// A handle to a live connection.
#[derive(Debug, PartialEq, Eq)]
pub struct Connection {
    /// The peer.
    pub peer: DeviceId,
    /// The local controller.
    pub local: ControllerModel,
    /// The specification context of the link.
    pub spec: SpecContext,
    /// The standards context of the link.
    pub standards: StandardsProfile,
    /// The backend's number for the link.
    pub token: u64,
}

/// What a [`Connection`] holds.
pub struct ConnectionView {
    pub peer: DeviceId,
    pub local: ControllerView,
    pub spec: SpecContext,
    pub standards: StandardsProfile,
    pub token: u64,
}

impl View for Connection {
    type V = ConnectionView;

    open spec fn view(&self) -> ConnectionView {
        ConnectionView {
            peer: self.peer,
            local: self.local@,
            spec: self.spec,
            standards: self.standards,
            token: self.token,
        }
    }
}

impl ConnectionView {
    /// The origin of events on the connection.
    pub open spec fn origin(self) -> OriginView {
        OriginView {
            local: self.local,
            peer: self.peer,
            spec: self.spec,
            standards: self.standards,
        }
    }
}

impl Clone for Connection {
    fn clone(&self) -> (r: Connection)
        ensures
            r@ == self@,
    {
        Connection {
            peer: self.peer,
            local: self.local.clone(),
            spec: self.spec,
            standards: self.standards,
            token: self.token,
        }
    }
}

impl Connection {
    /// A connection handle.
    pub fn new(
        peer: DeviceId,
        local: ControllerModel,
        spec: SpecContext,
        standards: StandardsProfile,
        token: u64,
    ) -> (r: Connection)
        ensures
            r@ == (ConnectionView { peer, local: local@, spec, standards, token }),
    {
        Connection { peer, local, spec, standards, token }
    }

    /// The backend's number for the link.
    pub fn token(&self) -> (r: u64)
        ensures
            r == self@.token,
    {
        self.token
    }

    /// The origin of events on this connection.
    pub fn origin(&self) -> (r: EventOrigin)
        ensures
            r@ == self@.origin(),
    {
        EventOrigin::new(self.local.clone(), self.peer, self.spec, self.standards)
    }
}

/// What a scan reports; an empty filter admits every device.
#[derive(Clone, Debug)]
pub struct DiscoveryFilter {
    /// Only devices on this radio.
    pub transport: Option<Transport>,
    /// Only devices whose name holds this text, in any case.
    pub name_contains: Option<String>,
    /// Only devices at least this strong, in dBm.
    pub min_rssi: Option<i16>,
    /// At most this many devices.
    pub limit: Option<usize>,
}

/// What a [`DiscoveryFilter`] holds.
pub struct FilterView {
    pub transport: Option<Transport>,
    pub name_contains: Option<Seq<char>>,
    pub min_rssi: Option<i16>,
    pub limit: Option<usize>,
}

impl View for DiscoveryFilter {
    type V = FilterView;

    open spec fn view(&self) -> FilterView {
        FilterView {
            transport: self.transport,
            name_contains: text::optional(self.name_contains),
            min_rssi: self.min_rssi,
            limit: self.limit,
        }
    }
}

/// The lower case of an optional text.
pub open spec fn lowered(s: Option<Seq<char>>) -> Option<Seq<char>> {
    match s {
        Some(t) => Some(text::lowercase(t)),
        None => None,
    }
}

/// An optional borrowed text as a plain value.
pub open spec fn borrowed(s: Option<&str>) -> Option<Seq<char>> {
    match s {
        Some(t) => Some(t@),
        None => None,
    }
}

impl FilterView {
    /// The filter that admits everything.
    pub open spec fn any() -> FilterView {
        FilterView { transport: None, name_contains: None, min_rssi: None, limit: None }
    }

    /// Whether a filter admits a device, given the wanted and the actual name in lower
    /// case.
    pub open spec fn admits_named(
        self,
        d: DeviceView,
        needle: Option<Seq<char>>,
        name: Option<Seq<char>>,
    ) -> bool {
        &&& match self.min_rssi {
            Some(min) => match d.rssi {
                Some(r) => r >= min,
                None => false,
            },
            None => true,
        }
        &&& match needle {
            Some(part) => match name {
                Some(n) => text::has_text(n, part),
                None => false,
            },
            None => true,
        }
    }

    /// Whether a filter admits a device: strong enough, and named as asked.
    pub open spec fn admits(self, d: DeviceView) -> bool {
        self.admits_named(d, lowered(self.name_contains), lowered(d.name))
    }
}

/// The empty filter admits every device.
pub proof fn empty_filter_admits_all(d: DeviceView)
    ensures
        FilterView::any().admits(d),
{
}

/// A filter by strength admits exactly the devices measured at least that strong.
pub proof fn rssi_filter_is_exact(d: DeviceView, min: i16)
    ensures
        (FilterView { min_rssi: Some(min), ..FilterView::any() }).admits(d) <==> (d.rssi is Some
            && d.rssi->0 >= min),
{
}

impl Default for DiscoveryFilter {
    fn default() -> (r: DiscoveryFilter)
        ensures
            r@ == FilterView::any(),
    {
        DiscoveryFilter::new()
    }
}

impl DiscoveryFilter {
    /// The filter that admits everything.
    pub fn new() -> (r: DiscoveryFilter)
        ensures
            r@ == FilterView::any(),
    {
        DiscoveryFilter { transport: None, name_contains: None, min_rssi: None, limit: None }
    }

    /// The same filter on one radio.
    pub fn transport(self, t: Transport) -> (r: DiscoveryFilter)
        ensures
            r@ == (FilterView { transport: Some(t), ..self@ }),
    {
        DiscoveryFilter { transport: Some(t), ..self }
    }

    /// The same filter by name.
    pub fn name_contains(self, s: &str) -> (r: DiscoveryFilter)
        ensures
            r@ == (FilterView { name_contains: Some(s@), ..self@ }),
    {
        DiscoveryFilter { name_contains: Some(s.to_owned()), ..self }
    }

    /// The same filter by strength.
    pub fn min_rssi(self, dbm: i16) -> (r: DiscoveryFilter)
        ensures
            r@ == (FilterView { min_rssi: Some(dbm), ..self@ }),
    {
        DiscoveryFilter { min_rssi: Some(dbm), ..self }
    }

    /// The same filter with a cap on the number of devices.
    pub fn limit(self, n: usize) -> (r: DiscoveryFilter)
        ensures
            r@ == (FilterView { limit: Some(n), ..self@ }),
    {
        DiscoveryFilter { limit: Some(n), ..self }
    }

    /// Whether the filter admits a device, given the wanted and the actual name in
    /// lower case.
    pub fn accepts_named(&self, info: &DeviceInfo, needle: Option<&str>, name: Option<&str>) -> (r:
        bool)
        ensures
            r == self@.admits_named(info@, borrowed(needle), borrowed(name)),
    {
        if let Some(min) = self.min_rssi {
            match info.rssi {
                Some(rssi) => {
                    if rssi < min {
                        return false;
                    }
                },
                None => {
                    return false;
                },
            }
        }
        if let Some(part) = needle {
            match name {
                Some(n) => {
                    if !text::contains(n, part) {
                        return false;
                    }
                },
                None => {
                    return false;
                },
            }
        }
        true
    }

    /// Whether the filter admits a device. The radio and the cap are left to the
    /// backend.
    pub fn accepts(&self, info: &DeviceInfo) -> (r: bool)
        ensures
            r == self@.admits(info@),
    {
        let part: Option<String> = match &self.name_contains {
            Some(s) => Some(text::to_lowercase(s.as_str())),
            None => None,
        };
        let low: Option<String> = match &info.name {
            Some(n) => Some(text::to_lowercase(n.as_str())),
            None => None,
        };
        let needle: Option<&str> = match &part {
            Some(s) => Some(s.as_str()),
            None => None,
        };
        let name: Option<&str> = match &low {
            Some(n) => Some(n.as_str()),
            None => None,
        };
        self.accepts_named(info, needle, name)
    }
}

/// How long, and for how many devices, to accept pairings from others.
#[derive(Clone, Copy, Debug)]
pub struct InboundPairing {
    /// How long.
    pub window: Duration,
    /// After how many bonded devices to stop; one that fails to bond does not count.
    pub max_devices: Option<usize>,
}

impl InboundPairing {
    /// Accept for a window, without a cap.
    pub fn for_window(window: Duration) -> (r: InboundPairing)
        ensures
            r == (InboundPairing { window, max_devices: None }),
    {
        InboundPairing { window, max_devices: None }
    }

    /// The same window with a cap.
    pub fn max_devices(self, n: usize) -> (r: InboundPairing)
        ensures
            r == (InboundPairing { window: self.window, max_devices: Some(n) }),
    {
        InboundPairing { window: self.window, max_devices: Some(n) }
    }
}

impl Default for InboundPairing {
    fn default() -> (r: InboundPairing)
        ensures
            r.window.nanos == 30_000_000_000,
            r.max_devices is None,
    {
        InboundPairing::for_window(Duration::from_secs(30))
    }
}

/// Supplies the standards context of a link.
pub trait StandardsResolver: Send + Sync {
    /// The profile for events that involve `peer`.
    fn resolve(&self, peer: DeviceId) -> StandardsProfile;
}

/// A shared resolver.
pub type SharedStandardsResolver = Arc<dyn StandardsResolver>;

/// Resolves every peer to the plain BR/EDR profile.
#[derive(Clone, Copy, Debug, Default)]
pub struct DefaultStandards;

impl StandardsResolver for DefaultStandards {
    fn resolve(&self, peer: DeviceId) -> (r: StandardsProfile)
        ensures
            r == StandardsProfile::plain(),
    {
        StandardsProfile::bredr_default()
    }
}

/// Resolves every peer to one profile.
#[derive(Clone, Copy, Debug)]
pub struct StaticStandards(pub StandardsProfile);

impl StandardsResolver for StaticStandards {
    fn resolve(&self, peer: DeviceId) -> (r: StandardsProfile)
        ensures
            r == self.0,
    {
        self.0
    }
}

/// Resolves peers by calling a function.
pub struct StandardsFn<F: Fn(DeviceId) -> StandardsProfile + Send + Sync> {
    f: F,
}

impl<F: Fn(DeviceId) -> StandardsProfile + Send + Sync> StandardsFn<F> {
    /// The function accepts every peer.
    #[verifier::type_invariant]
    spec fn accepts_all(self) -> bool {
        forall|peer: DeviceId| call_requires(self.f, (peer,))
    }

    /// The function that resolves.
    pub closed spec fn callback(self) -> F {
        self.f
    }

    /// A resolver that calls `f`.
    pub fn new(f: F) -> (r: StandardsFn<F>)
        requires
            forall|peer: DeviceId| call_requires(f, (peer,)),
        ensures
            r.callback() == f,
    {
        StandardsFn { f }
    }
}

impl<F: Fn(DeviceId) -> StandardsProfile + Send + Sync> StandardsResolver for StandardsFn<F> {
    fn resolve(&self, peer: DeviceId) -> (r: StandardsProfile)
        ensures
            call_ensures(self.callback(), (peer,), r),
    {
        proof {
            use_type_invariant(self);
        }
        (self.f)(peer)
    }
}

/// One call to a backend, with what it returned.
#[allow(inconsistent_fields)]
pub enum BackendCall {
    Discover { filter: FilterView, result: Result<Seq<DeviceView>, TransportErrorView> },
    /// `answers` is what the agent of the pairing may answer to a request.
    Pair {
        target: DeviceId,
        answers: spec_fn(PairingRequest, PairingResponse) -> bool,
        result: Result<PairingOutcome, TransportErrorView>,
    },
    Connect { target: DeviceId, result: Result<ConnectionView, TransportErrorView> },
    Disconnect { conn: ConnectionView, result: Result<(), TransportErrorView> },
    Push { conn: ConnectionView, file: FileView, result: Result<ReceiptView, TransportErrorView> },
}

/// A list of devices as plain values.
pub open spec fn devices_view(v: Seq<DeviceInfo>) -> Seq<DeviceView> {
    v.map_values(|d: DeviceInfo| d@)
}

/// A result without a value, as plain values.
pub open spec fn done_view(r: Result<(), TransportError>) -> Result<(), TransportErrorView> {
    match r {
        Ok(u) => Ok(u),
        Err(e) => Err(e@),
    }
}

/// The result of a scan as plain values.
pub open spec fn found_view(r: Result<Vec<DeviceInfo>, TransportError>) -> Result<
    Seq<DeviceView>,
    TransportErrorView,
> {
    match r {
        Ok(v) => Ok(devices_view(v@)),
        Err(e) => Err(e@),
    }
}

/// The result of a pairing as plain values.
pub open spec fn paired_view(r: Result<PairingOutcome, TransportError>) -> Result<
    PairingOutcome,
    TransportErrorView,
> {
    match r {
        Ok(o) => Ok(o),
        Err(e) => Err(e@),
    }
}

/// The result of a connection as plain values.
pub open spec fn linked_view(r: Result<Connection, TransportError>) -> Result<
    ConnectionView,
    TransportErrorView,
> {
    match r {
        Ok(c) => Ok(c@),
        Err(e) => Err(e@),
    }
}

/// The result of a transfer as plain values.
pub open spec fn pushed_view(r: Result<TransferReceipt, TransportError>) -> Result<
    ReceiptView,
    TransportErrorView,
> {
    match r {
        Ok(t) => Ok(t@),
        Err(e) => Err(e@),
    }
}

/// What reading a characteristic gave, as plain values.
pub open spec fn read_view(r: Result<Vec<u8>, TransportError>) -> Result<
    Seq<u8>,
    TransportErrorView,
> {
    match r {
        Ok(v) => Ok(v@),
        Err(e) => Err(e@),
    }
}

/// Notifications as plain values.
pub open spec fn notes_view(v: Seq<(Uuid, Vec<u8>)>) -> Seq<(Seq<u8>, Seq<u8>)> {
    v.map_values(|n: (Uuid, Vec<u8>)| (n.0@, n.1@))
}

/// What watching a characteristic gave, as plain values.
pub open spec fn watched_view(r: Result<Vec<(Uuid, Vec<u8>)>, TransportError>) -> Result<
    Seq<(Seq<u8>, Seq<u8>)>,
    TransportErrorView,
> {
    match r {
        Ok(v) => Ok(notes_view(v@)),
        Err(e) => Err(e@),
    }
}

/// The error of an operation that a backend does not have.
pub open spec fn absent(operation: Seq<char>) -> TransportErrorView {
    TransportErrorView::Unsupported { backend: ""@, operation }
}

/// The error of an operation that the backend does not have.
pub fn unsupported(operation: &'static str) -> (r: TransportError)
    ensures
        r@ == absent(operation@),
{
    TransportError::Unsupported { backend: "", operation }
}

/// A Bluetooth backend.
///
/// The workflows on top of it are stated over the states that it passes through: `does`
/// says what each of the calls that every backend has may do to it. Both `does` and
/// `abilities` are ghost. A backend outside the verified code leaves them as they are:
/// nothing is then claimed of what its calls do.
pub trait BluetoothBackend: Sized {
    /// Whether a call, with what it returned, may lead from this state to `after`.
    open spec fn does(&self, call: BackendCall, after: &Self) -> bool {
        true
    }

    /// What the backend can do.
    open spec fn abilities(&self) -> CapabilitiesView {
        arbitrary()
    }

    /// A short label.
    fn name(&self) -> &str;

    /// What the backend can do.
    fn capabilities(&self) -> (r: Capabilities)
        ensures
            r@ == self.abilities(),
    ;

    /// The local adapter.
    fn adapter(&self) -> Result<AdapterInfo, TransportError>;

    /// Powers the adapter on or off.
    fn set_powered(&mut self, on: bool) -> Result<(), TransportError>;

    /// Presents `addr` as the local address from now on. A backend without the
    /// operation says so and does nothing.
    fn set_local_address(&mut self, addr: BdAddr) -> (r: Result<(), TransportError>)
        ensures
            final(self).abilities() == old(self).abilities(),
        default_ensures
            *final(self) == *old(self),
            done_view(r) == Err::<(), TransportErrorView>(absent("set_local_address"@)),
    {
        Err(unsupported("set_local_address"))
    }

    /// Scans for devices that the filter admits.
    fn discover(&mut self, filter: &DiscoveryFilter) -> (r: Result<Vec<DeviceInfo>, TransportError>)
        ensures
            final(self).abilities() == old(self).abilities(),
            old(self).does(BackendCall::Discover { filter: filter@, result: found_view(r) }, final(self)),
    ;

    /// Pairs with a device; `agent` answers for the user.
    fn pair<A: PairingAgent + ?Sized>(&mut self, target: DeviceId, agent: &A) -> (r: Result<
        PairingOutcome,
        TransportError,
    >)
        ensures
            final(self).abilities() == old(self).abilities(),
            old(self).does(
                BackendCall::Pair {
                    target,
                    answers: pairing::answers_of(agent),
                    result: paired_view(r),
                },
                final(self),
            ),
    ;

    /// Opens a connection.
    fn connect(&mut self, target: DeviceId) -> (r: Result<Connection, TransportError>)
        ensures
            final(self).abilities() == old(self).abilities(),
            old(self).does(BackendCall::Connect { target, result: linked_view(r) }, final(self)),
    ;

    /// Closes a connection.
    fn disconnect(&mut self, conn: &Connection) -> (r: Result<(), TransportError>)
        ensures
            final(self).abilities() == old(self).abilities(),
            old(self).does(BackendCall::Disconnect { conn: conn@, result: done_view(r) }, final(self)),
    ;

    /// Pushes a file over a connection.
    fn push_file(&mut self, conn: &Connection, file: &OutboundFile<'_>) -> (r: Result<
        TransferReceipt,
        TransportError,
    >)
        ensures
            final(self).abilities() == old(self).abilities(),
            old(self).does(BackendCall::Push { conn: conn@, file: file@, result: pushed_view(r) }, final(self)),
    ;

    /// Makes the adapter visible to scans, or not.
    fn set_discoverable(&mut self, on: bool, timeout: Option<Duration>) -> (r: Result<
        (),
        TransportError,
    >)
        default_ensures
            *final(self) == *old(self),
            done_view(r) == Err::<(), TransportErrorView>(absent("set_discoverable"@)),
    {
        Err(unsupported("set_discoverable"))
    }

    /// Makes the adapter accept pairings, or not.
    fn set_pairable(&mut self, on: bool, timeout: Option<Duration>) -> (r: Result<
        (),
        TransportError,
    >)
        default_ensures
            *final(self) == *old(self),
            done_view(r) == Err::<(), TransportErrorView>(absent("set_pairable"@)),
    {
        Err(unsupported("set_pairable"))
    }

    /// Accepts pairings that other devices start.
    fn accept_pairings<A: PairingAgent + ?Sized>(&mut self, agent: &A, opts: InboundPairing) -> (r:
        Result<Vec<DeviceId>, TransportError>)
        default_ensures
            *final(self) == *old(self),
            r is Err,
            r->Err_0@ == absent("accept_pairings"@),
    {
        Err(unsupported("accept_pairings"))
    }

    /// Reads a GATT characteristic. A backend without the operation says so and does
    /// nothing; so for the two that follow.
    fn gatt_read(&mut self, conn: &Connection, service: Uuid, characteristic: Uuid) -> (r: Result<
        Vec<u8>,
        TransportError,
    >)
        ensures
            final(self).abilities() == old(self).abilities(),
        default_ensures
            *final(self) == *old(self),
            read_view(r) == Err::<Seq<u8>, TransportErrorView>(absent("gatt_read"@)),
    {
        Err(unsupported("gatt_read"))
    }

    /// Writes a GATT characteristic.
    fn gatt_write(
        &mut self,
        conn: &Connection,
        service: Uuid,
        characteristic: Uuid,
        data: &[u8],
        with_response: bool,
    ) -> (r: Result<(), TransportError>)
        ensures
            final(self).abilities() == old(self).abilities(),
        default_ensures
            *final(self) == *old(self),
            done_view(r) == Err::<(), TransportErrorView>(absent("gatt_write"@)),
    {
        Err(unsupported("gatt_write"))
    }

    /// Watches a GATT characteristic: its notifications so far, in order.
    fn gatt_subscribe(&mut self, conn: &Connection, service: Uuid, characteristic: Uuid) -> (r:
        Result<Vec<(Uuid, Vec<u8>)>, TransportError>)
        ensures
            final(self).abilities() == old(self).abilities(),
        default_ensures
            *final(self) == *old(self),
            watched_view(r) == Err::<Seq<(Seq<u8>, Seq<u8>)>, TransportErrorView>(absent("gatt_subscribe"@)),
    {
        Err(unsupported("gatt_subscribe"))
    }
}

/// What a requested local address asks for.
#[derive(Debug)]
pub enum SpoofStep {
    /// Nothing.
    Keep,
    /// A change that the backend cannot make.
    Refuse(TransportError),
    /// A change to this address.
    Change(BdAddr),
}

/// The refusal of a change that the backend cannot make.
pub open spec fn refusal(kind: BackendKind) -> TransportErrorView {
    TransportErrorView::Unsupported { backend: kind.word(), operation: "set_local_address"@ }
}

/// What a requested local address asks of a backend: nothing without a request, and a
/// change only where the backend can make one.
pub fn spoof_step(spoof: Option<BdAddr>, caps: &Capabilities) -> (r: SpoofStep)
    ensures
        match spoof {
            None => r is Keep,
            Some(addr) => if caps@.can_spoof_address {
                r == SpoofStep::Change(addr)
            } else {
                r matches SpoofStep::Refuse(e) && e@ == refusal(caps@.kind)
            },
        },
{
    match spoof {
        None => SpoofStep::Keep,
        Some(addr) => {
            if !caps.can_spoof_address {
                SpoofStep::Refuse(
                    TransportError::Unsupported {
                        backend: caps.kind.name(),
                        operation: "set_local_address",
                    },
                )
            } else {
                SpoofStep::Change(addr)
            }
        },
    }
}

/// Whether a change of address leads from `before` to `after`, with the given result: no
/// call without a request or where the backend cannot, else one call. `changes` says
/// what a call may do.
pub open spec fn spoofed<B: BluetoothBackend>(
    changes: spec_fn(B, BdAddr, Result<(), TransportError>, B) -> bool,
    before: B,
    after: B,
    spoof: Option<BdAddr>,
    result: Result<(), TransportError>,
) -> bool {
    match spoof {
        None => after == before && result is Ok,
        Some(addr) => if !before.abilities().can_spoof_address {
            after == before && done_view(result) == Err::<(), TransportErrorView>(
                refusal(before.abilities().kind),
            )
        } else {
            changes(before, addr, result, after)
        },
    }
}

/// Changes the local address where one is asked for. A backend that cannot is not
/// called at all; any other is called once, and its result is returned.
pub fn apply_spoof<B: BluetoothBackend>(backend: &mut B, spoof: Option<BdAddr>) -> (r: Result<
    (),
    TransportError,
>)
    ensures
        final(backend).abilities() == old(backend).abilities(),
        spoofed(
            |s: B, a: BdAddr, r: Result<(), TransportError>, t: B|
                exists|b: &mut B|
                    *b == s && *final(b) == t && #[trigger] call_ensures(
                        B::set_local_address,
                        (b, a),
                        r,
                    ),
            *old(backend),
            *final(backend),
            spoof,
            r,
        ),
{
    if spoof.is_none() {
        return Ok(());
    }
    let caps = backend.capabilities();
    match spoof_step(spoof, &caps) {
        SpoofStep::Keep => Ok(()),
        SpoofStep::Refuse(e) => Err(e),
        SpoofStep::Change(addr) => backend.set_local_address(addr),
    }
}

/// Whether a scan under an optional other local address leads from `before` to `after`,
/// with what it found: where the change of address fails, its error and no scan.
pub open spec fn scanned_as<B: BluetoothBackend>(
    changes: spec_fn(B, BdAddr, Result<(), TransportError>, B) -> bool,
    before: B,
    after: B,
    spoof: Option<BdAddr>,
    filter: FilterView,
    found: Result<Seq<DeviceView>, TransportErrorView>,
) -> bool {
    exists|mid: B, change: Result<(), TransportError>|
        {
            &&& #[trigger] spoofed(changes, before, mid, spoof, change)
            &&& match change {
                Ok(_) => mid.does(BackendCall::Discover { filter, result: found }, &after),
                Err(e) => after == mid && found == Err::<Seq<DeviceView>, TransportErrorView>(e@),
            }
        }
}

/// Scans under an optional other local address. Where the change of address fails, its
/// error is the result and there is no scan.
pub fn discover_as<B: BluetoothBackend>(
    backend: &mut B,
    spoof: Option<BdAddr>,
    filter: &DiscoveryFilter,
) -> (r: Result<Vec<DeviceInfo>, TransportError>)
    ensures
        final(backend).abilities() == old(backend).abilities(),
        scanned_as(
            |s: B, a: BdAddr, r: Result<(), TransportError>, t: B|
                exists|b: &mut B|
                    *b == s && *final(b) == t && #[trigger] call_ensures(
                        B::set_local_address,
                        (b, a),
                        r,
                    ),
            *old(backend),
            *final(backend),
            spoof,
            filter@,
            found_view(r),
        ),
{
    match apply_spoof(backend, spoof) {
        Ok(_) => backend.discover(filter),
        Err(e) => Err(e),
    }
}

/// Whether connecting under an optional other local address leads from `before` to
/// `after`, with the given result: where the change of address fails, its error and no
/// connection.
pub open spec fn connected_as<B: BluetoothBackend>(
    changes: spec_fn(B, BdAddr, Result<(), TransportError>, B) -> bool,
    before: B,
    after: B,
    spoof: Option<BdAddr>,
    target: DeviceId,
    link: Result<ConnectionView, TransportErrorView>,
) -> bool {
    exists|mid: B, change: Result<(), TransportError>|
        {
            &&& #[trigger] spoofed(changes, before, mid, spoof, change)
            &&& match change {
                Ok(_) => mid.does(BackendCall::Connect { target, result: link }, &after),
                Err(e) => after == mid && link == Err::<ConnectionView, TransportErrorView>(e@),
            }
        }
}

/// Connects under an optional other local address. Where the change of address fails,
/// its error is the result and there is no connection.
pub fn connect_as<B: BluetoothBackend>(
    backend: &mut B,
    spoof: Option<BdAddr>,
    target: DeviceId,
) -> (r: Result<Connection, TransportError>)
    ensures
        final(backend).abilities() == old(backend).abilities(),
        connected_as(
            |s: B, a: BdAddr, r: Result<(), TransportError>, t: B|
                exists|b: &mut B|
                    *b == s && *final(b) == t && #[trigger] call_ensures(
                        B::set_local_address,
                        (b, a),
                        r,
                    ),
            *old(backend),
            *final(backend),
            spoof,
            target,
            linked_view(r),
        ),
{
    match apply_spoof(backend, spoof) {
        Ok(_) => backend.connect(target),
        Err(e) => Err(e),
    }
}

/// The listings of devices, each after an empty line.
pub open spec fn listings(v: Seq<DeviceView>) -> Seq<char>
    decreases v.len(),
{
    if v.len() == 0 {
        Seq::empty()
    } else {
        listings(v.drop_last()) + ("\n"@ + v.last().listing(peer::inferred(v.last())))
    }
}

/// The inventory of devices: how many, and the listing of each.
pub open spec fn inventory(v: Seq<DeviceView>) -> Seq<char> {
    "=== "@ + text::decimal(v.len()) + " device(s) in range ===\n"@ + listings(v)
}

/// The inventory of what a scan found, or the scan's error.
pub open spec fn inventory_of(found: Result<Seq<DeviceView>, TransportErrorView>) -> Result<
    Seq<char>,
    TransportErrorView,
> {
    match found {
        Ok(v) => Ok(inventory(v)),
        Err(e) => Err(e),
    }
}

/// A listing or an error, as plain values.
pub open spec fn listed_view(r: Result<String, TransportError>) -> Result<
    Seq<char>,
    TransportErrorView,
> {
    match r {
        Ok(t) => Ok(t@),
        Err(e) => Err(e@),
    }
}

/// The inventory of the given devices.
pub fn inventory_text(devices: &Vec<DeviceInfo>) -> (r: String)
    ensures
        r@ == inventory(devices_view(devices@)),
{
    let mut out = "=== ".to_owned();
    out.append(text::decimal_text(devices.len() as u128).as_str());
    out.append(" device(s) in range ===\n");
    let ghost all = devices_view(devices@);
    let mut rows = String::new();
    let mut i: usize = 0;
    assert(all.take(0) =~= Seq::empty());
    while i < devices.len()
        invariant
            i <= devices@.len(),
            all == devices_view(devices@),
            rows@ == listings(all.take(i as int)),
        decreases devices@.len() - i,
    {
        assert(all.take(i + 1).drop_last() =~= all.take(i as int));
        assert(all.take(i + 1).last() == devices@[i as int]@);
        let mut one = "\n".to_owned();
        one.append(devices[i].dump().as_str());
        rows.append(one.as_str());
        i = i + 1;
    }
    assert(all.take(i as int) =~= all);
    out.append(rows.as_str());
    out
}

/// Whether a scan under an optional other local address leads from `before` to `after`,
/// with the given listing of what it found.
pub open spec fn listed_as<B: BluetoothBackend>(
    changes: spec_fn(B, BdAddr, Result<(), TransportError>, B) -> bool,
    before: B,
    after: B,
    spoof: Option<BdAddr>,
    filter: FilterView,
    listing: Result<Seq<char>, TransportErrorView>,
) -> bool {
    exists|found: Result<Seq<DeviceView>, TransportErrorView>|
        {
            &&& #[trigger] scanned_as(changes, before, after, spoof, filter, found)
            &&& listing == inventory_of(found)
        }
}

/// Scans under an optional other local address and lists what is in range.
pub fn dump_in_range_as<B: BluetoothBackend>(
    backend: &mut B,
    spoof: Option<BdAddr>,
    filter: &DiscoveryFilter,
) -> (r: Result<String, TransportError>)
    ensures
        final(backend).abilities() == old(backend).abilities(),
        listed_as(
            |s: B, a: BdAddr, r: Result<(), TransportError>, t: B|
                exists|b: &mut B|
                    *b == s && *final(b) == t && #[trigger] call_ensures(
                        B::set_local_address,
                        (b, a),
                        r,
                    ),
            *old(backend),
            *final(backend),
            spoof,
            filter@,
            listed_view(r),
        ),
{
    let devices = discover_as(backend, spoof, filter);
    match devices {
        Ok(v) => Ok(inventory_text(&v)),
        Err(e) => Err(e),
    }
}

/// Scans and lists what is in range.
pub fn dump_in_range<B: BluetoothBackend>(backend: &mut B, filter: &DiscoveryFilter) -> (r: Result<
    String,
    TransportError,
>)
    ensures
        final(backend).abilities() == old(backend).abilities(),
        exists|found: Result<Seq<DeviceView>, TransportErrorView>|
            {
                &&& #[trigger] old(backend).does(
                    BackendCall::Discover { filter: filter@, result: found },
                    final(backend),
                )
                &&& listed_view(r) == inventory_of(found)
            },
{
    dump_in_range_as(backend, None, filter)
}

} // verus!
