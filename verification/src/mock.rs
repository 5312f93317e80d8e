//! A deterministic in-memory backend: scripted devices and a virtual clock.
use std::collections::HashMap;
use vstd::prelude::*;
use crate::adapter;
use crate::address::BdAddr;
use crate::backend;
use crate::backend::{
    AdapterInfo, AdapterView, BackendCall, BackendKind, BluetoothBackend, Capabilities,
    CapabilitiesView, Connection, DiscoveryFilter, InboundPairing,
};
use crate::device::{DeviceId, DeviceInfo};
use crate::event::{Direction, EventOrigin, EventView, TransitEvent, TransitEventKind};
use crate::hardware::ControllerModel;
use crate::mock_device;
use crate::mock_device::{MockDevice, MockDeviceView};
use crate::mock_model;
use crate::mock_model::{Beat, MockView, STEP_NANOS};
use crate::observe;
use crate::observe::SharedObserver;
use crate::pairing;
use crate::pairing::{PairingAgent, PairingOutcome, PairingResponse};
use crate::standards::StandardsProfile;
use crate::text;
use crate::time::{Duration, Timestamp};
use crate::transfer::{OutboundFile, TransferReceipt};
use crate::transport_error::TransportError;
use crate::uuid::Uuid;
use crate::version::{CoreVersion, SpecContext, Transport};

verus! {

broadcast use vstd::std_specs::hash::group_hash_axioms;

/// The mock backend. It reports every event to its observer, stamped by a virtual clock
/// that only its own operations move.
pub struct MockBackend {
    name: String,
    adapter_address: BdAddr,
    adapter_name: String,
    controller: ControllerModel,
    spec: SpecContext,
    powered: bool,
    observer: Option<SharedObserver>,
    devices: Vec<MockDevice>,
    incoming: Vec<MockDevice>,
    seq: u64,
    clock_ns: u128,
    connections: HashMap<u64, DeviceId>,
    next_token: u64,
    paired: Vec<DeviceId>,
    trace: Ghost<Seq<EventView>>,
}

impl View for MockBackend {
    type V = MockView;

    /// The whole state, with the trace of the events reported so far.
    closed spec fn view(&self) -> MockView {
        MockView {
            name: self.name@,
            address: self.adapter_address,
            adapter_name: self.adapter_name@,
            controller: self.controller@,
            spec: self.spec,
            powered: self.powered,
            devices: mock_device::script_view(self.devices@),
            incoming: mock_device::script_view(self.incoming@),
            seq: self.seq as nat,
            clock: self.clock_ns as nat,
            connections: self.connections@,
            next_token: self.next_token,
            paired: self.paired@.to_set(),
            trace: self.trace@,
        }
    }
}

/// What the mock can do: everything, on every radio, without limit.
pub open spec fn mock_abilities() -> CapabilitiesView {
    adapter::abilities_of(BackendKind::Mock)
}

/// Whether the observer, if there is one, was handed an event.
pub open spec fn was_handed(observer: Option<SharedObserver>, event: EventView) -> bool {
    match observer {
        Some(o) => exists|e: TransitEvent| e@ == event && #[trigger] observe::handed(&*o, &e),
        None => true,
    }
}

impl MockBackend {
    /// The observer, if there is one.
    pub closed spec fn reports_to(self) -> Option<SharedObserver> {
        self.observer
    }

    /// Whether the observer, if there is one, was handed every event of the trace.
    pub open spec fn all_handed(self) -> bool {
        forall|i: int|
            0 <= i < self@.trace.len() ==> was_handed(
                self.reports_to(),
                #[trigger] self@.trace[i],
            )
    }

    /// A builder with the default adapter and no devices.
    pub fn builder() -> (r: MockBackendBuilder)
        ensures
            r.is_default(),
    {
        MockBackendBuilder::new()
    }

    /// The local controller.
    pub fn controller(&self) -> (r: &ControllerModel)
        ensures
            r@ == self@.controller,
    {
        &self.controller
    }

    /// The virtual time.
    pub fn now(&self) -> (r: Timestamp)
        ensures
            r.nanos == self@.clock,
    {
        Timestamp::from_nanos(self.clock_ns)
    }

    /// Reports an event, stamped with the virtual time, and lets `dt` pass.
    fn emit(&mut self, origin: EventOrigin, kind: TransitEventKind, dt: Duration)
        requires
            mock_model::has_room(old(self)@, 1, dt.nanos as nat),
        ensures
            final(self)@ == mock_model::played(
                old(self)@,
                Beat { origin: origin@, kind: kind@, dt: dt.nanos },
            ),
            final(self).reports_to() == old(self).reports_to(),
            old(self).all_handed() ==> final(self).all_handed(),
    {
        let event = TransitEvent::new(
            self.seq,
            Timestamp::from_nanos(self.clock_ns),
            origin,
            kind,
        );
        self.seq = self.seq + 1;
        self.clock_ns = self.clock_ns + dt.as_nanos();
        self.trace = Ghost(self.trace@.push(event@));
        match &self.observer {
            Some(o) => {
                o.on_event(&event);
                assert(observe::handed(&**o, &event));
            },
            None => {},
        }
    }

    /// The place of the first device with the given identity.
    fn position(&self, id: DeviceId) -> (r: Option<usize>)
        ensures
            match r {
                Some(i) => mock_model::first_at(self@.devices, id, i as int) && mock_model::known(
                    self@.devices,
                    id,
                ) == Some(self@.devices[i as int]),
                None => mock_model::known(self@.devices, id) is None,
            },
    {
        let mut i: usize = 0;
        while i < self.devices.len()
            invariant
                i <= self.devices@.len(),
                forall|k: int| 0 <= k < i ==> (#[trigger] self@.devices[k]).info.id != id,
            decreases self.devices@.len() - i,
        {
            assert(self@.devices[i as int] == self.devices@[i as int]@);
            if self.devices[i].info.id == id {
                proof {
                    mock_model::first_is_known(self@.devices, id, i as int);
                }
                return Some(i);
            }
            i = i + 1;
        }
        proof {
            mock_model::absent_is_unknown(self@.devices, id);
        }
        None
    }

    /// A copy of the first device with the given identity.
    fn lookup(&self, id: DeviceId) -> (r: Option<MockDevice>)
        ensures
            match r {
                Some(d) => mock_model::known(self@.devices, id) == Some(d@),
                None => mock_model::known(self@.devices, id) is None,
            },
    {
        match self.position(id) {
            Some(i) => {
                assert(self@.devices[i as int] == self.devices@[i as int]@);
                Some(self.devices[i].clone())
            },
            None => None,
        }
    }

    /// The origin of events that concern the adapter alone.
    fn adapter_origin(&self) -> (r: EventOrigin)
        ensures
            r@ == mock_model::adapter_origin_of(self@),
    {
        EventOrigin::new(
            self.controller.clone(),
            DeviceId::default(),
            self.spec,
            StandardsProfile::bredr_default(),
        )
    }

    /// The time that an event takes where nothing else is scripted.
    pub fn step(&self) -> (r: Duration)
        ensures
            r.nanos == STEP_NANOS,
    {
        Duration::from_millis(1)
    }

    /// Whether there is room for more events and time.
    fn room(&self, events: u128, nanos: u128) -> (r: bool)
        ensures
            r == mock_model::has_room(self@, events as nat, nanos as nat),
    {
        let used: u128 = self.seq as u128;
        match used.checked_add(events) {
            Some(n) => if n <= u64::MAX as u128 {
                match self.clock_ns.checked_add(nanos) {
                    Some(_) => true,
                    None => false,
                }
            } else {
                false
            },
            None => false,
        }
    }

    /// The error of an operation for which there is no room.
    fn no_room() -> (r: TransportError)
        ensures
            r@ == mock_model::exhausted(),
    {
        TransportError::Unavailable("the virtual clock is exhausted".to_owned())
    }

    /// Marks a device as paired.
    fn mark_paired(&mut self, id: DeviceId)
        ensures
            final(self)@ == (MockView { paired: old(self)@.paired.insert(id), ..old(self)@ }),
            final(self).reports_to() == old(self).reports_to(),
            old(self).all_handed() ==> final(self).all_handed(),
    {
        let ghost before = self.paired@;
        let mut i: usize = 0;
        while i < self.paired.len()
            invariant
                i <= self.paired@.len(),
                self.paired@ == before,
                *self == *old(self),
                forall|k: int| 0 <= k < i ==> self.paired@[k] != id,
            decreases self.paired@.len() - i,
        {
            if self.paired[i] == id {
                assert(before.contains(id)) by {
                    assert(before[i as int] == id);
                }
                assert(before.to_set() =~= before.to_set().insert(id));
                return ;
            }
            i = i + 1;
        }
        self.paired.push(id);
        assert(before.push(id).to_set() =~= before.to_set().insert(id)) by {
            assert forall|x: DeviceId| before.push(id).contains(x) <==> (before.contains(x) || x
                == id) by {
                if before.contains(x) {
                    let k = choose|k: int| 0 <= k < before.len() && before[k] == x;
                    assert(before.push(id)[k] == x);
                }
                if x == id {
                    assert(before.push(id)[before.len() as int] == id);
                }
            }
        }
    }

    /// Ends a pairing under way with the agent's answer.
    pub fn settle_pairing(&mut self, device: &MockDevice, response: &PairingResponse) -> (r: Result<
        PairingOutcome,
        TransportError,
    >)
        requires
            mock_model::has_room(old(self)@, 1, STEP_NANOS as nat),
        ensures
            final(self)@ == mock_model::settled(old(self)@, device@, response@),
            final(self).reports_to() == old(self).reports_to(),
            old(self).all_handed() ==> final(self).all_handed(),
            backend::paired_view(r) == mock_model::verdict(device@, response@),
    {
        let origin = device.origin(&self.controller);
        let step = self.step();
        if response.declines() {
            let reason = "declined by pairing agent".to_owned();
            self.emit(origin, TransitEventKind::PairingFailed { reason: reason.clone() }, step);
            return Err(TransportError::PairingRejected(reason));
        }
        if let Some(reason) = &device.pairing_failure {
            self.emit(origin, TransitEventKind::PairingFailed { reason: reason.clone() }, step);
            return Err(TransportError::PairingFailed(reason.clone()));
        }
        self.mark_paired(device.info.id);
        self.emit(origin, TransitEventKind::PairingCompleted, step);
        Ok(PairingOutcome::bonded(device.pairing_method))
    }

    /// Starts a pairing with a device and asks the agent.
    fn pair_through<A: PairingAgent + ?Sized>(&mut self, target: DeviceId, agent: &A) -> (r: Result<
        PairingOutcome,
        TransportError,
    >)
        ensures
            mock_model::pairs(
                old(self)@,
                target,
                pairing::answers_of(agent),
                final(self)@,
                backend::paired_view(r),
            ),
            final(self).reports_to() == old(self).reports_to(),
            old(self).all_handed() ==> final(self).all_handed(),
    {
        let device = match self.lookup(target) {
            Some(d) => d,
            None => {
                return Err(TransportError::DeviceNotFound(target));
            },
        };
        if !self.room(2, 2 * STEP_NANOS) {
            return Err(MockBackend::no_room());
        }
        let origin = device.origin(&self.controller);
        let method = device.pairing_method;
        let step = self.step();
        self.emit(origin, TransitEventKind::PairingStarted { method }, step);
        let request = mock_device::request_for(method);
        let response = agent.respond(request);
        assert(pairing::answers_of(agent)(request, response));
        self.settle_pairing(&device, &response)
    }

    /// The devices that a scan shows.
    fn in_view(&self, filter: &DiscoveryFilter) -> (r: Vec<MockDevice>)
        ensures
            mock_device::script_view(r@) == mock_model::shown(self@.devices, filter@),
    {
        let ghost all = self@.devices;
        let ghost f = filter@;
        let ghost vis = |d: MockDeviceView| mock_model::visible(f, d);
        let mut out: Vec<MockDevice> = Vec::new();
        let mut i: usize = 0;
        proof {
            let none = Seq::<MockDeviceView>::empty();
            assert(all.take(0) =~= none);
            reveal(Seq::filter);
            assert(none.filter(vis) =~= none);
            assert(mock_device::script_view(out@) =~= none);
        }
        while i < self.devices.len()
            invariant
                i <= self.devices@.len(),
                all == self@.devices,
                f == filter@,
                vis == (|d: MockDeviceView| mock_model::visible(f, d)),
                mock_device::script_view(out@) == all.take(i as int).filter(vis),
                f.limit matches Some(l) ==> out@.len() <= l,
            decreases self.devices@.len() - i,
        {
            let ghost part = all.take(i as int).filter(vis);
            assert(all[i as int] == self.devices@[i as int]@);
            proof {
                mock_model::shown_so_far(all, f, i as int);
                assert(out@.len() == mock_device::script_view(out@).len());
            }
            let dev = self.devices[i].clone();
            let met: bool = match filter.transport {
                Some(t) => {
                    let d = dev.spec.transport;
                    d == t || d == Transport::Dual || t == Transport::Dual
                },
                None => true,
            };
            if met && filter.accepts(&dev.info) {
                if let Some(limit) = filter.limit {
                    if out.len() >= limit {
                        assert(mock_model::shown(all, f) =~= part);
                        return out;
                    }
                }
                let ghost before = out@;
                out.push(dev);
                assert(mock_device::script_view(out@) =~= mock_device::script_view(before).push(
                    all[i as int],
                ));
            }
            i = i + 1;
        }
        proof {
            assert(all.take(i as int) =~= all);
            assert(out@.len() == mock_device::script_view(out@).len());
            assert(mock_model::shown(all, f) =~= all.filter(vis));
        }
        out
    }

    /// Scans the scripted devices.
    fn scan(&mut self, filter: &DiscoveryFilter) -> (r: Result<Vec<DeviceInfo>, TransportError>)
        ensures
            mock_model::scans(old(self)@, filter@, final(self)@, backend::found_view(r)),
            final(self).reports_to() == old(self).reports_to(),
            old(self).all_handed() ==> final(self).all_handed(),
    {
        let ghost s = self@;
        let found = self.in_view(filter);
        let ghost ds = mock_device::script_view(found@);
        assert(ds.len() == found@.len());
        let n: u128 = found.len() as u128 + 1;
        if !self.room(n, n * STEP_NANOS) {
            return Err(MockBackend::no_room());
        }
        let step = self.step();
        let origin = self.adapter_origin();
        self.emit(origin, TransitEventKind::DiscoveryStarted, step);
        let mut out: Vec<DeviceInfo> = Vec::new();
        let mut i: usize = 0;
        proof {
            let none = Seq::<MockDeviceView>::empty();
            assert(ds.take(0) =~= none);
            let first = mock_model::scan_beats(s, none);
            assert(first.drop_last() =~= Seq::empty());
            assert(mock_model::ran(s, first.drop_last()) == s);
            assert(self@ == mock_model::ran(s, first));
            assert(backend::devices_view(out@) =~= mock_model::infos(none));
        }
        while i < found.len()
            invariant
                i <= found@.len(),
                ds == mock_device::script_view(found@),
                ds.len() == found@.len(),
                step.nanos == STEP_NANOS,
                self.reports_to() == old(self).reports_to(),
                old(self).all_handed() ==> self.all_handed(),
                n == ds.len() + 1,
                mock_model::has_room(s, n as nat, n as nat * STEP_NANOS as nat),
                self@ == mock_model::ran(s, mock_model::scan_beats(s, ds.take(i as int))),
                self@.controller == s.controller,
                backend::devices_view(out@) == mock_model::infos(ds.take(i as int)),
            decreases found@.len() - i,
        {
            let ghost part = ds.take(i as int);
            assert(ds[i as int] == found@[i as int]@);
            proof {
                mock_model::scan_takes(s, part);
                mock_model::running_moves_on(s, mock_model::scan_beats(s, part));
                assert((part.len() + 1) * STEP_NANOS as nat + STEP_NANOS as nat <= n as nat
                    * STEP_NANOS as nat) by (nonlinear_arith)
                    requires
                        part.len() + 2 <= n,
                ;
            }
            let origin = found[i].origin(&self.controller);
            let rssi = found[i].info.rssi;
            self.emit(origin, TransitEventKind::DeviceDiscovered { rssi }, step);
            let ghost before = out@;
            out.push(found[i].info.clone());
            proof {
                let more = ds.take(i + 1);
                assert(more.drop_last() =~= part);
                let b = mock_model::scan_beats(s, more);
                assert(b.drop_last() =~= mock_model::scan_beats(s, part));
                assert(backend::devices_view(out@) =~= backend::devices_view(before).push(
                    ds[i as int].info,
                ));
                assert(mock_model::infos(more) =~= mock_model::infos(part).push(
                    ds[i as int].info,
                ));
            }
            i = i + 1;
        }
        assert(ds.take(i as int) =~= ds);
        Ok(out)
    }

    /// Opens a connection to a scripted device.
    fn link(&mut self, target: DeviceId) -> (r: Result<Connection, TransportError>)
        ensures
            mock_model::connects(old(self)@, target, final(self)@, backend::linked_view(r)),
            final(self).reports_to() == old(self).reports_to(),
            old(self).all_handed() ==> final(self).all_handed(),
    {
        let device = match self.lookup(target) {
            Some(d) => d,
            None => {
                return Err(TransportError::DeviceNotFound(target));
            },
        };
        if !self.room(1, STEP_NANOS) || self.next_token == u64::MAX {
            return Err(MockBackend::no_room());
        }
        let token: u64 = self.next_token;
        self.next_token = token + 1;
        self.connections.insert(token, target);
        let origin = device.origin(&self.controller);
        let step = self.step();
        self.emit(origin, TransitEventKind::Connected, step);
        Ok(
            Connection::new(
                target,
                self.controller.clone(),
                device.spec,
                device.standards,
                token,
            ),
        )
    }

    /// Closes a live connection.
    fn unlink(&mut self, conn: &Connection) -> (r: Result<(), TransportError>)
        ensures
            mock_model::disconnects(old(self)@, conn@, final(self)@, backend::done_view(r)),
            final(self).reports_to() == old(self).reports_to(),
            old(self).all_handed() ==> final(self).all_handed(),
    {
        if !self.connections.contains_key(&conn.token) {
            return Err(TransportError::NotConnected(conn.peer));
        }
        if !self.room(1, STEP_NANOS) {
            return Err(MockBackend::no_room());
        }
        self.connections.remove(&conn.token);
        let step = self.step();
        self.emit(conn.origin(), TransitEventKind::Disconnected { reason: None }, step);
        Ok(())
    }

    /// The device at the other end of a live connection.
    fn reach(&self, conn: &Connection) -> (r: Result<MockDevice, TransportError>)
        ensures
            match r {
                Ok(d) => mock_model::reached(self@, conn@) == Ok::<
                    MockDeviceView,
                    crate::transport_error::TransportErrorView,
                >(d@),
                Err(e) => mock_model::reached(self@, conn@) == Err::<
                    MockDeviceView,
                    crate::transport_error::TransportErrorView,
                >(e@),
            },
    {
        if !self.connections.contains_key(&conn.token) {
            return Err(TransportError::NotConnected(conn.peer));
        }
        match self.lookup(conn.peer) {
            Some(d) => Ok(d),
            None => Err(TransportError::DeviceNotFound(conn.peer)),
        }
    }

    /// How many chunks of a file get through to a device.
    fn chunks_of(device: &MockDevice, total: u64, chunk_size: u64) -> (r: u128)
        requires
            chunk_size == mock_model::chunk_of(device@),
        ensures
            r == mock_model::chunks_through(device@, total as nat),
            r <= total,
    {
        let size: u128 = chunk_size as u128;
        proof {
            let x = total + chunk_size - 1;
            assert(0 <= x / (chunk_size as int) <= total) by (nonlinear_arith)
                requires
                    x == total + chunk_size - 1,
                    chunk_size >= 1,
                    total >= 0,
            ;
        }
        match device.transfer_failure_after {
            Some(limit) if limit < total => {
                assert(0 <= limit / chunk_size <= limit) by (nonlinear_arith)
                    requires
                        chunk_size >= 1,
                ;
                (limit / chunk_size) as u128
            },
            _ => (total as u128 + size - 1) / size,
        }
    }

    /// Pushes a file in chunks, until the end or the scripted failure.
    fn send(&mut self, conn: &Connection, file: &OutboundFile<'_>) -> (r: Result<
        TransferReceipt,
        TransportError,
    >)
        ensures
            mock_model::pushes(old(self)@, conn@, file@, final(self)@, backend::pushed_view(r)),
            final(self).reports_to() == old(self).reports_to(),
            old(self).all_handed() ==> final(self).all_handed(),
    {
        let ghost s = self@;
        let device = match self.reach(conn) {
            Ok(d) => d,
            Err(e) => {
                return Err(e);
            },
        };
        let ghost d = device@;
        let total: u64 = file.len();
        let chunk_size: u64 = if device.chunk_size == 0 {
            1
        } else {
            device.chunk_size
        };
        let latency: u128 = device.per_chunk_latency.as_nanos();
        let ghost size = chunk_size as nat;
        assert(size == mock_model::chunk_of(d));
        let count: u128 = MockBackend::chunks_of(&device, total, chunk_size);
        let fits: bool = match count.checked_mul(latency) {
            Some(t) => match t.checked_add(2 * STEP_NANOS) {
                Some(nanos) => self.room(2 * count + 2, nanos),
                None => false,
            },
            None => false,
        };
        if !fits {
            return Err(MockBackend::no_room());
        }
        assert(mock_model::room_for_transfer(s, file@, d));
        let step = self.step();
        let start = self.now();
        self.emit(
            conn.origin(),
            TransitEventKind::TransferStarted { name: file.name.clone(), total_bytes: total },
            step,
        );
        let mut transferred: u64 = 0;
        let mut chunks: u64 = 0;
        proof {
            let first = mock_model::chunk_beats(conn@, file@, d, 0);
            assert(first.drop_last() =~= Seq::empty());
            assert(mock_model::ran(s, first.drop_last()) == s);
            assert(self@ == mock_model::ran(s, first));
            assert(0 * size == 0) by (nonlinear_arith);
        }
        while transferred < total
            invariant
                s == old(self)@,
                s.connections.contains_key(conn@.token),
                mock_model::known(s.devices, conn@.peer) == Some(d),
                size == chunk_size,
                size == mock_model::chunk_of(d),
                size >= 1,
                total == file@.bytes.len(),
                d == device@,
                latency == d.per_chunk_latency.nanos,
                count == mock_model::chunks_through(d, total as nat),
                step.nanos == STEP_NANOS,
                mock_model::room_for_transfer(s, file@, d),
                self.reports_to() == old(self).reports_to(),
                old(self).all_handed() ==> self.all_handed(),
                transferred == mock_model::sent(total as nat, size, chunks as nat),
                chunks > 0 ==> (chunks - 1) * size < total,
                chunks <= count,
                self@ == mock_model::ran(
                    s,
                    mock_model::chunk_beats(conn@, file@, d, chunks as nat),
                ),
                d.transfer_failure_after matches Some(l) ==> transferred <= l,
            decreases total - transferred,
        {
            let ghost k = chunks as nat;
            let ghost beats = mock_model::chunk_beats(conn@, file@, d, k);
            proof {
                mock_model::next_chunk(total as nat, size, k);
                mock_model::chunks_take(conn@, file@, d, k);
                mock_model::running_moves_on(s, beats);
            }
            let left: u64 = total - transferred;
            let n: u64 = if chunk_size < left {
                chunk_size
            } else {
                left
            };
            if let Some(limit) = device.transfer_failure_after {
                if transferred + n > limit {
                    let mut reason = "simulated link failure at ".to_owned();
                    reason.append(text::decimal_text(limit as u128).as_str());
                    reason.append(" bytes");
                    proof {
                        mock_model::cut_counted(limit as nat, size, k);
                        assert(mock_model::chunks_through(d, total as nat) == k);
                        let all = mock_model::transfer_beats(conn@, file@, d);
                        assert(all.drop_last() =~= beats);
                    }
                    self.emit(
                        conn.origin(),
                        TransitEventKind::Error { detail: reason.clone() },
                        step,
                    );
                    return Err(TransportError::TransferFailed { transferred, reason });
                }
            }
            proof {
                mock_model::not_all_through(d, total as nat, k);
                assert(k * latency as nat + latency as nat <= count as nat * latency as nat)
                    by (nonlinear_arith)
                    requires
                        k + 1 <= count,
                ;
            }
            self.emit(
                conn.origin(),
                TransitEventKind::DataChunk { direction: Direction::Outbound, bytes: n },
                device.per_chunk_latency,
            );
            transferred = transferred + n;
            chunks = chunks + 1;
            self.emit(
                conn.origin(),
                TransitEventKind::TransferProgress { transferred, total },
                Duration::zero(),
            );
            proof {
                let more = mock_model::chunk_beats(conn@, file@, d, k + 1);
                let one = more.drop_last();
                assert(one.drop_last() =~= beats);
                assert(mock_model::ran(s, one) == mock_model::played(
                    mock_model::ran(s, beats),
                    one.last(),
                ));
                assert(self@ == mock_model::ran(s, more));
            }
        }
        let ghost k = chunks as nat;
        let ghost beats = mock_model::chunk_beats(conn@, file@, d, k);
        proof {
            mock_model::counted(total as nat, size, k);
            mock_model::chunks_take(conn@, file@, d, k);
            mock_model::running_moves_on(s, beats);
            assert(mock_model::chunks_through(d, total as nat) == k);
            let all = mock_model::transfer_beats(conn@, file@, d);
            assert(all.drop_last() =~= beats);
        }
        let duration = self.now().saturating_since(start);
        assert(duration.nanos == mock_model::transfer_time(d, k));
        self.emit(
            conn.origin(),
            TransitEventKind::TransferCompleted { bytes: transferred, duration },
            step,
        );
        Ok(TransferReceipt { object_name: file.name.clone(), bytes: transferred, chunks, duration })
    }

    /// Meets the incoming devices in turn.
    fn meet<A: PairingAgent + ?Sized>(&mut self, agent: &A, opts: InboundPairing) -> (r: Result<
        Vec<DeviceId>,
        TransportError,
    >)
        ensures
            mock_model::accepts(
                old(self)@,
                agent,
                opts.window,
                opts.max_devices,
                final(self)@,
                match r {
                    Ok(v) => Ok(v@),
                    Err(e) => Err(e@),
                },
            ),
            final(self).reports_to() == old(self).reports_to(),
            old(self).all_handed() ==> final(self).all_handed(),
    {
        let ghost s = self@;
        let n: usize = self.incoming.len();
        assert(n == s.incoming.len());
        let mut bonded: Vec<DeviceId> = Vec::new();
        let ghost mut answers = Seq::<PairingResponse>::empty();
        let mut i: usize = 0;
        let step = self.step();
        let ghost ds = s.incoming;
        assert(ds.take(0) =~= Seq::empty());
        while i < n && wants_more(opts.max_devices, bonded.len())
            invariant
                i <= n,
                n == ds.len(),
                s == old(self)@,
                ds == s.incoming,
                step.nanos == STEP_NANOS,
                self.reports_to() == old(self).reports_to(),
                old(self).all_handed() ==> self.all_handed(),
                answers.len() == i,
                self@ == mock_model::met(s, ds.take(i as int), answers),
                self@.incoming == s.incoming,
                bonded@ == mock_model::bonded_ids(ds.take(i as int), answers),
                forall|k: int|
                    0 <= k < i ==> pairing::may_answer(
                        agent,
                        mock_device::asked(ds[k].pairing_method),
                        #[trigger] answers[k],
                    ),
                forall|k: int|
                    0 <= k < i ==> mock_model::goes_on(
                        opts.max_devices,
                        (#[trigger] mock_model::bonded_ids(ds.take(k), answers)).len(),
                    ),
                forall|k: int|
                    0 <= k < i ==> mock_model::has_room(
                        #[trigger] mock_model::met(s, ds.take(k), answers),
                        2,
                        2 * STEP_NANOS as nat,
                    ),
            decreases n - i,
        {
            if !self.room(2, 2 * STEP_NANOS) {
                assert(mock_model::received(s, agent, opts.max_devices, answers));
                return Err(MockBackend::no_room());
            }
            assert(self.incoming@.len() == self@.incoming.len());
            let device = self.incoming[i].clone();
            assert(self@.incoming[i as int] == self.incoming@[i as int]@);
            assert(device@ == ds[i as int]);
            let ghost said = answers;
            let origin = device.origin(&self.controller);
            let method = device.pairing_method;
            self.emit(origin, TransitEventKind::PairingStarted { method }, step);
            let request = mock_device::request_for(method);
            let response = agent.respond(request);
            assert(pairing::may_answer(agent, request, response));
            let verdict = self.settle_pairing(&device, &response);
            proof {
                answers = said.push(response);
                assert(ds.take(i + 1).drop_last() =~= ds.take(i as int));
                same_meeting(s, ds.take(i as int), said, answers);
                assert forall|k: int| 0 <= k < i + 1 implies mock_model::goes_on(
                    opts.max_devices,
                    (#[trigger] mock_model::bonded_ids(ds.take(k), answers)).len(),
                ) by {
                    same_meeting(s, ds.take(k), said, answers);
                }
                assert forall|k: int| 0 <= k < i + 1 implies mock_model::has_room(
                    #[trigger] mock_model::met(s, ds.take(k), answers),
                    2,
                    2 * STEP_NANOS as nat,
                ) by {
                    same_meeting(s, ds.take(k), said, answers);
                }
                assert forall|k: int| 0 <= k < i + 1 implies pairing::may_answer(
                    agent,
                    mock_device::asked(ds[k].pairing_method),
                    #[trigger] answers[k],
                ) by {
                    if k < i {
                        assert(answers[k] == said[k]);
                    }
                }
            }
            if verdict.is_ok() {
                bonded.push(device.info.id);
            }
            i = i + 1;
        }
        assert(mock_model::received(s, agent, opts.max_devices, answers));
        if !self.room(0, opts.window.as_nanos()) {
            return Err(MockBackend::no_room());
        }
        self.clock_ns = self.clock_ns + opts.window.as_nanos();
        proof {
            let m = mock_model::met(s, ds.take(i as int), answers);
            assert(self@ =~= (MockView { clock: m.clock + opts.window.nanos as nat, ..m }));
        }
        Ok(bonded)
    }

    /// The error for a characteristic that a device does not have.
    fn no_characteristic(characteristic: Uuid) -> (r: TransportError)
        ensures
            r@ == mock_model::missing(characteristic@),
    {
        let mut t = "characteristic ".to_owned();
        t.append(characteristic.to_string().as_str());
        t.append(" not found");
        TransportError::Backend(t)
    }

    /// Sets the value of a characteristic of a connected device.
    fn store(
        &mut self,
        conn: &Connection,
        service: Uuid,
        characteristic: Uuid,
        data: &[u8],
    ) -> (r: Result<(), TransportError>)
        ensures
            mock_model::writes(
                old(self)@,
                conn@,
                service@,
                characteristic@,
                data@,
                final(self)@,
                backend::done_view(r),
            ),
            final(self).reports_to() == old(self).reports_to(),
            old(self).all_handed() ==> final(self).all_handed(),
    {
        let ghost s = self@;
        if !self.connections.contains_key(&conn.token) {
            return Err(TransportError::NotConnected(conn.peer));
        }
        let i: usize = match self.position(conn.peer) {
            Some(i) => i,
            None => {
                return Err(TransportError::DeviceNotFound(conn.peer));
            },
        };
        assert(s.devices[i as int] == self.devices@[i as int]@);
        let ghost d = s.devices[i as int];
        match mock_device::entry_position(&self.devices[i].gatt, service, characteristic) {
            None => Err(MockBackend::no_characteristic(characteristic)),
            Some(j) => {
                proof {
                    mock_device::first_entry_counts(
                        d.gatt,
                        service@,
                        characteristic@,
                        data@,
                        j as int,
                    );
                }
                let ghost entries = self.devices@[i as int].gatt@;
                let value: Vec<u8> = copied(data);
                let ghost devices = self.devices@;
                self.devices[i].gatt[j].value = value;
                proof {
                    let after = self.devices@[i as int];
                    assert(mock_device::gatt_view(after.gatt@) =~= d.gatt.update(
                        j as int,
                        mock_device::GattView { value: data@, ..d.gatt[j as int] },
                    ));
                    assert(self@.devices =~= s.devices.update(
                        i as int,
                        MockDeviceView {
                            gatt: mock_device::stored(d.gatt, service@, characteristic@, data@),
                            ..d
                        },
                    ));
                    assert(self@.trace == s.trace);
                }
                Ok(())
            },
        }
    }
}

/// A copy of bytes.
fn copied(data: &[u8]) -> (r: Vec<u8>)
    ensures
        r@ == data@,
{
    let mut r: Vec<u8> = Vec::new();
    r.extend_from_slice(data);
    assert(r@ =~= data@);
    r
}

impl MockBackend {
    /// Reads a characteristic.
    fn fetch(&self, conn: &Connection, service: Uuid, characteristic: Uuid) -> (r: Result<
        Vec<u8>,
        TransportError,
    >)
        ensures
            backend::read_view(r) == mock_model::read_result(
                self@,
                conn@,
                service@,
                characteristic@,
            ),
    {
        let device = match self.reach(conn) {
            Ok(d) => d,
            Err(e) => {
                return Err(e);
            },
        };
        match mock_device::entry_position(&device.gatt, service, characteristic) {
            Some(j) => {
                proof {
                    mock_device::first_entry_counts(
                        device@.gatt,
                        service@,
                        characteristic@,
                        Seq::empty(),
                        j as int,
                    );
                    assert(device@.gatt[j as int] == device.gatt@[j as int]@);
                }
                Ok(copied(device.gatt[j].value.as_slice()))
            },
            None => Err(MockBackend::no_characteristic(characteristic)),
        }
    }

    /// The notifications of a characteristic.
    fn watch(&self, conn: &Connection, service: Uuid, characteristic: Uuid) -> (r: Result<
        Vec<(Uuid, Vec<u8>)>,
        TransportError,
    >)
        ensures
            backend::watched_view(r) == mock_model::watch_result(
                self@,
                conn@,
                service@,
                characteristic@,
            ),
    {
        let device = match self.reach(conn) {
            Ok(d) => d,
            Err(e) => {
                return Err(e);
            },
        };
        let ghost g = device@.notifications;
        let mut out: Vec<(Uuid, Vec<u8>)> = Vec::new();
        let mut j: usize = 0;
        proof {
            assert(g.take(0) =~= Seq::empty());
            assert(backend::notes_view(out@) =~= mock_model::labelled(
                characteristic@,
                mock_device::values_of(g.take(0), service@, characteristic@),
            ));
        }
        while j < device.notifications.len()
            invariant
                j <= device.notifications@.len(),
                g == mock_device::gatt_view(device.notifications@),
                backend::notes_view(out@) == mock_model::labelled(
                    characteristic@,
                    mock_device::values_of(g.take(j as int), service@, characteristic@),
                ),
            decreases device.notifications@.len() - j,
        {
            assert(g.take(j + 1).drop_last() =~= g.take(j as int));
            assert(g.take(j + 1).last() == device.notifications@[j as int]@);
            let n = &device.notifications[j];
            if n.service == service && n.characteristic == characteristic {
                let ghost before = out@;
                out.push((characteristic, copied(n.value.as_slice())));
                assert(backend::notes_view(out@) =~= backend::notes_view(before).push((characteristic@, n.value@)));
                assert(mock_model::labelled(
                    characteristic@,
                    mock_device::values_of(g.take(j + 1), service@, characteristic@),
                ) =~= mock_model::labelled(
                    characteristic@,
                    mock_device::values_of(g.take(j as int), service@, characteristic@),
                ).push((characteristic@, n.value@)));
            }
            j = j + 1;
        }
        assert(g.take(j as int) =~= g);
        Ok(out)
    }
}

impl BluetoothBackend for MockBackend {
    /// Each call does what the model says, and keeps the observer up to date.
    open spec fn does(&self, call: BackendCall, after: &MockBackend) -> bool {
        &&& after.reports_to() == self.reports_to()
        &&& self.all_handed() ==> after.all_handed()
        &&& match call {
            BackendCall::Discover { filter, result } => mock_model::scans(
                self@,
                filter,
                after@,
                result,
            ),
            BackendCall::Pair { target, answers, result } => mock_model::pairs(
                self@,
                target,
                answers,
                after@,
                result,
            ),
            BackendCall::Connect { target, result } => mock_model::connects(
                self@,
                target,
                after@,
                result,
            ),
            BackendCall::Disconnect { conn, result } => mock_model::disconnects(
                self@,
                conn,
                after@,
                result,
            ),
            BackendCall::Push { conn, file, result } => mock_model::pushes(
                self@,
                conn,
                file,
                after@,
                result,
            ),
        }
    }

    open spec fn abilities(&self) -> CapabilitiesView {
        mock_abilities()
    }

    fn name(&self) -> (r: &str)
        ensures
            r@ == self@.name,
    {
        self.name.as_str()
    }

    fn capabilities(&self) -> (r: Capabilities) {
        adapter::capabilities_of(BackendKind::Mock)
    }

    fn adapter(&self) -> (r: Result<AdapterInfo, TransportError>)
        ensures
            r matches Ok(a) && a@ == (AdapterView {
                address: self@.address,
                name: self@.adapter_name,
                controller: self@.controller,
                spec: self@.spec,
                powered: self@.powered,
            }),
    {
        Ok(
            AdapterInfo {
                address: self.adapter_address,
                name: self.adapter_name.clone(),
                controller: self.controller.clone(),
                spec: self.spec,
                powered: self.powered,
            },
        )
    }

    fn set_powered(&mut self, on: bool) -> (r: Result<(), TransportError>)
        ensures
            final(self).reports_to() == old(self).reports_to(),
            old(self).all_handed() ==> final(self).all_handed(),
            r is Ok,
            final(self)@ == (MockView { powered: on, ..old(self)@ }),
    {
        self.powered = on;
        Ok(())
    }

    fn set_local_address(&mut self, addr: BdAddr) -> (r: Result<(), TransportError>)
        ensures
            final(self).reports_to() == old(self).reports_to(),
            old(self).all_handed() ==> final(self).all_handed(),
            r is Ok,
            final(self)@ == (MockView { address: addr, ..old(self)@ }),
    {
        self.adapter_address = addr;
        Ok(())
    }

    fn discover(&mut self, filter: &DiscoveryFilter) -> (r: Result<Vec<DeviceInfo>, TransportError>)
        ensures
            final(self).reports_to() == old(self).reports_to(),
            old(self).all_handed() ==> final(self).all_handed(),
            mock_model::scans(old(self)@, filter@, final(self)@, backend::found_view(r)),
    {
        self.scan(filter)
    }

    fn pair<A: PairingAgent + ?Sized>(&mut self, target: DeviceId, agent: &A) -> (r: Result<
        PairingOutcome,
        TransportError,
    >)
        ensures
            final(self).reports_to() == old(self).reports_to(),
            old(self).all_handed() ==> final(self).all_handed(),
            mock_model::pairs(
                old(self)@,
                target,
                pairing::answers_of(agent),
                final(self)@,
                backend::paired_view(r),
            ),
    {
        self.pair_through(target, agent)
    }

    fn connect(&mut self, target: DeviceId) -> (r: Result<Connection, TransportError>)
        ensures
            final(self).reports_to() == old(self).reports_to(),
            old(self).all_handed() ==> final(self).all_handed(),
            mock_model::connects(old(self)@, target, final(self)@, backend::linked_view(r)),
    {
        self.link(target)
    }

    fn disconnect(&mut self, conn: &Connection) -> (r: Result<(), TransportError>)
        ensures
            final(self).reports_to() == old(self).reports_to(),
            old(self).all_handed() ==> final(self).all_handed(),
            mock_model::disconnects(old(self)@, conn@, final(self)@, backend::done_view(r)),
    {
        self.unlink(conn)
    }

    fn push_file(&mut self, conn: &Connection, file: &OutboundFile<'_>) -> (r: Result<
        TransferReceipt,
        TransportError,
    >)
        ensures
            final(self).reports_to() == old(self).reports_to(),
            old(self).all_handed() ==> final(self).all_handed(),
            mock_model::pushes(old(self)@, conn@, file@, final(self)@, backend::pushed_view(r)),
    {
        self.send(conn, file)
    }

    fn set_discoverable(&mut self, on: bool, timeout: Option<Duration>) -> (r: Result<
        (),
        TransportError,
    >)
        ensures
            final(self).reports_to() == old(self).reports_to(),
            old(self).all_handed() ==> final(self).all_handed(),
            r is Ok,
            final(self)@ == old(self)@,
    {
        Ok(())
    }

    fn set_pairable(&mut self, on: bool, timeout: Option<Duration>) -> (r: Result<
        (),
        TransportError,
    >)
        ensures
            final(self).reports_to() == old(self).reports_to(),
            old(self).all_handed() ==> final(self).all_handed(),
            r is Ok,
            final(self)@ == old(self)@,
    {
        Ok(())
    }

    fn accept_pairings<A: PairingAgent + ?Sized>(&mut self, agent: &A, opts: InboundPairing) -> (r:
        Result<Vec<DeviceId>, TransportError>)
        ensures
            final(self).reports_to() == old(self).reports_to(),
            old(self).all_handed() ==> final(self).all_handed(),
            mock_model::accepts(
                old(self)@,
                agent,
                opts.window,
                opts.max_devices,
                final(self)@,
                match r {
                    Ok(v) => Ok(v@),
                    Err(e) => Err(e@),
                },
            ),
    {
        self.meet(agent, opts)
    }

    fn gatt_read(&mut self, conn: &Connection, service: Uuid, characteristic: Uuid) -> (r: Result<
        Vec<u8>,
        TransportError,
    >)
        ensures
            final(self).reports_to() == old(self).reports_to(),
            old(self).all_handed() ==> final(self).all_handed(),
            final(self)@ == old(self)@,
            backend::read_view(r) == mock_model::read_result(
                old(self)@,
                conn@,
                service@,
                characteristic@,
            ),
    {
        self.fetch(conn, service, characteristic)
    }

    fn gatt_write(
        &mut self,
        conn: &Connection,
        service: Uuid,
        characteristic: Uuid,
        data: &[u8],
        with_response: bool,
    ) -> (r: Result<(), TransportError>)
        ensures
            final(self).reports_to() == old(self).reports_to(),
            old(self).all_handed() ==> final(self).all_handed(),
            mock_model::writes(
                old(self)@,
                conn@,
                service@,
                characteristic@,
                data@,
                final(self)@,
                backend::done_view(r),
            ),
    {
        self.store(conn, service, characteristic, data)
    }

    fn gatt_subscribe(&mut self, conn: &Connection, service: Uuid, characteristic: Uuid) -> (r:
        Result<Vec<(Uuid, Vec<u8>)>, TransportError>)
        ensures
            final(self).reports_to() == old(self).reports_to(),
            old(self).all_handed() ==> final(self).all_handed(),
            final(self)@ == old(self)@,
            backend::watched_view(r) == mock_model::watch_result(
                old(self)@,
                conn@,
                service@,
                characteristic@,
            ),
    {
        self.watch(conn, service, characteristic)
    }
}

/// Whether another device is met once so many have bonded.
fn wants_more(cap: Option<usize>, bonded: usize) -> (r: bool)
    ensures
        r == mock_model::goes_on(cap, bonded as nat),
{
    match cap {
        Some(n) => bonded < n,
        None => true,
    }
}

/// Devices met so far do not depend on later answers.
proof fn same_meeting(
    s: MockView,
    ds: Seq<MockDeviceView>,
    a: Seq<PairingResponse>,
    b: Seq<PairingResponse>,
)
    requires
        ds.len() <= a.len() <= b.len(),
        forall|k: int| 0 <= k < ds.len() ==> a[k] == b[k],
    ensures
        mock_model::met(s, ds, a) == mock_model::met(s, ds, b),
        mock_model::bonded_ids(ds, a) == mock_model::bonded_ids(ds, b),
    decreases ds.len(),
{
    if ds.len() > 0 {
        same_meeting(s, ds.drop_last(), a, b);
    }
}

/// Builds a [`MockBackend`].
pub struct MockBackendBuilder {
    name: String,
    adapter_address: BdAddr,
    adapter_name: String,
    controller: ControllerModel,
    spec: SpecContext,
    observer: Option<SharedObserver>,
    devices: Vec<MockDevice>,
    incoming: Vec<MockDevice>,
}

impl View for MockBackendBuilder {
    type V = MockView;

    /// The backend that the builder makes: nothing reported, connected or paired yet.
    closed spec fn view(&self) -> MockView {
        MockView {
            name: self.name@,
            address: self.adapter_address,
            adapter_name: self.adapter_name@,
            controller: self.controller@,
            spec: self.spec,
            powered: true,
            devices: mock_device::script_view(self.devices@),
            incoming: mock_device::script_view(self.incoming@),
            seq: 0,
            clock: 0,
            connections: Map::empty(),
            next_token: 1,
            paired: Set::empty(),
            trace: Seq::empty(),
        }
    }
}

impl MockBackendBuilder {
    /// The observer that the backend will report to, if there is one.
    pub closed spec fn reports_to(self) -> Option<SharedObserver> {
        self.observer
    }

    /// Whether this builds the default adapter without devices.
    pub open spec fn is_default(self) -> bool {
        &&& self@ == mock_model::plain()
        &&& self.reports_to() is None
    }

    /// A builder with the default adapter and no devices.
    pub fn new() -> (r: MockBackendBuilder)
        ensures
            r.is_default(),
    {
        let r = MockBackendBuilder {
            name: "pax-mock".to_owned(),
            adapter_address: BdAddr(0, 0, 0, 0, 0, 1),
            adapter_name: "pax-mock-adapter".to_owned(),
            controller: ControllerModel::virtual_model("pax-mock-0"),
            spec: SpecContext::new(CoreVersion::V5_2, Transport::BrEdr),
            observer: None,
            devices: Vec::new(),
            incoming: Vec::new(),
        };
        assert(r@.devices =~= Seq::empty());
        assert(r@.incoming =~= Seq::empty());
        assert(r@ == mock_model::plain());
        r
    }

    /// The same with another label.
    pub fn name(self, name: &str) -> (r: MockBackendBuilder)
        ensures
            r@ == (MockView { name: name@, ..self@ }),
            r.reports_to() == self.reports_to(),
    {
        MockBackendBuilder { name: name.to_owned(), ..self }
    }

    /// The same with another adapter address.
    pub fn adapter_address(self, addr: BdAddr) -> (r: MockBackendBuilder)
        ensures
            r@ == (MockView { address: addr, ..self@ }),
            r.reports_to() == self.reports_to(),
    {
        MockBackendBuilder { adapter_address: addr, ..self }
    }

    /// The same with another adapter name.
    pub fn adapter_name(self, name: &str) -> (r: MockBackendBuilder)
        ensures
            r@ == (MockView { adapter_name: name@, ..self@ }),
            r.reports_to() == self.reports_to(),
    {
        MockBackendBuilder { adapter_name: name.to_owned(), ..self }
    }

    /// The same with another controller.
    pub fn controller(self, model: ControllerModel) -> (r: MockBackendBuilder)
        ensures
            r@ == (MockView { controller: model@, ..self@ }),
            r.reports_to() == self.reports_to(),
    {
        MockBackendBuilder { controller: model, ..self }
    }

    /// The same under another specification context.
    pub fn spec(self, spec: SpecContext) -> (r: MockBackendBuilder)
        ensures
            r@ == (MockView { spec, ..self@ }),
            r.reports_to() == self.reports_to(),
    {
        MockBackendBuilder { spec, ..self }
    }

    /// The same, reporting to the given observer.
    pub fn observer(self, observer: SharedObserver) -> (r: MockBackendBuilder)
        ensures
            r@ == self@,
            r.reports_to() == Some(observer),
    {
        let observer = Some(observer);
        MockBackendBuilder { observer, ..self }
    }

    /// The same with one more device.
    pub fn device(self, device: MockDevice) -> (r: MockBackendBuilder)
        ensures
            r@ == (MockView { devices: self@.devices.push(device@), ..self@ }),
            r.reports_to() == self.reports_to(),
    {
        let ghost before = self@;
        let mut r = self;
        r.devices.push(device);
        assert(r@.devices =~= before.devices.push(device@));
        r
    }

    /// The same with more devices.
    pub fn devices(self, devices: Vec<MockDevice>) -> (r: MockBackendBuilder)
        ensures
            r@ == (MockView {
                devices: self@.devices + mock_device::script_view(devices@),
                ..self@
            }),
            r.reports_to() == self.reports_to(),
    {
        let ghost before = self@;
        let ghost more = mock_device::script_view(devices@);
        let mut r = self;
        let mut devices = devices;
        r.devices.append(&mut devices);
        assert(r@.devices =~= before.devices + more);
        r
    }

    /// The same with one more device that will come in.
    pub fn incoming_device(self, device: MockDevice) -> (r: MockBackendBuilder)
        ensures
            r@ == (MockView { incoming: self@.incoming.push(device@), ..self@ }),
            r.reports_to() == self.reports_to(),
    {
        let ghost before = self@;
        let mut r = self;
        r.incoming.push(device);
        assert(r@.incoming =~= before.incoming.push(device@));
        r
    }

    /// The backend.
    pub fn build(self) -> (r: MockBackend)
        ensures
            r@ == self@,
            r.reports_to() == self.reports_to(),
            r.all_handed(),
            mock_model::consistent(r@),
    {
        let r = MockBackend {
            name: self.name,
            adapter_address: self.adapter_address,
            adapter_name: self.adapter_name,
            controller: self.controller,
            spec: self.spec,
            powered: true,
            observer: self.observer,
            devices: self.devices,
            incoming: self.incoming,
            seq: 0,
            clock_ns: 0,
            connections: HashMap::new(),
            next_token: 1,
            paired: Vec::new(),
            trace: Ghost(Seq::empty()),
        };
        assert(r@.paired =~= Set::empty());
        r
    }
}

} // verus!
