//! The model of the mock backend: its state, the events of each operation, and what
//! each operation does to the state and returns.
use vstd::prelude::*;
use crate::address::BdAddr;
use crate::backend::{ConnectionView, FilterView};
use crate::device::{DeviceId, DeviceView};
use crate::event::{Direction, EventView, KindView, OriginView};
use crate::hardware::ControllerView;
use crate::mock_device;
use crate::mock_device::MockDeviceView;
use crate::pairing;
use crate::pairing::{
    PairingAgent, PairingOutcome, PairingRequest, PairingResponse, ResponseView,
};
use crate::standards::StandardsProfile;
use crate::text;
use crate::time::{Duration, Timestamp};
use crate::transfer::{FileView, ReceiptView};
use crate::transport_error::TransportErrorView;
use crate::uuid;
use crate::version::{CoreVersion, SpecContext, Transport};

verus! {

/// The time that an event takes, in nanoseconds, where nothing else is scripted.
pub const STEP_NANOS: u128 = 1_000_000;

/// The whole state of a [`MockBackend`].
#[verifier::ext_equal]
pub struct MockView {
    pub name: Seq<char>,
    pub address: BdAddr,
    pub adapter_name: Seq<char>,
    pub controller: ControllerView,
    pub spec: SpecContext,
    pub powered: bool,
    pub devices: Seq<MockDeviceView>,
    pub incoming: Seq<MockDeviceView>,
    pub seq: nat,
    pub clock: nat,
    pub connections: Map<u64, DeviceId>,
    pub next_token: u64,
    pub paired: Set<DeviceId>,
    pub trace: Seq<EventView>,
}

/// An event about to be reported, and the time that passes with it.
pub struct Beat {
    pub origin: OriginView,
    pub kind: KindView,
    pub dt: u128,
}

/// The state after one event.
pub open spec fn played(s: MockView, b: Beat) -> MockView {
    MockView {
        seq: s.seq + 1,
        clock: s.clock + b.dt as nat,
        trace: s.trace.push(
            EventView {
                seq: s.seq as u64,
                at: Timestamp { nanos: s.clock as u128 },
                origin: b.origin,
                kind: b.kind,
            },
        ),
        ..s
    }
}

/// The state after several events.
pub open spec fn ran(s: MockView, bs: Seq<Beat>) -> MockView
    decreases bs.len(),
{
    if bs.len() == 0 {
        s
    } else {
        played(ran(s, bs.drop_last()), bs.last())
    }
}

/// The time that several events take.
pub open spec fn time_of(bs: Seq<Beat>) -> nat
    decreases bs.len(),
{
    if bs.len() == 0 {
        0
    } else {
        time_of(bs.drop_last()) + bs.last().dt as nat
    }
}

/// The default adapter without devices, before anything was done.
pub open spec fn plain() -> MockView {
    MockView {
        name: "pax-mock"@,
        address: BdAddr(0, 0, 0, 0, 0, 1),
        adapter_name: "pax-mock-adapter"@,
        controller: ControllerView::emulated("pax-mock-0"@),
        spec: SpecContext { version: CoreVersion::V5_2, transport: Transport::BrEdr },
        powered: true,
        devices: Seq::empty(),
        incoming: Seq::empty(),
        seq: 0,
        clock: 0,
        connections: Map::empty(),
        next_token: 1,
        paired: Set::empty(),
        trace: Seq::empty(),
    }
}

/// Whether the sequence numbers and the clock have room for more events.
pub open spec fn has_room(s: MockView, events: nat, nanos: nat) -> bool {
    s.seq + events <= u64::MAX && s.clock + nanos <= u128::MAX
}

/// The error of an operation for which there is no room.
pub open spec fn exhausted() -> TransportErrorView {
    TransportErrorView::Unavailable("the virtual clock is exhausted"@)
}

/// Events move the sequence number and the clock on, and change nothing else.
pub proof fn running_moves_on(s: MockView, bs: Seq<Beat>)
    ensures
        ran(s, bs).seq == s.seq + bs.len(),
        ran(s, bs).clock == s.clock + time_of(bs),
        ran(s, bs).trace.len() == s.trace.len() + bs.len(),
        ran(s, bs) == (MockView {
            seq: ran(s, bs).seq,
            clock: ran(s, bs).clock,
            trace: ran(s, bs).trace,
            ..s
        }),
    decreases bs.len(),
{
    if bs.len() > 0 {
        running_moves_on(s, bs.drop_last());
    }
}

/// Whether a trace is what the clock and the sequence number allow: numbered from zero
/// without gaps, in the order of time, and none later than now.
pub open spec fn consistent(s: MockView) -> bool {
    &&& s.trace.len() == s.seq
    &&& s.seq <= u64::MAX
    &&& s.clock <= u128::MAX
    &&& forall|i: int| 0 <= i < s.trace.len() ==> (#[trigger] s.trace[i]).seq == i
    &&& forall|i: int, j: int|
        0 <= i < j < s.trace.len() ==> (#[trigger] s.trace[i]).at.nanos <= (
        #[trigger] s.trace[j]).at.nanos
    &&& forall|i: int| 0 <= i < s.trace.len() ==> (#[trigger] s.trace[i]).at.nanos <= s.clock
}

/// The trace of a backend stays numbered without gaps and in the order of time.
pub proof fn running_stays_consistent(s: MockView, bs: Seq<Beat>)
    requires
        consistent(s),
        has_room(s, bs.len(), time_of(bs)),
    ensures
        consistent(ran(s, bs)),
    decreases bs.len(),
{
    if bs.len() > 0 {
        let front = bs.drop_last();
        running_stays_consistent(s, front);
        running_moves_on(s, front);
        let before = ran(s, front);
        let after = ran(s, bs);
        assert forall|i: int, j: int| 0 <= i < j < after.trace.len() implies (
        #[trigger] after.trace[i]).at.nanos <= (#[trigger] after.trace[j]).at.nanos by {
            assert(after.trace[i] == before.trace[i]);
            if j < before.trace.len() {
                assert(after.trace[j] == before.trace[j]);
            }
        }
        assert forall|i: int| 0 <= i < after.trace.len() implies (#[trigger] after.trace[i]).seq
            == i && after.trace[i].at.nanos <= after.clock by {
            if i < before.trace.len() {
                assert(after.trace[i] == before.trace[i]);
            }
        }
    }
}

/// The first device with the given identity.
pub open spec fn known(ds: Seq<MockDeviceView>, id: DeviceId) -> Option<MockDeviceView>
    decreases ds.len(),
{
    if ds.len() == 0 {
        None
    } else if ds[0].info.id == id {
        Some(ds[0])
    } else {
        known(ds.drop_first(), id)
    }
}

/// Whether `i` is the place of the first device with the given identity.
pub open spec fn first_at(ds: Seq<MockDeviceView>, id: DeviceId, i: int) -> bool {
    &&& 0 <= i < ds.len()
    &&& ds[i].info.id == id
    &&& forall|k: int| 0 <= k < i ==> (#[trigger] ds[k]).info.id != id
}

/// The origin of events that concern the adapter alone.
pub open spec fn adapter_origin_of(s: MockView) -> OriginView {
    OriginView {
        local: s.controller,
        peer: DeviceId::at(BdAddr::none()),
        spec: s.spec,
        standards: StandardsProfile::plain(),
    }
}

/// Whether a device can be met on the wanted radio: dual-mode meets every radio.
pub open spec fn on_radio(wanted: Option<Transport>, actual: Transport) -> bool {
    match wanted {
        None => true,
        Some(t) => actual == t || actual == Transport::Dual || t == Transport::Dual,
    }
}

/// Whether a scan shows a device.
pub open spec fn visible(f: FilterView, d: MockDeviceView) -> bool {
    on_radio(f.transport, d.spec.transport) && f.admits(d.info)
}

/// The devices that a scan shows: those that the filter admits, up to its limit.
pub open spec fn shown(ds: Seq<MockDeviceView>, f: FilterView) -> Seq<MockDeviceView> {
    let all = ds.filter(|d: MockDeviceView| visible(f, d));
    match f.limit {
        Some(n) => if n < all.len() {
            all.take(n as int)
        } else {
            all
        },
        None => all,
    }
}

/// The events of a scan that shows the given devices.
pub open spec fn scan_beats(s: MockView, ds: Seq<MockDeviceView>) -> Seq<Beat>
    decreases ds.len(),
{
    if ds.len() == 0 {
        seq![
            Beat {
                origin: adapter_origin_of(s),
                kind: KindView::DiscoveryStarted,
                dt: STEP_NANOS,
            },
        ]
    } else {
        scan_beats(s, ds.drop_last()).push(
            Beat {
                origin: ds.last().origin(s.controller),
                kind: KindView::DeviceDiscovered { rssi: ds.last().info.rssi },
                dt: STEP_NANOS,
            },
        )
    }
}

/// The descriptions of devices.
pub open spec fn infos(ds: Seq<MockDeviceView>) -> Seq<DeviceView> {
    ds.map_values(|d: MockDeviceView| d.info)
}

/// What a scan does: the state after it and what it finds. There must be room for its
/// events.
pub open spec fn scans(
    s: MockView,
    f: FilterView,
    t: MockView,
    result: Result<Seq<DeviceView>, TransportErrorView>,
) -> bool {
    let n = shown(s.devices, f).len();
    if has_room(s, n + 1, (n + 1) * STEP_NANOS as nat) {
        t == ran(s, scan_beats(s, shown(s.devices, f))) && result == Ok::<
            Seq<DeviceView>,
            TransportErrorView,
        >(infos(shown(s.devices, f)))
    } else {
        t == s && result == Err::<Seq<DeviceView>, TransportErrorView>(exhausted())
    }
}

/// The event of a beginning pairing.
pub open spec fn start_beat(s: MockView, d: MockDeviceView) -> Beat {
    Beat {
        origin: d.origin(s.controller),
        kind: KindView::PairingStarted { method: d.pairing_method },
        dt: STEP_NANOS,
    }
}

/// The reason given where the agent declines.
pub open spec fn declined() -> Seq<char> {
    "declined by pairing agent"@
}

/// The event of a pairing that ends with the given answer.
pub open spec fn end_beat(s: MockView, d: MockDeviceView, answer: ResponseView) -> Beat {
    let kind = if answer.refuses() {
        KindView::PairingFailed { reason: declined() }
    } else {
        match d.pairing_failure {
            Some(reason) => KindView::PairingFailed { reason },
            None => KindView::PairingCompleted,
        }
    };
    Beat { origin: d.origin(s.controller), kind, dt: STEP_NANOS }
}

/// Whether a pairing succeeds with the given answer.
pub open spec fn bonds(d: MockDeviceView, answer: ResponseView) -> bool {
    !answer.refuses() && d.pairing_failure is None
}

/// The state after a pairing under way ends with the given answer.
pub open spec fn settled(s: MockView, d: MockDeviceView, answer: ResponseView) -> MockView {
    let p = if bonds(d, answer) {
        MockView { paired: s.paired.insert(d.info.id), ..s }
    } else {
        s
    };
    played(p, end_beat(s, d, answer))
}

/// How a pairing ends with the given answer: a refusal counts before a scripted failure.
pub open spec fn verdict(d: MockDeviceView, answer: ResponseView) -> Result<
    PairingOutcome,
    TransportErrorView,
> {
    if answer.refuses() {
        Err(TransportErrorView::PairingRejected(declined()))
    } else {
        match d.pairing_failure {
            Some(reason) => Err(TransportErrorView::PairingFailed(reason)),
            None => Ok(PairingOutcome::full(d.pairing_method)),
        }
    }
}

/// What a pairing does, whichever of the answers that `answers` allows the agent gives.
pub open spec fn pairs(
    s: MockView,
    target: DeviceId,
    answers: spec_fn(PairingRequest, PairingResponse) -> bool,
    t: MockView,
    result: Result<PairingOutcome, TransportErrorView>,
) -> bool {
    match known(s.devices, target) {
        None => t == s && result == Err::<PairingOutcome, TransportErrorView>(
            TransportErrorView::DeviceNotFound(target),
        ),
        Some(d) => if has_room(s, 2, 2 * STEP_NANOS as nat) {
            exists|answer: PairingResponse|
                {
                    &&& #[trigger] answers(mock_device::asked(d.pairing_method), answer)
                    &&& t == settled(played(s, start_beat(s, d)), d, answer@)
                    &&& result == verdict(d, answer@)
                }
        } else {
            t == s && result == Err::<PairingOutcome, TransportErrorView>(exhausted())
        },
    }
}

/// What a connection attempt does.
pub open spec fn connects(
    s: MockView,
    target: DeviceId,
    t: MockView,
    result: Result<ConnectionView, TransportErrorView>,
) -> bool {
    match known(s.devices, target) {
        None => t == s && result == Err::<ConnectionView, TransportErrorView>(
            TransportErrorView::DeviceNotFound(target),
        ),
        Some(d) => if has_room(s, 1, STEP_NANOS as nat) && s.next_token < u64::MAX {
            &&& t == played(
                MockView {
                    next_token: (s.next_token + 1) as u64,
                    connections: s.connections.insert(s.next_token, target),
                    ..s
                },
                Beat {
                    origin: d.origin(s.controller),
                    kind: KindView::Connected,
                    dt: STEP_NANOS,
                },
            )
            &&& result == Ok::<ConnectionView, TransportErrorView>(
                ConnectionView {
                    peer: target,
                    local: s.controller,
                    spec: d.spec,
                    standards: d.standards,
                    token: s.next_token,
                },
            )
        } else {
            t == s && result == Err::<ConnectionView, TransportErrorView>(exhausted())
        },
    }
}

/// What closing a connection does: only a live one can be closed.
pub open spec fn disconnects(
    s: MockView,
    conn: ConnectionView,
    t: MockView,
    result: Result<(), TransportErrorView>,
) -> bool {
    if !s.connections.contains_key(conn.token) {
        t == s && result == Err::<(), TransportErrorView>(
            TransportErrorView::NotConnected(conn.peer),
        )
    } else if has_room(s, 1, STEP_NANOS as nat) {
        &&& t == played(
            MockView { connections: s.connections.remove(conn.token), ..s },
            Beat {
                origin: conn.origin(),
                kind: KindView::Disconnected { reason: None },
                dt: STEP_NANOS,
            },
        )
        &&& result is Ok
    } else {
        t == s && result == Err::<(), TransportErrorView>(exhausted())
    }
}

/// The chunk size in force: at least one byte.
pub open spec fn chunk_of(d: MockDeviceView) -> nat {
    if d.chunk_size == 0 {
        1
    } else {
        d.chunk_size as nat
    }
}

/// How many chunks a file of `total` bytes makes.
pub open spec fn chunk_count(total: nat, size: nat) -> nat {
    ((total + size - 1) / (size as int)) as nat
}

/// How many bytes the first `n` chunks hold.
pub open spec fn sent(total: nat, size: nat, n: nat) -> nat {
    if n * size < total {
        n * size
    } else {
        total
    }
}

/// Whether a transfer of `total` bytes is cut off by the scripted failure.
pub open spec fn cut_off(d: MockDeviceView, total: nat) -> bool {
    match d.transfer_failure_after {
        Some(limit) => limit < total,
        None => false,
    }
}

/// How many chunks of a file get through.
pub open spec fn chunks_through(d: MockDeviceView, total: nat) -> nat {
    if cut_off(d, total) {
        (d.transfer_failure_after->0 as int / chunk_of(d) as int) as nat
    } else {
        chunk_count(total, chunk_of(d))
    }
}

/// The events of a transfer up to and with its first `n` chunks.
pub open spec fn chunk_beats(
    conn: ConnectionView,
    file: FileView,
    d: MockDeviceView,
    n: nat,
) -> Seq<Beat>
    decreases n,
{
    let total = file.bytes.len();
    if n == 0 {
        seq![
            Beat {
                origin: conn.origin(),
                kind: KindView::TransferStarted { name: file.name, total_bytes: total as u64 },
                dt: STEP_NANOS,
            },
        ]
    } else {
        let before = sent(total, chunk_of(d), (n - 1) as nat);
        let after = sent(total, chunk_of(d), n);
        chunk_beats(conn, file, d, (n - 1) as nat).push(
            Beat {
                origin: conn.origin(),
                kind: KindView::DataChunk {
                    direction: Direction::Outbound,
                    bytes: (after - before) as u64,
                },
                dt: d.per_chunk_latency.nanos,
            },
        ).push(
            Beat {
                origin: conn.origin(),
                kind: KindView::TransferProgress { transferred: after as u64, total: total as u64 },
                dt: 0,
            },
        )
    }
}

/// How long a transfer of `n` chunks takes.
pub open spec fn transfer_time(d: MockDeviceView, n: nat) -> nat {
    STEP_NANOS as nat + n * d.per_chunk_latency.nanos as nat
}

/// The reason given where the scripted failure strikes.
pub open spec fn link_failure(limit: u64) -> Seq<char> {
    "simulated link failure at "@ + text::decimal(limit as nat) + " bytes"@
}

/// All events of a transfer.
pub open spec fn transfer_beats(conn: ConnectionView, file: FileView, d: MockDeviceView) -> Seq<
    Beat,
> {
    let total = file.bytes.len();
    let n = chunks_through(d, total);
    chunk_beats(conn, file, d, n).push(
        Beat {
            origin: conn.origin(),
            kind: if cut_off(d, total) {
                KindView::Error { detail: link_failure(d.transfer_failure_after->0) }
            } else {
                KindView::TransferCompleted {
                    bytes: total as u64,
                    duration: Duration { nanos: transfer_time(d, n) as u128 },
                }
            },
            dt: STEP_NANOS,
        },
    )
}

/// How a transfer ends.
pub open spec fn transfer_result(file: FileView, d: MockDeviceView) -> Result<
    ReceiptView,
    TransportErrorView,
> {
    let total = file.bytes.len();
    let n = chunks_through(d, total);
    if cut_off(d, total) {
        Err(
            TransportErrorView::TransferFailed {
                transferred: sent(total, chunk_of(d), n) as u64,
                reason: link_failure(d.transfer_failure_after->0),
            },
        )
    } else {
        Ok(
            ReceiptView {
                object_name: file.name,
                bytes: total as u64,
                chunks: n as u64,
                duration: Duration { nanos: transfer_time(d, n) as u128 },
            },
        )
    }
}

/// Whether there is room for every event of a transfer.
pub open spec fn room_for_transfer(s: MockView, file: FileView, d: MockDeviceView) -> bool {
    let n = chunks_through(d, file.bytes.len());
    has_room(s, 2 * n + 2, 2 * STEP_NANOS as nat + n * d.per_chunk_latency.nanos as nat)
}

/// What a transfer does: it needs a live connection to a known device.
pub open spec fn pushes(
    s: MockView,
    conn: ConnectionView,
    file: FileView,
    t: MockView,
    result: Result<ReceiptView, TransportErrorView>,
) -> bool {
    if !s.connections.contains_key(conn.token) {
        t == s && result == Err::<ReceiptView, TransportErrorView>(
            TransportErrorView::NotConnected(conn.peer),
        )
    } else {
        match known(s.devices, conn.peer) {
            None => t == s && result == Err::<ReceiptView, TransportErrorView>(
                TransportErrorView::DeviceNotFound(conn.peer),
            ),
            Some(d) => if room_for_transfer(s, file, d) {
                t == ran(s, transfer_beats(conn, file, d)) && result == transfer_result(file, d)
            } else {
                t == s && result == Err::<ReceiptView, TransportErrorView>(exhausted())
            },
        }
    }
}

/// The state after devices met in turn, each with the agent's answer to it.
pub open spec fn met(
    s: MockView,
    ds: Seq<MockDeviceView>,
    answers: Seq<PairingResponse>,
) -> MockView
    decreases ds.len(),
{
    if ds.len() == 0 {
        s
    } else {
        let before = met(s, ds.drop_last(), answers);
        settled(
            played(before, start_beat(before, ds.last())),
            ds.last(),
            answers[ds.len() - 1]@,
        )
    }
}

/// The identities of the devices that bonded.
pub open spec fn bonded_ids(ds: Seq<MockDeviceView>, answers: Seq<PairingResponse>) -> Seq<DeviceId>
    decreases ds.len(),
{
    if ds.len() == 0 {
        Seq::empty()
    } else {
        let front = bonded_ids(ds.drop_last(), answers);
        if bonds(ds.last(), answers[ds.len() - 1]@) {
            front.push(ds.last().info.id)
        } else {
            front
        }
    }
}

/// Whether another device is met once so many have bonded.
pub open spec fn goes_on(cap: Option<usize>, bonded: nat) -> bool {
    match cap {
        Some(n) => bonded < n,
        None => true,
    }
}

/// Whether the answers are those to the devices met so far: incoming ones in order, each
/// while fewer have bonded than the cap allows and there is room for its pairing.
pub open spec fn received<A: PairingAgent + ?Sized>(
    s: MockView,
    agent: &A,
    cap: Option<usize>,
    answers: Seq<PairingResponse>,
) -> bool {
    &&& answers.len() <= s.incoming.len()
    &&& forall|i: int|
        0 <= i < answers.len() ==> pairing::may_answer(
            agent,
            mock_device::asked(s.incoming[i].pairing_method),
            #[trigger] answers[i],
        )
    &&& forall|i: int|
        0 <= i < answers.len() ==> goes_on(
            cap,
            (#[trigger] bonded_ids(s.incoming.take(i), answers)).len(),
        )
    &&& forall|i: int|
        0 <= i < answers.len() ==> has_room(
            #[trigger] met(s, s.incoming.take(i), answers),
            2,
            2 * STEP_NANOS as nat,
        )
}

/// Whether nobody is left to meet after the given answers: every incoming device was met,
/// or as many have bonded as the cap allows.
pub open spec fn nobody_left(
    s: MockView,
    cap: Option<usize>,
    answers: Seq<PairingResponse>,
) -> bool {
    answers.len() == s.incoming.len() || !goes_on(
        cap,
        bonded_ids(s.incoming.take(answers.len() as int), answers).len(),
    )
}

/// What accepting pairings does, whatever the agent answers: the incoming devices are met
/// in order until nobody is left to meet, and the window passes. Where there is no room
/// for the next pairing or for the window, it ends there.
pub open spec fn accepts<A: PairingAgent + ?Sized>(
    s: MockView,
    agent: &A,
    window: Duration,
    cap: Option<usize>,
    t: MockView,
    result: Result<Seq<DeviceId>, TransportErrorView>,
) -> bool {
    exists|answers: Seq<PairingResponse>|
        {
            let ds = s.incoming.take(answers.len() as int);
            let m = met(s, ds, answers);
            &&& #[trigger] received(s, agent, cap, answers)
            &&& if !nobody_left(s, cap, answers) {
                &&& !has_room(m, 2, 2 * STEP_NANOS as nat)
                &&& t == m
                &&& result == Err::<Seq<DeviceId>, TransportErrorView>(exhausted())
            } else if has_room(m, 0, window.nanos as nat) {
                &&& t == (MockView { clock: m.clock + window.nanos as nat, ..m })
                &&& result == Ok::<Seq<DeviceId>, TransportErrorView>(bonded_ids(ds, answers))
            } else {
                &&& t == m
                &&& result == Err::<Seq<DeviceId>, TransportErrorView>(exhausted())
            }
        }
}

/// The error for a characteristic that a device does not have.
pub open spec fn missing(characteristic: Seq<u8>) -> TransportErrorView {
    TransportErrorView::Backend(
        "characteristic "@ + uuid::hyphenated(characteristic) + " not found"@,
    )
}

/// The device at the other end of a live connection, or why there is none.
pub open spec fn reached(s: MockView, conn: ConnectionView) -> Result<
    MockDeviceView,
    TransportErrorView,
> {
    if !s.connections.contains_key(conn.token) {
        Err(TransportErrorView::NotConnected(conn.peer))
    } else {
        match known(s.devices, conn.peer) {
            None => Err(TransportErrorView::DeviceNotFound(conn.peer)),
            Some(d) => Ok(d),
        }
    }
}

/// What reading a characteristic gives.
pub open spec fn read_result(
    s: MockView,
    conn: ConnectionView,
    service: Seq<u8>,
    characteristic: Seq<u8>,
) -> Result<Seq<u8>, TransportErrorView> {
    match reached(s, conn) {
        Err(e) => Err(e),
        Ok(d) => match mock_device::value_at(d.gatt, service, characteristic) {
            Some(v) => Ok(v),
            None => Err(missing(characteristic)),
        },
    }
}

/// What writing a characteristic does.
pub open spec fn writes(
    s: MockView,
    conn: ConnectionView,
    service: Seq<u8>,
    characteristic: Seq<u8>,
    data: Seq<u8>,
    t: MockView,
    result: Result<(), TransportErrorView>,
) -> bool {
    match reached(s, conn) {
        Err(e) => t == s && result == Err::<(), TransportErrorView>(e),
        Ok(d) => if mock_device::value_at(d.gatt, service, characteristic) is None {
            t == s && result == Err::<(), TransportErrorView>(missing(characteristic))
        } else {
            &&& result is Ok
            &&& exists|i: int|
                {
                    &&& #[trigger] first_at(s.devices, conn.peer, i)
                    &&& t == (MockView {
                        devices: s.devices.update(
                            i,
                            MockDeviceView {
                                gatt: mock_device::stored(d.gatt, service, characteristic, data),
                                ..d
                            },
                        ),
                        ..s
                    })
                }
        },
    }
}

/// Values paired with the characteristic that they are of.
pub open spec fn labelled(characteristic: Seq<u8>, values: Seq<Seq<u8>>) -> Seq<
    (Seq<u8>, Seq<u8>),
> {
    values.map_values(|v: Seq<u8>| (characteristic, v))
}

/// What watching a characteristic gives: its scripted notifications, in order.
pub open spec fn watch_result(
    s: MockView,
    conn: ConnectionView,
    service: Seq<u8>,
    characteristic: Seq<u8>,
) -> Result<Seq<(Seq<u8>, Seq<u8>)>, TransportErrorView> {
    match reached(s, conn) {
        Err(e) => Err(e),
        Ok(d) => Ok(
            labelled(
                characteristic,
                mock_device::values_of(d.notifications, service, characteristic),
            ),
        ),
    }
}

/// The place of a device and the device itself.
pub proof fn first_is_known(ds: Seq<MockDeviceView>, id: DeviceId, i: int)
    requires
        first_at(ds, id, i),
    ensures
        known(ds, id) == Some(ds[i]),
    decreases ds.len(),
{
    if i > 0 {
        let rest = ds.drop_first();
        assert(ds[0].info.id != id);
        assert forall|k: int| 0 <= k < i - 1 implies (#[trigger] rest[k]).info.id != id by {
            assert(rest[k] == ds[k + 1]);
        }
        first_is_known(rest, id, i - 1);
    }
}

/// Where no device has the identity, none is known.
pub proof fn absent_is_unknown(ds: Seq<MockDeviceView>, id: DeviceId)
    requires
        forall|k: int| 0 <= k < ds.len() ==> (#[trigger] ds[k]).info.id != id,
    ensures
        known(ds, id) is None,
    decreases ds.len(),
{
    if ds.len() > 0 {
        let rest = ds.drop_first();
        assert(ds[0].info.id != id);
        assert forall|k: int| 0 <= k < rest.len() implies (#[trigger] rest[k]).info.id != id by {
            assert(rest[k] == ds[k + 1]);
        }
        absent_is_unknown(rest, id);
    }
}

/// How many events a scan reports, and how long they take.
pub proof fn scan_takes(s: MockView, ds: Seq<MockDeviceView>)
    ensures
        scan_beats(s, ds).len() == ds.len() + 1,
        time_of(scan_beats(s, ds)) == (ds.len() + 1) * STEP_NANOS,
    decreases ds.len(),
{
    if ds.len() > 0 {
        scan_takes(s, ds.drop_last());
        let b = scan_beats(s, ds);
        assert(b.drop_last() =~= scan_beats(s, ds.drop_last()));
    } else {
        let b = scan_beats(s, ds);
        assert(b.drop_last() =~= Seq::empty());
        assert(time_of(b.drop_last()) == 0);
    }
}

/// How many events the first chunks report, and how long they take.
pub proof fn chunks_take(conn: ConnectionView, file: FileView, d: MockDeviceView, n: nat)
    ensures
        chunk_beats(conn, file, d, n).len() == 2 * n + 1,
        time_of(chunk_beats(conn, file, d, n)) == transfer_time(d, n),
    decreases n,
{
    let b = chunk_beats(conn, file, d, n);
    if n > 0 {
        let m = (n - 1) as nat;
        chunks_take(conn, file, d, m);
        let c = b.drop_last();
        assert(c.drop_last() =~= chunk_beats(conn, file, d, m));
        assert(time_of(b) == time_of(c));
        assert(time_of(c) == time_of(c.drop_last()) + d.per_chunk_latency.nanos);
        assert(n * d.per_chunk_latency.nanos as nat == m * d.per_chunk_latency.nanos as nat
            + d.per_chunk_latency.nanos as nat) by (nonlinear_arith)
            requires
                n == m + 1,
        ;
    } else {
        assert(b.drop_last() =~= Seq::empty());
        assert(time_of(b.drop_last()) == 0);
        assert(n * d.per_chunk_latency.nanos as nat == 0) by (nonlinear_arith)
            requires
                n == 0,
        ;
    }
}

/// One more chunk: what it holds, and where it ends.
pub proof fn next_chunk(total: nat, size: nat, n: nat)
    requires
        size >= 1,
        n * size < total,
    ensures
        sent(total, size, n) == n * size,
        sent(total, size, n + 1) == if n * size + size < total {
            n * size + size
        } else {
            total
        },
        (n + 1) * size == n * size + size,
{
    assert((n + 1) * size == n * size + size) by (nonlinear_arith);
}

/// The chunks of a file are counted where they reach its end and not before.
pub proof fn counted(total: nat, size: nat, n: nat)
    requires
        size >= 1,
        total <= n * size,
        n > 0 ==> (n - 1) * size < total,
        n == 0 ==> total == 0,
    ensures
        chunk_count(total, size) == n,
{
    let x = total + size - 1;
    let r = x - n * size;
    assert(0 <= r < size) by (nonlinear_arith)
        requires
            x == total + size - 1,
            r == x - n * size,
            size >= 1,
            total <= n * size,
            n > 0 ==> (n - 1) * size < total,
            n == 0 ==> total == 0,
    ;
    vstd::arithmetic::div_mod::lemma_fundamental_div_mod_converse(x, size as int, n as int, r);
}

/// Chunks that have not reached the end are fewer than all.
pub proof fn not_all_counted(total: nat, size: nat, n: nat)
    requires
        size >= 1,
        n * size < total,
    ensures
        n < chunk_count(total, size),
{
    let x = total + size - 1;
    assert(x / (size as int) >= n + 1) by (nonlinear_arith)
        requires
            x == total + size - 1,
            size >= 1,
            n * size < total,
            n * size + size <= x,
    ;
}

/// Chunks that have not reached the end, with the next one below the scripted failure, are
/// fewer than get through.
pub proof fn not_all_through(d: MockDeviceView, total: nat, n: nat)
    requires
        n * chunk_of(d) < total,
        d.transfer_failure_after matches Some(limit) ==> sent(total, chunk_of(d), n + 1) <= limit,
    ensures
        n < chunks_through(d, total),
{
    let size = chunk_of(d);
    if cut_off(d, total) {
        let limit = d.transfer_failure_after->0 as int;
        assert((n + 1) * size <= limit);
        assert(limit / (size as int) >= n + 1) by (nonlinear_arith)
            requires
                size >= 1,
                (n + 1) * size <= limit,
        ;
    } else {
        not_all_counted(total, size, n);
    }
}

/// The chunks that a scripted failure lets through.
pub proof fn cut_counted(limit: nat, size: nat, n: nat)
    requires
        size >= 1,
        n * size <= limit,
        limit < n * size + size,
    ensures
        (limit as int) / (size as int) == n,
{
    let r = limit - n * size;
    vstd::arithmetic::div_mod::lemma_fundamental_div_mod_converse(
        limit as int,
        size as int,
        n as int,
        r,
    );
}

/// What a scan shows while none of its devices is beyond the limit.
pub proof fn shown_so_far(ds: Seq<MockDeviceView>, f: FilterView, i: int)
    requires
        0 <= i <= ds.len(),
    ensures
        ({
            let vis = |d: MockDeviceView| visible(f, d);
            let part = ds.take(i).filter(vis);
            let all = ds.filter(vis);
            &&& part.len() <= i
            &&& part.len() <= all.len()
            &&& part == all.take(part.len() as int)
            &&& i < ds.len() && visible(f, ds[i]) ==> part.len() < all.len()
            &&& i < ds.len() ==> ds.take(i + 1).filter(vis) == if visible(f, ds[i]) {
                part.push(ds[i])
            } else {
                part
            }
        }),
{
    let vis = |d: MockDeviceView| visible(f, d);
    let part = ds.take(i).filter(vis);
    let rest = ds.skip(i).filter(vis);
    assert(ds =~= ds.take(i) + ds.skip(i));
    Seq::filter_distributes_over_add(ds.take(i), ds.skip(i), vis);
    assert(part =~= (part + rest).take(part.len() as int));
    filter_len(ds.take(i), vis);
    if i < ds.len() {
        let one = ds.take(i + 1);
        reveal(Seq::filter);
        assert(one.drop_last() =~= ds.take(i));
        if visible(f, ds[i]) {
            let tail = ds.skip(i);
            let head = seq![ds[i]];
            assert(tail =~= head + tail.drop_first());
            Seq::filter_distributes_over_add(head, tail.drop_first(), vis);
            assert(head.drop_last() =~= Seq::empty());
            assert(head.drop_last().filter(vis) =~= Seq::empty());
            assert(head.filter(vis).len() == 1);
        }
    }
}

proof fn filter_len(ds: Seq<MockDeviceView>, keep: spec_fn(MockDeviceView) -> bool)
    ensures
        ds.filter(keep).len() <= ds.len(),
    decreases ds.len(),
{
    reveal(Seq::filter);
    if ds.len() > 0 {
        filter_len(ds.drop_last(), keep);
    }
}

} // verus!
