//! What holds of the mock backend across its operations.
use vstd::prelude::*;
use crate::backend::{ConnectionView, FilterView};
use crate::device::{DeviceId, DeviceView};
use crate::metrics;
use crate::mock_device;
use crate::mock_device::MockDeviceView;
use crate::mock_model;
use crate::mock_model::{Beat, MockView, STEP_NANOS};
use crate::pairing;
use crate::pairing::{PairingAgent, PairingOutcome, PairingResponse};
use crate::time::Duration;
use crate::transfer::{FileView, ReceiptView};
use crate::transport_error::TransportErrorView;

verus! {

/// One event keeps the trace numbered without gaps and in the order of time.
pub proof fn event_stays_consistent(s: MockView, b: Beat)
    requires
        mock_model::consistent(s),
        mock_model::has_room(s, 1, b.dt as nat),
    ensures
        mock_model::consistent(mock_model::played(s, b)),
{
    let bs = seq![b];
    assert(bs.drop_last() =~= Seq::empty());
    assert(mock_model::ran(s, bs.drop_last()) == s);
    assert(mock_model::time_of(bs.drop_last()) == 0);
    assert(mock_model::time_of(bs) == b.dt);
    mock_model::running_stays_consistent(s, bs);
}

/// A scan keeps the trace numbered without gaps and in the order of time.
pub proof fn scan_stays_consistent(
    s: MockView,
    f: FilterView,
    t: MockView,
    result: Result<Seq<DeviceView>, TransportErrorView>,
)
    requires
        mock_model::consistent(s),
        mock_model::scans(s, f, t, result),
    ensures
        mock_model::consistent(t),
{
    let shown = mock_model::shown(s.devices, f);
    if t != s {
        mock_model::scan_takes(s, shown);
        mock_model::running_stays_consistent(s, mock_model::scan_beats(s, shown));
    }
}

/// A pairing keeps the trace numbered without gaps and in the order of time.
pub proof fn pairing_stays_consistent<A: PairingAgent + ?Sized>(
    s: MockView,
    target: DeviceId,
    agent: &A,
    t: MockView,
    result: Result<PairingOutcome, TransportErrorView>,
)
    requires
        mock_model::consistent(s),
        mock_model::pairs(s, target, pairing::answers_of(agent), t, result),
    ensures
        mock_model::consistent(t),
{
    if t != s {
        let d = mock_model::known(s.devices, target)->0;
        let answer = choose|answer: PairingResponse|
            #![auto]
            crate::pairing::may_answer(agent, mock_device::asked(d.pairing_method), answer) && t
                == mock_model::settled(
                mock_model::played(s, mock_model::start_beat(s, d)),
                d,
                answer@,
            );
        meeting_stays_consistent(s, d, answer);
    }
}

proof fn meeting_stays_consistent(s: MockView, d: MockDeviceView, answer: PairingResponse)
    requires
        mock_model::consistent(s),
        mock_model::has_room(s, 2, 2 * STEP_NANOS as nat),
    ensures
        mock_model::consistent(
            mock_model::settled(
                mock_model::played(s, mock_model::start_beat(s, d)),
                d,
                answer@,
            ),
        ),
{
    let p = mock_model::played(s, mock_model::start_beat(s, d));
    event_stays_consistent(s, mock_model::start_beat(s, d));
    let q = if mock_model::bonds(d, answer@) {
        MockView { paired: p.paired.insert(d.info.id), ..p }
    } else {
        p
    };
    assert(mock_model::consistent(q));
    event_stays_consistent(q, mock_model::end_beat(p, d, answer@));
}

/// Opening a connection keeps the trace numbered without gaps and in the order of time.
pub proof fn connecting_stays_consistent(
    s: MockView,
    target: DeviceId,
    t: MockView,
    result: Result<ConnectionView, TransportErrorView>,
)
    requires
        mock_model::consistent(s),
        mock_model::connects(s, target, t, result),
    ensures
        mock_model::consistent(t),
{
    if t != s {
        let d = mock_model::known(s.devices, target)->0;
        let q = MockView {
            next_token: (s.next_token + 1) as u64,
            connections: s.connections.insert(s.next_token, target),
            ..s
        };
        assert(mock_model::consistent(q));
        event_stays_consistent(
            q,
            Beat {
                origin: d.origin(s.controller),
                kind: crate::event::KindView::Connected,
                dt: STEP_NANOS,
            },
        );
    }
}

/// Closing a connection keeps the trace numbered without gaps and in the order of time.
pub proof fn disconnecting_stays_consistent(
    s: MockView,
    conn: ConnectionView,
    t: MockView,
    result: Result<(), TransportErrorView>,
)
    requires
        mock_model::consistent(s),
        mock_model::disconnects(s, conn, t, result),
    ensures
        mock_model::consistent(t),
{
    if t != s {
        let q = MockView { connections: s.connections.remove(conn.token), ..s };
        assert(mock_model::consistent(q));
        event_stays_consistent(
            q,
            Beat {
                origin: conn.origin(),
                kind: crate::event::KindView::Disconnected { reason: None },
                dt: STEP_NANOS,
            },
        );
    }
}

/// A transfer keeps the trace numbered without gaps and in the order of time.
pub proof fn pushing_stays_consistent(
    s: MockView,
    conn: ConnectionView,
    file: FileView,
    t: MockView,
    result: Result<ReceiptView, TransportErrorView>,
)
    requires
        mock_model::consistent(s),
        mock_model::pushes(s, conn, file, t, result),
    ensures
        mock_model::consistent(t),
{
    if t != s {
        let d = mock_model::known(s.devices, conn.peer)->0;
        let total = file.bytes.len();
        let n = mock_model::chunks_through(d, total);
        let beats = mock_model::transfer_beats(conn, file, d);
        let chunks = mock_model::chunk_beats(conn, file, d, n);
        mock_model::chunks_take(conn, file, d, n);
        assert(beats.drop_last() =~= chunks);
        mock_model::running_stays_consistent(s, beats);
    }
}

/// Accepting pairings keeps the trace numbered without gaps and in the order of time.
pub proof fn accepting_stays_consistent<A: PairingAgent + ?Sized>(
    s: MockView,
    agent: &A,
    window: Duration,
    cap: Option<usize>,
    t: MockView,
    result: Result<Seq<DeviceId>, TransportErrorView>,
)
    requires
        mock_model::consistent(s),
        mock_model::accepts(s, agent, window, cap, t, result),
    ensures
        mock_model::consistent(t),
{
    let answers = choose|answers: Seq<PairingResponse>|
        {
            let m = mock_model::met(s, s.incoming.take(answers.len() as int), answers);
            &&& #[trigger] mock_model::received(s, agent, cap, answers)
            &&& t == m || (mock_model::has_room(m, 0, window.nanos as nat) && t == (MockView {
                clock: m.clock + window.nanos as nat,
                ..m
            }))
        };
    let ds = s.incoming.take(answers.len() as int);
    assert forall|i: int| 0 <= i < ds.len() implies mock_model::has_room(
        #[trigger] mock_model::met(s, ds.take(i), answers),
        2,
        2 * STEP_NANOS as nat,
    ) by {
        assert(ds.take(i) =~= s.incoming.take(i));
    }
    meetings_stay_consistent(s, ds, answers);
}

/// Accepting pairings bonds no more devices than the cap allows, and stops short of it
/// only once every incoming device was met: one that fails does not count.
pub proof fn cap_counts_bonds<A: PairingAgent + ?Sized>(
    s: MockView,
    agent: &A,
    cap: Option<usize>,
    answers: Seq<PairingResponse>,
)
    requires
        mock_model::received(s, agent, cap, answers),
        mock_model::nobody_left(s, cap, answers),
    ensures
        ({
            let bonded = mock_model::bonded_ids(s.incoming.take(answers.len() as int), answers);
            &&& cap matches Some(n) ==> bonded.len() <= n
            &&& mock_model::goes_on(cap, bonded.len()) ==> answers.len() == s.incoming.len()
        }),
{
    let k = answers.len() as int;
    if k > 0 {
        assert(s.incoming.take(k).drop_last() =~= s.incoming.take(k - 1));
        assert(mock_model::goes_on(
            cap,
            mock_model::bonded_ids(s.incoming.take(k - 1), answers).len(),
        ));
    }
}

proof fn meetings_stay_consistent(
    s: MockView,
    ds: Seq<MockDeviceView>,
    answers: Seq<PairingResponse>,
)
    requires
        mock_model::consistent(s),
        forall|i: int|
            0 <= i < ds.len() ==> mock_model::has_room(
                #[trigger] mock_model::met(s, ds.take(i), answers),
                2,
                2 * STEP_NANOS as nat,
            ),
    ensures
        mock_model::consistent(mock_model::met(s, ds, answers)),
    decreases ds.len(),
{
    if ds.len() > 0 {
        let front = ds.drop_last();
        assert forall|i: int| 0 <= i < front.len() implies mock_model::has_room(
            #[trigger] mock_model::met(s, front.take(i), answers),
            2,
            2 * STEP_NANOS as nat,
        ) by {
            assert(front.take(i) =~= ds.take(i));
        }
        meetings_stay_consistent(s, front, answers);
        let before = mock_model::met(s, front, answers);
        assert(ds.take(ds.len() - 1) =~= front);
        meeting_stays_consistent(before, ds.last(), answers[ds.len() - 1]);
    }
}

/// Two backends in the same state do the same: equal scans, connections and transfers
/// report equal events and return equal results.
pub proof fn same_state_same_run(
    s: MockView,
    f: FilterView,
    target: DeviceId,
    conn: ConnectionView,
    file: FileView,
    scan_a: (MockView, Result<Seq<DeviceView>, TransportErrorView>),
    scan_b: (MockView, Result<Seq<DeviceView>, TransportErrorView>),
    link_a: (MockView, Result<ConnectionView, TransportErrorView>),
    link_b: (MockView, Result<ConnectionView, TransportErrorView>),
    push_a: (MockView, Result<ReceiptView, TransportErrorView>),
    push_b: (MockView, Result<ReceiptView, TransportErrorView>),
)
    requires
        mock_model::scans(s, f, scan_a.0, scan_a.1),
        mock_model::scans(s, f, scan_b.0, scan_b.1),
        mock_model::connects(s, target, link_a.0, link_a.1),
        mock_model::connects(s, target, link_b.0, link_b.1),
        mock_model::pushes(s, conn, file, push_a.0, push_a.1),
        mock_model::pushes(s, conn, file, push_b.0, push_b.1),
    ensures
        scan_a == scan_b,
        link_a == link_b,
        push_a == push_b,
{
}

/// A connection that was opened can be closed once, and then is no longer live.
pub proof fn opened_connection_closes(
    s: MockView,
    target: DeviceId,
    t: MockView,
    conn: ConnectionView,
    u: MockView,
    result: Result<(), TransportErrorView>,
)
    requires
        mock_model::connects(s, target, t, Ok::<ConnectionView, TransportErrorView>(conn)),
        mock_model::has_room(t, 1, STEP_NANOS as nat),
        mock_model::disconnects(t, conn, u, result),
    ensures
        result is Ok,
        conn.peer == target,
        !u.connections.contains_key(conn.token),
        !s.connections.contains_key(conn.token) ==> u.connections == s.connections,
        forall|v: MockView, again: Result<(), TransportErrorView>|
            mock_model::disconnects(u, conn, v, again) ==> again == Err::<(), TransportErrorView>(
                TransportErrorView::NotConnected(target),
            ),
{
    if !s.connections.contains_key(conn.token) {
        assert(u.connections =~= s.connections);
    }
}

/// Every payload byte of a transfer is reported once: a completed transfer reports the
/// whole file, one that is cut off what got through, which never passes the limit.
pub proof fn payload_is_accounted_for(
    s: MockView,
    conn: ConnectionView,
    file: FileView,
    t: MockView,
    result: Result<ReceiptView, TransportErrorView>,
)
    requires
        file.bytes.len() <= u64::MAX,
        mock_model::pushes(s, conn, file, t, result),
    ensures
        result matches Ok(receipt) ==> metrics::payload_sum(t.trace) == metrics::payload_sum(
            s.trace,
        ) + receipt.bytes && receipt.bytes == file.bytes.len(),
        result matches Err(TransportErrorView::TransferFailed { transferred, .. }) ==> {
            &&& metrics::payload_sum(t.trace) == metrics::payload_sum(s.trace) + transferred
            &&& transferred < file.bytes.len()
            &&& transferred <= mock_model::known(s.devices, conn.peer)->0.transfer_failure_after->0
        },
{
    if mock_model::reached(s, conn) is Ok && mock_model::room_for_transfer(
        s,
        file,
        mock_model::reached(s, conn)->Ok_0,
    ) {
        let d = mock_model::known(s.devices, conn.peer)->0;
        let total = file.bytes.len();
        let size = mock_model::chunk_of(d);
        let n = mock_model::chunks_through(d, total);
        let beats = mock_model::transfer_beats(conn, file, d);
        let chunks = mock_model::chunk_beats(conn, file, d, n);
        assert(beats.drop_last() =~= chunks);
        chunk_payload(s, conn, file, d, n);
        let before = mock_model::ran(s, chunks);
        assert(t.trace.drop_last() =~= before.trace);
        if mock_model::cut_off(d, total) {
            let limit = d.transfer_failure_after->0 as int;
            assert(n * size <= limit) by (nonlinear_arith)
                requires
                    n == limit / (size as int),
                    size >= 1,
                    limit >= 0,
            ;
        } else {
            assert(n * size >= total) by (nonlinear_arith)
                requires
                    n == (total + size - 1) / (size as int),
                    size >= 1,
            ;
        }
    }
}

proof fn chunk_payload(
    s: MockView,
    conn: ConnectionView,
    file: FileView,
    d: MockDeviceView,
    n: nat,
)
    requires
        file.bytes.len() <= u64::MAX,
    ensures
        metrics::payload_sum(mock_model::ran(s, mock_model::chunk_beats(conn, file, d, n)).trace)
            == metrics::payload_sum(s.trace) + mock_model::sent(
            file.bytes.len(),
            mock_model::chunk_of(d),
            n,
        ),
    decreases n,
{
    let total = file.bytes.len();
    let size = mock_model::chunk_of(d);
    let b = mock_model::chunk_beats(conn, file, d, n);
    let after = mock_model::ran(s, b);
    if n == 0 {
        assert(b.drop_last() =~= Seq::empty());
        assert(mock_model::ran(s, b.drop_last()) == s);
        assert(after.trace.drop_last() =~= s.trace);
        assert(after.trace.last().kind == b.last().kind);
        assert(b.last().kind.moved() == 0);
        assert(0 * size == 0) by (nonlinear_arith);
    } else {
        let m = (n - 1) as nat;
        chunk_payload(s, conn, file, d, m);
        let one = b.drop_last();
        assert(one.drop_last() =~= mock_model::chunk_beats(conn, file, d, m));
        let before = mock_model::ran(s, one.drop_last());
        let mid = mock_model::ran(s, one);
        assert(mid.trace.drop_last() =~= before.trace);
        assert(mid.trace.last().kind == one.last().kind);
        assert(after.trace.drop_last() =~= mid.trace);
        assert(after.trace.last().kind == b.last().kind);
        assert(b.last().kind.moved() == 0);
        assert(one.last().kind.moved() == (mock_model::sent(total, size, n) - mock_model::sent(
            total,
            size,
            m,
        )) as u64);
        assert(m * size <= n * size) by (nonlinear_arith)
            requires
                m <= n,
        ;
        let step = mock_model::sent(total, size, n) - mock_model::sent(total, size, m);
        assert(0 <= step <= total);
        assert(metrics::payload_sum(mid.trace) == metrics::payload_sum(before.trace) + step);
        assert(metrics::payload_sum(after.trace) == metrics::payload_sum(mid.trace));
    }
}

/// A characteristic that was written reads back as written.
pub proof fn gatt_write_is_read_back(
    s: MockView,
    conn: ConnectionView,
    service: Seq<u8>,
    characteristic: Seq<u8>,
    data: Seq<u8>,
    t: MockView,
    result: Result<(), TransportErrorView>,
)
    requires
        mock_model::writes(s, conn, service, characteristic, data, t, result),
        result is Ok,
    ensures
        mock_model::read_result(t, conn, service, characteristic) == Ok::<
            Seq<u8>,
            TransportErrorView,
        >(data),
{
    let d = mock_model::reached(s, conn)->Ok_0;
    let i = choose|i: int| #[trigger] mock_model::first_at(s.devices, conn.peer, i) && t == (
    MockView {
        devices: s.devices.update(
            i,
            MockDeviceView {
                gatt: mock_device::stored(d.gatt, service, characteristic, data),
                ..d
            },
        ),
        ..s
    });
    mock_model::first_is_known(s.devices, conn.peer, i);
    assert(mock_model::first_at(t.devices, conn.peer, i)) by {
        assert forall|k: int| 0 <= k < i implies (#[trigger] t.devices[k]).info.id
            != conn.peer by {
            assert(t.devices[k] == s.devices[k]);
        }
    }
    mock_model::first_is_known(t.devices, conn.peer, i);
    mock_device::write_is_read_back(d.gatt, service, characteristic, data);
}

/// Whether a state may come after another: the adapter presents the same identity, time
/// and numbers do not go back, and neither events nor pairings are forgotten.
pub open spec fn follows(s: MockView, t: MockView) -> bool {
    &&& t.name == s.name
    &&& t.address == s.address
    &&& t.adapter_name == s.adapter_name
    &&& t.controller == s.controller
    &&& t.spec == s.spec
    &&& t.powered == s.powered
    &&& t.incoming == s.incoming
    &&& s.clock <= t.clock
    &&& s.seq <= t.seq
    &&& s.next_token <= t.next_token
    &&& s.trace.is_prefix_of(t.trace)
    &&& s.paired.subset_of(t.paired)
}

proof fn one_follows(s: MockView, b: Beat)
    ensures
        follows(s, mock_model::played(s, b)),
{
    assert(s.trace.is_prefix_of(mock_model::played(s, b).trace));
}

proof fn follows_on(s: MockView, t: MockView, u: MockView)
    requires
        follows(s, t),
        follows(t, u),
    ensures
        follows(s, u),
{
    assert(s.trace =~= u.trace.subrange(0, s.trace.len() as int)) by {
        assert forall|i: int| 0 <= i < s.trace.len() implies s.trace[i] == u.trace[i] by {
            assert(s.trace[i] == t.trace.subrange(0, s.trace.len() as int)[i]);
            assert(t.trace[i] == u.trace.subrange(0, t.trace.len() as int)[i]);
        }
    }
}

proof fn run_follows(s: MockView, bs: Seq<Beat>)
    ensures
        follows(s, mock_model::ran(s, bs)),
    decreases bs.len(),
{
    if bs.len() > 0 {
        let before = mock_model::ran(s, bs.drop_last());
        run_follows(s, bs.drop_last());
        one_follows(before, bs.last());
        follows_on(s, before, mock_model::ran(s, bs));
    } else {
        assert(s.trace.is_prefix_of(s.trace));
    }
}

proof fn settling_follows(s: MockView, d: MockDeviceView, answer: PairingResponse)
    ensures
        follows(
            s,
            mock_model::settled(
                mock_model::played(s, mock_model::start_beat(s, d)),
                d,
                answer@,
            ),
        ),
{
    let p = mock_model::played(s, mock_model::start_beat(s, d));
    one_follows(s, mock_model::start_beat(s, d));
    let q = if mock_model::bonds(d, answer@) {
        MockView { paired: p.paired.insert(d.info.id), ..p }
    } else {
        p
    };
    assert(p.trace.is_prefix_of(q.trace));
    assert(follows(p, q));
    one_follows(q, mock_model::end_beat(p, d, answer@));
    follows_on(p, q, mock_model::settled(p, d, answer@));
    follows_on(s, p, mock_model::settled(p, d, answer@));
}

proof fn meeting_follows(s: MockView, ds: Seq<MockDeviceView>, answers: Seq<PairingResponse>)
    ensures
        follows(s, mock_model::met(s, ds, answers)),
    decreases ds.len(),
{
    if ds.len() > 0 {
        let before = mock_model::met(s, ds.drop_last(), answers);
        meeting_follows(s, ds.drop_last(), answers);
        settling_follows(before, ds.last(), answers[ds.len() - 1]);
        follows_on(s, before, mock_model::met(s, ds, answers));
    } else {
        assert(s.trace.is_prefix_of(s.trace));
    }
}

/// Whether one operation other than a change of the adapter leads from a state to another.
pub open spec fn operation<A: PairingAgent + ?Sized>(s: MockView, agent: &A, t: MockView) -> bool {
    ||| exists|f: FilterView, r: Result<Seq<DeviceView>, TransportErrorView>| #[trigger]
        mock_model::scans(s, f, t, r)
    ||| exists|target: DeviceId, r: Result<PairingOutcome, TransportErrorView>| #[trigger]
        mock_model::pairs(s, target, pairing::answers_of(agent), t, r)
    ||| exists|target: DeviceId, r: Result<ConnectionView, TransportErrorView>| #[trigger]
        mock_model::connects(s, target, t, r)
    ||| exists|conn: ConnectionView, r: Result<(), TransportErrorView>| #[trigger]
        mock_model::disconnects(s, conn, t, r)
    ||| exists|conn: ConnectionView, file: FileView, r: Result<ReceiptView, TransportErrorView>|
        #[trigger] mock_model::pushes(s, conn, file, t, r)
    ||| exists|w: Duration, cap: Option<usize>, r: Result<Seq<DeviceId>, TransportErrorView>|
        #[trigger] mock_model::accepts(s, agent, w, cap, t, r)
    ||| exists|
        conn: ConnectionView,
        service: Seq<u8>,
        characteristic: Seq<u8>,
        data: Seq<u8>,
        r: Result<(), TransportErrorView>,
    | #[trigger] mock_model::writes(s, conn, service, characteristic, data, t, r)
}

/// Once an address is set, every operation runs under it: no operation changes the
/// adapter's identity, turns back time, or forgets an event or a pairing.
pub proof fn operations_only_add<A: PairingAgent + ?Sized>(s: MockView, agent: &A, t: MockView)
    requires
        operation(s, agent, t),
    ensures
        follows(s, t),
{
    assert(s.trace.is_prefix_of(s.trace));
    if t != s {
        if exists|f: FilterView, r: Result<Seq<DeviceView>, TransportErrorView>| #[trigger]
            mock_model::scans(s, f, t, r) {
            let (f, r) = choose|f: FilterView, r: Result<Seq<DeviceView>, TransportErrorView>|
                #[trigger] mock_model::scans(s, f, t, r);
            run_follows(s, mock_model::scan_beats(s, mock_model::shown(s.devices, f)));
        } else if exists|target: DeviceId, r: Result<PairingOutcome, TransportErrorView>|
            #[trigger] mock_model::pairs(s, target, pairing::answers_of(agent), t, r) {
            let (target, r) = choose|
                target: DeviceId,
                r: Result<PairingOutcome, TransportErrorView>,
            | #[trigger] mock_model::pairs(s, target, pairing::answers_of(agent), t, r);
            pairing_follows(s, target, agent, t, r);
        } else if exists|target: DeviceId, r: Result<ConnectionView, TransportErrorView>|
            #[trigger] mock_model::connects(s, target, t, r) {
            let (target, r) = choose|
                target: DeviceId,
                r: Result<ConnectionView, TransportErrorView>,
            | #[trigger] mock_model::connects(s, target, t, r);
            assert(s.trace.is_prefix_of(t.trace));
        } else if exists|conn: ConnectionView, r: Result<(), TransportErrorView>| #[trigger]
            mock_model::disconnects(s, conn, t, r) {
            assert(s.trace.is_prefix_of(t.trace));
        } else if exists|
            conn: ConnectionView,
            file: FileView,
            r: Result<ReceiptView, TransportErrorView>,
        | #[trigger] mock_model::pushes(s, conn, file, t, r) {
            let (conn, file, r) = choose|
                conn: ConnectionView,
                file: FileView,
                r: Result<ReceiptView, TransportErrorView>,
            | #[trigger] mock_model::pushes(s, conn, file, t, r);
            let d = mock_model::known(s.devices, conn.peer)->0;
            run_follows(s, mock_model::transfer_beats(conn, file, d));
        } else if exists|
            w: Duration,
            cap: Option<usize>,
            r: Result<Seq<DeviceId>, TransportErrorView>,
        | #[trigger] mock_model::accepts(s, agent, w, cap, t, r) {
            let (w, cap, r) = choose|
                w: Duration,
                cap: Option<usize>,
                r: Result<Seq<DeviceId>, TransportErrorView>,
            | #[trigger] mock_model::accepts(s, agent, w, cap, t, r);
            accepting_follows(s, agent, w, cap, t, r);
        }
    }
}

proof fn pairing_follows<A: PairingAgent + ?Sized>(
    s: MockView,
    target: DeviceId,
    agent: &A,
    t: MockView,
    result: Result<PairingOutcome, TransportErrorView>,
)
    requires
        mock_model::pairs(s, target, pairing::answers_of(agent), t, result),
        t != s,
    ensures
        follows(s, t),
{
    let d = mock_model::known(s.devices, target)->0;
    let answer = choose|answer: PairingResponse|
        #![auto]
        crate::pairing::may_answer(agent, mock_device::asked(d.pairing_method), answer) && t
            == mock_model::settled(
            mock_model::played(s, mock_model::start_beat(s, d)),
            d,
            answer@,
        );
    settling_follows(s, d, answer);
}

proof fn accepting_follows<A: PairingAgent + ?Sized>(
    s: MockView,
    agent: &A,
    window: Duration,
    cap: Option<usize>,
    t: MockView,
    result: Result<Seq<DeviceId>, TransportErrorView>,
)
    requires
        mock_model::accepts(s, agent, window, cap, t, result),
        t != s,
    ensures
        follows(s, t),
{
    let answers = choose|answers: Seq<PairingResponse>|
        {
            let m = mock_model::met(s, s.incoming.take(answers.len() as int), answers);
            &&& #[trigger] mock_model::received(s, agent, cap, answers)
            &&& t == m || (mock_model::has_room(m, 0, window.nanos as nat) && t == (MockView {
                clock: m.clock + window.nanos as nat,
                ..m
            }))
        };
    meeting_follows(s, s.incoming.take(answers.len() as int), answers);
}

} // verus!
