//! What each operation of the mock comes to, in terms of what went in: results by the
//! scripted device and the agent's answer, and the events that tell of it.
use vstd::prelude::*;
use crate::address::BdAddr;
use crate::backend::{AdapterInfo, BluetoothBackend, ConnectionView, FilterView};
use crate::device::{DeviceId, DeviceView};
use crate::event::{Direction, KindView, PairingMethodHint};
use crate::mock::MockBackend;
use crate::mock_device;
use crate::mock_device::{GattView, MockDevice, MockDeviceView};
use crate::mock_laws;
use crate::mock_model;
use crate::mock_model::{Beat, MockView};
use crate::pairing::{
    PairingAgent, PairingOutcome, PairingRequest, PairingResponse, ResponseView,
};
use crate::text;
use crate::time::Duration;
use crate::transfer::{FileView, ReceiptView};
use crate::transport_error::{TransportError, TransportErrorView};
use crate::uuid::Uuid;

verus! {

/// The events that a run of beats adds: each with what it tells, where it comes from and
/// when, behind what was there.
proof fn beats_are_told(s: MockView, bs: Seq<Beat>, i: int)
    requires
        0 <= i < bs.len(),
    ensures
        ({
            let t = mock_model::ran(s, bs).trace;
            &&& t.len() == s.trace.len() + bs.len()
            &&& t[s.trace.len() + i].kind == bs[i].kind
            &&& t[s.trace.len() + i].origin == bs[i].origin
            &&& t[s.trace.len() + i].seq == (s.seq + i) as u64
            &&& t[s.trace.len() + i].at.nanos == (s.clock + mock_model::time_of(bs.take(i))) as u128
            &&& t.take(s.trace.len() as int) == s.trace
        }),
    decreases bs.len(),
{
    let front = bs.drop_last();
    mock_model::running_moves_on(s, front);
    let before = mock_model::ran(s, front);
    let after = mock_model::ran(s, bs);
    if i < front.len() {
        beats_are_told(s, front, i);
        assert(front.take(i) =~= bs.take(i));
        assert(after.trace[s.trace.len() + i] == before.trace[s.trace.len() + i]);
        assert(after.trace.take(s.trace.len() as int) =~= before.trace.take(s.trace.len() as int));
    } else {
        assert(bs.take(i) =~= front);
        if front.len() > 0 {
            beats_are_told(s, front, 0);
        }
        assert(after.trace.take(s.trace.len() as int) =~= before.trace.take(s.trace.len() as int));
        assert(before.trace.take(s.trace.len() as int) =~= s.trace);
    }
}

/// Pairing with a device that is not there is answered with that device, and does nothing.
pub proof fn unknown_device_is_not_paired(
    s: MockView,
    target: DeviceId,
    answers: spec_fn(PairingRequest, PairingResponse) -> bool,
    t: MockView,
    result: Result<PairingOutcome, TransportErrorView>,
)
    requires
        mock_model::pairs(s, target, answers, t, result),
        forall|k: int| 0 <= k < s.devices.len() ==> (#[trigger] s.devices[k]).info.id != target,
    ensures
        t == s,
        result == Err::<PairingOutcome, TransportErrorView>(
            TransportErrorView::DeviceNotFound(target),
        ),
{
    mock_model::absent_is_unknown(s.devices, target);
}

/// Pairing with a device that is there: the agent is asked what the device's model asks. A
/// refusal is a rejection; else a scripted failure is the failure; else the devices are
/// paired and bonded by that model, and the device is remembered. Two events tell of it, and
/// nothing else of the adapter changes.
pub proof fn pairing_follows_the_answer(
    s: MockView,
    target: DeviceId,
    answers: spec_fn(PairingRequest, PairingResponse) -> bool,
    t: MockView,
    result: Result<PairingOutcome, TransportErrorView>,
    i: int,
)
    requires
        mock_model::pairs(s, target, answers, t, result),
        mock_model::first_at(s.devices, target, i),
        mock_model::has_room(s, 2, 2_000_000),
    ensures
        ({
            let d = s.devices[i];
            let n = s.trace.len() as int;
            &&& exists|answer: PairingResponse| #[trigger]
                answers(mock_device::asked(d.pairing_method), answer) && (match answer@ {
                    ResponseView::Confirm(false) => result is Err
                        && result->Err_0 is PairingRejected,
                    ResponseView::Cancel => result is Err && result->Err_0 is PairingRejected,
                    _ => match d.pairing_failure {
                        Some(reason) => result == Err::<PairingOutcome, TransportErrorView>(
                            TransportErrorView::PairingFailed(reason),
                        ),
                        None => result == Ok::<PairingOutcome, TransportErrorView>(
                            PairingOutcome {
                                paired: true,
                                bonded: true,
                                method: d.pairing_method,
                            },
                        ),
                    },
                })
            &&& t.paired == if result is Ok {
                s.paired.insert(target)
            } else {
                s.paired
            }
            &&& t.devices == s.devices && t.connections == s.connections && t.address == s.address
            &&& t.clock == s.clock + 2_000_000
            &&& t.trace.len() == n + 2
            &&& t.trace[n].kind == (KindView::PairingStarted { method: d.pairing_method })
            &&& t.trace[n].origin.peer == target
            &&& t.trace[n + 1].origin.peer == target
            &&& result is Ok ==> t.trace[n + 1].kind == KindView::PairingCompleted
            &&& (result matches Err(TransportErrorView::PairingFailed(reason))
                ==> t.trace[n + 1].kind == (KindView::PairingFailed { reason }))
            &&& (result matches Err(TransportErrorView::PairingRejected(reason))
                ==> t.trace[n + 1].kind == (KindView::PairingFailed { reason }))
        }),
{
    let d = s.devices[i];
    mock_model::first_is_known(s.devices, target, i);
    let answer = choose|answer: PairingResponse|
        {
            &&& #[trigger] answers(mock_device::asked(d.pairing_method), answer)
            &&& t == mock_model::settled(
                mock_model::played(s, mock_model::start_beat(s, d)),
                d,
                answer@,
            )
            &&& result == mock_model::verdict(d, answer@)
        };
    assert(answers(mock_device::asked(d.pairing_method), answer));
}

/// What each association model asks of the agent: a passkey is the one that both sides
/// show, and an out-of-band pairing has nothing to compare.
pub proof fn models_ask_their_question(m: PairingMethodHint)
    ensures
        match m {
            PairingMethodHint::JustWorks => mock_device::asked(m) is ConfirmJustWorks,
            PairingMethodHint::OutOfBand => mock_device::asked(m) is ConfirmJustWorks,
            PairingMethodHint::PinCode => mock_device::asked(m) is RequestPinCode,
            PairingMethodHint::PasskeyEntry => mock_device::asked(m) is RequestPasskey,
            PairingMethodHint::NumericComparison => mock_device::asked(m) == (
            PairingRequest::ConfirmPasskey { passkey: 123_456 }),
            PairingMethodHint::PasskeyDisplay => mock_device::asked(m) == (
            PairingRequest::DisplayPasskey { passkey: 123_456 }),
        },
{
}

/// Connecting to a device that is there gives a connection to it with a number of its own,
/// in the device's own context, and counts it as live; one event tells of it. Connecting to
/// one that is not there is answered with that device.
pub proof fn connecting_opens_one_link(
    s: MockView,
    target: DeviceId,
    t: MockView,
    result: Result<ConnectionView, TransportErrorView>,
    i: int,
)
    requires
        mock_model::connects(s, target, t, result),
        mock_model::first_at(s.devices, target, i),
        mock_model::has_room(s, 1, 1_000_000),
        s.next_token < u64::MAX,
        forall|k: u64| #[trigger] s.connections.contains_key(k) ==> k < s.next_token,
    ensures
        result is Ok,
        ({
            let conn = result->Ok_0;
            let n = s.trace.len() as int;
            &&& conn.peer == target
            &&& conn.local == s.controller
            &&& conn.spec == s.devices[i].spec
            &&& conn.standards == s.devices[i].standards
            &&& !s.connections.contains_key(conn.token)
            &&& t.connections == s.connections.insert(conn.token, target)
            &&& forall|k: u64| #[trigger] t.connections.contains_key(k) ==> k < t.next_token
            &&& t.devices == s.devices && t.paired == s.paired
            &&& t.trace.len() == n + 1
            &&& t.trace[n].kind == KindView::Connected
            &&& t.trace[n].origin.peer == target
            &&& t.clock == s.clock + 1_000_000
        }),
{
    mock_model::first_is_known(s.devices, target, i);
}

/// Closing a live connection takes it out of the live ones, and only it; closing any other
/// is answered with its peer.
pub proof fn disconnecting_closes_one_link(
    s: MockView,
    conn: ConnectionView,
    t: MockView,
    result: Result<(), TransportErrorView>,
)
    requires
        mock_model::disconnects(s, conn, t, result),
        mock_model::has_room(s, 1, 1_000_000),
    ensures
        result is Ok <==> s.connections.contains_key(conn.token),
        result is Err ==> t == s && result->Err_0 == TransportErrorView::NotConnected(conn.peer),
        forall|k: u64| #[trigger]
            t.connections.contains_key(k) <==> s.connections.contains_key(k) && k != conn.token,
        result is Ok ==> ({
            let n = s.trace.len() as int;
            &&& t.trace.len() == n + 1
            &&& t.trace[n].kind == (KindView::Disconnected { reason: None })
            &&& t.trace[n].origin.peer == conn.peer
            &&& t.clock == s.clock + 1_000_000
        }),
{
}

/// How many chunks a file is cut in: the fewest of the device's size that hold it. A size of
/// zero counts as one.
pub proof fn chunks_hold_the_file(total: nat, d: MockDeviceView)
    ensures
        ({
            let size = mock_model::chunk_of(d);
            let n = mock_model::chunk_count(total, size);
            &&& size == if d.chunk_size == 0 {
                1
            } else {
                d.chunk_size as nat
            }
            &&& total <= n * size
            &&& n > 0 ==> (n - 1) * size < total
            &&& total == 0 <==> n == 0
        }),
{
    let size = mock_model::chunk_of(d);
    let n = mock_model::chunk_count(total, size);
    let x = total + size - 1;
    assert(n * size <= x < n * size + size && n >= 0) by (nonlinear_arith)
        requires
            size >= 1,
            x >= 0,
            n == x / (size as int),
    ;
    if n > 0 {
        assert((n - 1) * size == n * size - size) by (nonlinear_arith);
    } else {
        assert(n * size == 0) by (nonlinear_arith)
            requires
                n == 0,
        ;
    }
    if total == 0 {
        if n >= 1 {
            assert(n * size >= size) by (nonlinear_arith)
                requires
                    n >= 1,
                    size >= 1,
            ;
        }
    }
}

/// How a transfer ends: a scripted failure strikes exactly where the file is longer than its
/// limit, behind as many whole chunks as stay within it; else the whole file goes through,
/// and takes one step and the chunks' time.
pub proof fn transfer_ends_by_the_script(
    file: FileView,
    d: MockDeviceView,
    result: Result<ReceiptView, TransportErrorView>,
)
    requires
        result == mock_model::transfer_result(file, d),
        file.bytes.len() <= u64::MAX,
        mock_model::transfer_time(d, mock_model::chunks_through(d, file.bytes.len())) <= u128::MAX,
        mock_model::chunks_through(d, file.bytes.len()) <= u64::MAX,
    ensures
        ({
            let total = file.bytes.len() as int;
            let size = if d.chunk_size == 0 {
                1
            } else {
                d.chunk_size as int
            };
            match result {
                Ok(receipt) => {
                    &&& d.transfer_failure_after is None || d.transfer_failure_after->0 >= total
                    &&& receipt.object_name == file.name
                    &&& receipt.bytes == total
                    &&& total <= receipt.chunks * size
                    &&& receipt.chunks > 0 ==> (receipt.chunks - 1) * size < total
                    &&& receipt.duration.nanos == 1_000_000 + receipt.chunks
                        * d.per_chunk_latency.nanos
                },
                Err(TransportErrorView::TransferFailed { transferred, .. }) => {
                    &&& d.transfer_failure_after is Some
                    &&& d.transfer_failure_after->0 < total
                    &&& transferred <= d.transfer_failure_after->0
                    &&& d.transfer_failure_after->0 < transferred + size
                    &&& transferred as int % size == 0
                },
                Err(_) => false,
            }
        }),
{
    let total = file.bytes.len();
    let size = mock_model::chunk_of(d);
    let n = mock_model::chunks_through(d, total);
    if mock_model::cut_off(d, total) {
        let limit = d.transfer_failure_after->0 as int;
        assert(n * size <= limit < n * size + size && n >= 0) by (nonlinear_arith)
            requires
                size >= 1,
                limit >= 0,
                n == limit / (size as int),
        ;
        assert(mock_model::sent(total, size, n) == n * size);
        vstd::arithmetic::div_mod::lemma_mod_multiples_basic(n as int, size as int);
    } else {
        chunks_hold_the_file(total, d);
    }
}

proof fn chunk_beats_in_turn(
    conn: ConnectionView,
    file: FileView,
    d: MockDeviceView,
    n: nat,
    k: nat,
)
    requires
        k < n,
    ensures
        ({
            let b = mock_model::chunk_beats(conn, file, d, n);
            let total = file.bytes.len();
            let size = mock_model::chunk_of(d);
            let before = mock_model::sent(total, size, k);
            let after = mock_model::sent(total, size, k + 1);
            &&& b.len() == 2 * n + 1
            &&& b[0].kind == (KindView::TransferStarted {
                name: file.name,
                total_bytes: total as u64,
            })
            &&& b[(1 + 2 * k) as int].kind == (KindView::DataChunk {
                direction: Direction::Outbound,
                bytes: (after - before) as u64,
            })
            &&& b[(2 + 2 * k) as int].kind == (KindView::TransferProgress {
                transferred: after as u64,
                total: total as u64,
            })
        }),
    decreases n,
{
    mock_model::chunks_take(conn, file, d, n);
    let m = (n - 1) as nat;
    mock_model::chunks_take(conn, file, d, m);
    if k < m {
        chunk_beats_in_turn(conn, file, d, m, k);
    } else if m > 0 {
        chunk_beats_in_turn(conn, file, d, m, (m - 1) as nat);
    }
}

/// A transfer that goes through tells of itself in this order: that it began, with the
/// file's name and size; for each chunk, outbound, the chunk and then how far it has come;
/// and that it is complete. Each chunk is of the device's size, but for a last one that may
/// be shorter, and they end at the file's size.
pub proof fn transfer_tells_chunk_by_chunk(
    s: MockView,
    conn: ConnectionView,
    file: FileView,
    t: MockView,
    receipt: ReceiptView,
    k: nat,
)
    requires
        mock_model::pushes(s, conn, file, t, Ok::<ReceiptView, TransportErrorView>(receipt)),
        file.bytes.len() <= u64::MAX,
        mock_model::chunks_through(
            mock_model::known(s.devices, conn.peer)->0,
            file.bytes.len(),
        ) <= u64::MAX,
        k < receipt.chunks,
    ensures
        ({
            let d = mock_model::known(s.devices, conn.peer)->0;
            let size = if d.chunk_size == 0 {
                1
            } else {
                d.chunk_size as int
            };
            let n = s.trace.len() as int;
            let total = file.bytes.len() as int;
            &&& s.connections.contains_key(conn.token)
            &&& t.trace.len() == n + 2 * receipt.chunks + 2
            &&& t.trace[n].kind == (KindView::TransferStarted {
                name: file.name,
                total_bytes: total as u64,
            })
            &&& k + 1 < receipt.chunks ==> t.trace[n + 1 + 2 * k].kind == (KindView::DataChunk {
                direction: Direction::Outbound,
                bytes: size as u64,
            }) && t.trace[n + 2 + 2 * k].kind == (KindView::TransferProgress {
                transferred: ((k + 1) * size) as u64,
                total: total as u64,
            })
            &&& k + 1 == receipt.chunks ==> t.trace[n + 1 + 2 * k].kind == (KindView::DataChunk {
                direction: Direction::Outbound,
                bytes: (total - k * size) as u64,
            }) && t.trace[n + 2 + 2 * k].kind == (KindView::TransferProgress {
                transferred: total as u64,
                total: total as u64,
            })
            &&& t.trace[n + 2 * receipt.chunks + 1].kind == (KindView::TransferCompleted {
                bytes: total as u64,
                duration: receipt.duration,
            })
            &&& t.connections == s.connections && t.paired == s.paired && t.devices == s.devices
        }),
{
    let d = mock_model::known(s.devices, conn.peer)->0;
    let total = file.bytes.len();
    let size = mock_model::chunk_of(d);
    let bs = mock_model::transfer_beats(conn, file, d);
    let n = mock_model::chunks_through(d, total);
    let chunks = mock_model::chunk_beats(conn, file, d, n);
    chunks_hold_the_file(total, d);
    mock_model::chunks_take(conn, file, d, n);
    chunk_beats_in_turn(conn, file, d, n, k);
    mock_model::running_moves_on(s, bs);
    beats_are_told(s, bs, 0);
    beats_are_told(s, bs, (1 + 2 * k) as int);
    beats_are_told(s, bs, (2 + 2 * k) as int);
    beats_are_told(s, bs, (2 * n + 1) as int);
    assert(bs[0] == chunks[0]);
    assert(bs[(1 + 2 * k) as int] == chunks[(1 + 2 * k) as int]);
    assert(bs[(2 + 2 * k) as int] == chunks[(2 + 2 * k) as int]);
    assert(k * size <= (n - 1) * size) by (nonlinear_arith)
        requires
            k <= n - 1,
            size >= 0,
    ;
    mock_model::next_chunk(total, size, k);
    if k + 1 < n {
        assert((k + 1) * size <= (n - 1) * size) by (nonlinear_arith)
            requires
                k + 1 <= n - 1,
                size >= 0,
        ;
    }
}

/// Which of the devices that come bond: those that the agent does not refuse and that are
/// not scripted to fail, in the order in which they come.
pub proof fn bonding_follows_the_answer(
    ds: Seq<MockDeviceView>,
    d: MockDeviceView,
    answers: Seq<PairingResponse>,
)
    requires
        answers.len() == ds.len() + 1,
    ensures
        mock_model::bonded_ids(ds.push(d), answers) == (match answers[ds.len() as int]@ {
            ResponseView::Confirm(false) => mock_model::bonded_ids(ds, answers),
            ResponseView::Cancel => mock_model::bonded_ids(ds, answers),
            _ => if d.pairing_failure is Some {
                mock_model::bonded_ids(ds, answers)
            } else {
                mock_model::bonded_ids(ds, answers).push(d.info.id)
            },
        }),
{
    assert(ds.push(d).drop_last() =~= ds);
}

/// A device that comes is remembered as paired exactly where it bonds.
pub proof fn coming_device_is_remembered(
    s: MockView,
    ds: Seq<MockDeviceView>,
    d: MockDeviceView,
    answers: Seq<PairingResponse>,
)
    requires
        answers.len() == ds.len() + 1,
    ensures
        ({
            let before = mock_model::met(s, ds, answers);
            let after = mock_model::met(s, ds.push(d), answers);
            let refused = match answers[ds.len() as int]@ {
                ResponseView::Confirm(false) => true,
                ResponseView::Cancel => true,
                _ => false,
            };
            &&& after.paired == if refused || d.pairing_failure is Some {
                before.paired
            } else {
                before.paired.insert(d.info.id)
            }
            &&& after.clock == before.clock + 2_000_000
            &&& after.trace.len() == before.trace.len() + 2
            &&& after.connections == before.connections
        }),
{
    assert(ds.push(d).drop_last() =~= ds);
}

/// A window is cut short only by its cap: with no cap every device that comes is met, and
/// with one no more than that many bond.
pub proof fn cap_is_the_only_stop(cap: Option<usize>, bonded: nat)
    ensures
        mock_model::goes_on(cap, bonded) <==> (cap is None || bonded < cap->0),
{
}

proof fn scan_beats_in_turn(s: MockView, ds: Seq<MockDeviceView>, k: int)
    requires
        0 <= k < ds.len(),
    ensures
        ({
            let b = mock_model::scan_beats(s, ds);
            &&& b.len() == ds.len() + 1
            &&& b[0].kind == KindView::DiscoveryStarted
            &&& b[k + 1].kind == (KindView::DeviceDiscovered { rssi: ds[k].info.rssi })
            &&& b[k + 1].origin == ds[k].origin(s.controller)
        }),
    decreases ds.len(),
{
    let front = ds.drop_last();
    mock_model::scan_takes(s, front);
    if k < front.len() {
        scan_beats_in_turn(s, front, k);
    } else if front.len() > 0 {
        scan_beats_in_turn(s, front, k - 1);
    }
}

/// A scan tells that it began and then of every device that it returns, in order: its signal,
/// and a link context of the device's own under the local controller.
pub proof fn scan_tells_of_each_device(
    s: MockView,
    f: FilterView,
    t: MockView,
    found: Seq<DeviceView>,
    k: int,
)
    requires
        mock_model::scans(
            s,
            f,
            t,
            Ok::<Seq<DeviceView>, TransportErrorView>(found),
        ),
        0 <= k < found.len(),
    ensures
        ({
            let n = s.trace.len() as int;
            &&& t.trace.len() == n + 1 + found.len()
            &&& t.trace[n].kind == KindView::DiscoveryStarted
            &&& t.trace[n + 1 + k].kind == (KindView::DeviceDiscovered { rssi: found[k].rssi })
            &&& t.trace[n + 1 + k].origin.peer == found[k].id
            &&& t.trace[n + 1 + k].origin.local == s.controller
            &&& t.devices == s.devices && t.paired == s.paired && t.connections == s.connections
            &&& t.clock == s.clock + 1_000_000 * (1 + found.len())
        }),
{
    let shown = mock_model::shown(s.devices, f);
    let b = mock_model::scan_beats(s, shown);
    mock_model::scan_takes(s, shown);
    mock_model::running_moves_on(s, b);
    scan_beats_in_turn(s, shown, k);
    beats_are_told(s, b, 0);
    beats_are_told(s, b, k + 1);
    assert(found[k] == shown[k].info);
}

proof fn meetings_add_up(s: MockView, ds: Seq<MockDeviceView>, answers: Seq<PairingResponse>)
    requires
        ds.len() <= answers.len(),
    ensures
        ({
            let m = mock_model::met(s, ds, answers);
            &&& m.clock == s.clock + 2_000_000 * ds.len()
            &&& m.trace.len() == s.trace.len() + 2 * ds.len()
            &&& m.connections == s.connections
            &&& forall|i: int|
                0 <= i < mock_model::bonded_ids(ds, answers).len() ==> m.paired.contains(
                    #[trigger] mock_model::bonded_ids(ds, answers)[i],
                )
            &&& forall|id: DeviceId| #[trigger] s.paired.contains(id) ==> m.paired.contains(id)
        }),
    decreases ds.len(),
{
    if ds.len() > 0 {
        let front = ds.drop_last();
        meetings_add_up(s, front, answers);
        let before = mock_model::met(s, front, answers);
        let m = mock_model::met(s, ds, answers);
        let past = mock_model::bonded_ids(front, answers);
        let all = mock_model::bonded_ids(ds, answers);
        assert forall|id: DeviceId| #[trigger] before.paired.contains(id) implies m.paired.contains(
            id,
        ) by {}
        assert forall|i: int| 0 <= i < all.len() implies m.paired.contains(#[trigger] all[i]) by {
            if i < past.len() {
                assert(all[i] == past[i]);
                assert(before.paired.contains(past[i]));
            }
        }
        assert forall|id: DeviceId| #[trigger] s.paired.contains(id) implies m.paired.contains(
            id,
        ) by {
            assert(before.paired.contains(id));
        }
    }
}

/// A pairing window lasts as long as it is to last on top of its pairings, tells each pairing
/// in two events, remembers every device that it returns, and returns no more than its cap;
/// without a cap every device that comes is met.
pub proof fn window_passes_in_full<A: PairingAgent + ?Sized>(
    s: MockView,
    agent: &A,
    window: Duration,
    cap: Option<usize>,
    t: MockView,
    ids: Seq<DeviceId>,
)
    requires
        mock_model::accepts(
            s,
            agent,
            window,
            cap,
            t,
            Ok::<Seq<DeviceId>, TransportErrorView>(ids),
        ),
    ensures
        exists|n: nat|
            {
                &&& n <= s.incoming.len()
                &&& #[trigger] (s.clock + 2_000_000 * n + window.nanos) == t.clock
                &&& t.trace.len() == s.trace.len() + 2 * n
                &&& ids.len() <= n
                &&& cap is None ==> n == s.incoming.len()
            },
        cap matches Some(max) ==> ids.len() <= max,
        forall|i: int| 0 <= i < ids.len() ==> t.paired.contains(#[trigger] ids[i]),
        forall|id: DeviceId| #[trigger] s.paired.contains(id) ==> t.paired.contains(id),
        t.connections == s.connections,
{
    let answers = choose|answers: Seq<PairingResponse>|
        {
            let ds = s.incoming.take(answers.len() as int);
            let m = mock_model::met(s, ds, answers);
            &&& #[trigger] mock_model::received(s, agent, cap, answers)
            &&& mock_model::nobody_left(s, cap, answers)
            &&& t == (MockView { clock: m.clock + window.nanos as nat, ..m })
            &&& ids == mock_model::bonded_ids(ds, answers)
        };
    let ds = s.incoming.take(answers.len() as int);
    meetings_add_up(s, ds, answers);
    mock_laws::cap_counts_bonds(s, agent, cap, answers);
    bonds_are_met(ds, answers);
    let n = answers.len();
    assert((s.clock + 2_000_000 * n + window.nanos) == t.clock);
}

proof fn bonds_are_met(ds: Seq<MockDeviceView>, answers: Seq<PairingResponse>)
    ensures
        mock_model::bonded_ids(ds, answers).len() <= ds.len(),
    decreases ds.len(),
{
    if ds.len() > 0 {
        bonds_are_met(ds.drop_last(), answers);
    }
}

/// Reading, writing and watching need a live connection first and a known peer second, and
/// say which of them is missing.
pub proof fn characteristics_need_a_link(
    s: MockView,
    conn: ConnectionView,
    service: Seq<u8>,
    characteristic: Seq<u8>,
    data: Seq<u8>,
    t: MockView,
    result: Result<(), TransportErrorView>,
)
    requires
        mock_model::writes(s, conn, service, characteristic, data, t, result),
        !s.connections.contains_key(conn.token) || (forall|k: int|
            0 <= k < s.devices.len() ==> (#[trigger] s.devices[k]).info.id != conn.peer),
    ensures
        t == s,
        ({
            let e = if !s.connections.contains_key(conn.token) {
                TransportErrorView::NotConnected(conn.peer)
            } else {
                TransportErrorView::DeviceNotFound(conn.peer)
            };
            &&& result == Err::<(), TransportErrorView>(e)
            &&& mock_model::read_result(s, conn, service, characteristic) == Err::<
                Seq<u8>,
                TransportErrorView,
            >(e)
            &&& mock_model::watch_result(s, conn, service, characteristic) == Err::<
                Seq<(Seq<u8>, Seq<u8>)>,
                TransportErrorView,
            >(e)
        }),
{
    if s.connections.contains_key(conn.token) {
        mock_model::absent_is_unknown(s.devices, conn.peer);
    }
}

/// Watching gives the notifications of the one characteristic, in order: one more that is
/// scripted behind the others comes last, where it is of that characteristic.
pub proof fn notifications_come_in_order(
    g: Seq<GattView>,
    e: GattView,
    service: Seq<u8>,
    characteristic: Seq<u8>,
)
    ensures
        mock_device::values_of(g.push(e), service, characteristic) == if e.service == service
            && e.characteristic == characteristic {
            mock_device::values_of(g, service, characteristic).push(e.value)
        } else {
            mock_device::values_of(g, service, characteristic)
        },
        mock_device::values_of(Seq::empty(), service, characteristic).len() == 0,
{
    assert(g.push(e).drop_last() =~= g);
}

/// The mock's adapter shows what it was last told: whether it is powered and which address it
/// presents, each without touching anything else.
pub proof fn adapter_shows_what_it_was_told(
    first: MockBackend,
    second: MockBackend,
    third: MockBackend,
    on: bool,
    addr: BdAddr,
    a: Result<(), TransportError>,
    b: Result<(), TransportError>,
    was: Result<AdapterInfo, TransportError>,
    now: Result<AdapterInfo, TransportError>,
)
    requires
        exists|m: &mut MockBackend|
            *m == first && *final(m) == second && #[trigger] call_ensures(
                MockBackend::set_powered,
                (m, on),
                a,
            ),
        exists|m: &mut MockBackend|
            *m == second && *final(m) == third && #[trigger] call_ensures(
                MockBackend::set_local_address,
                (m, addr),
                b,
            ),
        call_ensures(MockBackend::adapter, (&first,), was),
        call_ensures(MockBackend::adapter, (&third,), now),
    ensures
        a is Ok && b is Ok && was is Ok && now is Ok,
        now->Ok_0@.powered == on,
        now->Ok_0@.address == addr,
        now->Ok_0@.name == was->Ok_0@.name,
        now->Ok_0@.controller == was->Ok_0@.controller,
        now->Ok_0@.spec == was->Ok_0@.spec,
        third@.trace == first@.trace && third@.devices == first@.devices,
        third@.paired == first@.paired && third@.connections == first@.connections,
{
}

/// A device scripted to fail its pairings fails them for that reason with everyone who does
/// not refuse, and bonds with nobody; a refusal still comes first.
pub proof fn failing_pairing_never_bonds(
    d: MockDevice,
    reason: &str,
    e: MockDevice,
    answer: ResponseView,
)
    requires
        call_ensures(MockDevice::failing_pairing, (d, reason), e),
    ensures
        !mock_model::bonds(e@, answer),
        mock_model::verdict(e@, answer) is Err,
        !(answer is Cancel) && answer != ResponseView::Confirm(false) ==> mock_model::verdict(
            e@,
            answer,
        ) == Err::<PairingOutcome, TransportErrorView>(TransportErrorView::PairingFailed(reason@)),
        answer is Cancel || answer == ResponseView::Confirm(false) ==> (mock_model::verdict(
            e@,
            answer,
        )->Err_0 is PairingRejected),
        e@.info == d@.info && e@.pairing_method == d@.pairing_method,
{
}

/// A device scripted to fail its transfers after so many bytes takes every file up to that
/// size and cuts off every longer one; a chunk size of zero is taken as one.
pub proof fn scripted_transfers_are_cut(
    d: MockDevice,
    bytes: u64,
    e: MockDevice,
    size: u64,
    latency: Duration,
    f: MockDevice,
    total: nat,
)
    requires
        call_ensures(MockDevice::failing_transfer_after, (d, bytes), e),
        call_ensures(MockDevice::with_transfer_profile, (d, size, latency), f),
    ensures
        mock_model::cut_off(e@, total) <==> bytes < total,
        mock_model::chunk_of(e@) == mock_model::chunk_of(d@),
        size >= 1 ==> mock_model::chunk_of(f@) == size,
        size == 0 ==> mock_model::chunk_of(f@) == 1,
        f@.per_chunk_latency == latency,
        mock_model::cut_off(f@, total) == mock_model::cut_off(d@, total),
        e@.info == d@.info && f@.info == d@.info,
{
}

/// A characteristic that a device is given is read with its value, unless it had it before:
/// then the first value stays; a notification is no characteristic.
pub proof fn given_characteristic_is_read(
    d: MockDevice,
    service: Uuid,
    characteristic: Uuid,
    value: Vec<u8>,
    e: MockDevice,
    f: MockDevice,
)
    requires
        call_ensures(MockDevice::with_gatt, (d, service, characteristic, value), e),
        call_ensures(MockDevice::with_notification, (d, service, characteristic, value), f),
    ensures
        mock_device::value_at(d@.gatt, service@, characteristic@) is None ==> mock_device::value_at(
            e@.gatt,
            service@,
            characteristic@,
        ) == Some(value@),
        mock_device::value_at(d@.gatt, service@, characteristic@) is Some ==> mock_device::value_at(
            e@.gatt,
            service@,
            characteristic@,
        ) == mock_device::value_at(d@.gatt, service@, characteristic@),
        f@.gatt == d@.gatt,
        f@.notifications.len() == d@.notifications.len() + 1,
        e@.notifications == d@.notifications,
{
    last_entry_counts_last(
        d@.gatt,
        GattView { service: service@, characteristic: characteristic@, value: value@ },
    );
}

proof fn last_entry_counts_last(g: Seq<GattView>, e: GattView)
    ensures
        mock_device::value_at(g.push(e), e.service, e.characteristic) == match mock_device::value_at(
            g,
            e.service,
            e.characteristic,
        ) {
            Some(v) => Some(v),
            None => Some(e.value),
        },
    decreases g.len(),
{
    if g.len() > 0 {
        last_entry_counts_last(g.drop_first(), e);
        assert(g.push(e).drop_first() =~= g.drop_first().push(e));
    } else {
        reveal_with_fuel(mock_device::value_at, 2);
    }
}

/// An event carries the next number and the time at which it happens; the time that it takes
/// passes behind it.
pub proof fn event_is_stamped_when_it_happens(s: MockView, a: Beat, b: Beat)
    requires
        s.seq + 1 <= u64::MAX,
        s.clock + a.dt <= u128::MAX,
    ensures
        ({
            let n = s.trace.len() as int;
            let t = mock_model::played(mock_model::played(s, a), b).trace;
            &&& t.len() == n + 2
            &&& t[n].at.nanos == s.clock
            &&& t[n + 1].at.nanos == s.clock + a.dt
            &&& t[n].seq == s.seq
            &&& t[n + 1].seq == s.seq + 1
            &&& t[n].kind == a.kind && t[n + 1].kind == b.kind
        }),
{
}

/// A mock that has done nothing starts at number zero and time zero, powered, with nobody
/// paired or connected.
pub proof fn fresh_mock_starts_at_zero(s: MockView)
    requires
        s == mock_model::plain(),
    ensures
        s.seq == 0 && s.clock == 0 && s.trace.len() == 0,
        s.powered,
        s.devices.len() == 0 && s.incoming.len() == 0,
        forall|id: DeviceId| !s.paired.contains(id),
        forall|k: u64| !s.connections.contains_key(k),
        mock_model::consistent(s),
{
}

/// That a scan began is told of the adapter alone: of no peer, under its own controller and
/// context.
pub proof fn scan_begins_at_the_adapter(
    s: MockView,
    f: FilterView,
    t: MockView,
    found: Seq<DeviceView>,
)
    requires
        mock_model::scans(s, f, t, Ok::<Seq<DeviceView>, TransportErrorView>(found)),
    ensures
        ({
            let e = t.trace[s.trace.len() as int];
            &&& e.kind == KindView::DiscoveryStarted
            &&& e.origin.peer.addr == BdAddr(0, 0, 0, 0, 0, 0)
            &&& e.origin.local == s.controller
            &&& e.origin.spec == s.spec
        }),
{
    let shown = mock_model::shown(s.devices, f);
    let b = mock_model::scan_beats(s, shown);
    mock_model::scan_takes(s, shown);
    scan_starts_with_the_adapter(s, shown);
    beats_are_told(s, b, 0);
}

proof fn scan_starts_with_the_adapter(s: MockView, ds: Seq<MockDeviceView>)
    ensures
        mock_model::scan_beats(s, ds).len() >= 1,
        mock_model::scan_beats(s, ds)[0].kind == KindView::DiscoveryStarted,
        mock_model::scan_beats(s, ds)[0].origin == mock_model::adapter_origin_of(s),
    decreases ds.len(),
{
    if ds.len() > 0 {
        scan_starts_with_the_adapter(s, ds.drop_last());
    }
}

/// A transfer that is cut off tells why as its last event, in the words of its result, which
/// name the limit that it hit; nothing else of the mock changes.
pub proof fn cut_transfer_tells_why(
    s: MockView,
    conn: ConnectionView,
    file: FileView,
    t: MockView,
    transferred: u64,
    reason: Seq<char>,
)
    requires
        mock_model::pushes(
            s,
            conn,
            file,
            t,
            Err::<ReceiptView, TransportErrorView>(
                TransportErrorView::TransferFailed { transferred, reason },
            ),
        ),
    ensures
        t.trace.len() > s.trace.len(),
        t.trace.last().kind == (KindView::Error { detail: reason }),
        t.trace.last().origin.peer == conn.peer,
        text::has_text(
            reason,
            text::decimal(
                (mock_model::known(s.devices, conn.peer)->0).transfer_failure_after->0 as nat,
            ) + " bytes"@,
        ),
        t.connections == s.connections && t.paired == s.paired && t.devices == s.devices,
{
    let d = mock_model::known(s.devices, conn.peer)->0;
    let b = mock_model::transfer_beats(conn, file, d);
    let n = mock_model::chunks_through(d, file.bytes.len());
    mock_model::chunks_take(conn, file, d, n);
    mock_model::running_moves_on(s, b);
    beats_are_told(s, b, b.len() - 1);
    failure_names_its_limit(d.transfer_failure_after->0);
}

proof fn failure_names_its_limit(limit: u64)
    ensures
        text::has_text(
            mock_model::link_failure(limit),
            text::decimal(limit as nat) + " bytes"@,
        ),
{
    end_is_shown("simulated link failure at "@, text::decimal(limit as nat), " bytes"@);
}

proof fn end_is_shown(a: Seq<char>, b: Seq<char>, c: Seq<char>)
    ensures
        text::has_text(a + b + c, b + c),
{
    let s = a + b + c;
    assert(s.subrange(a.len() as int, (a.len() + (b + c).len()) as int) =~= b + c);
    assert(text::stands_at(s, b + c, a.len() as int));
}

} // verus!
