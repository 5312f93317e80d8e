//! What the workflows give on the mock backend.
use vstd::prelude::*;
use crate::address::BdAddr;
use crate::backend;
use crate::backend::{BackendCall, BluetoothBackend, ConnectionView};
use crate::batch;
use crate::batch::{BatchPairOptions, ItemView};
use crate::device::DeviceId;
use crate::mock::MockBackend;
use crate::mock_device;
use crate::mock_device::MockDeviceView;
use crate::mock_model;
use crate::mock_model::{MockView, STEP_NANOS};
use crate::pairing::{PairingOutcome, PairingRequest, PairingResponse};
use crate::transfer::{FileView, ReceiptView};
use crate::transport_error::{TransportError, TransportErrorView};
use crate::upload;
use crate::upload::UploadOptions;
use crate::workflow;
use crate::workflow::{PairOptions, PairReport};

verus! {

/// Whether a change of address does on a mock what it should: it goes through, and the
/// address is all that changes.
pub open spec fn readdresses(
    changes: spec_fn(MockBackend, BdAddr, Result<(), TransportError>, MockBackend) -> bool,
) -> bool {
    forall|s: MockBackend, a: BdAddr, r: Result<(), TransportError>, t: MockBackend|
        #[trigger] changes(s, a, r, t) ==> r is Ok && t@ == (MockView { address: a, ..s@ })
}

/// Whether every attempt to pair with a device must end as `v`: the device is unknown, or
/// its script and each answer that the agent may give agree on it.
pub open spec fn owed(
    s: MockView,
    answers: spec_fn(PairingRequest, PairingResponse) -> bool,
    id: DeviceId,
    v: Result<PairingOutcome, TransportErrorView>,
) -> bool {
    match mock_model::known(s.devices, id) {
        None => v == Err::<PairingOutcome, TransportErrorView>(
            TransportErrorView::DeviceNotFound(id),
        ),
        Some(d) => forall|a: PairingResponse| #[trigger]
            answers(mock_device::asked(d.pairing_method), a) ==> mock_model::verdict(d, a@) == v,
    }
}

/// Whether `t` comes at most `n` pairings after `s`.
spec fn spent(s: MockView, t: MockView, n: nat) -> bool {
    &&& t.devices == s.devices
    &&& t.seq <= s.seq + 2 * n
    &&& t.clock <= s.clock + 2 * n * STEP_NANOS as nat
}

/// Whether there is room for `n` pairings.
pub open spec fn fits(s: MockView, n: nat) -> bool {
    mock_model::has_room(s, 2 * n, 2 * n * STEP_NANOS as nat)
}

proof fn spent_both(s: MockView, t: MockView, u: MockView, n: nat, m: nat)
    requires
        spent(s, t, n),
        spent(t, u, m),
    ensures
        spent(s, u, n + m),
{
    assert(2 * (n + m) * STEP_NANOS as nat == 2 * n * STEP_NANOS as nat + 2 * m
        * STEP_NANOS as nat) by (nonlinear_arith);
}

proof fn spent_more(s: MockView, t: MockView, n: nat, m: nat)
    requires
        spent(s, t, n),
        n <= m,
    ensures
        spent(s, t, m),
{
    assert(2 * n * STEP_NANOS as nat <= 2 * m * STEP_NANOS as nat) by (nonlinear_arith)
        requires
            n <= m,
    ;
}

proof fn fits_after(s: MockView, t: MockView, n: nat, m: nat, all: nat)
    requires
        spent(s, t, n),
        fits(s, all),
        n + m <= all,
    ensures
        fits(t, m),
{
    assert(2 * n * STEP_NANOS as nat + 2 * m * STEP_NANOS as nat <= 2 * all * STEP_NANOS as nat)
        by (nonlinear_arith)
        requires
            n + m <= all,
    ;
}

/// One attempt takes the room of one pairing at most, and ends as it must.
proof fn attempt_on_mock(
    s: MockBackend,
    t: MockBackend,
    target: DeviceId,
    answers: spec_fn(PairingRequest, PairingResponse) -> bool,
    result: Result<PairingOutcome, TransportErrorView>,
    v: Result<PairingOutcome, TransportErrorView>,
)
    requires
        s.does(BackendCall::Pair { target, answers, result }, &t),
    ensures
        spent(s@, t@, 1),
        owed(s@, answers, target, v) && fits(s@, 1) ==> result == v,
{
}

/// The first `n` attempts take the room of as many pairings at most, and end as they must.
proof fn attempts_on_mock(
    states: Seq<MockBackend>,
    target: DeviceId,
    answers: spec_fn(PairingRequest, PairingResponse) -> bool,
    tries: Seq<Result<PairingOutcome, TransportErrorView>>,
    v: Result<PairingOutcome, TransportErrorView>,
    n: nat,
)
    requires
        workflow::tried(states, target, answers, tries),
        n <= tries.len(),
    ensures
        spent(states[0]@, states[n as int]@, n),
        owed(states[0]@, answers, target, v) && fits(states[0]@, n) ==> forall|i: int|
            0 <= i < n ==> #[trigger] tries[i] == v,
    decreases n,
{
    if n > 0 {
        let m = (n - 1) as nat;
        attempts_on_mock(states, target, answers, tries, v, m);
        attempt_on_mock(states[m as int], states[n as int], target, answers, tries[m as int], v);
        spent_both(states[0]@, states[m as int]@, states[n as int]@, m, 1);
        if owed(states[0]@, answers, target, v) && fits(states[0]@, n) {
            fits_after(states[0]@, states[0]@, 0, m, n);
            fits_after(states[0]@, states[m as int]@, m, 1, n);
        }
    }
}

/// A pairing with retries takes the room of its attempts at most, and ends as each of them
/// must.
proof fn turn_on_mock(
    changes: spec_fn(MockBackend, BdAddr, Result<(), TransportError>, MockBackend) -> bool,
    s: MockBackend,
    t: MockBackend,
    target: DeviceId,
    answers: spec_fn(PairingRequest, PairingResponse) -> bool,
    options: PairOptions,
    result: Result<PairReport, TransportErrorView>,
    v: Result<PairingOutcome, TransportErrorView>,
)
    requires
        readdresses(changes),
        workflow::paired_up(changes, s, t, target, answers, options, result),
    ensures
        spent(s@, t@, options.attempts_allowed() as nat),
        owed(s@, answers, target, v) && fits(s@, options.attempts_allowed() as nat) ==> result
            == workflow::concluded(v, 1),
{
    let max = options.attempts_allowed();
    let (mid, change) = choose|mid: MockBackend, change: Result<(), TransportError>|
        {
            &&& #[trigger] backend::spoofed(changes, s, mid, options.spoof, change)
            &&& match change {
                Err(e) => t == mid && result == Err::<PairReport, TransportErrorView>(e@),
                Ok(_) => workflow::attempted(mid, t, target, answers, max, result),
            }
        };
    assert(s.abilities().can_spoof_address);
    assert(change is Ok && mid@.devices == s@.devices && mid@.seq == s@.seq && mid@.clock
        == s@.clock);
    let (states, tries) = choose|
        states: Seq<MockBackend>,
        tries: Seq<Result<PairingOutcome, TransportErrorView>>,
    |
        {
            &&& #[trigger] workflow::tried(states, target, answers, tries)
            &&& workflow::well_tried(tries, max, result)
            &&& states[0] == mid
            &&& states.last() == t
        };
    let n = tries.len();
    attempts_on_mock(states, target, answers, tries, v, n);
    spent_more(mid@, t@, n, max as nat);
    if owed(s@, answers, target, v) && fits(s@, max as nat) {
        assert(spent(s@, mid@, 0));
        fits_after(s@, mid@, 0, n, max as nat);
        assert(tries[n - 1] == v);
        assert(tries[0] == v);
        if n > 1 {
            assert(workflow::transient(tries[0]));
        }
    }
}

/// The first `n` turns of a round take the room of their attempts at most, and those of a
/// device whose attempts must end as `v` end so.
proof fn turns_on_mock(
    changes: spec_fn(MockBackend, BdAddr, Result<(), TransportError>, MockBackend) -> bool,
    states: Seq<MockBackend>,
    answers: spec_fn(PairingRequest, PairingResponse) -> bool,
    options: PairOptions,
    results: Seq<(DeviceId, Result<PairReport, TransportErrorView>)>,
    id: DeviceId,
    v: Result<PairingOutcome, TransportErrorView>,
    n: nat,
)
    requires
        readdresses(changes),
        batch::turns(changes, states, answers, options, results),
        n <= results.len(),
    ensures
        spent(states[0]@, states[n as int]@, n * options.attempts_allowed() as nat),
        owed(states[0]@, answers, id, v) && fits(
            states[0]@,
            n * options.attempts_allowed() as nat,
        ) ==> forall|i: int|
            0 <= i < n && (#[trigger] results[i]).0 == id ==> results[i].1
                == workflow::concluded(v, 1),
    decreases n,
{
    let max = options.attempts_allowed() as nat;
    if n > 0 {
        let m = (n - 1) as nat;
        turns_on_mock(changes, states, answers, options, results, id, v, m);
        let turn = results[m as int];
        turn_on_mock(
            changes,
            states[m as int],
            states[n as int],
            turn.0,
            answers,
            options,
            turn.1,
            v,
        );
        spent_both(states[0]@, states[m as int]@, states[n as int]@, m * max, max);
        assert(m * max + max == n * max) by (nonlinear_arith)
            requires
                n == m + 1,
        ;
        if owed(states[0]@, answers, id, v) && fits(states[0]@, n * max) {
            assert(spent(states[0]@, states[0]@, 0));
            fits_after(states[0]@, states[0]@, 0, m * max, n * max);
            fits_after(states[0]@, states[m as int]@, m * max, max, n * max);
        }
    } else {
        assert(0 * max == 0) by (nonlinear_arith);
    }
}

/// A round takes the room of its attempts at most, and a device whose attempts must end as
/// `v` ends so.
proof fn round_on_mock(
    changes: spec_fn(MockBackend, BdAddr, Result<(), TransportError>, MockBackend) -> bool,
    s: MockBackend,
    t: MockBackend,
    answers: spec_fn(PairingRequest, PairingResponse) -> bool,
    options: PairOptions,
    results: Seq<(DeviceId, Result<PairReport, TransportErrorView>)>,
    id: DeviceId,
    v: Result<PairingOutcome, TransportErrorView>,
)
    requires
        readdresses(changes),
        batch::tried_in_turn(changes, s, t, answers, options, results),
    ensures
        spent(s@, t@, results.len() * options.attempts_allowed() as nat),
        owed(s@, answers, id, v) && fits(s@, results.len() * options.attempts_allowed() as nat)
            ==> forall|i: int|
            0 <= i < results.len() && (#[trigger] results[i]).0 == id ==> results[i].1
                == workflow::concluded(v, 1),
{
    reveal(batch::tried_in_turn);
    let states = choose|states: Seq<MockBackend>|
        {
            &&& #[trigger] batch::turns(changes, states, answers, options, results)
            &&& states[0] == s
            &&& states.last() == t
        };
    turns_on_mock(changes, states, answers, options, results, id, v, results.len());
}

/// The result of a device is the one at its last place.
proof fn result_is_somewhere(
    results: Seq<(DeviceId, Result<PairReport, TransportErrorView>)>,
    id: DeviceId,
)
    ensures
        batch::result_of(results, id) matches Some(x) ==> exists|i: int|
            0 <= i < results.len() && #[trigger] results[i] == (id, x),
    decreases results.len(),
{
    if results.len() > 0 {
        let front = results.drop_last();
        result_is_somewhere(front, id);
        if batch::result_of(results, id) is Some {
            let x = batch::result_of(results, id)->0;
            if results.last().0 == id {
                assert(results[results.len() - 1] == (id, x));
            } else {
                let i = choose|i: int| 0 <= i < front.len() && #[trigger] front[i] == (id, x);
                assert(results[i] == (id, x));
            }
        }
    }
}

/// The devices pending never outnumber the items.
proof fn pending_is_bounded(
    targets: Seq<DeviceId>,
    rounds: Seq<Seq<(DeviceId, Result<PairReport, TransportErrorView>)>>,
)
    requires
        forall|k: int|
            0 <= k < rounds.len() ==> #[trigger] batch::round_fits(
                batch::fresh(targets),
                rounds,
                k,
            ),
    ensures
        batch::after_rounds(batch::fresh(targets), rounds).pending.len() <= batch::distinct(
            targets,
        ).len(),
    decreases rounds.len(),
{
    if rounds.len() > 0 {
        batch::earlier_rounds_fit(batch::fresh(targets), rounds);
        pending_is_bounded(targets, rounds.drop_last());
        still_pending_is_bounded(rounds.last());
    }
}

proof fn still_pending_is_bounded(results: Seq<(DeviceId, Result<PairReport, TransportErrorView>)>)
    ensures
        batch::still_pending(results).len() <= results.len(),
    decreases results.len(),
{
    if results.len() > 0 {
        still_pending_is_bounded(results.drop_last());
    }
}

/// The first `n` rounds take the room of their attempts at most, and a device whose
/// attempts must end as `v` ends so in each that it takes part in.
proof fn rounds_on_mock(
    changes: spec_fn(MockBackend, BdAddr, Result<(), TransportError>, MockBackend) -> bool,
    states: Seq<MockBackend>,
    answers: spec_fn(PairingRequest, PairingResponse) -> bool,
    options: PairOptions,
    targets: Seq<DeviceId>,
    rounds: Seq<Seq<(DeviceId, Result<PairReport, TransportErrorView>)>>,
    id: DeviceId,
    v: Result<PairingOutcome, TransportErrorView>,
    n: nat,
)
    requires
        readdresses(changes),
        batch::rounds_between(changes, states, answers, options, batch::fresh(targets), rounds),
        n <= rounds.len(),
    ensures
        spent(
            states[0]@,
            states[n as int]@,
            n * (batch::distinct(targets).len() * options.attempts_allowed() as nat),
        ),
        owed(states[0]@, answers, id, v) && fits(
            states[0]@,
            n * (batch::distinct(targets).len() * options.attempts_allowed() as nat),
        ) ==> forall|i: int|
            0 <= i < n ==> (batch::result_of(#[trigger] rounds[i], id) is Some
                ==> batch::result_of(rounds[i], id) == Some(workflow::concluded(v, 1))),
    decreases n,
{
    let max = options.attempts_allowed() as nat;
    let width = batch::distinct(targets).len();
    let each = width * max;
    if n > 0 {
        let m = (n - 1) as nat;
        let start = batch::fresh(targets);
        let s = states[m as int];
        let t = states[n as int];
        let results = rounds[m as int];
        rounds_on_mock(changes, states, answers, options, targets, rounds, id, v, m);
        assert(batch::round_fits(start, rounds, m as int));
        assert forall|k: int| 0 <= k < rounds.take(m as int).len() implies
            #[trigger] batch::round_fits(start, rounds.take(m as int), k) by {
            assert(batch::round_fits(start, rounds, k));
            assert(rounds.take(m as int).take(k) =~= rounds.take(k));
        }
        pending_is_bounded(targets, rounds.take(m as int));
        assert(results.len() == batch::ids_of(results).len());
        assert(results.len() * max <= each) by (nonlinear_arith)
            requires
                results.len() <= width,
                each == width * max,
        ;
        round_on_mock(changes, s, t, answers, options, results, id, v);
        spent_more(s@, t@, results.len() * max, each);
        spent_both(states[0]@, s@, t@, m * each, each);
        assert(m * each + each == n * each) by (nonlinear_arith)
            requires
                n == m + 1,
        ;
        if owed(states[0]@, answers, id, v) && fits(states[0]@, n * each) {
            assert(spent(states[0]@, states[0]@, 0));
            fits_after(states[0]@, states[0]@, 0, m * each, n * each);
            fits_after(states[0]@, s@, m * each, results.len() * max, n * each);
            result_is_somewhere(results, id);
        }
    } else {
        assert(0 * each == 0) by (nonlinear_arith);
    }
}

/// A batch over a mock that has room for it gives each device what its script and the
/// agent's answers agree on: a success, a refusal and an unknown device after one round,
/// any other failure after all of them. No device's failure touches another.
pub proof fn scripted_batch(
    changes: spec_fn(MockBackend, BdAddr, Result<(), TransportError>, MockBackend) -> bool,
    before: MockBackend,
    after: MockBackend,
    targets: Seq<DeviceId>,
    answers: spec_fn(PairingRequest, PairingResponse) -> bool,
    options: BatchPairOptions,
    items: Seq<ItemView>,
    k: int,
    v: Result<PairingOutcome, TransportErrorView>,
)
    requires
        readdresses(changes),
        batch::batch_made(changes, before, after, targets, answers, options, items),
        0 <= k < batch::distinct(targets).len(),
        owed(before@, answers, batch::distinct(targets)[k], v),
        fits(
            before@,
            batch::rounds_allowed(options) as nat * (batch::distinct(targets).len()
                * options.per_device.attempts_allowed() as nat),
        ),
    ensures
        items.len() == batch::distinct(targets).len(),
        items[k] == (ItemView {
            id: batch::distinct(targets)[k],
            outcome: workflow::concluded(v, 1),
            attempts: if workflow::transient(v) {
                batch::rounds_allowed(options)
            } else {
                1
            },
        }),
{
    let start = batch::fresh(targets);
    let id = batch::distinct(targets)[k];
    batch::batch_covers_every_target(changes, before, after, targets, answers, options, items);
    assert(items.len() == batch::item_ids(items).len());
    let rounds = choose|rounds: Seq<Seq<(DeviceId, Result<PairReport, TransportErrorView>)>>|
        #[trigger] batch::rounds_made(
            changes,
            before,
            after,
            answers,
            options.per_device,
            start,
            rounds,
        ) && batch::rounds_conclude(start, rounds, options, items);
    let states = choose|states: Seq<MockBackend>|
        {
            &&& #[trigger] batch::rounds_between(
                changes,
                states,
                answers,
                options.per_device,
                start,
                rounds,
            )
            &&& states[0] == before
            &&& states.last() == after
        };
    let n = rounds.len();
    let each = batch::distinct(targets).len() * options.per_device.attempts_allowed() as nat;
    let all = batch::rounds_allowed(options) as nat * each;
    assert(n * each <= all) by (nonlinear_arith)
        requires
            n <= batch::rounds_allowed(options),
            all == batch::rounds_allowed(options) as nat * each,
    ;
    assert(spent(before@, before@, 0));
    fits_after(before@, before@, 0, n * each, all);
    rounds_on_mock(changes, states, answers, options.per_device, targets, rounds, id, v, n);
    assert(n > 0) by {
        if n == 0 {
            assert(batch::after_rounds(start, rounds) == start);
            assert(start.items[k] == batch::untried(id));
            assert(items[k].attempts == 0);
        }
    }
    assert forall|i: int| 0 <= i < n implies #[trigger] batch::round_fits(start, rounds, i) by {}
    batch::steady_result_stays(targets, rounds, k, workflow::concluded(v, 1));
    if workflow::transient(v) {
        batch::passing_failures_use_every_round(
            changes,
            before,
            after,
            targets,
            answers,
            options,
            items,
            k,
        );
    }
}

/// A file pushed over a mock that has room for it, to a known device that takes the whole of
/// it, arrives at the first attempt, with the receipt that the device's script makes.
pub proof fn scripted_upload(
    before: MockBackend,
    linked: MockBackend,
    after: MockBackend,
    target: DeviceId,
    file: FileView,
    options: UploadOptions,
    link: Result<ConnectionView, TransportErrorView>,
    result: Result<ReceiptView, TransportErrorView>,
    d: MockDeviceView,
)
    requires
        upload::uploaded(before, linked, after, target, file, options, link, result),
        mock_model::known(before@.devices, target) == Some(d),
        !mock_model::cut_off(d, file.bytes.len()),
        before@.next_token < u64::MAX,
        ({
            let n = mock_model::chunk_count(file.bytes.len(), mock_model::chunk_of(d));
            mock_model::has_room(
                before@,
                2 * n + 3,
                3 * STEP_NANOS as nat + n * d.per_chunk_latency.nanos as nat,
            )
        }),
    ensures
        link is Ok,
        result is Ok,
        result == mock_model::transfer_result(file, d),
{
    let conn = link->Ok_0;
    let mid = choose|mid: MockBackend|
        {
            &&& #[trigger] upload::pushed_through(
                linked,
                mid,
                conn,
                file,
                options.retries,
                result,
            )
            &&& upload::closed_after(mid, after, conn, options)
        };
    let (states, tries) = choose|
        states: Seq<MockBackend>,
        tries: Seq<Result<ReceiptView, TransportErrorView>>,
    |
        {
            &&& #[trigger] upload::pushed(states, conn, file, tries)
            &&& upload::well_pushed(tries, upload::pushes_allowed(options.retries), result)
            &&& states[0] == linked
            &&& states.last() == mid
        };
    assert(mock_model::room_for_transfer(linked@, file, d));
    assert(tries[0] == mock_model::transfer_result(file, d));
    if tries.len() > 1 {
        assert(upload::was_cut_off(tries[0]));
    }
}

} // verus!
