//! What runs of attempts look like, whatever the backend does: which failures end a run,
//! which are followed by another attempt, and how many attempts there are.
use vstd::prelude::*;
use crate::address::BdAddr;
use crate::backend;
use crate::backend::{BackendCall, BluetoothBackend, ConnectionView, FilterView};
use crate::batch;
use crate::batch::{BatchPairOptions, ItemView};
use crate::device::{DeviceId, DeviceView};
use crate::pairing::{PairingOutcome, PairingRequest, PairingResponse};
use crate::transfer::{FileView, ReceiptView, TransferReceipt};
use crate::transport_error::{TransportError, TransportErrorView};
use crate::upload;
use crate::upload::{PushStep, UploadOptions};
use crate::workflow;
use crate::workflow::{PairOptions, PairReport, PairStep};

verus! {

/// In a run of pairing attempts, a success, a refusal and an unknown device come last; every
/// other failure is followed by another attempt, until there were as many as one more than
/// the retries. The last attempt gives the result.
pub proof fn pairing_runs_by_the_book(
    tries: Seq<Result<PairingOutcome, TransportErrorView>>,
    options: PairOptions,
    result: Result<PairReport, TransportErrorView>,
    i: int,
)
    requires
        workflow::well_tried(tries, options.attempts_allowed(), result),
        0 <= i < tries.len(),
        options.retries < u32::MAX,
    ensures
        match tries[i] {
            Ok(_) => i + 1 == tries.len(),
            Err(TransportErrorView::PairingRejected(_)) => i + 1 == tries.len(),
            Err(TransportErrorView::DeviceNotFound(_)) => i + 1 == tries.len(),
            Err(_) => i + 1 < tries.len() || tries.len() == options.retries + 1,
        },
        tries.len() <= options.retries + 1,
        match tries[tries.len() - 1] {
            Ok(outcome) => result == Ok::<PairReport, TransportErrorView>(
                PairReport { outcome, attempts: tries.len() as u32 },
            ),
            Err(e) => result == Err::<PairReport, TransportErrorView>(e),
        },
{
}

/// A pairing that fails `k` times for reasons that may pass, no more often than there are
/// retries, and then succeeds, succeeds with `k + 1` attempts.
pub proof fn late_success_counts(
    tries: Seq<Result<PairingOutcome, TransportErrorView>>,
    options: PairOptions,
    result: Result<PairReport, TransportErrorView>,
    k: int,
    outcome: PairingOutcome,
)
    requires
        workflow::well_tried(tries, options.attempts_allowed(), result),
        0 <= k <= options.retries,
        options.retries < u32::MAX,
        forall|i: int|
            0 <= i < k && i < tries.len() ==> (match #[trigger] tries[i] {
                Ok(_) => false,
                Err(TransportErrorView::PairingRejected(_)) => false,
                Err(TransportErrorView::DeviceNotFound(_)) => false,
                Err(_) => true,
            }),
        k < tries.len() ==> tries[k] == Ok::<PairingOutcome, TransportErrorView>(outcome),
    ensures
        result == Ok::<PairReport, TransportErrorView>(
            PairReport { outcome, attempts: (k + 1) as u32 },
        ),
{
    if tries.len() <= k {
        assert(workflow::transient(tries[tries.len() - 1]));
    }
}

/// Whether a pairing leads from `before` to `after` by a run of attempts that ends as it
/// should.
pub open spec fn paired_in_run<B: BluetoothBackend>(
    states: Seq<B>,
    target: DeviceId,
    answers: spec_fn(PairingRequest, PairingResponse) -> bool,
    tries: Seq<Result<PairingOutcome, TransportErrorView>>,
) -> bool {
    &&& states.len() == tries.len() + 1
    &&& forall|i: int|
        0 <= i < tries.len() ==> (#[trigger] states[i]).does(
            BackendCall::Pair { target, answers, result: tries[i] },
            &states[i + 1],
        )
}

/// A pairing is nothing but its attempts on the one device, one after the other, each on
/// the state that the one before left: no refusal is asked again, and a failure that may
/// pass is the result only after every retry.
pub proof fn pairing_is_its_attempts<B: BluetoothBackend>(
    before: B,
    after: B,
    target: DeviceId,
    answers: spec_fn(PairingRequest, PairingResponse) -> bool,
    options: PairOptions,
    result: Result<PairReport, TransportErrorView>,
)
    requires
        workflow::attempted(before, after, target, answers, options.attempts_allowed(), result),
        options.retries < u32::MAX,
    ensures
        exists|states: Seq<B>, tries: Seq<Result<PairingOutcome, TransportErrorView>>|
            {
                &&& #[trigger] paired_in_run(states, target, answers, tries)
                &&& states[0] == before
                &&& states[tries.len() as int] == after
                &&& 1 <= tries.len() <= options.retries + 1
                &&& forall|i: int|
                    0 <= i < tries.len() - 1 ==> (match #[trigger] tries[i] {
                        Ok(_) => false,
                        Err(TransportErrorView::PairingRejected(_)) => false,
                        Err(TransportErrorView::DeviceNotFound(_)) => false,
                        Err(_) => true,
                    })
                &&& match result {
                    Ok(report) => report.attempts == tries.len() && tries[tries.len() - 1] == Ok::<
                        PairingOutcome,
                        TransportErrorView,
                    >(report.outcome),
                    Err(e) => tries[tries.len() - 1] == Err::<PairingOutcome, TransportErrorView>(e)
                        && (e is PairingRejected || e is DeviceNotFound || tries.len()
                        == options.retries + 1),
                }
            },
{
    let (states, tries) = choose|
        states: Seq<B>,
        tries: Seq<Result<PairingOutcome, TransportErrorView>>,
    |
        {
            &&& #[trigger] workflow::tried(states, target, answers, tries)
            &&& workflow::well_tried(tries, options.attempts_allowed(), result)
            &&& states[0] == before
            &&& states.last() == after
        };
    assert forall|i: int| 0 <= i < tries.len() implies (#[trigger] states[i]).does(
        BackendCall::Pair { target, answers, result: tries[i] },
        &states[i + 1],
    ) by {
        assert(tries[i] == tries[i]);
    }
    assert(paired_in_run(states, target, answers, tries));
}

/// The decision after an attempt, by what it came to: stop at a success, a refusal, an
/// unknown device and the last attempt; else go on.
pub proof fn attempt_decides_by_result(
    attempt: u32,
    max: u32,
    result: Result<PairingOutcome, TransportError>,
    step: PairStep,
)
    requires
        call_ensures(workflow::after_attempt, (attempt, max, result), step),
    ensures
        match result {
            Ok(outcome) => step == PairStep::Done(Ok(PairReport { outcome, attempts: attempt })),
            Err(TransportError::PairingRejected(_)) => step is Done && step->Done_0 is Err,
            Err(TransportError::DeviceNotFound(_)) => step is Done && step->Done_0 is Err,
            Err(_) => (step is Retry <==> attempt < max) && (step is Done ==> step->Done_0 is Err),
        },
        result matches Err(e) ==> (step matches PairStep::Done(Err(f)) ==> f@ == e@),
{
}

/// The number of attempts is one more than the number of retries.
pub proof fn retries_come_on_top(options: PairOptions, n: u32)
    requires
        call_ensures(PairOptions::max_attempts, (&options,), n),
    ensures
        options.retries < u32::MAX ==> n == options.retries + 1,
        options.retries == u32::MAX ==> n == u32::MAX,
{
}

/// In a run of pushes of one file, everything but a transfer that was cut off comes last; a
/// cut-off is followed by another push until there were one more than the retries.
pub proof fn pushing_runs_by_the_book(
    tries: Seq<Result<ReceiptView, TransportErrorView>>,
    retries: u32,
    result: Result<ReceiptView, TransportErrorView>,
    i: int,
)
    requires
        upload::well_pushed(tries, upload::pushes_allowed(retries), result),
        0 <= i < tries.len(),
        retries < u32::MAX,
    ensures
        match tries[i] {
            Err(TransportErrorView::TransferFailed { .. }) => i + 1 < tries.len() || tries.len()
                == retries + 1,
            _ => i + 1 == tries.len(),
        },
        tries.len() <= retries + 1,
        result == tries[tries.len() - 1],
        result matches Err(TransportErrorView::TransferFailed { .. }) ==> tries.len() == retries + 1,
{
}

/// A push that is cut off `k` times, no more often than there are retries, and then goes
/// through, is a success after `k + 1` pushes.
pub proof fn late_push_counts(
    tries: Seq<Result<ReceiptView, TransportErrorView>>,
    retries: u32,
    result: Result<ReceiptView, TransportErrorView>,
    k: int,
    receipt: ReceiptView,
)
    requires
        upload::well_pushed(tries, upload::pushes_allowed(retries), result),
        0 <= k <= retries,
        retries < u32::MAX,
        forall|i: int|
            0 <= i < k && i < tries.len() ==> (#[trigger] tries[i] matches Err(
                TransportErrorView::TransferFailed { .. },
            )),
        k < tries.len() ==> tries[k] == Ok::<ReceiptView, TransportErrorView>(receipt),
    ensures
        result == Ok::<ReceiptView, TransportErrorView>(receipt),
        tries.len() == k + 1,
{
    if tries.len() <= k {
        assert(upload::was_cut_off(tries[tries.len() - 1]));
    } else if tries.len() > k + 1 {
        assert(upload::was_cut_off(tries[k]));
    }
}

/// Whether `states` are those before, between and after pushes of one file.
pub open spec fn pushed_in_run<B: BluetoothBackend>(
    states: Seq<B>,
    conn: ConnectionView,
    file: FileView,
    tries: Seq<Result<ReceiptView, TransportErrorView>>,
) -> bool {
    &&& states.len() == tries.len() + 1
    &&& forall|i: int|
        0 <= i < tries.len() ==> (#[trigger] states[i]).does(
            BackendCall::Push { conn, file, result: tries[i] },
            &states[i + 1],
        )
}

/// Pushing a file with retries is nothing but pushes of the whole file over the one
/// connection; a cut-off is the result only after exactly one push more than there are
/// retries.
pub proof fn pushing_is_its_pushes<B: BluetoothBackend>(
    before: B,
    after: B,
    conn: ConnectionView,
    file: FileView,
    retries: u32,
    result: Result<ReceiptView, TransportErrorView>,
)
    requires
        upload::pushed_through(before, after, conn, file, retries, result),
        retries < u32::MAX,
    ensures
        exists|states: Seq<B>, tries: Seq<Result<ReceiptView, TransportErrorView>>|
            {
                &&& #[trigger] pushed_in_run(states, conn, file, tries)
                &&& states[0] == before
                &&& states[tries.len() as int] == after
                &&& 1 <= tries.len() <= retries + 1
                &&& tries[tries.len() - 1] == result
                &&& forall|i: int|
                    0 <= i < tries.len() - 1 ==> (#[trigger] tries[i] matches Err(
                        TransportErrorView::TransferFailed { .. },
                    ))
                &&& (result matches Err(TransportErrorView::TransferFailed { .. }) ==> tries.len()
                    == retries + 1)
            },
{
    let (states, tries) = choose|
        states: Seq<B>,
        tries: Seq<Result<ReceiptView, TransportErrorView>>,
    |
        {
            &&& #[trigger] upload::pushed(states, conn, file, tries)
            &&& upload::well_pushed(tries, upload::pushes_allowed(retries), result)
            &&& states[0] == before
            &&& states.last() == after
        };
    assert forall|i: int| 0 <= i < tries.len() implies (#[trigger] states[i]).does(
        BackendCall::Push { conn, file, result: tries[i] },
        &states[i + 1],
    ) by {
        assert(tries[i] == tries[i]);
    }
    assert(pushed_in_run(states, conn, file, tries));
}

/// The decision after a push, by what it came to: only a cut-off is tried again, and only
/// before the last push.
pub proof fn push_decides_by_result(
    attempt: u32,
    max: u32,
    result: Result<TransferReceipt, TransportError>,
    step: PushStep,
)
    requires
        call_ensures(upload::after_push, (attempt, max, result), step),
    ensures
        match result {
            Err(TransportError::TransferFailed { .. }) => if attempt < max {
                step is Retry
            } else {
                step == PushStep::Done(result)
            },
            _ => step == PushStep::Done(result),
        },
{
}

/// Files are pushed in order and none behind one that failed: there is a receipt for each
/// file before it, and the failure is that file's.
pub proof fn files_go_in_order<B: BluetoothBackend>(
    before: B,
    after: B,
    conn: ConnectionView,
    files: Seq<FileView>,
    retries: u32,
    result: Result<Seq<ReceiptView>, TransportErrorView>,
)
    requires
        upload::files_pushed(before, after, conn, files, retries, result),
    ensures
        result matches Ok(receipts) ==> receipts.len() == files.len(),
        files.len() == 0 ==> result == Ok::<Seq<ReceiptView>, TransportErrorView>(Seq::empty())
            && after == before,
        files.len() == 1 ==> upload::pushed_through(
            before,
            after,
            conn,
            files[0],
            retries,
            match result {
                Ok(receipts) => Ok::<ReceiptView, TransportErrorView>(receipts[0]),
                Err(e) => Err::<ReceiptView, TransportErrorView>(e),
            },
        ),
{
    let (states, receipts) = choose|states: Seq<B>, receipts: Seq<ReceiptView>|
        {
            &&& #[trigger] upload::pushed_in_turn(states, conn, files, retries, receipts)
            &&& states[0] == before
            &&& match result {
                Ok(all) => all == receipts && receipts.len() == files.len() && states.last() == after,
                Err(e) => receipts.len() < files.len() && upload::pushed_through(
                    states.last(),
                    after,
                    conn,
                    files[receipts.len() as int],
                    retries,
                    Err::<ReceiptView, TransportErrorView>(e),
                ),
            }
        };
    if files.len() == 0 {
        assert(receipts =~= Seq::empty());
    }
    if files.len() == 1 && result is Ok {
        assert(receipts[0] == receipts[0]);
    }
}

/// Uploading one file and uploading a list of that one file are the same thing.
pub proof fn one_file_is_a_list_of_one<B: BluetoothBackend>(
    before: B,
    linked: B,
    after: B,
    target: DeviceId,
    file: FileView,
    options: UploadOptions,
    link: Result<ConnectionView, TransportErrorView>,
    result: Result<Seq<ReceiptView>, TransportErrorView>,
)
    requires
        upload::all_uploaded(before, linked, after, target, seq![file], options, link, result),
    ensures
        upload::uploaded(
            before,
            linked,
            after,
            target,
            file,
            options,
            link,
            match result {
                Ok(receipts) => Ok::<ReceiptView, TransportErrorView>(receipts[0]),
                Err(e) => Err::<ReceiptView, TransportErrorView>(e),
            },
        ),
{
    if let Ok(conn) = link {
        let mid = choose|mid: B|
            {
                &&& #[trigger] upload::files_pushed(
                    linked,
                    mid,
                    conn,
                    seq![file],
                    options.retries,
                    result,
                )
                &&& upload::closed_after(mid, after, conn, options)
            };
        files_go_in_order(linked, mid, conn, seq![file], options.retries, result);
    }
}

/// An upload closes its connection, by one call, exactly where that is asked for and there
/// is a connection; a failed connection is its result, with nothing pushed.
pub proof fn uploads_close_as_asked<B: BluetoothBackend>(
    before: B,
    linked: B,
    after: B,
    target: DeviceId,
    file: FileView,
    options: UploadOptions,
    link: Result<ConnectionView, TransportErrorView>,
    result: Result<ReceiptView, TransportErrorView>,
)
    requires
        upload::uploaded(before, linked, after, target, file, options, link, result),
    ensures
        before.does(BackendCall::Connect { target, result: link }, &linked),
        link matches Err(e) ==> result == Err::<ReceiptView, TransportErrorView>(e) && after
            == linked,
        link is Ok && !options.disconnect_after ==> upload::pushed_through(
            linked,
            after,
            link->Ok_0,
            file,
            options.retries,
            result,
        ),
        link is Ok && options.disconnect_after ==> exists|
            mid: B,
            closing: Result<(), TransportErrorView>,
        |
            {
                &&& upload::pushed_through(
                    linked,
                    mid,
                    link->Ok_0,
                    file,
                    options.retries,
                    result,
                )
                &&& #[trigger] mid.does(
                    BackendCall::Disconnect { conn: link->Ok_0, result: closing },
                    &after,
                )
            },
{
}

/// A pairing under no other address is its attempts alone; under one that the backend cannot
/// present it is refused and makes no attempt.
pub proof fn no_attempt_under_a_refused_address<B: BluetoothBackend>(
    changes: spec_fn(B, BdAddr, Result<(), TransportError>, B) -> bool,
    before: B,
    after: B,
    target: DeviceId,
    answers: spec_fn(PairingRequest, PairingResponse) -> bool,
    options: PairOptions,
    result: Result<PairReport, TransportErrorView>,
)
    requires
        workflow::paired_up(changes, before, after, target, answers, options, result),
    ensures
        options.spoof is None ==> workflow::attempted(
            before,
            after,
            target,
            answers,
            options.attempts_allowed(),
            result,
        ),
        options.spoof is Some && !before.abilities().can_spoof_address ==> after == before && (
        result matches Err(e) && e is Unsupported),
        options.spoof matches Some(addr) ==> (before.abilities().can_spoof_address ==> exists|
            mid: B,
            change: Result<(), TransportError>,
        | #[trigger]
            changes(before, addr, change, mid) && (match change {
                Err(e) => after == mid && result == Err::<PairReport, TransportErrorView>(e@),
                Ok(_) => workflow::attempted(
                    mid,
                    after,
                    target,
                    answers,
                    options.attempts_allowed(),
                    result,
                ),
            })),
{
    let (mid, change) = choose|mid: B, change: Result<(), TransportError>|
        {
            &&& #[trigger] backend::spoofed(changes, before, mid, options.spoof, change)
            &&& match change {
                Err(e) => after == mid && result == Err::<PairReport, TransportErrorView>(e@),
                Ok(_) => workflow::attempted(
                    mid,
                    after,
                    target,
                    answers,
                    options.attempts_allowed(),
                    result,
                ),
            }
        };
    if let Some(addr) = options.spoof {
        if before.abilities().can_spoof_address {
            assert(changes(before, addr, change, mid));
        }
    }
}

/// A scan and a connection under no other address are the one call each; under one that the
/// backend cannot present nothing is called.
pub proof fn no_call_under_a_refused_address<B: BluetoothBackend>(
    changes: spec_fn(B, BdAddr, Result<(), TransportError>, B) -> bool,
    before: B,
    after: B,
    spoof: Option<BdAddr>,
    filter: FilterView,
    target: DeviceId,
    found: Result<Seq<DeviceView>, TransportErrorView>,
    link: Result<ConnectionView, TransportErrorView>,
)
    requires
        spoof is None || !before.abilities().can_spoof_address,
    ensures
        backend::scanned_as(changes, before, after, spoof, filter, found) && spoof is None
            ==> before.does(BackendCall::Discover { filter, result: found }, &after),
        backend::scanned_as(changes, before, after, spoof, filter, found) && spoof is Some ==> after
            == before && found is Err && found->Err_0 is Unsupported,
        backend::connected_as(changes, before, after, spoof, target, link) && spoof is None
            ==> before.does(BackendCall::Connect { target, result: link }, &after),
        backend::connected_as(changes, before, after, spoof, target, link) && spoof is Some
            ==> after == before && link is Err && link->Err_0 is Unsupported,
{
}

/// Pairing with what a scan found covers every device that it found, each once, in the order
/// found; a scan that fails is the result, with no pairing.
pub proof fn found_devices_are_paired<B: BluetoothBackend>(
    changes: spec_fn(B, BdAddr, Result<(), TransportError>, B) -> bool,
    before: B,
    mid: B,
    after: B,
    filter: FilterView,
    answers: spec_fn(PairingRequest, PairingResponse) -> bool,
    options: BatchPairOptions,
    found: Result<Seq<DeviceView>, TransportErrorView>,
    result: Result<Seq<ItemView>, TransportErrorView>,
)
    requires
        batch::scanned_and_paired(
            changes,
            before,
            mid,
            after,
            filter,
            answers,
            options,
            found,
            result,
        ),
    ensures
        before.does(BackendCall::Discover { filter, result: found }, &mid),
        result is Ok <==> found is Ok,
        found matches Err(e) ==> result == Err::<Seq<ItemView>, TransportErrorView>(e) && after
            == mid,
        found matches Ok(v) ==> batch::item_ids(result->Ok_0) == batch::distinct(
            Seq::new(v.len(), |i: int| v[i].id),
        ),
{
    if let Ok(v) = found {
        let ids = v.map_values(|d: DeviceView| d.id);
        assert(ids =~= Seq::new(v.len(), |i: int| v[i].id));
        batch::batch_covers_every_target(
            changes,
            mid,
            after,
            ids,
            answers,
            options,
            result->Ok_0,
        );
    }
}

/// Left as they are, a pairing makes up to three attempts, a batch up to two rounds of them,
/// and an upload up to two pushes and then closes; none changes the address.
pub proof fn what_the_defaults_allow(pair: PairOptions, all: BatchPairOptions, up: UploadOptions)
    requires
        call_ensures(PairOptions::default, (), pair),
        call_ensures(BatchPairOptions::default, (), all),
        call_ensures(UploadOptions::default, (), up),
    ensures
        pair.attempts_allowed() == 3,
        all.per_device.attempts_allowed() == 3,
        batch::rounds_allowed(all) == 2,
        upload::pushes_allowed(up.retries) == 2,
        up.disconnect_after,
        pair.spoof is None && all.per_device.spoof is None && all.concurrency is None,
{
}

} // verus!
