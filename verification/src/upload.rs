//! Pushing files with retries.
use vstd::prelude::*;
use crate::backend;
use crate::backend::{BackendCall, BluetoothBackend, Connection, ConnectionView};
use crate::device::DeviceId;
use crate::transfer::{FileView, OutboundFile, ReceiptView, TransferReceipt};
use crate::transport_error::{TransportError, TransportErrorView};

verus! {

/// How to push files.
#[derive(Clone, Copy, Debug)]
pub struct UploadOptions {
    /// How often to push a file again after it was cut off.
    pub retries: u32,
    /// Whether to close the connection afterwards.
    pub disconnect_after: bool,
}

impl Default for UploadOptions {
    fn default() -> (r: UploadOptions)
        ensures
            r == (UploadOptions { retries: 1, disconnect_after: true }),
    {
        UploadOptions { retries: 1, disconnect_after: true }
    }
}

/// How many attempts a number of retries allows.
pub open spec fn pushes_allowed(retries: u32) -> u32 {
    if retries == u32::MAX {
        u32::MAX
    } else {
        (retries + 1) as u32
    }
}

/// Whether a transfer was cut off, so that another attempt may succeed.
pub open spec fn was_cut_off(result: Result<ReceiptView, TransportErrorView>) -> bool {
    match result {
        Ok(_) => false,
        Err(e) => e is TransferFailed,
    }
}

/// What to do after an attempt to push a file.
#[derive(Debug)]
pub enum PushStep {
    /// Try again.
    Retry,
    /// Stop with this result.
    Done(Result<TransferReceipt, TransportError>),
}

/// Decides what follows the `attempt`th attempt of at most `max`: only a transfer that
/// was cut off is tried again.
pub fn after_push(
    attempt: u32,
    max: u32,
    result: Result<TransferReceipt, TransportError>,
) -> (r: PushStep)
    ensures
        if attempt < max && was_cut_off(backend::pushed_view(result)) {
            r is Retry
        } else {
            r == PushStep::Done(result)
        },
{
    match result {
        Ok(receipt) => PushStep::Done(Ok(receipt)),
        Err(e) => {
            let again: bool = match &e {
                TransportError::TransferFailed { .. } => true,
                _ => false,
            };
            if again && attempt < max {
                PushStep::Retry
            } else {
                PushStep::Done(Err(e))
            }
        },
    }
}

/// Whether `states` are those before, between and after attempts to push a file, each with
/// its result.
pub open spec fn pushed<B: BluetoothBackend>(
    states: Seq<B>,
    conn: ConnectionView,
    file: FileView,
    tries: Seq<Result<ReceiptView, TransportErrorView>>,
) -> bool {
    &&& states.len() == tries.len() + 1
    &&& forall|i: int|
        0 <= i < tries.len() ==> states[i].does(
            BackendCall::Push { conn, file, result: #[trigger] tries[i] },
            &states[i + 1],
        )
}

/// Whether attempts are made as they should be, with the given result: at least one and
/// at most `max`; another only after a cut-off; the last one decides.
pub open spec fn well_pushed(
    tries: Seq<Result<ReceiptView, TransportErrorView>>,
    max: u32,
    result: Result<ReceiptView, TransportErrorView>,
) -> bool {
    &&& 1 <= tries.len() <= max
    &&& forall|i: int| 0 <= i < tries.len() - 1 ==> was_cut_off(#[trigger] tries[i])
    &&& tries.len() < max ==> !was_cut_off(tries.last())
    &&& result == tries.last()
}

/// Whether pushing one file leads from `before` to `after`, with the given result.
pub open spec fn pushed_through<B: BluetoothBackend>(
    before: B,
    after: B,
    conn: ConnectionView,
    file: FileView,
    retries: u32,
    result: Result<ReceiptView, TransportErrorView>,
) -> bool {
    exists|states: Seq<B>, tries: Seq<Result<ReceiptView, TransportErrorView>>|
        {
            &&& #[trigger] pushed(states, conn, file, tries)
            &&& well_pushed(tries, pushes_allowed(retries), result)
            &&& states[0] == before
            &&& states.last() == after
        }
}

/// Pushes a file over a connection, again where it was cut off.
pub fn push_with_retries<B: BluetoothBackend>(
    backend: &mut B,
    conn: &Connection,
    file: &OutboundFile<'_>,
    retries: u32,
) -> (r: Result<TransferReceipt, TransportError>)
    ensures
        final(backend).abilities() == old(backend).abilities(),
        pushed_through(
            *old(backend),
            *final(backend),
            conn@,
            file@,
            retries,
            backend::pushed_view(r),
        ),
{
    let max: u32 = retries.saturating_add(1);
    let mut attempt: u32 = 1;
    let ghost mut tries = Seq::<Result<ReceiptView, TransportErrorView>>::empty();
    let ghost mut states = seq![*backend];
    loop
        invariant
            1 <= attempt <= max,
            max == pushes_allowed(retries),
            backend.abilities() == old(backend).abilities(),
            tries.len() == attempt - 1,
            pushed(states, conn@, file@, tries),
            states[0] == *old(backend),
            states.last() == *backend,
            forall|i: int| 0 <= i < tries.len() ==> was_cut_off(#[trigger] tries[i]),
        decreases max - attempt,
    {
        let result = backend.push_file(conn, file);
        proof {
            let seen = backend::pushed_view(result);
            let more = tries.push(seen);
            let longer = states.push(*backend);
            assert forall|i: int| 0 <= i < more.len() implies longer[i].does(
                BackendCall::Push { conn: conn@, file: file@, result: #[trigger] more[i] },
                &longer[i + 1],
            ) by {
                if i < tries.len() {
                    assert(more[i] == tries[i]);
                }
            }
            assert(more.last() == seen);
            tries = more;
            states = longer;
        }
        match after_push(attempt, max, result) {
            PushStep::Done(done) => {
                assert(pushed(states, conn@, file@, tries));
                assert(well_pushed(tries, max, backend::pushed_view(done)));
                return done;
            },
            PushStep::Retry => {
                attempt = attempt + 1;
            },
        }
    }
}

/// Whether closing the connection, where that was asked for, leads from `before` to
/// `after`. How closing it went does not matter.
pub open spec fn closed_after<B: BluetoothBackend>(
    before: B,
    after: B,
    conn: ConnectionView,
    options: UploadOptions,
) -> bool {
    if options.disconnect_after {
        exists|closing: Result<(), TransportErrorView>| #[trigger]
            before.does(BackendCall::Disconnect { conn, result: closing }, &after)
    } else {
        after == before
    }
}

/// Closes the connection where that is asked for.
fn close_after<B: BluetoothBackend>(backend: &mut B, conn: &Connection, options: UploadOptions)
    ensures
        final(backend).abilities() == old(backend).abilities(),
        closed_after(*old(backend), *final(backend), conn@, options),
{
    if options.disconnect_after {
        let _ = backend.disconnect(conn);
    }
}

/// Whether a connection leads from `before` to `linked`, and the pushing of one file over
/// it and its closing on to `after`, with the given result: without a connection its
/// error is the result.
pub open spec fn uploaded<B: BluetoothBackend>(
    before: B,
    linked: B,
    after: B,
    target: DeviceId,
    file: FileView,
    options: UploadOptions,
    link: Result<ConnectionView, TransportErrorView>,
    result: Result<ReceiptView, TransportErrorView>,
) -> bool {
    &&& before.does(BackendCall::Connect { target, result: link }, &linked)
    &&& match link {
        Err(e) => after == linked && result == Err::<ReceiptView, TransportErrorView>(e),
        Ok(conn) => exists|mid: B|
            {
                &&& #[trigger] pushed_through(linked, mid, conn, file, options.retries, result)
                &&& closed_after(mid, after, conn, options)
            },
    }
}

/// Connects to a device, pushes a file to it, and disconnects where asked. A failure to
/// disconnect does not mask the transfer's result.
pub fn upload_file<B: BluetoothBackend>(
    backend: &mut B,
    target: DeviceId,
    file: &OutboundFile<'_>,
    options: UploadOptions,
) -> (r: Result<TransferReceipt, TransportError>)
    ensures
        final(backend).abilities() == old(backend).abilities(),
        exists|linked: B, link: Result<ConnectionView, TransportErrorView>| #[trigger]
            uploaded(
                *old(backend),
                linked,
                *final(backend),
                target,
                file@,
                options,
                link,
                backend::pushed_view(r),
            ),
{
    let conn = backend.connect(target);
    let ghost link = backend::linked_view(conn);
    let ghost linked = *backend;
    match conn {
        Err(e) => {
            assert(uploaded(*old(backend), linked, linked, target, file@, options, link, Err(e@)));
            Err(e)
        },
        Ok(conn) => {
            let result = push_with_retries(backend, &conn, file, options.retries);
            let ghost mid = *backend;
            let ghost seen = backend::pushed_view(result);
            assert(pushed_through(linked, mid, conn@, file@, options.retries, seen));
            close_after(backend, &conn, options);
            assert(uploaded(*old(backend), linked, *backend, target, file@, options, link, seen));
            result
        },
    }
}

/// Connects to a device, pushes bytes to it under a name, and disconnects where asked.
pub fn upload_bytes<B: BluetoothBackend>(
    backend: &mut B,
    target: DeviceId,
    name: &str,
    bytes: &[u8],
    options: UploadOptions,
) -> (r: Result<TransferReceipt, TransportError>)
    ensures
        final(backend).abilities() == old(backend).abilities(),
        exists|linked: B, link: Result<ConnectionView, TransportErrorView>| #[trigger]
            uploaded(
                *old(backend),
                linked,
                *final(backend),
                target,
                (FileView { name: name@, mime_type: None, bytes: bytes@ }),
                options,
                link,
                backend::pushed_view(r),
            ),
{
    let file = OutboundFile::new(name, bytes);
    upload_file(backend, target, &file, options)
}

/// Files as plain values.
pub open spec fn files_view(v: Seq<OutboundFile<'_>>) -> Seq<FileView> {
    v.map_values(|f: OutboundFile<'_>| f@)
}

/// Receipts as plain values.
pub open spec fn receipts_view(v: Seq<TransferReceipt>) -> Seq<ReceiptView> {
    v.map_values(|t: TransferReceipt| t@)
}

/// Receipts or an error, as plain values.
pub open spec fn all_pushed_view(r: Result<Vec<TransferReceipt>, TransportError>) -> Result<
    Seq<ReceiptView>,
    TransportErrorView,
> {
    match r {
        Ok(v) => Ok(receipts_view(v@)),
        Err(e) => Err(e@),
    }
}

/// Whether `states` are those before, between and after pushing the first files, all of
/// them successfully and with the given receipts.
pub open spec fn pushed_in_turn<B: BluetoothBackend>(
    states: Seq<B>,
    conn: ConnectionView,
    files: Seq<FileView>,
    retries: u32,
    receipts: Seq<ReceiptView>,
) -> bool {
    &&& states.len() == receipts.len() + 1
    &&& receipts.len() <= files.len()
    &&& forall|i: int|
        0 <= i < receipts.len() ==> pushed_through(
            states[i],
            states[i + 1],
            conn,
            files[i],
            retries,
            Ok::<ReceiptView, TransportErrorView>(#[trigger] receipts[i]),
        )
}

/// Whether pushing files in order until one fails leads from `before` to `after`, with the
/// given result: all receipts, or the first failure.
pub open spec fn files_pushed<B: BluetoothBackend>(
    before: B,
    after: B,
    conn: ConnectionView,
    files: Seq<FileView>,
    retries: u32,
    result: Result<Seq<ReceiptView>, TransportErrorView>,
) -> bool {
    exists|states: Seq<B>, receipts: Seq<ReceiptView>|
        {
            &&& #[trigger] pushed_in_turn(states, conn, files, retries, receipts)
            &&& states[0] == before
            &&& match result {
                Ok(all) => all == receipts && receipts.len() == files.len() && states.last() == after,
                Err(e) => receipts.len() < files.len() && pushed_through(
                    states.last(),
                    after,
                    conn,
                    files[receipts.len() as int],
                    retries,
                    Err::<ReceiptView, TransportErrorView>(e),
                ),
            }
        }
}

/// Whether a connection leads from `before` to `linked`, and the pushing of files over it
/// and its closing on to `after`, with the given result.
pub open spec fn all_uploaded<B: BluetoothBackend>(
    before: B,
    linked: B,
    after: B,
    target: DeviceId,
    files: Seq<FileView>,
    options: UploadOptions,
    link: Result<ConnectionView, TransportErrorView>,
    result: Result<Seq<ReceiptView>, TransportErrorView>,
) -> bool {
    &&& before.does(BackendCall::Connect { target, result: link }, &linked)
    &&& match link {
        Err(e) => after == linked && result == Err::<Seq<ReceiptView>, TransportErrorView>(e),
        Ok(conn) => exists|mid: B|
            {
                &&& #[trigger] files_pushed(linked, mid, conn, files, options.retries, result)
                &&& closed_after(mid, after, conn, options)
            },
    }
}

/// Pushes files in order until one fails.
fn push_all<B: BluetoothBackend>(
    backend: &mut B,
    conn: &Connection,
    files: &[OutboundFile<'_>],
    retries: u32,
) -> (r: Result<Vec<TransferReceipt>, TransportError>)
    ensures
        final(backend).abilities() == old(backend).abilities(),
        files_pushed(
            *old(backend),
            *final(backend),
            conn@,
            files_view(files@),
            retries,
            all_pushed_view(r),
        ),
{
    let ghost all = files_view(files@);
    let ghost mut states = seq![*backend];
    let mut receipts: Vec<TransferReceipt> = Vec::new();
    let mut i: usize = 0;
    while i < files.len()
        invariant
            i <= files@.len(),
            all == files_view(files@),
            backend.abilities() == old(backend).abilities(),
            receipts@.len() == i,
            pushed_in_turn(states, conn@, all, retries, receipts_view(receipts@)),
            states[0] == *old(backend),
            states.last() == *backend,
        decreases files@.len() - i,
    {
        let ghost so_far = receipts_view(receipts@);
        assert(all[i as int] == files@[i as int]@);
        match push_with_retries(backend, conn, &files[i], retries) {
            Ok(receipt) => {
                let ghost seen = receipt@;
                receipts.push(receipt);
                proof {
                    let more = receipts_view(receipts@);
                    assert(more =~= so_far.push(seen));
                    let longer = states.push(*backend);
                    assert forall|k: int| 0 <= k < more.len() implies pushed_through(
                        longer[k],
                        longer[k + 1],
                        conn@,
                        all[k],
                        retries,
                        Ok::<ReceiptView, TransportErrorView>(#[trigger] more[k]),
                    ) by {
                        if k < so_far.len() {
                            assert(more[k] == so_far[k]);
                        }
                    }
                    states = longer;
                }
            },
            Err(e) => {
                return Err(e);
            },
        }
        i = i + 1;
    }
    Ok(receipts)
}

/// Connects to a device, pushes files to it in order until one fails, and disconnects
/// where asked. A failure to disconnect does not mask the result.
pub fn upload_files<B: BluetoothBackend>(
    backend: &mut B,
    target: DeviceId,
    files: &[OutboundFile<'_>],
    options: UploadOptions,
) -> (r: Result<Vec<TransferReceipt>, TransportError>)
    ensures
        final(backend).abilities() == old(backend).abilities(),
        exists|linked: B, link: Result<ConnectionView, TransportErrorView>| #[trigger]
            all_uploaded(
                *old(backend),
                linked,
                *final(backend),
                target,
                files_view(files@),
                options,
                link,
                all_pushed_view(r),
            ),
{
    let ghost all = files_view(files@);
    let conn = backend.connect(target);
    let ghost link = backend::linked_view(conn);
    let ghost linked = *backend;
    match conn {
        Err(e) => {
            assert(all_uploaded(*old(backend), linked, linked, target, all, options, link, Err(e@)));
            Err(e)
        },
        Ok(conn) => {
            let result = push_all(backend, &conn, files, options.retries);
            let ghost mid = *backend;
            let ghost seen = all_pushed_view(result);
            assert(files_pushed(linked, mid, conn@, all, options.retries, seen));
            close_after(backend, &conn, options);
            assert(all_uploaded(*old(backend), linked, *backend, target, all, options, link, seen));
            result
        },
    }
}

/// A push makes at most one more attempt than there are retries, each but the last was
/// cut off, and a failure of another sort is never tried again.
pub proof fn pushes_stop_at_a_verdict(
    tries: Seq<Result<ReceiptView, TransportErrorView>>,
    retries: u32,
    result: Result<ReceiptView, TransportErrorView>,
)
    requires
        well_pushed(tries, pushes_allowed(retries), result),
    ensures
        tries.len() <= retries + 1,
        result matches Err(e) ==> (e is TransferFailed ==> tries.len() == pushes_allowed(retries)),
        forall|i: int|
            0 <= i < tries.len() - 1 ==> (#[trigger] tries[i] matches Err(e)
                && e is TransferFailed),
{
}

} // verus!
