//! What every backend of a real adapter shares: stamping events, running a scan,
//! reporting a transfer and concluding a pairing.
use vstd::prelude::*;
use crate::backend;
use crate::backend::{DiscoveryFilter, FilterView};
use crate::device::{DeviceId, DeviceInfo, DeviceView};
use crate::event::{
    Direction, EventOrigin, EventView, KindView, OriginView, PairingMethodHint, TransitEvent,
    TransitEventKind,
};
use crate::hardware::{ControllerModel, ControllerView};
use crate::pairing::PairingOutcome;
use crate::standards::StandardsProfile;
use crate::time::{Duration, Timestamp};
use crate::transfer::{ReceiptView, TransferReceipt};
use crate::transport_error::{TransportError, TransportErrorView};
use crate::version::SpecContext;

verus! {

/// Stamps events with an origin and a running number.
#[derive(Debug)]
pub struct Reporter {
    /// The local controller.
    pub controller: ControllerModel,
    /// The specification context of every link.
    pub spec: SpecContext,
    /// The number of the next event.
    pub seq: u64,
}

/// What a [`Reporter`] holds.
pub struct ReporterView {
    pub controller: ControllerView,
    pub spec: SpecContext,
    pub seq: u64,
}

impl View for Reporter {
    type V = ReporterView;

    open spec fn view(&self) -> ReporterView {
        ReporterView { controller: self.controller@, spec: self.spec, seq: self.seq }
    }
}

impl Reporter {
    /// A reporter that has stamped nothing yet.
    pub fn new(controller: ControllerModel, spec: SpecContext) -> (r: Reporter)
        ensures
            r@ == (ReporterView { controller: controller@, spec, seq: 0 }),
    {
        Reporter { controller, spec, seq: 0 }
    }

    /// The next event; numbers start over behind the largest.
    pub fn event(
        &mut self,
        at: Timestamp,
        peer: DeviceId,
        standards: StandardsProfile,
        kind: TransitEventKind,
    ) -> (r: TransitEvent)
        ensures
            r@ == (EventView {
                seq: old(self)@.seq,
                at,
                origin: OriginView {
                    local: old(self)@.controller,
                    peer,
                    spec: old(self)@.spec,
                    standards,
                },
                kind: kind@,
            }),
            final(self)@ == (ReporterView {
                seq: if old(self)@.seq == u64::MAX {
                    0
                } else {
                    (old(self)@.seq + 1) as u64
                },
                ..old(self)@
            }),
    {
        let origin = EventOrigin::new(self.controller.clone(), peer, self.spec, standards);
        let event = TransitEvent::new(self.seq, at, origin, kind);
        self.seq = if self.seq == u64::MAX {
            0
        } else {
            self.seq + 1
        };
        event
    }
}

/// A scan that gathers the devices a filter admits.
#[derive(Debug)]
pub struct DiscoveryRun {
    /// The filter.
    pub filter: DiscoveryFilter,
    /// The devices gathered.
    pub found: Vec<DeviceInfo>,
    /// Whether the filter's limit is reached.
    pub full: bool,
}

/// What a [`DiscoveryRun`] holds.
#[verifier::ext_equal]
pub struct RunView {
    pub filter: FilterView,
    pub found: Seq<DeviceView>,
    pub full: bool,
}

impl View for DiscoveryRun {
    type V = RunView;

    open spec fn view(&self) -> RunView {
        RunView {
            filter: self.filter@,
            found: backend::devices_view(self.found@),
            full: self.full,
        }
    }
}

impl RunView {
    /// A scan that has gathered nothing.
    pub open spec fn fresh(filter: FilterView) -> RunView {
        RunView { filter, found: Seq::empty(), full: filter.limit == Some(0usize) }
    }

    /// A scan after a device was seen. A full scan gathers nothing more.
    pub open spec fn seen(self, d: DeviceView) -> RunView {
        if self.full || !self.filter.admits(d) {
            self
        } else {
            RunView {
                filter: self.filter,
                found: self.found.push(d),
                full: match self.filter.limit {
                    Some(limit) => self.found.len() + 1 >= limit,
                    None => false,
                },
            }
        }
    }

    /// A scan after devices were seen in turn.
    pub open spec fn all_seen(self, ds: Seq<DeviceView>) -> RunView
        decreases ds.len(),
    {
        if ds.len() == 0 {
            self
        } else {
            self.all_seen(ds.drop_last()).seen(ds.last())
        }
    }
}

impl DiscoveryRun {
    /// A scan that has gathered nothing yet.
    pub fn new(filter: DiscoveryFilter) -> (r: DiscoveryRun)
        ensures
            r@ == RunView::fresh(filter@),
    {
        let full: bool = match filter.limit {
            Some(limit) => limit == 0,
            None => false,
        };
        let r = DiscoveryRun { filter, found: Vec::new(), full };
        assert(r@.found =~= Seq::empty());
        r
    }

    /// Takes in a device that was seen: the event to report, if it was gathered.
    pub fn offer(&mut self, info: DeviceInfo) -> (r: Option<TransitEventKind>)
        ensures
            final(self)@ == old(self)@.seen(info@),
            match r {
                Some(kind) => {
                    &&& !old(self)@.full && old(self)@.filter.admits(info@)
                    &&& kind@ == (KindView::DeviceDiscovered { rssi: info@.rssi })
                },
                None => old(self)@.full || !old(self)@.filter.admits(info@),
            },
    {
        if self.full || !self.filter.accepts(&info) {
            return None;
        }
        let rssi: Option<i16> = info.rssi;
        let ghost before = self@.found;
        self.found.push(info);
        assert(self@.found =~= before.push(info@));
        if let Some(limit) = self.filter.limit {
            if self.found.len() >= limit {
                self.full = true;
            }
        }
        Some(TransitEventKind::DeviceDiscovered { rssi })
    }

    /// Whether the scan may stop: the filter's limit is reached.
    pub fn is_full(&self) -> (r: bool)
        ensures
            r == self@.full,
    {
        self.full
    }

    /// The devices gathered.
    pub fn finish(self) -> (r: Vec<DeviceInfo>)
        ensures
            backend::devices_view(r@) == self@.found,
    {
        self.found
    }
}

/// The devices of a sequence that a filter admits, in order.
pub open spec fn admitted(filter: FilterView, ds: Seq<DeviceView>) -> Seq<DeviceView>
    decreases ds.len(),
{
    if ds.len() == 0 {
        Seq::empty()
    } else if filter.admits(ds.last()) {
        admitted(filter, ds.drop_last()).push(ds.last())
    } else {
        admitted(filter, ds.drop_last())
    }
}

/// A scan gathers the devices that its filter admits, in the order in which they were
/// seen, up to the limit.
pub proof fn scan_gathers_what_is_admitted(filter: FilterView, ds: Seq<DeviceView>)
    ensures
        ({
            let all = admitted(filter, ds);
            let run = RunView::fresh(filter).all_seen(ds);
            &&& run.filter == filter
            &&& match filter.limit {
                Some(n) => {
                    &&& run.found == if all.len() < n {
                        all
                    } else {
                        all.take(n as int)
                    }
                    &&& run.full == (all.len() >= n)
                },
                None => run.found == all && !run.full,
            }
        }),
    decreases ds.len(),
{
    if ds.len() > 0 {
        scan_gathers_what_is_admitted(filter, ds.drop_last());
        let all = admitted(filter, ds);
        let shorter = admitted(filter, ds.drop_last());
        match filter.limit {
            Some(n) => {
                if all.len() >= n {
                    if shorter.len() >= n {
                        assert(all.take(n as int) =~= shorter.take(n as int));
                    } else {
                        assert(all.take(n as int) =~= all);
                    }
                }
            },
            None => {},
        }
    }
}

/// A transfer reported from its running total.
#[derive(Clone, Copy, Debug, PartialEq, Eq, Structural)]
pub struct PushReport {
    /// The object's size.
    pub total: u64,
    /// The running total last heard.
    pub last: u64,
    /// How often it has grown.
    pub chunks: u64,
}

impl PushReport {
    /// The report after a running total was heard.
    pub open spec fn heard(self, transferred: u64) -> PushReport {
        PushReport {
            total: self.total,
            last: transferred,
            chunks: if transferred > self.last {
                (self.chunks + 1) as u64
            } else {
                self.chunks
            },
        }
    }

    /// The events for a running total: the block that crossed since the last one, if any,
    /// and the progress; where `always` is false, progress is told only with a block.
    pub open spec fn told(self, transferred: u64, always: bool) -> Seq<KindView> {
        let progress = KindView::TransferProgress { transferred, total: self.total };
        if transferred > self.last {
            seq![
                KindView::DataChunk {
                    direction: Direction::Outbound,
                    bytes: (transferred - self.last) as u64,
                },
                progress,
            ]
        } else if always {
            seq![progress]
        } else {
            Seq::empty()
        }
    }

    /// A report of a transfer that has not begun to move.
    pub fn new(total: u64) -> (r: PushReport)
        ensures
            r == (PushReport { total, last: 0, chunks: 0 }),
    {
        PushReport { total, last: 0, chunks: 0 }
    }

    /// Takes in a running total: the events to report.
    pub fn on_transferred(&mut self, transferred: u64, always: bool) -> (r: Vec<TransitEventKind>)
        requires
            transferred > old(self).last ==> old(self).chunks < u64::MAX,
        ensures
            *final(self) == old(self).heard(transferred),
            kinds_view(r@) == old(self).told(transferred, always),
    {
        let total: u64 = self.total;
        let mut out: Vec<TransitEventKind> = Vec::new();
        let grew: bool = transferred > self.last;
        if grew {
            out.push(
                TransitEventKind::DataChunk {
                    direction: Direction::Outbound,
                    bytes: transferred - self.last,
                },
            );
            self.chunks = self.chunks + 1;
        }
        if grew || always {
            out.push(TransitEventKind::TransferProgress { transferred, total });
        }
        self.last = transferred;
        assert(kinds_view(out@) =~= old(self).told(transferred, always));
        out
    }
}

/// What events say, one by one.
pub open spec fn kinds_view(v: Seq<TransitEventKind>) -> Seq<KindView> {
    v.map_values(|k: TransitEventKind| k@)
}

/// The payload that events account for.
pub open spec fn payload_sum(v: Seq<KindView>) -> nat
    decreases v.len(),
{
    if v.len() == 0 {
        0
    } else {
        payload_sum(v.drop_last()) + v.last().moved() as nat
    }
}

/// The events for running totals heard in turn.
pub open spec fn told_all(start: PushReport, totals: Seq<u64>, always: bool) -> Seq<KindView>
    decreases totals.len(),
{
    if totals.len() == 0 {
        Seq::empty()
    } else {
        told_all(start, totals.drop_last(), always) + heard_all(start, totals.drop_last()).told(
            totals.last(),
            always,
        )
    }
}

/// The report after running totals were heard in turn.
pub open spec fn heard_all(start: PushReport, totals: Seq<u64>) -> PushReport
    decreases totals.len(),
{
    if totals.len() == 0 {
        start
    } else {
        heard_all(start, totals.drop_last()).heard(totals.last())
    }
}

/// The payload of two runs of events is the sum of theirs.
pub proof fn payload_of_both(a: Seq<KindView>, b: Seq<KindView>)
    ensures
        payload_sum(a + b) == payload_sum(a) + payload_sum(b),
    decreases b.len(),
{
    if b.len() == 0 {
        assert(a + b =~= a);
    } else {
        assert((a + b).drop_last() =~= a + b.drop_last());
        payload_of_both(a, b.drop_last());
    }
}

/// The events for a running total that has not fallen account for its growth.
pub proof fn payload_told(p: PushReport, transferred: u64, always: bool)
    requires
        transferred >= p.last,
    ensures
        payload_sum(p.told(transferred, always)) == transferred - p.last,
{
    let s = p.told(transferred, always);
    reveal_with_fuel(payload_sum, 3);
    if transferred > p.last {
        assert(s.drop_last().drop_last() =~= Seq::<KindView>::empty());
        assert(s.drop_last() =~= seq![s[0]]);
    } else if always {
        assert(s.drop_last() =~= Seq::<KindView>::empty());
    }
}

/// While the running total does not fall, the blocks reported add up to it.
pub proof fn blocks_add_up(start: PushReport, totals: Seq<u64>, always: bool)
    requires
        start.last == 0,
        forall|i: int, j: int| 0 <= i <= j < totals.len() ==> totals[i] <= totals[j],
    ensures
        payload_sum(told_all(start, totals, always)) == heard_all(start, totals).last,
        totals.len() > 0 ==> heard_all(start, totals).last == totals.last(),
    decreases totals.len(),
{
    if totals.len() > 0 {
        let shorter = totals.drop_last();
        assert forall|i: int, j: int| 0 <= i <= j < shorter.len() implies shorter[i]
            <= shorter[j] by {
            assert(totals[i] <= totals[j]);
        }
        blocks_add_up(start, shorter, always);
        let p = heard_all(start, shorter);
        if shorter.len() > 0 {
            assert(totals[shorter.len() - 1] <= totals[totals.len() - 1]);
        }
        payload_told(p, totals.last(), always);
        payload_of_both(told_all(start, shorter, always), p.told(totals.last(), always));
    }
}

/// Concludes a transfer that went through: the event and the receipt. A receipt counts
/// one chunk at least.
pub fn transfer_done(object_name: String, bytes: u64, chunks: u64, duration: Duration) -> (r: (
    TransitEventKind,
    TransferReceipt,
))
    ensures
        r.0@ == (KindView::TransferCompleted { bytes, duration }),
        r.1@ == (ReceiptView {
            object_name: object_name@,
            bytes,
            chunks: if chunks == 0 {
                1
            } else {
                chunks
            },
            duration,
        }),
{
    let chunks: u64 = if chunks == 0 {
        1
    } else {
        chunks
    };
    (
        TransitEventKind::TransferCompleted { bytes, duration },
        TransferReceipt { object_name, bytes, chunks, duration },
    )
}

/// Concludes a transfer that failed: the event.
pub fn transfer_lost(error: &TransportError) -> (r: TransitEventKind)
    ensures
        r@ == (KindView::Error { detail: error@.message() }),
{
    TransitEventKind::Error { detail: error.to_string() }
}

/// Concludes a pairing: the event and the result, where `failure` says why it failed.
pub fn pairing_end(method: PairingMethodHint, failure: Option<&str>) -> (r: (
    TransitEventKind,
    Result<PairingOutcome, TransportError>,
))
    ensures
        match failure {
            None => r.0@ == KindView::PairingCompleted && r.1 == Ok::<
                PairingOutcome,
                TransportError,
            >(PairingOutcome::full(method)),
            Some(reason) => {
                &&& r.0@ == (KindView::PairingFailed { reason: reason@ })
                &&& r.1 is Err
                &&& r.1->Err_0@ == TransportErrorView::PairingFailed(reason@)
            },
        },
{
    match failure {
        None => (TransitEventKind::PairingCompleted, Ok(PairingOutcome::bonded(method))),
        Some(reason) => (
            TransitEventKind::PairingFailed { reason: reason.to_owned() },
            Err(TransportError::PairingFailed(reason.to_owned())),
        ),
    }
}

} // verus!
