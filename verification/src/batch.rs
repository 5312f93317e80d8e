//! Pairing with many devices in rounds.
use vstd::prelude::*;
use crate::address::BdAddr;
use crate::backend;
use crate::backend::{BackendCall, BluetoothBackend, DiscoveryFilter, FilterView};
use crate::device::{DeviceId, DeviceInfo, DeviceView};
use crate::pairing;
use crate::pairing::{PairingAgent, PairingRequest, PairingResponse};
use crate::transport_error::{TransportError, TransportErrorView};
use crate::workflow;
use crate::workflow::{PairOptions, PairReport};

verus! {

/// How to pair with many devices.
#[derive(Clone, Copy, Debug)]
pub struct BatchPairOptions {
    /// How many pairings may run at once; as many as the backend allows where unset. It is
    /// for callers that drive a [`BatchRun`] with [`active`] pairings at a time:
    /// [`pair_devices`] has one backend, and makes one pairing after another.
    pub concurrency: Option<usize>,
    /// How many rounds to make over the devices that failed; at least one is made.
    pub rounds: u32,
    /// How to pair with each device.
    pub per_device: PairOptions,
}

impl Default for BatchPairOptions {
    fn default() -> (r: BatchPairOptions)
        ensures
            r.concurrency is None,
            r.rounds == 2,
            r.per_device == (PairOptions { retries: 2, spoof: None }),
    {
        BatchPairOptions { concurrency: None, rounds: 2, per_device: PairOptions::default() }
    }
}

/// How the pairing with one device of a batch went.
#[derive(Debug)]
pub struct PairItem {
    /// The device.
    pub id: DeviceId,
    /// The result of its last round.
    pub outcome: Result<PairReport, TransportError>,
    /// In how many rounds it was tried.
    pub attempts: u32,
}

/// What a [`PairItem`] holds.
pub struct ItemView {
    pub id: DeviceId,
    pub outcome: Result<PairReport, TransportErrorView>,
    pub attempts: u32,
}

impl View for PairItem {
    type V = ItemView;

    open spec fn view(&self) -> ItemView {
        ItemView {
            id: self.id,
            outcome: workflow::report_view(self.outcome),
            attempts: self.attempts,
        }
    }
}

impl PairItem {
    /// Whether the device is paired.
    pub fn paired(&self) -> (r: bool)
        ensures
            r == self@.outcome is Ok,
    {
        self.outcome.is_ok()
    }
}

/// Items as plain values.
pub open spec fn items_view(v: Seq<PairItem>) -> Seq<ItemView> {
    v.map_values(|i: PairItem| i@)
}

/// The result of a device in one round.
pub type Outcome = (DeviceId, Result<PairReport, TransportError>);

/// The results of a round as plain values.
pub open spec fn outcomes_view(v: Seq<Outcome>) -> Seq<
    (DeviceId, Result<PairReport, TransportErrorView>),
> {
    v.map_values(|o: Outcome| (o.0, workflow::report_view(o.1)))
}

/// Targets without repetition, each where it was first seen.
pub open spec fn distinct(targets: Seq<DeviceId>) -> Seq<DeviceId>
    decreases targets.len(),
{
    if targets.len() == 0 {
        Seq::empty()
    } else {
        let front = distinct(targets.drop_last());
        if front.contains(targets.last()) {
            front
        } else {
            front.push(targets.last())
        }
    }
}

/// The state of a batch: an item for each device, and the devices that the next round is
/// for.
pub struct BatchView {
    pub items: Seq<ItemView>,
    pub pending: Seq<DeviceId>,
}

/// An item that was not tried yet.
pub open spec fn untried(id: DeviceId) -> ItemView {
    ItemView {
        id,
        outcome: Err(TransportErrorView::PairingFailed("not attempted"@)),
        attempts: 0,
    }
}

/// A batch before its first round.
pub open spec fn fresh(targets: Seq<DeviceId>) -> BatchView {
    BatchView {
        items: distinct(targets).map_values(|id: DeviceId| untried(id)),
        pending: distinct(targets),
    }
}

/// Whether a device of this result takes part in the next round.
pub open spec fn retryable(result: Result<PairReport, TransportErrorView>) -> bool {
    match result {
        Ok(_) => false,
        Err(e) => !workflow::hopeless(e),
    }
}

/// The result of a device in a round, if it took part.
pub open spec fn result_of(
    results: Seq<(DeviceId, Result<PairReport, TransportErrorView>)>,
    id: DeviceId,
) -> Option<Result<PairReport, TransportErrorView>>
    decreases results.len(),
{
    if results.len() == 0 {
        None
    } else if results.last().0 == id {
        Some(results.last().1)
    } else {
        result_of(results.drop_last(), id)
    }
}

/// An item after a round.
pub open spec fn updated(
    item: ItemView,
    results: Seq<(DeviceId, Result<PairReport, TransportErrorView>)>,
) -> ItemView {
    match result_of(results, item.id) {
        Some(outcome) => ItemView { id: item.id, outcome, attempts: (item.attempts + 1) as u32 },
        None => item,
    }
}

/// The devices of a round that take part in the next one, in the order of its results.
pub open spec fn still_pending(
    results: Seq<(DeviceId, Result<PairReport, TransportErrorView>)>,
) -> Seq<DeviceId>
    decreases results.len(),
{
    if results.len() == 0 {
        Seq::empty()
    } else {
        let front = still_pending(results.drop_last());
        if retryable(results.last().1) {
            front.push(results.last().0)
        } else {
            front
        }
    }
}

/// A batch after a round.
pub open spec fn after_round(
    b: BatchView,
    results: Seq<(DeviceId, Result<PairReport, TransportErrorView>)>,
) -> BatchView {
    BatchView {
        items: b.items.map_values(|i: ItemView| updated(i, results)),
        pending: still_pending(results),
    }
}

/// A batch after several rounds.
pub open spec fn after_rounds(
    b: BatchView,
    rounds: Seq<Seq<(DeviceId, Result<PairReport, TransportErrorView>)>>,
) -> BatchView
    decreases rounds.len(),
{
    if rounds.len() == 0 {
        b
    } else {
        after_round(after_rounds(b, rounds.drop_last()), rounds.last())
    }
}

/// The devices of a round's results, in order.
pub open spec fn ids_of(results: Seq<(DeviceId, Result<PairReport, TransportErrorView>)>) -> Seq<
    DeviceId,
> {
    results.map_values(|o: (DeviceId, Result<PairReport, TransportErrorView>)| o.0)
}

/// The devices of the items, in order.
pub open spec fn item_ids(items: Seq<ItemView>) -> Seq<DeviceId> {
    items.map_values(|i: ItemView| i.id)
}

/// Whether no device occurs twice.
pub open spec fn no_repeats(ids: Seq<DeviceId>) -> bool {
    forall|i: int, j: int| 0 <= i < j < ids.len() ==> #[trigger] ids[i] != #[trigger] ids[j]
}

/// A batch under way.
#[derive(Debug)]
pub struct BatchRun {
    /// The items, in the order of the targets.
    pub items: Vec<PairItem>,
    /// The devices that the next round is for.
    pub pending: Vec<DeviceId>,
}

impl View for BatchRun {
    type V = BatchView;

    open spec fn view(&self) -> BatchView {
        BatchView { items: items_view(self.items@), pending: self.pending@ }
    }
}

/// Whether a batch is well formed: no device twice, and pending ones are among the items.
pub open spec fn batch_ok(b: BatchView) -> bool {
    &&& no_repeats(item_ids(b.items))
    &&& no_repeats(b.pending)
    &&& forall|k: int| 0 <= k < b.pending.len() ==> item_ids(b.items).contains(#[trigger] b.pending[k])
}

/// How many pairings to run at once: as asked, else as the backend allows, but no more
/// than there are devices and never none.
pub fn active(concurrency: Option<usize>, allowed: usize, pending: usize) -> (r: usize)
    ensures
        r >= 1,
        ({
            let wanted = match concurrency {
                Some(n) => n,
                None => allowed,
            };
            r == if wanted < pending {
                if wanted == 0 {
                    1
                } else {
                    wanted
                }
            } else if pending == 0 {
                1
            } else {
                pending
            }
        }),
{
    let wanted: usize = match concurrency {
        Some(n) => n,
        None => allowed,
    };
    let wanted: usize = if wanted == 0 {
        1
    } else {
        wanted
    };
    let n: usize = if wanted < pending {
        wanted
    } else {
        pending
    };
    if n == 0 {
        1
    } else {
        n
    }
}

/// Targets without repetition repeat nothing and lose nothing.
pub proof fn distinct_repeats_nothing(targets: Seq<DeviceId>)
    ensures
        no_repeats(distinct(targets)),
        forall|id: DeviceId|
            #![trigger distinct(targets).contains(id)]
            #![trigger targets.contains(id)]
            distinct(targets).contains(id) <==> targets.contains(id),
    decreases targets.len(),
{
    if targets.len() > 0 {
        let head = targets.drop_last();
        let front = distinct(head);
        distinct_repeats_nothing(head);
        let all = distinct(targets);
        assert forall|id: DeviceId| all.contains(id) <==> targets.contains(id) by {
            if targets.contains(id) {
                let k = choose|k: int| 0 <= k < targets.len() && targets[k] == id;
                if k < head.len() {
                    assert(head[k] == id);
                    assert(head.contains(id));
                    assert(front.contains(id));
                    let j = choose|j: int| 0 <= j < front.len() && front[j] == id;
                    assert(all[j] == id);
                } else {
                    if !front.contains(id) {
                        assert(all[front.len() as int] == id);
                    }
                }
            }
            if all.contains(id) {
                let k = choose|k: int| 0 <= k < all.len() && all[k] == id;
                if k < front.len() {
                    assert(front[k] == id);
                    assert(head.contains(id));
                    let j = choose|j: int| 0 <= j < head.len() && head[j] == id;
                    assert(targets[j] == id);
                } else {
                    assert(targets[targets.len() - 1] == id);
                }
            }
        }
        assert forall|i: int, j: int| 0 <= i < j < all.len() implies #[trigger] all[i]
            != #[trigger] all[j] by {
            assert(all[i] == front[i]);
            if j < front.len() {
                assert(all[j] == front[j]);
            } else {
                assert(front.contains(front[i]));
            }
        }
    }
}

/// A device whose result is not among the first ones has none there.
proof fn no_result(results: Seq<(DeviceId, Result<PairReport, TransportErrorView>)>, id: DeviceId)
    ensures
        result_of(results, id) is None <==> !ids_of(results).contains(id),
    decreases results.len(),
{
    if results.len() > 0 {
        let front = results.drop_last();
        no_result(front, id);
        let ids = ids_of(results);
        assert(ids.drop_last() =~= ids_of(front));
        if results.last().0 == id {
            assert(ids[ids.len() - 1] == id);
        } else {
            if ids.contains(id) {
                let k = choose|k: int| 0 <= k < ids.len() && ids[k] == id;
                assert(ids_of(front)[k] == id);
            }
            if ids_of(front).contains(id) {
                let k = choose|k: int| 0 <= k < front.len() && ids_of(front)[k] == id;
                assert(ids[k] == id);
            }
        }
    }
}

/// The result at a place, where no device has two.
proof fn result_at(
    results: Seq<(DeviceId, Result<PairReport, TransportErrorView>)>,
    k: int,
)
    requires
        no_repeats(ids_of(results)),
        0 <= k < results.len(),
    ensures
        result_of(results, results[k].0) == Some(results[k].1),
    decreases results.len(),
{
    let front = results.drop_last();
    let ids = ids_of(results);
    if k < front.len() {
        assert(ids[k] != ids[results.len() - 1]);
        assert(no_repeats(ids_of(front))) by {
            let f = ids_of(front);
            assert forall|i: int, j: int| 0 <= i < j < f.len() implies #[trigger] f[i]
                != #[trigger] f[j] by {
                assert(f[i] == ids[i] && f[j] == ids[j]);
            }
        }
        result_at(front, k);
        assert(front[k] == results[k]);
    }
}

/// The items after a round do not depend on the order in which its results came in, and
/// neither does who is pending: pairing one after the other and pairing at once agree.
pub proof fn order_of_results_is_irrelevant(
    b: BatchView,
    one: Seq<(DeviceId, Result<PairReport, TransportErrorView>)>,
    other: Seq<(DeviceId, Result<PairReport, TransportErrorView>)>,
)
    requires
        no_repeats(ids_of(one)),
        one.to_multiset() == other.to_multiset(),
        no_repeats(ids_of(other)),
    ensures
        after_round(b, one).items == after_round(b, other).items,
        forall|id: DeviceId| #[trigger]
            after_round(b, one).pending.contains(id) <==> after_round(b, other).pending.contains(
                id,
            ),
{
    one.to_multiset_ensures();
    other.to_multiset_ensures();
    assert forall|id: DeviceId| result_of(one, id) == result_of(other, id) by {
        same_result(one, other, id);
        same_result(other, one, id);
    }
    assert(after_round(b, one).items =~= after_round(b, other).items) by {
        assert forall|i: int| 0 <= i < b.items.len() implies updated(#[trigger] b.items[i], one)
            == updated(b.items[i], other) by {
            assert(result_of(one, b.items[i].id) == result_of(other, b.items[i].id));
        }
    }
    assert forall|id: DeviceId| #[trigger]
        after_round(b, one).pending.contains(id) <==> after_round(b, other).pending.contains(
            id,
        ) by {
        pending_by_result(one, id);
        pending_by_result(other, id);
        assert(result_of(one, id) == result_of(other, id));
    }
}

proof fn same_result(
    one: Seq<(DeviceId, Result<PairReport, TransportErrorView>)>,
    other: Seq<(DeviceId, Result<PairReport, TransportErrorView>)>,
    id: DeviceId,
)
    requires
        no_repeats(ids_of(one)),
        no_repeats(ids_of(other)),
        one.to_multiset() == other.to_multiset(),
    ensures
        result_of(one, id) is Some ==> result_of(other, id) == result_of(one, id),
{
    no_result(one, id);
    if result_of(one, id) is Some {
        let k = choose|k: int| 0 <= k < one.len() && ids_of(one)[k] == id;
        result_at(one, k);
        one.to_multiset_ensures();
        other.to_multiset_ensures();
        assert(one.contains(one[k]));
        assert(one.to_multiset().count(one[k]) > 0);
        assert(other.to_multiset().count(one[k]) > 0);
        assert(other.contains(one[k]));
        let j = choose|j: int| 0 <= j < other.len() && other[j] == one[k];
        result_at(other, j);
    }
}

/// A device is pending after a round exactly where its result there is worth a retry.
proof fn pending_by_result(
    results: Seq<(DeviceId, Result<PairReport, TransportErrorView>)>,
    id: DeviceId,
)
    requires
        no_repeats(ids_of(results)),
    ensures
        still_pending(results).contains(id) <==> (result_of(results, id) is Some && retryable(
            result_of(results, id)->0,
        )),
    decreases results.len(),
{
    if results.len() > 0 {
        let front = results.drop_last();
        let ids = ids_of(results);
        assert(no_repeats(ids_of(front))) by {
            let f = ids_of(front);
            assert forall|i: int, j: int| 0 <= i < j < f.len() implies #[trigger] f[i]
                != #[trigger] f[j] by {
                assert(f[i] == ids[i] && f[j] == ids[j]);
            }
        }
        pending_by_result(front, id);
        let p = still_pending(front);
        let q = still_pending(results);
        if results.last().0 == id {
            no_result(front, id);
            assert(!ids_of(front).contains(id)) by {
                if ids_of(front).contains(id) {
                    let k = choose|k: int| 0 <= k < front.len() && ids_of(front)[k] == id;
                    assert(ids[k] == id && ids[results.len() - 1] == id);
                }
            }
            if retryable(results.last().1) {
                assert(q[p.len() as int] == id);
            }
        } else {
            assert(q.contains(id) <==> p.contains(id)) by {
                if p.contains(id) {
                    let k = choose|k: int| 0 <= k < p.len() && p[k] == id;
                    assert(q[k] == id);
                }
                if q.contains(id) {
                    let k = choose|k: int| 0 <= k < q.len() && q[k] == id;
                    if k < p.len() {
                        assert(p[k] == id);
                    }
                }
            }
        }
    }
}

/// The pending devices of a round are among those that took part, in their order.
proof fn pending_took_part(results: Seq<(DeviceId, Result<PairReport, TransportErrorView>)>)
    requires
        no_repeats(ids_of(results)),
    ensures
        no_repeats(still_pending(results)),
        forall|k: int|
            0 <= k < still_pending(results).len() ==> ids_of(results).contains(
                #[trigger] still_pending(results)[k],
            ),
    decreases results.len(),
{
    if results.len() > 0 {
        let front = results.drop_last();
        let ids = ids_of(results);
        let f = ids_of(front);
        assert forall|i: int, j: int| 0 <= i < j < f.len() implies #[trigger] f[i]
            != #[trigger] f[j] by {
            assert(f[i] == ids[i] && f[j] == ids[j]);
        }
        pending_took_part(front);
        let p = still_pending(front);
        let q = still_pending(results);
        assert forall|k: int| 0 <= k < q.len() implies ids.contains(#[trigger] q[k]) by {
            if k < p.len() {
                assert(q[k] == p[k]);
                assert(f.contains(p[k]));
                let j = choose|j: int| 0 <= j < f.len() && f[j] == p[k];
                assert(ids[j] == p[k]);
            } else {
                assert(ids[results.len() - 1] == q[k]);
            }
        }
        assert forall|i: int, j: int| 0 <= i < j < q.len() implies #[trigger] q[i]
            != #[trigger] q[j] by {
            assert(q[i] == p[i]);
            if j < p.len() {
                assert(q[j] == p[j]);
            } else {
                assert(f.contains(p[i]));
                let m = choose|m: int| 0 <= m < f.len() && f[m] == p[i];
                assert(ids[m] == p[i] && ids[results.len() - 1] == q[j]);
            }
        }
    }
}

/// A round of a well-formed batch leaves it well formed and its devices as they were.
pub proof fn round_keeps_batch_ok(
    b: BatchView,
    results: Seq<(DeviceId, Result<PairReport, TransportErrorView>)>,
)
    requires
        batch_ok(b),
        no_repeats(ids_of(results)),
        forall|k: int|
            0 <= k < results.len() ==> item_ids(b.items).contains(#[trigger] ids_of(results)[k]),
    ensures
        batch_ok(after_round(b, results)),
        item_ids(after_round(b, results).items) == item_ids(b.items),
{
    let c = after_round(b, results);
    assert(item_ids(c.items) =~= item_ids(b.items));
    pending_took_part(results);
    assert forall|k: int| 0 <= k < c.pending.len() implies item_ids(c.items).contains(
        #[trigger] c.pending[k],
    ) by {
        assert(ids_of(results).contains(c.pending[k]));
        let j = choose|j: int| 0 <= j < results.len() && ids_of(results)[j] == c.pending[k];
        assert(item_ids(b.items).contains(ids_of(results)[j]));
    }
}

impl BatchRun {
    /// A batch before its first round.
    pub fn new(targets: &[DeviceId]) -> (r: BatchRun)
        ensures
            r@ == fresh(targets@),
            batch_ok(r@),
    {
        let mut items: Vec<PairItem> = Vec::new();
        let mut pending: Vec<DeviceId> = Vec::new();
        let mut i: usize = 0;
        assert(targets@.take(0) =~= Seq::empty());
        while i < targets.len()
            invariant
                i <= targets@.len(),
                pending@ == distinct(targets@.take(i as int)),
                items_view(items@) == pending@.map_values(|id: DeviceId| untried(id)),
            decreases targets@.len() - i,
        {
            let id: DeviceId = targets[i];
            assert(targets@.take(i + 1).drop_last() =~= targets@.take(i as int));
            if !among(&pending, id) {
                let ghost before = items@;
                let ghost was = pending@;
                pending.push(id);
                items.push(
                    PairItem {
                        id,
                        outcome: Err(TransportError::PairingFailed("not attempted".to_owned())),
                        attempts: 0,
                    },
                );
                assert(items_view(items@) =~= items_view(before).push(untried(id)));
                assert(pending@.map_values(|id: DeviceId| untried(id)) =~= was.map_values(
                    |id: DeviceId| untried(id),
                ).push(untried(id)));
            }
            i = i + 1;
        }
        assert(targets@.take(i as int) =~= targets@);
        let r = BatchRun { items, pending };
        proof {
            distinct_repeats_nothing(targets@);
            assert(item_ids(r@.items) =~= distinct(targets@));
            assert forall|k: int| 0 <= k < r@.pending.len() implies item_ids(r@.items).contains(
                #[trigger] r@.pending[k],
            ) by {
                assert(item_ids(r@.items)[k] == r@.pending[k]);
            }
        }
        r
    }

    /// Whether another round is due.
    pub fn is_done(&self) -> (r: bool)
        ensures
            r == (self@.pending.len() == 0),
    {
        self.pending.len() == 0
    }

    /// Takes in the results of a round, in whatever order they came.
    pub fn record_round(&mut self, results: Vec<Outcome>)
        requires
            batch_ok(old(self)@),
            no_repeats(ids_of(outcomes_view(results@))),
            forall|k: int|
                0 <= k < results@.len() ==> item_ids(old(self)@.items).contains(
                    #[trigger] ids_of(outcomes_view(results@))[k],
                ),
            forall|k: int|
                0 <= k < old(self)@.items.len() ==> (#[trigger] old(self)@.items[k]).attempts
                    < u32::MAX,
        ensures
            final(self)@ == after_round(old(self)@, outcomes_view(results@)),
            batch_ok(final(self)@),
    {
        let ghost b = self@;
        let ghost all = outcomes_view(results@);
        proof {
            round_keeps_batch_ok(b, all);
        }
        let mut next: Vec<DeviceId> = Vec::new();
        proof {
            assert(all.take(0) =~= Seq::empty());
            assert(self@.items =~= b.items.map_values(|i: ItemView| updated(i, all.take(0))));
        }
        for o in it: results
            invariant
                outcomes_view(it.seq()) == all,
                no_repeats(ids_of(all)),
                no_repeats(item_ids(b.items)),
                forall|k: int|
                    0 <= k < all.len() ==> item_ids(b.items).contains(#[trigger] ids_of(all)[k]),
                forall|k: int|
                    0 <= k < b.items.len() ==> (#[trigger] b.items[k]).attempts < u32::MAX,
                items_view(self.items@) == b.items.map_values(
                    |i: ItemView| updated(i, all.take(it.index() as int)),
                ),
                next@ == still_pending(all.take(it.index() as int)),
        {
            let ghost n = it.index() as int;
            let ghost now = items_view(self.items@);
            assert(all[n] == (o.0, workflow::report_view(o.1)));
            let id: DeviceId = o.0;
            proof {
                assert(ids_of(all)[n] == id);
                assert(item_ids(b.items).contains(ids_of(all)[n]));
                assert(item_ids(now) =~= item_ids(b.items));
                assert(item_ids(now).contains(id));
            }
            let p: usize = position(&self.items, id);
            let retry: bool = match &o.1 {
                Ok(_) => false,
                Err(e) => !workflow::is_final(e),
            };
            proof {
                assert(all.take(n + 1).drop_last() =~= all.take(n));
                assert(all.take(n + 1).last() == all[n]);
                not_yet(all, n);
                no_result(all.take(n), id);
                assert(b.items[p as int].id == id) by {
                    assert(item_ids(now)[p as int] == item_ids(b.items)[p as int]);
                }
                assert(now[p as int] == updated(b.items[p as int], all.take(n)));
                assert(now[p as int] == b.items[p as int]);
            }
            let tried: u32 = self.items[p].attempts;
            assert(tried == b.items[p as int].attempts) by {
                assert(now[p as int] == self.items@[p as int]@);
            }
            self.items[p].attempts = tried + 1;
            self.items[p].outcome = o.1;
            if retry {
                next.push(id);
            }
            proof {
                let after = items_view(self.items@);
                let want = b.items.map_values(|i: ItemView| updated(i, all.take(n + 1)));
                assert forall|k: int| 0 <= k < b.items.len() implies after[k] == want[k] by {
                    if k == p {
                        assert(after[k] == self.items@[k]@);
                    } else {
                        assert(item_ids(b.items)[k] != item_ids(b.items)[p as int]);
                        assert(after[k] == now[k]);
                        assert(now[k] == updated(b.items[k], all.take(n)));
                    }
                }
                assert(after =~= want);
            }
        }
        assert(all.take(all.len() as int) =~= all);
        self.pending = next;
    }

    /// The items, in the order of the targets.
    pub fn finish(self) -> (r: Vec<PairItem>)
        ensures
            items_view(r@) == self@.items,
    {
        self.items
    }
}

/// A later device is not among the earlier ones.
proof fn not_yet(results: Seq<(DeviceId, Result<PairReport, TransportErrorView>)>, n: int)
    requires
        no_repeats(ids_of(results)),
        0 <= n < results.len(),
    ensures
        !ids_of(results.take(n)).contains(results[n].0),
{
    let ids = ids_of(results);
    let f = ids_of(results.take(n));
    if f.contains(results[n].0) {
        let k = choose|k: int| 0 <= k < f.len() && f[k] == results[n].0;
        assert(ids[k] == f[k] && ids[n] == results[n].0);
    }
}

/// Whether a device is among those given.
fn among(v: &Vec<DeviceId>, id: DeviceId) -> (r: bool)
    ensures
        r == v@.contains(id),
{
    let mut i: usize = 0;
    while i < v.len()
        invariant
            i <= v@.len(),
            forall|k: int| 0 <= k < i ==> v@[k] != id,
        decreases v@.len() - i,
    {
        if v[i] == id {
            return true;
        }
        i = i + 1;
    }
    false
}

/// The place of a device's item.
fn position(items: &Vec<PairItem>, id: DeviceId) -> (r: usize)
    requires
        item_ids(items_view(items@)).contains(id),
    ensures
        r < items@.len(),
        items@[r as int].id == id,
        items_view(items@)[r as int].id == id,
{
    let ghost ids = item_ids(items_view(items@));
    let mut i: usize = 0;
    while i < items.len()
        invariant
            i <= items@.len(),
            ids == item_ids(items_view(items@)),
            ids.contains(id),
            forall|k: int| 0 <= k < i ==> ids[k] != id,
        decreases items@.len() - i,
    {
        assert(ids[i as int] == items@[i as int].id);
        if items[i].id == id {
            return i;
        }
        i = i + 1;
    }
    assert(false) by {
        let k = choose|k: int| 0 <= k < ids.len() && ids[k] == id;
        assert(ids[k] != id);
    }
    0
}

/// Whether `states` are those before, between and after pairings with the devices of
/// `results`, one after the other, each with its result there. `changes` says what a
/// change of address may do, `answers` what the agent may answer.
pub open spec fn turns<B: BluetoothBackend>(
    changes: spec_fn(B, BdAddr, Result<(), TransportError>, B) -> bool,
    states: Seq<B>,
    answers: spec_fn(PairingRequest, PairingResponse) -> bool,
    options: PairOptions,
    results: Seq<(DeviceId, Result<PairReport, TransportErrorView>)>,
) -> bool {
    &&& states.len() == results.len() + 1
    &&& forall|i: int|
        0 <= i < results.len() ==> workflow::paired_up(
            changes,
            states[i],
            states[i + 1],
            (#[trigger] results[i]).0,
            answers,
            options,
            results[i].1,
        )
}

/// Whether pairings with the devices of `results`, one after the other and each with its
/// result there, lead from `before` to `after`.
#[verifier::opaque]
pub open spec fn tried_in_turn<B: BluetoothBackend>(
    changes: spec_fn(B, BdAddr, Result<(), TransportError>, B) -> bool,
    before: B,
    after: B,
    answers: spec_fn(PairingRequest, PairingResponse) -> bool,
    options: PairOptions,
    results: Seq<(DeviceId, Result<PairReport, TransportErrorView>)>,
) -> bool {
    exists|states: Seq<B>|
        {
            &&& #[trigger] turns(changes, states, answers, options, results)
            &&& states[0] == before
            &&& states.last() == after
        }
}

/// Whether the `k`th round is over the devices that were then pending.
pub open spec fn round_fits(
    start: BatchView,
    rounds: Seq<Seq<(DeviceId, Result<PairReport, TransportErrorView>)>>,
    k: int,
) -> bool {
    &&& after_rounds(start, rounds.take(k)).pending.len() > 0
    &&& ids_of(rounds[k]) == after_rounds(start, rounds.take(k)).pending
}

/// Whether `states` are those before, between and after rounds, each over the devices then
/// pending.
pub open spec fn rounds_between<B: BluetoothBackend>(
    changes: spec_fn(B, BdAddr, Result<(), TransportError>, B) -> bool,
    states: Seq<B>,
    answers: spec_fn(PairingRequest, PairingResponse) -> bool,
    options: PairOptions,
    start: BatchView,
    rounds: Seq<Seq<(DeviceId, Result<PairReport, TransportErrorView>)>>,
) -> bool {
    &&& states.len() == rounds.len() + 1
    &&& forall|k: int|
        0 <= k < rounds.len() ==> #[trigger] round_fits(start, rounds, k) && tried_in_turn(
            changes,
            states[k],
            states[k + 1],
            answers,
            options,
            rounds[k],
        )
}

/// Whether rounds, each over the devices then pending, lead from `before` to `after`.
pub open spec fn rounds_made<B: BluetoothBackend>(
    changes: spec_fn(B, BdAddr, Result<(), TransportError>, B) -> bool,
    before: B,
    after: B,
    answers: spec_fn(PairingRequest, PairingResponse) -> bool,
    options: PairOptions,
    start: BatchView,
    rounds: Seq<Seq<(DeviceId, Result<PairReport, TransportErrorView>)>>,
) -> bool {
    exists|states: Seq<B>|
        {
            &&& #[trigger] rounds_between(changes, states, answers, options, start, rounds)
            &&& states[0] == before
            &&& states.last() == after
        }
}

/// How many rounds the options allow.
pub open spec fn rounds_allowed(options: BatchPairOptions) -> u32 {
    if options.rounds == 0 {
        1
    } else {
        options.rounds
    }
}

/// Whether `items` are the items of rounds that go on while devices are pending, up to
/// the number of rounds allowed.
pub open spec fn rounds_conclude(
    start: BatchView,
    rounds: Seq<Seq<(DeviceId, Result<PairReport, TransportErrorView>)>>,
    options: BatchPairOptions,
    items: Seq<ItemView>,
) -> bool {
    &&& rounds.len() <= rounds_allowed(options)
    &&& rounds.len() < rounds_allowed(options) ==> after_rounds(start, rounds).pending.len() == 0
    &&& items == after_rounds(start, rounds).items
}

/// Whether a batch over the targets leads from `before` to `after`, with the given items.
pub open spec fn batch_made<B: BluetoothBackend>(
    changes: spec_fn(B, BdAddr, Result<(), TransportError>, B) -> bool,
    before: B,
    after: B,
    targets: Seq<DeviceId>,
    answers: spec_fn(PairingRequest, PairingResponse) -> bool,
    options: BatchPairOptions,
    items: Seq<ItemView>,
) -> bool {
    exists|rounds: Seq<Seq<(DeviceId, Result<PairReport, TransportErrorView>)>>|
        {
            &&& #[trigger] rounds_made(
                changes,
                before,
                after,
                answers,
                options.per_device,
                fresh(targets),
                rounds,
            )
            &&& rounds_conclude(fresh(targets), rounds, options, items)
        }
}

/// One more turn.
proof fn turn_joins<B: BluetoothBackend>(
    changes: spec_fn(B, BdAddr, Result<(), TransportError>, B) -> bool,
    states: Seq<B>,
    answers: spec_fn(PairingRequest, PairingResponse) -> bool,
    options: PairOptions,
    results: Seq<(DeviceId, Result<PairReport, TransportErrorView>)>,
    after: B,
    turn: (DeviceId, Result<PairReport, TransportErrorView>),
)
    requires
        turns(changes, states, answers, options, results),
        workflow::paired_up(changes, states.last(), after, turn.0, answers, options, turn.1),
    ensures
        turns(changes, states.push(after), answers, options, results.push(turn)),
{
    let more = results.push(turn);
    let longer = states.push(after);
    assert forall|k: int| 0 <= k < more.len() implies workflow::paired_up(
        changes,
        longer[k],
        longer[k + 1],
        (#[trigger] more[k]).0,
        answers,
        options,
        more[k].1,
    ) by {
        if k < results.len() {
            assert(more[k] == results[k]);
            assert(longer[k] == states[k] && longer[k + 1] == states[k + 1]);
        }
    }
}

/// Makes one round: pairs with the pending devices, one after the other.
fn make_round<B: BluetoothBackend, A: PairingAgent + ?Sized>(
    backend: &mut B,
    pending: &Vec<DeviceId>,
    agent: &A,
    options: PairOptions,
) -> (r: Vec<Outcome>)
    ensures
        final(backend).abilities() == old(backend).abilities(),
        ids_of(outcomes_view(r@)) == pending@,
        tried_in_turn(
            |s: B, a: BdAddr, r: Result<(), TransportError>, t: B|
                exists|b: &mut B|
                    *b == s && *final(b) == t && #[trigger] call_ensures(
                        B::set_local_address,
                        (b, a),
                        r,
                    ),
            *old(backend),
            *final(backend),
            pairing::answers_of(agent),
            options,
            outcomes_view(r@),
        ),
{
    let ghost changes =
        |s: B, a: BdAddr, r: Result<(), TransportError>, t: B|
            exists|b: &mut B|
                *b == s && *final(b) == t && #[trigger] call_ensures(
                    B::set_local_address,
                    (b, a),
                    r,
                );
    let ghost answers = pairing::answers_of(agent);
    let mut out: Vec<Outcome> = Vec::new();
    let ghost mut states = seq![*backend];
    let mut i: usize = 0;
    assert(ids_of(outcomes_view(out@)) =~= pending@.take(0));
    while i < pending.len()
        invariant
            i <= pending@.len(),
            answers == pairing::answers_of(agent),
            changes == (
                |s: B, a: BdAddr, r: Result<(), TransportError>, t: B|
                    exists|b: &mut B|
                        *b == s && *final(b) == t && #[trigger] call_ensures(
                            B::set_local_address,
                            (b, a),
                            r,
                        )
            ),
            backend.abilities() == old(backend).abilities(),
            ids_of(outcomes_view(out@)) == pending@.take(i as int),
            turns(changes, states, answers, options, outcomes_view(out@)),
            states[0] == *old(backend),
            states.last() == *backend,
        decreases pending@.len() - i,
    {
        let ghost so_far = outcomes_view(out@);
        let id: DeviceId = pending[i];
        let result = workflow::pair_device(backend, id, agent, options);
        let ghost seen = workflow::report_view(result);
        out.push((id, result));
        proof {
            let more = outcomes_view(out@);
            assert(more =~= so_far.push((id, seen)));
            turn_joins(changes, states, answers, options, so_far, *backend, (id, seen));
            states = states.push(*backend);
            assert(ids_of(more) =~= pending@.take(i as int).push(id));
            assert(pending@.take(i + 1) =~= pending@.take(i as int).push(id));
        }
        i = i + 1;
    }
    assert(pending@.take(i as int) =~= pending@);
    proof {
        reveal(tried_in_turn);
    }
    out
}

/// One more round, over the devices that the earlier ones left pending.
proof fn round_joins<B: BluetoothBackend>(
    changes: spec_fn(B, BdAddr, Result<(), TransportError>, B) -> bool,
    states: Seq<B>,
    answers: spec_fn(PairingRequest, PairingResponse) -> bool,
    options: PairOptions,
    start: BatchView,
    rounds: Seq<Seq<(DeviceId, Result<PairReport, TransportErrorView>)>>,
    results: Seq<(DeviceId, Result<PairReport, TransportErrorView>)>,
    after: B,
)
    requires
        rounds_between(changes, states, answers, options, start, rounds),
        after_rounds(start, rounds).pending.len() > 0,
        ids_of(results) == after_rounds(start, rounds).pending,
        tried_in_turn(changes, states.last(), after, answers, options, results),
    ensures
        rounds_between(
            changes,
            states.push(after),
            answers,
            options,
            start,
            rounds.push(results),
        ),
        after_rounds(start, rounds.push(results)) == after_round(
            after_rounds(start, rounds),
            results,
        ),
{
    let more = rounds.push(results);
    let longer = states.push(after);
    assert(more.drop_last() =~= rounds);
    assert forall|k: int| 0 <= k < more.len() implies #[trigger] round_fits(start, more, k)
        && tried_in_turn(changes, longer[k], longer[k + 1], answers, options, more[k]) by {
        if k < rounds.len() {
            assert(round_fits(start, rounds, k));
            assert(more[k] == rounds[k]);
            assert(more.take(k) =~= rounds.take(k));
            assert(longer[k] == states[k] && longer[k + 1] == states[k + 1]);
        } else {
            assert(more.take(k) =~= rounds);
        }
    }
}

/// Pairs with many devices, in rounds. Each device has one item, in the order in which
/// it was first named; a failure of one does not keep the others from being tried.
///
/// A pairing has the backend to itself, so those of a round are made one after another. A
/// caller that can run several at once drives a [`BatchRun`] of its own, with [`active`]
/// pairings at a time: the order in which the results of a round come in does not matter.
pub fn pair_devices<B: BluetoothBackend, A: PairingAgent + ?Sized>(
    backend: &mut B,
    targets: &[DeviceId],
    agent: &A,
    options: BatchPairOptions,
) -> (r: Vec<PairItem>)
    ensures
        final(backend).abilities() == old(backend).abilities(),
        batch_made(
            |s: B, a: BdAddr, r: Result<(), TransportError>, t: B|
                exists|b: &mut B|
                    *b == s && *final(b) == t && #[trigger] call_ensures(
                        B::set_local_address,
                        (b, a),
                        r,
                    ),
            *old(backend),
            *final(backend),
            targets@,
            pairing::answers_of(agent),
            options,
            items_view(r@),
        ),
{
    let ghost changes =
        |s: B, a: BdAddr, r: Result<(), TransportError>, t: B|
            exists|b: &mut B|
                *b == s && *final(b) == t && #[trigger] call_ensures(
                    B::set_local_address,
                    (b, a),
                    r,
                );
    let ghost answers = pairing::answers_of(agent);
    let mut run = BatchRun::new(targets);
    let ghost start = fresh(targets@);
    let rounds: u32 = if options.rounds == 0 {
        1
    } else {
        options.rounds
    };
    let ghost mut history = Seq::<
        Seq<(DeviceId, Result<PairReport, TransportErrorView>)>,
    >::empty();
    let ghost mut states = seq![*backend];
    let mut round: u32 = 0;
    while round < rounds && !run.is_done()
        invariant
            round <= rounds,
            rounds == rounds_allowed(options),
            answers == pairing::answers_of(agent),
            changes == (
                |s: B, a: BdAddr, r: Result<(), TransportError>, t: B|
                    exists|b: &mut B|
                        *b == s && *final(b) == t && #[trigger] call_ensures(
                            B::set_local_address,
                            (b, a),
                            r,
                        )
            ),
            backend.abilities() == old(backend).abilities(),
            history.len() == round,
            start == fresh(targets@),
            run@ == after_rounds(start, history),
            batch_ok(run@),
            rounds_between(changes, states, answers, options.per_device, start, history),
            states[0] == *old(backend),
            states.last() == *backend,
            forall|k: int|
                0 <= k < run@.items.len() ==> (#[trigger] run@.items[k]).attempts <= round,
        decreases rounds - round,
    {
        let ghost was = run@;
        let results = make_round(backend, &run.pending, agent, options.per_device);
        let ghost seen = outcomes_view(results@);
        proof {
            assert forall|k: int| 0 <= k < results@.len() implies item_ids(was.items).contains(
                #[trigger] ids_of(seen)[k],
            ) by {
                assert(ids_of(seen)[k] == was.pending[k]);
            }
        }
        run.record_round(results);
        proof {
            let more = history.push(seen);
            assert(more.drop_last() =~= history);
            assert(more.last() == seen);
            round_joins(
                changes,
                states,
                answers,
                options.per_device,
                start,
                history,
                seen,
                *backend,
            );
            states = states.push(*backend);
            assert(run@ == after_rounds(start, more));
            assert forall|k: int| 0 <= k < run@.items.len() implies (
            #[trigger] run@.items[k]).attempts <= round + 1 by {
                assert(run@.items[k] == updated(was.items[k], seen));
                assert(was.items[k].attempts <= round);
            }
            history = more;
        }
        round = round + 1;
    }
    assert(rounds_made(
        changes,
        *old(backend),
        *backend,
        answers,
        options.per_device,
        start,
        history,
    ));
    assert(rounds_conclude(start, history, options, run@.items));
    run.finish()
}

/// The items of a batch or an error, as plain values.
pub open spec fn batch_view(r: Result<Vec<PairItem>, TransportError>) -> Result<
    Seq<ItemView>,
    TransportErrorView,
> {
    match r {
        Ok(items) => Ok(items_view(items@)),
        Err(e) => Err(e@),
    }
}

/// Whether a scan that found `found` leads from `before` to `mid`, and the batch over what
/// it found on to `after`, with the given result: where the scan fails, its error and no
/// pairing.
pub open spec fn scanned_and_paired<B: BluetoothBackend>(
    changes: spec_fn(B, BdAddr, Result<(), TransportError>, B) -> bool,
    before: B,
    mid: B,
    after: B,
    filter: FilterView,
    answers: spec_fn(PairingRequest, PairingResponse) -> bool,
    options: BatchPairOptions,
    found: Result<Seq<DeviceView>, TransportErrorView>,
    result: Result<Seq<ItemView>, TransportErrorView>,
) -> bool {
    &&& before.does(BackendCall::Discover { filter, result: found }, &mid)
    &&& match found {
        Err(e) => after == mid && result == Err::<Seq<ItemView>, TransportErrorView>(e),
        Ok(v) => match result {
            Ok(items) => batch_made(
                changes,
                mid,
                after,
                v.map_values(|d: DeviceView| d.id),
                answers,
                options,
                items,
            ),
            Err(_) => false,
        },
    }
}

/// Whether a scan and the batch over what it found lead from `before` to `after`, with the
/// given result.
pub open spec fn discovered_and_paired<B: BluetoothBackend>(
    changes: spec_fn(B, BdAddr, Result<(), TransportError>, B) -> bool,
    before: B,
    after: B,
    filter: FilterView,
    answers: spec_fn(PairingRequest, PairingResponse) -> bool,
    options: BatchPairOptions,
    result: Result<Seq<ItemView>, TransportErrorView>,
) -> bool {
    exists|mid: B, found: Result<Seq<DeviceView>, TransportErrorView>| #[trigger]
        scanned_and_paired(
            changes,
            before,
            mid,
            after,
            filter,
            answers,
            options,
            found,
            result,
        )
}

/// Scans, and pairs with everything that was found.
pub fn pair_discovered<B: BluetoothBackend, A: PairingAgent + ?Sized>(
    backend: &mut B,
    filter: &DiscoveryFilter,
    agent: &A,
    options: BatchPairOptions,
) -> (r: Result<Vec<PairItem>, TransportError>)
    ensures
        final(backend).abilities() == old(backend).abilities(),
        discovered_and_paired(
            |s: B, a: BdAddr, r: Result<(), TransportError>, t: B|
                exists|b: &mut B|
                    *b == s && *final(b) == t && #[trigger] call_ensures(
                        B::set_local_address,
                        (b, a),
                        r,
                    ),
            *old(backend),
            *final(backend),
            filter@,
            pairing::answers_of(agent),
            options,
            batch_view(r),
        ),
{
    let ghost changes =
        |s: B, a: BdAddr, r: Result<(), TransportError>, t: B|
            exists|b: &mut B|
                *b == s && *final(b) == t && #[trigger] call_ensures(
                    B::set_local_address,
                    (b, a),
                    r,
                );
    let ghost answers = pairing::answers_of(agent);
    let result = backend.discover(filter);
    let ghost found = backend::found_view(result);
    let ghost mid = *backend;
    match result {
        Err(e) => {
            assert(scanned_and_paired(
                changes,
                *old(backend),
                mid,
                *backend,
                filter@,
                answers,
                options,
                found,
                Err(e@),
            ));
            Err(e)
        },
        Ok(v) => {
            let targets = ids_found(&v);
            let items = pair_devices(backend, targets.as_slice(), agent, options);
            assert(scanned_and_paired(
                changes,
                *old(backend),
                mid,
                *backend,
                filter@,
                answers,
                options,
                found,
                Ok(items_view(items@)),
            ));
            Ok(items)
        },
    }
}

/// The identities of devices, in order.
fn ids_found(v: &Vec<DeviceInfo>) -> (r: Vec<DeviceId>)
    ensures
        r@ == backend::devices_view(v@).map_values(|d: DeviceView| d.id),
{
    let ghost all = backend::devices_view(v@).map_values(|d: DeviceView| d.id);
    let mut r: Vec<DeviceId> = Vec::new();
    let mut i: usize = 0;
    while i < v.len()
        invariant
            i <= v@.len(),
            all == backend::devices_view(v@).map_values(|d: DeviceView| d.id),
            r@ == all.take(i as int),
        decreases v@.len() - i,
    {
        assert(all[i as int] == v@[i as int].id);
        r.push(v[i].id);
        assert(all.take(i + 1) =~= all.take(i as int).push(all[i as int]));
        i = i + 1;
    }
    assert(all.take(i as int) =~= all);
    r
}

/// Rounds leave the devices of the items as they were, and count each item at most once
/// per round.
proof fn rounds_keep_items(
    start: BatchView,
    rounds: Seq<Seq<(DeviceId, Result<PairReport, TransportErrorView>)>>,
)
    requires
        forall|k: int| 0 <= k < rounds.len() ==> #[trigger] round_fits(start, rounds, k),
        rounds.len() <= u32::MAX,
        batch_ok(start),
        forall|k: int| 0 <= k < start.items.len() ==> (#[trigger] start.items[k]).attempts == 0,
    ensures
        batch_ok(after_rounds(start, rounds)),
        item_ids(after_rounds(start, rounds).items) == item_ids(start.items),
        forall|k: int|
            0 <= k < start.items.len() ==> (#[trigger] after_rounds(
                start,
                rounds,
            ).items[k]).attempts <= rounds.len(),
        rounds.len() > 0 && start.pending == item_ids(start.items) ==> forall|k: int|
            0 <= k < start.items.len() ==> (#[trigger] after_rounds(
                start,
                rounds,
            ).items[k]).attempts >= 1,
    decreases rounds.len(),
{
    if rounds.len() > 0 {
        let earlier = rounds.drop_last();
        earlier_rounds_fit(start, rounds);
        rounds_keep_items(start, earlier);
        let b = after_rounds(start, earlier);
        let results = rounds.last();
        assert forall|k: int| 0 <= k < results.len() implies item_ids(b.items).contains(
            #[trigger] ids_of(results)[k],
        ) by {
            assert(ids_of(results)[k] == b.pending[k]);
        }
        round_keeps_batch_ok(b, results);
        let c = after_rounds(start, rounds);
        assert(b.items.len() == item_ids(b.items).len());
        assert(start.items.len() == item_ids(start.items).len());
        assert forall|k: int| 0 <= k < start.items.len() implies (#[trigger] c.items[k]).attempts
            <= rounds.len() && (start.pending == item_ids(start.items) ==> c.items[k].attempts
            >= 1) by {
            assert(c.items[k] == updated(b.items[k], results));
            assert(b.items[k].attempts <= earlier.len());
            if earlier.len() == 0 && start.pending == item_ids(start.items) {
                assert(b == start);
                no_result(results, start.items[k].id);
                assert(ids_of(results)[k] == start.items[k].id) by {
                    assert(item_ids(start.items)[k] == start.items[k].id);
                }
            }
        }
    }
}

/// A batch has one item for each distinct target, in the order in which it was first
/// named, and tries every one at least once and at most as often as rounds are allowed:
/// no failure aborts the rest.
pub proof fn batch_covers_every_target<B: BluetoothBackend>(
    changes: spec_fn(B, BdAddr, Result<(), TransportError>, B) -> bool,
    before: B,
    after: B,
    targets: Seq<DeviceId>,
    answers: spec_fn(PairingRequest, PairingResponse) -> bool,
    options: BatchPairOptions,
    items: Seq<ItemView>,
)
    requires
        batch_made(changes, before, after, targets, answers, options, items),
    ensures
        item_ids(items) == distinct(targets),
        forall|k: int|
            0 <= k < items.len() ==> 1 <= (#[trigger] items[k]).attempts <= rounds_allowed(options),
{
    let start = fresh(targets);
    let rounds = choose|rounds: Seq<Seq<(DeviceId, Result<PairReport, TransportErrorView>)>>|
        #[trigger] rounds_made(changes, before, after, answers, options.per_device, start, rounds)
            && rounds_conclude(start, rounds, options, items);
    fresh_is_ok(targets);
    let states = choose|states: Seq<B>|
        {
            &&& #[trigger] rounds_between(
                changes,
                states,
                answers,
                options.per_device,
                start,
                rounds,
            )
            &&& states[0] == before
            &&& states.last() == after
        };
    assert forall|k: int| 0 <= k < rounds.len() implies #[trigger] round_fits(
        start,
        rounds,
        k,
    ) by {}
    rounds_keep_items(start, rounds);
    let last = after_rounds(start, rounds);
    assert(items.len() == item_ids(items).len());
    assert(start.items.len() == item_ids(start.items).len());
    if items.len() > 0 {
        assert(start.pending.len() > 0);
        assert(rounds.len() > 0) by {
            if rounds.len() == 0 {
                assert(last == start);
            }
        }
    }
    assert forall|k: int| 0 <= k < items.len() implies 1 <= (#[trigger] items[k]).attempts
        <= rounds_allowed(options) by {
        assert(last.items[k].attempts <= rounds.len());
    }
}

/// Rounds that fit keep fitting without the last one.
pub proof fn earlier_rounds_fit(
    start: BatchView,
    rounds: Seq<Seq<(DeviceId, Result<PairReport, TransportErrorView>)>>,
)
    requires
        rounds.len() > 0,
        forall|k: int| 0 <= k < rounds.len() ==> #[trigger] round_fits(start, rounds, k),
    ensures
        forall|k: int|
            0 <= k < rounds.drop_last().len() ==> #[trigger] round_fits(
                start,
                rounds.drop_last(),
                k,
            ),
        ids_of(rounds.last()) == after_rounds(start, rounds.drop_last()).pending,
{
    let earlier = rounds.drop_last();
    assert forall|k: int| 0 <= k < earlier.len() implies #[trigger] round_fits(
        start,
        earlier,
        k,
    ) by {
        assert(round_fits(start, rounds, k));
        assert(earlier[k] == rounds[k]);
        assert(earlier.take(k) =~= rounds.take(k));
    }
    assert(round_fits(start, rounds, rounds.len() - 1));
    assert(rounds.take(rounds.len() - 1) =~= earlier);
}

/// Devices whose last result may pass are pending, and pending devices were tried in every
/// round so far.
proof fn pending_was_tried(
    start: BatchView,
    rounds: Seq<Seq<(DeviceId, Result<PairReport, TransportErrorView>)>>,
    k: int,
)
    requires
        forall|i: int| 0 <= i < rounds.len() ==> #[trigger] round_fits(start, rounds, i),
        rounds.len() <= u32::MAX,
        batch_ok(start),
        start.pending == item_ids(start.items),
        forall|i: int| 0 <= i < start.items.len() ==> (#[trigger] start.items[i]).attempts == 0,
        0 <= k < start.items.len(),
    ensures
        ({
            let c = after_rounds(start, rounds);
            &&& c.items.len() == start.items.len()
            &&& retryable(c.items[k].outcome) ==> c.pending.contains(c.items[k].id)
            &&& c.pending.contains(c.items[k].id) ==> c.items[k].attempts == rounds.len()
        }),
    decreases rounds.len(),
{
    if rounds.len() == 0 {
        assert(item_ids(start.items)[k] == start.items[k].id);
    } else {
        let earlier = rounds.drop_last();
        let results = rounds.last();
        earlier_rounds_fit(start, rounds);
        pending_was_tried(start, earlier, k);
        rounds_keep_items(start, earlier);
        let b = after_rounds(start, earlier);
        let c = after_rounds(start, rounds);
        let id = b.items[k].id;
        assert(c.items[k] == updated(b.items[k], results));
        no_result(results, id);
        pending_took_part(results);
        pending_by_result(results, id);
        if c.pending.contains(id) {
            let j = choose|j: int| 0 <= j < c.pending.len() && c.pending[j] == id;
            assert(ids_of(results).contains(c.pending[j]));
        }
    }
}

/// A device that has the same result in every round that it takes part in ends with that
/// result: after one round where it is final, else after all of them.
pub proof fn steady_result_stays(
    targets: Seq<DeviceId>,
    rounds: Seq<Seq<(DeviceId, Result<PairReport, TransportErrorView>)>>,
    k: int,
    x: Result<PairReport, TransportErrorView>,
)
    requires
        0 < rounds.len() <= u32::MAX,
        forall|i: int| 0 <= i < rounds.len() ==> #[trigger] round_fits(fresh(targets), rounds, i),
        0 <= k < distinct(targets).len(),
        forall|i: int|
            0 <= i < rounds.len() ==> (result_of(#[trigger] rounds[i], distinct(targets)[k])
                is Some ==> result_of(rounds[i], distinct(targets)[k]) == Some(x)),
    ensures
        after_rounds(fresh(targets), rounds).items[k] == (ItemView {
            id: distinct(targets)[k],
            outcome: x,
            attempts: if retryable(x) {
                rounds.len() as u32
            } else {
                1
            },
        }),
    decreases rounds.len(),
{
    let start = fresh(targets);
    let id = distinct(targets)[k];
    fresh_is_ok(targets);
    assert(start.items[k] == untried(id));
    assert(start.items.len() == item_ids(start.items).len());
    let earlier = rounds.drop_last();
    let results = rounds.last();
    earlier_rounds_fit(start, rounds);
    rounds_keep_items(start, earlier);
    let b = after_rounds(start, earlier);
    let c = after_rounds(start, rounds);
    assert(results == rounds[rounds.len() - 1]);
    assert(item_ids(b.items)[k] == id);
    assert(b.items.len() == item_ids(b.items).len());
    assert(c.items[k] == updated(b.items[k], results));
    no_result(results, id);
    if earlier.len() > 0 {
        assert forall|i: int| 0 <= i < earlier.len() implies (result_of(#[trigger] earlier[i], id)
            is Some ==> result_of(earlier[i], id) == Some(x)) by {
            assert(earlier[i] == rounds[i]);
        }
        steady_result_stays(targets, earlier, k, x);
        pending_was_tried(start, earlier, k);
        if !retryable(x) {
            let last = earlier.last();
            let before = after_rounds(start, earlier.drop_last());
            earlier_rounds_fit(start, earlier);
            rounds_keep_items(start, earlier.drop_last());
            pending_by_result(last, id);
            assert(earlier.last() == earlier[earlier.len() - 1]);
            assert(!b.pending.contains(id));
        }
    } else {
        assert(b == start);
        assert(start.pending[k] == id);
    }
}

/// A device that a batch leaves with a failure that may pass was tried in every round that
/// the options allow.
pub proof fn passing_failures_use_every_round<B: BluetoothBackend>(
    changes: spec_fn(B, BdAddr, Result<(), TransportError>, B) -> bool,
    before: B,
    after: B,
    targets: Seq<DeviceId>,
    answers: spec_fn(PairingRequest, PairingResponse) -> bool,
    options: BatchPairOptions,
    items: Seq<ItemView>,
    k: int,
)
    requires
        batch_made(changes, before, after, targets, answers, options, items),
        0 <= k < items.len(),
        items[k].outcome matches Err(e) && !workflow::hopeless(e),
    ensures
        items[k].attempts == rounds_allowed(options),
{
    let start = fresh(targets);
    let rounds = choose|rounds: Seq<Seq<(DeviceId, Result<PairReport, TransportErrorView>)>>|
        #[trigger] rounds_made(changes, before, after, answers, options.per_device, start, rounds)
            && rounds_conclude(start, rounds, options, items);
    let states = choose|states: Seq<B>|
        {
            &&& #[trigger] rounds_between(
                changes,
                states,
                answers,
                options.per_device,
                start,
                rounds,
            )
            &&& states[0] == before
            &&& states.last() == after
        };
    fresh_is_ok(targets);
    assert forall|i: int| 0 <= i < rounds.len() implies #[trigger] round_fits(
        start,
        rounds,
        i,
    ) by {}
    rounds_keep_items(start, rounds);
    assert(items.len() == item_ids(items).len());
    assert(start.items.len() == item_ids(start.items).len());
    pending_was_tried(start, rounds, k);
}

proof fn fresh_is_ok(targets: Seq<DeviceId>)
    ensures
        batch_ok(fresh(targets)),
        item_ids(fresh(targets).items) == distinct(targets),
        fresh(targets).pending == distinct(targets),
        forall|k: int|
            0 <= k < fresh(targets).items.len() ==> (#[trigger] fresh(targets).items[k]).attempts
                == 0,
{
    let start = fresh(targets);
    distinct_repeats_nothing(targets);
    assert(item_ids(start.items) =~= distinct(targets));
    assert forall|k: int| 0 <= k < start.pending.len() implies item_ids(start.items).contains(
        #[trigger] start.pending[k],
    ) by {
        assert(item_ids(start.items)[k] == start.pending[k]);
    }
    assert forall|k: int| 0 <= k < start.items.len() implies (#[trigger] start.items[k]).attempts
        == 0 by {
        assert(start.items[k] == untried(distinct(targets)[k]));
    }
}

/// An attempt never follows a success, a refusal or an unknown device: a pairing makes
/// at most one more attempt than there are retries, and all but the last failed for
/// reasons that may pass.
pub proof fn attempts_stop_at_a_verdict(
    tries: Seq<Result<crate::pairing::PairingOutcome, TransportErrorView>>,
    options: PairOptions,
    result: Result<PairReport, TransportErrorView>,
)
    requires
        workflow::well_tried(tries, options.attempts_allowed(), result),
    ensures
        tries.len() <= options.retries + 1,
        forall|i: int|
            0 <= i < tries.len() - 1 ==> (#[trigger] tries[i] matches Err(e)
                && !workflow::hopeless(e)),
        result matches Ok(report) ==> report.attempts == tries.len() && tries.last() == Ok::<
            crate::pairing::PairingOutcome,
            TransportErrorView,
        >(report.outcome),
        result matches Err(e) ==> tries.last() == Err::<
            crate::pairing::PairingOutcome,
            TransportErrorView,
        >(e) && (workflow::hopeless(e) || tries.len() == options.attempts_allowed()),
{
}

/// Whom the next round is for: of those that took part, exactly the devices that failed
/// for another reason than a refusal or being unknown.
pub proof fn next_round_is_for_passing_failures(
    b: BatchView,
    results: Seq<(DeviceId, Result<PairReport, TransportErrorView>)>,
    m: int,
)
    requires
        no_repeats(ids_of(results)),
        0 <= m < results.len(),
    ensures
        ({
            let next = after_round(b, results).pending;
            &&& forall|id: DeviceId| #[trigger] next.contains(id) ==> ids_of(results).contains(id)
            &&& match results[m].1 {
                Ok(_) => !next.contains(results[m].0),
                Err(TransportErrorView::PairingRejected(_)) => !next.contains(results[m].0),
                Err(TransportErrorView::DeviceNotFound(_)) => !next.contains(results[m].0),
                Err(_) => next.contains(results[m].0),
            }
        }),
{
    let next = after_round(b, results).pending;
    pending_took_part(results);
    result_at(results, m);
    pending_by_result(results, results[m].0);
    assert forall|id: DeviceId| #[trigger] next.contains(id) implies ids_of(results).contains(
        id,
    ) by {
        let k = choose|k: int| 0 <= k < next.len() && next[k] == id;
        assert(ids_of(results).contains(next[k]));
    }
}

/// Every round but the first is over those that the round before it left pending, and no
/// round holds a device twice.
proof fn round_follows_round(
    targets: Seq<DeviceId>,
    rounds: Seq<Seq<(DeviceId, Result<PairReport, TransportErrorView>)>>,
    j: int,
)
    requires
        rounds.len() <= u32::MAX,
        forall|i: int| 0 <= i < rounds.len() ==> #[trigger] round_fits(fresh(targets), rounds, i),
        0 <= j < rounds.len(),
    ensures
        no_repeats(ids_of(rounds[j])),
        j == 0 ==> ids_of(rounds[j]) == distinct(targets),
        j > 0 ==> ids_of(rounds[j]) == still_pending(rounds[j - 1]),
{
    let start = fresh(targets);
    let before = rounds.take(j);
    assert forall|i: int| 0 <= i < before.len() implies #[trigger] round_fits(
        start,
        before,
        i,
    ) by {
        assert(round_fits(start, rounds, i));
        assert(before[i] == rounds[i]);
        assert(before.take(i) =~= rounds.take(i));
    }
    fresh_is_ok(targets);
    rounds_keep_items(start, before);
    assert(round_fits(start, rounds, j));
    if j > 0 {
        assert(before.last() == rounds[j - 1]);
    }
}

/// A device that took part in a round took part in the one before, with a failure that may
/// pass.
proof fn took_part_before(
    targets: Seq<DeviceId>,
    rounds: Seq<Seq<(DeviceId, Result<PairReport, TransportErrorView>)>>,
    j: int,
    n: int,
) -> (m: int)
    requires
        rounds.len() <= u32::MAX,
        forall|i: int| 0 <= i < rounds.len() ==> #[trigger] round_fits(fresh(targets), rounds, i),
        0 < j < rounds.len(),
        0 <= n < rounds[j].len(),
    ensures
        0 <= m < rounds[j - 1].len(),
        rounds[j - 1][m].0 == rounds[j][n].0,
        retryable(rounds[j - 1][m].1),
{
    let id = rounds[j][n].0;
    let past = rounds[j - 1];
    round_follows_round(targets, rounds, j);
    round_follows_round(targets, rounds, j - 1);
    assert(ids_of(rounds[j])[n] == id);
    assert(still_pending(past).contains(id));
    pending_by_result(past, id);
    no_result(past, id);
    let m = choose|m: int| 0 <= m < ids_of(past).len() && ids_of(past)[m] == id;
    result_at(past, m);
    m
}

/// A device that was paired, was refused or is unknown takes part in no later round.
pub proof fn verdict_ends_a_device(
    targets: Seq<DeviceId>,
    rounds: Seq<Seq<(DeviceId, Result<PairReport, TransportErrorView>)>>,
    i: int,
    m: int,
    j: int,
    n: int,
)
    requires
        rounds.len() <= u32::MAX,
        forall|k: int| 0 <= k < rounds.len() ==> #[trigger] round_fits(fresh(targets), rounds, k),
        0 <= i < j < rounds.len(),
        0 <= m < rounds[i].len(),
        0 <= n < rounds[j].len(),
        match rounds[i][m].1 {
            Ok(_) => true,
            Err(e) => e is PairingRejected || e is DeviceNotFound,
        },
    ensures
        rounds[j][n].0 != rounds[i][m].0,
    decreases j,
{
    if rounds[j][n].0 == rounds[i][m].0 {
        let l = took_part_before(targets, rounds, j, n);
        if j - 1 == i {
            round_follows_round(targets, rounds, i);
            assert(ids_of(rounds[i])[l] == ids_of(rounds[i])[m]);
        } else {
            verdict_ends_a_device(targets, rounds, i, m, j - 1, l);
        }
    }
}

/// A device that failed for any other reason takes part in the next round, and there is a
/// next round unless as many were made as the options ask for, at least one.
pub proof fn passing_failure_goes_on(
    targets: Seq<DeviceId>,
    rounds: Seq<Seq<(DeviceId, Result<PairReport, TransportErrorView>)>>,
    options: BatchPairOptions,
    items: Seq<ItemView>,
    i: int,
    m: int,
)
    requires
        rounds.len() <= u32::MAX,
        forall|k: int| 0 <= k < rounds.len() ==> #[trigger] round_fits(fresh(targets), rounds, k),
        rounds_conclude(fresh(targets), rounds, options, items),
        0 <= i < rounds.len(),
        0 <= m < rounds[i].len(),
        match rounds[i][m].1 {
            Ok(_) => false,
            Err(TransportErrorView::PairingRejected(_)) => false,
            Err(TransportErrorView::DeviceNotFound(_)) => false,
            Err(_) => true,
        },
    ensures
        i + 1 < rounds.len() ==> exists|n: int|
            0 <= n < rounds[i + 1].len() && (#[trigger] rounds[i + 1][n]).0 == rounds[i][m].0,
        i + 1 == rounds.len() ==> i + 1 == if options.rounds == 0 {
            1
        } else {
            options.rounds as int
        },
{
    let id = rounds[i][m].0;
    round_follows_round(targets, rounds, i);
    result_at(rounds[i], m);
    pending_by_result(rounds[i], id);
    let next = still_pending(rounds[i]);
    if i + 1 < rounds.len() {
        round_follows_round(targets, rounds, i + 1);
        let n = choose|n: int| 0 <= n < next.len() && next[n] == id;
        assert(ids_of(rounds[i + 1])[n] == id);
        assert(rounds[i + 1][n].0 == id);
    } else {
        assert(rounds.last() == rounds[i]);
        assert(after_rounds(fresh(targets), rounds).pending == next);
    }
}

/// An item tells of the last round that its device took part in: the result there, and how
/// many rounds that was the last of.
pub proof fn item_tells_of_the_last_round(
    targets: Seq<DeviceId>,
    rounds: Seq<Seq<(DeviceId, Result<PairReport, TransportErrorView>)>>,
    k: int,
    i: int,
    m: int,
)
    requires
        rounds.len() <= u32::MAX,
        forall|l: int| 0 <= l < rounds.len() ==> #[trigger] round_fits(fresh(targets), rounds, l),
        0 <= k < distinct(targets).len(),
        0 <= i < rounds.len(),
        0 <= m < rounds[i].len(),
        rounds[i][m].0 == distinct(targets)[k],
        i + 1 < rounds.len() ==> forall|n: int|
            0 <= n < rounds[i + 1].len() ==> (#[trigger] rounds[i + 1][n]).0 != rounds[i][m].0,
    ensures
        after_rounds(fresh(targets), rounds).items[k] == (ItemView {
            id: rounds[i][m].0,
            outcome: rounds[i][m].1,
            attempts: (i + 1) as u32,
        }),
    decreases rounds.len(),
{
    let start = fresh(targets);
    let id = distinct(targets)[k];
    let earlier = rounds.drop_last();
    let results = rounds.last();
    let last = rounds.len() - 1;
    fresh_is_ok(targets);
    earlier_rounds_fit(start, rounds);
    rounds_keep_items(start, earlier);
    let b = after_rounds(start, earlier);
    let c = after_rounds(start, rounds);
    assert(start.items.len() == item_ids(start.items).len());
    assert(b.items.len() == item_ids(b.items).len());
    assert(item_ids(b.items)[k] == id);
    assert(c.items[k] == updated(b.items[k], results));
    if i == last {
        pending_was_tried(start, earlier, k);
        assert(ids_of(results)[m] == id);
        assert(b.pending.contains(id));
        round_follows_round(targets, rounds, i);
        result_at(results, m);
    } else {
        assert(rounds[last] == results);
        no_result(results, id);
        if ids_of(results).contains(id) {
            let n = choose|n: int| 0 <= n < ids_of(results).len() && ids_of(results)[n] == id;
            let p = took_part_in_every(targets, rounds, last, n, i + 1);
            assert(rounds[i + 1][p].0 == id);
        }
        assert(earlier[i] == rounds[i]);
        if i + 1 < earlier.len() {
            assert(earlier[i + 1] == rounds[i + 1]);
        }
        item_tells_of_the_last_round(targets, earlier, k, i, m);
    }
}

/// A device that took part in a round took part in every one before.
proof fn took_part_in_every(
    targets: Seq<DeviceId>,
    rounds: Seq<Seq<(DeviceId, Result<PairReport, TransportErrorView>)>>,
    j: int,
    n: int,
    i: int,
) -> (m: int)
    requires
        rounds.len() <= u32::MAX,
        forall|k: int| 0 <= k < rounds.len() ==> #[trigger] round_fits(fresh(targets), rounds, k),
        0 <= i <= j < rounds.len(),
        0 <= n < rounds[j].len(),
    ensures
        0 <= m < rounds[i].len(),
        rounds[i][m].0 == rounds[j][n].0,
    decreases j,
{
    if i == j {
        n
    } else {
        let l = took_part_before(targets, rounds, j, n);
        took_part_in_every(targets, rounds, j - 1, l, i)
    }
}

/// A target that was named before is not taken again, and a new one comes last: targets keep
/// the order in which they were first named.
pub proof fn targets_keep_their_order(targets: Seq<DeviceId>, id: DeviceId)
    ensures
        targets.contains(id) ==> distinct(targets.push(id)) == distinct(targets),
        !targets.contains(id) ==> distinct(targets.push(id)) == distinct(targets).push(id),
        distinct(Seq::empty()).len() == 0,
{
    assert(targets.push(id).drop_last() =~= targets);
    distinct_repeats_nothing(targets);
    assert(distinct(targets).contains(id) <==> targets.contains(id));
}

/// A batch makes no more rounds than its options ask for, at least one; and none once nobody
/// is pending.
pub proof fn rounds_are_limited(
    targets: Seq<DeviceId>,
    rounds: Seq<Seq<(DeviceId, Result<PairReport, TransportErrorView>)>>,
    options: BatchPairOptions,
    items: Seq<ItemView>,
    k: int,
)
    requires
        rounds_conclude(fresh(targets), rounds, options, items),
        forall|i: int| 0 <= i < rounds.len() ==> #[trigger] round_fits(fresh(targets), rounds, i),
        0 <= k < rounds.len(),
    ensures
        options.rounds == 0 ==> rounds.len() == 1,
        options.rounds > 0 ==> rounds.len() <= options.rounds,
        rounds[k].len() > 0,
{
    assert(round_fits(fresh(targets), rounds, k));
    assert(ids_of(rounds[k]).len() == rounds[k].len());
}

/// How many pairings run at once: no more than there are devices or than were asked for, but
/// always one; and as many as both allow.
pub proof fn active_is_the_smaller(
    concurrency: Option<usize>,
    allowed: usize,
    pending: usize,
    r: usize,
)
    requires
        call_ensures(active, (concurrency, allowed, pending), r),
    ensures
        r >= 1,
        pending >= 1 ==> r <= pending,
        concurrency matches Some(n) ==> (n >= 1 ==> r <= n) && (r == 1 || r == n || r == pending),
        concurrency is None ==> (allowed >= 1 ==> r <= allowed) && (r == 1 || r == allowed || r
            == pending),
        ({
            let wanted = if concurrency is Some {
                concurrency->0
            } else {
                allowed
            };
            &&& wanted >= pending >= 1 ==> r == pending
            &&& 1 <= wanted <= pending ==> r == wanted
        }),
{
}

/// A device that a batch leaves with a failure that may pass, which is any but a refusal and
/// being unknown, was tried in as many rounds as the options ask for, at least one.
pub proof fn only_a_verdict_saves_rounds<B: BluetoothBackend>(
    changes: spec_fn(B, BdAddr, Result<(), TransportError>, B) -> bool,
    before: B,
    after: B,
    targets: Seq<DeviceId>,
    answers: spec_fn(PairingRequest, PairingResponse) -> bool,
    options: BatchPairOptions,
    items: Seq<ItemView>,
    k: int,
)
    requires
        batch_made(changes, before, after, targets, answers, options, items),
        0 <= k < items.len(),
    ensures
        match items[k].outcome {
            Ok(_) => true,
            Err(TransportErrorView::PairingRejected(_)) => true,
            Err(TransportErrorView::DeviceNotFound(_)) => true,
            Err(_) => items[k].attempts == if options.rounds == 0 {
                1
            } else {
                options.rounds
            },
        },
{
    match items[k].outcome {
        Ok(_) => {},
        Err(TransportErrorView::PairingRejected(_)) => {},
        Err(TransportErrorView::DeviceNotFound(_)) => {},
        Err(_) => {
            passing_failures_use_every_round(
                changes,
                before,
                after,
                targets,
                answers,
                options,
                items,
                k,
            );
        },
    }
}

} // verus!
