//! Splitting a captured event stream along its axes and reporting on it.
use vstd::prelude::*;
use crate::event;
use crate::event::{EventView, KindView, TransitEvent, TransitEventKind};
use crate::metrics;
use crate::metrics::{Metrics, SplitBy};
use crate::recorder::Recorder;
use crate::text;

verus! {

/// The events that fall in one bucket of an axis, in order.
pub open spec fn of_key(es: Seq<EventView>, dimension: SplitBy, key: Seq<char>) -> Seq<EventView> {
    es.filter(|e: EventView| dimension.bucket(e) == key)
}

/// The events that carry one sequence number, in order.
pub open spec fn of_seq(es: Seq<EventView>, seq: u64) -> Seq<EventView> {
    es.filter(|e: EventView| e.seq == seq)
}

/// Whether events stand in the order of their sequence numbers.
pub open spec fn in_order(es: Seq<EventView>) -> bool {
    forall|i: int, j: int| 0 <= i < j < es.len() ==> (#[trigger] es[i]).seq <= (#[trigger] es[j]).seq
}

/// Whether `sorted` holds the events of `es` in the order of their sequence numbers,
/// those that share a number in the order they had.
pub open spec fn stably_sorted(es: Seq<EventView>, sorted: Seq<EventView>) -> bool {
    &&& in_order(sorted)
    &&& forall|s: u64| #[trigger] of_seq(sorted, s) == of_seq(es, s)
}

/// One summary per bucket of an axis, ordered by bucket.
#[derive(Clone, Debug, PartialEq, Eq)]
pub struct Breakdown {
    /// The axis.
    pub dimension: SplitBy,
    /// The buckets, each with its summary, in the order of their keys.
    pub buckets: Vec<(String, Metrics)>,
}

impl View for Breakdown {
    type V = Seq<(Seq<char>, Metrics)>;

    open spec fn view(&self) -> Seq<(Seq<char>, Metrics)> {
        self.buckets@.map_values(|b: (String, Metrics)| (b.0@, b.1))
    }
}

/// Whether the buckets stand in strictly ascending order.
pub open spec fn keys_ascend(b: Seq<(Seq<char>, Metrics)>) -> bool {
    forall|i: int, j: int|
        0 <= i < j < b.len() ==> text::before((#[trigger] b[i]).0, (#[trigger] b[j]).0)
}

/// Whether a bucket of the given key is there.
pub open spec fn has_key(b: Seq<(Seq<char>, Metrics)>, key: Seq<char>) -> bool {
    exists|i: int| 0 <= i < b.len() && (#[trigger] b[i]).0 == key
}

/// Whether `b` is the split of the events along an axis: one bucket for each key that
/// occurs, ascending, each with the summary of the events that fall in it.
pub open spec fn splits(b: Seq<(Seq<char>, Metrics)>, es: Seq<EventView>, dimension: SplitBy) -> bool {
    &&& keys_ascend(b)
    &&& forall|i: int|
        0 <= i < b.len() ==> {
            &&& of_key(es, dimension, (#[trigger] b[i]).0).len() > 0
            &&& b[i].1.summarizes(of_key(es, dimension, b[i].0))
        }
    &&& forall|k: int|
        0 <= k < es.len() ==> has_key(b, dimension.bucket(#[trigger] es[k]))
}

impl Breakdown {
    /// How many buckets there are.
    pub fn len(&self) -> (r: usize)
        ensures
            r == self@.len(),
    {
        self.buckets.len()
    }

    /// Whether there are no buckets.
    pub fn is_empty(&self) -> (r: bool)
        ensures
            r == (self@.len() == 0),
    {
        self.buckets.len() == 0
    }

    /// The summary of a bucket, if it is there.
    pub fn get(&self, key: &str) -> (r: Option<&Metrics>)
        ensures
            match r {
                Some(m) => exists|i: int| 0 <= i < self@.len() && #[trigger] self@[i] == (key@, *m),
                None => !has_key(self@, key@),
            },
    {
        let mut i: usize = 0;
        while i < self.buckets.len()
            invariant
                i <= self.buckets@.len(),
                forall|k: int| 0 <= k < i ==> (#[trigger] self@[k]).0 != key@,
            decreases self.buckets@.len() - i,
        {
            assert(self@[i as int] == (self.buckets@[i as int].0@, self.buckets@[i as int].1));
            if text::same(self.buckets[i].0.as_str(), key) {
                return Some(&self.buckets[i].1);
            }
            i = i + 1;
        }
        None
    }

    /// Whether a bucket of the given key is there.
    pub fn contains_key(&self, key: &str) -> (r: bool)
        ensures
            r == has_key(self@, key@),
    {
        self.get(key).is_some()
    }

    /// The bucket with the most payload bytes; of several, the last.
    pub fn busiest(&self) -> (r: Option<(&String, &Metrics)>)
        ensures
            match r {
                None => self@.len() == 0,
                Some((key, m)) => exists|i: int|
                    {
                        &&& 0 <= i < self@.len()
                        &&& #[trigger] self@[i] == (key@, *m)
                        &&& forall|j: int|
                            0 <= j < self@.len() ==> (#[trigger] self@[j]).1.bytes <= m.bytes
                        &&& forall|j: int|
                            i < j < self@.len() ==> (#[trigger] self@[j]).1.bytes < m.bytes
                    },
            },
    {
        if self.buckets.len() == 0 {
            return None;
        }
        let mut best: usize = 0;
        let mut i: usize = 1;
        while i < self.buckets.len()
            invariant
                best < i <= self.buckets@.len(),
                forall|j: int|
                    0 <= j < i ==> (#[trigger] self@[j]).1.bytes <= self@[best as int].1.bytes,
                forall|j: int|
                    best < j < i ==> (#[trigger] self@[j]).1.bytes < self@[best as int].1.bytes,
            decreases self.buckets@.len() - i,
        {
            assert(self@[i as int].1 == self.buckets@[i as int].1);
            assert(self@[best as int].1 == self.buckets@[best as int].1);
            if self.buckets[i].1.bytes >= self.buckets[best].1.bytes {
                best = i;
            }
            i = i + 1;
        }
        let b = &self.buckets[best];
        assert(self@[best as int] == (b.0@, b.1));
        Some((&b.0, &b.1))
    }
}

/// Filtering events one at a time.
proof fn filter_push(es: Seq<EventView>, e: EventView, keep: spec_fn(EventView) -> bool)
    ensures
        es.push(e).filter(keep) == if keep(e) {
            es.filter(keep).push(e)
        } else {
            es.filter(keep)
        },
{
    reveal(Seq::filter);
    assert(es.push(e).drop_last() =~= es);
}

/// Nothing is kept of events that are all to be dropped.
proof fn filter_none(es: Seq<EventView>, keep: spec_fn(EventView) -> bool)
    requires
        forall|i: int| 0 <= i < es.len() ==> !keep(#[trigger] es[i]),
    ensures
        es.filter(keep) == Seq::<EventView>::empty(),
    decreases es.len(),
{
    reveal(Seq::filter);
    if es.len() > 0 {
        filter_none(es.drop_last(), keep);
    }
}

/// Placing an event behind all that do not come after it keeps a stable sort.
proof fn placed_stably(es: Seq<EventView>, sorted: Seq<EventView>, e: EventView, p: int)
    requires
        stably_sorted(es, sorted),
        0 <= p <= sorted.len(),
        forall|i: int| 0 <= i < p ==> (#[trigger] sorted[i]).seq <= e.seq,
        forall|i: int| p <= i < sorted.len() ==> e.seq < (#[trigger] sorted[i]).seq,
    ensures
        stably_sorted(es.push(e), sorted.insert(p, e)),
{
    let more = sorted.insert(p, e);
    let front = sorted.take(p);
    let back = sorted.skip(p);
    assert(more =~= front.push(e) + back);
    assert(sorted =~= front + back);
    assert forall|s: u64| #[trigger] of_seq(more, s) == of_seq(es.push(e), s) by {
        let keep = |x: EventView| x.seq == s;
        filter_push(es, e, keep);
        filter_push(front, e, keep);
        Seq::filter_distributes_over_add(front.push(e), back, keep);
        Seq::filter_distributes_over_add(front, back, keep);
        assert(of_seq(sorted, s) == of_seq(es, s));
        if s == e.seq {
            filter_none(back, keep);
            assert(front.filter(keep).push(e) + Seq::<EventView>::empty() =~= front.filter(keep).push(e));
            assert(front.filter(keep) + Seq::<EventView>::empty() =~= front.filter(keep));
        }
    }
    assert forall|i: int, j: int| 0 <= i < j < more.len() implies (#[trigger] more[i]).seq <= (
    #[trigger] more[j]).seq by {
        let a = if i < p {
            sorted[i]
        } else if i == p {
            e
        } else {
            sorted[i - 1]
        };
        let b = if j < p {
            sorted[j]
        } else if j == p {
            e
        } else {
            sorted[j - 1]
        };
        assert(more[i] == a && more[j] == b);
    }
}

/// A kept part of events is no longer and moves no more payload than all.
proof fn filter_is_smaller(es: Seq<EventView>, keep: spec_fn(EventView) -> bool)
    ensures
        es.filter(keep).len() <= es.len(),
        metrics::payload_sum(es.filter(keep)) <= metrics::payload_sum(es),
    decreases es.len(),
{
    reveal(Seq::filter);
    if es.len() > 0 {
        filter_is_smaller(es.drop_last(), keep);
        if keep(es.last()) {
            assert(es.filter(keep).drop_last() =~= es.drop_last().filter(keep));
        }
    }
}

/// A bucket's summary has room for one more event where the whole stream has.
proof fn bucket_has_room(
    b: Seq<(Seq<char>, Metrics)>,
    es: Seq<EventView>,
    dimension: SplitBy,
    p: int,
    e: EventView,
)
    requires
        splits(b, es, dimension),
        0 <= p < b.len(),
        metrics::payload_sum(es.push(e)) <= u64::MAX,
        es.len() < u64::MAX,
    ensures
        b[p].1.has_room(e),
{
    assert(es.push(e).drop_last() =~= es);
    filter_is_smaller(es, |x: EventView| dimension.bucket(x) == b[p].0);
    metrics::counts_are_bounded(of_key(es, dimension, b[p].0));
}

/// A split stays one when an event's own bucket counts it.
proof fn grown(
    b: Seq<(Seq<char>, Metrics)>,
    es: Seq<EventView>,
    dimension: SplitBy,
    p: int,
    e: EventView,
    m: Metrics,
)
    requires
        splits(b, es, dimension),
        0 <= p < b.len(),
        b[p].0 == dimension.bucket(e),
        m.summarizes(of_key(es, dimension, b[p].0).push(e)),
    ensures
        splits(b.update(p, (b[p].0, m)), es.push(e), dimension),
{
    let c = b.update(p, (b[p].0, m));
    let more = es.push(e);
    assert forall|i: int| 0 <= i < c.len() implies {
        &&& of_key(more, dimension, (#[trigger] c[i]).0).len() > 0
        &&& c[i].1.summarizes(of_key(more, dimension, c[i].0))
    } by {
        filter_push(es, e, |x: EventView| dimension.bucket(x) == c[i].0);
        assert(c[i].0 == b[i].0);
        if i != p {
            if i < p {
                text::order_is_strict(b[i].0, b[p].0);
            } else {
                text::order_is_strict(b[p].0, b[i].0);
            }
        }
    }
    assert forall|k: int| 0 <= k < more.len() implies has_key(
        c,
        dimension.bucket(#[trigger] more[k]),
    ) by {
        if k < es.len() {
            assert(has_key(b, dimension.bucket(es[k])));
            let i = choose|i: int| 0 <= i < b.len() && (#[trigger] b[i]).0 == dimension.bucket(es[k]);
            assert(c[i].0 == b[i].0);
        } else {
            assert(c[p].0 == dimension.bucket(e));
        }
    }
    assert(keys_ascend(c)) by {
        assert forall|i: int, j: int| 0 <= i < j < c.len() implies text::before(
            (#[trigger] c[i]).0,
            (#[trigger] c[j]).0,
        ) by {
            assert(c[i].0 == b[i].0 && c[j].0 == b[j].0);
        }
    }
}

/// A new bucket in its place keeps the keys ascending, and its key was not there.
proof fn opened_ascends(b: Seq<(Seq<char>, Metrics)>, p: int, key: Seq<char>, m: Metrics)
    requires
        keys_ascend(b),
        0 <= p <= b.len(),
        forall|i: int| 0 <= i < p ==> text::before((#[trigger] b[i]).0, key),
        p < b.len() ==> text::before(key, b[p].0),
    ensures
        keys_ascend(b.insert(p, (key, m))),
        !has_key(b, key),
{
    let c = b.insert(p, (key, m));
    assert forall|i: int| p <= i < b.len() implies text::before(key, (#[trigger] b[i]).0) by {
        if i > p {
            text::order_is_transitive(key, b[p].0, b[i].0);
        }
    }
    assert forall|i: int| 0 <= i < b.len() implies (#[trigger] b[i]).0 != key by {
        if i < p {
            text::order_is_strict(b[i].0, key);
        } else {
            text::order_is_strict(key, b[i].0);
        }
    }
    assert forall|i: int, j: int| 0 <= i < j < c.len() implies text::before(
        (#[trigger] c[i]).0,
        (#[trigger] c[j]).0,
    ) by {
        if j < p {
            assert(c[i] == b[i] && c[j] == b[j]);
        } else if i < p && j == p {
            assert(c[i] == b[i]);
        } else if i < p {
            assert(c[i] == b[i] && c[j] == b[j - 1]);
        } else if i == p {
            assert(c[j] == b[j - 1]);
        } else {
            assert(c[i] == b[i - 1] && c[j] == b[j - 1]);
        }
    }
}

/// A new bucket leaves the others in place.
proof fn opened_keeps(b: Seq<(Seq<char>, Metrics)>, p: int, key: Seq<char>, m: Metrics, k: Seq<char>)
    requires
        0 <= p <= b.len(),
        has_key(b, k) || k == key,
    ensures
        has_key(b.insert(p, (key, m)), k),
{
    let c = b.insert(p, (key, m));
    if has_key(b, k) {
        let i = choose|i: int| 0 <= i < b.len() && (#[trigger] b[i]).0 == k;
        if i < p {
            assert(c[i] == b[i]);
        } else {
            assert(c[i + 1] == b[i]);
        }
    } else {
        assert(c[p].0 == key);
    }
}

/// A split stays one when an event opens a bucket of its own, in its place.
proof fn opened(
    b: Seq<(Seq<char>, Metrics)>,
    es: Seq<EventView>,
    dimension: SplitBy,
    p: int,
    e: EventView,
    m: Metrics,
)
    requires
        splits(b, es, dimension),
        0 <= p <= b.len(),
        forall|i: int| 0 <= i < p ==> text::before((#[trigger] b[i]).0, dimension.bucket(e)),
        p < b.len() ==> text::before(dimension.bucket(e), b[p].0),
        m.summarizes(Seq::empty().push(e)),
    ensures
        splits(b.insert(p, (dimension.bucket(e), m)), es.push(e), dimension),
{
    let key = dimension.bucket(e);
    let c = b.insert(p, (key, m));
    let more = es.push(e);
    opened_ascends(b, p, key, m);
    let keep = |x: EventView| dimension.bucket(x) == key;
    assert forall|k: int| 0 <= k < es.len() implies !keep(#[trigger] es[k]) by {
        assert(has_key(b, dimension.bucket(es[k])));
    }
    filter_none(es, keep);
    assert forall|i: int| 0 <= i < c.len() implies {
        &&& of_key(more, dimension, (#[trigger] c[i]).0).len() > 0
        &&& c[i].1.summarizes(of_key(more, dimension, c[i].0))
    } by {
        filter_push(es, e, |x: EventView| dimension.bucket(x) == c[i].0);
        if i < p {
            assert(c[i] == b[i]);
        } else if i > p {
            assert(c[i] == b[i - 1]);
        } else {
            assert(c[i] == (key, m));
        }
        if i != p {
            assert(c[i].0 != key);
        }
    }
    assert forall|k: int| 0 <= k < more.len() implies has_key(
        c,
        dimension.bucket(#[trigger] more[k]),
    ) by {
        if k < es.len() {
            assert(has_key(b, dimension.bucket(es[k])));
        }
        opened_keeps(b, p, key, m, dimension.bucket(more[k]));
    }
}

/// The sum of one count over the buckets of some keys.
pub open spec fn bytes_over(ks: Seq<Seq<char>>, es: Seq<EventView>, dimension: SplitBy) -> nat
    decreases ks.len(),
{
    if ks.len() == 0 {
        0
    } else {
        bytes_over(ks.drop_last(), es, dimension) + metrics::payload_sum(
            of_key(es, dimension, ks.last()),
        )
    }
}

/// The number of events over the buckets of some keys.
pub open spec fn events_over(ks: Seq<Seq<char>>, es: Seq<EventView>, dimension: SplitBy) -> nat
    decreases ks.len(),
{
    if ks.len() == 0 {
        0
    } else {
        events_over(ks.drop_last(), es, dimension) + of_key(es, dimension, ks.last()).len()
    }
}

/// The number of failures over the buckets of some keys.
pub open spec fn failures_over(ks: Seq<Seq<char>>, es: Seq<EventView>, dimension: SplitBy) -> nat
    decreases ks.len(),
{
    if ks.len() == 0 {
        0
    } else {
        failures_over(ks.drop_last(), es, dimension) + metrics::failure_count(
            of_key(es, dimension, ks.last()),
        )
    }
}

/// The number of warnings over the buckets of some keys.
pub open spec fn warnings_over(ks: Seq<Seq<char>>, es: Seq<EventView>, dimension: SplitBy) -> nat
    decreases ks.len(),
{
    if ks.len() == 0 {
        0
    } else {
        warnings_over(ks.drop_last(), es, dimension) + metrics::warning_count(
            of_key(es, dimension, ks.last()),
        )
    }
}

/// What one more event adds to the sums over keys that hold its key at most once.
proof fn sums_push(ks: Seq<Seq<char>>, es: Seq<EventView>, dimension: SplitBy, e: EventView)
    requires
        forall|i: int, j: int| 0 <= i < j < ks.len() ==> #[trigger] ks[i] != #[trigger] ks[j],
    ensures
        bytes_over(ks, es.push(e), dimension) == bytes_over(ks, es, dimension) + if ks.contains(
            dimension.bucket(e),
        ) {
            e.kind.moved() as int
        } else {
            0
        },
        events_over(ks, es.push(e), dimension) == events_over(ks, es, dimension) + if ks.contains(
            dimension.bucket(e),
        ) {
            1int
        } else {
            0
        },
        failures_over(ks, es.push(e), dimension) == failures_over(ks, es, dimension)
            + if ks.contains(dimension.bucket(e)) && e.kind.failure() {
            1int
        } else {
            0
        },
        warnings_over(ks, es.push(e), dimension) == warnings_over(ks, es, dimension)
            + if ks.contains(dimension.bucket(e)) && e.kind is Warning {
            1int
        } else {
            0
        },
    decreases ks.len(),
{
    if ks.len() > 0 {
        let front = ks.drop_last();
        let key = dimension.bucket(e);
        assert forall|i: int, j: int| 0 <= i < j < front.len() implies #[trigger] front[i]
            != #[trigger] front[j] by {
            assert(front[i] == ks[i] && front[j] == ks[j]);
        }
        sums_push(front, es, dimension, e);
        filter_push(es, e, |x: EventView| dimension.bucket(x) == ks.last());
        let part = of_key(es, dimension, ks.last());
        assert(part.push(e).drop_last() =~= part);
        if ks.last() == key {
            assert(ks[ks.len() - 1] == key);
            assert(!front.contains(key)) by {
                if front.contains(key) {
                    let i = choose|i: int| 0 <= i < front.len() && front[i] == key;
                    assert(ks[i] == ks[ks.len() - 1]);
                }
            }
            assert(ks.contains(key));
        } else {
            assert(ks.contains(key) <==> front.contains(key)) by {
                if ks.contains(key) {
                    let i = choose|i: int| 0 <= i < ks.len() && ks[i] == key;
                    assert(front[i] == key);
                }
                if front.contains(key) {
                    let i = choose|i: int| 0 <= i < front.len() && front[i] == key;
                    assert(ks[i] == key);
                }
            }
        }
    }
}

/// Over distinct keys that cover all events, the sums are those of the whole stream.
proof fn sums_cover(ks: Seq<Seq<char>>, es: Seq<EventView>, dimension: SplitBy)
    requires
        forall|i: int, j: int| 0 <= i < j < ks.len() ==> #[trigger] ks[i] != #[trigger] ks[j],
        forall|k: int| 0 <= k < es.len() ==> ks.contains(dimension.bucket(#[trigger] es[k])),
    ensures
        bytes_over(ks, es, dimension) == metrics::payload_sum(es),
        events_over(ks, es, dimension) == es.len(),
        failures_over(ks, es, dimension) == metrics::failure_count(es),
        warnings_over(ks, es, dimension) == metrics::warning_count(es),
    decreases es.len(),
{
    if es.len() == 0 {
        sums_of_nothing(ks, es, dimension);
    } else {
        let front = es.drop_last();
        assert forall|k: int| 0 <= k < front.len() implies ks.contains(
            dimension.bucket(#[trigger] front[k]),
        ) by {
            assert(front[k] == es[k]);
        }
        sums_cover(ks, front, dimension);
        sums_push(ks, front, dimension, es.last());
        assert(front.push(es.last()) =~= es);
        assert(ks.contains(dimension.bucket(es[es.len() - 1])));
    }
}

proof fn sums_of_nothing(ks: Seq<Seq<char>>, es: Seq<EventView>, dimension: SplitBy)
    requires
        es.len() == 0,
    ensures
        bytes_over(ks, es, dimension) == 0,
        events_over(ks, es, dimension) == 0,
        failures_over(ks, es, dimension) == 0,
        warnings_over(ks, es, dimension) == 0,
    decreases ks.len(),
{
    if ks.len() > 0 {
        sums_of_nothing(ks.drop_last(), es, dimension);
        filter_none(es, |x: EventView| dimension.bucket(x) == ks.last());
    }
}

/// The keys of a split.
pub open spec fn keys_of(b: Seq<(Seq<char>, Metrics)>) -> Seq<Seq<char>> {
    b.map_values(|x: (Seq<char>, Metrics)| x.0)
}

/// A split loses nothing and counts nothing twice: along every axis the buckets'
/// events, bytes, failures and warnings add up to those of the whole stream.
pub proof fn split_partitions(b: Seq<(Seq<char>, Metrics)>, es: Seq<EventView>, dimension: SplitBy)
    requires
        splits(b, es, dimension),
    ensures
        events_over(keys_of(b), es, dimension) == es.len(),
        bytes_over(keys_of(b), es, dimension) == metrics::payload_sum(es),
        failures_over(keys_of(b), es, dimension) == metrics::failure_count(es),
        warnings_over(keys_of(b), es, dimension) == metrics::warning_count(es),
        forall|i: int|
            0 <= i < b.len() ==> (#[trigger] b[i]).1.summarizes(
                of_key(es, dimension, keys_of(b)[i]),
            ),
{
    let ks = keys_of(b);
    assert forall|i: int, j: int| 0 <= i < j < ks.len() implies #[trigger] ks[i]
        != #[trigger] ks[j] by {
        assert(text::before(b[i].0, b[j].0));
        text::order_is_strict(b[i].0, b[j].0);
    }
    assert forall|k: int| 0 <= k < es.len() implies ks.contains(
        dimension.bucket(#[trigger] es[k]),
    ) by {
        assert(has_key(b, dimension.bucket(es[k])));
        let i = choose|i: int| 0 <= i < b.len() && (#[trigger] b[i]).0 == dimension.bucket(es[k]);
        assert(ks[i] == dimension.bucket(es[k]));
    }
    sums_cover(ks, es, dimension);
}

/// Events have one summary.
pub proof fn summary_is_unique(a: Metrics, b: Metrics, es: Seq<EventView>)
    requires
        a.summarizes(es),
        b.summarizes(es),
    ensures
        a == b,
{
    if es.len() > 0 {
        let i = choose|i: int| 0 <= i < es.len() && (#[trigger] es[i]).at == a.first_at->0;
        let j = choose|j: int| 0 <= j < es.len() && (#[trigger] es[j]).at == b.first_at->0;
        assert(a.first_at->0.nanos == b.first_at->0.nanos);
        let k = choose|k: int| 0 <= k < es.len() && (#[trigger] es[k]).at == a.last_at->0;
        let l = choose|l: int| 0 <= l < es.len() && (#[trigger] es[l]).at == b.last_at->0;
        assert(a.last_at->0.nanos == b.last_at->0.nanos);
    }
}

/// The keys of a split are the buckets that its events fall in.
proof fn keys_are_buckets(
    b: Seq<(Seq<char>, Metrics)>,
    es: Seq<EventView>,
    dimension: SplitBy,
    key: Seq<char>,
)
    requires
        splits(b, es, dimension),
    ensures
        has_key(b, key) <==> exists|k: int|
            0 <= k < es.len() && dimension.bucket(#[trigger] es[k]) == key,
{
    if has_key(b, key) {
        let i = choose|i: int| 0 <= i < b.len() && (#[trigger] b[i]).0 == key;
        let keep = |x: EventView| dimension.bucket(x) == key;
        if forall|k: int| 0 <= k < es.len() ==> !keep(#[trigger] es[k]) {
            filter_none(es, keep);
            assert(of_key(es, dimension, b[i].0).len() == 0);
        }
    }
}

/// Two ascending lists of buckets with the same keys have them in the same places.
proof fn same_keys_same_places(a: Seq<(Seq<char>, Metrics)>, b: Seq<(Seq<char>, Metrics)>, n: int)
    requires
        keys_ascend(a),
        keys_ascend(b),
        forall|key: Seq<char>| #[trigger] has_key(a, key) <==> has_key(b, key),
        0 <= n <= a.len(),
    ensures
        n <= b.len(),
        forall|i: int| 0 <= i < n ==> (#[trigger] a[i]).0 == (#[trigger] b[i]).0,
    decreases n,
{
    if n > 0 {
        let m = n - 1;
        same_keys_same_places(a, b, m);
        assert(has_key(a, a[m].0));
        assert(has_key(b, a[m].0));
        let j = choose|j: int| 0 <= j < b.len() && (#[trigger] b[j]).0 == a[m].0;
        if j < m {
            assert(text::before(a[j].0, a[m].0));
            text::order_is_strict(a[j].0, a[m].0);
        }
        if j > m {
            assert(has_key(b, b[m].0));
            assert(has_key(a, b[m].0));
            let i = choose|i: int| 0 <= i < a.len() && (#[trigger] a[i]).0 == b[m].0;
            assert(text::before(b[m].0, b[j].0));
            text::order_is_strict(b[m].0, b[j].0);
            if i < m {
                assert(b[i].0 == a[i].0);
                assert(text::before(b[i].0, b[m].0));
                text::order_is_strict(b[i].0, b[m].0);
            } else if i > m {
                assert(text::before(a[m].0, a[i].0));
                text::order_is_strict(a[m].0, a[i].0);
            }
        }
    }
}

/// Events have one split along an axis.
pub proof fn split_is_unique(
    a: Seq<(Seq<char>, Metrics)>,
    b: Seq<(Seq<char>, Metrics)>,
    es: Seq<EventView>,
    dimension: SplitBy,
)
    requires
        splits(a, es, dimension),
        splits(b, es, dimension),
    ensures
        a == b,
{
    assert forall|key: Seq<char>| #[trigger] has_key(a, key) <==> has_key(b, key) by {
        keys_are_buckets(a, es, dimension, key);
        keys_are_buckets(b, es, dimension, key);
    }
    same_keys_same_places(a, b, a.len() as int);
    same_keys_same_places(b, a, b.len() as int);
    assert forall|i: int| 0 <= i < a.len() implies a[i] == b[i] by {
        assert(a[i].0 == b[i].0);
        summary_is_unique(a[i].1, b[i].1, of_key(es, dimension, a[i].0));
    }
    assert(a =~= b);
}

/// A flagged concern.
#[derive(Clone, Debug, PartialEq, Eq)]
pub struct Anomaly {
    /// A stable short code.
    pub code: String,
    /// What happened, with its context.
    pub detail: String,
    /// The sequence number of the event behind it.
    pub seq: u64,
}

/// What an [`Anomaly`] holds.
pub struct AnomalyView {
    pub code: Seq<char>,
    pub detail: Seq<char>,
    pub seq: u64,
}

impl View for Anomaly {
    type V = AnomalyView;

    open spec fn view(&self) -> AnomalyView {
        AnomalyView { code: self.code@, detail: self.detail@, seq: self.seq }
    }
}

/// The concern that an event raises, if it raises one.
pub open spec fn concern(e: EventView) -> Option<AnomalyView> {
    match e.kind {
        KindView::Error { detail } => Some(
            AnomalyView {
                code: "error"@,
                detail: detail + " (peer "@ + e.origin.peer.words() + ", controller "@
                    + e.origin.local.words() + ")"@,
                seq: e.seq,
            },
        ),
        KindView::PairingFailed { reason } => Some(
            AnomalyView {
                code: "pairing-failed"@,
                detail: reason + " (peer "@ + e.origin.peer.words() + ")"@,
                seq: e.seq,
            },
        ),
        KindView::Warning { code, detail } => Some(
            AnomalyView {
                code,
                detail: detail + " (peer "@ + e.origin.peer.words() + ")"@,
                seq: e.seq,
            },
        ),
        _ => None,
    }
}

/// The concerns that events raise, in order.
pub open spec fn concerns(es: Seq<EventView>) -> Seq<AnomalyView>
    decreases es.len(),
{
    if es.len() == 0 {
        Seq::empty()
    } else {
        match concern(es.last()) {
            Some(a) => concerns(es.drop_last()).push(a),
            None => concerns(es.drop_last()),
        }
    }
}

/// A list of anomalies as plain values.
pub open spec fn anomalies_view(v: Seq<Anomaly>) -> Seq<AnomalyView> {
    v.map_values(|a: Anomaly| a@)
}

/// Every failure and every warning raises one concern, and nothing else does.
pub proof fn concerns_are_failures_and_warnings(es: Seq<EventView>)
    ensures
        concerns(es).len() == metrics::failure_count(es) + metrics::warning_count(es),
    decreases es.len(),
{
    if es.len() > 0 {
        concerns_are_failures_and_warnings(es.drop_last());
    }
}

/// Concerns stand in the order of their sequence numbers where the events do.
pub proof fn concerns_in_order(es: Seq<EventView>)
    requires
        in_order(es),
    ensures
        forall|i: int, j: int|
            0 <= i < j < concerns(es).len() ==> (#[trigger] concerns(es)[i]).seq <= (
            #[trigger] concerns(es)[j]).seq,
        forall|i: int|
            0 <= i < concerns(es).len() ==> (#[trigger] concerns(es)[i]).seq <= es.last().seq,
    decreases es.len(),
{
    if es.len() > 0 {
        let front = es.drop_last();
        assert(in_order(front)) by {
            assert forall|i: int, j: int| 0 <= i < j < front.len() implies (
            #[trigger] front[i]).seq <= (#[trigger] front[j]).seq by {
                assert(front[i] == es[i] && front[j] == es[j]);
            }
        }
        concerns_in_order(front);
        let c = concerns(front);
        assert forall|i: int| 0 <= i < c.len() implies (#[trigger] c[i]).seq <= es.last().seq by {
            assert(front.last() == es[es.len() - 2]);
            assert(es[es.len() - 2].seq <= es[es.len() - 1].seq);
        }
        if concern(es.last()) is Some {
            let d = concerns(es);
            assert forall|i: int, j: int| 0 <= i < j < d.len() implies (#[trigger] d[i]).seq <= (
            #[trigger] d[j]).seq by {
                assert(d[i] == c[i]);
                if j < c.len() {
                    assert(d[j] == c[j]);
                }
            }
        }
    }
}

/// Analyzes a captured event stream.
#[derive(Clone, Debug)]
pub struct Analyzer {
    events: Vec<TransitEvent>,
}

impl View for Analyzer {
    type V = Seq<EventView>;

    /// The events, in the order of their sequence numbers.
    closed spec fn view(&self) -> Seq<EventView> {
        event::events_view(self.events@)
    }
}

fn described(detail: &str, peer: &str) -> (r: String)
    ensures
        r@ == detail@ + " (peer "@ + peer@ + ")"@,
{
    let mut t = detail.to_owned();
    t.append(" (peer ");
    t.append(peer);
    t.append(")");
    t
}

impl Analyzer {
    /// Sorts the events by sequence number; those that share one keep their order.
    pub fn new(events: Vec<TransitEvent>) -> (r: Analyzer)
        ensures
            stably_sorted(event::events_view(events@), r@),
            r@.to_multiset() == event::events_view(events@).to_multiset(),
    {
        let ghost all = event::events_view(events@);
        let mut sorted: Vec<TransitEvent> = Vec::new();
        assert(event::events_view(sorted@) =~= all.take(0));
        for e in it: events
            invariant
                event::events_view(it.seq()) == all,
                sorted@.len() == it.index(),
                stably_sorted(all.take(it.index() as int), event::events_view(sorted@)),
                event::events_view(sorted@).to_multiset() == all.take(
                    it.index() as int,
                ).to_multiset(),
        {
            let ghost done = event::events_view(sorted@);
            let ghost n = sorted@.len() as int;
            assert(e@ == all[n]);
            let mut p: usize = sorted.len();
            while p > 0 && sorted[p - 1].seq > e.seq
                invariant
                    p <= sorted@.len(),
                    done == event::events_view(sorted@),
                    in_order(done),
                    forall|i: int| p <= i < done.len() ==> e@.seq < (#[trigger] done[i]).seq,
                decreases p,
            {
                assert(done[p - 1] == sorted@[p - 1]@);
                p = p - 1;
            }
            proof {
                assert forall|i: int| 0 <= i < p implies (#[trigger] done[i]).seq <= e@.seq by {
                    assert(done[p - 1] == sorted@[p - 1]@);
                    if i < p - 1 {
                        assert(done[i].seq <= done[p - 1].seq);
                    }
                }
                placed_stably(all.take(n), done, e@, p as int);
                assert(all.take(n + 1) =~= all.take(n).push(e@));
                all.take(n).to_multiset_ensures();
                vstd::seq_lib::to_multiset_insert(done, p as int, e@);
            }
            sorted.insert(p, e);
            assert(event::events_view(sorted@) =~= done.insert(p as int, e@));
        }
        assert(all.take(all.len() as int) =~= all);
        Analyzer { events: sorted }
    }

    /// Analyzes what a recorder holds.
    pub fn from_recorder(recorder: &Recorder) -> (r: Analyzer)
        ensures
            stably_sorted(recorder@, r@),
            r@.to_multiset() == recorder@.to_multiset(),
    {
        Analyzer::new(recorder.events())
    }

    /// How many events are analyzed.
    pub fn event_count(&self) -> (r: usize)
        ensures
            r == self@.len(),
    {
        self.events.len()
    }

    /// The events, in the order of their sequence numbers.
    pub fn events(&self) -> (r: &[TransitEvent])
        ensures
            event::events_view(r@) == self@,
    {
        self.events.as_slice()
    }

    /// The summary of the whole stream.
    pub fn total(&self) -> (r: Metrics)
        requires
            metrics::payload_sum(self@) <= u64::MAX,
        ensures
            r.summarizes(self@),
    {
        Metrics::from_events(self.events.as_slice())
    }

    /// The stream split along an axis.
    pub fn breakdown(&self, dimension: SplitBy) -> (r: Breakdown)
        requires
            metrics::payload_sum(self@) <= u64::MAX,
        ensures
            r.dimension == dimension,
            splits(r@, self@, dimension),
    {
        let ghost all = self@;
        let mut r = Breakdown { dimension, buckets: Vec::new() };
        let mut i: usize = 0;
        assert(all.take(0) =~= Seq::empty());
        while i < self.events.len()
            invariant
                i <= self.events@.len(),
                all == self@,
                metrics::payload_sum(all) <= u64::MAX,
                r.dimension == dimension,
                splits(r@, all.take(i as int), dimension),
            decreases self.events@.len() - i,
        {
            assert(all.take(i + 1) =~= all.take(i as int).push(all[i as int]));
            proof {
                metrics::prefix_sum_is_smaller(all, i + 1);
                assert(all.take(i + 1).drop_last() =~= all.take(i as int));
            }
            count_in_bucket(&mut r, &self.events[i], Ghost(all.take(i as int)));
            i = i + 1;
        }
        assert(all.take(i as int) =~= all);
        r
    }

    /// Every failure and warning, in the order of sequence numbers.
    pub fn anomalies(&self) -> (r: Vec<Anomaly>)
        ensures
            anomalies_view(r@) == concerns(self@),
    {
        let ghost all = self@;
        let mut out: Vec<Anomaly> = Vec::new();
        let mut i: usize = 0;
        assert(all.take(0) =~= Seq::empty());
        assert(anomalies_view(out@) =~= Seq::empty());
        while i < self.events.len()
            invariant
                i <= self.events@.len(),
                all == self@,
                anomalies_view(out@) == concerns(all.take(i as int)),
            decreases self.events@.len() - i,
        {
            let e = &self.events[i];
            let ghost before = out@;
            assert(all.take(i + 1).drop_last() =~= all.take(i as int));
            assert(all.take(i + 1).last() == e@);
            let peer = e.origin.peer.to_string();
            match &e.kind {
                TransitEventKind::Error { detail } => {
                    let mut t = detail.clone();
                    t.append(" (peer ");
                    t.append(peer.as_str());
                    t.append(", controller ");
                    t.append(e.origin.local.label().as_str());
                    t.append(")");
                    out.push(Anomaly { code: "error".to_owned(), detail: t, seq: e.seq });
                    assert(anomalies_view(out@) =~= anomalies_view(before).push(concern(e@)->0));
                },
                TransitEventKind::PairingFailed { reason } => {
                    let t = described(reason.as_str(), peer.as_str());
                    out.push(Anomaly { code: "pairing-failed".to_owned(), detail: t, seq: e.seq });
                    assert(anomalies_view(out@) =~= anomalies_view(before).push(concern(e@)->0));
                },
                TransitEventKind::Warning { code, detail } => {
                    let t = described(detail.as_str(), peer.as_str());
                    out.push(Anomaly { code: code.clone(), detail: t, seq: e.seq });
                    assert(anomalies_view(out@) =~= anomalies_view(before).push(concern(e@)->0));
                },
                _ => {},
            }
            i = i + 1;
        }
        assert(all.take(i as int) =~= all);
        out
    }
}

/// What an event adds to a split: its bucket's summary, in a new bucket where needed.
fn count_in_bucket(r: &mut Breakdown, event: &TransitEvent, Ghost(es): Ghost<Seq<EventView>>)
    requires
        splits(old(r)@, es, old(r).dimension),
        metrics::payload_sum(es.push(event@)) <= u64::MAX,
        es.len() < u64::MAX,
    ensures
        final(r).dimension == old(r).dimension,
        splits(final(r)@, es.push(event@), old(r).dimension),
{
    let key = r.dimension.key(event);
    let ghost dimension = r.dimension;
    let ghost before = r@;
    let mut p: usize = 0;
    while p < r.buckets.len() && text::comes_before(r.buckets[p].0.as_str(), key.as_str())
        invariant
            p <= r.buckets@.len(),
            before == r@,
            forall|i: int| 0 <= i < p ==> text::before((#[trigger] before[i]).0, key@),
        decreases r.buckets@.len() - p,
    {
        assert(before[p as int].0 == r.buckets@[p as int].0@);
        p = p + 1;
    }
    if p < r.buckets.len() && text::same(r.buckets[p].0.as_str(), key.as_str()) {
        assert(before[p as int] == (r.buckets@[p as int].0@, r.buckets@[p as int].1));
        let mut m: Metrics = r.buckets[p].1;
        proof {
            bucket_has_room(before, es, dimension, p as int, event@);
        }
        m.record(event);
        let ghost name = r.buckets@[p as int].0@;
        r.buckets[p].1 = m;
        proof {
            assert(r@ =~= before.update(p as int, (name, m)));
            grown(before, es, dimension, p as int, event@, m);
        }
    } else {
        let mut m = Metrics::default();
        proof {
            assert(es.push(event@).drop_last() =~= es);
        }
        m.record(event);
        proof {
            if p < before.len() {
                assert(before[p as int].0 == r.buckets@[p as int].0@);
                text::order_is_total(before[p as int].0, key@);
            }
            opened(before, es, dimension, p as int, event@, m);
        }
        r.buckets.insert(p, (key, m));
        assert(r@ =~= before.insert(p as int, (dimension.bucket(event@), m)));
    }
}

} // verus!
