//! Summaries of sets of events, and the axes to split them by.
use vstd::prelude::*;
use crate::event;
use crate::event::{EventView, TransitEvent, TransitEventKind};
use crate::time::{Duration, Timestamp};

verus! {

/// An axis to split an event stream along.
#[derive(Clone, Copy, Debug, PartialEq, Eq, Structural, Hash, PartialOrd, Ord)]
pub enum SplitBy {
    /// The local controller hardware.
    Controller,
    /// The Bluetooth specification context.
    Spec,
    /// The radio.
    Transport,
    /// The IEEE 802.15.x radio standard.
    RadioStandard,
    /// The 802.1X port state.
    PortAuth,
    /// The kind of event.
    EventKind,
    /// The remote peer.
    Peer,
}

impl SplitBy {
    /// The heading of the axis.
    pub open spec fn heading(self) -> Seq<char> {
        match self {
            SplitBy::Controller => "Controller hardware"@,
            SplitBy::Spec => "Bluetooth specification"@,
            SplitBy::Transport => "Transport"@,
            SplitBy::RadioStandard => "IEEE 802.15.x radio standard"@,
            SplitBy::PortAuth => "IEEE 802.1X port-auth state"@,
            SplitBy::EventKind => "Event kind"@,
            SplitBy::Peer => "Peer device"@,
        }
    }

    /// The bucket that an event falls in.
    pub open spec fn bucket(self, e: EventView) -> Seq<char> {
        match self {
            SplitBy::Controller => e.origin.local.words(),
            SplitBy::Spec => e.origin.spec.words(),
            SplitBy::Transport => e.origin.spec.transport.words(),
            SplitBy::RadioStandard => e.origin.standards.radio.designation(),
            SplitBy::PortAuth => e.origin.standards.port_auth.words(),
            SplitBy::EventKind => e.kind.word(),
            SplitBy::Peer => e.origin.peer.words(),
        }
    }

    /// The heading of the axis.
    pub fn title(self) -> (r: &'static str)
        ensures
            r@ == self.heading(),
    {
        match self {
            SplitBy::Controller => "Controller hardware",
            SplitBy::Spec => "Bluetooth specification",
            SplitBy::Transport => "Transport",
            SplitBy::RadioStandard => "IEEE 802.15.x radio standard",
            SplitBy::PortAuth => "IEEE 802.1X port-auth state",
            SplitBy::EventKind => "Event kind",
            SplitBy::Peer => "Peer device",
        }
    }

    /// The bucket that the event falls in.
    pub fn key(self, event: &TransitEvent) -> (r: String)
        ensures
            r@ == self.bucket(event@),
    {
        match self {
            SplitBy::Controller => event.origin.local.label(),
            SplitBy::Spec => event.origin.spec.to_string(),
            SplitBy::Transport => event.origin.spec.transport.to_string(),
            SplitBy::RadioStandard => event.origin.standards.radio.dotted().to_owned(),
            SplitBy::PortAuth => event.origin.standards.port_auth.to_string(),
            SplitBy::EventKind => event.kind.label().to_owned(),
            SplitBy::Peer => event.origin.peer.to_string(),
        }
    }
}

/// The payload bytes that events moved in all.
pub open spec fn payload_sum(es: Seq<EventView>) -> nat
    decreases es.len(),
{
    if es.len() == 0 {
        0
    } else {
        payload_sum(es.drop_last()) + es.last().kind.moved() as nat
    }
}

/// How many events are failures.
pub open spec fn failure_count(es: Seq<EventView>) -> nat
    decreases es.len(),
{
    if es.len() == 0 {
        0
    } else {
        failure_count(es.drop_last()) + if es.last().kind.failure() {
            1nat
        } else {
            0
        }
    }
}

/// How many events are warnings.
pub open spec fn warning_count(es: Seq<EventView>) -> nat
    decreases es.len(),
{
    if es.len() == 0 {
        0
    } else {
        warning_count(es.drop_last()) + if es.last().kind is Warning {
            1nat
        } else {
            0
        }
    }
}

/// Whether `t` is the time of an event and none came before it.
pub open spec fn is_earliest(es: Seq<EventView>, t: Option<Timestamp>) -> bool {
    match t {
        None => es.len() == 0,
        Some(t) => (exists|i: int| 0 <= i < es.len() && (#[trigger] es[i]).at == t) && forall|
            i: int,
        |
            0 <= i < es.len() ==> t.nanos <= (#[trigger] es[i]).at.nanos,
    }
}

/// Whether `t` is the time of an event and none came after it.
pub open spec fn is_latest(es: Seq<EventView>, t: Option<Timestamp>) -> bool {
    match t {
        None => es.len() == 0,
        Some(t) => (exists|i: int| 0 <= i < es.len() && (#[trigger] es[i]).at == t) && forall|
            i: int,
        |
            0 <= i < es.len() ==> (#[trigger] es[i]).at.nanos <= t.nanos,
    }
}

/// A summary of a set of events.
#[derive(Clone, Copy, Debug, PartialEq, Eq)]
pub struct Metrics {
    /// How many events.
    pub events: u64,
    /// Payload bytes moved.
    pub bytes: u64,
    /// How many failures.
    pub failures: u64,
    /// How many warnings.
    pub warnings: u64,
    /// The time of the earliest event, if any.
    pub first_at: Option<Timestamp>,
    /// The time of the latest event, if any.
    pub last_at: Option<Timestamp>,
}

impl Default for Metrics {
    fn default() -> (r: Metrics)
        ensures
            r.summarizes(Seq::empty()),
    {
        Metrics { events: 0, bytes: 0, failures: 0, warnings: 0, first_at: None, last_at: None }
    }
}

impl Metrics {
    /// Whether this is the summary of the given events.
    pub open spec fn summarizes(self, es: Seq<EventView>) -> bool {
        &&& self.events == es.len()
        &&& self.bytes == payload_sum(es)
        &&& self.failures == failure_count(es)
        &&& self.warnings == warning_count(es)
        &&& is_earliest(es, self.first_at)
        &&& is_latest(es, self.last_at)
    }

    /// Whether another event can be counted without overflow.
    pub open spec fn has_room(self, e: EventView) -> bool {
        &&& self.events < u64::MAX
        &&& self.bytes + e.kind.moved() <= u64::MAX
        &&& self.failures < u64::MAX
        &&& self.warnings < u64::MAX
    }

    /// Counts one more event.
    pub fn record(&mut self, event: &TransitEvent)
        requires
            old(self).has_room(event@),
        ensures
            final(self).events == old(self).events + 1,
            final(self).bytes == old(self).bytes + event@.kind.moved(),
            final(self).failures == old(self).failures + if event@.kind.failure() {
                1int
            } else {
                0
            },
            final(self).warnings == old(self).warnings + if event@.kind is Warning {
                1int
            } else {
                0
            },
            final(self).first_at == Some(
                match old(self).first_at {
                    Some(t) => if t.nanos <= event@.at.nanos {
                        t
                    } else {
                        event@.at
                    },
                    None => event@.at,
                },
            ),
            final(self).last_at == Some(
                match old(self).last_at {
                    Some(t) => if t.nanos > event@.at.nanos {
                        t
                    } else {
                        event@.at
                    },
                    None => event@.at,
                },
            ),
            forall|es: Seq<EventView>| #[trigger]
                old(self).summarizes(es) ==> final(self).summarizes(es.push(event@)),
    {
        let ghost before = *self;
        self.events = self.events + 1;
        self.bytes = self.bytes + event.kind.moved_bytes();
        if event.kind.is_failure() {
            self.failures = self.failures + 1;
        }
        if let TransitEventKind::Warning { .. } = event.kind {
            self.warnings = self.warnings + 1;
        }
        let first: Timestamp = match self.first_at {
            Some(t) => if t.nanos <= event.at.nanos {
                t
            } else {
                event.at
            },
            None => event.at,
        };
        self.first_at = Some(first);
        let last: Timestamp = match self.last_at {
            Some(t) => if t.nanos > event.at.nanos {
                t
            } else {
                event.at
            },
            None => event.at,
        };
        self.last_at = Some(last);
        proof {
            assert forall|es: Seq<EventView>| #[trigger] before.summarizes(es) implies (
            *self).summarizes(es.push(event@)) by {
                let more = es.push(event@);
                assert(more.drop_last() =~= es);
                assert(more[es.len() as int] == event@);
                if before.first_at is Some {
                    let i = choose|i: int|
                        0 <= i < es.len() && (#[trigger] es[i]).at == before.first_at->0;
                    assert(more[i].at == before.first_at->0);
                    let j = choose|j: int|
                        0 <= j < es.len() && (#[trigger] es[j]).at == before.last_at->0;
                    assert(more[j].at == before.last_at->0);
                }
                assert forall|i: int| 0 <= i < more.len() implies first.nanos <= (
                #[trigger] more[i]).at.nanos && more[i].at.nanos <= last.nanos by {
                    if i < es.len() {
                        assert(more[i] == es[i]);
                    }
                }
            }
        }
    }

    /// The summary of the given events.
    pub fn from_events(events: &[TransitEvent]) -> (r: Metrics)
        requires
            payload_sum(event::events_view(events@)) <= u64::MAX,
        ensures
            r.summarizes(event::events_view(events@)),
    {
        let ghost all = event::events_view(events@);
        let mut m = Metrics::default();
        let mut i: usize = 0;
        assert(all.take(0) =~= Seq::empty());
        while i < events.len()
            invariant
                i <= events@.len(),
                all == event::events_view(events@),
                payload_sum(all) <= u64::MAX,
                m.summarizes(all.take(i as int)),
            decreases events@.len() - i,
        {
            proof {
                counts_are_bounded(all.take(i as int));
                prefix_sum_is_smaller(all, i + 1);
                assert(all.take(i + 1).drop_last() =~= all.take(i as int));
                assert(all.take(i + 1) =~= all.take(i as int).push(all[i as int]));
            }
            m.record(&events[i]);
            i = i + 1;
        }
        assert(all.take(i as int) =~= all);
        m
    }

    /// The time that the events cover.
    pub fn span(&self) -> (r: Duration)
        ensures
            r.nanos == match (self.first_at, self.last_at) {
                (Some(a), Some(b)) => if b.nanos >= a.nanos {
                    b.nanos - a.nanos
                } else {
                    0
                },
                _ => 0,
            },
    {
        match (self.first_at, self.last_at) {
            (Some(a), Some(b)) => b.saturating_since(a),
            _ => Duration::zero(),
        }
    }

    /// Whether any failure was counted.
    pub fn has_failures(&self) -> (r: bool)
        ensures
            r == (self.failures > 0),
    {
        self.failures > 0
    }
}

/// There are no more failures or warnings than events.
pub proof fn counts_are_bounded(es: Seq<EventView>)
    ensures
        failure_count(es) <= es.len(),
        warning_count(es) <= es.len(),
        failure_count(es) + warning_count(es) <= es.len(),
    decreases es.len(),
{
    if es.len() > 0 {
        counts_are_bounded(es.drop_last());
    }
}

/// The events before a point move no more payload than all.
pub proof fn prefix_sum_is_smaller(es: Seq<EventView>, k: int)
    requires
        0 <= k <= es.len(),
    ensures
        payload_sum(es.take(k)) <= payload_sum(es),
    decreases es.len(),
{
    if k == es.len() {
        assert(es.take(k) =~= es);
    } else {
        prefix_sum_is_smaller(es.drop_last(), k);
        assert(es.drop_last().take(k) =~= es.take(k));
    }
}

/// The counts of two runs of events add up.
pub proof fn counts_add(a: Seq<EventView>, b: Seq<EventView>)
    ensures
        payload_sum(a + b) == payload_sum(a) + payload_sum(b),
        failure_count(a + b) == failure_count(a) + failure_count(b),
        warning_count(a + b) == warning_count(a) + warning_count(b),
    decreases b.len(),
{
    if b.len() == 0 {
        assert(a + b =~= a);
    } else {
        assert((a + b).drop_last() =~= a + b.drop_last());
        counts_add(a, b.drop_last());
    }
}

/// The counts without the event at `i`, and the event's share.
proof fn counts_without(es: Seq<EventView>, i: int)
    requires
        0 <= i < es.len(),
    ensures
        payload_sum(es) == payload_sum(es.remove(i)) + es[i].kind.moved(),
        failure_count(es) == failure_count(es.remove(i)) + if es[i].kind.failure() {
            1int
        } else {
            0
        },
        warning_count(es) == warning_count(es.remove(i)) + if es[i].kind is Warning {
            1int
        } else {
            0
        },
{
    let a = es.take(i);
    let b = es.skip(i + 1);
    let e = seq![es[i]];
    assert(es =~= a + (e + b));
    assert(es.remove(i) =~= a + b);
    counts_add(a, e + b);
    counts_add(e, b);
    counts_add(a, b);
    assert(e.drop_last() =~= Seq::empty());
    assert(payload_sum(e.drop_last()) == 0);
    assert(failure_count(e.drop_last()) == 0);
    assert(warning_count(e.drop_last()) == 0);
}

/// The summary of events does not depend on the order in which they arrived.
pub proof fn summary_ignores_order(a: Seq<EventView>, b: Seq<EventView>, m: Metrics)
    requires
        a.to_multiset() == b.to_multiset(),
        m.summarizes(a),
    ensures
        m.summarizes(b),
{
    counts_ignore_order(a, b);
    same_members(a, b);
    if m.first_at is Some {
        let i = choose|i: int| 0 <= i < a.len() && (#[trigger] a[i]).at == m.first_at->0;
        assert(b.contains(a[i]));
        let j = choose|j: int| 0 <= j < a.len() && (#[trigger] a[j]).at == m.last_at->0;
        assert(b.contains(a[j]));
        assert forall|k: int| 0 <= k < b.len() implies (#[trigger] b[k]).at.nanos
            >= m.first_at->0.nanos && b[k].at.nanos <= m.last_at->0.nanos by {
            assert(a.contains(b[k]));
        }
    }
}

/// Equal multisets have equal lengths and members.
proof fn same_members(a: Seq<EventView>, b: Seq<EventView>)
    requires
        a.to_multiset() == b.to_multiset(),
    ensures
        a.len() == b.len(),
        forall|e: EventView| a.contains(e) <==> b.contains(e),
{
    a.to_multiset_ensures();
    b.to_multiset_ensures();
    assert forall|e: EventView| a.contains(e) <==> b.contains(e) by {
        assert(a.contains(e) <==> a.to_multiset().count(e) > 0);
        assert(b.contains(e) <==> b.to_multiset().count(e) > 0);
    }
}

/// The counts of events do not depend on their order.
proof fn counts_ignore_order(a: Seq<EventView>, b: Seq<EventView>)
    requires
        a.to_multiset() == b.to_multiset(),
    ensures
        payload_sum(a) == payload_sum(b),
        failure_count(a) == failure_count(b),
        warning_count(a) == warning_count(b),
    decreases a.len(),
{
    same_members(a, b);
    if a.len() > 0 {
        let e = a.last();
        assert(a.contains(e));
        let i = choose|i: int| 0 <= i < b.len() && b[i] == e;
        a.to_multiset_ensures();
        b.to_multiset_ensures();
        assert(a.remove(a.len() - 1) =~= a.drop_last());
        assert(a.drop_last().to_multiset() =~= a.to_multiset().remove(e));
        assert(b.remove(i).to_multiset() =~= b.to_multiset().remove(e));
        counts_ignore_order(a.drop_last(), b.remove(i));
        counts_without(b, i);
    }
}

} // verus!
