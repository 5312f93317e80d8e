//! Watching an object push that `obexd` carries out.
use vstd::prelude::*;
use crate::text;
use crate::time::Duration;
use crate::transport_error::{TransportError, TransportErrorView};

verus! {

/// The longest that a single push may take, in nanoseconds.
pub const PUSH_DEADLINE: u128 = 300_000_000_000;

/// How long to wait for one property change before looking at the status again, in
/// nanoseconds.
pub const POLL_INTERVAL: u128 = 15_000_000_000;

/// Where a push stands.
#[derive(Debug)]
pub enum PushState {
    /// It goes on.
    Going,
    /// It is complete, with this many bytes moved.
    Complete(u64),
    /// It failed.
    Failed(TransportError),
}

/// What a [`PushState`] says.
pub enum PushStateView {
    Going,
    Complete(u64),
    Failed(TransportErrorView),
}

impl View for PushState {
    type V = PushStateView;

    open spec fn view(&self) -> PushStateView {
        match self {
            PushState::Going => PushStateView::Going,
            PushState::Complete(bytes) => PushStateView::Complete(*bytes),
            PushState::Failed(e) => PushStateView::Failed(e@),
        }
    }
}

/// A push under way, as its properties tell.
#[derive(Clone, Copy, Debug, PartialEq, Eq, Structural)]
pub struct PushWatch {
    /// The size that was announced, or zero.
    pub total: u64,
    /// The running total last heard.
    pub transferred: u64,
}

impl PushWatch {
    /// The bytes that a complete push moved.
    pub open spec fn whole(self) -> u64 {
        if self.total > self.transferred {
            self.total
        } else {
            self.transferred
        }
    }

    /// Where the push stands, by its status; an unreadable or other status says nothing.
    pub open spec fn standing(self, status: Option<Seq<char>>) -> PushStateView {
        match status {
            Some(s) => if s == "complete"@ {
                PushStateView::Complete(self.whole())
            } else if s == "error"@ {
                PushStateView::Failed(
                    TransportErrorView::TransferFailed {
                        transferred: self.transferred,
                        reason: "obexd reported transfer error"@,
                    },
                )
            } else {
                PushStateView::Going
            },
            None => PushStateView::Going,
        }
    }

    /// Where the push stands after so much time.
    pub open spec fn standing_at(
        self,
        status: Option<Seq<char>>,
        elapsed: Duration,
    ) -> PushStateView {
        if !(self.standing(status) is Going) {
            self.standing(status)
        } else if elapsed.nanos >= PUSH_DEADLINE {
            PushStateView::Failed(TransportErrorView::Timeout("obex push exceeded 300s"@))
        } else {
            PushStateView::Going
        }
    }

    /// The push after a change of its properties.
    pub open spec fn changed(self, transferred: Option<u64>) -> PushWatch {
        match transferred {
            Some(n) => PushWatch { transferred: n, ..self },
            None => self,
        }
    }

    /// The running totals that a change tells: the new one, and the whole once complete.
    pub open spec fn totals_told(
        self,
        transferred: Option<u64>,
        status: Option<Seq<char>>,
    ) -> Seq<u64> {
        let first: Seq<u64> = match transferred {
            Some(n) => seq![n],
            None => Seq::empty(),
        };
        match self.changed(transferred).standing(status) {
            PushStateView::Complete(bytes) => first.push(bytes),
            _ => first,
        }
    }

    /// A push that has just been started.
    pub fn new(size: Option<u64>) -> (r: PushWatch)
        ensures
            r == (PushWatch {
                total: match size {
                    Some(n) => n,
                    None => 0,
                },
                transferred: 0,
            }),
    {
        PushWatch {
            total: match size {
                Some(n) => n,
                None => 0,
            },
            transferred: 0,
        }
    }

    /// Where the push stands, by its status.
    fn judge(&self, status: Option<&str>) -> (r: PushState)
        ensures
            r@ == self.standing(status_view(status)),
    {
        match status {
            Some(s) => if text::same(s, "complete") {
                PushState::Complete(
                    if self.total > self.transferred {
                        self.total
                    } else {
                        self.transferred
                    },
                )
            } else if text::same(s, "error") {
                PushState::Failed(
                    TransportError::TransferFailed {
                        transferred: self.transferred,
                        reason: "obexd reported transfer error".to_owned(),
                    },
                )
            } else {
                PushState::Going
            },
            None => PushState::Going,
        }
    }

    /// Looks at the status, and at the clock where the status decides nothing. Where the
    /// push is complete, the bytes are also a running total to report.
    pub fn on_poll(&self, status: Option<&str>, elapsed: Duration) -> (r: PushState)
        ensures
            r@ == self.standing_at(status_view(status), elapsed),
    {
        match self.judge(status) {
            PushState::Going => if elapsed.nanos >= PUSH_DEADLINE {
                PushState::Failed(TransportError::Timeout("obex push exceeded 300s".to_owned()))
            } else {
                PushState::Going
            },
            other => other,
        }
    }

    /// Takes in a change of the properties: the running totals to report, and where the
    /// push stands.
    pub fn on_change(&mut self, transferred: Option<u64>, status: Option<&str>) -> (r: (
        Vec<u64>,
        PushState,
    ))
        ensures
            *final(self) == old(self).changed(transferred),
            r.0@ == old(self).totals_told(transferred, status_view(status)),
            r.1@ == final(self).standing(status_view(status)),
    {
        let mut told: Vec<u64> = Vec::new();
        if let Some(n) = transferred {
            self.transferred = n;
            told.push(n);
        }
        let state = self.judge(status);
        if let PushState::Complete(bytes) = &state {
            told.push(*bytes);
        }
        assert(told@ =~= old(self).totals_told(transferred, status_view(status)));
        (told, state)
    }
}

/// What an optional status says.
pub open spec fn status_view(status: Option<&str>) -> Option<Seq<char>> {
    match status {
        Some(s) => Some(s@),
        None => None,
    }
}

/// A push that completes has moved at least what was announced and what was last heard,
/// and has told so as its last running total.
pub proof fn completion_tells_the_whole(
    watch: PushWatch,
    transferred: Option<u64>,
    status: Option<Seq<char>>,
)
    requires
        watch.changed(transferred).standing(status) is Complete,
    ensures
        ({
            let after = watch.changed(transferred);
            let bytes = after.standing(status)->Complete_0;
            let told = watch.totals_told(transferred, status);
            &&& bytes >= after.total
            &&& bytes >= after.transferred
            &&& bytes == after.total || bytes == after.transferred
            &&& told.len() > 0
            &&& told.last() == bytes
        }),
{
}

/// No push outlives its deadline: at it, every push has ended.
pub proof fn deadline_ends_every_push(
    watch: PushWatch,
    status: Option<Seq<char>>,
    elapsed: Duration,
)
    requires
        elapsed.nanos >= PUSH_DEADLINE,
    ensures
        !(watch.standing_at(status, elapsed) is Going),
{
}

/// An error of the bus, as a transport error.
pub fn bus_error(source: &str, detail: &str) -> (r: TransportError)
    ensures
        r@ == TransportErrorView::Backend(source@ + ": "@ + detail@),
{
    let mut t = source.to_owned();
    t.append(": ");
    t.append(detail);
    TransportError::Backend(t)
}

} // verus!
