//! Pairing with retries, one device or many.
use vstd::prelude::*;
use crate::address::BdAddr;
use crate::backend;
use crate::backend::{BackendCall, BluetoothBackend};
use crate::device::DeviceId;
use crate::pairing;
use crate::pairing::{PairingAgent, PairingOutcome, PairingRequest, PairingResponse};
use crate::transport_error::{TransportError, TransportErrorView};

verus! {

/// How to pair with one device.
#[derive(Clone, Copy, Debug)]
pub struct PairOptions {
    /// How often to try again after a transient failure.
    pub retries: u32,
    /// The local address to present, if not the real one.
    pub spoof: Option<BdAddr>,
}

impl Default for PairOptions {
    fn default() -> (r: PairOptions)
        ensures
            r == (PairOptions { retries: 2, spoof: None }),
    {
        PairOptions { retries: 2, spoof: None }
    }
}

impl PairOptions {
    /// The same options under another local address.
    pub fn spoofing(self, addr: BdAddr) -> (r: PairOptions)
        ensures
            r == (PairOptions { retries: self.retries, spoof: Some(addr) }),
    {
        PairOptions { retries: self.retries, spoof: Some(addr) }
    }

    /// How many attempts the options allow.
    pub open spec fn attempts_allowed(self) -> u32 {
        if self.retries == u32::MAX {
            u32::MAX
        } else {
            (self.retries + 1) as u32
        }
    }

    /// How many attempts the options allow.
    pub fn max_attempts(&self) -> (r: u32)
        ensures
            r == self.attempts_allowed(),
            r >= 1,
    {
        self.retries.saturating_add(1)
    }
}

/// How a pairing went.
#[derive(Clone, Copy, Debug, PartialEq, Eq, Structural)]
pub struct PairReport {
    /// The outcome.
    pub outcome: PairingOutcome,
    /// How many attempts it took.
    pub attempts: u32,
}

/// Whether a failure is not worth another attempt: a refusal, or an unknown device.
pub open spec fn hopeless(e: TransportErrorView) -> bool {
    e is PairingRejected || e is DeviceNotFound
}

/// Whether a failure is not worth another attempt.
pub fn is_final(e: &TransportError) -> (r: bool)
    ensures
        r == hopeless(e@),
{
    match e {
        TransportError::PairingRejected(_) => true,
        TransportError::DeviceNotFound(_) => true,
        _ => false,
    }
}

/// A report or an error, as plain values.
pub open spec fn report_view(r: Result<PairReport, TransportError>) -> Result<
    PairReport,
    TransportErrorView,
> {
    match r {
        Ok(p) => Ok(p),
        Err(e) => Err(e@),
    }
}

/// What to do after an attempt.
#[derive(Debug)]
pub enum PairStep {
    /// Try again.
    Retry,
    /// Stop with this result.
    Done(Result<PairReport, TransportError>),
}

/// Whether an attempt's result is a failure worth another attempt.
pub open spec fn transient(result: Result<PairingOutcome, TransportErrorView>) -> bool {
    match result {
        Ok(_) => false,
        Err(e) => !hopeless(e),
    }
}

/// What a pairing that ends with the given attempt returns.
pub open spec fn concluded(result: Result<PairingOutcome, TransportErrorView>, attempt: u32) -> Result<
    PairReport,
    TransportErrorView,
> {
    match result {
        Ok(outcome) => Ok(PairReport { outcome, attempts: attempt }),
        Err(e) => Err(e),
    }
}

/// Decides what follows the `attempt`th attempt of at most `max`.
pub fn after_attempt(
    attempt: u32,
    max: u32,
    result: Result<PairingOutcome, TransportError>,
) -> (r: PairStep)
    ensures
        if attempt < max && transient(backend::paired_view(result)) {
            r is Retry
        } else {
            r matches PairStep::Done(done) && report_view(done) == concluded(
                backend::paired_view(result),
                attempt,
            )
        },
{
    match result {
        Ok(outcome) => PairStep::Done(Ok(PairReport { outcome, attempts: attempt })),
        Err(e) => {
            if attempt < max && !is_final(&e) {
                PairStep::Retry
            } else {
                PairStep::Done(Err(e))
            }
        },
    }
}

/// Whether `states` are those before, between and after attempts to pair with one device,
/// each with its result and with an agent that answers as given.
pub open spec fn tried<B: BluetoothBackend>(
    states: Seq<B>,
    target: DeviceId,
    answers: spec_fn(PairingRequest, PairingResponse) -> bool,
    tries: Seq<Result<PairingOutcome, TransportErrorView>>,
) -> bool {
    &&& states.len() == tries.len() + 1
    &&& forall|i: int|
        0 <= i < tries.len() ==> states[i].does(
            BackendCall::Pair { target, answers, result: #[trigger] tries[i] },
            &states[i + 1],
        )
}

/// Whether attempts are made as they should be, with the given result: at least one and
/// at most `max`; another only after a transient failure; the last one decides.
pub open spec fn well_tried(
    tries: Seq<Result<PairingOutcome, TransportErrorView>>,
    max: u32,
    result: Result<PairReport, TransportErrorView>,
) -> bool {
    &&& 1 <= tries.len() <= max
    &&& forall|i: int| 0 <= i < tries.len() - 1 ==> transient(#[trigger] tries[i])
    &&& tries.len() < max ==> !transient(tries.last())
    &&& result == concluded(tries.last(), tries.len() as u32)
}

/// Whether attempts to pair with one device lead from `before` to `after`, with the given
/// result.
pub open spec fn attempted<B: BluetoothBackend>(
    before: B,
    after: B,
    target: DeviceId,
    answers: spec_fn(PairingRequest, PairingResponse) -> bool,
    max: u32,
    result: Result<PairReport, TransportErrorView>,
) -> bool {
    exists|states: Seq<B>, tries: Seq<Result<PairingOutcome, TransportErrorView>>|
        {
            &&& #[trigger] tried(states, target, answers, tries)
            &&& well_tried(tries, max, result)
            &&& states[0] == before
            &&& states.last() == after
        }
}

/// Whether a pairing with one device leads from `before` to `after`, with the given
/// result: the local address is changed once, before all attempts, and where that fails
/// nothing else is done. `changes` says what a change of address may do, `answers` what
/// the agent may answer.
pub open spec fn paired_up<B: BluetoothBackend>(
    changes: spec_fn(B, BdAddr, Result<(), TransportError>, B) -> bool,
    before: B,
    after: B,
    target: DeviceId,
    answers: spec_fn(PairingRequest, PairingResponse) -> bool,
    options: PairOptions,
    result: Result<PairReport, TransportErrorView>,
) -> bool {
    exists|mid: B, change: Result<(), TransportError>|
        {
            &&& #[trigger] backend::spoofed(changes, before, mid, options.spoof, change)
            &&& match change {
                Err(e) => after == mid && result == Err::<PairReport, TransportErrorView>(e@),
                Ok(_) => attempted(
                    mid,
                    after,
                    target,
                    answers,
                    options.attempts_allowed(),
                    result,
                ),
            }
        }
}

/// Pairs with a device; `agent` answers for the user in every attempt. A transient
/// failure is tried again as often as the options allow; a refusal and an unknown device
/// are final.
pub fn pair_device<B: BluetoothBackend, A: PairingAgent + ?Sized>(
    backend: &mut B,
    target: DeviceId,
    agent: &A,
    options: PairOptions,
) -> (r: Result<PairReport, TransportError>)
    ensures
        final(backend).abilities() == old(backend).abilities(),
        paired_up(
            |s: B, a: BdAddr, r: Result<(), TransportError>, t: B|
                exists|b: &mut B|
                    *b == s && *final(b) == t && #[trigger] call_ensures(
                        B::set_local_address,
                        (b, a),
                        r,
                    ),
            *old(backend),
            *final(backend),
            target,
            pairing::answers_of(agent),
            options,
            report_view(r),
        ),
{
    match backend::apply_spoof(backend, options.spoof) {
        Ok(_) => attempt_all(backend, target, agent, options.max_attempts()),
        Err(e) => Err(e),
    }
}

/// Tries to pair with a device until an attempt decides.
fn attempt_all<B: BluetoothBackend, A: PairingAgent + ?Sized>(
    backend: &mut B,
    target: DeviceId,
    agent: &A,
    max: u32,
) -> (r: Result<PairReport, TransportError>)
    requires
        max >= 1,
    ensures
        final(backend).abilities() == old(backend).abilities(),
        attempted(
            *old(backend),
            *final(backend),
            target,
            pairing::answers_of(agent),
            max,
            report_view(r),
        ),
{
    let ghost answers = pairing::answers_of(agent);
    let mut attempt: u32 = 1;
    let ghost mut tries = Seq::<Result<PairingOutcome, TransportErrorView>>::empty();
    let ghost mut states = seq![*backend];
    loop
        invariant
            1 <= attempt <= max,
            answers == pairing::answers_of(agent),
            backend.abilities() == old(backend).abilities(),
            tries.len() == attempt - 1,
            tried(states, target, answers, tries),
            states[0] == *old(backend),
            states.last() == *backend,
            forall|i: int| 0 <= i < tries.len() ==> transient(#[trigger] tries[i]),
        decreases max - attempt,
    {
        let result = backend.pair(target, agent);
        proof {
            let seen = backend::paired_view(result);
            let more = tries.push(seen);
            let longer = states.push(*backend);
            assert forall|i: int| 0 <= i < more.len() implies longer[i].does(
                BackendCall::Pair { target, answers, result: #[trigger] more[i] },
                &longer[i + 1],
            ) by {
                if i < tries.len() {
                    assert(more[i] == tries[i]);
                }
            }
            assert(more.last() == seen);
            tries = more;
            states = longer;
        }
        match after_attempt(attempt, max, result) {
            PairStep::Done(done) => {
                assert(tried(states, target, answers, tries));
                assert(well_tried(tries, max, report_view(done)));
                return done;
            },
            PairStep::Retry => {
                attempt = attempt + 1;
            },
        }
    }
}

} // verus!
