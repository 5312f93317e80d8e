//! The exchange between a backend that pairs and the agent that answers for the user.
use vstd::prelude::*;
use crate::event::PairingMethodHint;

verus! {

/// What a pairing asks of its agent.
#[derive(Clone, Copy, Debug, PartialEq, Eq, Structural)]
#[non_exhaustive]
pub enum PairingRequest {
    /// Confirm without comparing anything.
    ConfirmJustWorks,
    /// Confirm that both sides show this passkey.
    ConfirmPasskey {
        /// The passkey to compare.
        passkey: u32,
    },
    /// Supply a legacy PIN.
    RequestPinCode,
    /// Supply the passkey that the peer shows.
    RequestPasskey,
    /// Show this passkey to the user.
    DisplayPasskey {
        /// The passkey to show.
        passkey: u32,
    },
}

impl PairingRequest {
    /// The association model behind a request.
    pub open spec fn model(self) -> PairingMethodHint {
        match self {
            PairingRequest::ConfirmJustWorks => PairingMethodHint::JustWorks,
            PairingRequest::ConfirmPasskey { .. } => PairingMethodHint::NumericComparison,
            PairingRequest::RequestPinCode => PairingMethodHint::PinCode,
            PairingRequest::RequestPasskey => PairingMethodHint::PasskeyEntry,
            PairingRequest::DisplayPasskey { .. } => PairingMethodHint::PasskeyDisplay,
        }
    }

    /// The association model behind the request.
    pub fn method(&self) -> (r: PairingMethodHint)
        ensures
            r == self.model(),
    {
        match self {
            PairingRequest::ConfirmJustWorks => PairingMethodHint::JustWorks,
            PairingRequest::ConfirmPasskey { .. } => PairingMethodHint::NumericComparison,
            PairingRequest::RequestPinCode => PairingMethodHint::PinCode,
            PairingRequest::RequestPasskey => PairingMethodHint::PasskeyEntry,
            PairingRequest::DisplayPasskey { .. } => PairingMethodHint::PasskeyDisplay,
        }
    }
}

/// What an agent answers.
#[derive(Debug, PartialEq, Eq)]
#[non_exhaustive]
pub enum PairingResponse {
    /// Yes or no.
    Confirm(bool),
    /// A PIN.
    Pin(String),
    /// A passkey.
    Passkey(u32),
    /// The passkey was shown.
    Acknowledged,
    /// Give up.
    Cancel,
}

/// What a [`PairingResponse`] says.
pub enum ResponseView {
    Confirm(bool),
    Pin(Seq<char>),
    Passkey(u32),
    Acknowledged,
    Cancel,
}

impl View for PairingResponse {
    type V = ResponseView;

    open spec fn view(&self) -> ResponseView {
        match self {
            PairingResponse::Confirm(yes) => ResponseView::Confirm(*yes),
            PairingResponse::Pin(pin) => ResponseView::Pin(pin@),
            PairingResponse::Passkey(passkey) => ResponseView::Passkey(*passkey),
            PairingResponse::Acknowledged => ResponseView::Acknowledged,
            PairingResponse::Cancel => ResponseView::Cancel,
        }
    }
}

impl ResponseView {
    /// Whether an answer refuses the pairing.
    pub open spec fn refuses(self) -> bool {
        self == ResponseView::Confirm(false) || self is Cancel
    }
}

impl Clone for PairingResponse {
    fn clone(&self) -> (r: PairingResponse)
        ensures
            r@ == self@,
    {
        match self {
            PairingResponse::Confirm(yes) => PairingResponse::Confirm(*yes),
            PairingResponse::Pin(pin) => PairingResponse::Pin(pin.clone()),
            PairingResponse::Passkey(passkey) => PairingResponse::Passkey(*passkey),
            PairingResponse::Acknowledged => PairingResponse::Acknowledged,
            PairingResponse::Cancel => PairingResponse::Cancel,
        }
    }
}

impl PairingResponse {
    /// Whether the answer refuses the pairing.
    pub fn declines(&self) -> (r: bool)
        ensures
            r == self@.refuses(),
    {
        match self {
            PairingResponse::Confirm(yes) => !*yes,
            PairingResponse::Cancel => true,
            _ => false,
        }
    }
}

/// Who decided an answer.
#[derive(Clone, Copy, Debug, PartialEq, Eq, Structural)]
pub enum Decision {
    /// A person.
    Human,
    /// A policy.
    Policy,
}

/// Answers a pairing's requests on behalf of the user.
pub trait PairingAgent: Send + Sync {
    /// Answers one request.
    fn respond(&self, request: PairingRequest) -> PairingResponse;
}

/// Whether an agent may answer a request with `response`.
pub open spec fn may_answer<A: PairingAgent + ?Sized>(
    agent: &A,
    request: PairingRequest,
    response: PairingResponse,
) -> bool {
    call_ensures(A::respond, (agent, request), response)
}

/// What an agent may answer, request by request.
pub open spec fn answers_of<A: PairingAgent + ?Sized>(agent: &A) -> spec_fn(
    PairingRequest,
    PairingResponse,
) -> bool {
    |request: PairingRequest, response: PairingResponse| may_answer(agent, request, response)
}

/// How a pairing ended.
#[derive(Clone, Copy, Debug, PartialEq, Eq, Structural)]
pub struct PairingOutcome {
    /// Whether the devices are paired.
    pub paired: bool,
    /// Whether the keys were stored.
    pub bonded: bool,
    /// The association model that was used.
    pub method: PairingMethodHint,
}

impl PairingOutcome {
    /// The outcome of a full bond.
    pub open spec fn full(method: PairingMethodHint) -> PairingOutcome {
        PairingOutcome { paired: true, bonded: true, method }
    }

    /// The outcome of a full bond.
    pub fn bonded(method: PairingMethodHint) -> (r: PairingOutcome)
        ensures
            r == PairingOutcome::full(method),
    {
        PairingOutcome { paired: true, bonded: true, method }
    }
}

} // verus!
