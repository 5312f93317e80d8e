//! Ready-made pairing agents.
use vstd::prelude::*;
use crate::pairing::{PairingAgent, PairingRequest, PairingResponse, ResponseView};

verus! {

/// Accepts everything, with a fixed PIN and passkey.
#[derive(Clone, Debug)]
pub struct AcceptAllAgent {
    /// The PIN to supply.
    pub pin: String,
    /// The passkey to supply.
    pub passkey: u32,
}

impl Default for AcceptAllAgent {
    fn default() -> (r: AcceptAllAgent)
        ensures
            r.pin@ == "0000"@,
            r.passkey == 0,
    {
        AcceptAllAgent::new()
    }
}

impl AcceptAllAgent {
    /// What the agent answers.
    pub open spec fn answer(self, request: PairingRequest) -> ResponseView {
        match request {
            PairingRequest::ConfirmJustWorks => ResponseView::Confirm(true),
            PairingRequest::ConfirmPasskey { .. } => ResponseView::Confirm(true),
            PairingRequest::RequestPinCode => ResponseView::Pin(self.pin@),
            PairingRequest::RequestPasskey => ResponseView::Passkey(self.passkey),
            PairingRequest::DisplayPasskey { .. } => ResponseView::Acknowledged,
        }
    }

    /// An agent that supplies PIN `0000` and passkey 0.
    pub fn new() -> (r: AcceptAllAgent)
        ensures
            r.pin@ == "0000"@,
            r.passkey == 0,
    {
        AcceptAllAgent { pin: "0000".to_owned(), passkey: 0 }
    }

    /// The same agent with another PIN.
    pub fn with_pin(self, pin: &str) -> (r: AcceptAllAgent)
        ensures
            r.pin@ == pin@,
            r.passkey == self.passkey,
    {
        AcceptAllAgent { pin: pin.to_owned(), passkey: self.passkey }
    }

    /// The same agent with another passkey.
    pub fn with_passkey(self, passkey: u32) -> (r: AcceptAllAgent)
        ensures
            r.pin@ == self.pin@,
            r.passkey == passkey,
    {
        AcceptAllAgent { pin: self.pin, passkey }
    }
}

impl PairingAgent for AcceptAllAgent {
    fn respond(&self, request: PairingRequest) -> (r: PairingResponse)
        ensures
            r@ == self.answer(request),
    {
        match request {
            PairingRequest::ConfirmJustWorks => PairingResponse::Confirm(true),
            PairingRequest::ConfirmPasskey { .. } => PairingResponse::Confirm(true),
            PairingRequest::RequestPinCode => PairingResponse::Pin(self.pin.clone()),
            PairingRequest::RequestPasskey => PairingResponse::Passkey(self.passkey),
            PairingRequest::DisplayPasskey { .. } => PairingResponse::Acknowledged,
        }
    }
}

/// Refuses everything.
#[derive(Clone, Copy, Debug, Default)]
pub struct RejectAllAgent;

impl RejectAllAgent {
    /// What the agent answers.
    pub open spec fn answer(self, request: PairingRequest) -> ResponseView {
        match request {
            PairingRequest::ConfirmJustWorks => ResponseView::Confirm(false),
            PairingRequest::ConfirmPasskey { .. } => ResponseView::Confirm(false),
            _ => ResponseView::Cancel,
        }
    }
}

impl PairingAgent for RejectAllAgent {
    fn respond(&self, request: PairingRequest) -> (r: PairingResponse)
        ensures
            r@ == self.answer(request),
    {
        match request {
            PairingRequest::ConfirmJustWorks => PairingResponse::Confirm(false),
            PairingRequest::ConfirmPasskey { .. } => PairingResponse::Confirm(false),
            _ => PairingResponse::Cancel,
        }
    }
}

/// Supplies a fixed PIN and confirms; has no passkey to supply.
#[derive(Clone, Debug)]
pub struct FixedPinAgent {
    /// The PIN to supply.
    pub pin: String,
}

impl FixedPinAgent {
    /// What the agent answers.
    pub open spec fn answer(self, request: PairingRequest) -> ResponseView {
        match request {
            PairingRequest::ConfirmJustWorks => ResponseView::Confirm(true),
            PairingRequest::ConfirmPasskey { .. } => ResponseView::Confirm(true),
            PairingRequest::RequestPinCode => ResponseView::Pin(self.pin@),
            PairingRequest::RequestPasskey => ResponseView::Cancel,
            PairingRequest::DisplayPasskey { .. } => ResponseView::Acknowledged,
        }
    }

    /// An agent with the given PIN.
    pub fn new(pin: &str) -> (r: FixedPinAgent)
        ensures
            r.pin@ == pin@,
    {
        FixedPinAgent { pin: pin.to_owned() }
    }
}

impl PairingAgent for FixedPinAgent {
    fn respond(&self, request: PairingRequest) -> (r: PairingResponse)
        ensures
            r@ == self.answer(request),
    {
        match request {
            PairingRequest::RequestPinCode => PairingResponse::Pin(self.pin.clone()),
            PairingRequest::ConfirmJustWorks => PairingResponse::Confirm(true),
            PairingRequest::ConfirmPasskey { .. } => PairingResponse::Confirm(true),
            PairingRequest::DisplayPasskey { .. } => PairingResponse::Acknowledged,
            PairingRequest::RequestPasskey => PairingResponse::Cancel,
        }
    }
}

/// Answers by calling a function.
pub struct CallbackAgent<F: Fn(PairingRequest) -> PairingResponse + Send + Sync> {
    f: F,
}

impl<F: Fn(PairingRequest) -> PairingResponse + Send + Sync> CallbackAgent<F> {
    /// The function accepts every request.
    #[verifier::type_invariant]
    spec fn accepts_all(self) -> bool {
        forall|request: PairingRequest| call_requires(self.f, (request,))
    }

    /// The function that answers.
    pub closed spec fn callback(self) -> F {
        self.f
    }

    /// An agent that answers by calling `f`.
    pub fn new(f: F) -> (r: CallbackAgent<F>)
        requires
            forall|request: PairingRequest| call_requires(f, (request,)),
        ensures
            r.callback() == f,
    {
        CallbackAgent { f }
    }
}

impl<F: Fn(PairingRequest) -> PairingResponse + Send + Sync> PairingAgent for CallbackAgent<F> {
    fn respond(&self, request: PairingRequest) -> (r: PairingResponse)
        ensures
            call_ensures(self.callback(), (request,), r),
    {
        proof {
            use_type_invariant(self);
        }
        (self.f)(request)
    }
}

/// The accepting agent never refuses, and the refusing agent always does.
pub proof fn stock_answers(accept: AcceptAllAgent, reject: RejectAllAgent, request: PairingRequest)
    ensures
        !accept.answer(request).refuses(),
        reject.answer(request).refuses(),
{
}

} // verus!
