//! Bridges the prompts of a Bluetooth stack to a pairing agent.
use vstd::prelude::*;
use crate::device::DeviceId;
use crate::event::PairingMethodHint;
use crate::pairing;
use crate::pairing::{PairingAgent, PairingRequest, PairingResponse, ResponseView};

verus! {

/// A prompt of the stack.
#[derive(Clone, Copy, Debug, PartialEq, Eq, Structural)]
pub enum Prompt {
    /// Both sides show this number: do they agree?
    Confirmation {
        /// The number.
        passkey: u32,
    },
    /// Asks for a PIN.
    PinCode,
    /// Asks for a passkey.
    Passkey,
    /// Asks whether to go on without anything to compare.
    Authorization,
}

impl Prompt {
    /// What an agent is asked.
    pub open spec fn question(self) -> PairingRequest {
        match self {
            Prompt::Confirmation { passkey } => PairingRequest::ConfirmPasskey { passkey },
            Prompt::PinCode => PairingRequest::RequestPinCode,
            Prompt::Passkey => PairingRequest::RequestPasskey,
            Prompt::Authorization => PairingRequest::ConfirmJustWorks,
        }
    }

    /// What an agent is asked.
    pub fn request(self) -> (r: PairingRequest)
        ensures
            r == self.question(),
    {
        match self {
            Prompt::Confirmation { passkey } => PairingRequest::ConfirmPasskey { passkey },
            Prompt::PinCode => PairingRequest::RequestPinCode,
            Prompt::Passkey => PairingRequest::RequestPasskey,
            Prompt::Authorization => PairingRequest::ConfirmJustWorks,
        }
    }
}

/// What the stack is told.
#[derive(Debug)]
pub enum Reply {
    /// Go on.
    Go,
    /// Go on with this PIN.
    Pin(String),
    /// Go on with this passkey.
    Passkey(u32),
    /// The prompt was cancelled.
    Canceled,
    /// The prompt was refused.
    Rejected,
}

/// What a [`Reply`] says.
pub enum ReplyView {
    Go,
    Pin(Seq<char>),
    Passkey(u32),
    Canceled,
    Rejected,
}

impl View for Reply {
    type V = ReplyView;

    open spec fn view(&self) -> ReplyView {
        match self {
            Reply::Go => ReplyView::Go,
            Reply::Pin(pin) => ReplyView::Pin(pin@),
            Reply::Passkey(p) => ReplyView::Passkey(*p),
            Reply::Canceled => ReplyView::Canceled,
            Reply::Rejected => ReplyView::Rejected,
        }
    }
}

impl ReplyView {
    /// Whether the pairing goes on.
    pub open spec fn grants(self) -> bool {
        self is Go || self is Pin || self is Passkey
    }
}

/// What the stack is told when an agent answers: only the answer that fits the prompt
/// goes through.
pub open spec fn replied(prompt: Prompt, response: ResponseView) -> ReplyView {
    match response {
        ResponseView::Cancel => ReplyView::Canceled,
        ResponseView::Confirm(true) => if prompt is Confirmation || prompt is Authorization {
            ReplyView::Go
        } else {
            ReplyView::Rejected
        },
        ResponseView::Pin(pin) => if prompt is PinCode {
            ReplyView::Pin(pin)
        } else {
            ReplyView::Rejected
        },
        ResponseView::Passkey(p) => if prompt is Passkey {
            ReplyView::Passkey(p)
        } else {
            ReplyView::Rejected
        },
        _ => ReplyView::Rejected,
    }
}

/// What the stack is told when an agent answers.
pub fn reply_to(prompt: Prompt, response: PairingResponse) -> (r: Reply)
    ensures
        r@ == replied(prompt, response@),
{
    match response {
        PairingResponse::Cancel => Reply::Canceled,
        PairingResponse::Confirm(true) => match prompt {
            Prompt::Confirmation { .. } => Reply::Go,
            Prompt::Authorization => Reply::Go,
            _ => Reply::Rejected,
        },
        PairingResponse::Pin(pin) => match prompt {
            Prompt::PinCode => Reply::Pin(pin),
            _ => Reply::Rejected,
        },
        PairingResponse::Passkey(p) => match prompt {
            Prompt::Passkey => Reply::Passkey(p),
            _ => Reply::Rejected,
        },
        _ => Reply::Rejected,
    }
}

/// What a bridged agent leaves behind: the association model last asked for, and the
/// devices whose prompts were granted, each once.
#[derive(Debug)]
pub struct BridgeLog {
    /// The association model last asked for.
    pub method: Option<PairingMethodHint>,
    /// The devices granted, in the order of their first grant.
    pub bonded: Vec<DeviceId>,
}

/// What a [`BridgeLog`] holds.
#[verifier::ext_equal]
pub struct LogView {
    pub method: Option<PairingMethodHint>,
    pub bonded: Seq<DeviceId>,
}

impl View for BridgeLog {
    type V = LogView;

    open spec fn view(&self) -> LogView {
        LogView { method: self.method, bonded: self.bonded@ }
    }
}

impl LogView {
    /// No device is held twice.
    pub open spec fn ok(self) -> bool {
        self.bonded.no_duplicates()
    }

    /// The log after a prompt of `device` was answered.
    pub open spec fn answered(self, device: DeviceId, prompt: Prompt, reply: ReplyView) -> LogView {
        LogView {
            method: Some(prompt.question().model()),
            bonded: if reply.grants() && !self.bonded.contains(device) {
                self.bonded.push(device)
            } else {
                self.bonded
            },
        }
    }
}

impl BridgeLog {
    /// A log of nothing.
    pub fn new() -> (r: BridgeLog)
        ensures
            r@ == (LogView { method: None, bonded: Seq::empty() }),
            r@.ok(),
    {
        BridgeLog { method: None, bonded: Vec::new() }
    }

    /// Records that a device raised a prompt.
    pub fn asked(&mut self, prompt: Prompt)
        ensures
            final(self)@ == (LogView {
                method: Some(prompt.question().model()),
                bonded: old(self)@.bonded,
            }),
    {
        self.method = Some(prompt.request().method());
    }

    /// Records what the stack was told for a device that raised a prompt.
    pub fn answered(&mut self, device: DeviceId, prompt: Prompt, reply: &Reply)
        requires
            old(self)@.ok(),
        ensures
            final(self)@ == old(self)@.answered(device, prompt, reply@),
            final(self)@.ok(),
    {
        self.asked(prompt);
        let granted: bool = match reply {
            Reply::Go => true,
            Reply::Pin(_) => true,
            Reply::Passkey(_) => true,
            _ => false,
        };
        if !granted {
            return;
        }
        let ghost before = self@;
        let mut i: usize = 0;
        while i < self.bonded.len()
            invariant
                i <= self.bonded@.len(),
                self@ == before,
                before == (LogView {
                    method: Some(prompt.question().model()),
                    bonded: old(self)@.bonded,
                }),
                old(self)@.ok(),
                reply@.grants(),
                forall|j: int| 0 <= j < i ==> self.bonded@[j] != device,
            decreases self.bonded@.len() - i,
        {
            if self.bonded[i] == device {
                return;
            }
            i = i + 1;
        }
        self.bonded.push(device);
    }

    /// The association model that a concluded pairing used: the one last asked for, or
    /// none to compare at all.
    pub fn method_used(&self) -> (r: PairingMethodHint)
        ensures
            r == match self@.method {
                Some(m) => m,
                None => PairingMethodHint::JustWorks,
            },
    {
        match self.method {
            Some(m) => m,
            None => PairingMethodHint::JustWorks,
        }
    }
}

/// Asks an agent on behalf of the stack.
pub fn consult<A: PairingAgent + ?Sized>(
    agent: &A,
    log: &mut BridgeLog,
    device: DeviceId,
    prompt: Prompt,
) -> (r: Reply)
    requires
        old(log)@.ok(),
    ensures
        final(log)@.ok(),
        final(log)@ == old(log)@.answered(device, prompt, r@),
        exists|response: PairingResponse| #[trigger]
            pairing::may_answer(agent, prompt.question(), response) && r@ == replied(
                prompt,
                response@,
            ),
{
    let response = agent.respond(prompt.request());
    let ghost said = response;
    assert(pairing::may_answer(agent, prompt.question(), said));
    let reply = reply_to(prompt, response);
    log.answered(device, prompt, &reply);
    reply
}

/// An agent that refuses every prompt bonds with nothing: a refusal grants no prompt.
pub proof fn refusal_grants_nothing(prompt: Prompt, response: ResponseView)
    requires
        response.refuses(),
    ensures
        !replied(prompt, response).grants(),
{
}

/// A granted prompt passes on what the agent said, unchanged.
pub proof fn grant_passes_the_answer_on(prompt: Prompt, response: ResponseView)
    requires
        replied(prompt, response).grants(),
    ensures
        match replied(prompt, response) {
            ReplyView::Go => response == ResponseView::Confirm(true),
            ReplyView::Pin(pin) => response == ResponseView::Pin(pin),
            ReplyView::Passkey(p) => response == ResponseView::Passkey(p),
            _ => false,
        },
{
}

} // verus!
