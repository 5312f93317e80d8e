//! What can go wrong while talking to a Bluetooth controller.
use vstd::prelude::*;
use crate::device::DeviceId;
use crate::error::{Error, ErrorView};
use crate::text;

verus! {

/// A failed operation.
#[derive(Debug)]
#[non_exhaustive]
pub enum TransportError {
    /// A value could not be parsed or validated.
    Core(Error),
    /// The backend could not be opened.
    Unavailable(String),
    /// The backend knows no such device.
    DeviceNotFound(DeviceId),
    /// The operation needs a live connection.
    NotConnected(DeviceId),
    /// The agent or the peer declined to pair.
    PairingRejected(String),
    /// Pairing started and failed.
    PairingFailed(String),
    /// A transfer aborted partway through.
    TransferFailed {
        /// Bytes pushed before the failure.
        transferred: u64,
        /// Why it failed.
        reason: String,
    },
    /// The backend cannot do this.
    Unsupported {
        /// The backend's name.
        backend: &'static str,
        /// The operation's name.
        operation: &'static str,
    },
    /// The local address could not be changed.
    LocalAddress(String),
    /// A native error of the backend.
    Backend(String),
    /// The operation exceeded its deadline.
    Timeout(String),
}

/// What a [`TransportError`] says.
pub enum TransportErrorView {
    Core(ErrorView),
    Unavailable(Seq<char>),
    DeviceNotFound(DeviceId),
    NotConnected(DeviceId),
    PairingRejected(Seq<char>),
    PairingFailed(Seq<char>),
    TransferFailed { transferred: u64, reason: Seq<char> },
    Unsupported { backend: Seq<char>, operation: Seq<char> },
    LocalAddress(Seq<char>),
    Backend(Seq<char>),
    Timeout(Seq<char>),
}

impl View for TransportError {
    type V = TransportErrorView;

    open spec fn view(&self) -> TransportErrorView {
        match self {
            TransportError::Core(e) => TransportErrorView::Core(e@),
            TransportError::Unavailable(s) => TransportErrorView::Unavailable(s@),
            TransportError::DeviceNotFound(id) => TransportErrorView::DeviceNotFound(*id),
            TransportError::NotConnected(id) => TransportErrorView::NotConnected(*id),
            TransportError::PairingRejected(s) => TransportErrorView::PairingRejected(s@),
            TransportError::PairingFailed(s) => TransportErrorView::PairingFailed(s@),
            TransportError::TransferFailed { transferred, reason } => {
                TransportErrorView::TransferFailed { transferred: *transferred, reason: reason@ }
            },
            TransportError::Unsupported { backend, operation } => {
                TransportErrorView::Unsupported { backend: backend@, operation: operation@ }
            },
            TransportError::LocalAddress(s) => TransportErrorView::LocalAddress(s@),
            TransportError::Backend(s) => TransportErrorView::Backend(s@),
            TransportError::Timeout(s) => TransportErrorView::Timeout(s@),
        }
    }
}

impl TransportErrorView {
    /// The message shown for an error.
    pub open spec fn message(self) -> Seq<char> {
        match self {
            TransportErrorView::Core(e) => e.message(),
            TransportErrorView::Unavailable(s) => "backend unavailable: "@ + s,
            TransportErrorView::DeviceNotFound(id) => "device not found: "@ + id.words(),
            TransportErrorView::NotConnected(id) => "not connected: "@ + id.words(),
            TransportErrorView::PairingRejected(s) => "pairing rejected: "@ + s,
            TransportErrorView::PairingFailed(s) => "pairing failed: "@ + s,
            TransportErrorView::TransferFailed { transferred, reason } => "transfer failed after "@
                + text::decimal(transferred as nat) + " bytes: "@ + reason,
            TransportErrorView::Unsupported { backend, operation } => "operation `"@ + operation
                + "` not supported by the "@ + backend + " backend"@,
            TransportErrorView::LocalAddress(s) => "cannot set the local address: "@ + s,
            TransportErrorView::Backend(s) => "backend error: "@ + s,
            TransportErrorView::Timeout(s) => "timed out: "@ + s,
        }
    }
}

fn joined(head: &str, tail: &str) -> (r: String)
    ensures
        r@ == head@ + tail@,
{
    let mut t = head.to_owned();
    t.append(tail);
    t
}

impl TransportError {
    /// The message shown for the error.
    pub fn to_string(&self) -> (r: String)
        ensures
            r@ == self@.message(),
    {
        match self {
            TransportError::Core(e) => e.to_string(),
            TransportError::Unavailable(s) => joined("backend unavailable: ", s.as_str()),
            TransportError::DeviceNotFound(id) => joined(
                "device not found: ",
                id.to_string().as_str(),
            ),
            TransportError::NotConnected(id) => joined("not connected: ", id.to_string().as_str()),
            TransportError::PairingRejected(s) => joined("pairing rejected: ", s.as_str()),
            TransportError::PairingFailed(s) => joined("pairing failed: ", s.as_str()),
            TransportError::TransferFailed { transferred, reason } => {
                let mut t = "transfer failed after ".to_owned();
                t.append(text::decimal_text(*transferred as u128).as_str());
                t.append(" bytes: ");
                t.append(reason.as_str());
                t
            },
            TransportError::Unsupported { backend, operation } => {
                let mut t = "operation `".to_owned();
                t.append(operation);
                t.append("` not supported by the ");
                t.append(backend);
                t.append(" backend");
                t
            },
            TransportError::LocalAddress(s) => joined("cannot set the local address: ", s.as_str()),
            TransportError::Backend(s) => joined("backend error: ", s.as_str()),
            TransportError::Timeout(s) => joined("timed out: ", s.as_str()),
        }
    }
}

impl From<Error> for TransportError {
    fn from(e: Error) -> (r: TransportError) {
        TransportError::Core(e)
    }
}

impl vstd::std_specs::convert::FromSpecImpl<Error> for TransportError {
    open spec fn obeys_from_spec() -> bool {
        true
    }

    open spec fn from_spec(e: Error) -> TransportError {
        TransportError::Core(e)
    }
}

/// The result of a transport operation.
pub type Result<T> = std::result::Result<T, TransportError>;

} // verus!
