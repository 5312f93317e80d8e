//! The observable record of data in transit.
use vstd::prelude::*;
use crate::device::DeviceId;
use crate::hardware::{ControllerModel, ControllerView};
use crate::standards::StandardsProfile;
use crate::text;
use crate::time::{Duration, Timestamp};
use crate::version::SpecContext;

verus! {

/// The fixed context of a link: which controller, which peer, under which
/// specification and which standards.
#[derive(Debug, PartialEq, Eq, Hash)]
pub struct EventOrigin {
    /// The local controller.
    pub local: ControllerModel,
    /// The remote peer.
    pub peer: DeviceId,
    /// The Bluetooth specification context.
    pub spec: SpecContext,
    /// The IEEE 802 context.
    pub standards: StandardsProfile,
}

/// What an [`EventOrigin`] holds.
pub struct OriginView {
    pub local: ControllerView,
    pub peer: DeviceId,
    pub spec: SpecContext,
    pub standards: StandardsProfile,
}

impl View for EventOrigin {
    type V = OriginView;

    open spec fn view(&self) -> OriginView {
        OriginView {
            local: self.local@,
            peer: self.peer,
            spec: self.spec,
            standards: self.standards,
        }
    }
}

impl Clone for EventOrigin {
    fn clone(&self) -> (r: EventOrigin)
        ensures
            r@ == self@,
    {
        EventOrigin {
            local: self.local.clone(),
            peer: self.peer,
            spec: self.spec,
            standards: self.standards,
        }
    }
}

impl EventOrigin {
    /// An origin made of its four axes.
    pub fn new(
        local: ControllerModel,
        peer: DeviceId,
        spec: SpecContext,
        standards: StandardsProfile,
    ) -> (r: EventOrigin)
        ensures
            r@ == (OriginView { local: local@, peer, spec, standards }),
    {
        EventOrigin { local, peer, spec, standards }
    }
}

/// Which way payload went, seen from the local device.
#[derive(Clone, Copy, Debug, PartialEq, Eq, Structural, Hash, PartialOrd, Ord)]
pub enum Direction {
    /// Local to peer.
    Outbound,
    /// Peer to local.
    Inbound,
}

impl Direction {
    /// The word for the direction.
    pub open spec fn word(self) -> Seq<char> {
        match self {
            Direction::Outbound => "out"@,
            Direction::Inbound => "in"@,
        }
    }

    /// The word for the direction.
    pub fn to_string(&self) -> (r: String)
        ensures
            r@ == self.word(),
    {
        match self {
            Direction::Outbound => "out".to_owned(),
            Direction::Inbound => "in".to_owned(),
        }
    }
}

/// The association model of a pairing.
#[derive(Clone, Copy, Debug, PartialEq, Eq, Structural, Hash, PartialOrd, Ord)]
#[non_exhaustive]
pub enum PairingMethodHint {
    /// No interaction.
    JustWorks,
    /// Legacy PIN entry.
    PinCode,
    /// Passkey entered on one side.
    PasskeyEntry,
    /// Passkey displayed on one side.
    PasskeyDisplay,
    /// Both sides compare a number.
    NumericComparison,
    /// Keys exchanged out of band.
    OutOfBand,
}

impl PairingMethodHint {
    /// The word for the method.
    pub open spec fn word(self) -> Seq<char> {
        match self {
            PairingMethodHint::JustWorks => "just-works"@,
            PairingMethodHint::PinCode => "pin-code"@,
            PairingMethodHint::PasskeyEntry => "passkey-entry"@,
            PairingMethodHint::PasskeyDisplay => "passkey-display"@,
            PairingMethodHint::NumericComparison => "numeric-comparison"@,
            PairingMethodHint::OutOfBand => "oob"@,
        }
    }

    /// The word for the method.
    pub fn to_string(&self) -> (r: String)
        ensures
            r@ == self.word(),
    {
        match self {
            PairingMethodHint::JustWorks => "just-works".to_owned(),
            PairingMethodHint::PinCode => "pin-code".to_owned(),
            PairingMethodHint::PasskeyEntry => "passkey-entry".to_owned(),
            PairingMethodHint::PasskeyDisplay => "passkey-display".to_owned(),
            PairingMethodHint::NumericComparison => "numeric-comparison".to_owned(),
            PairingMethodHint::OutOfBand => "oob".to_owned(),
        }
    }
}

/// What happened.
#[derive(Debug, PartialEq)]
#[allow(inconsistent_fields)]
#[non_exhaustive]
pub enum TransitEventKind {
    /// A scan started.
    DiscoveryStarted,
    /// A device was seen.
    DeviceDiscovered {
        /// Signal strength in dBm, if known.
        rssi: Option<i16>,
    },
    /// A pairing began.
    PairingStarted {
        /// The association model.
        method: PairingMethodHint,
    },
    /// A pairing completed.
    PairingCompleted,
    /// A pairing failed.
    PairingFailed {
        /// Why.
        reason: String,
    },
    /// A connection was made.
    Connected,
    /// A connection was torn down.
    Disconnected {
        /// Why, if known.
        reason: Option<String>,
    },
    /// An outbound transfer started.
    TransferStarted {
        /// The object's name.
        name: String,
        /// Its size.
        total_bytes: u64,
    },
    /// A transfer moved on.
    TransferProgress {
        /// Bytes moved so far.
        transferred: u64,
        /// The object's size.
        total: u64,
    },
    /// A transfer completed.
    TransferCompleted {
        /// Bytes moved.
        bytes: u64,
        /// How long it took.
        duration: Duration,
    },
    /// A block of payload crossed the link.
    DataChunk {
        /// Which way.
        direction: Direction,
        /// How many bytes.
        bytes: u64,
    },
    /// A non-fatal anomaly.
    Warning {
        /// A stable short code.
        code: String,
        /// What was seen.
        detail: String,
    },
    /// A fatal error.
    Error {
        /// What was seen.
        detail: String,
    },
}

/// What a [`TransitEventKind`] says.
#[allow(inconsistent_fields)]
pub enum KindView {
    DiscoveryStarted,
    DeviceDiscovered { rssi: Option<i16> },
    PairingStarted { method: PairingMethodHint },
    PairingCompleted,
    PairingFailed { reason: Seq<char> },
    Connected,
    Disconnected { reason: Option<Seq<char>> },
    TransferStarted { name: Seq<char>, total_bytes: u64 },
    TransferProgress { transferred: u64, total: u64 },
    TransferCompleted { bytes: u64, duration: Duration },
    DataChunk { direction: Direction, bytes: u64 },
    Warning { code: Seq<char>, detail: Seq<char> },
    Error { detail: Seq<char> },
}

impl View for TransitEventKind {
    type V = KindView;

    open spec fn view(&self) -> KindView {
        match self {
            TransitEventKind::DiscoveryStarted => KindView::DiscoveryStarted,
            TransitEventKind::DeviceDiscovered { rssi } => KindView::DeviceDiscovered {
                rssi: *rssi,
            },
            TransitEventKind::PairingStarted { method } => KindView::PairingStarted {
                method: *method,
            },
            TransitEventKind::PairingCompleted => KindView::PairingCompleted,
            TransitEventKind::PairingFailed { reason } => KindView::PairingFailed {
                reason: reason@,
            },
            TransitEventKind::Connected => KindView::Connected,
            TransitEventKind::Disconnected { reason } => KindView::Disconnected {
                reason: text::optional(*reason),
            },
            TransitEventKind::TransferStarted { name, total_bytes } => KindView::TransferStarted {
                name: name@,
                total_bytes: *total_bytes,
            },
            TransitEventKind::TransferProgress { transferred, total } => {
                KindView::TransferProgress { transferred: *transferred, total: *total }
            },
            TransitEventKind::TransferCompleted { bytes, duration } => {
                KindView::TransferCompleted { bytes: *bytes, duration: *duration }
            },
            TransitEventKind::DataChunk { direction, bytes } => KindView::DataChunk {
                direction: *direction,
                bytes: *bytes,
            },
            TransitEventKind::Warning { code, detail } => KindView::Warning {
                code: code@,
                detail: detail@,
            },
            TransitEventKind::Error { detail } => KindView::Error { detail: detail@ },
        }
    }
}

impl KindView {
    /// The payload bytes that an event speaks of: those of a chunk, or of a transfer that
    /// was completed.
    pub open spec fn payload(self) -> u64 {
        match self {
            KindView::DataChunk { bytes, .. } => bytes,
            KindView::TransferCompleted { bytes, .. } => bytes,
            _ => 0,
        }
    }

    /// The payload bytes that an event moved: only chunks move any, so that those of a
    /// transfer are not counted again when it is completed.
    pub open spec fn moved(self) -> u64 {
        match self {
            KindView::DataChunk { bytes, .. } => bytes,
            _ => 0,
        }
    }

    /// Whether an event is a failure.
    pub open spec fn failure(self) -> bool {
        self is Error || self is PairingFailed
    }

    /// The stable label of a kind.
    pub open spec fn word(self) -> Seq<char> {
        match self {
            KindView::DiscoveryStarted => "discovery-started"@,
            KindView::DeviceDiscovered { .. } => "device-discovered"@,
            KindView::PairingStarted { .. } => "pairing-started"@,
            KindView::PairingCompleted => "pairing-completed"@,
            KindView::PairingFailed { .. } => "pairing-failed"@,
            KindView::Connected => "connected"@,
            KindView::Disconnected { .. } => "disconnected"@,
            KindView::TransferStarted { .. } => "transfer-started"@,
            KindView::TransferProgress { .. } => "transfer-progress"@,
            KindView::TransferCompleted { .. } => "transfer-completed"@,
            KindView::DataChunk { .. } => "data-chunk"@,
            KindView::Warning { .. } => "warning"@,
            KindView::Error { .. } => "error"@,
        }
    }
}

impl Clone for TransitEventKind {
    fn clone(&self) -> (r: TransitEventKind)
        ensures
            r@ == self@,
    {
        match self {
            TransitEventKind::DiscoveryStarted => TransitEventKind::DiscoveryStarted,
            TransitEventKind::DeviceDiscovered { rssi } => TransitEventKind::DeviceDiscovered {
                rssi: *rssi,
            },
            TransitEventKind::PairingStarted { method } => TransitEventKind::PairingStarted {
                method: *method,
            },
            TransitEventKind::PairingCompleted => TransitEventKind::PairingCompleted,
            TransitEventKind::PairingFailed { reason } => TransitEventKind::PairingFailed {
                reason: reason.clone(),
            },
            TransitEventKind::Connected => TransitEventKind::Connected,
            TransitEventKind::Disconnected { reason } => TransitEventKind::Disconnected {
                reason: text::clone_optional(reason),
            },
            TransitEventKind::TransferStarted { name, total_bytes } => {
                TransitEventKind::TransferStarted { name: name.clone(), total_bytes: *total_bytes }
            },
            TransitEventKind::TransferProgress { transferred, total } => {
                TransitEventKind::TransferProgress { transferred: *transferred, total: *total }
            },
            TransitEventKind::TransferCompleted { bytes, duration } => {
                TransitEventKind::TransferCompleted { bytes: *bytes, duration: *duration }
            },
            TransitEventKind::DataChunk { direction, bytes } => TransitEventKind::DataChunk {
                direction: *direction,
                bytes: *bytes,
            },
            TransitEventKind::Warning { code, detail } => TransitEventKind::Warning {
                code: code.clone(),
                detail: detail.clone(),
            },
            TransitEventKind::Error { detail } => TransitEventKind::Error {
                detail: detail.clone(),
            },
        }
    }
}

impl TransitEventKind {
    /// The payload bytes that the event speaks of: those of a chunk, or of a transfer that
    /// was completed.
    pub fn payload_bytes(&self) -> (r: u64)
        ensures
            r == self@.payload(),
    {
        match self {
            TransitEventKind::DataChunk { bytes, .. } => *bytes,
            TransitEventKind::TransferCompleted { bytes, .. } => *bytes,
            _ => 0,
        }
    }

    /// The payload bytes that the event moved: only chunks move any.
    pub fn moved_bytes(&self) -> (r: u64)
        ensures
            r == self@.moved(),
    {
        match self {
            TransitEventKind::DataChunk { bytes, .. } => *bytes,
            _ => 0,
        }
    }

    /// Whether the event is a failure.
    pub fn is_failure(&self) -> (r: bool)
        ensures
            r == self@.failure(),
    {
        match self {
            TransitEventKind::Error { .. } => true,
            TransitEventKind::PairingFailed { .. } => true,
            _ => false,
        }
    }

    /// The stable label of the kind.
    pub fn label(&self) -> (r: &'static str)
        ensures
            r@ == self@.word(),
    {
        match self {
            TransitEventKind::DiscoveryStarted => "discovery-started",
            TransitEventKind::DeviceDiscovered { .. } => "device-discovered",
            TransitEventKind::PairingStarted { .. } => "pairing-started",
            TransitEventKind::PairingCompleted => "pairing-completed",
            TransitEventKind::PairingFailed { .. } => "pairing-failed",
            TransitEventKind::Connected => "connected",
            TransitEventKind::Disconnected { .. } => "disconnected",
            TransitEventKind::TransferStarted { .. } => "transfer-started",
            TransitEventKind::TransferProgress { .. } => "transfer-progress",
            TransitEventKind::TransferCompleted { .. } => "transfer-completed",
            TransitEventKind::DataChunk { .. } => "data-chunk",
            TransitEventKind::Warning { .. } => "warning",
            TransitEventKind::Error { .. } => "error",
        }
    }
}

/// One observation from a link.
#[derive(Debug, PartialEq)]
pub struct TransitEvent {
    /// The producer's sequence number.
    pub seq: u64,
    /// When the event was produced.
    pub at: Timestamp,
    /// The link context.
    pub origin: EventOrigin,
    /// What happened.
    pub kind: TransitEventKind,
}

/// What a [`TransitEvent`] holds.
pub struct EventView {
    pub seq: u64,
    pub at: Timestamp,
    pub origin: OriginView,
    pub kind: KindView,
}

impl View for TransitEvent {
    type V = EventView;

    open spec fn view(&self) -> EventView {
        EventView { seq: self.seq, at: self.at, origin: self.origin@, kind: self.kind@ }
    }
}

impl EventView {
    /// The line that shows an event; `kind` is the kind spelled out.
    pub open spec fn line(self, kind: Seq<char>) -> Seq<char> {
        "#"@ + text::pad_right(text::decimal(self.seq as nat), 4) + " "@ + self.at.words() + " ["@
            + self.origin.local.words() + "] "@ + self.origin.peer.words() + " <"@
            + self.origin.spec.words() + "> "@ + kind
    }
}

/// The events of a list as plain values.
pub open spec fn events_view(v: Seq<TransitEvent>) -> Seq<EventView> {
    v.map_values(|e: TransitEvent| e@)
}

impl Clone for TransitEvent {
    fn clone(&self) -> (r: TransitEvent)
        ensures
            r@ == self@,
    {
        TransitEvent {
            seq: self.seq,
            at: self.at,
            origin: self.origin.clone(),
            kind: self.kind.clone(),
        }
    }
}

impl TransitEvent {
    /// An event made of its parts.
    pub fn new(seq: u64, at: Timestamp, origin: EventOrigin, kind: TransitEventKind) -> (r:
        TransitEvent)
        ensures
            r@ == (EventView { seq, at, origin: origin@, kind: kind@ }),
    {
        TransitEvent { seq, at, origin, kind }
    }

    /// The line that shows the event; `kind` is the kind spelled out.
    pub fn line_text(&self, kind: &str) -> (r: String)
        ensures
            r@ == self@.line(kind@),
    {
        let mut t = "#".to_owned();
        let number = text::decimal_text(self.seq as u128);
        t.append(text::padded_right(number.as_str(), 4).as_str());
        t.append(" ");
        t.append(self.at.to_string().as_str());
        t.append(" [");
        t.append(self.origin.local.label().as_str());
        t.append("] ");
        t.append(self.origin.peer.to_string().as_str());
        t.append(" <");
        t.append(self.origin.spec.to_string().as_str());
        t.append("> ");
        t.append(kind);
        t
    }
}

/// A copy of a list of events.
pub fn clone_events(v: &Vec<TransitEvent>) -> (r: Vec<TransitEvent>)
    ensures
        events_view(r@) == events_view(v@),
{
    let mut r: Vec<TransitEvent> = Vec::new();
    let mut i: usize = 0;
    while i < v.len()
        invariant
            i <= v@.len(),
            r@.len() == i,
            forall|k: int| 0 <= k < i ==> (#[trigger] r@[k])@ == v@[k]@,
        decreases v@.len() - i,
    {
        r.push(v[i].clone());
        i = i + 1;
    }
    assert(events_view(r@) =~= events_view(v@));
    r
}

} // verus!
