//! A Bluetooth toolkit: discovery, pairing, file transfer and diagnostics over one backend
//! interface, with a deterministic mock backend that needs no hardware.
//!
//! - The vocabulary: [`address`], [`device`], [`uuid`], [`version`], [`standards`],
//!   [`hardware`], [`peer`], [`time`], [`event`] and [`observe`].
//! - The backend interface: [`backend`], with its [`pairing`] agents, [`transfer`] types and
//!   [`transport_error`]; [`mock`] implements it, [`mock_model`] says what the mock does, and
//!   [`mock_workflows`] what the workflows give on it.
//! - The workflows on top: [`workflow`], [`batch`] and [`upload`].
//! - Diagnostics: [`recorder`], [`metrics`], [`analyze`] and [`report`].
//! - The decisions of backends for real adapters: [`adapter`], [`live`], [`bridge`],
//!   [`mgmt`], [`obex`], [`obexd`], [`phone_push`], [`port_auth`] and [`wpa`].
//! - The command line: [`cli`].
//! - The laws, which say what all of this comes to over every input: [`label_laws`],
//!   [`vocabulary_laws`], [`text_laws`] and [`parsing_laws`] of words and values;
//!   [`scan_laws`], [`mock_laws`] and [`mock_operation_laws`] of scans and the mock;
//!   [`workflow_laws`] of runs of attempts; [`obex_laws`] and [`adapter_laws`] of what goes
//!   over a wire; and [`diagnostics_laws`] of reports.
pub mod adapter;
pub mod adapter_laws;
pub mod address;
pub mod agents;
pub mod analyze;
pub mod backend;
pub mod batch;
pub mod bridge;
pub mod cli;
pub mod device;
pub mod diagnostics_laws;
pub mod error;
pub mod event;
pub mod hardware;
pub mod label_laws;
pub mod live;
pub mod metrics;
pub mod mgmt;
pub mod mock;
pub mod mock_device;
pub mod mock_laws;
pub mod mock_model;
pub mod mock_operation_laws;
pub mod mock_workflows;
pub mod obex;
pub mod obex_laws;
pub mod obexd;
pub mod observe;
pub mod pairing;
pub mod parsing_laws;
pub mod peer;
pub mod phone_push;
pub mod port_auth;
pub mod progress;
pub mod recorder;
pub mod report;
pub mod scan_laws;
pub mod standards;
pub mod text;
pub mod text_laws;
pub mod time;
pub mod transfer;
pub mod transport_error;
pub mod upload;
pub mod uuid;
pub mod version;
pub mod vocabulary_laws;
pub mod workflow;
pub mod workflow_laws;
pub mod wpa;

pub use crate::address::{AddressType, BdAddr};
pub use crate::agents::{AcceptAllAgent, CallbackAgent, FixedPinAgent, RejectAllAgent};
pub use crate::analyze::{Analyzer, Anomaly, Breakdown};
pub use crate::backend::{
    apply_spoof, connect_as, discover_as, dump_in_range, dump_in_range_as, AdapterInfo,
    BackendKind, BluetoothBackend, Capabilities, Connection, DefaultStandards, DiscoveryFilter,
    InboundPairing, SharedStandardsResolver, StandardsFn, StandardsResolver, StaticStandards,
};
pub use crate::batch::{pair_devices, pair_discovered, BatchPairOptions, PairItem};
pub use crate::device::{ClassOfDevice, DeviceId, DeviceInfo, MajorDeviceClass};
pub use crate::error::Error;
pub use crate::event::{
    Direction, EventOrigin, PairingMethodHint, TransitEvent, TransitEventKind,
};
pub use crate::hardware::{ChipsetFamily, CompanyId, ControllerModel};
pub use crate::metrics::{Metrics, SplitBy};
pub use crate::mock::{MockBackend, MockBackendBuilder};
pub use crate::mock_device::MockDevice;
pub use crate::observe::{FanOut, NoopObserver, Observer, SharedObserver};
pub use crate::pairing::{
    Decision, PairingAgent, PairingOutcome, PairingRequest, PairingResponse,
};
pub use crate::peer::{detect_platform, PeerPlatform};
pub use crate::progress::{ProgressObserver, ProgressUpdate};
pub use crate::recorder::Recorder;
pub use crate::report::{DiagnosticReport, ReportRates};
pub use crate::standards::{PortAuthState, Standard802, StandardsLayer, StandardsProfile};
pub use crate::time::{Duration, Timestamp};
pub use crate::transfer::{OutboundFile, TransferReceipt};
pub use crate::transport_error::TransportError;
pub use crate::upload::{upload_bytes, upload_file, upload_files, UploadOptions};
pub use crate::uuid::Uuid;
pub use crate::version::{CoreVersion, SpecContext, Transport};
pub use crate::workflow::{pair_device, PairOptions, PairReport};
