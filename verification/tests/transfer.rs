use std::sync::{Arc, Mutex};

use pax::upload::{after_push, PushStep};
use pax::{
    upload_bytes, upload_file, upload_files, BluetoothBackend, ControllerModel, CoreVersion,
    DeviceId, Duration, EventOrigin, MockBackend, MockDevice, Observer, OutboundFile,
    ProgressObserver, ProgressUpdate, SpecContext, StandardsProfile, Timestamp, TransferReceipt,
    TransitEvent, TransitEventKind, Transport, TransportError, UploadOptions,
};

fn id() -> DeviceId {
    "AA:BB:CC:DD:EE:FF".parse().unwrap()
}

#[test]
fn single_file_round_trip() {
    let mut backend = MockBackend::builder()
        .device(MockDevice::new(id(), "x"))
        .build();
    let data = vec![7u8; 3000];
    let receipt = upload_bytes(&mut backend, id(), "blob.bin", &data, UploadOptions::default())
        .unwrap();
    assert_eq!(receipt.bytes, 3000);
    assert_eq!(receipt.object_name, "blob.bin");
}

#[test]
fn multiple_files_in_order() {
    let mut backend = MockBackend::builder()
        .device(MockDevice::new(id(), "x"))
        .build();
    let a = OutboundFile::new("a.txt", b"aaaa");
    let b = OutboundFile::new("b.txt", b"bbbbbbbb");
    let receipts = upload_files(&mut backend, id(), &[a, b], UploadOptions::default()).unwrap();
    assert_eq!(receipts.len(), 2);
    assert_eq!(receipts[0].object_name, "a.txt");
    assert_eq!(receipts[1].bytes, 8);
}

#[test]
fn persistent_failure_is_surfaced() {
    let mut backend = MockBackend::builder()
        .device(MockDevice::new(id(), "flaky").failing_transfer_after(1024))
        .build();
    let data = vec![0u8; 4096];
    let err = upload_bytes(
        &mut backend,
        id(),
        "big.bin",
        &data,
        UploadOptions {
            retries: 2,
            disconnect_after: true,
        },
    )
    .unwrap_err();
    assert!(matches!(err, TransportError::TransferFailed { .. }));
}

#[test]
fn unknown_target_is_not_pushed_to() {
    let mut backend = MockBackend::builder().build();
    let err = upload_file(
        &mut backend,
        id(),
        &OutboundFile::new("a", b"1"),
        UploadOptions::default(),
    )
    .unwrap_err();
    assert!(matches!(err, TransportError::DeviceNotFound(_)));
}

#[test]
fn connection_may_be_kept() {
    let rec = Arc::new(Watcher(Mutex::new((ProgressObserver::new(), Vec::new(), Vec::new()))));
    let mut backend = MockBackend::builder()
        .observer(rec.clone())
        .device(MockDevice::new(id(), "x"))
        .build();
    let keep = UploadOptions {
        retries: 0,
        disconnect_after: false,
    };
    upload_bytes(&mut backend, id(), "a", b"1", keep).unwrap();
    assert!(!rec.0.lock().unwrap().2.contains(&"disconnected"));
    upload_bytes(&mut backend, id(), "a", b"1", UploadOptions::default()).unwrap();
    assert!(rec.0.lock().unwrap().2.contains(&"disconnected"));
}

#[test]
fn only_a_cut_off_push_is_tried_again() {
    let cut = || TransportError::TransferFailed {
        transferred: 1,
        reason: "x".into(),
    };
    assert!(matches!(after_push(1, 2, Err(cut())), PushStep::Retry));
    assert!(matches!(after_push(2, 2, Err(cut())), PushStep::Done(Err(_))));
    assert!(matches!(
        after_push(1, 2, Err(TransportError::NotConnected(id()))),
        PushStep::Done(Err(_))
    ));
    let receipt = TransferReceipt {
        object_name: "a".into(),
        bytes: 1,
        chunks: 1,
        duration: Duration::zero(),
    };
    match after_push(1, 2, Ok(receipt.clone())) {
        PushStep::Done(Ok(r)) => assert_eq!(r, receipt),
        other => panic!("unexpected: {other:?}"),
    }
}

struct Watcher(Mutex<(ProgressObserver, Vec<ProgressUpdate>, Vec<&'static str>)>);

impl Observer for Watcher {
    fn on_event(&self, event: &TransitEvent) {
        let mut inner = self.0.lock().unwrap();
        inner.2.push(event.kind.label());
        if let Some(update) = inner.0.on_event(event) {
            inner.1.push(update);
        }
    }
}

#[test]
fn progress_rises_to_the_whole() {
    let rec = Arc::new(Watcher(Mutex::new((ProgressObserver::new(), Vec::new(), Vec::new()))));
    let mut backend = MockBackend::builder()
        .observer(rec.clone())
        .device(MockDevice::new(id(), "x"))
        .build();
    let conn = backend.connect(id()).unwrap();
    backend
        .push_file(&conn, &OutboundFile::new("o.bin", &[0u8; 2500]))
        .unwrap();
    let inner = rec.0.lock().unwrap();
    let seen: Vec<(u64, bool)> = inner.1.iter().map(|u| (u.transferred, u.done)).collect();
    assert!(seen.windows(2).all(|w| w[0].0 <= w[1].0));
    assert_eq!(*seen.last().unwrap(), (2500, true));
    assert!(inner.1.iter().all(|u| u.object == "o.bin" && u.total == 2500));
}

#[test]
fn other_events_are_no_progress() {
    let mut p = ProgressObserver::new();
    let e = TransitEvent::new(
        0,
        Timestamp::zero(),
        EventOrigin::new(
            ControllerModel::virtual_model("m"),
            id(),
            SpecContext::new(CoreVersion::V5_0, Transport::Le),
            StandardsProfile::bredr_default(),
        ),
        TransitEventKind::Connected,
    );
    assert!(p.on_event(&e).is_none());
}

#[test]
fn mime_type_is_kept() {
    let f = OutboundFile::new("a.txt", b"abc").with_mime("text/plain");
    assert_eq!(f.len(), 3);
    assert!(!f.is_empty());
    assert!(OutboundFile::new("e", b"").is_empty());
    assert_eq!(f.mime_type.as_deref(), Some("text/plain"));
}
