use std::sync::{Arc, Mutex};

use pax::{
    pair_device, upload_bytes, AcceptAllAgent, Analyzer, BluetoothBackend, Breakdown, ChipsetFamily,
    CompanyId, ControllerModel, CoreVersion, DeviceId, DiagnosticReport, Direction, DiscoveryFilter,
    EventOrigin, Metrics, MockBackend, MockDevice, Observer, PairOptions, PortAuthState, Recorder,
    ReportRates, SharedObserver, SpecContext, SplitBy, Standard802, StandardsProfile, Timestamp,
    TransitEvent, TransitEventKind, Transport, TransportError, UploadOptions,
};

fn throughput(m: &Metrics) -> f64 {
    let secs = m.span().as_nanos() as f64 / 1_000_000_000.0;
    if secs <= 0.0 {
        0.0
    } else {
        m.bytes as f64 / secs
    }
}

fn rates(b: &Breakdown) -> Vec<String> {
    b.buckets.iter().map(|(_, m)| format!("{:.0}", throughput(m))).collect()
}

fn render(r: &DiagnosticReport) -> String {
    let rates = ReportRates {
        total: format!("{:.0}", throughput(&r.total)),
        span_seconds: format!("{:.3}", r.total.span().as_nanos() as f64 / 1_000_000_000.0),
        by_controller: rates(&r.by_controller),
        by_spec: rates(&r.by_spec),
        by_transport: rates(&r.by_transport),
        by_radio_standard: rates(&r.by_radio_standard),
        by_port_auth: rates(&r.by_port_auth),
        by_event_kind: rates(&r.by_event_kind),
        by_peer: rates(&r.by_peer),
    };
    r.render(&rates)
}

fn event_of(ctrl: &str, seq: u64, at_ms: u64, kind: TransitEventKind) -> TransitEvent {
    TransitEvent::new(
        seq,
        Timestamp::from_millis(at_ms),
        EventOrigin::new(
            ControllerModel::virtual_model(ctrl),
            DeviceId::default(),
            SpecContext::new(CoreVersion::V5_2, Transport::BrEdr),
            StandardsProfile::bredr_default(),
        ),
        kind,
    )
}

fn data(ctrl: &str, bytes: u64, seq: u64, at_ms: u64) -> TransitEvent {
    event_of(
        ctrl,
        seq,
        at_ms,
        TransitEventKind::DataChunk {
            direction: Direction::Outbound,
            bytes,
        },
    )
}

fn error(seq: u64) -> TransitEvent {
    event_of(
        "mock-0",
        seq,
        seq,
        TransitEventKind::Error {
            detail: "link lost".into(),
        },
    )
}

// The recorder.

#[test]
fn records_in_order() {
    let event = |seq: u64| event_of("mock-0", seq, seq, TransitEventKind::Connected);
    let mut r = Recorder::new();
    r.on_event(&event(0));
    r.on_event(&event(1));
    assert_eq!(r.len(), 2);
    assert_eq!(r.events()[1].seq, 1);
    let drained = r.drain();
    assert_eq!(drained.len(), 2);
    assert!(r.is_empty());
}

// Metrics.

#[test]
fn throughput_over_span() {
    let events = vec![data("mock-0", 500, 0, 0), data("mock-0", 500, 1, 1000)];
    let m = Metrics::from_events(&events);
    assert_eq!(m.bytes, 1000);
    assert_eq!(m.span().as_millis(), 1000);
    assert_eq!(throughput(&m), 1000.0);
}

#[test]
fn split_keys() {
    let e = data("mock-0", 10, 0, 0);
    assert_eq!(SplitBy::Transport.key(&e), "BR/EDR");
    assert_eq!(SplitBy::RadioStandard.key(&e), "802.15.1");
    assert_eq!(SplitBy::PortAuth.key(&e), "n/a");
    assert_eq!(SplitBy::EventKind.key(&e), "data-chunk");
}

#[test]
fn counts_add_up_in_any_order() {
    let warning = event_of(
        "m",
        2,
        9,
        TransitEventKind::Warning {
            code: "slow".into(),
            detail: "d".into(),
        },
    );
    let forth = vec![data("m", 5, 0, 3), error(1), warning.clone()];
    let back = vec![warning, error(1), data("m", 5, 0, 3)];
    let (a, b) = (Metrics::from_events(&forth), Metrics::from_events(&back));
    assert_eq!(a, b);
    assert_eq!((a.events, a.bytes, a.failures, a.warnings), (3, 5, 1, 1));
    assert!(a.has_failures());
    assert_eq!(a.span().as_millis(), 8);
    assert!(Metrics::from_events(&[]).span().is_zero());
}

// Analysis.

#[test]
fn breakdown_by_controller_separates_hardware() {
    let analyzer = Analyzer::new(vec![
        data("chip-a", 100, 0, 0),
        data("chip-a", 100, 1, 10),
        data("chip-b", 500, 2, 20),
    ]);
    let bd = analyzer.breakdown(SplitBy::Controller);
    assert_eq!(bd.len(), 2);
    let busiest = bd.busiest().unwrap();
    assert!(busiest.0.contains("chip-b"));
    assert_eq!(busiest.1.bytes, 500);
}

#[test]
fn anomalies_capture_errors() {
    let analyzer = Analyzer::new(vec![data("c", 10, 0, 0), error(1)]);
    let anomalies = analyzer.anomalies();
    assert_eq!(anomalies.len(), 1);
    assert_eq!(anomalies[0].code, "error");
    assert_eq!(anomalies[0].seq, 1);
}

#[test]
fn report_holds_each_analysis() {
    let analyzer = Analyzer::new(vec![data("a", 100, 1, 0), data("b", 50, 2, 1), error(3)]);
    let report = analyzer.report();
    assert_eq!(report.total, analyzer.total());
    assert_eq!(report.anomalies, analyzer.anomalies());
    assert_eq!(report.by_peer, analyzer.breakdown(SplitBy::Peer));
    assert_eq!(report.by_event_kind, analyzer.breakdown(SplitBy::EventKind));
    let warnings: u64 = report.by_peer.buckets.iter().map(|b| b.1.warnings).sum();
    assert_eq!(warnings, report.total.warnings);
}

#[test]
fn report_renders_all_required_axes() {
    let analyzer = Analyzer::new(vec![data("chip-a", 100, 0, 0), data("chip-a", 100, 1, 100)]);
    let text = render(&analyzer.report());
    assert!(text.contains("Controller hardware"));
    assert!(text.contains("Bluetooth specification"));
    assert!(text.contains("802.15.x radio standard"));
    assert!(text.contains("802.1X port-auth state"));
    assert!(text.contains("Anomalies"));
    assert!(text.contains("total: 2 events, 200 bytes, 0 failures, 0 warnings, span 100ms, 2000 B/s"));
}

#[test]
fn stream_is_put_in_order() {
    let analyzer = Analyzer::new(vec![error(5), data("c", 1, 2, 0), error(3)]);
    let seqs: Vec<u64> = analyzer.events().iter().map(|e| e.seq).collect();
    assert_eq!(seqs, vec![2, 3, 5]);
    let found: Vec<u64> = analyzer.anomalies().iter().map(|a| a.seq).collect();
    assert_eq!(found, vec![3, 5]);
}

#[test]
fn buckets_hold_the_whole_stream() {
    let analyzer = Analyzer::new(vec![
        data("a", 10, 0, 0),
        data("b", 20, 1, 1),
        data("a", 30, 2, 2),
        error(3),
    ]);
    for axis in [SplitBy::Controller, SplitBy::EventKind, SplitBy::Peer, SplitBy::Spec] {
        let bd = analyzer.breakdown(axis);
        assert_eq!(bd.buckets.iter().map(|(_, m)| m.bytes).sum::<u64>(), analyzer.total().bytes);
        assert_eq!(bd.buckets.iter().map(|(_, m)| m.events).sum::<u64>(), 4);
        assert!(bd.buckets.windows(2).all(|w| w[0].0 < w[1].0));
    }
    let kinds = analyzer.breakdown(SplitBy::EventKind);
    assert!(kinds.contains_key("error"));
    assert!(kinds.get("connected").is_none());
}

// End to end.

struct Shared(Mutex<Recorder>);

impl Observer for Shared {
    fn on_event(&self, event: &TransitEvent) {
        self.0.lock().unwrap().on_event(event);
    }
}

fn phone() -> DeviceId {
    "11:22:33:44:55:66".parse().unwrap()
}

fn laptop() -> DeviceId {
    "AA:BB:CC:DD:EE:FF".parse().unwrap()
}

#[test]
fn full_session_is_recorded_and_analyzable_without_hardware() {
    let recorder = Arc::new(Shared(Mutex::new(Recorder::new())));
    let controller = ControllerModel::new(CompanyId::intel(), ChipsetFamily::Intel, "AX210");

    let phone_dev = MockDevice::new(phone(), "Test Phone")
        .with_rssi(-55)
        .with_spec(SpecContext::new(CoreVersion::V5_2, Transport::BrEdr))
        .with_standards(StandardsProfile::bredr_default());

    let laptop_dev = MockDevice::new(laptop(), "Test Laptop")
        .with_rssi(-65)
        .with_spec(SpecContext::new(CoreVersion::V5_0, Transport::Dual))
        .with_standards(
            StandardsProfile::bredr_default()
                .with_radio(Standard802::Wpan80215_1)
                .with_port_auth(PortAuthState::Authenticated),
        );

    let mut backend = MockBackend::builder()
        .controller(controller)
        .observer(recorder.clone() as SharedObserver)
        .device(phone_dev)
        .device(laptop_dev)
        .build();

    let found = backend.discover(&DiscoveryFilter::new()).unwrap();
    assert_eq!(found.len(), 2);

    let agent = AcceptAllAgent::new();
    let p1 = pair_device(&mut backend, phone(), &agent, PairOptions::default()).unwrap();
    let p2 = pair_device(&mut backend, laptop(), &agent, PairOptions::default()).unwrap();
    assert!(p1.outcome.paired && p2.outcome.paired);

    let phone_payload = vec![0xABu8; 8192];
    let laptop_payload = vec![0xCDu8; 2048];
    let r1 = upload_bytes(
        &mut backend,
        phone(),
        "a.bin",
        &phone_payload,
        UploadOptions::default(),
    )
    .unwrap();
    let r2 = upload_bytes(
        &mut backend,
        laptop(),
        "b.bin",
        &laptop_payload,
        UploadOptions::default(),
    )
    .unwrap();
    assert_eq!(r1.bytes, 8192);
    assert_eq!(r2.bytes, 2048);

    let analyzer = Analyzer::from_recorder(&recorder.0.lock().unwrap());
    assert!(analyzer.event_count() > 0);

    let total = analyzer.total();
    assert_eq!(total.bytes, 8192 + 2048);
    assert_eq!(total.failures, 0);

    let by_spec = analyzer.breakdown(SplitBy::Spec);
    assert_eq!(by_spec.len(), 2, "two distinct specs expected");

    let by_auth = analyzer.breakdown(SplitBy::PortAuth);
    assert!(by_auth.contains_key("n/a"));
    assert!(by_auth.contains_key("authenticated"));

    let by_peer = analyzer.breakdown(SplitBy::Peer);
    let busiest = by_peer.busiest().unwrap();
    assert_eq!(busiest.1.bytes, 8192);

    let by_hw = analyzer.breakdown(SplitBy::Controller);
    assert_eq!(by_hw.len(), 1);
    assert!(by_hw.buckets[0].0.contains("AX210"));

    let report = render(&analyzer.report());
    for needle in [
        "Controller hardware",
        "Bluetooth specification",
        "802.15.x radio standard",
        "802.1X port-auth state",
    ] {
        assert!(report.contains(needle), "report missing section: {needle}");
    }
}

#[test]
fn diagnostics_capture_a_failed_transfer() {
    let recorder = Arc::new(Shared(Mutex::new(Recorder::new())));
    let flaky = MockDevice::new(phone(), "Flaky").failing_transfer_after(1024);
    let mut backend = MockBackend::builder()
        .observer(recorder.clone() as SharedObserver)
        .device(flaky)
        .build();

    let data = vec![0u8; 4096];
    let err = upload_bytes(
        &mut backend,
        phone(),
        "doomed.bin",
        &data,
        UploadOptions {
            retries: 0,
            disconnect_after: true,
        },
    )
    .unwrap_err();
    assert!(matches!(err, TransportError::TransferFailed { .. }));

    let analyzer = Analyzer::from_recorder(&recorder.0.lock().unwrap());
    let anomalies = analyzer.anomalies();
    assert!(!anomalies.is_empty(), "expected at least one anomaly");
    assert!(anomalies.iter().any(|a| a.code == "error"));
}
