use std::sync::{Arc, Mutex};

use pax::{
    apply_spoof, connect_as, discover_as, dump_in_range, dump_in_range_as, AdapterInfo, AddressType,
    BackendKind, BdAddr, BluetoothBackend, Capabilities, ClassOfDevice, CompanyId, Connection,
    ControllerModel, CoreVersion, DefaultStandards, DeviceId, DeviceInfo, DiscoveryFilter, Duration,
    InboundPairing, MockBackend, MockDevice, Observer, OutboundFile, PairingAgent,
    PairingMethodHint, PairingOutcome, PairingRequest, PairingResponse, PortAuthState, SpecContext,
    StandardsFn, StandardsProfile, StandardsResolver, StaticStandards, TransferReceipt,
    TransitEvent, Transport, TransportError, Uuid,
};

#[derive(Default)]
struct Rec(Mutex<Vec<TransitEvent>>);

impl Observer for Rec {
    fn on_event(&self, e: &TransitEvent) {
        self.0.lock().unwrap().push(e.clone());
    }
}

impl Rec {
    fn labels(&self) -> Vec<&'static str> {
        self.0.lock().unwrap().iter().map(|e| e.kind.label()).collect()
    }

    fn count(&self, label: &str) -> usize {
        self.labels().iter().filter(|l| **l == label).count()
    }
}

fn phone() -> DeviceId {
    "11:22:33:44:55:66".parse().unwrap()
}

// Filters and backends.

#[test]
fn filter_accepts_by_name_and_rssi() {
    let info = DeviceInfo::new(DeviceId {
        addr: "00:1A:7D:DA:71:13".parse().unwrap(),
        addr_type: AddressType::Public,
    })
    .with_name("Pixel 8")
    .with_rssi(-60);

    assert!(DiscoveryFilter::new().accepts(&info));
    assert!(DiscoveryFilter::new().name_contains("pixel").accepts(&info));
    assert!(!DiscoveryFilter::new()
        .name_contains("galaxy")
        .accepts(&info));
    assert!(DiscoveryFilter::new().min_rssi(-70).accepts(&info));
    assert!(!DiscoveryFilter::new().min_rssi(-50).accepts(&info));
}

#[test]
fn filter_lowers_both_sides() {
    let info = DeviceInfo::new(phone()).with_name("ÉCLAIR");
    assert!(DiscoveryFilter::new().name_contains("éCLair").accepts(&info));
    let named = DiscoveryFilter::new().name_contains("X");
    assert!(named.accepts_named(&info, Some("éclair"), Some("éclair")));
    assert!(!named.accepts_named(&info, Some("ÉCLAIR"), Some("éclair")));
}

#[test]
fn filter_needs_what_it_asks_for() {
    let bare = DeviceInfo::new(phone());
    assert!(!DiscoveryFilter::new().name_contains("a").accepts(&bare));
    assert!(!DiscoveryFilter::new().min_rssi(-200).accepts(&bare));
    let at = DeviceInfo::new(phone()).with_rssi(-60);
    assert!(DiscoveryFilter::new().min_rssi(-60).accepts(&at));
    assert!(!DiscoveryFilter::new().min_rssi(-59).accepts(&at));
}

#[test]
fn backend_kind_names() {
    assert_eq!(BackendKind::Mock.name(), "mock");
    assert_eq!(BackendKind::BlueZ.name(), "bluez");
}

#[test]
fn mock_supports_every_radio() {
    let caps = MockBackend::builder().build().capabilities();
    assert!(caps.supports(Transport::Le));
    assert!(caps.supports(Transport::BrEdr));
    assert!(caps.can_spoof_address && caps.can_gatt && caps.can_accept_pairings);
}

#[test]
fn resolvers_resolve() {
    let up = StandardsProfile::bredr_default().with_port_auth(PortAuthState::Authenticated);
    assert_eq!(DefaultStandards.resolve(phone()), StandardsProfile::bredr_default());
    assert_eq!(StaticStandards(up).resolve(phone()), up);
    let by_peer = StandardsFn::new(move |peer: DeviceId| {
        if peer == phone() {
            up
        } else {
            StandardsProfile::bredr_default()
        }
    });
    assert_eq!(by_peer.resolve(phone()), up);
    assert_eq!(by_peer.resolve(DeviceId::default()), StandardsProfile::bredr_default());
}

struct NoSpoof;

impl BluetoothBackend for NoSpoof {
    fn name(&self) -> &str {
        "no-spoof"
    }
    fn capabilities(&self) -> Capabilities {
        Capabilities {
            kind: BackendKind::Btleplug,
            transports: vec![Transport::Le],
            can_pair: false,
            can_push_files: false,
            max_concurrent_pairings: 1,
            can_accept_pairings: false,
            can_gatt: false,
            can_spoof_address: false,
        }
    }
    fn adapter(&self) -> Result<AdapterInfo, TransportError> {
        Err(TransportError::Backend("n/a".into()))
    }
    fn set_powered(&mut self, _on: bool) -> Result<(), TransportError> {
        Ok(())
    }
    fn discover(&mut self, _filter: &DiscoveryFilter) -> Result<Vec<DeviceInfo>, TransportError> {
        Ok(vec![])
    }
    fn pair<A: PairingAgent + ?Sized>(
        &mut self,
        _target: DeviceId,
        _agent: &A,
    ) -> Result<PairingOutcome, TransportError> {
        Err(TransportError::Backend("n/a".into()))
    }
    fn connect(&mut self, _target: DeviceId) -> Result<Connection, TransportError> {
        Err(TransportError::Backend("n/a".into()))
    }
    fn disconnect(&mut self, _conn: &Connection) -> Result<(), TransportError> {
        Ok(())
    }
    fn push_file(
        &mut self,
        _conn: &Connection,
        _file: &OutboundFile<'_>,
    ) -> Result<TransferReceipt, TransportError> {
        Err(TransportError::Backend("n/a".into()))
    }
}

#[test]
fn apply_spoof_none_is_a_noop_even_on_unsupported_backend() {
    apply_spoof(&mut NoSpoof, None).unwrap();
}

#[test]
fn apply_spoof_on_unsupported_backend_fails_fast() {
    let addr: BdAddr = "02:00:00:11:22:33".parse().unwrap();
    let err = apply_spoof(&mut NoSpoof, Some(addr)).unwrap_err();
    match err {
        TransportError::Unsupported { backend, operation } => {
            assert_eq!(backend, "btleplug");
            assert_eq!(operation, "set_local_address");
        }
        other => panic!("expected Unsupported, got {}", other.to_string()),
    }
}

#[test]
fn default_set_local_address_is_unsupported() {
    let addr: BdAddr = "02:00:00:11:22:33".parse().unwrap();
    assert!(matches!(
        NoSpoof.set_local_address(addr),
        Err(TransportError::Unsupported { .. })
    ));
}

#[test]
fn other_defaults_are_unsupported() {
    let u = Uuid::from_u16(1);
    let conn = Connection::new(
        phone(),
        ControllerModel::virtual_model("x"),
        SpecContext::new(CoreVersion::V5_0, Transport::Le),
        StandardsProfile::bredr_default(),
        7,
    );
    assert_eq!(conn.token(), 7);
    let mut b = NoSpoof;
    for (got, op) in [
        (b.set_discoverable(true, None).err(), "set_discoverable"),
        (b.set_pairable(true, None).err(), "set_pairable"),
        (b.accept_pairings(&Yes, InboundPairing::default()).err(), "accept_pairings"),
        (b.gatt_read(&conn, u, u).err(), "gatt_read"),
        (b.gatt_write(&conn, u, u, &[1], true).err(), "gatt_write"),
        (b.gatt_subscribe(&conn, u, u).err(), "gatt_subscribe"),
    ] {
        match got {
            Some(TransportError::Unsupported { operation, .. }) => assert_eq!(operation, op),
            other => panic!("unexpected: {other:?}"),
        }
    }
}

#[test]
fn error_messages() {
    assert_eq!(
        TransportError::Unsupported {
            backend: "ios",
            operation: "pair"
        }
        .to_string(),
        "operation `pair` not supported by the ios backend"
    );
    assert_eq!(
        TransportError::TransferFailed {
            transferred: 12,
            reason: "cut".into()
        }
        .to_string(),
        "transfer failed after 12 bytes: cut"
    );
    assert_eq!(TransportError::Timeout("x".into()).to_string(), "timed out: x");
    assert_eq!(
        TransportError::NotConnected(phone()).to_string(),
        "not connected: 11:22:33:44:55:66"
    );
    assert_eq!(
        TransportError::from(BdAddr::parse("q").unwrap_err()).to_string(),
        "invalid Bluetooth address: q"
    );
}

// The mock.

fn build_and_push() -> (Arc<Rec>, TransferReceipt) {
    let rec = Arc::new(Rec::default());
    let mut backend = MockBackend::builder()
        .observer(rec.clone())
        .device(MockDevice::new(phone(), "Phone").with_rssi(-50))
        .build();
    let conn = backend.connect(phone()).unwrap();
    let data = vec![0u8; 4096];
    let receipt = backend
        .push_file(&conn, &OutboundFile::new("blob.bin", &data))
        .unwrap();
    (rec, receipt)
}

#[test]
fn push_is_chunked_and_deterministic() {
    let (rec, receipt) = build_and_push();
    assert_eq!(receipt.bytes, 4096);
    assert_eq!(receipt.chunks, 4);
    assert_eq!(receipt.duration.as_millis(), 5);
    let events = rec.0.lock().unwrap();
    assert!(events.iter().any(|e| e.kind.label() == "transfer-started"));
    assert!(events
        .iter()
        .any(|e| e.kind.label() == "transfer-completed"));
    assert_eq!(
        events
            .iter()
            .filter(|e| e.kind.label() == "data-chunk")
            .count(),
        4
    );
}

#[test]
fn same_session_gives_the_same_events() {
    let (a, ra) = build_and_push();
    let (b, rb) = build_and_push();
    assert_eq!(ra, rb);
    assert_eq!(*a.0.lock().unwrap(), *b.0.lock().unwrap());
}

#[test]
fn events_are_numbered_and_never_go_back() {
    let (rec, _) = build_and_push();
    let events = rec.0.lock().unwrap();
    for (i, e) in events.iter().enumerate() {
        assert_eq!(e.seq, i as u64);
        if i > 0 {
            assert!(events[i - 1].at <= e.at);
        }
    }
}

#[test]
fn unknown_device_is_an_error() {
    let mut backend = MockBackend::builder().build();
    let err = backend.connect(phone()).unwrap_err();
    assert!(matches!(err, TransportError::DeviceNotFound(_)));
}

#[test]
fn scripted_transfer_failure() {
    let rec = Arc::new(Rec::default());
    let mut backend = MockBackend::builder()
        .observer(rec.clone())
        .device(MockDevice::new(phone(), "Flaky").failing_transfer_after(2048))
        .build();
    let conn = backend.connect(phone()).unwrap();
    let data = vec![0u8; 4096];
    let err = backend
        .push_file(&conn, &OutboundFile::new("blob.bin", &data))
        .unwrap_err();
    match err {
        TransportError::TransferFailed { transferred, .. } => assert_eq!(transferred, 2048),
        other => panic!("unexpected: {}", other.to_string()),
    }
}

struct Yes;

impl PairingAgent for Yes {
    fn respond(&self, req: PairingRequest) -> PairingResponse {
        match req {
            PairingRequest::ConfirmJustWorks | PairingRequest::ConfirmPasskey { .. } => {
                PairingResponse::Confirm(true)
            }
            PairingRequest::RequestPinCode => PairingResponse::Pin("0000".into()),
            PairingRequest::RequestPasskey => PairingResponse::Passkey(0),
            _ => PairingResponse::Acknowledged,
        }
    }
}

#[test]
fn accept_pairings_bonds_incoming_devices() {
    let rec = Arc::new(Rec::default());
    let a: DeviceId = "AA:00:00:00:00:01".parse().unwrap();
    let b: DeviceId = "AA:00:00:00:00:02".parse().unwrap();
    let mut backend = MockBackend::builder()
        .observer(rec.clone())
        .incoming_device(MockDevice::new(a, "Phone A"))
        .incoming_device(MockDevice::new(b, "Phone B"))
        .build();

    let bonded = backend
        .accept_pairings(&Yes, InboundPairing::default())
        .unwrap();
    assert_eq!(bonded.len(), 2);
    assert!(bonded.contains(&a) && bonded.contains(&b));
    assert_eq!(rec.count("pairing-completed"), 2);
}

#[test]
fn only_bonded_devices_count_towards_the_cap() {
    let a: DeviceId = "AA:00:00:00:00:01".parse().unwrap();
    let b: DeviceId = "AA:00:00:00:00:02".parse().unwrap();
    let c: DeviceId = "AA:00:00:00:00:03".parse().unwrap();
    let mut backend = MockBackend::builder()
        .incoming_device(MockDevice::new(a, "A").failing_pairing("busy"))
        .incoming_device(MockDevice::new(b, "B"))
        .incoming_device(MockDevice::new(c, "C"))
        .build();
    let bonded = backend
        .accept_pairings(&Yes, InboundPairing::default().max_devices(1))
        .unwrap();
    assert_eq!(bonded, vec![b]);
    let none = backend
        .accept_pairings(&Yes, InboundPairing::default().max_devices(0))
        .unwrap();
    assert!(none.is_empty());
}

#[test]
fn accept_pairings_respects_max_devices() {
    let a: DeviceId = "AA:00:00:00:00:01".parse().unwrap();
    let b: DeviceId = "AA:00:00:00:00:02".parse().unwrap();
    let mut backend = MockBackend::builder()
        .incoming_device(MockDevice::new(a, "A"))
        .incoming_device(MockDevice::new(b, "B"))
        .build();
    let bonded = backend
        .accept_pairings(&Yes, InboundPairing::default().max_devices(1))
        .unwrap();
    assert_eq!(bonded, vec![a]);
}

#[test]
fn dump_in_range_reports_every_device() {
    let iphone: DeviceId = "AA:00:00:00:00:01".parse().unwrap();
    let pixel: DeviceId = "BB:00:00:00:00:02".parse().unwrap();
    let mut backend = MockBackend::builder()
        .device(
            MockDevice::new(iphone, "Erik's iPhone")
                .with_rssi(-55)
                .with_class(ClassOfDevice::new(0x7A_02_0C))
                .with_manufacturer_data(CompanyId::apple(), vec![0x10, 0x05])
                .with_service("0000110a-0000-1000-8000-00805f9b34fb"),
        )
        .device(MockDevice::new(pixel, "Pixel 8").with_rssi(-70))
        .build();

    let report = dump_in_range(&mut backend, &DiscoveryFilter::new()).unwrap();

    assert!(report.contains("2 device(s) in range"));
    assert!(report.contains("Erik's iPhone"));
    assert!(report.contains("iPhone/iOS"));
    assert!(report.contains("-55 dBm"));
    assert!(report.contains("Apple, Inc. (0x004C): 10 05"));
    assert!(report.contains("0000110a-"));
    assert!(report.contains("Pixel 8"));
    assert!(report.contains("Android"));
}

#[test]
fn discovery_stops_at_its_limit() {
    let mut backend = MockBackend::builder()
        .devices(vec![
            MockDevice::new(DeviceId::public(BdAddr::new([1, 0, 0, 0, 0, 1])), "a"),
            MockDevice::new(DeviceId::public(BdAddr::new([1, 0, 0, 0, 0, 2])), "b"),
        ])
        .build();
    let found = backend.discover(&DiscoveryFilter::new().limit(1)).unwrap();
    assert_eq!(found.len(), 1);
    assert_eq!(found[0].name.as_deref(), Some("a"));
}

#[test]
fn discovery_by_radio() {
    let mut backend = MockBackend::builder()
        .device(
            MockDevice::new(phone(), "le")
                .with_spec(SpecContext::new(CoreVersion::V5_0, Transport::Le)),
        )
        .build();
    let classic = DiscoveryFilter::new().transport(Transport::BrEdr);
    assert!(backend.discover(&classic).unwrap().is_empty());
    let le = DiscoveryFilter::new().transport(Transport::Le);
    assert_eq!(backend.discover(&le).unwrap().len(), 1);
}

#[test]
fn closed_connection_pushes_nothing() {
    let mut backend = MockBackend::builder()
        .device(MockDevice::new(phone(), "p"))
        .build();
    let conn = backend.connect(phone()).unwrap();
    backend.disconnect(&conn).unwrap();
    let err = backend
        .push_file(&conn, &OutboundFile::new("x", b"abc"))
        .unwrap_err();
    assert!(matches!(err, TransportError::NotConnected(_)));
    assert!(matches!(backend.disconnect(&conn), Err(TransportError::NotConnected(_))));
}

#[test]
fn agent_is_asked_by_the_device_model() {
    let rec = Arc::new(Rec::default());
    let mut backend = MockBackend::builder()
        .observer(rec.clone())
        .device(MockDevice::new(phone(), "p").with_pairing_method(PairingMethodHint::PinCode))
        .build();
    let outcome = backend.pair(phone(), &Yes).unwrap();
    assert_eq!(outcome, PairingOutcome::bonded(PairingMethodHint::PinCode));
    assert_eq!(rec.labels(), vec!["pairing-started", "pairing-completed"]);
}

#[test]
fn gatt_write_reads_back() {
    let (s, c) = (Uuid::from_u16(0x180A), Uuid::from_u16(0x2A29));
    let mut backend = MockBackend::builder()
        .device(MockDevice::new(phone(), "p").with_gatt(s, c, vec![1]).with_notification(
            s,
            c,
            vec![9],
        ))
        .build();
    let conn = backend.connect(phone()).unwrap();
    backend.gatt_write(&conn, s, c, &[2, 3], true).unwrap();
    assert_eq!(backend.gatt_read(&conn, s, c).unwrap(), vec![2, 3]);
    assert_eq!(backend.gatt_subscribe(&conn, s, c).unwrap(), vec![(c, vec![9])]);
    match backend.gatt_read(&conn, c, s) {
        Err(TransportError::Backend(text)) => {
            assert_eq!(text, "characteristic 0000180a-0000-1000-8000-00805f9b34fb not found")
        }
        other => panic!("unexpected: {other:?}"),
    }
}

#[test]
fn only_what_is_done_needs_room() {
    let brink = Duration::from_nanos(u128::MAX - 1_000_000);
    let rec = Arc::new(Rec::default());
    let mut backend = MockBackend::builder()
        .observer(rec.clone())
        .device(MockDevice::new(phone(), "p"))
        .build();
    backend
        .accept_pairings(&Yes, InboundPairing::for_window(brink))
        .unwrap();
    let found = backend.discover(&DiscoveryFilter::new().min_rssi(0)).unwrap();
    assert!(found.is_empty());
    assert_eq!(rec.labels(), vec!["discovery-started"]);
    assert_eq!(backend.now().nanos, u128::MAX);
    assert!(matches!(
        backend.discover(&DiscoveryFilter::new()),
        Err(TransportError::Unavailable(_))
    ));

    let mut cut = MockBackend::builder()
        .device(
            MockDevice::new(phone(), "slow")
                .with_transfer_profile(1, Duration::from_nanos(u128::MAX))
                .failing_transfer_after(0),
        )
        .build();
    let conn = cut.connect(phone()).unwrap();
    match cut.push_file(&conn, &OutboundFile::new("x", b"a")) {
        Err(TransportError::TransferFailed { transferred, .. }) => assert_eq!(transferred, 0),
        other => panic!("unexpected: {other:?}"),
    }

    let mut capped = MockBackend::builder()
        .incoming_device(MockDevice::new(phone(), "p"))
        .build();
    let whole = InboundPairing::for_window(Duration::from_nanos(u128::MAX)).max_devices(0);
    assert!(capped.accept_pairings(&Yes, whole).unwrap().is_empty());
    assert!(matches!(
        capped.accept_pairings(&Yes, InboundPairing::default()),
        Err(TransportError::Unavailable(_))
    ));
}

#[test]
fn exhausted_clock_is_reported() {
    let mut backend = MockBackend::builder()
        .device(
            MockDevice::new(phone(), "slow")
                .with_transfer_profile(1, Duration::from_nanos(u128::MAX)),
        )
        .build();
    let conn = backend.connect(phone()).unwrap();
    let err = backend
        .push_file(&conn, &OutboundFile::new("x", b"ab"))
        .unwrap_err();
    assert!(matches!(err, TransportError::Unavailable(_)));
}

#[test]
fn power_and_adapter() {
    let mut backend = MockBackend::builder()
        .name("m")
        .adapter_name("radio")
        .adapter_address(BdAddr::new([9; 6]))
        .build();
    assert_eq!(backend.name(), "m");
    assert!(backend.adapter().unwrap().powered);
    backend.set_powered(false).unwrap();
    let a = backend.adapter().unwrap();
    assert!(!a.powered);
    assert_eq!(a.name, "radio");
    assert_eq!(a.address, BdAddr::new([9; 6]));
}

// Spoofing.

fn sensor() -> DeviceId {
    "AA:00:00:00:00:01".parse().unwrap()
}

fn spoofable() -> MockBackend {
    let svc = Uuid::from_u16(0x180A);
    let chr = Uuid::from_u16(0x2A29);
    MockBackend::builder()
        .adapter_address(BdAddr::new([0x00, 0x00, 0x00, 0x00, 0x00, 0x01]))
        .device(
            MockDevice::new(sensor(), "Sensor")
                .with_rssi(-50)
                .with_gatt(svc, chr, b"ACME".to_vec()),
        )
        .build()
}

#[test]
fn operations_keep_the_identity_and_the_pairings() {
    let rec = Arc::new(Rec::default());
    let mut backend = MockBackend::builder()
        .observer(rec.clone())
        .device(MockDevice::new(sensor(), "Sensor").with_rssi(-50))
        .build();
    let spoof: BdAddr = "02:00:00:DE:AD:BE".parse().unwrap();
    backend.set_local_address(spoof).unwrap();
    let before = backend.now();

    backend.discover(&DiscoveryFilter::new()).unwrap();
    let seen = rec.labels();
    assert!(backend.pair(sensor(), &Yes).unwrap().paired);
    let conn = backend.connect(sensor()).unwrap();
    backend
        .push_file(&conn, &OutboundFile::new("a.bin", &[7, 8, 9]))
        .unwrap();
    backend.disconnect(&conn).unwrap();

    let info = backend.adapter().unwrap();
    assert_eq!(info.address, spoof);
    assert!(info.powered);
    assert!(before.nanos < backend.now().nanos);
    assert_eq!(rec.labels()[..seen.len()], seen[..]);
    assert!(seen.len() < rec.labels().len());
}

#[test]
fn scan_connect_and_gatt_under_a_spoofed_identity() {
    let mut backend = spoofable();
    let spoof: BdAddr = "02:00:00:DE:AD:BE".parse().unwrap();

    let report = dump_in_range_as(&mut backend, Some(spoof), &DiscoveryFilter::new()).unwrap();
    assert!(report.contains("1 device(s) in range"));
    assert_eq!(backend.adapter().unwrap().address, spoof);

    let other: BdAddr = "02:00:00:00:00:42".parse().unwrap();
    let conn = connect_as(&mut backend, Some(other), sensor()).unwrap();
    assert_eq!(backend.adapter().unwrap().address, other);
    let value = backend
        .gatt_read(&conn, Uuid::from_u16(0x180A), Uuid::from_u16(0x2A29))
        .unwrap();
    assert_eq!(value, b"ACME");
}

#[test]
fn discover_as_without_spoof_keeps_the_real_address() {
    let mut backend = spoofable();
    let original = backend.adapter().unwrap().address;

    let found = discover_as(&mut backend, None, &DiscoveryFilter::new()).unwrap();
    assert_eq!(found.len(), 1);
    assert_eq!(backend.adapter().unwrap().address, original);
}

#[test]
fn apply_spoof_is_idempotent_and_repeatable() {
    let mut backend = spoofable();
    let a: BdAddr = "02:00:00:00:00:0A".parse().unwrap();
    let b: BdAddr = "02:00:00:00:00:0B".parse().unwrap();

    apply_spoof(&mut backend, Some(a)).unwrap();
    apply_spoof(&mut backend, Some(a)).unwrap();
    assert_eq!(backend.adapter().unwrap().address, a);

    apply_spoof(&mut backend, Some(b)).unwrap();
    assert_eq!(backend.adapter().unwrap().address, b);
}
