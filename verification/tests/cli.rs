use pax::cli::{
    bonded_lines, default_backend, demo_mock, gatt, item_line, keep_listening, notification_lines,
    paired_line, parse_hex, parse_ids, sent_line, spoof_local, value_line, CliError, GattOp,
};
use pax::{
    dump_in_range, pair_devices, AcceptAllAgent, AdapterInfo, BackendKind, BatchPairOptions, BdAddr,
    BluetoothBackend, Capabilities, Connection, DeviceId, DeviceInfo, DiscoveryFilter, Duration,
    MockBackend, OutboundFile, PairingAgent, PairingOutcome, TransferReceipt, TransportError, Uuid,
};

#[test]
fn spoof_subcommand_sets_the_address() {
    let mut backend = demo_mock().build();
    let addr = spoof_local(&mut backend, "02:00:00:11:22:33").unwrap();
    assert_eq!(addr.to_string(), "02:00:00:11:22:33");
    assert_eq!(backend.adapter().unwrap().address, addr);
}

#[test]
fn global_spoof_flag_runs_the_command_under_it() {
    let mut backend = demo_mock().build();
    spoof_local(&mut backend, "02:00:00:AA:BB:CC").unwrap();
    let out = dump_in_range(&mut backend, &DiscoveryFilter::new()).unwrap();
    assert!(out.contains("device(s) in range"), "got: {out}");
    assert!(out.contains("Demo Phone") && out.contains("Demo Headset"));
}

#[test]
fn invalid_spoof_address_is_rejected() {
    let mut backend = demo_mock().build();
    let err = spoof_local(&mut backend, "not-an-address").unwrap_err();
    assert!(err.to_string().contains("invalid"), "error: {}", err.to_string());
}

#[test]
fn mock_backend_accepts_spoofing() {
    let mut backend = demo_mock().build();
    assert!(spoof_local(&mut backend, "02:00:00:00:00:01").is_ok());
}

struct Fixed;

impl BluetoothBackend for Fixed {
    fn name(&self) -> &str {
        "fixed"
    }
    fn capabilities(&self) -> Capabilities {
        Capabilities {
            can_spoof_address: false,
            kind: BackendKind::Btleplug,
            ..MockBackend::builder().build().capabilities()
        }
    }
    fn adapter(&self) -> Result<AdapterInfo, TransportError> {
        MockBackend::builder().build().adapter()
    }
    fn set_powered(&mut self, _on: bool) -> Result<(), TransportError> {
        Ok(())
    }
    fn discover(&mut self, _filter: &DiscoveryFilter) -> Result<Vec<DeviceInfo>, TransportError> {
        Ok(vec![])
    }
    fn pair<A: PairingAgent + ?Sized>(
        &mut self,
        target: DeviceId,
        _agent: &A,
    ) -> Result<PairingOutcome, TransportError> {
        Err(TransportError::DeviceNotFound(target))
    }
    fn connect(&mut self, target: DeviceId) -> Result<Connection, TransportError> {
        Err(TransportError::DeviceNotFound(target))
    }
    fn disconnect(&mut self, _conn: &Connection) -> Result<(), TransportError> {
        Ok(())
    }
    fn push_file(
        &mut self,
        conn: &Connection,
        _file: &OutboundFile<'_>,
    ) -> Result<TransferReceipt, TransportError> {
        Err(TransportError::NotConnected(conn.peer))
    }
}

#[test]
fn spoofing_is_refused_where_it_cannot_be_done() {
    let err = spoof_local(&mut Fixed, "02:00:00:00:00:01").unwrap_err();
    assert!(matches!(err, CliError::NoSpoofing(BackendKind::Btleplug)));
    assert_eq!(
        err.to_string(),
        "the `btleplug` backend cannot spoof a local address — use --backend bluez (Linux) or --backend mock"
    );
    assert_eq!(
        CliError::NotBuilt(BackendKind::BlueZ).to_string(),
        "this build has no `bluez` backend — rebuild with `--features bluez`"
    );
}

fn op(addr: &str) -> GattOp {
    GattOp::Read {
        addr: addr.into(),
        service: "180a".into(),
        characteristic: "2a29".into(),
    }
}

#[test]
fn gatt_read_shows_the_value() {
    let mut backend = demo_mock().build();
    let lines = gatt(&mut backend, &op("11:22:33:44:55:66")).unwrap();
    assert_eq!(lines, vec!["2a29 = [41, 43, 4D, 45]"]);
}

#[test]
fn gatt_write_changes_the_value() {
    let mut backend = demo_mock().build();
    let write = GattOp::Write {
        addr: "11:22:33:44:55:66".into(),
        service: "180a".into(),
        characteristic: "2a29".into(),
        hex: "01:ff".into(),
    };
    assert_eq!(gatt(&mut backend, &write).unwrap(), vec!["wrote 2 byte(s)"]);
    let lines = gatt(&mut backend, &op("11:22:33:44:55:66")).unwrap();
    assert_eq!(lines, vec!["2a29 = [01, FF]"]);
}

#[test]
fn gatt_subscribe_shows_notifications() {
    let mut backend = demo_mock().build();
    let watch = GattOp::Subscribe {
        addr: "11:22:33:44:55:66".into(),
        service: "180d".into(),
        characteristic: "2a37".into(),
        count: 5,
    };
    assert_eq!(
        gatt(&mut backend, &watch).unwrap(),
        vec!["00002a37-0000-1000-8000-00805f9b34fb = [06, 48]"]
    );
}

#[test]
fn gatt_failures() {
    let mut backend = demo_mock().build();
    assert!(matches!(gatt(&mut backend, &op("nowhere")), Err(CliError::Core(_))));
    assert!(matches!(
        gatt(&mut backend, &op("00:00:00:00:00:09")),
        Err(CliError::Transport(TransportError::DeviceNotFound(_)))
    ));
    let bad = GattOp::Read {
        addr: "11:22:33:44:55:66".into(),
        service: "what".into(),
        characteristic: "2a29".into(),
    };
    assert_eq!(
        gatt(&mut backend, &bad).unwrap_err().to_string(),
        "invalid UUID: cannot parse `what`"
    );
    let odd = GattOp::Write {
        addr: "11:22:33:44:55:66".into(),
        service: "180a".into(),
        characteristic: "2a29".into(),
        hex: "123".into(),
    };
    assert!(matches!(gatt(&mut backend, &odd), Err(CliError::OddHex)));
}

#[test]
fn hex_payloads() {
    assert_eq!(parse_hex("01ff").unwrap(), vec![0x01, 0xff]);
    assert_eq!(parse_hex(" 0 1:F F\t").unwrap(), vec![0x01, 0xff]);
    assert_eq!(parse_hex("").unwrap(), Vec::<u8>::new());
    assert!(matches!(parse_hex("+f"), Err(CliError::BadHex)));
    assert!(matches!(parse_hex("1"), Err(CliError::OddHex)));
    assert!(matches!(parse_hex("zz"), Err(CliError::BadHex)));
    assert!(matches!(parse_hex("é"), Err(CliError::BadHex)));
    assert_eq!(
        parse_hex("1").unwrap_err().to_string(),
        "hex payload must have an even number of digits"
    );
    assert_eq!(parse_hex("zz").unwrap_err().to_string(), "invalid hex");
}

#[test]
fn written_bytes_parse_back() {
    let bytes: Vec<u8> = (0..=255).collect();
    let text: String = bytes.iter().map(|b| format!("{b:02x}")).collect();
    assert_eq!(parse_hex(&text).unwrap(), bytes);
}

#[test]
fn ids_are_read_in_order() {
    let good = vec!["01:02:03:04:05:06".to_string(), "11-22-33-44-55-66".to_string()];
    let ids = parse_ids(&good).unwrap();
    assert_eq!(ids[0].addr, BdAddr::new([1, 2, 3, 4, 5, 6]));
    assert_eq!(ids[1].addr, BdAddr::new([0x11, 0x22, 0x33, 0x44, 0x55, 0x66]));
    let bad = vec!["01:02:03:04:05:06".to_string(), "x".to_string(), "y".to_string()];
    assert_eq!(
        parse_ids(&bad).unwrap_err().to_string(),
        "invalid Bluetooth address: x"
    );
}

#[test]
fn printed_lines() {
    let id: DeviceId = "01:02:03:04:05:06".parse().unwrap();
    assert_eq!(paired_line(id, 2), "paired 01:02:03:04:05:06 in 2 attempt(s)");
    assert_eq!(value_line("x", &[]), "x = []");
    assert_eq!(
        bonded_lines(&vec![id]),
        vec!["bonded 1 device(s):", "  01:02:03:04:05:06"]
    );
    let receipt = TransferReceipt {
        object_name: "a.txt".into(),
        bytes: 12,
        chunks: 1,
        duration: Duration::from_secs(1),
    };
    assert_eq!(sent_line(&receipt, "12"), "sent a.txt (12 bytes) at 12 B/s");
}

#[test]
fn batch_lines() {
    let mut backend = demo_mock().build();
    let ids: Vec<DeviceId> = vec![
        "11:22:33:44:55:66".parse().unwrap(),
        "00:00:00:00:00:09".parse().unwrap(),
    ];
    let items = pair_devices(
        &mut backend,
        &ids,
        &AcceptAllAgent::new(),
        BatchPairOptions::default(),
    );
    assert_eq!(item_line(&items[0]), "  11:22:33:44:55:66 -> paired (1 attempt(s))");
    assert_eq!(
        item_line(&items[1]),
        "  00:00:00:00:00:09 -> failed (device not found: 00:00:00:00:00:09) (1 attempt(s))"
    );
}

#[test]
fn listening_stops_at_the_count() {
    let c = Uuid::from_u16(1);
    let notes = vec![(c, vec![1]), (c, vec![2]), (c, vec![3])];
    assert_eq!(notification_lines(&notes, 2).len(), 2);
    assert_eq!(notification_lines(&notes, 0).len(), 0);
    assert_eq!(notification_lines(&notes, 9).len(), 3);
    assert!(keep_listening(1, 2));
    assert!(!keep_listening(2, 2));
}

#[test]
fn real_backends_come_first() {
    assert_eq!(default_backend(true, true), BackendKind::BlueZ);
    assert_eq!(default_backend(false, true), BackendKind::Btleplug);
    assert_eq!(default_backend(false, false), BackendKind::Mock);
}
