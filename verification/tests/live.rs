use pax::adapter::{
    advertised_device, bonded_devices, capabilities_of, characteristic_position, hci_index,
    identified_controller, identified_spec, identify, keep_open, no_index, pairing_offered,
    pushing_offered, safe_char, stack_device, staged_name, timeout_secs, Advertisement, BondedEntry,
    StackEntry,
};
use pax::live::{pairing_end, transfer_done, transfer_lost, DiscoveryRun, Reporter};
use pax::mgmt::ControllerInfo;
use pax::port_auth::{self, NetworkDevice, PortCache};
use pax::wpa::{self, Supplicant};
use pax::{
    AddressType, BackendKind, BdAddr, ChipsetFamily, ClassOfDevice, CompanyId, ControllerModel,
    CoreVersion, DeviceId, DeviceInfo, DiscoveryFilter, Duration, PairingMethodHint,
    PairingOutcome, PortAuthState, SpecContext, StandardsProfile, Timestamp, TransitEventKind,
    Transport, TransportError, Uuid,
};

fn id(last: u8) -> DeviceId {
    DeviceId::public(BdAddr::new([1, 2, 3, 4, 5, last]))
}

// Port authentication.

#[test]
fn port_auth_state_mapping() {
    assert_eq!(
        port_auth::map_state(port_auth::NM_STATE_NEED_AUTH),
        PortAuthState::Authenticating
    );
    assert_eq!(
        port_auth::map_state(port_auth::NM_STATE_ACTIVATED),
        PortAuthState::Authenticated
    );
    assert_eq!(port_auth::map_state(port_auth::NM_STATE_FAILED), PortAuthState::Failed);
    assert_eq!(port_auth::map_state(0), PortAuthState::Unauthenticated);
}

#[test]
fn port_cache_follows_the_listing() {
    let entry = |device_type: u32, hw: Option<&str>, state: u32| NetworkDevice {
        device_type,
        hw_address: hw.map(|s| s.to_string()),
        state,
    };
    let cache = PortCache::refreshed(&vec![
        entry(5, Some("01:02:03:04:05:01"), 60),
        entry(1, Some("01:02:03:04:05:02"), 100),
        entry(5, None, 100),
        entry(5, Some("junk"), 100),
        entry(5, Some("01:02:03:04:05:01"), 100),
    ]);
    assert_eq!(cache.entries.len(), 1);
    assert_eq!(cache.resolve(id(1)).port_auth, PortAuthState::Authenticated);
    assert_eq!(cache.resolve(id(2)), StandardsProfile::bredr_default());
    assert_eq!(
        cache.resolve(DeviceId::random(id(1).addr)).port_auth,
        PortAuthState::NotApplicable
    );
    assert_eq!(PortCache::new().resolve(id(1)).port_auth, PortAuthState::NotApplicable);
}

#[test]
fn wpa_state_mapping() {
    assert_eq!(wpa::map_state("completed"), PortAuthState::Authenticated);
    assert_eq!(wpa::map_state("4way_handshake"), PortAuthState::Authenticating);
    assert_eq!(wpa::map_state("associating"), PortAuthState::Authenticating);
    assert_eq!(wpa::map_state("disconnected"), PortAuthState::Unauthenticated);
    assert_eq!(wpa::map_state("inactive"), PortAuthState::Unauthenticated);
    assert_eq!(wpa::map_state("weird"), PortAuthState::Unauthenticated);
}

#[test]
fn most_authenticated_wins() {
    assert!(wpa::rank(PortAuthState::Authenticated) > wpa::rank(PortAuthState::Authenticating));
    assert!(wpa::rank(PortAuthState::Authenticating) > wpa::rank(PortAuthState::Unauthenticated));
}

#[test]
fn best_interface_counts() {
    let iface = |name: &str, state: Option<&str>| Supplicant {
        ifname: name.into(),
        state: state.map(|s| s.to_string()),
    };
    let forth = vec![
        iface("a", Some("inactive")),
        iface("b", Some("completed")),
        iface("c", None),
        iface("d", Some("associated")),
    ];
    let back: Vec<Supplicant> = vec![
        iface("d", Some("associated")),
        iface("c", None),
        iface("b", Some("completed")),
        iface("a", Some("inactive")),
    ];
    assert_eq!(wpa::best_state(&forth, &None), PortAuthState::Authenticated);
    assert_eq!(wpa::best_state(&back, &None), PortAuthState::Authenticated);
    assert_eq!(wpa::best_state(&forth, &Some("d".into())), PortAuthState::Authenticating);
    assert_eq!(wpa::best_state(&forth, &Some("c".into())), PortAuthState::NotApplicable);
    assert_eq!(wpa::best_state(&vec![], &None), PortAuthState::NotApplicable);
    assert_eq!(
        wpa::resolve(PortAuthState::Failed, id(1)),
        StandardsProfile::bredr_default().with_port_auth(PortAuthState::Failed)
    );
}

// Adapters.

#[test]
fn index_is_read_from_the_name() {
    assert_eq!(hci_index("hci0"), Some(0));
    assert_eq!(hci_index("hci65535"), Some(65535));
    assert_eq!(hci_index("hci65536"), None);
    assert_eq!(hci_index("hci"), None);
    assert_eq!(hci_index("usb0"), None);
    assert_eq!(
        no_index("\"usb0\"").to_string(),
        "cannot set the local address: cannot derive an HCI index from adapter name \"usb0\""
    );
}

#[test]
fn kernel_identity_outranks_the_modalias() {
    let info = ControllerInfo {
        manufacturer: 2,
        hci_version: 9,
    };
    assert_eq!(
        identify(Some(info), Some(0x1D6B)),
        (CompanyId::intel(), Some(CoreVersion::V5_0))
    );
    assert_eq!(identify(None, Some(0x1_000F)), (CompanyId::broadcom(), None));
    assert_eq!(identify(None, None), (CompanyId(0xFFFF), None));
    let m = identified_controller(CompanyId::intel(), "AX210");
    assert_eq!(m, ControllerModel::new(CompanyId::intel(), ChipsetFamily::Intel, "AX210"));
    assert_eq!(
        identified_spec(None),
        SpecContext::new(CoreVersion::V5_0, Transport::Dual)
    );
}

#[test]
fn capabilities_differ_by_backend() {
    let ios = capabilities_of(BackendKind::Ios);
    assert!(!ios.can_pair && !ios.can_push_files && ios.can_gatt);
    assert_eq!(ios.transports, vec![Transport::Le]);
    let bluez = capabilities_of(BackendKind::BlueZ);
    assert!(bluez.can_pair && bluez.can_accept_pairings && bluez.can_spoof_address);
    assert_eq!(bluez.max_concurrent_pairings, 1);
    assert!(!capabilities_of(BackendKind::Android).can_accept_pairings);
}

#[test]
fn low_energy_backends_refuse() {
    assert!(pairing_offered(BackendKind::BlueZ).is_ok());
    assert_eq!(
        pairing_offered(BackendKind::Ios).unwrap_err().to_string(),
        "operation `pair (CoreBluetooth does not expose programmatic pairing)` not supported by the ios backend"
    );
    assert_eq!(
        pushing_offered(BackendKind::Btleplug).unwrap_err().to_string(),
        "operation `push_file (OBEX Object Push is BR/EDR-only)` not supported by the btleplug backend"
    );
}

#[test]
fn window_closes_at_its_end_or_when_full() {
    let left = Duration::from_secs(1);
    assert_eq!(keep_open(0, None, left), Some(Duration::from_millis(250)));
    assert_eq!(
        keep_open(0, Some(2), Duration::from_millis(10)),
        Some(Duration::from_millis(10))
    );
    assert_eq!(keep_open(2, Some(2), left), None);
    assert_eq!(keep_open(0, None, Duration::zero()), None);
    assert_eq!(timeout_secs(Duration::from_millis(2_999)), 2);
}

#[test]
fn staged_names_are_plain() {
    assert_eq!(staged_name(7, "a b/c.txt"), "pax-obex-7-a_b_c.txt");
    assert_eq!(staged_name(7, "naïve-1_2"), "pax-obex-7-naïve-1_2");
    assert_eq!(safe_char('/', false), '_');
    assert_eq!(safe_char('.', false), '.');
}

#[test]
fn characteristics_are_found_by_both_names() {
    let (a, b) = (Uuid::from_u16(1), Uuid::from_u16(2));
    assert_eq!(characteristic_position(&[(a, a), (a, b), (a, b)], a, b).unwrap(), 1);
    match characteristic_position(&[(a, a)], a, b) {
        Err(TransportError::Backend(t)) => {
            assert_eq!(t, "characteristic 00000002-0000-1000-8000-00805f9b34fb not found")
        }
        other => panic!("unexpected: {other:?}"),
    }
}

// Devices.

#[test]
fn bonded_list_skips_what_has_no_address() {
    let found = bonded_devices(&vec![
        BondedEntry {
            addr: None,
            name: Some("x".into()),
            class_bits: None,
        },
        BondedEntry {
            addr: Some("01:02:03:04:05:09".into()),
            name: Some("Pixel".into()),
            class_bits: Some(-1),
        },
        BondedEntry {
            addr: Some("junk".into()),
            name: None,
            class_bits: None,
        },
    ]);
    assert_eq!(found.len(), 1);
    assert_eq!(found[0].id, id(9));
    assert!(found[0].paired);
    assert_eq!(found[0].class, Some(ClassOfDevice(0xFF_FFFF)));
    assert_eq!(found[0].name.as_deref(), Some("Pixel"));
}

#[test]
fn scanned_devices_are_described() {
    let d = advertised_device(Advertisement {
        addr: id(1).addr,
        public: false,
        name: None,
        rssi: Some(-40),
        tx_power: Some(4),
        connected: true,
        manufacturer_data: vec![(CompanyId::apple(), vec![1])],
        services: vec!["s".into()],
    });
    assert_eq!(d.id.addr_type, AddressType::Random);
    assert_eq!(d.tx_power, Some(4));
    assert!(d.connected && !d.paired);
    let s = stack_device(StackEntry {
        addr: id(1).addr,
        name: Some("n".into()),
        rssi: None,
        paired: true,
        connected: false,
        class: Some(0x5A_02_0C),
        services: vec![],
    });
    assert_eq!(s.id, id(1));
    assert_eq!(s.class, Some(ClassOfDevice::new(0x5A_02_0C)));
    assert!(s.paired);
}

#[test]
fn scan_stops_at_its_limit() {
    let mut run = DiscoveryRun::new(DiscoveryFilter::new().min_rssi(-60).limit(1));
    assert!(run.offer(DeviceInfo::new(id(1))).is_none());
    assert!(!run.is_full());
    match run.offer(DeviceInfo::new(id(2)).with_rssi(-50)) {
        Some(TransitEventKind::DeviceDiscovered { rssi }) => assert_eq!(rssi, Some(-50)),
        other => panic!("unexpected: {other:?}"),
    }
    assert!(run.is_full());
    assert!(run.offer(DeviceInfo::new(id(3)).with_rssi(-50)).is_none());
    assert_eq!(run.finish().len(), 1);
    let mut none = DiscoveryRun::new(DiscoveryFilter::new().limit(0));
    assert!(none.is_full());
    assert!(none.offer(DeviceInfo::new(id(1))).is_none());
    assert!(none.finish().is_empty());
}

// Events.

#[test]
fn events_are_stamped_in_turn() {
    let mut r = Reporter::new(
        ControllerModel::virtual_model("m"),
        SpecContext::new(CoreVersion::V5_0, Transport::Le),
    );
    let at = Timestamp::from_millis(3);
    let p = StandardsProfile::bredr_default();
    let a = r.event(at, id(1), p, TransitEventKind::Connected);
    let b = r.event(at, id(2), p, TransitEventKind::Connected);
    assert_eq!((a.seq, b.seq), (0, 1));
    assert_eq!(b.origin.peer, id(2));
    assert_eq!(a.at, at);
    r.seq = u64::MAX;
    r.event(at, id(1), p, TransitEventKind::Connected);
    assert_eq!(r.seq, 0);
}

#[test]
fn operations_are_concluded() {
    let (kind, receipt) = transfer_done("a".into(), 9, 0, Duration::from_secs(1));
    assert_eq!(kind.label(), "transfer-completed");
    assert_eq!(receipt.chunks, 1);
    match transfer_lost(&TransportError::Timeout("late".into())) {
        TransitEventKind::Error { detail } => assert_eq!(detail, "timed out: late"),
        other => panic!("unexpected: {other:?}"),
    }
    let (kind, result) = pairing_end(PairingMethodHint::PinCode, None);
    assert_eq!(kind.label(), "pairing-completed");
    assert_eq!(result.unwrap(), PairingOutcome::bonded(PairingMethodHint::PinCode));
    let (kind, result) = pairing_end(PairingMethodHint::JustWorks, Some("no"));
    assert!(kind.is_failure());
    assert!(matches!(result, Err(TransportError::PairingFailed(r)) if r == "no"));
}
