use std::collections::HashMap;
use std::sync::{Arc, Mutex};

use pax::peer::{classify, platform_from_name};
use pax::{
    detect_platform, AddressType, BdAddr, ChipsetFamily, ClassOfDevice, CompanyId, ControllerModel,
    CoreVersion, DeviceId, DeviceInfo, Direction, Duration, Error, EventOrigin, FanOut,
    MajorDeviceClass, NoopObserver, Observer, PairingMethodHint, PeerPlatform, PortAuthState,
    SpecContext, Standard802, StandardsLayer, StandardsProfile, Timestamp, TransitEvent,
    TransitEventKind, Transport, Uuid,
};

fn id() -> DeviceId {
    "00:1A:7D:DA:71:13".parse().unwrap()
}

fn origin() -> EventOrigin {
    EventOrigin::new(
        ControllerModel::virtual_model("mock-0"),
        id(),
        SpecContext::new(CoreVersion::V5_2, Transport::BrEdr),
        StandardsProfile::bredr_default(),
    )
}

fn as_secs_f64(d: Duration) -> f64 {
    d.as_nanos() as f64 / 1_000_000_000.0
}

fn readable(d: Duration) -> String {
    d.readable_text(&format!("{:.3}", as_secs_f64(d)))
}

// Addresses.

#[test]
fn parses_colon_and_dash_forms_equal() {
    let a: BdAddr = "AA:BB:CC:DD:EE:FF".parse().unwrap();
    let b: BdAddr = "aa-bb-cc-dd-ee-ff".parse().unwrap();
    assert_eq!(a, b);
    assert_eq!(a.octets(), [0xAA, 0xBB, 0xCC, 0xDD, 0xEE, 0xFF]);
}

#[test]
fn rejects_malformed() {
    assert!("not-an-address".parse::<BdAddr>().is_err());
    assert!("00:1A:7D:DA:71".parse::<BdAddr>().is_err());
    assert!("00:1A:7D:DA:71:13:99".parse::<BdAddr>().is_err());
    assert!("0:1A:7D:DA:71:13".parse::<BdAddr>().is_err());
    assert!("ZZ:1A:7D:DA:71:13".parse::<BdAddr>().is_err());
}

#[test]
fn locally_administered_bit() {
    let random: BdAddr = "02:00:00:00:00:01".parse().unwrap();
    assert!(random.is_locally_administered());
    let public: BdAddr = "00:1A:7D:DA:71:13".parse().unwrap();
    assert!(!public.is_locally_administered());
}

#[test]
fn roundtrips_through_display() {
    let s = "00:1A:7D:DA:71:13";
    assert_eq!(s.parse::<BdAddr>().unwrap().to_string(), s);
}

#[test]
fn address_parts() {
    let a = BdAddr::new([0x00, 0x1A, 0x7D, 0xDA, 0x71, 0x13]);
    assert_eq!(a.oui(), [0x00, 0x1A, 0x7D]);
    assert!(!a.is_nil());
    assert!(BdAddr::nil().is_nil());
    assert_eq!(BdAddr::nil().to_string(), "00:00:00:00:00:00");
}

#[test]
fn invalid_address_carries_the_input() {
    match BdAddr::parse("nope") {
        Err(Error::InvalidAddress(s)) => assert_eq!(s, "nope"),
        other => panic!("unexpected: {other:?}"),
    }
    let e = BdAddr::parse("nope").unwrap_err();
    assert_eq!(e.to_string(), "invalid Bluetooth address: nope");
    assert_eq!(Error::invalid("thing", "too big").to_string(), "invalid thing: too big");
}

#[test]
fn address_parts_are_two_digits_maybe_padded() {
    let a = BdAddr::parse(" AA :BB:CC:DD:EE: 0F").unwrap();
    assert_eq!(a.octets(), [0xAA, 0xBB, 0xCC, 0xDD, 0xEE, 0x0F]);
    match "+A:1A:7D:DA:71:13".parse::<BdAddr>() {
        Err(Error::InvalidAddress(s)) => assert_eq!(s, "+A:1A:7D:DA:71:13"),
        other => panic!("unexpected: {other:?}"),
    }
}

// Devices.

#[test]
fn parse_device_id_defaults_public() {
    let id: DeviceId = "00:1A:7D:DA:71:13".parse().unwrap();
    assert_eq!(id.addr_type, AddressType::Public);
}

#[test]
fn class_of_device_major_decode() {
    let cod = ClassOfDevice::new(0x00_01_00);
    assert_eq!(cod.major(), MajorDeviceClass::Computer);
    let av = ClassOfDevice::new(0x24_04_18);
    assert_eq!(av.major(), MajorDeviceClass::AudioVideo);
}

#[test]
fn class_of_device_keeps_24_bits() {
    let c = ClassOfDevice::new(0xFF_5A_02_0C);
    assert_eq!(c, ClassOfDevice::new(0x5A_02_0C));
    assert_eq!(c.service_bits(), 0x2D0);
}

#[test]
fn device_info_label_prefers_name() {
    let id: DeviceId = "00:1A:7D:DA:71:13".parse().unwrap();
    let with = DeviceInfo::new(id).with_name("Pixel");
    assert_eq!(with.label(), "Pixel [00:1A:7D:DA:71:13]");
    let without = DeviceInfo::new(id);
    assert_eq!(without.label(), "00:1A:7D:DA:71:13");
}

#[test]
fn random_identity_says_so() {
    let d = DeviceId::random(BdAddr::new([1, 2, 3, 4, 5, 6]));
    assert_eq!(d.to_string(), "01:02:03:04:05:06 (random)");
    assert_ne!(d, DeviceId::public(d.addr));
}

#[test]
fn identity_text_reads_back() {
    assert_eq!(DeviceId::parse(&id().to_string()).unwrap(), id());
}

// Events.

#[test]
fn payload_accounting() {
    let chunk = TransitEvent::new(
        1,
        Timestamp::zero(),
        origin(),
        TransitEventKind::DataChunk {
            direction: Direction::Outbound,
            bytes: 512,
        },
    );
    assert_eq!(chunk.kind.payload_bytes(), 512);

    let connected = TransitEvent::new(0, Timestamp::zero(), origin(), TransitEventKind::Connected);
    assert_eq!(connected.kind.payload_bytes(), 0);
}

#[test]
fn completed_transfers_speak_of_payload_but_move_none() {
    let done = TransitEventKind::TransferCompleted {
        bytes: 512,
        duration: Duration::from_millis(5),
    };
    assert_eq!(done.payload_bytes(), 512);
    assert_eq!(done.moved_bytes(), 0);
    let chunk = TransitEventKind::DataChunk {
        direction: Direction::Outbound,
        bytes: 7,
    };
    assert_eq!(chunk.moved_bytes(), 7);
}

#[test]
fn versions_compare_as_their_hci_bytes() {
    for a in CoreVersion::ALL {
        for b in CoreVersion::ALL {
            assert_eq!(a < b, a.hci() < b.hci());
            assert_eq!(a.cmp(&b), a.hci().cmp(&b.hci()));
        }
    }
    assert_eq!(CoreVersion::from_hci(14), Some(CoreVersion::V6_0));
    assert_eq!(CoreVersion::from_hci(15), None);
}

#[test]
fn uuids_are_read_in_either_case_and_without_dashes() {
    let u: Uuid = "0000180a-0000-1000-8000-00805f9b34fb".parse().unwrap();
    assert_eq!("0000180A-0000-1000-8000-00805F9B34FB".parse::<Uuid>().unwrap(), u);
    assert_eq!("0000180a00001000800000805F9B34fb".parse::<Uuid>().unwrap(), u);
    assert!("+80A".parse::<Uuid>().is_err());
    assert!("0000180a0000100080000080+f9b34fb".parse::<Uuid>().is_err());
}

#[test]
fn failure_detection() {
    let err = TransitEvent::new(
        2,
        Timestamp::zero(),
        origin(),
        TransitEventKind::Error {
            detail: "link lost".into(),
        },
    );
    assert!(err.kind.is_failure());
}

#[test]
fn every_kind_has_its_own_label() {
    let kinds = [
        TransitEventKind::DiscoveryStarted,
        TransitEventKind::DeviceDiscovered { rssi: None },
        TransitEventKind::PairingStarted {
            method: PairingMethodHint::PinCode,
        },
        TransitEventKind::PairingCompleted,
        TransitEventKind::PairingFailed {
            reason: String::new(),
        },
        TransitEventKind::Connected,
        TransitEventKind::Disconnected { reason: None },
        TransitEventKind::TransferStarted {
            name: String::new(),
            total_bytes: 0,
        },
        TransitEventKind::TransferProgress {
            transferred: 0,
            total: 0,
        },
        TransitEventKind::TransferCompleted {
            bytes: 0,
            duration: Duration::zero(),
        },
        TransitEventKind::DataChunk {
            direction: Direction::Inbound,
            bytes: 0,
        },
        TransitEventKind::Warning {
            code: String::new(),
            detail: String::new(),
        },
        TransitEventKind::Error {
            detail: String::new(),
        },
    ];
    for (i, a) in kinds.iter().enumerate() {
        for b in &kinds[i + 1..] {
            assert_ne!(a.label(), b.label());
        }
    }
}

// Hardware.

#[test]
fn known_company_names_resolve() {
    assert_eq!(CompanyId::intel().name(), Some("Intel Corp."));
    assert_eq!(CompanyId::broadcom().to_string(), "Broadcom Corporation");
    assert_eq!(CompanyId(0x1234).to_string(), "0x1234");
}

#[test]
fn model_label_is_stable() {
    let m = ControllerModel::new(CompanyId::realtek(), ChipsetFamily::Realtek, "RTL8761B");
    assert_eq!(m.label(), "Realtek Semiconductor RTL8761B (Realtek)");
}

#[test]
fn models_are_usable_as_map_keys() {
    let mut counts: HashMap<ControllerModel, u32> = HashMap::new();
    let a = ControllerModel::virtual_model("mock-0");
    *counts.entry(a.clone()).or_default() += 1;
    *counts.entry(a).or_default() += 1;
    assert_eq!(counts.len(), 1);
}

#[test]
fn family_follows_the_company() {
    assert_eq!(ChipsetFamily::from_company(CompanyId::intel()), ChipsetFamily::Intel);
    assert_eq!(ChipsetFamily::from_company(CompanyId::apple()), ChipsetFamily::AppleCombo);
    assert_eq!(ChipsetFamily::from_company(CompanyId(0x1234)), ChipsetFamily::Unknown);
}

// Observers.

#[derive(Default)]
struct Counter(Mutex<usize>);

impl Observer for Counter {
    fn on_event(&self, _event: &TransitEvent) {
        *self.0.lock().unwrap() += 1;
    }
}

fn sample() -> TransitEvent {
    TransitEvent::new(0, Timestamp::zero(), origin(), TransitEventKind::Connected)
}

#[test]
fn fanout_delivers_to_all() {
    let a = Arc::new(Counter::default());
    let b = Arc::new(Counter::default());
    let fan = FanOut::new(vec![a.clone(), b.clone(), Arc::new(NoopObserver)]);
    fan.on_event(&sample());
    fan.on_event(&sample());
    assert_eq!(*a.0.lock().unwrap(), 2);
    assert_eq!(*b.0.lock().unwrap(), 2);
}

// Peers.

#[test]
fn name_beats_everything() {
    let i = DeviceInfo::new(id()).with_name("Erik's iPhone");
    assert_eq!(detect_platform(&i), PeerPlatform::IPhone);
    let a = DeviceInfo::new(id()).with_name("Galaxy S24");
    assert_eq!(detect_platform(&a), PeerPlatform::Android);
    let m = DeviceInfo::new(id()).with_name("Erik's MacBook Pro");
    assert_eq!(detect_platform(&m), PeerPlatform::AppleMac);
}

#[test]
fn apple_id_with_phone_cod_is_iphone() {
    let i = DeviceInfo::new(id())
        .with_class(ClassOfDevice::new(0x7A_02_0C))
        .with_manufacturer_data(CompanyId::apple(), vec![0x10, 0x05]);
    assert_eq!(detect_platform(&i), PeerPlatform::IPhone);
}

#[test]
fn apple_id_with_computer_cod_is_mac() {
    let m = DeviceInfo::new(id())
        .with_class(ClassOfDevice::new(0x00_01_0C))
        .with_manufacturer_data(CompanyId::apple(), vec![0x10]);
    assert_eq!(detect_platform(&m), PeerPlatform::AppleMac);
}

#[test]
fn nonapple_phone_is_android() {
    let a = DeviceInfo::new(id()).with_class(ClassOfDevice::new(0x5A_02_0C));
    assert_eq!(detect_platform(&a), PeerPlatform::Android);
}

#[test]
fn unknown_when_no_signal() {
    let u = DeviceInfo::new(id());
    assert_eq!(detect_platform(&u), PeerPlatform::Unknown);
}

#[test]
fn obex_capability_matches_platform() {
    assert!(PeerPlatform::Android.supports_obex_push());
    assert!(!PeerPlatform::IPhone.supports_obex_push());
}

#[test]
fn name_is_matched_in_any_case() {
    let w = DeviceInfo::new(id()).with_name("SURFACE Laptop");
    assert_eq!(detect_platform(&w), PeerPlatform::Windows);
    assert_eq!(platform_from_name("SURFACE"), None);
    assert_eq!(platform_from_name("surface"), Some(PeerPlatform::Windows));
}

#[test]
fn name_outranks_the_radio() {
    let d = DeviceInfo::new(id())
        .with_name("Pixel 8")
        .with_manufacturer_data(CompanyId::apple(), vec![1]);
    assert_eq!(detect_platform(&d), PeerPlatform::Android);
    assert_eq!(classify(&d, Some("pixel 8")), PeerPlatform::Android);
    assert_eq!(classify(&d, None), PeerPlatform::IPhone);
}

// Specification versions.

#[test]
fn hci_roundtrips_for_all_versions() {
    for v in CoreVersion::ALL {
        assert_eq!(CoreVersion::from_hci(v.hci()), Some(v), "roundtrip {}", v.to_string());
    }
}

#[test]
fn le_support_boundary_is_4_0() {
    assert!(!CoreVersion::V2_1.supports_le());
    assert!(CoreVersion::V4_0.supports_le());
    assert!(CoreVersion::V5_4.supports_le());
}

#[test]
fn ordering_is_chronological() {
    assert!(CoreVersion::V4_2 < CoreVersion::V5_0);
    assert!(CoreVersion::V1_0b < CoreVersion::V6_0);
}

#[test]
fn unknown_hci_byte_is_no_version() {
    assert_eq!(CoreVersion::from_hci(200), None);
    assert_eq!(CoreVersion::from_hci(9), Some(CoreVersion::V5_0));
}

// Standards.

#[test]
fn dotted_designations() {
    assert_eq!(Standard802::Wpan80215_4.dotted(), "802.15.4");
    assert_eq!(Standard802::Wlan80211.dotted(), "802.11");
}

#[test]
fn layer_mapping() {
    assert_eq!(
        Standard802::PortAuth8021X.layer(),
        StandardsLayer::NetworkAccess
    );
    assert_eq!(Standard802::Wpan80215_1.layer(), StandardsLayer::Radio);
}

#[test]
fn builder_overrides() {
    let p = StandardsProfile::bredr_default()
        .with_radio(Standard802::Wlan80211)
        .with_port_auth(PortAuthState::Failed);
    assert_eq!(p.radio, Standard802::Wlan80211);
    assert_eq!(p.port_auth, PortAuthState::Failed);
}

// Time.

#[test]
fn duration_unit_conversions() {
    assert_eq!(Duration::from_secs(2).as_millis(), 2_000);
    assert_eq!(as_secs_f64(Duration::from_millis(1_500)), 1.5);
    assert!(Duration::zero().is_zero());
}

#[test]
fn timestamp_difference_is_a_duration() {
    let a = Timestamp::from_millis(10);
    let b = Timestamp::from_millis(35);
    assert_eq!((b - a).as_millis(), 25);
    assert_eq!(a.saturating_since(b), Duration::zero());
}

#[test]
fn duration_debug_picks_readable_unit() {
    assert_eq!(readable(Duration::from_secs(3)), "3.000s");
    assert_eq!(readable(Duration::from_millis(250)), "250ms");
    assert_eq!(readable(Duration::from_nanos(4_000)), "4µs");
}

#[test]
fn shortest_spans_are_shown_in_nanoseconds() {
    assert_eq!(readable(Duration::from_nanos(999)), "999ns");
    assert_eq!(readable(Duration::zero()), "0ns");
}

#[test]
fn added_span_is_the_difference() {
    let t = Timestamp::from_millis(7);
    let d = Duration::from_millis(30);
    assert_eq!((t + d) - t, d);
    assert_eq!((t + d).to_string(), "Timestamp(37ms)");
}

#[test]
fn a_clock_without_a_reading_shows_the_epoch() {
    assert_eq!(Timestamp::from_reading(None), Timestamp::zero());
    assert_eq!(Timestamp::from_reading(Some(42)), Timestamp::from_nanos(42));
}

#[test]
fn wall_clock_is_past_its_epoch() {
    // 2020-01-01 lies this many milliseconds behind the epoch.
    assert!(Timestamp::now() > Timestamp::from_millis(1_577_836_800_000));
}

// UUIDs.

#[test]
fn short_uuid_expands_via_base() {
    let dis = Uuid::from_u16(0x180A);
    assert_eq!(dis.to_string(), "0000180a-0000-1000-8000-00805f9b34fb");
}

#[test]
fn roundtrip_full_form() {
    let s = "12345678-9abc-def0-1234-56789abcdef0";
    let u: Uuid = s.parse().unwrap();
    assert_eq!(u.to_string(), s);
}

#[test]
fn short_and_full_are_equal() {
    assert_eq!(
        "180a".parse::<Uuid>().unwrap(),
        "0000180a-0000-1000-8000-00805f9b34fb"
            .parse::<Uuid>()
            .unwrap()
    );
    assert_eq!("0000180A".parse::<Uuid>().unwrap(), Uuid::from_u16(0x180A));
}

#[test]
fn rejects_garbage() {
    assert!("nope".parse::<Uuid>().is_err());
    assert!("12345".parse::<Uuid>().is_err());
    assert!("zzzz".parse::<Uuid>().is_err());
}

#[test]
fn uuid_error_quotes_the_input() {
    let e = Uuid::parse("nope").unwrap_err();
    assert_eq!(e.to_string(), "invalid UUID: cannot parse `nope`");
}

#[test]
fn uuid_bytes_are_kept() {
    let b = [7u8; 16];
    assert_eq!(*Uuid::from_bytes(b).as_bytes(), b);
    assert_eq!(Uuid::from_u32(0x180A), Uuid::from_u16(0x180A));
}

// Listings.

#[test]
fn dump_lists_what_is_known() {
    let d = DeviceInfo::new(id())
        .with_name("Erik's iPhone")
        .with_rssi(-55)
        .with_manufacturer_data(CompanyId::apple(), vec![0x10, 0x05])
        .with_service("0000110a-0000-1000-8000-00805f9b34fb");
    let text = d.dump();
    assert!(text.contains("Erik's iPhone"));
    assert!(text.contains("00:1A:7D:DA:71:13"));
    assert!(text.contains("iPhone/iOS"));
    assert!(text.contains("-55 dBm"));
    assert!(text.contains("Apple, Inc. (0x004C): 10 05"));
    assert!(text.contains("0000110a-0000-1000-8000-00805f9b34fb"));
    assert_eq!(text, d.dump_as(d.platform()));
}
