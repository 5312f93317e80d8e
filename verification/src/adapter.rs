//! What a real adapter is and can do, and the devices it tells of.
use vstd::prelude::*;
use crate::address;
use crate::address::{AddressType, BdAddr};
use crate::backend;
use crate::backend::{BackendKind, Capabilities, CapabilitiesView};
use crate::device;
use crate::device::{ClassOfDevice, DeviceId, DeviceInfo, DeviceView};
use crate::hardware::{ChipsetFamily, CompanyId, ControllerModel, ControllerView};
use crate::mgmt::ControllerInfo;
use crate::text;
use crate::time::Duration;
use crate::transport_error::{TransportError, TransportErrorView};
use crate::uuid;
use crate::uuid::Uuid;
use crate::version::{CoreVersion, SpecContext, Transport};

verus! {

/// The radios that a backend offers.
pub open spec fn radios(kind: BackendKind) -> Seq<Transport> {
    match kind {
        BackendKind::Btleplug => seq![Transport::Le],
        BackendKind::Ios => seq![Transport::Le],
        _ => seq![Transport::BrEdr, Transport::Le, Transport::Dual],
    }
}

/// What a backend can do.
pub open spec fn abilities_of(kind: BackendKind) -> CapabilitiesView {
    let low_energy = kind is Btleplug || kind is Ios;
    CapabilitiesView {
        kind,
        transports: radios(kind),
        can_pair: !low_energy,
        can_push_files: !low_energy,
        max_concurrent_pairings: if kind is Mock {
            usize::MAX
        } else {
            1
        },
        can_accept_pairings: kind is Mock || kind is BlueZ,
        can_gatt: low_energy || kind is Mock,
        can_spoof_address: kind is Mock || kind is BlueZ,
    }
}

/// What a backend can do. Low-energy backends neither pair nor push files; only BlueZ and
/// the mock accept pairings and change the local address.
pub fn capabilities_of(kind: BackendKind) -> (r: Capabilities)
    ensures
        r@ == abilities_of(kind),
{
    let low_energy: bool = match kind {
        BackendKind::Btleplug => true,
        BackendKind::Ios => true,
        _ => false,
    };
    let mut transports: Vec<Transport> = Vec::new();
    if !low_energy {
        transports.push(Transport::BrEdr);
    }
    transports.push(Transport::Le);
    if !low_energy {
        transports.push(Transport::Dual);
    }
    let mock: bool = kind == BackendKind::Mock;
    let full: bool = mock || kind == BackendKind::BlueZ;
    let r = Capabilities {
        kind,
        transports,
        can_pair: !low_energy,
        can_push_files: !low_energy,
        max_concurrent_pairings: if mock {
            usize::MAX
        } else {
            1
        },
        can_accept_pairings: full,
        can_gatt: low_energy || mock,
        can_spoof_address: full,
    };
    assert(r@.transports =~= radios(kind));
    r
}

/// The HCI index that an adapter's name gives: the number behind `hci`.
pub open spec fn index_of(name: Seq<char>) -> Option<u16> {
    if name.len() >= 3 && name.take(3) == "hci"@ {
        match text::unsigned(name.skip(3), 10) {
            Some(n) => if n <= u16::MAX {
                Some(n as u16)
            } else {
                None
            },
            None => None,
        }
    } else {
        None
    }
}

/// The HCI index that an adapter's name gives, such as 0 for `hci0`.
pub fn hci_index(name: &str) -> (r: Option<u16>)
    ensures
        r == index_of(name@),
{
    let v = text::chars_of(name);
    proof {
        reveal_strlit("hci");
    }
    if v.len() < 3 || v[0] != 'h' || v[1] != 'c' || v[2] != 'i' {
        proof {
            if name@.len() >= 3 && name@.take(3) == "hci"@ {
                assert(name@[0] == name@.take(3)[0]);
                assert(name@[1] == name@.take(3)[1]);
                assert(name@[2] == name@.take(3)[2]);
            }
        }
        return None;
    }
    assert(name@.take(3) =~= "hci"@);
    let mut digits: Vec<char> = Vec::new();
    let mut i: usize = 3;
    while i < v.len()
        invariant
            3 <= i <= v@.len(),
            digits@ == v@.subrange(3, i as int),
        decreases v@.len() - i,
    {
        digits.push(v[i]);
        i = i + 1;
    }
    assert(digits@ =~= name@.skip(3));
    match text::parse_unsigned(digits.as_slice(), 10, 65535) {
        Some(n) => Some(n as u16),
        None => None,
    }
}

/// The manufacturer and version of an adapter, from what the kernel reports or, failing
/// that, from the vendor in its modalias.
pub fn identify(info: Option<ControllerInfo>, modalias_vendor: Option<u32>) -> (r: (
    CompanyId,
    Option<CoreVersion>,
))
    ensures
        r.0 == CompanyId(
            match info {
                Some(i) => i.manufacturer,
                None => match modalias_vendor {
                    Some(v) => (v % 0x1_0000) as u16,
                    None => 0xFFFF,
                },
            },
        ),
        match info {
            Some(i) => match r.1 {
                Some(v) => v.number() == i.hci_version,
                None => forall|v: CoreVersion| v.number() != i.hci_version,
            },
            None => r.1 is None,
        },
{
    match info {
        Some(i) => (CompanyId(i.manufacturer), CoreVersion::from_hci(i.hci_version)),
        None => match modalias_vendor {
            Some(v) => (CompanyId((v % 0x1_0000) as u16), None),
            None => (CompanyId(0xFFFF), None),
        },
    }
}

/// The controller model of an identified adapter.
pub fn identified_controller(company: CompanyId, alias: &str) -> (r: ControllerModel)
    ensures
        r@ == (ControllerView {
            manufacturer: company,
            family: ChipsetFamily::built_by(company),
            model: alias@,
        }),
{
    ControllerModel::new(company, ChipsetFamily::from_company(company), alias)
}

/// The specification context of an identified adapter; 5.0 where the version is unknown.
pub fn identified_spec(version: Option<CoreVersion>) -> (r: SpecContext)
    ensures
        r.version == match version {
            Some(v) => v,
            None => CoreVersion::V5_0,
        },
        r.transport == Transport::Dual,
{
    let version: CoreVersion = match version {
        Some(v) => v,
        None => CoreVersion::V5_0,
    };
    SpecContext::new(version, Transport::Dual)
}

/// A span in whole seconds, as an adapter takes it: 32 bits.
pub fn timeout_secs(d: Duration) -> (r: u32)
    ensures
        r == (d.nanos / 1_000_000_000) % 0x1_0000_0000,
{
    let secs: u128 = d.as_millis() / 1000;
    assert(d.nanos / 1_000_000 / 1000 == d.nanos / 1_000_000_000) by (nonlinear_arith);
    (secs % 0x1_0000_0000) as u32
}

/// The longest sleep between two looks at an open pairing window, in nanoseconds.
pub const LOOK_NANOS: u128 = 250_000_000;

/// Whether to keep a pairing window open, and for how long to sleep before the next look:
/// it closes at its end, or once enough devices have bonded.
pub fn keep_open(bonded: usize, max_devices: Option<usize>, remaining: Duration) -> (r: Option<
    Duration,
>)
    ensures
        match r {
            None => (max_devices is Some && bonded >= max_devices->0) || remaining.nanos == 0,
            Some(d) => {
                &&& !(max_devices is Some && bonded >= max_devices->0)
                &&& remaining.nanos > 0
                &&& d.nanos == if remaining.nanos < LOOK_NANOS {
                    remaining.nanos
                } else {
                    LOOK_NANOS
                }
            },
        },
{
    if let Some(max) = max_devices {
        if bonded >= max {
            return None;
        }
    }
    if remaining.is_zero() {
        return None;
    }
    if remaining.nanos < LOOK_NANOS {
        Some(remaining)
    } else {
        Some(Duration::from_nanos(LOOK_NANOS))
    }
}

/// The Class-of-Device in a signed number, read as its bits.
pub open spec fn class_of_bits(bits: i32) -> ClassOfDevice {
    ClassOfDevice(
        ((if bits < 0 {
            bits + 0x1_0000_0000
        } else {
            bits as int
        }) % 0x100_0000) as u32,
    )
}

/// A bonded device, as a phone lists it.
#[derive(Debug)]
pub struct BondedEntry {
    /// The address, if readable.
    pub addr: Option<String>,
    /// The name, if known.
    pub name: Option<String>,
    /// The bits of the device class, if known.
    pub class_bits: Option<i32>,
}

/// What a [`BondedEntry`] holds.
pub struct BondedView {
    pub addr: Option<Seq<char>>,
    pub name: Option<Seq<char>>,
    pub class_bits: Option<i32>,
}

impl View for BondedEntry {
    type V = BondedView;

    open spec fn view(&self) -> BondedView {
        BondedView {
            addr: text::optional(self.addr),
            name: text::optional(self.name),
            class_bits: self.class_bits,
        }
    }
}

impl BondedView {
    /// The octets of the address, if it is one.
    pub open spec fn octets(self) -> Option<Seq<u8>> {
        match self.addr {
            Some(s) => address::parsed(s),
            None => None,
        }
    }

    /// The description of the device.
    pub open spec fn described(self) -> DeviceView {
        let o = self.octets()->0;
        DeviceView {
            name: self.name,
            class: match self.class_bits {
                Some(bits) => Some(class_of_bits(bits)),
                None => None,
            },
            paired: true,
            ..DeviceView::only(DeviceId::at(BdAddr(o[0], o[1], o[2], o[3], o[4], o[5])))
        }
    }
}

/// The devices that a phone's list of bonded devices describes, in order; an entry
/// without a readable address describes none.
pub open spec fn bonded(v: Seq<BondedView>) -> Seq<DeviceView>
    decreases v.len(),
{
    if v.len() == 0 {
        Seq::empty()
    } else if v.last().octets() is Some {
        bonded(v.drop_last()).push(v.last().described())
    } else {
        bonded(v.drop_last())
    }
}

/// What entries hold, one by one.
pub open spec fn entries_view(v: Seq<BondedEntry>) -> Seq<BondedView> {
    v.map_values(|e: BondedEntry| e@)
}

/// The device that an entry describes, if its address can be read.
pub fn bonded_device(entry: &BondedEntry) -> (r: Option<DeviceInfo>)
    ensures
        match r {
            Some(info) => entry@.octets() is Some && info@ == entry@.described(),
            None => entry@.octets() is None,
        },
{
    let addr: BdAddr = match &entry.addr {
        Some(s) => match BdAddr::parse(s.as_str()) {
            Ok(a) => a,
            Err(_) => {
                return None;
            },
        },
        None => {
            return None;
        },
    };
    let mut info = DeviceInfo::new(DeviceId::public(addr));
    info.name = text::clone_optional(&entry.name);
    info.paired = true;
    if let Some(bits) = entry.class_bits {
        let raw: i64 = if bits < 0 {
            bits as i64 + 0x1_0000_0000
        } else {
            bits as i64
        };
        info.class = Some(ClassOfDevice::new(raw as u32));
    }
    Some(info)
}

/// The devices that a phone's list of bonded devices describes, in order.
pub fn bonded_devices(entries: &Vec<BondedEntry>) -> (r: Vec<DeviceInfo>)
    ensures
        backend::devices_view(r@) == bonded(entries_view(entries@)),
{
    let ghost all = entries_view(entries@);
    let mut out: Vec<DeviceInfo> = Vec::new();
    let mut i: usize = 0;
    assert(backend::devices_view(out@) =~= bonded(all.take(0)));
    while i < entries.len()
        invariant
            i <= entries@.len(),
            all == entries_view(entries@),
            backend::devices_view(out@) == bonded(all.take(i as int)),
        decreases entries@.len() - i,
    {
        assert(all.take(i + 1).drop_last() =~= all.take(i as int));
        assert(all.take(i + 1).last() == entries@[i as int]@);
        if let Some(info) = bonded_device(&entries[i]) {
            let ghost before = out@;
            out.push(info);
            assert(backend::devices_view(out@) =~= backend::devices_view(before).push(info@));
        }
        i = i + 1;
    }
    assert(all.take(i as int) =~= all);
    out
}

/// What a low-energy scan says of a device.
#[derive(Debug)]
pub struct Advertisement {
    /// The address.
    pub addr: BdAddr,
    /// Whether the address is known to be public.
    pub public: bool,
    /// The name, if advertised.
    pub name: Option<String>,
    /// The signal strength, if measured.
    pub rssi: Option<i16>,
    /// The transmit power, if advertised.
    pub tx_power: Option<i16>,
    /// Whether a connection is live.
    pub connected: bool,
    /// Manufacturer data by company.
    pub manufacturer_data: Vec<(CompanyId, Vec<u8>)>,
    /// The service UUIDs, as text.
    pub services: Vec<String>,
}

/// The description of a device that a low-energy scan shows. An address that is not known
/// to be public is taken for random.
pub fn advertised_device(ad: Advertisement) -> (r: DeviceInfo)
    ensures
        r@ == (DeviceView {
            id: DeviceId {
                addr: ad.addr,
                addr_type: if ad.public {
                    AddressType::Public
                } else {
                    AddressType::Random
                },
            },
            name: text::optional(ad.name),
            class: None,
            rssi: ad.rssi,
            tx_power: ad.tx_power,
            paired: false,
            connected: ad.connected,
            manufacturer_data: device::vendor_view(ad.manufacturer_data@),
            services: text::texts(ad.services@),
        }),
{
    let addr_type: AddressType = if ad.public {
        AddressType::Public
    } else {
        AddressType::Random
    };
    let mut info = DeviceInfo::new(DeviceId { addr: ad.addr, addr_type });
    info.name = ad.name;
    info.rssi = ad.rssi;
    info.tx_power = ad.tx_power;
    info.connected = ad.connected;
    info.manufacturer_data = ad.manufacturer_data;
    info.services = ad.services;
    info
}

/// What BlueZ says of a device.
#[derive(Debug)]
pub struct StackEntry {
    /// The address.
    pub addr: BdAddr,
    /// The name, if known.
    pub name: Option<String>,
    /// The signal strength, if measured.
    pub rssi: Option<i16>,
    /// Whether the device is paired.
    pub paired: bool,
    /// Whether a connection is live.
    pub connected: bool,
    /// The raw Class-of-Device, if known.
    pub class: Option<u32>,
    /// The service UUIDs, as text.
    pub services: Vec<String>,
}

/// The description of a device that BlueZ knows.
pub fn stack_device(entry: StackEntry) -> (r: DeviceInfo)
    ensures
        r@ == (DeviceView {
            name: text::optional(entry.name),
            class: match entry.class {
                Some(raw) => Some(ClassOfDevice((raw % 0x100_0000) as u32)),
                None => None,
            },
            rssi: entry.rssi,
            paired: entry.paired,
            connected: entry.connected,
            services: text::texts(entry.services@),
            ..DeviceView::only(DeviceId::at(entry.addr))
        }),
{
    let mut info = DeviceInfo::new(DeviceId::public(entry.addr));
    info.name = entry.name;
    info.rssi = entry.rssi;
    info.paired = entry.paired;
    info.connected = entry.connected;
    if let Some(raw) = entry.class {
        info.class = Some(ClassOfDevice::new(raw));
    }
    info.services = entry.services;
    info
}

/// The character as a file name may hold it, where `alphanumeric` says whether it is a
/// letter or a digit.
pub open spec fn safe(c: char, alphanumeric: bool) -> char {
    if alphanumeric || c == '.' || c == '-' || c == '_' {
        c
    } else {
        '_'
    }
}

/// The character as a file name may hold it, where `alphanumeric` says whether it is a
/// letter or a digit.
pub fn safe_char(c: char, alphanumeric: bool) -> (r: char)
    ensures
        r == safe(c, alphanumeric),
{
    if alphanumeric || c == '.' || c == '-' || c == '_' {
        c
    } else {
        '_'
    }
}

/// A name as a file name may hold it.
pub open spec fn safe_text(name: Seq<char>) -> Seq<char> {
    name.map_values(|c: char| safe(c, text::alphanumeric(c)))
}

/// The name of the file that an object is staged in, for the given process.
pub fn staged_name(process: u32, name: &str) -> (r: String)
    ensures
        r@ == "pax-obex-"@ + text::decimal(process as nat) + "-"@ + safe_text(name@),
{
    let v = text::chars_of(name);
    let mut kept = String::new();
    let mut i: usize = 0;
    while i < v.len()
        invariant
            i <= v@.len(),
            v@ == name@,
            kept@ == safe_text(name@).take(i as int),
        decreases v@.len() - i,
    {
        let c: char = v[i];
        kept.push(safe_char(c, text::is_alphanumeric(c)));
        assert(safe_text(name@).take(i + 1) =~= safe_text(name@).take(i as int).push(
            safe_text(name@)[i as int],
        ));
        i = i + 1;
    }
    assert(safe_text(name@).take(i as int) =~= safe_text(name@));
    let mut t = "pax-obex-".to_owned();
    t.append(text::decimal_text(process as u128).as_str());
    t.append("-");
    t.append(kept.as_str());
    t
}

/// A staged name keeps its length and holds only letters, digits, dots, dashes and
/// underscores.
pub proof fn staged_name_is_plain(name: Seq<char>)
    ensures
        safe_text(name).len() == name.len(),
        forall|i: int|
            0 <= i < name.len() ==> text::alphanumeric(#[trigger] safe_text(name)[i]) || safe_text(
                name,
            )[i] == '.' || safe_text(name)[i] == '-' || safe_text(name)[i] == '_',
{
}

/// Why a backend refuses to pair.
pub open spec fn pair_refusal(kind: BackendKind) -> TransportErrorView {
    TransportErrorView::Unsupported {
        backend: kind.word(),
        operation: if kind is Ios {
            "pair (CoreBluetooth does not expose programmatic pairing)"@
        } else {
            "pair"@
        },
    }
}

/// Why a backend refuses to push a file.
pub open spec fn push_refusal(kind: BackendKind) -> TransportErrorView {
    TransportErrorView::Unsupported {
        backend: kind.word(),
        operation: if kind is Ios {
            "push_file (iOS exposes BLE only — no Classic OBEX)"@
        } else {
            "push_file (OBEX Object Push is BR/EDR-only)"@
        },
    }
}

/// Whether a backend pairs at all: a refusal where it does not.
pub fn pairing_offered(kind: BackendKind) -> (r: Result<(), TransportError>)
    ensures
        match r {
            Ok(_) => abilities_of(kind).can_pair,
            Err(e) => !abilities_of(kind).can_pair && e@ == pair_refusal(kind),
        },
{
    match kind {
        BackendKind::Ios => Err(
            TransportError::Unsupported {
                backend: kind.name(),
                operation: "pair (CoreBluetooth does not expose programmatic pairing)",
            },
        ),
        BackendKind::Btleplug => Err(
            TransportError::Unsupported { backend: kind.name(), operation: "pair" },
        ),
        _ => Ok(()),
    }
}

/// Whether a backend pushes files at all: a refusal where it does not.
pub fn pushing_offered(kind: BackendKind) -> (r: Result<(), TransportError>)
    ensures
        match r {
            Ok(_) => abilities_of(kind).can_push_files,
            Err(e) => !abilities_of(kind).can_push_files && e@ == push_refusal(kind),
        },
{
    match kind {
        BackendKind::Ios => Err(
            TransportError::Unsupported {
                backend: kind.name(),
                operation: "push_file (iOS exposes BLE only — no Classic OBEX)",
            },
        ),
        BackendKind::Btleplug => Err(
            TransportError::Unsupported {
                backend: kind.name(),
                operation: "push_file (OBEX Object Push is BR/EDR-only)",
            },
        ),
        _ => Ok(()),
    }
}

/// Whether a characteristic is the wanted one.
pub open spec fn is_wanted(
    offered: (Uuid, Uuid),
    service: Uuid,
    characteristic: Uuid,
) -> bool {
    offered.0@ == service@ && offered.1@ == characteristic@
}

/// The place of a characteristic among those that a peer offers, each with its service:
/// the first that fits.
pub fn characteristic_position(
    offered: &[(Uuid, Uuid)],
    service: Uuid,
    characteristic: Uuid,
) -> (r: Result<usize, TransportError>)
    ensures
        match r {
            Ok(i) => {
                &&& i < offered@.len()
                &&& is_wanted(offered@[i as int], service, characteristic)
                &&& forall|j: int|
                    0 <= j < i ==> !is_wanted(#[trigger] offered@[j], service, characteristic)
            },
            Err(e) => {
                &&& forall|j: int|
                    0 <= j < offered@.len() ==> !is_wanted(
                        #[trigger] offered@[j],
                        service,
                        characteristic,
                    )
                &&& e@ == TransportErrorView::Backend(
                    "characteristic "@ + uuid::hyphenated(characteristic@) + " not found"@,
                )
            },
        },
{
    let mut i: usize = 0;
    while i < offered.len()
        invariant
            i <= offered@.len(),
            forall|j: int|
                0 <= j < i ==> !is_wanted(#[trigger] offered@[j], service, characteristic),
        decreases offered@.len() - i,
    {
        if offered[i].0 == service && offered[i].1 == characteristic {
            return Ok(i);
        }
        i = i + 1;
    }
    let mut t = "characteristic ".to_owned();
    t.append(characteristic.to_string().as_str());
    t.append(" not found");
    Err(TransportError::Backend(t))
}

/// Why the local address cannot be changed on an adapter whose name gives no index.
pub fn no_index(quoted_name: &str) -> (r: TransportError)
    ensures
        r@ == TransportErrorView::LocalAddress(
            "cannot derive an HCI index from adapter name "@ + quoted_name@,
        ),
{
    let mut t = "cannot derive an HCI index from adapter name ".to_owned();
    t.append(quoted_name);
    TransportError::LocalAddress(t)
}

} // verus!
