//! How a remote device is identified and described.
use vstd::prelude::*;
use crate::address;
use crate::address::{AddressType, BdAddr};
use crate::error::Error;
use crate::error::ErrorView;
use crate::hardware::CompanyId;
use crate::peer;
use crate::peer::PeerPlatform;
use crate::text;

verus! {

/// The identity of a remote device: its address and how that is interpreted.
#[derive(Clone, Copy, Debug, PartialEq, Eq, Structural, Hash, PartialOrd, Ord)]
pub struct DeviceId {
    /// The address.
    pub addr: BdAddr,
    /// How the address is interpreted on the air.
    pub addr_type: AddressType,
}

impl DeviceId {
    /// The identity with a public address.
    pub open spec fn at(addr: BdAddr) -> DeviceId {
        DeviceId { addr, addr_type: AddressType::Public }
    }

    /// The text of an identity; the type is shown where it is random.
    pub open spec fn words(self) -> Seq<char> {
        match self.addr_type {
            AddressType::Public => address::canonical(self.addr@),
            AddressType::Random => address::canonical(self.addr@) + " (random)"@,
        }
    }

    /// The identity with a public address.
    pub fn public(addr: BdAddr) -> (r: DeviceId)
        ensures
            r == DeviceId::at(addr),
    {
        DeviceId { addr, addr_type: AddressType::Public }
    }

    /// The identity with a random address.
    pub fn random(addr: BdAddr) -> (r: DeviceId)
        ensures
            r == (DeviceId { addr, addr_type: AddressType::Random }),
    {
        DeviceId { addr, addr_type: AddressType::Random }
    }

    /// The text of the identity.
    pub fn to_string(&self) -> (r: String)
        ensures
            r@ == self.words(),
    {
        match self.addr_type {
            AddressType::Public => self.addr.to_string(),
            AddressType::Random => {
                let mut t = self.addr.to_string();
                t.append(" (random)");
                t
            },
        }
    }

    /// Reads a public identity from an address.
    pub fn parse(s: &str) -> (r: Result<DeviceId, Error>)
        ensures
            match r {
                Ok(id) => address::parsed(s@) == Some(id.addr@) && id.addr_type
                    == AddressType::Public,
                Err(e) => address::parsed(s@) is None && e@ == ErrorView::InvalidAddress(s@),
            },
    {
        match BdAddr::parse(s) {
            Ok(addr) => Ok(DeviceId::public(addr)),
            Err(e) => Err(e),
        }
    }
}

/// The text of a public identity reads back as the identity.
pub proof fn public_identity_parses(id: DeviceId)
    requires
        id.addr_type == AddressType::Public,
    ensures
        address::parsed(id.words()) == Some(id.addr@),
{
    address::canonical_text_parses(id.addr);
}

impl std::str::FromStr for DeviceId {
    type Err = Error;

    fn from_str(s: &str) -> (r: Result<DeviceId, Error>)
        ensures
            match r {
                Ok(id) => address::parsed(s@) == Some(id.addr@) && id.addr_type
                    == AddressType::Public,
                Err(e) => address::parsed(s@) is None && e@ == ErrorView::InvalidAddress(s@),
            },
    {
        DeviceId::parse(s)
    }
}

impl From<BdAddr> for DeviceId {
    fn from(addr: BdAddr) -> (r: DeviceId) {
        DeviceId::public(addr)
    }
}

impl vstd::std_specs::convert::FromSpecImpl<BdAddr> for DeviceId {
    open spec fn obeys_from_spec() -> bool {
        true
    }

    open spec fn from_spec(addr: BdAddr) -> DeviceId {
        DeviceId::at(addr)
    }
}

impl Default for DeviceId {
    fn default() -> (r: DeviceId)
        ensures
            r == DeviceId::at(BdAddr::none()),
    {
        DeviceId::public(BdAddr::nil())
    }
}

/// The major device class of a Classic device.
#[derive(Clone, Copy, Debug, PartialEq, Eq, Structural, Hash, PartialOrd, Ord)]
#[non_exhaustive]
pub enum MajorDeviceClass {
    /// Unspecified.
    Miscellaneous,
    /// Desktop, laptop, server, tablet.
    Computer,
    /// Cellular, cordless, smartphone.
    Phone,
    /// LAN access point.
    NetworkAccessPoint,
    /// Headset, speaker, microphone.
    AudioVideo,
    /// Mouse, keyboard, remote.
    Peripheral,
    /// Display, printer, camera.
    Imaging,
    /// Watch, glasses.
    Wearable,
    /// Toy.
    Toy,
    /// Health or fitness device.
    Health,
    /// Any other value.
    Uncategorized,
}

impl MajorDeviceClass {
    /// The class that a field value names.
    pub open spec fn named(field: int) -> MajorDeviceClass {
        if field == 0 {
            MajorDeviceClass::Miscellaneous
        } else if field == 1 {
            MajorDeviceClass::Computer
        } else if field == 2 {
            MajorDeviceClass::Phone
        } else if field == 3 {
            MajorDeviceClass::NetworkAccessPoint
        } else if field == 4 {
            MajorDeviceClass::AudioVideo
        } else if field == 5 {
            MajorDeviceClass::Peripheral
        } else if field == 6 {
            MajorDeviceClass::Imaging
        } else if field == 7 {
            MajorDeviceClass::Wearable
        } else if field == 8 {
            MajorDeviceClass::Toy
        } else if field == 9 {
            MajorDeviceClass::Health
        } else {
            MajorDeviceClass::Uncategorized
        }
    }

    /// The class that a field value names.
    pub fn from_field(field: u8) -> (r: MajorDeviceClass)
        ensures
            r == MajorDeviceClass::named(field as int),
    {
        match field {
            0x00 => MajorDeviceClass::Miscellaneous,
            0x01 => MajorDeviceClass::Computer,
            0x02 => MajorDeviceClass::Phone,
            0x03 => MajorDeviceClass::NetworkAccessPoint,
            0x04 => MajorDeviceClass::AudioVideo,
            0x05 => MajorDeviceClass::Peripheral,
            0x06 => MajorDeviceClass::Imaging,
            0x07 => MajorDeviceClass::Wearable,
            0x08 => MajorDeviceClass::Toy,
            0x09 => MajorDeviceClass::Health,
            _ => MajorDeviceClass::Uncategorized,
        }
    }

    /// The words for the class.
    pub open spec fn words(self) -> Seq<char> {
        match self {
            MajorDeviceClass::Miscellaneous => "miscellaneous"@,
            MajorDeviceClass::Computer => "computer"@,
            MajorDeviceClass::Phone => "phone"@,
            MajorDeviceClass::NetworkAccessPoint => "network access point"@,
            MajorDeviceClass::AudioVideo => "audio/video"@,
            MajorDeviceClass::Peripheral => "peripheral"@,
            MajorDeviceClass::Imaging => "imaging"@,
            MajorDeviceClass::Wearable => "wearable"@,
            MajorDeviceClass::Toy => "toy"@,
            MajorDeviceClass::Health => "health"@,
            MajorDeviceClass::Uncategorized => "uncategorized"@,
        }
    }

    /// The words for the class.
    pub fn to_string(&self) -> (r: String)
        ensures
            r@ == self.words(),
    {
        match self {
            MajorDeviceClass::Miscellaneous => "miscellaneous".to_owned(),
            MajorDeviceClass::Computer => "computer".to_owned(),
            MajorDeviceClass::Phone => "phone".to_owned(),
            MajorDeviceClass::NetworkAccessPoint => "network access point".to_owned(),
            MajorDeviceClass::AudioVideo => "audio/video".to_owned(),
            MajorDeviceClass::Peripheral => "peripheral".to_owned(),
            MajorDeviceClass::Imaging => "imaging".to_owned(),
            MajorDeviceClass::Wearable => "wearable".to_owned(),
            MajorDeviceClass::Toy => "toy".to_owned(),
            MajorDeviceClass::Health => "health".to_owned(),
            MajorDeviceClass::Uncategorized => "uncategorized".to_owned(),
        }
    }
}

/// The Class-of-Device value of a Classic device; 24 bits of it are assigned.
#[derive(Clone, Copy, Debug, PartialEq, Eq, Structural, Hash, PartialOrd, Ord)]
pub struct ClassOfDevice(pub u32);

impl ClassOfDevice {
    /// The major class: bits 8 to 12.
    pub open spec fn major_class(self) -> MajorDeviceClass {
        MajorDeviceClass::named((self.0 as int / 0x100) % 0x20)
    }

    /// Keeps the low 24 bits.
    pub fn new(raw: u32) -> (r: ClassOfDevice)
        ensures
            r.0 == raw % 0x100_0000,
    {
        assert(raw & 0x00FF_FFFF == raw % 0x100_0000) by (bit_vector);
        ClassOfDevice(raw & 0x00FF_FFFF)
    }

    /// The major class: bits 8 to 12.
    pub fn major(self) -> (r: MajorDeviceClass)
        ensures
            r == self.major_class(),
    {
        let raw: u32 = self.0;
        assert((raw >> 8) & 0x1F == (raw / 0x100) % 0x20) by (bit_vector);
        let field: u8 = ((raw >> 8) & 0x1F) as u8;
        MajorDeviceClass::from_field(field)
    }

    /// The service class bits: 13 to 23.
    pub fn service_bits(self) -> (r: u16)
        ensures
            r == (self.0 / 0x2000) % 0x800,
    {
        let raw: u32 = self.0;
        assert((raw >> 13) & 0x07FF == (raw / 0x2000) % 0x800) by (bit_vector);
        ((raw >> 13) & 0x07FF) as u16
    }
}

/// The major class does not depend on the bits that [`ClassOfDevice::new`] drops.
pub proof fn masking_keeps_major(raw: u32)
    ensures
        ClassOfDevice((raw % 0x100_0000) as u32).major_class() == ClassOfDevice(raw).major_class(),
{
    let low: u32 = raw % 0x100_0000;
    assert((low / 0x100) % 0x20 == (raw / 0x100) % 0x20) by (bit_vector)
        requires
            low == raw % 0x100_0000,
    ;
    assert((low as int / 0x100) % 0x20 == (raw as int / 0x100) % 0x20);
}

/// What is known of a discovered or connected device.
#[derive(Debug, PartialEq, Eq)]
pub struct DeviceInfo {
    /// The identity.
    pub id: DeviceId,
    /// The friendly name, if known.
    pub name: Option<String>,
    /// The Class-of-Device, for a Classic device.
    pub class: Option<ClassOfDevice>,
    /// The last signal strength in dBm, if measured.
    pub rssi: Option<i16>,
    /// The advertised transmit power in dBm, if present.
    pub tx_power: Option<i16>,
    /// Whether the local stack has bonded with the device.
    pub paired: bool,
    /// Whether a connection is live.
    pub connected: bool,
    /// Advertised manufacturer data, by company.
    pub manufacturer_data: Vec<(CompanyId, Vec<u8>)>,
    /// The service UUIDs, as text.
    pub services: Vec<String>,
}

/// What a [`DeviceInfo`] holds.
pub struct DeviceView {
    pub id: DeviceId,
    pub name: Option<Seq<char>>,
    pub class: Option<ClassOfDevice>,
    pub rssi: Option<i16>,
    pub tx_power: Option<i16>,
    pub paired: bool,
    pub connected: bool,
    pub manufacturer_data: Seq<(CompanyId, Seq<u8>)>,
    pub services: Seq<Seq<char>>,
}

/// Manufacturer data as plain values.
pub open spec fn vendor_view(v: Seq<(CompanyId, Vec<u8>)>) -> Seq<(CompanyId, Seq<u8>)> {
    v.map_values(|e: (CompanyId, Vec<u8>)| (e.0, e.1@))
}

impl View for DeviceInfo {
    type V = DeviceView;

    open spec fn view(&self) -> DeviceView {
        DeviceView {
            id: self.id,
            name: text::optional(self.name),
            class: self.class,
            rssi: self.rssi,
            tx_power: self.tx_power,
            paired: self.paired,
            connected: self.connected,
            manufacturer_data: vendor_view(self.manufacturer_data@),
            services: text::texts(self.services@),
        }
    }
}

impl DeviceView {
    /// A description that holds only the identity.
    pub open spec fn only(id: DeviceId) -> DeviceView {
        DeviceView {
            id,
            name: None,
            class: None,
            rssi: None,
            tx_power: None,
            paired: false,
            connected: false,
            manufacturer_data: Seq::empty(),
            services: Seq::empty(),
        }
    }

    /// The best label: the name with the identity, else the identity.
    pub open spec fn words(self) -> Seq<char> {
        match self.name {
            Some(n) => n + " ["@ + self.id.words() + "]"@,
            None => self.id.words(),
        }
    }

    /// The major device class, where the class is known.
    pub open spec fn major(self) -> Option<MajorDeviceClass> {
        match self.class {
            Some(c) => Some(c.major_class()),
            None => None,
        }
    }

    /// The inventory listing of the device, on a platform already inferred.
    pub open spec fn listing(self, platform: PeerPlatform) -> Seq<char> {
        let head = "Device "@ + self.id.words() + "\n"@;
        let named = match self.name {
            Some(n) => head + row("name:        "@, n),
            None => head,
        };
        let placed = named + row("platform:    "@, platform.words());
        let measured = match self.rssi {
            Some(v) => placed + row("rssi:        "@, text::signed(v as int) + " dBm"@),
            None => placed,
        };
        let powered = match self.tx_power {
            Some(v) => measured + row("tx power:    "@, text::signed(v as int) + " dBm"@),
            None => measured,
        };
        let classed = match self.class {
            Some(c) => powered + row(
                "class:       "@,
                "0x"@ + text::hex_upper(c.0 as nat, 6) + " ("@ + c.major_class().words() + ")"@,
            ),
            None => powered,
        };
        let bonded = if self.paired {
            classed + row("paired:      "@, "yes"@)
        } else {
            classed
        };
        let linked = if self.connected {
            bonded + row("connected:   "@, "yes"@)
        } else {
            bonded
        };
        linked + vendor_rows(self.manufacturer_data) + service_rows(self.services)
    }
}

/// One indented row of a listing.
pub open spec fn row(label: Seq<char>, value: Seq<char>) -> Seq<char> {
    "  "@ + label + value + "\n"@
}

/// Bytes as upper case pairs, one blank between them.
pub open spec fn spaced(b: Seq<u8>) -> Seq<char>
    decreases b.len(),
{
    if b.len() == 0 {
        Seq::empty()
    } else if b.len() == 1 {
        text::byte_upper(b[0])
    } else {
        spaced(b.drop_last()) + " "@ + text::byte_upper(b.last())
    }
}

/// The rows for manufacturer data.
pub open spec fn vendor_rows(v: Seq<(CompanyId, Seq<u8>)>) -> Seq<char>
    decreases v.len(),
{
    if v.len() == 0 {
        Seq::empty()
    } else {
        let (company, data) = v.last();
        vendor_rows(v.drop_last()) + row(
            "vendor data: "@,
            company.words() + " (0x"@ + text::hex_upper(company.0 as nat, 4) + "): "@ + spaced(data),
        )
    }
}

/// The rows for services.
pub open spec fn service_rows(v: Seq<Seq<char>>) -> Seq<char>
    decreases v.len(),
{
    if v.len() == 0 {
        Seq::empty()
    } else {
        service_rows(v.drop_last()) + row("service:     "@, v.last())
    }
}

fn row_text(label: &str, value: &str) -> (r: String)
    ensures
        r@ == row(label@, value@),
{
    let mut t = "  ".to_owned();
    t.append(label);
    t.append(value);
    t.append("\n");
    t
}

fn spaced_text(b: &Vec<u8>) -> (r: String)
    ensures
        r@ == spaced(b@),
{
    let mut t = String::new();
    let mut i: usize = 0;
    while i < b.len()
        invariant
            i <= b@.len(),
            t@ == spaced(b@.take(i as int)),
        decreases b@.len() - i,
    {
        assert(b@.take(i + 1).drop_last() =~= b@.take(i as int));
        if i > 0 {
            t.append(" ");
        }
        t.append(text::byte_text(b[i], true).as_str());
        assert(i == 0 ==> t@ =~= text::byte_upper(b@[0]));
        i = i + 1;
    }
    assert(b@.take(i as int) =~= b@);
    t
}

fn vendor_rows_text(v: &Vec<(CompanyId, Vec<u8>)>) -> (r: String)
    ensures
        r@ == vendor_rows(vendor_view(v@)),
{
    let mut t = String::new();
    let mut i: usize = 0;
    assert(vendor_view(v@).take(0) =~= Seq::empty());
    while i < v.len()
        invariant
            i <= v@.len(),
            t@ == vendor_rows(vendor_view(v@).take(i as int)),
        decreases v@.len() - i,
    {
        assert(vendor_view(v@).take(i + 1).drop_last() =~= vendor_view(v@).take(i as int));
        assert(vendor_view(v@).take(i + 1).last() == (v@[i as int].0, v@[i as int].1@));
        let company: CompanyId = v[i].0;
        let mut value = company.to_string();
        value.append(" (0x");
        value.append(text::hex_upper_text(company.0 as u32, 4).as_str());
        value.append("): ");
        value.append(spaced_text(&v[i].1).as_str());
        t.append(row_text("vendor data: ", value.as_str()).as_str());
        i = i + 1;
    }
    assert(vendor_view(v@).take(i as int) =~= vendor_view(v@));
    t
}

fn service_rows_text(v: &Vec<String>) -> (r: String)
    ensures
        r@ == service_rows(text::texts(v@)),
{
    let mut t = String::new();
    let mut i: usize = 0;
    assert(text::texts(v@).take(0) =~= Seq::empty());
    while i < v.len()
        invariant
            i <= v@.len(),
            t@ == service_rows(text::texts(v@).take(i as int)),
        decreases v@.len() - i,
    {
        assert(text::texts(v@).take(i + 1).drop_last() =~= text::texts(v@).take(i as int));
        t.append(row_text("service:     ", v[i].as_str()).as_str());
        i = i + 1;
    }
    assert(text::texts(v@).take(i as int) =~= text::texts(v@));
    t
}

/// A copy of manufacturer data.
pub fn clone_vendor(v: &Vec<(CompanyId, Vec<u8>)>) -> (r: Vec<(CompanyId, Vec<u8>)>)
    ensures
        vendor_view(r@) == vendor_view(v@),
{
    let mut r: Vec<(CompanyId, Vec<u8>)> = Vec::new();
    let mut i: usize = 0;
    while i < v.len()
        invariant
            i <= v@.len(),
            vendor_view(r@) == vendor_view(v@).take(i as int),
        decreases v@.len() - i,
    {
        let data: Vec<u8> = v[i].1.clone();
        assert(data@ =~= v@[i as int].1@);
        let ghost before = r@;
        r.push((v[i].0, data));
        assert(vendor_view(r@) =~= vendor_view(before).push((v@[i as int].0, v@[i as int].1@)));
        assert(vendor_view(v@).take(i + 1) =~= vendor_view(v@).take(i as int).push(
            vendor_view(v@)[i as int],
        ));
        i = i + 1;
    }
    assert(vendor_view(v@).take(i as int) =~= vendor_view(v@));
    r
}

impl Clone for DeviceInfo {
    fn clone(&self) -> (r: DeviceInfo)
        ensures
            r@ == self@,
    {
        DeviceInfo {
            id: self.id,
            name: text::clone_optional(&self.name),
            class: self.class,
            rssi: self.rssi,
            tx_power: self.tx_power,
            paired: self.paired,
            connected: self.connected,
            manufacturer_data: clone_vendor(&self.manufacturer_data),
            services: text::clone_texts(&self.services),
        }
    }
}

impl Default for DeviceInfo {
    fn default() -> (r: DeviceInfo)
        ensures
            r@ == DeviceView::only(DeviceId::at(BdAddr::none())),
    {
        DeviceInfo::new(DeviceId::public(BdAddr::nil()))
    }
}

impl DeviceInfo {
    /// A description that holds only the identity.
    pub fn new(id: DeviceId) -> (r: DeviceInfo)
        ensures
            r@ == DeviceView::only(id),
    {
        let r = DeviceInfo {
            id,
            name: None,
            class: None,
            rssi: None,
            tx_power: None,
            paired: false,
            connected: false,
            manufacturer_data: Vec::new(),
            services: Vec::new(),
        };
        assert(r@.manufacturer_data =~= Seq::empty());
        assert(r@.services =~= Seq::empty());
        r
    }

    /// The same description with a friendly name.
    pub fn with_name(self, name: &str) -> (r: DeviceInfo)
        ensures
            r@ == (DeviceView { name: Some(name@), ..self@ }),
    {
        DeviceInfo { name: Some(name.to_owned()), ..self }
    }

    /// The same description with a signal strength.
    pub fn with_rssi(self, rssi: i16) -> (r: DeviceInfo)
        ensures
            r@ == (DeviceView { rssi: Some(rssi), ..self@ }),
    {
        DeviceInfo { rssi: Some(rssi), ..self }
    }

    /// The same description with a Class-of-Device.
    pub fn with_class(self, class: ClassOfDevice) -> (r: DeviceInfo)
        ensures
            r@ == (DeviceView { class: Some(class), ..self@ }),
    {
        DeviceInfo { class: Some(class), ..self }
    }

    /// The same description with one more block of manufacturer data.
    pub fn with_manufacturer_data(self, company: CompanyId, data: Vec<u8>) -> (r: DeviceInfo)
        ensures
            r@ == (DeviceView {
                manufacturer_data: self@.manufacturer_data.push((company, data@)),
                ..self@
            }),
    {
        let ghost old_view = self@;
        let ghost bytes = data@;
        let mut r = self;
        r.manufacturer_data.push((company, data));
        assert(r@.manufacturer_data =~= old_view.manufacturer_data.push((company, bytes)));
        r
    }

    /// The same description with one more service.
    pub fn with_service(self, service: &str) -> (r: DeviceInfo)
        ensures
            r@ == (DeviceView { services: self@.services.push(service@), ..self@ }),
    {
        let ghost old_view = self@;
        let mut r = self;
        r.services.push(service.to_owned());
        assert(r@.services =~= old_view.services.push(service@));
        r
    }

    /// The best label: the name with the identity, else the identity.
    pub fn label(&self) -> (r: String)
        ensures
            r@ == self@.words(),
    {
        match &self.name {
            Some(n) => {
                let mut t = n.clone();
                t.append(" [");
                t.append(self.id.to_string().as_str());
                t.append("]");
                t
            },
            None => self.id.to_string(),
        }
    }

    /// The platform inferred from what the device advertises.
    pub fn platform(&self) -> (r: PeerPlatform)
        ensures
            r == peer::inferred(self@),
    {
        peer::detect_platform(self)
    }

    /// The inventory listing of the device.
    pub fn dump(&self) -> (r: String)
        ensures
            r@ == self@.listing(peer::inferred(self@)),
    {
        self.dump_as(self.platform())
    }

    /// The inventory listing of the device, on a platform already inferred.
    pub fn dump_as(&self, platform: PeerPlatform) -> (r: String)
        ensures
            r@ == self@.listing(platform),
    {
        let mut t = "Device ".to_owned();
        t.append(self.id.to_string().as_str());
        t.append("\n");
        if let Some(n) = &self.name {
            t.append(row_text("name:        ", n.as_str()).as_str());
        }
        t.append(row_text("platform:    ", platform.label()).as_str());
        if let Some(v) = self.rssi {
            let mut dbm = text::signed_text(v as i64);
            dbm.append(" dBm");
            t.append(row_text("rssi:        ", dbm.as_str()).as_str());
        }
        if let Some(v) = self.tx_power {
            let mut dbm = text::signed_text(v as i64);
            dbm.append(" dBm");
            t.append(row_text("tx power:    ", dbm.as_str()).as_str());
        }
        if let Some(c) = self.class {
            let mut shown = "0x".to_owned();
            shown.append(text::hex_upper_text(c.0, 6).as_str());
            shown.append(" (");
            shown.append(c.major().to_string().as_str());
            shown.append(")");
            t.append(row_text("class:       ", shown.as_str()).as_str());
        }
        if self.paired {
            t.append(row_text("paired:      ", "yes").as_str());
        }
        if self.connected {
            t.append(row_text("connected:   ", "yes").as_str());
        }
        t.append(vendor_rows_text(&self.manufacturer_data).as_str());
        t.append(service_rows_text(&self.services).as_str());
        t
    }
}

} // verus!
