//! The Bluetooth Core Specification versions and radios.
use std::cmp::Ordering;
use vstd::prelude::*;
use vstd::std_specs::cmp::PartialOrdSpecImpl;

verus! {

/// A Bluetooth Core Specification version, in order of publication.
#[derive(Clone, Copy, Debug, PartialEq, Eq, Structural, Hash, Ord)]
#[non_exhaustive]
pub enum CoreVersion {
    V1_0b,
    V1_1,
    V1_2,
    V2_0,
    V2_1,
    V3_0,
    V4_0,
    V4_1,
    V4_2,
    V5_0,
    V5_1,
    V5_2,
    V5_3,
    V5_4,
    V6_0,
}

impl CoreVersion {
    /// Every version, oldest first.
    pub const ALL: [CoreVersion; 15] = [
        CoreVersion::V1_0b,
        CoreVersion::V1_1,
        CoreVersion::V1_2,
        CoreVersion::V2_0,
        CoreVersion::V2_1,
        CoreVersion::V3_0,
        CoreVersion::V4_0,
        CoreVersion::V4_1,
        CoreVersion::V4_2,
        CoreVersion::V5_0,
        CoreVersion::V5_1,
        CoreVersion::V5_2,
        CoreVersion::V5_3,
        CoreVersion::V5_4,
        CoreVersion::V6_0,
    ];

    /// The version number that HCI assigns.
    pub open spec fn number(self) -> u8 {
        match self {
            CoreVersion::V1_0b => 0,
            CoreVersion::V1_1 => 1,
            CoreVersion::V1_2 => 2,
            CoreVersion::V2_0 => 3,
            CoreVersion::V2_1 => 4,
            CoreVersion::V3_0 => 5,
            CoreVersion::V4_0 => 6,
            CoreVersion::V4_1 => 7,
            CoreVersion::V4_2 => 8,
            CoreVersion::V5_0 => 9,
            CoreVersion::V5_1 => 10,
            CoreVersion::V5_2 => 11,
            CoreVersion::V5_3 => 12,
            CoreVersion::V5_4 => 13,
            CoreVersion::V6_0 => 14,
        }
    }

    /// The version of an HCI version number, if there is one.
    pub open spec fn numbered(byte: u8) -> Option<CoreVersion> {
        if byte < CoreVersion::ALL@.len() {
            Some(CoreVersion::ALL@[byte as int])
        } else {
            None
        }
    }

    /// The marketing name.
    pub open spec fn title(self) -> Seq<char> {
        match self {
            CoreVersion::V1_0b => "Bluetooth 1.0b"@,
            CoreVersion::V1_1 => "Bluetooth 1.1"@,
            CoreVersion::V1_2 => "Bluetooth 1.2"@,
            CoreVersion::V2_0 => "Bluetooth 2.0 + EDR"@,
            CoreVersion::V2_1 => "Bluetooth 2.1 + EDR"@,
            CoreVersion::V3_0 => "Bluetooth 3.0 + HS"@,
            CoreVersion::V4_0 => "Bluetooth 4.0"@,
            CoreVersion::V4_1 => "Bluetooth 4.1"@,
            CoreVersion::V4_2 => "Bluetooth 4.2"@,
            CoreVersion::V5_0 => "Bluetooth 5.0"@,
            CoreVersion::V5_1 => "Bluetooth 5.1"@,
            CoreVersion::V5_2 => "Bluetooth 5.2"@,
            CoreVersion::V5_3 => "Bluetooth 5.3"@,
            CoreVersion::V5_4 => "Bluetooth 5.4"@,
            CoreVersion::V6_0 => "Bluetooth 6.0"@,
        }
    }

    /// The version byte that HCI assigns.
    pub fn hci(self) -> (r: u8)
        ensures
            r == self.number(),
    {
        match self {
            CoreVersion::V1_0b => 0,
            CoreVersion::V1_1 => 1,
            CoreVersion::V1_2 => 2,
            CoreVersion::V2_0 => 3,
            CoreVersion::V2_1 => 4,
            CoreVersion::V3_0 => 5,
            CoreVersion::V4_0 => 6,
            CoreVersion::V4_1 => 7,
            CoreVersion::V4_2 => 8,
            CoreVersion::V5_0 => 9,
            CoreVersion::V5_1 => 10,
            CoreVersion::V5_2 => 11,
            CoreVersion::V5_3 => 12,
            CoreVersion::V5_4 => 13,
            CoreVersion::V6_0 => 14,
        }
    }

    /// The version that an HCI version byte stands for, if any.
    pub fn from_hci(byte: u8) -> (r: Option<CoreVersion>)
        ensures
            r == CoreVersion::numbered(byte),
    {
        match byte {
            0 => Some(CoreVersion::V1_0b),
            1 => Some(CoreVersion::V1_1),
            2 => Some(CoreVersion::V1_2),
            3 => Some(CoreVersion::V2_0),
            4 => Some(CoreVersion::V2_1),
            5 => Some(CoreVersion::V3_0),
            6 => Some(CoreVersion::V4_0),
            7 => Some(CoreVersion::V4_1),
            8 => Some(CoreVersion::V4_2),
            9 => Some(CoreVersion::V5_0),
            10 => Some(CoreVersion::V5_1),
            11 => Some(CoreVersion::V5_2),
            12 => Some(CoreVersion::V5_3),
            13 => Some(CoreVersion::V5_4),
            14 => Some(CoreVersion::V6_0),
            _ => None,
        }
    }

    /// The marketing name.
    pub fn name(self) -> (r: &'static str)
        ensures
            r@ == self.title(),
    {
        match self {
            CoreVersion::V1_0b => "Bluetooth 1.0b",
            CoreVersion::V1_1 => "Bluetooth 1.1",
            CoreVersion::V1_2 => "Bluetooth 1.2",
            CoreVersion::V2_0 => "Bluetooth 2.0 + EDR",
            CoreVersion::V2_1 => "Bluetooth 2.1 + EDR",
            CoreVersion::V3_0 => "Bluetooth 3.0 + HS",
            CoreVersion::V4_0 => "Bluetooth 4.0",
            CoreVersion::V4_1 => "Bluetooth 4.1",
            CoreVersion::V4_2 => "Bluetooth 4.2",
            CoreVersion::V5_0 => "Bluetooth 5.0",
            CoreVersion::V5_1 => "Bluetooth 5.1",
            CoreVersion::V5_2 => "Bluetooth 5.2",
            CoreVersion::V5_3 => "Bluetooth 5.3",
            CoreVersion::V5_4 => "Bluetooth 5.4",
            CoreVersion::V6_0 => "Bluetooth 6.0",
        }
    }

    /// Whether the version has Bluetooth LE: from 4.0 on.
    pub fn supports_le(self) -> (r: bool)
        ensures
            r == (self.number() >= CoreVersion::V4_0.number()),
    {
        self.hci() >= CoreVersion::V4_0.hci()
    }

    /// Whether the version has BR/EDR: every version does.
    pub fn supports_bredr(self) -> (r: bool)
        ensures
            r,
    {
        true
    }

    /// The marketing name.
    pub fn to_string(&self) -> (r: String)
        ensures
            r@ == self.title(),
    {
        self.name().to_owned()
    }
}

impl PartialOrd for CoreVersion {
    fn partial_cmp(&self, other: &CoreVersion) -> (r: Option<Ordering>) {
        let a: u8 = self.hci();
        let b: u8 = other.hci();
        if a < b {
            Some(Ordering::Less)
        } else if a == b {
            Some(Ordering::Equal)
        } else {
            Some(Ordering::Greater)
        }
    }
}

impl PartialOrdSpecImpl for CoreVersion {
    open spec fn obeys_partial_cmp_spec() -> bool {
        true
    }

    open spec fn partial_cmp_spec(&self, other: &CoreVersion) -> Option<Ordering> {
        if self.number() < other.number() {
            Some(Ordering::Less)
        } else if self.number() == other.number() {
            Some(Ordering::Equal)
        } else {
            Some(Ordering::Greater)
        }
    }
}

/// The version of a version's HCI byte is the version, a byte that names a version is that
/// version's, and only the bytes up to 14 name one.
pub proof fn hci_byte_reads_back(v: CoreVersion, byte: u8)
    ensures
        CoreVersion::numbered(v.number()) == Some(v),
        CoreVersion::numbered(byte) == Some(v) ==> v.number() == byte,
        CoreVersion::numbered(byte) is None <==> byte > 14,
{
}

/// How two versions compare.
pub open spec fn compared(a: CoreVersion, b: CoreVersion) -> Option<Ordering> {
    vstd::std_specs::cmp::PartialOrdSpec::partial_cmp_spec(&a, &b)
}

/// Versions compare as their HCI bytes do.
pub proof fn versions_compare_as_bytes(a: CoreVersion, b: CoreVersion)
    ensures
        compared(a, b) == Some(Ordering::Less) <==> a.number() < b.number(),
        compared(a, b) == Some(Ordering::Equal) <==> a == b,
        compared(a, b) == Some(Ordering::Greater) <==> a.number() > b.number(),
{
}

/// Versions and their HCI bytes are one to one.
pub proof fn hci_byte_names_one_version(a: CoreVersion, b: CoreVersion)
    requires
        a.number() == b.number(),
    ensures
        a == b,
{
}

/// The table of versions holds every version once, in order of publication.
pub proof fn all_versions_in_order(v: CoreVersion)
    ensures
        CoreVersion::ALL@[v.number() as int] == v,
        forall|i: int| 0 <= i < 15 ==> (#[trigger] CoreVersion::ALL@[i]).number() == i,
{
}

/// Which radio a link uses.
#[derive(Clone, Copy, Debug, PartialEq, Eq, Structural, Hash, PartialOrd, Ord)]
pub enum Transport {
    /// Bluetooth Classic.
    BrEdr,
    /// Bluetooth Low Energy.
    Le,
    /// Both.
    Dual,
}

impl Default for Transport {
    fn default() -> (r: Transport)
        ensures
            r == Transport::BrEdr,
    {
        Transport::BrEdr
    }
}

impl Transport {
    /// The words for the radio.
    pub open spec fn words(self) -> Seq<char> {
        match self {
            Transport::BrEdr => "BR/EDR"@,
            Transport::Le => "LE"@,
            Transport::Dual => "dual-mode"@,
        }
    }

    /// The words for the radio.
    pub fn to_string(&self) -> (r: String)
        ensures
            r@ == self.words(),
    {
        match self {
            Transport::BrEdr => "BR/EDR".to_owned(),
            Transport::Le => "LE".to_owned(),
            Transport::Dual => "dual-mode".to_owned(),
        }
    }
}

/// The specification context of a link.
#[derive(Clone, Copy, Debug, PartialEq, Eq, Structural, Hash, PartialOrd, Ord)]
pub struct SpecContext {
    /// The core version in force.
    pub version: CoreVersion,
    /// The radio in use.
    pub transport: Transport,
}

impl SpecContext {
    /// The text of a context.
    pub open spec fn words(self) -> Seq<char> {
        self.version.title() + " over "@ + self.transport.words()
    }

    /// A context made of a version and a radio.
    pub fn new(version: CoreVersion, transport: Transport) -> (r: SpecContext)
        ensures
            r == (SpecContext { version, transport }),
    {
        SpecContext { version, transport }
    }

    /// The text of the context.
    pub fn to_string(&self) -> (r: String)
        ensures
            r@ == self.words(),
    {
        let mut t = self.version.to_string();
        t.append(" over ");
        t.append(self.transport.to_string().as_str());
        t
    }
}

} // verus!
