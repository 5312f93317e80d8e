//! Guessing what kind of device a peer is from what it advertises.
use vstd::prelude::*;
use crate::device::{DeviceInfo, DeviceView, MajorDeviceClass};
use crate::hardware::CompanyId;
use crate::text;

verus! {

/// A best-effort classification of a peer.
#[derive(Clone, Copy, Debug, PartialEq, Eq, Structural, Hash, PartialOrd, Ord)]
#[non_exhaustive]
pub enum PeerPlatform {
    /// An Android phone or tablet.
    Android,
    /// An iPhone, iPad or iPod.
    IPhone,
    /// A Mac.
    AppleMac,
    /// A Windows PC.
    Windows,
    /// Undetermined.
    Unknown,
}

impl Default for PeerPlatform {
    fn default() -> (r: PeerPlatform)
        ensures
            r == PeerPlatform::Unknown,
    {
        PeerPlatform::Unknown
    }
}

impl PeerPlatform {
    /// The short label.
    pub open spec fn words(self) -> Seq<char> {
        match self {
            PeerPlatform::Android => "Android"@,
            PeerPlatform::IPhone => "iPhone/iOS"@,
            PeerPlatform::AppleMac => "Mac"@,
            PeerPlatform::Windows => "Windows"@,
            PeerPlatform::Unknown => "unknown"@,
        }
    }

    /// Whether the platform receives a Classic OBEX Object Push.
    pub fn supports_obex_push(self) -> (r: bool)
        ensures
            r == (self is Android || self is AppleMac || self is Windows),
    {
        matches!(self, PeerPlatform::Android | PeerPlatform::AppleMac | PeerPlatform::Windows)
    }

    /// The short label.
    pub fn label(self) -> (r: &'static str)
        ensures
            r@ == self.words(),
    {
        match self {
            PeerPlatform::Android => "Android",
            PeerPlatform::IPhone => "iPhone/iOS",
            PeerPlatform::AppleMac => "Mac",
            PeerPlatform::Windows => "Windows",
            PeerPlatform::Unknown => "unknown",
        }
    }

    /// The short label.
    pub fn to_string(&self) -> (r: String)
        ensures
            r@ == self.words(),
    {
        self.label().to_owned()
    }
}

/// What a lower case name says of the platform, if it says anything.
pub open spec fn name_hint(n: Seq<char>) -> Option<PeerPlatform> {
    if text::has_text(n, "iphone"@) || text::has_text(n, "ipad"@) || text::has_text(n, "ipod"@) {
        Some(PeerPlatform::IPhone)
    } else if text::has_text(n, "macbook"@) || text::has_text(n, "imac"@) || text::has_text(
        n,
        "mac mini"@,
    ) || text::has_text(n, "mac studio"@) || text::has_text(n, "mac pro"@) {
        Some(PeerPlatform::AppleMac)
    } else if text::has_text(n, "android"@) || text::has_text(n, "galaxy"@) || text::has_text(
        n,
        "pixel"@,
    ) || text::has_text(n, "oneplus"@) || text::has_text(n, "xiaomi"@) || text::has_text(
        n,
        "redmi"@,
    ) || text::has_text(n, "oppo"@) || text::has_text(n, "vivo"@) || text::has_text(n, "nexus"@) {
        Some(PeerPlatform::Android)
    } else if text::has_text(n, "surface"@) || text::has_text(n, "windows"@) {
        Some(PeerPlatform::Windows)
    } else {
        None
    }
}

/// Whether a device advertises Apple manufacturer data.
pub open spec fn has_apple(d: DeviceView) -> bool {
    exists|i: int|
        0 <= i < d.manufacturer_data.len() && (#[trigger] d.manufacturer_data[i]).0 == CompanyId(
            0x004C,
        )
}

/// What the manufacturer data and the class say of the platform.
pub open spec fn radio_hint(d: DeviceView) -> PeerPlatform {
    if has_apple(d) {
        if d.major() == Some(MajorDeviceClass::Computer) {
            PeerPlatform::AppleMac
        } else {
            PeerPlatform::IPhone
        }
    } else if d.major() == Some(MajorDeviceClass::Phone) {
        PeerPlatform::Android
    } else {
        PeerPlatform::Unknown
    }
}

/// The platform of a device whose name, in lower case, is `lowered`: the name decides
/// where it says anything, else the radio does.
pub open spec fn classified(d: DeviceView, lowered: Option<Seq<char>>) -> PeerPlatform {
    match lowered {
        Some(n) => match name_hint(n) {
            Some(p) => p,
            None => radio_hint(d),
        },
        None => radio_hint(d),
    }
}

/// The platform inferred from what a device advertises.
pub open spec fn inferred(d: DeviceView) -> PeerPlatform {
    match d.name {
        Some(n) => classified(d, Some(text::lowercase(n))),
        None => classified(d, None),
    }
}

/// Whether the device advertises Apple manufacturer data.
fn is_apple(info: &DeviceInfo) -> (r: bool)
    ensures
        r == has_apple(info@),
{
    let mut i: usize = 0;
    while i < info.manufacturer_data.len()
        invariant
            i <= info.manufacturer_data@.len(),
            forall|k: int|
                0 <= k < i ==> (#[trigger] info@.manufacturer_data[k]).0 != CompanyId(0x004C),
        decreases info.manufacturer_data@.len() - i,
    {
        assert(info@.manufacturer_data[i as int].0 == info.manufacturer_data@[i as int].0);
        if info.manufacturer_data[i].0 == CompanyId::apple() {
            return true;
        }
        i = i + 1;
    }
    false
}

/// What a lower case name says of the platform, if it says anything.
pub fn platform_from_name(n: &str) -> (r: Option<PeerPlatform>)
    ensures
        r == name_hint(n@),
{
    if text::contains(n, "iphone") || text::contains(n, "ipad") || text::contains(n, "ipod") {
        return Some(PeerPlatform::IPhone);
    }
    if text::contains(n, "macbook") || text::contains(n, "imac") || text::contains(n, "mac mini")
        || text::contains(n, "mac studio") || text::contains(n, "mac pro") {
        return Some(PeerPlatform::AppleMac);
    }
    if text::contains(n, "android") || text::contains(n, "galaxy") || text::contains(n, "pixel")
        || text::contains(n, "oneplus") || text::contains(n, "xiaomi") || text::contains(n, "redmi")
        || text::contains(n, "oppo") || text::contains(n, "vivo") || text::contains(n, "nexus") {
        return Some(PeerPlatform::Android);
    }
    if text::contains(n, "surface") || text::contains(n, "windows") {
        return Some(PeerPlatform::Windows);
    }
    None
}

/// The platform of a device whose name, in lower case, is `lowered`.
pub fn classify(info: &DeviceInfo, lowered: Option<&str>) -> (r: PeerPlatform)
    ensures
        r == classified(
            info@,
            match lowered {
                Some(n) => Some(n@),
                None => None,
            },
        ),
{
    if let Some(n) = lowered {
        if let Some(p) = platform_from_name(n) {
            return p;
        }
    }
    let major: Option<MajorDeviceClass> = match info.class {
        Some(c) => Some(c.major()),
        None => None,
    };
    if is_apple(info) {
        return match major {
            Some(MajorDeviceClass::Computer) => PeerPlatform::AppleMac,
            _ => PeerPlatform::IPhone,
        };
    }
    match major {
        Some(MajorDeviceClass::Phone) => PeerPlatform::Android,
        _ => PeerPlatform::Unknown,
    }
}

/// The platform inferred from what the device advertises.
pub fn detect_platform(info: &DeviceInfo) -> (r: PeerPlatform)
    ensures
        r == inferred(info@),
{
    match &info.name {
        Some(n) => {
            let lowered = text::to_lowercase(n.as_str());
            classify(info, Some(lowered.as_str()))
        },
        None => classify(info, None),
    }
}

/// A name that says anything decides, whatever the radio advertises.
pub proof fn name_decides(d: DeviceView, lowered: Seq<char>, p: PeerPlatform)
    requires
        name_hint(lowered) == Some(p),
    ensures
        classified(d, Some(lowered)) == p,
{
}

} // verus!
