//! What the vocabulary says of itself: classes, versions, vendors, platforms, times and
//! events, each in terms of the parts that it is made of.
use vstd::prelude::*;
use crate::adapter;
use crate::adapter_laws;
use crate::address::BdAddr;
use crate::analyze;
use crate::backend::{BackendKind, Capabilities};
use crate::device;
use crate::device::{ClassOfDevice, DeviceId, DeviceView, MajorDeviceClass};
use crate::event::{EventView, KindView};
use crate::hardware::{ChipsetFamily, CompanyId};
use crate::label_laws;
use crate::metrics::Metrics;
use crate::mock_device::MockDeviceView;
use crate::mock_model;
use crate::obex;
use crate::obex_laws;
use crate::peer;
use crate::peer::PeerPlatform;
use crate::standards::{Standard802, StandardsLayer};
use crate::text;
use crate::text_laws;
use crate::time::{Duration, Timestamp};
use crate::transport_error::TransportErrorView;
use crate::uuid;
use crate::version::{CoreVersion, Transport};

verus! {

/// A class value is made of a minor part, a major class and service bits, and gives the
/// major class and the service bits back.
pub proof fn class_gives_its_parts_back(
    minor: u32,
    field: u32,
    services: u32,
    c: ClassOfDevice,
    bits: u16,
)
    requires
        minor < 0x100,
        field < 0x20,
        services < 0x800,
        c.0 == minor + 0x100 * field + 0x2000 * services,
        call_ensures(ClassOfDevice::service_bits, (c,), bits),
    ensures
        c.major_class() == MajorDeviceClass::named(field as int),
        bits == services,
        c.0 < 0x100_0000,
{
    let x = c.0;
    assert(x / 0x100 % 0x20 == field && x / 0x2000 % 0x800 == services) by (bit_vector)
        requires
            minor < 0x100,
            field < 0x20,
            services < 0x800,
            x == minor + 0x100 * field + 0x2000 * services,
    ;
}

/// The assigned field values name one class each, in the order of assignment; every other
/// value is uncategorized.
pub proof fn fields_name_their_classes(a: int, b: int)
    ensures
        MajorDeviceClass::named(1) is Computer,
        MajorDeviceClass::named(2) is Phone,
        0 <= a <= 9 && 0 <= b <= 9 && MajorDeviceClass::named(a) == MajorDeviceClass::named(b)
            ==> a == b,
        MajorDeviceClass::named(a) is Uncategorized <==> a < 0 || a > 9,
        MajorDeviceClass::named(a) is Miscellaneous <==> a == 0,
        MajorDeviceClass::named(a) is NetworkAccessPoint <==> a == 3,
        MajorDeviceClass::named(a) is AudioVideo <==> a == 4,
        MajorDeviceClass::named(a) is Peripheral <==> a == 5,
        MajorDeviceClass::named(a) is Imaging <==> a == 6,
        MajorDeviceClass::named(a) is Wearable <==> a == 7,
        MajorDeviceClass::named(a) is Toy <==> a == 8,
        MajorDeviceClass::named(a) is Health <==> a == 9,
{
}

/// The order of versions is the order of the numbers in their names.
pub proof fn versions_count_up(a: CoreVersion, b: CoreVersion)
    ensures
        a.number() < b.number() <==> (a.title()[10] < b.title()[10] || (a.title()[10]
            == b.title()[10] && a.title()[12] < b.title()[12])),
{
    reveal_strlit("Bluetooth 1.0b");
    reveal_strlit("Bluetooth 1.1");
    reveal_strlit("Bluetooth 1.2");
    reveal_strlit("Bluetooth 2.0 + EDR");
    reveal_strlit("Bluetooth 2.1 + EDR");
    reveal_strlit("Bluetooth 3.0 + HS");
    reveal_strlit("Bluetooth 4.0");
    reveal_strlit("Bluetooth 4.1");
    reveal_strlit("Bluetooth 4.2");
    reveal_strlit("Bluetooth 5.0");
    reveal_strlit("Bluetooth 5.1");
    reveal_strlit("Bluetooth 5.2");
    reveal_strlit("Bluetooth 5.3");
    reveal_strlit("Bluetooth 5.4");
    reveal_strlit("Bluetooth 6.0");
}

/// Low energy comes with every version whose name counts from 4 up, and Classic with all.
pub proof fn low_energy_from_four_on(v: CoreVersion, le: bool, classic: bool)
    requires
        call_ensures(CoreVersion::supports_le, (v,), le),
        call_ensures(CoreVersion::supports_bredr, (v,), classic),
    ensures
        le <==> v.title()[10] >= '4',
        classic,
{
    versions_count_up(v, CoreVersion::V4_0);
    versions_count_up(CoreVersion::V3_0, v);
    reveal_strlit("Bluetooth 4.0");
    reveal_strlit("Bluetooth 3.0 + HS");
    reveal_strlit("Bluetooth 1.0b");
    reveal_strlit("Bluetooth 1.1");
    reveal_strlit("Bluetooth 1.2");
    reveal_strlit("Bluetooth 2.0 + EDR");
    reveal_strlit("Bluetooth 2.1 + EDR");
    reveal_strlit("Bluetooth 4.1");
    reveal_strlit("Bluetooth 4.2");
    reveal_strlit("Bluetooth 5.0");
    reveal_strlit("Bluetooth 5.1");
    reveal_strlit("Bluetooth 5.2");
    reveal_strlit("Bluetooth 5.3");
    reveal_strlit("Bluetooth 5.4");
    reveal_strlit("Bluetooth 6.0");
}

/// A family is the one of the vendor whose name it goes with; Cypress builds Broadcom's, and
/// a vendor without a family of its own has an unknown one. None is virtual.
pub proof fn families_go_with_their_vendors(c: CompanyId)
    ensures
        ChipsetFamily::built_by(c) is AppleCombo <==> c.known_name() == Some("Apple, Inc."@),
        ChipsetFamily::built_by(c) is Intel <==> c.known_name() == Some("Intel Corp."@),
        ChipsetFamily::built_by(c) is Broadcom <==> c.known_name() == Some(
            "Broadcom Corporation"@,
        ) || c.known_name() == Some("Cypress Semiconductor"@),
        ChipsetFamily::built_by(c) is Qualcomm <==> c.known_name() == Some("Qualcomm"@),
        ChipsetFamily::built_by(c) is Realtek <==> c.known_name() == Some(
            "Realtek Semiconductor"@,
        ),
        ChipsetFamily::built_by(c) is Nordic <==> c.known_name() == Some(
            "Nordic Semiconductor ASA"@,
        ),
        ChipsetFamily::built_by(c) is Csr <==> c.known_name() == Some("Cambridge Silicon Radio"@),
        !(ChipsetFamily::built_by(c) is Virtual),
        c.known_name() is None ==> ChipsetFamily::built_by(c) is Unknown,
{
    label_laws::vendors_have_their_own_words(c, CompanyId(0x004C));
    label_laws::vendors_have_their_own_words(c, CompanyId(0x0002));
    label_laws::vendors_have_their_own_words(c, CompanyId(0x000F));
    label_laws::vendors_have_their_own_words(c, CompanyId(0x0131));
    label_laws::vendors_have_their_own_words(c, CompanyId(0x001D));
    label_laws::vendors_have_their_own_words(c, CompanyId(0x005D));
    label_laws::vendors_have_their_own_words(c, CompanyId(0x0059));
    label_laws::vendors_have_their_own_words(c, CompanyId(0x000A));
}

/// What is inferred of a device whose name says nothing: Apple data is a Mac's on a computer
/// and a phone's on anything else; without it only a phone's class says something. The name
/// comes before both, and the pairing state, signal and services never count.
pub proof fn radio_infers_the_rest(d: DeviceView, lowered: Option<Seq<char>>)
    requires
        lowered matches Some(n) ==> peer::name_hint(n) is None,
    ensures
        ({
            let p = peer::classified(d, lowered);
            let apple = exists|i: int|
                0 <= i < d.manufacturer_data.len() && (#[trigger] d.manufacturer_data[i]).0.0
                    == 0x4C;
            let computer = d.class is Some && (d.class->0).major_class() is Computer;
            let phone = d.class is Some && (d.class->0).major_class() is Phone;
            &&& apple && computer ==> p is AppleMac
            &&& apple && !computer ==> p is IPhone
            &&& !apple && phone ==> p is Android
            &&& !apple && !phone ==> p is Unknown
        }),
{
    if peer::has_apple(d) {
        let i = choose|i: int|
            0 <= i < d.manufacturer_data.len() && (#[trigger] d.manufacturer_data[i]).0
                == CompanyId(0x004C);
        assert(d.manufacturer_data[i].0.0 == 0x4C);
    }
    if exists|i: int|
        0 <= i < d.manufacturer_data.len() && (#[trigger] d.manufacturer_data[i]).0.0 == 0x4C {
        let i = choose|i: int|
            0 <= i < d.manufacturer_data.len() && (#[trigger] d.manufacturer_data[i]).0.0 == 0x4C;
        assert(d.manufacturer_data[i].0 == CompanyId(0x004C));
    }
}

/// Whether a name holds one of the words for a phone, a tablet or a player of Apple.
pub open spec fn says_iphone(n: Seq<char>) -> bool {
    text::has_text(n, "iphone"@) || text::has_text(n, "ipad"@) || text::has_text(n, "ipod"@)
}

/// Whether a name holds one of the words for a Mac.
pub open spec fn says_mac(n: Seq<char>) -> bool {
    text::has_text(n, "macbook"@) || text::has_text(n, "imac"@) || text::has_text(n, "mac mini"@)
        || text::has_text(n, "mac studio"@) || text::has_text(n, "mac pro"@)
}

/// Whether a name holds one of the words for an Android device.
pub open spec fn says_android(n: Seq<char>) -> bool {
    text::has_text(n, "android"@) || text::has_text(n, "galaxy"@) || text::has_text(n, "pixel"@)
        || text::has_text(n, "oneplus"@) || text::has_text(n, "xiaomi"@) || text::has_text(
        n,
        "redmi"@,
    ) || text::has_text(n, "oppo"@) || text::has_text(n, "vivo"@) || text::has_text(n, "nexus"@)
}

/// Whether a name holds one of the words for a Windows device.
pub open spec fn says_windows(n: Seq<char>) -> bool {
    text::has_text(n, "surface"@) || text::has_text(n, "windows"@)
}

/// Which words in a name say which platform, and which of them come first: a phone of Apple
/// before a Mac, before Android, before Windows; a name with none of them says nothing.
pub proof fn names_hint_at_platforms(n: Seq<char>)
    ensures
        peer::name_hint(n) == Some(PeerPlatform::IPhone) <==> says_iphone(n),
        peer::name_hint(n) == Some(PeerPlatform::AppleMac) <==> says_mac(n) && !says_iphone(n),
        peer::name_hint(n) == Some(PeerPlatform::Android) <==> says_android(n) && !says_iphone(n)
            && !says_mac(n),
        peer::name_hint(n) == Some(PeerPlatform::Windows) <==> says_windows(n) && !says_iphone(n)
            && !says_mac(n) && !says_android(n),
        peer::name_hint(n) is None <==> !says_iphone(n) && !says_mac(n) && !says_android(n)
            && !says_windows(n),
{
}

/// A phone of Apple takes no pushed objects, and neither does an unknown device; all others
/// do.
pub proof fn who_takes_objects(p: PeerPlatform, takes: bool)
    requires
        call_ensures(PeerPlatform::supports_obex_push, (p,), takes),
    ensures
        takes <==> !(p is IPhone) && !(p is Unknown),
{
}

/// Which events fail, which move payload and which only speak of it.
pub proof fn kinds_count_as(kind: KindView)
    ensures
        kind.failure() <==> kind is Error || kind is PairingFailed,
        match kind {
            KindView::DataChunk { bytes, .. } => kind.moved() == bytes && kind.payload() == bytes,
            KindView::TransferCompleted { bytes, .. } => kind.moved() == 0 && kind.payload()
                == bytes,
            _ => kind.moved() == 0 && kind.payload() == 0,
        },
{
}

/// What one more event does to a summary, by its kind: it is one event more; only a chunk
/// adds bytes, only an error or a failed pairing a failure, only a warning a warning; and
/// the first and last times stay or become its own.
pub proof fn one_more_event_counts(es: Seq<EventView>, e: EventView, a: Metrics, b: Metrics)
    requires
        a.summarizes(es),
        b.summarizes(es.push(e)),
    ensures
        b.events == a.events + 1,
        b.bytes == a.bytes + match e.kind {
            KindView::DataChunk { bytes, .. } => bytes as int,
            _ => 0int,
        },
        b.failures == a.failures + match e.kind {
            KindView::Error { .. } => 1int,
            KindView::PairingFailed { .. } => 1int,
            _ => 0int,
        },
        b.warnings == a.warnings + match e.kind {
            KindView::Warning { .. } => 1int,
            _ => 0int,
        },
        b.first_at is Some && b.last_at is Some,
        b.first_at->0.nanos <= e.at.nanos <= b.last_at->0.nanos,
        a.first_at is None <==> a.events == 0,
        a.first_at matches Some(t) ==> b.first_at->0.nanos == if t.nanos <= e.at.nanos {
            t.nanos
        } else {
            e.at.nanos
        },
        a.last_at matches Some(t) ==> b.last_at->0.nanos == if t.nanos >= e.at.nanos {
            t.nanos
        } else {
            e.at.nanos
        },
        a.first_at is None ==> b.first_at == Some(e.at) && b.last_at == Some(e.at),
{
    let more = es.push(e);
    assert(more.drop_last() =~= es);
    assert(more[es.len() as int] == e);
    let i = choose|i: int| 0 <= i < more.len() && (#[trigger] more[i]).at == b.first_at->0;
    let j = choose|j: int| 0 <= j < more.len() && (#[trigger] more[j]).at == b.last_at->0;
    if i < es.len() {
        assert(more[i] == es[i]);
    }
    if j < es.len() {
        assert(more[j] == es[j]);
    }
    if es.len() > 0 {
        let k = choose|k: int| 0 <= k < es.len() && (#[trigger] es[k]).at == a.first_at->0;
        let l = choose|l: int| 0 <= l < es.len() && (#[trigger] es[l]).at == a.last_at->0;
        assert(more[k] == es[k] && more[l] == es[l]);
    }
}

/// The time that a summary covers is from its first event to its last.
pub proof fn span_is_first_to_last(es: Seq<EventView>, m: Metrics, d: Duration, i: int, j: int)
    requires
        m.summarizes(es),
        call_ensures(Metrics::span, (&m,), d),
        0 <= i < es.len(),
        0 <= j < es.len(),
    ensures
        es[j].at.nanos - es[i].at.nanos <= d.nanos,
        exists|k: int, l: int|
            0 <= k < es.len() && 0 <= l < es.len() && d.nanos == (#[trigger] es[l]).at.nanos - (
            #[trigger] es[k]).at.nanos,
{
    let k = choose|k: int| 0 <= k < es.len() && (#[trigger] es[k]).at == m.first_at->0;
    let l = choose|l: int| 0 <= l < es.len() && (#[trigger] es[l]).at == m.last_at->0;
    assert(es[k].at.nanos <= es[l].at.nanos);
    assert(d.nanos == es[l].at.nanos - es[k].at.nanos);
}

/// Which events raise a concern, and what of them it keeps: the number of the event, the
/// code of a warning, and in front the words that the event itself has.
pub proof fn concerns_keep_the_words(e: EventView)
    ensures
        analyze::concern(e) is Some <==> e.kind is Error || e.kind is PairingFailed || e.kind
            is Warning,
        analyze::concern(e) matches Some(a) ==> a.seq == e.seq,
        match e.kind {
            KindView::Error { detail } => {
                let a = analyze::concern(e)->0;
                a.code == "error"@ && detail.is_prefix_of(a.detail) && text::has_text(
                    a.detail,
                    e.origin.peer.words(),
                ) && text::has_text(a.detail, e.origin.local.words())
            },
            KindView::PairingFailed { reason } => {
                let a = analyze::concern(e)->0;
                a.code == "pairing-failed"@ && reason.is_prefix_of(a.detail) && text::has_text(
                    a.detail,
                    e.origin.peer.words(),
                )
            },
            KindView::Warning { code, detail } => {
                let a = analyze::concern(e)->0;
                a.code == code && detail.is_prefix_of(a.detail) && text::has_text(
                    a.detail,
                    e.origin.peer.words(),
                )
            },
            _ => true,
        },
{
    let peer = e.origin.peer.words();
    let local = e.origin.local.words();
    match e.kind {
        KindView::Error { detail } => {
            let a = analyze::concern(e)->0.detail;
            text_in_the_middle(
                detail + " (peer "@,
                peer,
                ", controller "@ + local + ")"@,
            );
            assert(a =~= detail + " (peer "@ + peer + (", controller "@ + local + ")"@));
            text_in_the_middle(detail + " (peer "@ + peer + ", controller "@, local, ")"@);
            assert(detail =~= a.take(detail.len() as int));
        },
        KindView::PairingFailed { reason } => {
            let a = analyze::concern(e)->0.detail;
            text_in_the_middle(reason + " (peer "@, peer, ")"@);
            assert(reason =~= a.take(reason.len() as int));
        },
        KindView::Warning { code, detail } => {
            let a = analyze::concern(e)->0.detail;
            text_in_the_middle(detail + " (peer "@, peer, ")"@);
            assert(detail =~= a.take(detail.len() as int));
        },
        _ => {},
    }
}

/// A text between two others stands in the whole.
pub proof fn text_in_the_middle(a: Seq<char>, x: Seq<char>, b: Seq<char>)
    ensures
        text::has_text(a + x + b, x),
{
    let s = a + x + b;
    assert(s.subrange(a.len() as int, (a.len() + x.len()) as int) =~= x);
    assert(text::stands_at(s, x, a.len() as int));
}

/// A span below a second is shown in the largest unit that it fills, as the whole number of
/// it; from a second on in seconds.
pub proof fn spans_show_their_size(d: Duration, seconds: Seq<char>)
    ensures
        ({
            let shown = d.readable(seconds);
            let unit: int = if d.nanos >= 1_000_000 {
                1_000_000
            } else if d.nanos >= 1_000 {
                1_000
            } else {
                1
            };
            let words = if d.nanos >= 1_000_000 {
                "ms"@
            } else if d.nanos >= 1_000 {
                "µs"@
            } else {
                "ns"@
            };
            &&& d.nanos >= 1_000_000_000 ==> shown == seconds + "s"@
            &&& d.nanos < 1_000_000_000 ==> exists|n: nat|
                shown == #[trigger] text::decimal(n) + words && n * unit <= d.nanos < (n + 1) * unit
                    && n < 1000
        }),
{
    if d.nanos < 1_000_000_000 {
        let n: nat = if d.nanos >= 1_000_000 {
            (d.nanos / 1_000_000) as nat
        } else if d.nanos >= 1_000 {
            (d.nanos / 1_000) as nat
        } else {
            d.nanos as nat
        };
        assert(text::decimal(n).len() >= 1) by {
            text_laws::decimal_reads_back(n);
            text_laws::number_reads_back(n, 10, false);
        }
    }
}

/// The time since an earlier point, put on top of it, is the later point; there is none since
/// a point that is not earlier.
pub proof fn time_since_adds_up(later: Timestamp, earlier: Timestamp, d: Duration)
    requires
        call_ensures(Timestamp::saturating_since, (later, earlier), d),
    ensures
        earlier.nanos <= later.nanos ==> earlier.nanos + d.nanos == later.nanos,
        earlier.nanos > later.nanos ==> d.nanos == 0,
{
}

/// The text of the Bluetooth base behind its first four bytes.
proof fn base_in_full()
    ensures
        "-"@ + text::hexes(seq![0u8, 0u8]) + "-"@ + text::hexes(seq![0x10u8, 0u8]) + "-"@
            + text::hexes(seq![0x80u8, 0u8]) + "-"@ + text::hexes(
            seq![0u8, 0x80u8, 0x5Fu8, 0x9Bu8, 0x34u8, 0xFBu8],
        ) == "-0000-1000-8000-00805f9b34fb"@,
{
    reveal_strlit("-");
    reveal_strlit("-0000-1000-8000-00805f9b34fb");
    hexes_of_two(0, 0);
    hexes_of_two(0x10, 0);
    hexes_of_two(0x80, 0);
    let p = seq![0u8, 0x80u8, 0x5Fu8, 0x9Bu8, 0x34u8, 0xFBu8];
    let h = text::hexes(p);
    hexes_at(p, 0);
    hexes_at(p, 1);
    hexes_at(p, 2);
    hexes_at(p, 3);
    hexes_at(p, 4);
    hexes_at(p, 5);
    assert(h =~= h.subrange(0, 2) + h.subrange(2, 4) + h.subrange(4, 6) + h.subrange(6, 8)
        + h.subrange(8, 10) + h.subrange(10, 12));
    assert(h =~= seq!['0', '0', '8', '0', '5', 'f', '9', 'b', '3', '4', 'f', 'b']);
    assert("-"@ + text::hexes(seq![0u8, 0u8]) + "-"@ + text::hexes(seq![0x10u8, 0u8]) + "-"@
        + text::hexes(seq![0x80u8, 0u8]) + "-"@ + h =~= "-0000-1000-8000-00805f9b34fb"@);
}

proof fn hexes_of_four(a: u8, b: u8, c: u8, d: u8)
    ensures
        text::hexes(seq![a, b, c, d]) == text::byte_lower(a) + text::byte_lower(b)
            + text::byte_lower(c) + text::byte_lower(d),
{
    let p = seq![a, b, c, d];
    let h = text::hexes(p);
    hexes_at(p, 0);
    hexes_at(p, 1);
    hexes_at(p, 2);
    hexes_at(p, 3);
    assert(h =~= h.subrange(0, 2) + h.subrange(2, 4) + h.subrange(4, 6) + h.subrange(6, 8));
}

/// A short form's full text is its digits in front of the Bluetooth base.
pub proof fn short_form_in_full(v: u16)
    ensures
        uuid::hyphenated(uuid::expanded(v as nat)) == "0000"@ + text::byte_lower((v / 256) as u8)
            + text::byte_lower((v % 256) as u8) + "-0000-1000-8000-00805f9b34fb"@,
{
    let b = uuid::expanded(v as nat);
    let high = (v / 256) as u8;
    let low = (v % 256) as u8;
    let head = "0000"@ + text::byte_lower(high) + text::byte_lower(low);
    assert(b.subrange(0, 4) =~= seq![0u8, 0u8, high, low]);
    assert(b.subrange(4, 6) =~= seq![0u8, 0u8]);
    assert(b.subrange(6, 8) =~= seq![0x10u8, 0u8]);
    assert(b.subrange(8, 10) =~= seq![0x80u8, 0u8]);
    assert(b.subrange(10, 16) =~= seq![0u8, 0x80u8, 0x5Fu8, 0x9Bu8, 0x34u8, 0xFBu8]);
    assert(text::hexes(b.subrange(0, 4)) == head) by {
        hexes_of_four(0, 0, high, low);
        reveal_strlit("0000");
        assert(text::byte_lower(0) + text::byte_lower(0) =~= "0000"@);
    }
    base_in_full();
    assert(uuid::hyphenated(b) =~= head + ("-"@ + text::hexes(seq![0u8, 0u8]) + "-"@
        + text::hexes(seq![0x10u8, 0u8]) + "-"@ + text::hexes(seq![0x80u8, 0u8]) + "-"@
        + text::hexes(seq![0u8, 0x80u8, 0x5Fu8, 0x9Bu8, 0x34u8, 0xFBu8])));
}

proof fn hexes_at(b: Seq<u8>, i: int)
    requires
        0 <= i < b.len(),
    ensures
        text::hexes(b).subrange(2 * i, 2 * i + 2) == text::byte_lower(b[i]),
        text::hexes(b).len() == 2 * b.len(),
{
    text::hexes_read_back(b);
}

proof fn hexes_of_two(a: u8, b: u8)
    ensures
        text::hexes(seq![a, b]) == text::byte_lower(a) + text::byte_lower(b),
{
    let p = seq![a, b];
    let h = text::hexes(p);
    hexes_at(p, 0);
    hexes_at(p, 1);
    assert(h =~= h.subrange(0, 2) + h.subrange(2, 4));
}

/// Different short forms are different UUIDs.
pub proof fn short_forms_differ(a: u16, b: u16)
    ensures
        uuid::expanded(a as nat) == uuid::expanded(b as nat) <==> a == b,
{
    if uuid::expanded(a as nat) == uuid::expanded(b as nat) {
        let x = uuid::expanded(a as nat);
        let y = uuid::expanded(b as nat);
        assert(x[2] == y[2] && x[3] == y[3]);
        assert(x[2] == a / 256 && x[3] == a % 256);
        assert(y[2] == b / 256 && y[3] == b % 256);
    }
}

/// The rows of a listing, one behind the other; none where nothing is known.
pub open spec fn listing_rows(d: DeviceView, platform: PeerPlatform) -> Seq<Seq<char>> {
    let none = Seq::<char>::empty();
    seq![
        match d.name {
            Some(n) => "  name:        "@ + n + "\n"@,
            None => none,
        },
        "  platform:    "@ + platform.words() + "\n"@,
        match d.rssi {
            Some(v) => "  rssi:        "@ + (text::signed(v as int) + " dBm"@) + "\n"@,
            None => none,
        },
        match d.tx_power {
            Some(v) => "  tx power:    "@ + (text::signed(v as int) + " dBm"@) + "\n"@,
            None => none,
        },
        match d.class {
            Some(c) => "  class:       "@ + ("0x"@ + text::hex_upper(c.0 as nat, 6) + " ("@
                + c.major_class().words() + ")"@) + "\n"@,
            None => none,
        },
        if d.paired {
            "  paired:      "@ + "yes"@ + "\n"@
        } else {
            none
        },
        if d.connected {
            "  connected:   "@ + "yes"@ + "\n"@
        } else {
            none
        },
    ]
}

proof fn labels_are_set_in()
    ensures
        "  name:        "@ == "  "@ + "name:        "@,
        "  platform:    "@ == "  "@ + "platform:    "@,
        "  rssi:        "@ == "  "@ + "rssi:        "@,
        "  tx power:    "@ == "  "@ + "tx power:    "@,
        "  class:       "@ == "  "@ + "class:       "@,
        "  paired:      "@ == "  "@ + "paired:      "@,
        "  connected:   "@ == "  "@ + "connected:   "@,
{
    reveal_strlit("  ");
    reveal_strlit("name:        ");
    reveal_strlit("  name:        ");
    reveal_strlit("platform:    ");
    reveal_strlit("  platform:    ");
    reveal_strlit("rssi:        ");
    reveal_strlit("  rssi:        ");
    reveal_strlit("tx power:    ");
    reveal_strlit("  tx power:    ");
    reveal_strlit("class:       ");
    reveal_strlit("  class:       ");
    reveal_strlit("paired:      ");
    reveal_strlit("  paired:      ");
    reveal_strlit("connected:   ");
    reveal_strlit("  connected:   ");
    assert("  name:        "@ =~= "  "@ + "name:        "@);
    assert("  platform:    "@ =~= "  "@ + "platform:    "@);
    assert("  rssi:        "@ =~= "  "@ + "rssi:        "@);
    assert("  tx power:    "@ =~= "  "@ + "tx power:    "@);
    assert("  class:       "@ =~= "  "@ + "class:       "@);
    assert("  paired:      "@ =~= "  "@ + "paired:      "@);
    assert("  connected:   "@ =~= "  "@ + "connected:   "@);
}

/// A listing is whose it is, a row for each thing that is known, in a fixed order, and the
/// rows for vendor data and services.
pub proof fn listing_is_its_rows(d: DeviceView, platform: PeerPlatform)
    ensures
        ({
            let r = listing_rows(d, platform);
            d.listing(platform) == "Device "@ + d.id.words() + "\n"@ + r[0] + r[1] + r[2] + r[3]
                + r[4] + r[5] + r[6] + device::vendor_rows(d.manufacturer_data)
                + device::service_rows(d.services)
        }),
{
    let none = Seq::<char>::empty();
    labels_are_set_in();
    let r = listing_rows(d, platform);
    let s0 = "Device "@ + d.id.words() + "\n"@;
    let s1 = s0 + r[0];
    let s2 = s1 + r[1];
    let s3 = s2 + r[2];
    let s4 = s3 + r[3];
    let s5 = s4 + r[4];
    let s6 = s5 + r[5];
    assert(s0 + none =~= s0);
    assert(s2 + none =~= s2);
    assert(s3 + none =~= s3);
    assert(s4 + none =~= s4);
    assert(s5 + none =~= s5);
    assert(s6 + none =~= s6);
}

/// Spans and points given in one unit and taken in another agree.
pub proof fn units_agree(
    secs: u64,
    millis: u64,
    a: Duration,
    b: Duration,
    t: Timestamp,
    back: u128,
)
    requires
        call_ensures(Duration::from_secs, (secs,), a),
        call_ensures(Duration::from_millis, (millis,), b),
        call_ensures(Timestamp::from_millis, (millis,), t),
        call_ensures(Duration::as_millis, (b,), back),
    ensures
        millis == 1000 * secs ==> a.nanos == b.nanos,
        t.nanos == b.nanos,
        back == millis,
        b.nanos == 1_000_000 * millis,
{
}

/// A device scripted in the simplest way takes every file whole and bonds with everyone who
/// does not refuse; nothing but its identity and name is known of it.
pub proof fn simple_device_takes_everything(id: DeviceId, name: Seq<char>, total: nat)
    ensures
        ({
            let d = MockDeviceView::simple(id, name);
            &&& d.info.id == id && d.info.name == Some(name)
            &&& !mock_model::cut_off(d, total)
            &&& d.pairing_failure is None && d.pairing_method is JustWorks
            &&& mock_model::chunk_of(d) == 1024
            &&& d.per_chunk_latency.nanos == 1_000_000
            &&& d.info.class is None && d.info.rssi is None && !d.info.paired && !d.info.connected
            &&& d.gatt.len() == 0 && d.notifications.len() == 0
        }),
{
}

/// The message of an error ends with what it is about: the words it was given, or the
/// identity.
pub proof fn messages_keep_the_detail(e: TransportErrorView)
    ensures
        match e {
            TransportErrorView::Unavailable(s) => ends_with(e.message(), s),
            TransportErrorView::DeviceNotFound(id) => ends_with(e.message(), id.words()),
            TransportErrorView::NotConnected(id) => ends_with(e.message(), id.words()),
            TransportErrorView::PairingRejected(s) => ends_with(e.message(), s),
            TransportErrorView::PairingFailed(s) => ends_with(e.message(), s),
            TransportErrorView::TransferFailed { transferred, reason } => ends_with(
                e.message(),
                text::decimal(transferred as nat) + " bytes: "@ + reason,
            ),
            TransportErrorView::LocalAddress(s) => ends_with(e.message(), s),
            TransportErrorView::Backend(s) => ends_with(e.message(), s),
            TransportErrorView::Timeout(s) => ends_with(e.message(), s),
            _ => true,
        },
{
    match e {
        TransportErrorView::Unavailable(s) => joined_ends("backend unavailable: "@, s),
        TransportErrorView::DeviceNotFound(id) => joined_ends("device not found: "@, id.words()),
        TransportErrorView::NotConnected(id) => joined_ends("not connected: "@, id.words()),
        TransportErrorView::PairingRejected(s) => joined_ends("pairing rejected: "@, s),
        TransportErrorView::PairingFailed(s) => joined_ends("pairing failed: "@, s),
        TransportErrorView::TransferFailed { transferred, reason } => {
            let tail = text::decimal(transferred as nat) + " bytes: "@ + reason;
            joined_ends("transfer failed after "@, tail);
            assert(e.message() =~= "transfer failed after "@ + tail);
        },
        TransportErrorView::LocalAddress(s) => joined_ends("cannot set the local address: "@, s),
        TransportErrorView::Backend(s) => joined_ends("backend error: "@, s),
        TransportErrorView::Timeout(s) => joined_ends("timed out: "@, s),
        _ => {},
    }
}

/// Whether a text ends with another.
pub open spec fn ends_with(s: Seq<char>, tail: Seq<char>) -> bool {
    tail.len() <= s.len() && s.skip(s.len() - tail.len()) == tail
}

proof fn joined_ends(a: Seq<char>, b: Seq<char>)
    ensures
        ends_with(a + b, b),
{
    assert((a + b).skip(a.len() as int) =~= b);
}

/// The numbers that the known vendors are assigned.
pub proof fn vendors_by_number(c: CompanyId)
    ensures
        c.known_name() == Some("Ericsson Technology Licensing"@) <==> c.0 == 0,
        c.known_name() == Some("Intel Corp."@) <==> c.0 == 2,
        c.known_name() == Some("Cambridge Silicon Radio"@) <==> c.0 == 10,
        c.known_name() == Some("Broadcom Corporation"@) <==> c.0 == 15,
        c.known_name() == Some("Qualcomm"@) <==> c.0 == 29,
        c.known_name() == Some("Apple, Inc."@) <==> c.0 == 76,
        c.known_name() == Some("Nordic Semiconductor ASA"@) <==> c.0 == 89,
        c.known_name() == Some("Realtek Semiconductor"@) <==> c.0 == 93,
        c.known_name() == Some("Cypress Semiconductor"@) <==> c.0 == 305,
{
    label_laws::vendors_have_their_own_words(c, CompanyId(0));
    label_laws::vendors_have_their_own_words(c, CompanyId(2));
    label_laws::vendors_have_their_own_words(c, CompanyId(10));
    label_laws::vendors_have_their_own_words(c, CompanyId(15));
    label_laws::vendors_have_their_own_words(c, CompanyId(29));
    label_laws::vendors_have_their_own_words(c, CompanyId(76));
    label_laws::vendors_have_their_own_words(c, CompanyId(89));
    label_laws::vendors_have_their_own_words(c, CompanyId(93));
    label_laws::vendors_have_their_own_words(c, CompanyId(305));
}

/// An address is its octets: it gives them back, its first three are the vendor's, it is
/// locally administered by the second lowest bit of the first, and nil where all are zero.
pub proof fn address_is_its_octets(
    octets: [u8; 6],
    a: BdAddr,
    back: [u8; 6],
    oui: [u8; 3],
    local: bool,
    nil: bool,
)
    requires
        call_ensures(BdAddr::new, (octets,), a),
        call_ensures(BdAddr::octets, (a,), back),
        call_ensures(BdAddr::oui, (a,), oui),
        call_ensures(BdAddr::is_locally_administered, (a,), local),
        call_ensures(BdAddr::is_nil, (a,), nil),
    ensures
        back@ == octets@,
        oui@[0] == octets@[0] && oui@[1] == octets@[1] && oui@[2] == octets@[2],
        local <==> octets@[0] % 4 >= 2,
        nil <==> forall|i: int| 0 <= i < 6 ==> octets@[i] == 0,
{
    assert(a@[0] == octets@[0]);
}

/// The label of a device is its name with its identity in brackets, or the identity alone.
pub proof fn device_label_ends_with_its_identity(d: DeviceView)
    ensures
        d.name is None ==> d.words() == d.id.words(),
        d.name matches Some(n) ==> n.is_prefix_of(d.words()) && ends_with(
            d.words(),
            " ["@ + d.id.words() + "]"@,
        ) && d.words().len() == n.len() + d.id.words().len() + 3,
{
    if let Some(n) = d.name {
        reveal_strlit(" [");
        reveal_strlit("]");
        let tail = " ["@ + d.id.words() + "]"@;
        assert(d.words() =~= n + tail);
        joined_ends(n, tail);
        assert(n =~= d.words().take(n.len() as int));
    }
}

/// A new class value keeps the 24 assigned bits and drops the others.
pub proof fn class_keeps_its_bits(raw: u32, c: ClassOfDevice)
    requires
        call_ensures(ClassOfDevice::new, (raw,), c),
    ensures
        raw < 0x100_0000 ==> c.0 == raw,
        c.0 < 0x100_0000,
        (raw - c.0) % 0x100_0000 == 0,
{
}

/// The layer at which each standard acts: one is the radio, two share the air with it, and
/// one guards the network.
pub proof fn standards_act_at_their_layer(s: Standard802, l: StandardsLayer)
    requires
        call_ensures(Standard802::layer, (s,), l),
    ensures
        l is Radio <==> s is Wpan80215_1,
        l is Coexistence <==> s is Wpan80215_4 || s is Wlan80211,
        l is NetworkAccess <==> s is PortAuth8021X,
        !(l is Mac),
{
}

/// A backend supports a radio exactly where it lists it.
pub proof fn listed_radios_are_supported(
    kind: BackendKind,
    caps: Capabilities,
    t: Transport,
    r: bool,
)
    requires
        call_ensures(adapter::capabilities_of, (kind,), caps),
        call_ensures(Capabilities::supports, (&caps, t), r),
    ensures
        t is Le ==> r,
        !(t is Le) ==> (r <==> kind is Mock || kind is BlueZ || kind is Android),
{
    adapter_laws::abilities_hang_together(kind);
}

/// The first four bytes of a short form's UUID are its number, most significant first.
pub proof fn short_form_leads(v: nat)
    requires
        v < 0x1_0000_0000,
    ensures
        obex_laws::number_read(uuid::expanded(v).take(4)) == v,
        uuid::expanded(v).len() == 16,
{
    assert(uuid::expanded(v).take(4) =~= obex::be32(v));
    obex_laws::length_reads_back(v);
}

/// Vendor data and services are listed one row each, in order.
pub proof fn one_more_row(
    v: Seq<(CompanyId, Seq<u8>)>,
    x: (CompanyId, Seq<u8>),
    services: Seq<Seq<char>>,
    service: Seq<char>,
)
    ensures
        device::vendor_rows(v.push(x)) == device::vendor_rows(v) + ("  vendor data: "@ + (
        x.0.words() + " (0x"@ + text::hex_upper(x.0.0 as nat, 4) + "): "@ + device::spaced(x.1))
            + "\n"@),
        device::service_rows(services.push(service)) == device::service_rows(services) + (
        "  service:     "@ + service + "\n"@),
{
    reveal_strlit("  ");
    reveal_strlit("vendor data: ");
    reveal_strlit("  vendor data: ");
    reveal_strlit("service:     ");
    reveal_strlit("  service:     ");
    assert("  vendor data: "@ =~= "  "@ + "vendor data: "@);
    assert("  service:     "@ =~= "  "@ + "service:     "@);
    assert(v.push(x).drop_last() =~= v);
    assert(services.push(service).drop_last() =~= services);
}

/// Bytes of vendor data are shown two digits each, in order, a blank between them.
pub proof fn spaced_bytes_stand(b: Seq<u8>, i: int)
    requires
        0 <= i < b.len(),
    ensures
        ({
            let s = device::spaced(b);
            &&& s.len() == 3 * b.len() - 1
            &&& s.subrange(3 * i, 3 * i + 2) == text::byte_upper(b[i])
            &&& i + 1 < b.len() ==> s[3 * i + 2] == ' '
        }),
    decreases b.len(),
{
    reveal_strlit(" ");
    let s = device::spaced(b);
    if b.len() == 1 {
        assert(s.subrange(0, 2) =~= text::byte_upper(b[0]));
    } else {
        let front = b.drop_last();
        let t = device::spaced(front);
        spaced_bytes_stand(front, front.len() - 1);
        if i < front.len() {
            spaced_bytes_stand(front, i);
            assert(s.subrange(3 * i, 3 * i + 2) =~= t.subrange(3 * i, 3 * i + 2));
            if i + 1 < front.len() {
                assert(s[3 * i + 2] == t[3 * i + 2]);
            }
        } else {
            assert(s.subrange(3 * i, 3 * i + 2) =~= text::byte_upper(b[i]));
        }
    }
}

} // verus!
