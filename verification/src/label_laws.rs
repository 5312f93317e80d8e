//! Texts tell things apart: two things have the same words exactly where they are the same,
//! so that events fall in one bucket of an axis exactly where they agree on it.
use vstd::prelude::*;
use crate::address;
use crate::address::BdAddr;
use crate::backend::BackendKind;
use crate::device::{DeviceId, MajorDeviceClass};
use crate::event::{Direction, EventView, KindView, PairingMethodHint};
use crate::hardware::{ChipsetFamily, CompanyId, ControllerView};
use crate::metrics::SplitBy;
use crate::mgmt;
use crate::peer::PeerPlatform;
use crate::standards::{PortAuthState, Standard802, StandardsLayer, StandardsProfile};
use crate::text;
use crate::text_laws;
use crate::version::{CoreVersion, SpecContext, Transport};

verus! {

/// Every radio has its own words.
pub proof fn radios_have_their_own_words(a: Transport, b: Transport)
    ensures
        a.words() == b.words() <==> a == b,
{
    reveal_strlit("BR/EDR");
    reveal_strlit("LE");
    reveal_strlit("dual-mode");
    if a.words() == b.words() {
        assert(a.words().len() == b.words().len());
    }
}

/// Every standard has its own designation.
pub proof fn standards_have_their_own_designation(a: Standard802, b: Standard802)
    ensures
        a.designation() == b.designation() <==> a == b,
{
    reveal_strlit("802.15.1");
    reveal_strlit("802.15.4");
    reveal_strlit("802.11");
    reveal_strlit("802.1X");
    if a.designation() == b.designation() {
        assert(a.designation().len() == b.designation().len());
        assert(a.designation()[5] == b.designation()[5]);
        assert(a.designation()[7] == b.designation()[7]);
    }
}

/// Every port state has its own words.
pub proof fn port_states_have_their_own_words(a: PortAuthState, b: PortAuthState)
    ensures
        a.words() == b.words() <==> a == b,
{
    reveal_strlit("n/a");
    reveal_strlit("unauthenticated");
    reveal_strlit("authenticating");
    reveal_strlit("authenticated");
    reveal_strlit("auth-failed");
    if a.words() == b.words() {
        assert(a.words().len() == b.words().len());
    }
}

/// Every layer has its own words.
pub proof fn layers_have_their_own_words(a: StandardsLayer, b: StandardsLayer)
    ensures
        a.words() == b.words() <==> a == b,
{
    reveal_strlit("radio/PHY");
    reveal_strlit("MAC");
    reveal_strlit("network access");
    reveal_strlit("coexistence");
    if a.words() == b.words() {
        assert(a.words().len() == b.words().len());
    }
}

/// Every chipset family has its own words.
pub proof fn families_have_their_own_words(a: ChipsetFamily, b: ChipsetFamily)
    ensures
        a.words() == b.words() <==> a == b,
{
    reveal_strlit("Apple combo");
    reveal_strlit("Broadcom");
    reveal_strlit("Intel");
    reveal_strlit("Qualcomm");
    reveal_strlit("Realtek");
    reveal_strlit("Nordic");
    reveal_strlit("CSR");
    reveal_strlit("virtual");
    reveal_strlit("unknown");
    if a.words() == b.words() {
        assert(a.words().len() == b.words().len());
        assert(a.words()[0] == b.words()[0]);
    }
}

/// Every platform has its own words.
pub proof fn platforms_have_their_own_words(a: PeerPlatform, b: PeerPlatform)
    ensures
        a.words() == b.words() <==> a == b,
{
    reveal_strlit("Android");
    reveal_strlit("iPhone/iOS");
    reveal_strlit("Mac");
    reveal_strlit("Windows");
    reveal_strlit("unknown");
    if a.words() == b.words() {
        assert(a.words().len() == b.words().len());
        assert(a.words()[0] == b.words()[0]);
    }
}

/// Every backend has its own name.
pub proof fn backends_have_their_own_names(a: BackendKind, b: BackendKind)
    ensures
        a.word() == b.word() <==> a == b,
{
    reveal_strlit("mock");
    reveal_strlit("bluez");
    reveal_strlit("btleplug");
    reveal_strlit("android");
    reveal_strlit("ios");
    if a.word() == b.word() {
        assert(a.word().len() == b.word().len());
    }
}

/// Every direction has its own word.
pub proof fn directions_have_their_own_words(a: Direction, b: Direction)
    ensures
        a.word() == b.word() <==> a == b,
{
    reveal_strlit("out");
    reveal_strlit("in");
    if a.word() == b.word() {
        assert(a.word().len() == b.word().len());
    }
}

/// Every association model has its own word.
pub proof fn methods_have_their_own_words(a: PairingMethodHint, b: PairingMethodHint)
    ensures
        a.word() == b.word() <==> a == b,
{
    reveal_strlit("just-works");
    reveal_strlit("pin-code");
    reveal_strlit("passkey-entry");
    reveal_strlit("passkey-display");
    reveal_strlit("numeric-comparison");
    reveal_strlit("oob");
    if a.word() == b.word() {
        assert(a.word().len() == b.word().len());
    }
}

/// Every major device class has its own words.
pub proof fn classes_have_their_own_words(a: MajorDeviceClass, b: MajorDeviceClass)
    ensures
        a.words() == b.words() <==> a == b,
{
    reveal_strlit("miscellaneous");
    reveal_strlit("computer");
    reveal_strlit("phone");
    reveal_strlit("network access point");
    reveal_strlit("audio/video");
    reveal_strlit("peripheral");
    reveal_strlit("imaging");
    reveal_strlit("wearable");
    reveal_strlit("toy");
    reveal_strlit("health");
    reveal_strlit("uncategorized");
    if a.words() == b.words() {
        assert(a.words().len() == b.words().len());
        assert(a.words()[0] == b.words()[0]);
    }
}

/// Whether two kinds of event are the same, whatever they carry.
pub open spec fn same_kind(a: KindView, b: KindView) -> bool {
    &&& (a is DiscoveryStarted <==> b is DiscoveryStarted)
    &&& (a is DeviceDiscovered <==> b is DeviceDiscovered)
    &&& (a is PairingStarted <==> b is PairingStarted)
    &&& (a is PairingCompleted <==> b is PairingCompleted)
    &&& (a is PairingFailed <==> b is PairingFailed)
    &&& (a is Connected <==> b is Connected)
    &&& (a is Disconnected <==> b is Disconnected)
    &&& (a is TransferStarted <==> b is TransferStarted)
    &&& (a is TransferProgress <==> b is TransferProgress)
    &&& (a is TransferCompleted <==> b is TransferCompleted)
    &&& (a is DataChunk <==> b is DataChunk)
    &&& (a is Warning <==> b is Warning)
    &&& (a is Error <==> b is Error)
}

/// Every kind of event has its own word, whatever it carries.
pub proof fn kinds_have_their_own_words(a: KindView, b: KindView)
    ensures
        a.word() == b.word() <==> same_kind(a, b),
{
    reveal_strlit("discovery-started");
    reveal_strlit("device-discovered");
    reveal_strlit("pairing-started");
    reveal_strlit("pairing-completed");
    reveal_strlit("pairing-failed");
    reveal_strlit("connected");
    reveal_strlit("disconnected");
    reveal_strlit("transfer-started");
    reveal_strlit("transfer-progress");
    reveal_strlit("transfer-completed");
    reveal_strlit("data-chunk");
    reveal_strlit("warning");
    reveal_strlit("error");
    if a.word() == b.word() {
        assert(a.word().len() == b.word().len());
        assert(a.word()[1] == b.word()[1]);
    }
}

/// The number behind the name of a version tells versions apart, whatever follows.
proof fn version_number_tells(a: CoreVersion, b: CoreVersion)
    ensures
        a.title().len() >= 13,
        a.title()[10] == b.title()[10] && a.title()[12] == b.title()[12] ==> a == b,
{
    reveal_strlit("Bluetooth 1.0b");
    reveal_strlit("Bluetooth 1.1");
    reveal_strlit("Bluetooth 1.2");
    reveal_strlit("Bluetooth 2.0 + EDR");
    reveal_strlit("Bluetooth 2.1 + EDR");
    reveal_strlit("Bluetooth 3.0 + HS");
    reveal_strlit("Bluetooth 4.0");
    reveal_strlit("Bluetooth 4.1");
    reveal_strlit("Bluetooth 4.2");
    reveal_strlit("Bluetooth 5.0");
    reveal_strlit("Bluetooth 5.1");
    reveal_strlit("Bluetooth 5.2");
    reveal_strlit("Bluetooth 5.3");
    reveal_strlit("Bluetooth 5.4");
    reveal_strlit("Bluetooth 6.0");
}

/// Every version has its own name.
pub proof fn versions_have_their_own_names(a: CoreVersion, b: CoreVersion)
    ensures
        a.title() == b.title() <==> a == b,
{
    version_number_tells(a, b);
}

/// Two contexts have the same words exactly where both their versions and their radios are
/// the same.
pub proof fn contexts_have_their_own_words(a: SpecContext, b: SpecContext)
    ensures
        a.words() == b.words() <==> a.version == b.version && a.transport == b.transport,
{
    if a.words() == b.words() {
        version_number_tells(a.version, b.version);
        version_number_tells(b.version, a.version);
        assert(a.words()[10] == a.version.title()[10]);
        assert(b.words()[10] == b.version.title()[10]);
        assert(a.words()[12] == a.version.title()[12]);
        assert(b.words()[12] == b.version.title()[12]);
        let n = (a.version.title() + " over "@).len() as int;
        assert(a.words().skip(n) =~= a.transport.words());
        assert(b.words().skip(n) =~= b.transport.words());
        radios_have_their_own_words(a.transport, b.transport);
    }
}

/// A vendor's words tell the vendor, whatever follows them.
proof fn vendor_tells(a: CompanyId, b: CompanyId, after_a: Seq<char>, after_b: Seq<char>)
    requires
        a.words() + after_a == b.words() + after_b,
    ensures
        a == b,
{
    reveal_strlit("Ericsson Technology Licensing");
    reveal_strlit("Intel Corp.");
    reveal_strlit("Cambridge Silicon Radio");
    reveal_strlit("Broadcom Corporation");
    reveal_strlit("Qualcomm");
    reveal_strlit("Apple, Inc.");
    reveal_strlit("Nordic Semiconductor ASA");
    reveal_strlit("Realtek Semiconductor");
    reveal_strlit("Cypress Semiconductor");
    reveal_strlit("0x");
    let s = a.words() + after_a;
    let t = b.words() + after_b;
    text_laws::four_digits_hold_sixteen_bits(a.0);
    text_laws::four_digits_hold_sixteen_bits(b.0);
    assert(a.words().len() >= 6 && b.words().len() >= 6);
    assert(s[0] == a.words()[0] && t[0] == b.words()[0]);
    assert(s[1] == a.words()[1] && t[1] == b.words()[1]);
    if a.known_name() is None && b.known_name() is None {
        assert(s.subrange(2, 6) =~= text::hex_upper(a.0 as nat, 4));
        assert(t.subrange(2, 6) =~= text::hex_upper(b.0 as nat, 4));
    }
}

/// Every vendor has its own words.
pub proof fn vendors_have_their_own_words(a: CompanyId, b: CompanyId)
    ensures
        a.words() == b.words() <==> a == b,
{
    let none = Seq::<char>::empty();
    if a.words() == b.words() {
        vendor_tells(a, b, none, none);
    }
}

/// The end of a family's words tells the family.
proof fn family_tells(a: ChipsetFamily, b: ChipsetFamily)
    ensures
        a.words().len() >= 3,
        a.words()[a.words().len() - 1] == b.words()[b.words().len() - 1] && a.words()[a.words().len()
            - 2] == b.words()[b.words().len() - 2] ==> a == b,
{
    reveal_strlit("Apple combo");
    reveal_strlit("Broadcom");
    reveal_strlit("Intel");
    reveal_strlit("Qualcomm");
    reveal_strlit("Realtek");
    reveal_strlit("Nordic");
    reveal_strlit("CSR");
    reveal_strlit("virtual");
    reveal_strlit("unknown");
}

/// What follows a vendor in a label tells the model and the family.
proof fn model_and_family_tell(a: ControllerView, b: ControllerView)
    requires
        " "@ + a.model + " ("@ + a.family.words() + ")"@ == " "@ + b.model + " ("@
            + b.family.words() + ")"@,
    ensures
        a.family == b.family,
        a.model == b.model,
{
    reveal_strlit(" ");
    reveal_strlit(" (");
    reveal_strlit(")");
    let fa = a.family.words();
    let fb = b.family.words();
    let s = " "@ + a.model + " ("@ + fa + ")"@;
    let t = " "@ + b.model + " ("@ + fb + ")"@;
    let n = s.len() as int;
    family_tells(a.family, b.family);
    family_tells(b.family, a.family);
    assert(s[n - 2] == fa[fa.len() - 1] && t[n - 2] == fb[fb.len() - 1]);
    assert(s[n - 3] == fa[fa.len() - 2] && t[n - 3] == fb[fb.len() - 2]);
    assert(a.family == b.family);
    assert(a.model.len() == b.model.len());
    assert forall|i: int| 0 <= i < a.model.len() implies a.model[i] == b.model[i] by {
        assert(s[i + 1] == a.model[i] && t[i + 1] == b.model[i]);
    }
    assert(a.model =~= b.model);
}

/// Two controllers have the same label exactly where vendor, family and model are the same.
pub proof fn controllers_have_their_own_labels(a: ControllerView, b: ControllerView)
    ensures
        a.words() == b.words() <==> a.manufacturer == b.manufacturer && a.family == b.family
            && a.model == b.model,
{
    if a.words() == b.words() {
        let behind_a = " "@ + a.model + " ("@ + a.family.words() + ")"@;
        let behind_b = " "@ + b.model + " ("@ + b.family.words() + ")"@;
        let va = a.manufacturer.words();
        let vb = b.manufacturer.words();
        assert(a.words() =~= va + behind_a);
        assert(b.words() =~= vb + behind_b);
        vendor_tells(a.manufacturer, b.manufacturer, behind_a, behind_b);
        assert((va + behind_a).skip(va.len() as int) =~= behind_a);
        assert((vb + behind_b).skip(vb.len() as int) =~= behind_b);
        model_and_family_tell(a, b);
    }
}

/// Two identities have the same words exactly where both address and type are the same.
pub proof fn identities_have_their_own_words(a: DeviceId, b: DeviceId)
    ensures
        a.words() == b.words() <==> a.addr == b.addr && a.addr_type == b.addr_type,
{
    if a.words() == b.words() {
        reveal_strlit(" (random)");
        canonical_takes_seventeen(a.addr);
        canonical_takes_seventeen(b.addr);
        assert(a.words().take(17) =~= address::canonical(a.addr@));
        assert(b.words().take(17) =~= address::canonical(b.addr@));
        address::canonical_text_parses(a.addr);
        address::canonical_text_parses(b.addr);
        let x = a.addr@;
        let y = b.addr@;
        assert(x[0] == y[0] && x[1] == y[1] && x[2] == y[2]);
        assert(x[3] == y[3] && x[4] == y[4] && x[5] == y[5]);
    }
}

proof fn canonical_takes_seventeen(a: BdAddr)
    ensures
        address::canonical(a@).len() == 17,
{
    reveal_with_fuel(address::written, 7);
}

/// Two events fall in one bucket of an axis exactly where they agree on what the axis is
/// about: the controller, the version and the radio, the radio alone, the radio standard,
/// the port state, the kind of event, or the peer.
pub proof fn buckets_follow_the_axis(a: EventView, b: EventView)
    ensures
        SplitBy::Controller.bucket(a) == SplitBy::Controller.bucket(b) <==> (a.origin.local.manufacturer
            == b.origin.local.manufacturer && a.origin.local.family == b.origin.local.family
            && a.origin.local.model == b.origin.local.model),
        SplitBy::Spec.bucket(a) == SplitBy::Spec.bucket(b) <==> (a.origin.spec.version
            == b.origin.spec.version && a.origin.spec.transport == b.origin.spec.transport),
        SplitBy::Transport.bucket(a) == SplitBy::Transport.bucket(b) <==> a.origin.spec.transport
            == b.origin.spec.transport,
        SplitBy::RadioStandard.bucket(a) == SplitBy::RadioStandard.bucket(b)
            <==> a.origin.standards.radio == b.origin.standards.radio,
        SplitBy::PortAuth.bucket(a) == SplitBy::PortAuth.bucket(b) <==> a.origin.standards.port_auth
            == b.origin.standards.port_auth,
        SplitBy::EventKind.bucket(a) == SplitBy::EventKind.bucket(b) <==> same_kind(a.kind, b.kind),
        SplitBy::Peer.bucket(a) == SplitBy::Peer.bucket(b) <==> (a.origin.peer.addr
            == b.origin.peer.addr && a.origin.peer.addr_type == b.origin.peer.addr_type),
{
    controllers_have_their_own_labels(a.origin.local, b.origin.local);
    contexts_have_their_own_words(a.origin.spec, b.origin.spec);
    radios_have_their_own_words(a.origin.spec.transport, b.origin.spec.transport);
    standards_have_their_own_designation(a.origin.standards.radio, b.origin.standards.radio);
    port_states_have_their_own_words(
        a.origin.standards.port_auth,
        b.origin.standards.port_auth,
    );
    kinds_have_their_own_words(a.kind, b.kind);
    identities_have_their_own_words(a.origin.peer, b.origin.peer);
}

/// Every axis has its own heading.
pub proof fn axes_have_their_own_headings(a: SplitBy, b: SplitBy)
    ensures
        a.heading() == b.heading() <==> a == b,
{
    reveal_strlit("Controller hardware");
    reveal_strlit("Bluetooth specification");
    reveal_strlit("Transport");
    reveal_strlit("IEEE 802.15.x radio standard");
    reveal_strlit("IEEE 802.1X port-auth state");
    reveal_strlit("Event kind");
    reveal_strlit("Peer device");
    if a.heading() == b.heading() {
        assert(a.heading().len() == b.heading().len());
    }
}

/// Every assigned management status has its own words; all others share theirs.
pub proof fn statuses_have_their_own_words(a: u8, b: u8)
    ensures
        mgmt::status_words(a) == mgmt::status_words(b) <==> a == b || (a > 0x14 && b > 0x14),
{
    reveal_strlit("success");
    reveal_strlit("unknown command");
    reveal_strlit("not connected");
    reveal_strlit("failed");
    reveal_strlit("connect failed");
    reveal_strlit("authentication failed");
    reveal_strlit("not paired");
    reveal_strlit("no resources");
    reveal_strlit("timeout");
    reveal_strlit("already connected");
    reveal_strlit("busy");
    reveal_strlit("rejected (is the adapter still powered on?)");
    reveal_strlit("not supported (controller cannot change its address)");
    reveal_strlit("invalid parameters");
    reveal_strlit("disconnected");
    reveal_strlit("not powered");
    reveal_strlit("cancelled");
    reveal_strlit("invalid index (no such controller)");
    reveal_strlit("rf-killed");
    reveal_strlit("already paired");
    reveal_strlit("permission denied (need CAP_NET_ADMIN)");
    reveal_strlit("unknown status");
    if mgmt::status_words(a) == mgmt::status_words(b) {
        assert(mgmt::status_words(a).len() == mgmt::status_words(b).len());
        assert(mgmt::status_words(a)[0] == mgmt::status_words(b)[0]);
    }
}

/// Every standard has its own title.
pub proof fn standards_have_their_own_titles(a: Standard802, b: Standard802)
    ensures
        a.heading() == b.heading() <==> a == b,
{
    reveal_strlit("WPAN (Bluetooth lineage)");
    reveal_strlit("Low-Rate WPAN");
    reveal_strlit("Wireless LAN");
    reveal_strlit("Port-Based Network Access Control");
    if a.heading() == b.heading() {
        assert(a.heading().len() == b.heading().len());
    }
}

/// Two profiles have the same words exactly where radio and port state are the same.
pub proof fn profiles_have_their_own_words(a: StandardsProfile, b: StandardsProfile)
    ensures
        a.words() == b.words() <==> a.radio == b.radio && a.port_auth == b.port_auth,
{
    if a.words() == b.words() {
        reveal_strlit("802.15.1");
        reveal_strlit("802.15.4");
        reveal_strlit("802.11");
        reveal_strlit("802.1X");
        reveal_strlit(" / 802.1X:");
        let x = a.radio.designation();
        let y = b.radio.designation();
        let s = a.words();
        let t = b.words();
        assert(s[5] == x[5] && t[5] == y[5]);
        assert(x.len() == 8 || x.len() == 6);
        assert(y.len() == 8 || y.len() == 6);
        assert(s[7] == if x.len() == 8 {
            x[7]
        } else {
            '/'
        });
        assert(t[7] == if y.len() == 8 {
            y[7]
        } else {
            '/'
        });
        assert(a.radio == b.radio);
        let n = (x + " / 802.1X:"@).len() as int;
        assert(s.skip(n) =~= a.port_auth.words());
        assert(t.skip(n) =~= b.port_auth.words());
        port_states_have_their_own_words(a.port_auth, b.port_auth);
    }
}

} // verus!
