//! What the decisions around a real adapter come to: the frames on the management socket,
//! the states of ports, prompts and pushes, in terms of what goes in and comes out.
use vstd::prelude::*;
use crate::adapter;
use crate::adapter::{Advertisement, BondedView, StackEntry};
use crate::address;
use crate::agents::{AcceptAllAgent, FixedPinAgent, RejectAllAgent};
use crate::backend::{BackendKind, InboundPairing};
use crate::bridge;
use crate::bridge::{BridgeLog, LogView, Prompt, ReplyView};
use crate::device::{DeviceId, DeviceInfo};
use crate::event::{
    Direction, KindView, PairingMethodHint, TransitEvent, TransitEventKind,
};
use crate::hardware::{ChipsetFamily, CompanyId, ControllerModel};
use crate::live;
use crate::live::{PushReport, Reporter};
use crate::mgmt;
use crate::mgmt::{
    CommandStep, CommandWait, ControllerInfo, InfoStep, InfoWait, SetAddressError,
    SetAddressErrorView, SpoofProgress,
};
use crate::obexd::{PushStateView, PushWatch};
use crate::pairing::{PairingOutcome, PairingRequest, ResponseView};
use crate::parsing_laws;
use crate::port_auth;
use crate::port_auth::{NetworkDeviceView, PortCache};
use crate::progress;
use crate::progress::{ProgressView, UpdateView};
use crate::standards::{PortAuthState, StandardsProfile};
use crate::text;
use crate::text_laws;
use crate::time::{Duration, Timestamp};
use crate::transfer::TransferReceipt;
use crate::transport_error::{TransportError, TransportErrorView};
use crate::uuid::Uuid;
use crate::version::{CoreVersion, SpecContext, Transport};
use crate::wpa;
use crate::wpa::SupplicantView;

verus! {

/// The command that asks about a controller has the opcode 4, the controller's index least
/// significant byte first, and no parameters.
pub proof fn info_request_on_the_wire(index: u16, r: Vec<u8>)
    requires
        call_ensures(mgmt::read_info_command, (index,), r),
    ensures
        r@.len() == 6,
        r@[0] == 4 && r@[1] == 0,
        r@[2] + 256 * r@[3] == index,
        r@[4] == 0 && r@[5] == 0,
{
}

/// The command that powers a controller has the opcode 5 and one byte that says on or off.
pub proof fn power_request_on_the_wire(index: u16, on: bool, r: Vec<u8>)
    requires
        call_ensures(mgmt::set_powered_command, (index, on), r),
    ensures
        r@.len() == 7,
        r@[0] == 5 && r@[1] == 0,
        r@[2] + 256 * r@[3] == index,
        r@[4] == 1 && r@[5] == 0,
        on ==> r@[6] == 1,
        !on ==> r@[6] == 0,
{
}

/// The command that stages an address has the opcode 57 and the octets from the last to the
/// first.
pub proof fn address_request_on_the_wire(index: u16, addr: [u8; 6], r: Vec<u8>)
    requires
        call_ensures(mgmt::set_public_address_command, (index, addr), r),
    ensures
        r@.len() == 12,
        r@[0] == 0x39 && r@[1] == 0,
        r@[2] + 256 * r@[3] == index,
        r@[4] == 6 && r@[5] == 0,
        forall|i: int| 0 <= i < 6 ==> #[trigger] r@[6 + i] == addr@[5 - i],
{
    assert forall|i: int| 0 <= i < 6 implies #[trigger] r@[6 + i] == addr@[5 - i] by {
        assert(r@[6 + i] == addr@.reverse()[i]);
    }
}

/// A change of address switches the controller off, stages the address and switches it on,
/// in this order, all on the one controller.
pub proof fn address_change_in_order(index: u16, addr: [u8; 6], r: Vec<(u16, Vec<u8>)>)
    requires
        call_ensures(mgmt::spoof_commands, (index, addr), r),
    ensures
        r@.len() == 3,
        r@[0].1@[0] == 5 && r@[0].1@[6] == 0,
        r@[1].1@[0] == 0x39 && r@[1].1@[6] == addr@[5] && r@[1].1@[11] == addr@[0],
        r@[2].1@[0] == 5 && r@[2].1@[6] == 1,
        forall|k: int| 0 <= k < 3 ==> (#[trigger] r@[k]).1@[2] + 256 * r@[k].1@[3] == index,
        forall|k: int| 0 <= k < 3 ==> (#[trigger] r@[k]).1@[0] == r@[k].0,
{
    assert(r@[1].1@[6] == addr@.reverse()[0]);
    assert(r@[1].1@[11] == addr@.reverse()[5]);
}

/// The parameters that complete a request for information: the opcode, success, the address,
/// the version and the manufacturer, and whatever follows.
pub open spec fn info_reply(
    index: u16,
    addr: Seq<u8>,
    version: u8,
    manufacturer: u16,
    rest: Seq<u8>,
) -> Seq<u8> {
    mgmt::frame(
        1,
        index,
        seq![4u8, 0u8, 0u8] + addr + seq![
            version,
            (manufacturer % 256) as u8,
            (manufacturer / 256) as u8,
        ] + rest,
    )
}

/// A controller's version and manufacturer read back from its answer, whatever its address
/// and whatever follows.
pub proof fn controller_information_reads_back(
    index: u16,
    addr: Seq<u8>,
    version: u8,
    manufacturer: u16,
    rest: Seq<u8>,
)
    requires
        addr.len() == 6,
        12 + rest.len() <= 0xFFFF,
    ensures
        mgmt::info_answer(info_reply(index, addr, version, manufacturer, rest)) == Some(
            Some(ControllerInfo { manufacturer, hci_version: version }),
        ),
{
    let p = seq![4u8, 0u8, 0u8] + addr + seq![
        version,
        (manufacturer % 256) as u8,
        (manufacturer / 256) as u8,
    ] + rest;
    let f = mgmt::frame(1, index, p);
    mgmt::frame_reads_back(1, index, p);
    assert(f.subrange(6, (6 + p.len()) as int) =~= p);
    assert(p[9] == version);
    assert(p[10] == (manufacturer % 256) as u8);
    assert(p[11] == (manufacturer / 256) as u8);
}

/// A reply that is no completion, or completes another command, is no answer to a request
/// for information; one that completes it without success, or tells too little, is the
/// answer that there is none.
pub proof fn other_replies_do_not_inform(code: u16, index: u16, params: Seq<u8>)
    requires
        params.len() <= 0xFFFF,
    ensures
        code != 1 ==> mgmt::info_answer(mgmt::frame(code, index, params)) is None,
        params.len() < 3 ==> mgmt::info_answer(mgmt::frame(code, index, params)) is None,
        params.len() >= 3 && params[0] + 256 * params[1] != 4 ==> mgmt::info_answer(
            mgmt::frame(code, index, params),
        ) is None,
        code == 1 && params.len() >= 3 && params[0] + 256 * params[1] == 4 && (params[2] != 0
            || params.len() < 12) ==> mgmt::info_answer(mgmt::frame(code, index, params)) == Some(
            None::<ControllerInfo>,
        ),
{
    let f = mgmt::frame(code, index, params);
    mgmt::frame_reads_back(code, index, params);
    assert(f.subrange(6, (6 + params.len()) as int) =~= params);
}

/// A command is answered by a completion or a status of its own opcode, and by nothing else;
/// zero is success, and any other number is the refusal with that number.
pub proof fn command_is_answered_by_its_own(
    opcode: u16,
    code: u16,
    index: u16,
    params: Seq<u8>,
)
    requires
        params.len() <= 0xFFFF,
    ensures
        ({
            let answer = mgmt::command_answer(opcode, mgmt::frame(code, index, params));
            let own = (code == 1 || code == 2) && params.len() >= 3 && params[0] + 256 * params[1]
                == opcode;
            &&& !own ==> answer is None
            &&& own && params[2] == 0 ==> answer == Some(Ok::<(), SetAddressErrorView>(()))
            &&& own && params[2] != 0 ==> answer == Some(
                Err::<(), SetAddressErrorView>(SetAddressErrorView::Command(params[2])),
            )
        }),
{
    let f = mgmt::frame(code, index, params);
    mgmt::frame_reads_back(code, index, params);
    assert(f.subrange(6, (6 + params.len()) as int) =~= params);
}

/// A reply too short for a header ends both waits: without information, and with a failure
/// of the socket.
pub proof fn short_reply_ends_the_wait(opcode: u16, reply: Seq<u8>)
    requires
        reply.len() < 6,
    ensures
        mgmt::info_answer(reply) == Some(None::<ControllerInfo>),
        mgmt::command_answer(opcode, reply) is Some,
        mgmt::command_answer(opcode, reply)->0 is Err,
        mgmt::command_answer(opcode, reply)->0->Err_0 is Io,
{
}

/// A wait reads up to sixteen replies.
pub proof fn waits_read_sixteen(opcode: u16, info: InfoWait, command: CommandWait)
    requires
        call_ensures(InfoWait::new, (), info),
        call_ensures(CommandWait::new, (opcode,), command),
    ensures
        info.left == 16,
        command.left == 16 && command.opcode == opcode,
{
}

/// What NetworkManager's state number says of a port: only the three numbers for waiting,
/// up and failed say anything but that it is not authenticated.
pub proof fn network_state_by_number(n: u32)
    ensures
        port_auth::state_of(n) is Authenticating <==> n == 60,
        port_auth::state_of(n) is Authenticated <==> n == 100,
        port_auth::state_of(n) is Failed <==> n == 120,
        port_auth::state_of(n) is Unauthenticated <==> n != 60 && n != 100 && n != 120,
{
}

/// One more device in a listing decides the port of its own address, where it is a Bluetooth
/// device with a readable one, and no other port.
pub proof fn later_entry_decides_its_port(
    v: Seq<NetworkDeviceView>,
    d: NetworkDeviceView,
    a: Seq<u8>,
)
    ensures
        ({
            let before = port_auth::ports(v);
            let after = port_auth::ports(v.push(d));
            let own = d.device_type == 5 && d.hw_address is Some && address::parsed(
                d.hw_address->0,
            ) == Some(a);
            &&& own ==> after.contains_key(a) && after[a] == port_auth::state_of(d.state)
            &&& !own ==> after.contains_key(a) == before.contains_key(a)
            &&& !own && before.contains_key(a) ==> after[a] == before[a]
            &&& port_auth::ports(Seq::empty()) == Map::<Seq<u8>, PortAuthState>::empty()
        }),
{
    assert(v.push(d).drop_last() =~= v);
}

/// What wpa_supplicant's state says of a port.
pub proof fn supplicant_state_by_word(s: Seq<char>)
    ensures
        wpa::state_of(s) is Authenticated <==> s == "completed"@,
        wpa::state_of(s) is Authenticating <==> s == "authenticating"@ || s == "associating"@ || s
            == "associated"@ || s == "4way_handshake"@ || s == "group_handshake"@,
        wpa::state_of(s) is Authenticated || wpa::state_of(s) is Authenticating || wpa::state_of(
            s,
        ) is Unauthenticated,
{
    reveal_strlit("completed");
    reveal_strlit("authenticating");
    reveal_strlit("associating");
    reveal_strlit("associated");
    reveal_strlit("4way_handshake");
    reveal_strlit("group_handshake");
    assert("completed"@.len() == 9 && "authenticating"@.len() == 14 && "associating"@.len() == 11);
    assert("associated"@.len() == 10 && "4way_handshake"@.len() == 14);
    assert("group_handshake"@.len() == 15);
}

/// The order in which port states count: authenticated before on the way, before failed,
/// before not authenticated, before not applicable.
pub proof fn port_states_rank(a: PortAuthState, b: PortAuthState)
    ensures
        a is Authenticated && !(b is Authenticated) ==> wpa::height(a) > wpa::height(b),
        a is Authenticating && !(b is Authenticated || b is Authenticating) ==> wpa::height(a)
            > wpa::height(b),
        a is Failed && (b is Unauthenticated || b is NotApplicable) ==> wpa::height(a)
            > wpa::height(b),
        a is Unauthenticated && b is NotApplicable ==> wpa::height(a) > wpa::height(b),
        wpa::height(a) == wpa::height(b) <==> a == b,
{
}

/// One completed interface that counts makes the port authenticated, whatever the others
/// say; where no interface counts the port is not applicable.
pub proof fn one_completed_interface_is_enough(
    v: Seq<SupplicantView>,
    wanted: Option<Seq<char>>,
    i: int,
)
    requires
        0 <= i < v.len(),
        wanted is None || wanted->0 == v[i].ifname,
        v[i].state == Some("completed"@),
    ensures
        wpa::farthest(v, wanted) is Authenticated,
{
    wpa::most_authenticated_wins(v, wanted);
    assert(wpa::share(v[i], wanted) is Authenticated);
}

/// Interfaces of another name than the wanted one do not count.
pub proof fn other_interfaces_do_not_count(v: Seq<SupplicantView>, wanted: Seq<char>)
    requires
        forall|i: int| 0 <= i < v.len() ==> (#[trigger] v[i]).ifname != wanted,
    ensures
        wpa::farthest(v, Some(wanted)) is NotApplicable,
    decreases v.len(),
{
    if v.len() > 0 {
        assert(v[v.len() - 1].ifname != wanted);
        other_interfaces_do_not_count(v.drop_last(), wanted);
    }
}

/// A prompt is granted exactly by the answer that fits it: a yes to a comparison or an
/// authorization, a PIN to a request for one, a passkey to a request for one. Giving up is
/// passed on as that, and everything else is a refusal.
pub proof fn only_a_fitting_answer_grants(prompt: Prompt, response: ResponseView)
    ensures
        match (prompt, response) {
            (_, ResponseView::Cancel) => bridge::replied(prompt, response) is Canceled,
            (Prompt::Confirmation { .. }, ResponseView::Confirm(true)) => bridge::replied(
                prompt,
                response,
            ) is Go,
            (Prompt::Authorization, ResponseView::Confirm(true)) => bridge::replied(
                prompt,
                response,
            ) is Go,
            (Prompt::PinCode, ResponseView::Pin(pin)) => bridge::replied(prompt, response)
                == ReplyView::Pin(pin),
            (Prompt::Passkey, ResponseView::Passkey(p)) => bridge::replied(prompt, response)
                == ReplyView::Passkey(p),
            _ => bridge::replied(prompt, response) is Rejected,
        },
{
}

/// What an agent is asked for a prompt: the number of a comparison is the one to compare.
pub proof fn prompt_asks_its_question(prompt: Prompt)
    ensures
        match prompt {
            Prompt::Confirmation { passkey } => prompt.question() == (
            PairingRequest::ConfirmPasskey { passkey }) && prompt.question().model()
                == PairingMethodHint::NumericComparison,
            Prompt::PinCode => prompt.question().model() == PairingMethodHint::PinCode,
            Prompt::Passkey => prompt.question().model() == PairingMethodHint::PasskeyEntry,
            Prompt::Authorization => prompt.question().model() == PairingMethodHint::JustWorks,
        },
{
}

/// The stock agents on every prompt of a stack: the accepting one is granted all of them,
/// the refusing one none, and the one with a PIN all but a passkey.
pub proof fn stock_agents_on_prompts(
    accept: AcceptAllAgent,
    reject: RejectAllAgent,
    fixed: FixedPinAgent,
    prompt: Prompt,
)
    ensures
        ({
            let q = prompt.question();
            let yes = bridge::replied(prompt, accept.answer(q));
            let no = bridge::replied(prompt, reject.answer(q));
            let pin = bridge::replied(prompt, fixed.answer(q));
            &&& yes is Go || yes is Pin || yes is Passkey
            &&& no is Canceled || no is Rejected
            &&& prompt is PinCode ==> yes == ReplyView::Pin(accept.pin@) && pin == ReplyView::Pin(
                fixed.pin@,
            )
            &&& prompt is Passkey ==> yes == ReplyView::Passkey(accept.passkey) && pin is Canceled
            &&& prompt is Confirmation || prompt is Authorization ==> yes is Go && pin is Go
        }),
{
}

/// The log of a bridge keeps each device once, in the order of first grants, and the model
/// of the last prompt; a prompt that was not granted adds no device.
pub proof fn log_keeps_each_grant_once(
    log: LogView,
    device: DeviceId,
    prompt: Prompt,
    reply: ReplyView,
)
    requires
        log.bonded.no_duplicates(),
    ensures
        ({
            let after = log.answered(device, prompt, reply);
            &&& after.bonded.no_duplicates()
            &&& reply is Canceled || reply is Rejected ==> after.bonded == log.bonded
            &&& reply is Go || reply is Pin || reply is Passkey ==> after.bonded.contains(device)
            &&& log.bonded.is_prefix_of(after.bonded)
            &&& after.bonded.len() <= log.bonded.len() + 1
            &&& log.bonded.contains(device) ==> after.bonded == log.bonded
            &&& after.method == Some(prompt.question().model())
        }),
{
    let after = log.answered(device, prompt, reply);
    if after.bonded != log.bonded {
        assert(after.bonded[log.bonded.len() as int] == device);
    }
    assert(log.bonded =~= after.bonded.take(log.bonded.len() as int));
}

/// A push that `obexd` reports complete has moved the larger of the announced and the last
/// heard total; one in error failed behind what was last heard; in any other state it goes
/// on until five minutes are over.
pub proof fn push_stands_by_its_status(
    watch: PushWatch,
    status: Option<Seq<char>>,
    elapsed: Duration,
)
    ensures
        ({
            let now = watch.standing_at(status, elapsed);
            &&& status == Some("complete"@) ==> (now matches PushStateView::Complete(bytes) && bytes
                >= watch.total && bytes >= watch.transferred && (bytes == watch.total || bytes
                == watch.transferred))
            &&& status == Some("error"@) ==> (now matches PushStateView::Failed(
                TransportErrorView::TransferFailed { transferred, .. },
            ) && transferred == watch.transferred)
            &&& status != Some("complete"@) && status != Some("error"@) && elapsed.nanos
                < 300_000_000_000 ==> now is Going
            &&& status != Some("complete"@) && status != Some("error"@) && elapsed.nanos
                >= 300_000_000_000 ==> (now matches PushStateView::Failed(e) && e is Timeout)
        }),
{
    reveal_strlit("complete");
    reveal_strlit("error");
    assert("complete"@.len() == 8 && "error"@.len() == 5);
}

/// A change of a push's properties moves the running total and never the announced size,
/// and tells the new total first.
pub proof fn change_moves_the_total(
    watch: PushWatch,
    transferred: Option<u64>,
    status: Option<Seq<char>>,
)
    ensures
        watch.changed(transferred).total == watch.total,
        transferred matches Some(n) ==> watch.changed(transferred).transferred == n
            && watch.totals_told(transferred, status).len() >= 1 && watch.totals_told(
            transferred,
            status,
        )[0] == n,
        transferred is None ==> watch.changed(transferred) == watch,
        status != Some("complete"@) ==> watch.totals_told(transferred, status).len() == if transferred
            is Some {
            1nat
        } else {
            0
        },
{
}

/// A running total tells a block exactly where it has grown, outbound and of the growth, and
/// counts it; behind a block it always tells how far the transfer has come.
pub proof fn growth_is_a_block(p: PushReport, transferred: u64, always: bool)
    requires
        p.chunks < u64::MAX,
    ensures
        ({
            let told = p.told(transferred, always);
            let after = p.heard(transferred);
            &&& after.last == transferred && after.total == p.total
            &&& transferred > p.last ==> after.chunks == p.chunks + 1 && told.len() == 2
                && told[0] == (KindView::DataChunk {
                direction: Direction::Outbound,
                bytes: (transferred - p.last) as u64,
            }) && told[1] == (KindView::TransferProgress { transferred, total: p.total })
            &&& transferred <= p.last ==> after.chunks == p.chunks && told.len() == if always {
                1nat
            } else {
                0
            }
            &&& transferred <= p.last && always ==> told[0] == (KindView::TransferProgress {
                transferred,
                total: p.total,
            })
        }),
{
}

/// Updates follow one transfer: from its start on they name its object, until another
/// starts; progress tells how far of how much, and the end tells all of it, done.
pub proof fn updates_follow_the_transfer(
    p: ProgressView,
    name: Seq<char>,
    total_bytes: u64,
    transferred: u64,
    total: u64,
    bytes: u64,
    duration: Duration,
)
    ensures
        ({
            let started = progress::remembered(
                p,
                KindView::TransferStarted { name, total_bytes },
            );
            let moving = KindView::TransferProgress { transferred, total };
            let ended = KindView::TransferCompleted { bytes, duration };
            &&& progress::update_of(p, KindView::TransferStarted { name, total_bytes }) == Some(
                UpdateView { object: name, transferred: 0, total: total_bytes, done: false },
            )
            &&& progress::remembered(started, moving) == started
            &&& progress::update_of(started, moving) == Some(
                UpdateView { object: name, transferred, total, done: false },
            )
            &&& progress::update_of(progress::remembered(started, moving), ended) == Some(
                UpdateView { object: name, transferred: bytes, total: bytes, done: true },
            )
        }),
{
}

/// Only the three events of a transfer give an update.
pub proof fn only_transfers_give_updates(p: ProgressView, kind: KindView)
    ensures
        progress::update_of(p, kind) is Some <==> kind is TransferStarted || kind
            is TransferProgress || kind is TransferCompleted,
        !(kind is TransferStarted) ==> progress::remembered(p, kind) == p,
{
}

/// What a backend can do hangs together: it pairs and pushes exactly where it has Classic,
/// it always has LE, and only the mock and BlueZ take pairings from others or change the
/// address.
pub proof fn abilities_hang_together(kind: BackendKind)
    ensures
        ({
            let a = adapter::abilities_of(kind);
            &&& a.kind == kind
            &&& a.transports.contains(Transport::Le)
            &&& a.can_pair <==> a.transports.contains(Transport::BrEdr)
            &&& a.can_push_files <==> a.transports.contains(Transport::BrEdr)
            &&& a.transports.contains(Transport::Dual) <==> a.transports.contains(Transport::BrEdr)
            &&& a.transports.contains(Transport::BrEdr) <==> kind is Mock || kind is BlueZ || kind
                is Android
            &&& a.can_accept_pairings <==> kind is Mock || kind is BlueZ
            &&& a.can_spoof_address <==> kind is Mock || kind is BlueZ
            &&& a.can_gatt <==> kind is Mock || kind is Btleplug || kind is Ios
            &&& a.max_concurrent_pairings == if kind is Mock {
                usize::MAX
            } else {
                1
            }
        }),
{
    let v = adapter::abilities_of(kind).transports;
    if kind is Btleplug || kind is Ios {
        assert(v[0] == Transport::Le);
        assert(!v.contains(Transport::BrEdr) && !v.contains(Transport::Dual));
    } else {
        assert(v[0] == Transport::BrEdr && v[1] == Transport::Le && v[2] == Transport::Dual);
    }
}

/// The index of an adapter reads back from its name, for every index there can be, and no
/// name without the prefix has one.
pub proof fn adapter_index_reads_back(n: u16, name: Seq<char>)
    ensures
        adapter::index_of("hci"@ + text::decimal(n as nat)) == Some(n),
        name.len() < 3 || name.take(3) != "hci"@ ==> adapter::index_of(name) is None,
        adapter::index_of("hci"@) is None,
{
    reveal_strlit("hci");
    let s = "hci"@ + text::decimal(n as nat);
    assert(s.take(3) =~= "hci"@);
    assert(s.skip(3) =~= text::decimal(n as nat));
    text_laws::decimal_reads_back(n as nat);
    assert("hci"@.skip(3).len() == 0);
}

/// The bits of a class in a signed number are read without their sign: the low 24 of them.
pub proof fn class_reads_its_bits(bits: i32, raw: u32)
    requires
        bits >= 0 ==> raw == bits,
        bits < 0 ==> raw == bits + 0x1_0000_0000,
    ensures
        adapter::class_of_bits(bits).0 == raw % 0x100_0000,
{
}

/// A name fit for a file keeps every character that it may hold, and making it fit again
/// changes nothing.
pub proof fn fit_name_stays(name: Seq<char>, i: int)
    requires
        0 <= i < name.len(),
    ensures
        ({
            let fit = adapter::safe_text(name);
            let c = name[i];
            &&& fit.len() == name.len()
            &&& text::alphanumeric(c) || c == '.' || c == '-' || c == '_' ==> fit[i] == c
            &&& !(text::alphanumeric(c) || c == '.' || c == '-' || c == '_') ==> fit[i] == '_'
            &&& adapter::safe_text(fit) == fit
        }),
{
    let fit = adapter::safe_text(name);
    assert(adapter::safe_text(fit) =~= fit);
}

/// A pairing window stays open while fewer have bonded than its cap and time is left, and
/// is looked at again after a quarter of a second, or earlier where it ends earlier.
pub proof fn window_closes_by_cap_or_time(
    bonded: usize,
    max_devices: Option<usize>,
    remaining: Duration,
    r: Option<Duration>,
)
    requires
        call_ensures(adapter::keep_open, (bonded, max_devices, remaining), r),
    ensures
        r is Some <==> remaining.nanos > 0 && (max_devices is None || bonded < max_devices->0),
        r is Some ==> r->0.nanos <= 250_000_000 && r->0.nanos <= remaining.nanos && (r->0.nanos
            == 250_000_000 || r->0 == remaining),
{
}

/// An adapter is what the kernel says it is; failing that the vendor of its modalias, with
/// no version; failing that nobody's.
pub proof fn kernel_identifies_first(
    info: Option<ControllerInfo>,
    vendor: Option<u32>,
    r: (CompanyId, Option<CoreVersion>),
)
    requires
        call_ensures(adapter::identify, (info, vendor), r),
    ensures
        info matches Some(i) ==> (r.0).0 == i.manufacturer && (i.hci_version <= 14 ==> r.1 is Some
            && (r.1->0).number() == i.hci_version) && (i.hci_version > 14 ==> r.1 is None),
        info is None ==> r.1 is None,
        info is None && vendor is Some && vendor->0 <= 0xFFFF ==> (r.0).0 == vendor->0,
        info is None && vendor is None ==> (r.0).0 == 0xFFFF,
{
    if let Some(i) = info {
        if i.hci_version <= 14 {
            let v = CoreVersion::numbered(i.hci_version)->0;
            crate::version::hci_byte_reads_back(v, i.hci_version);
            assert(v.number() == i.hci_version);
        } else if let Some(v) = r.1 {
            crate::version::hci_byte_reads_back(v, i.hci_version);
        }
    }
}

/// Events of one reporter are numbered one after the other, from zero, and carry its
/// controller and context and what each call was given.
pub proof fn events_are_numbered_in_turn(
    first: Reporter,
    second: Reporter,
    third: Reporter,
    at: Timestamp,
    peer: DeviceId,
    standards: StandardsProfile,
    a: TransitEventKind,
    b: TransitEventKind,
    x: TransitEvent,
    y: TransitEvent,
)
    requires
        exists|r: &mut Reporter|
            *r == first && *final(r) == second && #[trigger] call_ensures(
                Reporter::event,
                (r, at, peer, standards, a),
                x,
            ),
        exists|r: &mut Reporter|
            *r == second && *final(r) == third && #[trigger] call_ensures(
                Reporter::event,
                (r, at, peer, standards, b),
                y,
            ),
        first@.seq < u64::MAX - 1,
    ensures
        x@.seq == first@.seq,
        y@.seq == x@.seq + 1,
        third@.seq == first@.seq + 2,
        x@.kind == a@ && y@.kind == b@,
        x@.origin.peer == peer && x@.at == at,
        x@.origin.local == first@.controller && y@.origin.local == first@.controller,
        x@.origin.spec == first@.spec && x@.origin.standards == standards,
{
}

/// A pairing that ended well is told and returned as a bond by the model used; one that did
/// not tells and returns the same reason.
pub proof fn pairing_ends_as_it_is_told(
    method: PairingMethodHint,
    failure: Option<&str>,
    r: (TransitEventKind, Result<PairingOutcome, TransportError>),
)
    requires
        call_ensures(live::pairing_end, (method, failure), r),
    ensures
        failure is None <==> r.1 is Ok,
        failure is None ==> r.0@ is PairingCompleted && r.1->Ok_0 == (PairingOutcome {
            paired: true,
            bonded: true,
            method,
        }),
        failure matches Some(reason) ==> r.0@ == (KindView::PairingFailed { reason: reason@ })
            && r.1->Err_0@ == TransportErrorView::PairingFailed(reason@),
{
}

/// A transfer that went through is told and returned with the same bytes and time, and counts
/// one chunk at least.
pub proof fn transfer_ends_as_it_is_told(
    name: String,
    bytes: u64,
    chunks: u64,
    duration: Duration,
    r: (TransitEventKind, TransferReceipt),
)
    requires
        call_ensures(live::transfer_done, (name, bytes, chunks, duration), r),
    ensures
        r.0@ == (KindView::TransferCompleted { bytes: r.1@.bytes, duration: r.1@.duration }),
        r.1@.bytes == bytes && r.1@.duration == duration && r.1@.object_name == name@,
        r.1@.chunks >= 1,
        chunks >= 1 ==> r.1@.chunks == chunks,
{
}

/// A phone's list of bonded devices gives one device for each entry with a readable address,
/// in order: public, paired, and with the name and class that the entry has.
pub proof fn bonded_entries_become_devices(v: Seq<BondedView>, e: BondedView)
    ensures
        ({
            let before = adapter::bonded(v);
            let after = adapter::bonded(v.push(e));
            let readable = e.addr is Some && address::parsed(e.addr->0) is Some;
            &&& !readable ==> after == before
            &&& readable ==> after.len() == before.len() + 1 && before.is_prefix_of(after)
            &&& readable ==> ({
                let d = after[before.len() as int];
                &&& d.id.addr@ == address::parsed(e.addr->0)->0
                &&& d.id.addr_type is Public
                &&& d.name == e.name
                &&& d.paired && !d.connected
                &&& d.class is Some <==> e.class_bits is Some
                &&& d.rssi is None && d.tx_power is None
            })
        }),
{
    assert(v.push(e).drop_last() =~= v);
    let before = adapter::bonded(v);
    let after = adapter::bonded(v.push(e));
    assert(before =~= after.take(before.len() as int));
    if let Some(s) = e.addr {
        parsing_laws::address_is_six_pairs(s);
        if let Some(o) = address::parsed(s) {
            assert(o.len() == 6);
            assert(e.described().id.addr@ =~= o);
        }
    }
}

/// What a low-energy scan says of a device is kept as it is; an address not known to be
/// public is random, and nothing is said of a class or a bond.
pub proof fn advertisement_is_kept(ad: Advertisement, r: DeviceInfo)
    requires
        call_ensures(adapter::advertised_device, (ad,), r),
    ensures
        r@.id.addr == ad.addr,
        r@.id.addr_type is Public <==> ad.public,
        r@.rssi == ad.rssi && r@.tx_power == ad.tx_power && r@.connected == ad.connected,
        r@.class is None && !r@.paired,
        r@.name is Some <==> ad.name is Some,
        r@.services.len() == ad.services@.len(),
        r@.manufacturer_data.len() == ad.manufacturer_data@.len(),
{
}

/// What BlueZ says of a device is kept as it is, under its public address, with the class cut
/// to its 24 bits.
pub proof fn stack_entry_is_kept(entry: StackEntry, r: DeviceInfo)
    requires
        call_ensures(adapter::stack_device, (entry,), r),
    ensures
        r@.id.addr == entry.addr && r@.id.addr_type is Public,
        r@.rssi == entry.rssi && r@.paired == entry.paired && r@.connected == entry.connected,
        r@.class is Some <==> entry.class is Some,
        entry.class matches Some(raw) ==> (raw < 0x100_0000 ==> (r@.class->0).0 == raw)
            && (r@.class->0).0 < 0x100_0000,
        r@.name is Some <==> entry.name is Some,
        r@.tx_power is None && r@.manufacturer_data.len() == 0,
{
}

/// A span in whole seconds is the largest number of them that fits in it.
pub proof fn whole_seconds_fit(d: Duration, secs: u32)
    requires
        call_ensures(adapter::timeout_secs, (d,), secs),
        d.nanos < 4_294_967_296_000_000_000,
    ensures
        secs * 1_000_000_000 <= d.nanos < (secs + 1) * 1_000_000_000,
{
}

/// A change of address goes on to the next command only after success, and is done after the
/// third.
pub proof fn address_change_stops_at_a_failure(
    done: usize,
    result: Result<(), SetAddressError>,
    r: SpoofProgress,
)
    requires
        call_ensures(mgmt::after_spoof_command, (done, result), r),
    ensures
        r is Next <==> result is Ok && done < 3,
        r matches SpoofProgress::Next(k) ==> k == done,
        r matches SpoofProgress::Done(end) ==> (end is Ok <==> result is Ok),
        result is Err ==> r == SpoofProgress::Done(result),
{
}

/// The port of a peer is known only by its public identity; every other identity has none.
pub proof fn port_goes_by_public_identity(
    cache: PortCache,
    peer: DeviceId,
    r: StandardsProfile,
)
    requires
        cache.ok(),
        call_ensures(PortCache::resolve, (&cache, peer), r),
    ensures
        r.radio is Wpan80215_1,
        !(peer.addr_type is Public) ==> r.port_auth is NotApplicable,
        peer.addr_type is Public && cache@.contains_key(peer.addr@) ==> r.port_auth
            == cache@[peer.addr@],
        !cache@.contains_key(peer.addr@) ==> r.port_auth is NotApplicable,
{
}

/// The stock agents on every request: only the refusing one refuses, but for the one with a
/// PIN, which has no passkey; showing a passkey is acknowledged.
pub proof fn stock_agents_on_requests(
    accept: AcceptAllAgent,
    reject: RejectAllAgent,
    fixed: FixedPinAgent,
    request: PairingRequest,
)
    ensures
        match request {
            PairingRequest::ConfirmJustWorks => accept.answer(request) == ResponseView::Confirm(
                true,
            ) && reject.answer(request) == ResponseView::Confirm(false) && fixed.answer(request)
                == ResponseView::Confirm(true),
            PairingRequest::ConfirmPasskey { .. } => accept.answer(request)
                == ResponseView::Confirm(true) && reject.answer(request) == ResponseView::Confirm(
                false,
            ) && fixed.answer(request) == ResponseView::Confirm(true),
            PairingRequest::RequestPinCode => accept.answer(request) == ResponseView::Pin(
                accept.pin@,
            ) && reject.answer(request) is Cancel && fixed.answer(request) == ResponseView::Pin(
                fixed.pin@,
            ),
            PairingRequest::RequestPasskey => accept.answer(request) == ResponseView::Passkey(
                accept.passkey,
            ) && reject.answer(request) is Cancel && fixed.answer(request) is Cancel,
            PairingRequest::DisplayPasskey { .. } => accept.answer(request) is Acknowledged
                && reject.answer(request) is Cancel && fixed.answer(request) is Acknowledged,
        },
{
}

/// A wait reads one reply after another: each leaves one less, an answer ends it at once, and
/// the last one allowed ends it in any case.
pub proof fn last_reply_ends_the_wait(
    before: InfoWait,
    after: InfoWait,
    reply: &[u8],
    r: InfoStep,
)
    requires
        before.left >= 1,
        exists|w: &mut InfoWait|
            *w == before && *final(w) == after && #[trigger] call_ensures(
                InfoWait::on_reply,
                (w, reply),
                r,
            ),
    ensures
        after.left == before.left - 1,
        before.left == 1 ==> r is Done,
        mgmt::info_answer(reply@) matches Some(answer) ==> r == InfoStep::Done(answer),
        mgmt::info_answer(reply@) is None && before.left > 1 ==> r is More,
        mgmt::info_answer(reply@) is None && before.left == 1 ==> r == InfoStep::Done(
            None::<ControllerInfo>,
        ),
{
}

/// A wait for a command ends the same way: with the answer, or at its last reply with a
/// failure of the socket.
pub proof fn last_reply_ends_the_command(
    before: CommandWait,
    after: CommandWait,
    reply: &[u8],
    r: CommandStep,
)
    requires
        before.left >= 1,
        exists|w: &mut CommandWait|
            *w == before && *final(w) == after && #[trigger] call_ensures(
                CommandWait::on_reply,
                (w, reply),
                r,
            ),
    ensures
        after.left == before.left - 1 && after.opcode == before.opcode,
        mgmt::command_answer(before.opcode, reply@) is None && before.left > 1 ==> r is More,
        mgmt::command_answer(before.opcode, reply@) is Some || before.left == 1 ==> r is Done,
        mgmt::command_answer(before.opcode, reply@) matches Some(answer) ==> (r
            matches CommandStep::Done(done) && (done is Ok <==> answer is Ok)),
        mgmt::command_answer(before.opcode, reply@) is None && before.left == 1 ==> (r
            matches CommandStep::Done(Err(e)) && e@ is Io),
{
}

/// The place of a characteristic that is found is that of the first one offered under both
/// its names.
pub proof fn first_offered_is_taken(
    offered: &[(Uuid, Uuid)],
    service: Uuid,
    characteristic: Uuid,
    i: usize,
    j: int,
)
    requires
        call_ensures(
            adapter::characteristic_position,
            (offered, service, characteristic),
            Ok::<usize, TransportError>(i),
        ),
        0 <= j < offered@.len(),
        offered@[j].0@ == service@,
        offered@[j].1@ == characteristic@,
    ensures
        i <= j,
        offered@[i as int].0@ == service@ && offered@[i as int].1@ == characteristic@,
{
    assert(adapter::is_wanted(offered@[j], service, characteristic));
    if i > j {
        assert(!adapter::is_wanted(offered@[j], service, characteristic));
    }
}

/// A backend that neither pairs nor pushes says so by its own name; all others do both.
pub proof fn low_energy_backends_refuse(
    kind: BackendKind,
    pair: Result<(), TransportError>,
    push: Result<(), TransportError>,
)
    requires
        call_ensures(adapter::pairing_offered, (kind,), pair),
        call_ensures(adapter::pushing_offered, (kind,), push),
    ensures
        pair is Err <==> kind is Btleplug || kind is Ios,
        push is Err <==> kind is Btleplug || kind is Ios,
        pair matches Err(e) ==> (e@ matches TransportErrorView::Unsupported { backend, .. }
            && backend == kind.word()),
        push matches Err(e) ==> (e@ matches TransportErrorView::Unsupported { backend, .. }
            && backend == kind.word()),
{
}

/// The model that a concluded pairing used is the one that its last prompt asked for; without
/// a prompt nothing was compared.
pub proof fn model_used_is_the_last_asked(log: BridgeLog, m: PairingMethodHint)
    requires
        call_ensures(BridgeLog::method_used, (&log,), m),
    ensures
        log@.method is None ==> m is JustWorks,
        log@.method matches Some(asked) ==> m == asked,
{
}

/// An identified adapter is of the vendor's family under its own alias, and dual-mode at the
/// version it tells, or 5.0 where it tells none.
pub proof fn identified_adapter(
    company: CompanyId,
    alias: &str,
    c: ControllerModel,
    version: Option<CoreVersion>,
    spec: SpecContext,
)
    requires
        call_ensures(adapter::identified_controller, (company, alias), c),
        call_ensures(adapter::identified_spec, (version,), spec),
    ensures
        c@.manufacturer == company && c@.model == alias@,
        c@.family == ChipsetFamily::built_by(company),
        spec.transport is Dual,
        version matches Some(v) ==> spec.version == v,
        version is None ==> spec.version is V5_0,
{
}

/// A pairing window lasts half a minute and takes everyone, unless it is told otherwise.
pub proof fn window_lasts_half_a_minute(w: InboundPairing, n: usize, capped: InboundPairing)
    requires
        call_ensures(InboundPairing::default, (), w),
        call_ensures(InboundPairing::max_devices, (w, n), capped),
    ensures
        w.window.nanos == 30_000_000_000,
        w.max_devices is None,
        capped.window == w.window && capped.max_devices == Some(n),
{
}

} // verus!
