//! The commands of the command line: reading their arguments, running them against a
//! backend, and what they print.
use vstd::prelude::*;
use crate::address;
use crate::address::BdAddr;
use crate::backend;
use crate::backend::{BackendCall, BackendKind, BluetoothBackend, Connection, ConnectionView};
use crate::batch::{ItemView, PairItem};
use crate::device::{ClassOfDevice, DeviceId, DeviceView};
use crate::error::{Error, ErrorView};
use crate::hardware::{ChipsetFamily, CompanyId, ControllerModel, ControllerView};
use crate::mock::{MockBackend, MockBackendBuilder};
use crate::mock_device::{GattView, MockDevice, MockDeviceView};
use crate::mock_model;
use crate::mock_model::MockView;
use crate::text;
use crate::transfer::TransferReceipt;
use crate::transport_error::{TransportError, TransportErrorView};
use crate::uuid;
use crate::uuid::Uuid;

verus! {

/// Why a command failed.
#[derive(Debug)]
pub enum CliError {
    /// An argument could not be read.
    Core(Error),
    /// The backend failed.
    Transport(TransportError),
    /// A hex payload has an odd number of digits.
    OddHex,
    /// A hex payload holds something else than digits.
    BadHex,
    /// The backend cannot change its address.
    NoSpoofing(BackendKind),
    /// The backend is not part of this build.
    NotBuilt(BackendKind),
}

/// What a [`CliError`] says.
pub enum CliErrorView {
    Core(ErrorView),
    Transport(TransportErrorView),
    OddHex,
    BadHex,
    NoSpoofing(BackendKind),
    NotBuilt(BackendKind),
}

impl View for CliError {
    type V = CliErrorView;

    open spec fn view(&self) -> CliErrorView {
        match self {
            CliError::Core(e) => CliErrorView::Core(e@),
            CliError::Transport(e) => CliErrorView::Transport(e@),
            CliError::OddHex => CliErrorView::OddHex,
            CliError::BadHex => CliErrorView::BadHex,
            CliError::NoSpoofing(kind) => CliErrorView::NoSpoofing(*kind),
            CliError::NotBuilt(kind) => CliErrorView::NotBuilt(*kind),
        }
    }
}

impl CliErrorView {
    /// The message shown for an error.
    pub open spec fn message(self) -> Seq<char> {
        match self {
            CliErrorView::Core(e) => e.message(),
            CliErrorView::Transport(e) => e.message(),
            CliErrorView::OddHex => "hex payload must have an even number of digits"@,
            CliErrorView::BadHex => "invalid hex"@,
            CliErrorView::NoSpoofing(kind) => "the `"@ + kind.word()
                + "` backend cannot spoof a local address — use --backend bluez (Linux) or --backend mock"@,
            CliErrorView::NotBuilt(kind) => "this build has no `"@ + kind.word()
                + "` backend — rebuild with `--features "@ + kind.word() + "`"@,
        }
    }
}

impl CliError {
    /// The message shown for the error.
    pub fn to_string(&self) -> (r: String)
        ensures
            r@ == self@.message(),
    {
        match self {
            CliError::Core(e) => e.to_string(),
            CliError::Transport(e) => e.to_string(),
            CliError::OddHex => "hex payload must have an even number of digits".to_owned(),
            CliError::BadHex => "invalid hex".to_owned(),
            CliError::NoSpoofing(kind) => {
                let mut t = "the `".to_owned();
                t.append(kind.name());
                t.append(
                    "` backend cannot spoof a local address — use --backend bluez (Linux) or --backend mock",
                );
                t
            },
            CliError::NotBuilt(kind) => {
                let mut t = "this build has no `".to_owned();
                t.append(kind.name());
                t.append("` backend — rebuild with `--features ");
                t.append(kind.name());
                t.append("`");
                t
            },
        }
    }
}

/// The public identity that an address spells, if it is one.
pub open spec fn identity(s: Seq<char>) -> Option<DeviceId> {
    match address::parsed(s) {
        Some(o) => Some(DeviceId::at(BdAddr(o[0], o[1], o[2], o[3], o[4], o[5]))),
        None => None,
    }
}

/// Reads the address of a device.
fn parse_id(s: &str) -> (r: Result<DeviceId, CliError>)
    ensures
        match r {
            Ok(id) => identity(s@) == Some(id),
            Err(e) => identity(s@) is None && e@ == CliErrorView::Core(
                ErrorView::InvalidAddress(s@),
            ),
        },
{
    match DeviceId::parse(s) {
        Ok(id) => Ok(id),
        Err(e) => Err(CliError::Core(e)),
    }
}

/// Reads the addresses of devices, in order; the first that is none is the error.
pub fn parse_ids(addrs: &Vec<String>) -> (r: Result<Vec<DeviceId>, CliError>)
    ensures
        match r {
            Ok(ids) => {
                &&& ids@.len() == addrs@.len()
                &&& forall|i: int|
                    0 <= i < addrs@.len() ==> identity(#[trigger] addrs@[i]@) == Some(ids@[i])
            },
            Err(e) => exists|i: int|
                {
                    &&& 0 <= i < addrs@.len()
                    &&& identity(#[trigger] addrs@[i]@) is None
                    &&& forall|j: int| 0 <= j < i ==> identity(#[trigger] addrs@[j]@) is Some
                    &&& e@ == CliErrorView::Core(ErrorView::InvalidAddress(addrs@[i]@))
                },
        },
{
    let mut ids: Vec<DeviceId> = Vec::new();
    let mut i: usize = 0;
    while i < addrs.len()
        invariant
            i <= addrs@.len(),
            ids@.len() == i,
            forall|j: int| 0 <= j < i ==> identity(#[trigger] addrs@[j]@) == Some(ids@[j]),
        decreases addrs@.len() - i,
    {
        match parse_id(addrs[i].as_str()) {
            Ok(id) => {
                ids.push(id);
            },
            Err(e) => {
                assert(identity(addrs@[i as int]@) is None);
                return Err(e);
            },
        }
        i = i + 1;
    }
    Ok(ids)
}

/// The characters of a hex payload that count: all but blanks and colons.
pub open spec fn digits_kept(s: Seq<char>) -> Seq<char> {
    s.filter(|c: char| !text::is_blank(c) && c != ':')
}

/// The value of a pair of digits.
pub open spec fn pair_value(t: Seq<char>, i: int) -> Option<nat> {
    text::digits_value(t.subrange(2 * i, 2 * i + 2), 16)
}

/// The bytes that a hex payload spells: pairs of digits, with blanks and colons between
/// them ignored. An odd length in bytes is told before a wrong digit.
pub open spec fn hex_bytes(s: Seq<char>) -> Result<Seq<u8>, CliErrorView> {
    let t = digits_kept(s);
    if text::byte_len(t) % 2 != 0 {
        Err(CliErrorView::OddHex)
    } else if t.len() % 2 == 0 && forall|i: int|
        0 <= i < t.len() / 2 ==> #[trigger] pair_value(t, i) is Some {
        Ok(Seq::new((t.len() / 2) as nat, |i: int| pair_value(t, i)->0 as u8))
    } else {
        Err(CliErrorView::BadHex)
    }
}

fn kept_chars(s: &str) -> (t: Vec<char>)
    ensures
        t@ == digits_kept(s@),
{
    let v = text::chars_of(s);
    let ghost keep = |c: char| !text::is_blank(c) && c != ':';
    let mut t: Vec<char> = Vec::new();
    let mut i: usize = 0;
    proof {
        reveal(Seq::filter);
        assert(v@.take(0).filter(keep) =~= Seq::empty());
    }
    while i < v.len()
        invariant
            i <= v@.len(),
            keep == (|c: char| !text::is_blank(c) && c != ':'),
            t@ == v@.take(i as int).filter(keep),
        decreases v@.len() - i,
    {
        proof {
            reveal(Seq::filter);
            assert(v@.take(i + 1).drop_last() =~= v@.take(i as int));
        }
        let c: char = v[i];
        if !text::blank(c) && c != ':' {
            t.push(c);
        }
        i = i + 1;
    }
    assert(v@.take(i as int) =~= v@);
    t
}

/// Reads a hex payload.
pub fn parse_hex(s: &str) -> (r: Result<Vec<u8>, CliError>)
    ensures
        hex_bytes(s@) == match r {
            Ok(v) => Ok(v@),
            Err(e) => Err(e@),
        },
{
    let t = kept_chars(s);
    let whole = text::text_of(t.as_slice());
    if whole.as_str().len() % 2 != 0 {
        return Err(CliError::OddHex);
    }
    if t.len() % 2 != 0 {
        return Err(CliError::BadHex);
    }
    let mut out: Vec<u8> = Vec::new();
    let mut i: usize = 0;
    while i < t.len() / 2
        invariant
            i <= t@.len() / 2,
            t@ == digits_kept(s@),
            t@.len() % 2 == 0,
            text::byte_len(t@) % 2 == 0,
            out@.len() == i,
            forall|j: int| 0 <= j < i ==> #[trigger] pair_value(t@, j) is Some,
            forall|j: int|
                0 <= j < i ==> #[trigger] out@[j] == pair_value(t@, j)->0 as u8,
        decreases t@.len() / 2 - i,
    {
        let mut two: Vec<char> = Vec::new();
        two.push(t[2 * i]);
        two.push(t[2 * i + 1]);
        assert(two@ =~= t@.subrange(2 * i, 2 * i + 2));
        proof {
            address::two_digits_fit(two@);
        }
        assert(two@.skip(0) =~= two@);
        match text::parse_digits(two.as_slice(), 0, 16, 255) {
            Some(v) => {
                out.push(v as u8);
            },
            None => {
                assert(pair_value(t@, i as int) is None);
                return Err(CliError::BadHex);
            },
        }
        i = i + 1;
    }
    assert(hex_bytes(s@)->Ok_0 =~= out@);
    Ok(out)
}

/// Text of one-byte characters takes as many bytes as it has characters.
proof fn plain_byte_len(s: Seq<char>)
    requires
        forall|i: int| 0 <= i < s.len() ==> (#[trigger] s[i]) as u32 <= 0x7F,
    ensures
        vstd::utf8::encode_utf8(s).len() == s.len(),
    decreases s.len(),
{
    if s.len() > 0 {
        let rest = s.drop_first();
        assert forall|i: int| 0 <= i < rest.len() implies (#[trigger] rest[i]) as u32 <= 0x7F by {
            assert(rest[i] == s[i + 1]);
        }
        plain_byte_len(rest);
        assert(s[0] as u32 <= 0x7F);
    }
}

/// Nothing is dropped from text that holds neither blanks nor colons.
proof fn all_kept(s: Seq<char>)
    requires
        forall|i: int| 0 <= i < s.len() ==> !text::is_blank(#[trigger] s[i]) && s[i] != ':',
    ensures
        digits_kept(s) == s,
    decreases s.len(),
{
    reveal(Seq::filter);
    if s.len() > 0 {
        let front = s.drop_last();
        assert forall|i: int| 0 <= i < front.len() implies !text::is_blank(#[trigger] front[i])
            && front[i] != ':' by {
            assert(front[i] == s[i]);
        }
        all_kept(front);
        assert(s[s.len() - 1] == s.last());
        assert(front.push(s.last()) =~= s);
    } else {
        assert(digits_kept(s) =~= s);
    }
}

/// The digits of bytes are plain characters.
proof fn digits_are_plain(b: Seq<u8>)
    ensures
        forall|i: int|
            0 <= i < text::hexes(b).len() ==> (#[trigger] text::hexes(b)[i]) as u32 <= 0x7F
                && !text::is_blank(text::hexes(b)[i]) && text::hexes(b)[i] != ':',
    decreases b.len(),
{
    if b.len() > 0 {
        let front = b.drop_last();
        let last = text::byte_lower(b.last());
        digits_are_plain(front);
        text::hexes_read_back(front);
        text::digit_reads_back((b.last() / 16) as nat, false);
        text::digit_reads_back((b.last() % 16) as nat, false);
        assert forall|i: int| 0 <= i < text::hexes(b).len() implies (#[trigger] text::hexes(
            b,
        )[i]) as u32 <= 0x7F && !text::is_blank(text::hexes(b)[i]) && text::hexes(b)[i]
            != ':' by {
            if i < text::hexes(front).len() {
                assert(text::hexes(b)[i] == text::hexes(front)[i]);
            } else {
                assert(text::hexes(b)[i] == last[i - text::hexes(front).len()]);
            }
        }
    }
}

/// Bytes written as pairs of digits read back as the bytes.
pub proof fn payload_reads_back(b: Seq<u8>)
    requires
        2 * b.len() <= usize::MAX,
    ensures
        hex_bytes(text::hexes(b)) == Ok::<Seq<u8>, CliErrorView>(b),
{
    let t = text::hexes(b);
    assert(text::byte_len(t) % 2 == 0) by {
        text::hexes_read_back(b);
        digits_are_plain(b);
        plain_byte_len(t);
    }
    assert(digits_kept(t) == t) by {
        digits_are_plain(b);
        all_kept(t);
    }
    assert(t.len() == 2 * b.len()) by {
        text::hexes_read_back(b);
    }
    assert forall|i: int| 0 <= i < b.len() implies #[trigger] pair_value(t, i) == Some(
        b[i] as nat,
    ) by {
        pair_spells(b, i);
    }
    assert(hex_bytes(t)->Ok_0 =~= b);
}

proof fn pair_spells(b: Seq<u8>, i: int)
    requires
        0 <= i < b.len(),
    ensures
        pair_value(text::hexes(b), i) == Some(b[i] as nat),
{
    text::hexes_read_back(b);
    text::two_digits_read_back(b[i], false, false);
    assert(text::hexes(b).subrange(2 * i, 2 * i + 2) == text::byte_lower(b[i]));
    assert(text::byte_lower(b[i]) =~= seq![
        text::digit_char((b[i] / 16) as nat, false),
        text::digit_char((b[i] % 16) as nat, false),
    ]);
}

/// A payload as it is shown: two digits for each byte, in brackets.
pub open spec fn shown_bytes(v: Seq<u8>) -> Seq<char> {
    "["@ + comma_bytes(v) + "]"@
}

/// Bytes with commas between them.
pub open spec fn comma_bytes(v: Seq<u8>) -> Seq<char>
    decreases v.len(),
{
    if v.len() == 0 {
        Seq::empty()
    } else if v.len() == 1 {
        text::byte_upper(v[0])
    } else {
        comma_bytes(v.drop_last()) + ", "@ + text::byte_upper(v.last())
    }
}

/// The line that shows a value under a name.
pub open spec fn value_shown(name: Seq<char>, v: Seq<u8>) -> Seq<char> {
    name + " = "@ + shown_bytes(v)
}

/// The line that shows a value under a name.
pub fn value_line(name: &str, value: &[u8]) -> (r: String)
    ensures
        r@ == value_shown(name@, value@),
{
    let mut list = String::new();
    let mut i: usize = 0;
    while i < value.len()
        invariant
            i <= value@.len(),
            list@ == comma_bytes(value@.take(i as int)),
        decreases value@.len() - i,
    {
        assert(value@.take(i + 1).drop_last() =~= value@.take(i as int));
        if i > 0 {
            list.append(", ");
        }
        list.append(text::byte_text(value[i], true).as_str());
        assert(list@ =~= comma_bytes(value@.take(i + 1)));
        i = i + 1;
    }
    assert(value@.take(i as int) =~= value@);
    let mut t = name.to_owned();
    t.append(" = ");
    let mut shown = "[".to_owned();
    shown.append(list.as_str());
    shown.append("]");
    t.append(shown.as_str());
    t
}

/// An operation on a characteristic.
#[derive(Debug)]
#[allow(inconsistent_fields)]
pub enum GattOp {
    /// Reads a value.
    Read {
        /// The device's address.
        addr: String,
        /// The service.
        service: String,
        /// The characteristic.
        characteristic: String,
    },
    /// Writes a hex payload.
    Write {
        /// The device's address.
        addr: String,
        /// The service.
        service: String,
        /// The characteristic.
        characteristic: String,
        /// The payload.
        hex: String,
    },
    /// Shows notifications.
    Subscribe {
        /// The device's address.
        addr: String,
        /// The service.
        service: String,
        /// The characteristic.
        characteristic: String,
        /// After how many to stop.
        count: usize,
    },
}

/// The bytes of a service's and a characteristic's UUID; the service is read first.
pub open spec fn names_read(service: Seq<char>, characteristic: Seq<char>) -> Result<
    (Seq<u8>, Seq<u8>),
    CliErrorView,
> {
    match uuid::parsed(service) {
        None => Err(CliErrorView::Core(uuid::unreadable(service))),
        Some(s) => match uuid::parsed(characteristic) {
            None => Err(CliErrorView::Core(uuid::unreadable(characteristic))),
            Some(c) => Ok((s, c)),
        },
    }
}

fn parse_names(service: &str, characteristic: &str) -> (r: Result<(Uuid, Uuid), CliError>)
    ensures
        names_read(service@, characteristic@) == match r {
            Ok(p) => Ok((p.0@, p.1@)),
            Err(e) => Err(e@),
        },
{
    let s: Uuid = match Uuid::parse(service) {
        Ok(u) => u,
        Err(e) => {
            return Err(CliError::Core(e));
        },
    };
    match Uuid::parse(characteristic) {
        Ok(c) => Ok((s, c)),
        Err(e) => Err(CliError::Core(e)),
    }
}

/// Whether opening a connection leads from `before` to `after`: no call where the address
/// cannot be read.
pub open spec fn opened<B: BluetoothBackend>(
    before: B,
    after: B,
    addr: Seq<char>,
    link: Result<Connection, CliError>,
) -> bool {
    match identity(addr) {
        None => after == before && link_view(link) == Err::<ConnectionView, CliErrorView>(
            CliErrorView::Core(ErrorView::InvalidAddress(addr)),
        ),
        Some(target) => match link_view(link) {
            Ok(conn) => before.does(BackendCall::Connect { target, result: Ok(conn) }, &after),
            Err(CliErrorView::Transport(e)) => before.does(
                BackendCall::Connect { target, result: Err(e) },
                &after,
            ),
            _ => false,
        },
    }
}

/// What opening a connection gave, as plain values.
pub open spec fn link_view(r: Result<Connection, CliError>) -> Result<
    ConnectionView,
    CliErrorView,
> {
    match r {
        Ok(c) => Ok(c@),
        Err(e) => Err(e@),
    }
}

fn open_link<B: BluetoothBackend>(backend: &mut B, addr: &str) -> (r: Result<Connection, CliError>)
    ensures
        final(backend).abilities() == old(backend).abilities(),
        opened(*old(backend), *final(backend), addr@, r),
{
    let target: DeviceId = match parse_id(addr) {
        Ok(id) => id,
        Err(e) => {
            return Err(e);
        },
    };
    match backend.connect(target) {
        Ok(c) => Ok(c),
        Err(e) => Err(CliError::Transport(e)),
    }
}

/// Whether closing a connection leads from `before` to `after`, whatever came of it.
pub open spec fn link_closed<B: BluetoothBackend>(
    before: B,
    after: B,
    conn: ConnectionView,
) -> bool {
    exists|result: Result<(), TransportErrorView>| #[trigger]
        before.does(BackendCall::Disconnect { conn, result }, &after)
}

fn close_link<B: BluetoothBackend>(backend: &mut B, conn: &Connection)
    ensures
        final(backend).abilities() == old(backend).abilities(),
        link_closed(*old(backend), *final(backend), conn@),
{
    let _ = backend.disconnect(conn);
}

/// The lines for notifications.
pub open spec fn note_lines(notes: Seq<(Seq<u8>, Seq<u8>)>) -> Seq<Seq<char>> {
    notes.map_values(|n: (Seq<u8>, Seq<u8>)| value_shown(uuid::hyphenated(n.0), n.1))
}

/// The notifications that are shown: the first ones, up to the count.
pub open spec fn notes_shown(notes: Seq<(Seq<u8>, Seq<u8>)>, count: usize) -> Seq<
    (Seq<u8>, Seq<u8>),
> {
    if notes.len() <= count {
        notes
    } else {
        notes.take(count as int)
    }
}

/// Whether to go on listening after so many notifications were shown.
pub fn keep_listening(seen: usize, count: usize) -> (r: bool)
    ensures
        r == (seen < count),
{
    seen < count
}

/// Whether a call on a characteristic of the given names leads from `before` to `after`,
/// with what it gave; `calls` says what a call may do.
pub open spec fn called<B: BluetoothBackend, T>(
    calls: spec_fn(B, Connection, Uuid, Uuid, Result<T, TransportError>, B) -> bool,
    before: B,
    after: B,
    conn: Connection,
    names: (Seq<u8>, Seq<u8>),
    got: Result<T, TransportError>,
) -> bool {
    exists|s: Uuid, c: Uuid|
        {
            &&& s@ == names.0
            &&& c@ == names.1
            &&& #[trigger] calls(before, conn, s, c, got, after)
        }
}

/// Whether writing to a characteristic of the given names leads from `before` to `after`,
/// with what it gave; `writes` says what a call may do.
pub open spec fn written<B: BluetoothBackend>(
    writes: spec_fn(B, Connection, Uuid, Uuid, Seq<u8>, Result<(), TransportError>, B) -> bool,
    before: B,
    after: B,
    conn: Connection,
    names: (Seq<u8>, Seq<u8>),
    data: Seq<u8>,
    got: Result<(), TransportError>,
) -> bool {
    exists|s: Uuid, c: Uuid|
        {
            &&& s@ == names.0
            &&& c@ == names.1
            &&& #[trigger] writes(before, conn, s, c, data, got, after)
        }
}

/// What reading a characteristic over an open connection does and prints.
pub open spec fn read_ran<B: BluetoothBackend>(
    reads: spec_fn(B, Connection, Uuid, Uuid, Result<Vec<u8>, TransportError>, B) -> bool,
    before: B,
    after: B,
    conn: Connection,
    service: Seq<char>,
    characteristic: Seq<char>,
    result: Result<Seq<Seq<char>>, CliErrorView>,
) -> bool {
    match names_read(service, characteristic) {
        Err(e) => after == before && result == Err::<Seq<Seq<char>>, CliErrorView>(e),
        Ok(names) => exists|mid: B, got: Result<Vec<u8>, TransportError>|
            {
                &&& #[trigger] called(reads, before, mid, conn, names, got)
                &&& match got {
                    Err(e) => after == mid && result == Err::<Seq<Seq<char>>, CliErrorView>(
                        CliErrorView::Transport(e@),
                    ),
                    Ok(v) => link_closed(mid, after, conn@) && result == Ok::<
                        Seq<Seq<char>>,
                        CliErrorView,
                    >(seq![value_shown(characteristic, v@)]),
                }
            },
    }
}

/// What writing a characteristic over an open connection does and prints.
pub open spec fn write_ran<B: BluetoothBackend>(
    writes: spec_fn(B, Connection, Uuid, Uuid, Seq<u8>, Result<(), TransportError>, B) -> bool,
    before: B,
    after: B,
    conn: Connection,
    service: Seq<char>,
    characteristic: Seq<char>,
    hex: Seq<char>,
    result: Result<Seq<Seq<char>>, CliErrorView>,
) -> bool {
    match hex_bytes(hex) {
        Err(e) => after == before && result == Err::<Seq<Seq<char>>, CliErrorView>(e),
        Ok(data) => match names_read(service, characteristic) {
            Err(e) => after == before && result == Err::<Seq<Seq<char>>, CliErrorView>(e),
            Ok(names) => exists|mid: B, got: Result<(), TransportError>|
                {
                    &&& #[trigger] written(writes, before, mid, conn, names, data, got)
                    &&& match got {
                        Err(e) => after == mid && result == Err::<Seq<Seq<char>>, CliErrorView>(
                            CliErrorView::Transport(e@),
                        ),
                        Ok(_) => link_closed(mid, after, conn@) && result == Ok::<
                            Seq<Seq<char>>,
                            CliErrorView,
                        >(seq!["wrote "@ + text::decimal(data.len()) + " byte(s)"@]),
                    }
                },
        },
    }
}

/// What watching a characteristic over an open connection does and prints.
pub open spec fn watch_ran<B: BluetoothBackend>(
    watches: spec_fn(
        B,
        Connection,
        Uuid,
        Uuid,
        Result<Vec<(Uuid, Vec<u8>)>, TransportError>,
        B,
    ) -> bool,
    before: B,
    after: B,
    conn: Connection,
    service: Seq<char>,
    characteristic: Seq<char>,
    count: usize,
    result: Result<Seq<Seq<char>>, CliErrorView>,
) -> bool {
    match names_read(service, characteristic) {
        Err(e) => after == before && result == Err::<Seq<Seq<char>>, CliErrorView>(e),
        Ok(names) => exists|mid: B, got: Result<Vec<(Uuid, Vec<u8>)>, TransportError>|
            {
                &&& #[trigger] called(watches, before, mid, conn, names, got)
                &&& match got {
                    Err(e) => after == mid && result == Err::<Seq<Seq<char>>, CliErrorView>(
                        CliErrorView::Transport(e@),
                    ),
                    Ok(notes) => link_closed(mid, after, conn@) && result == Ok::<
                        Seq<Seq<char>>,
                        CliErrorView,
                    >(note_lines(notes_shown(backend::notes_view(notes@), count))),
                }
            },
    }
}

/// What an operation on an open connection does and prints. It does not close the
/// connection where it fails.
pub open spec fn operated<B: BluetoothBackend>(
    reads: spec_fn(B, Connection, Uuid, Uuid, Result<Vec<u8>, TransportError>, B) -> bool,
    writes: spec_fn(B, Connection, Uuid, Uuid, Seq<u8>, Result<(), TransportError>, B) -> bool,
    watches: spec_fn(
        B,
        Connection,
        Uuid,
        Uuid,
        Result<Vec<(Uuid, Vec<u8>)>, TransportError>,
        B,
    ) -> bool,
    before: B,
    after: B,
    conn: Connection,
    op: GattOp,
    result: Result<Seq<Seq<char>>, CliErrorView>,
) -> bool {
    match op {
        GattOp::Read { service, characteristic, .. } => read_ran(
            reads,
            before,
            after,
            conn,
            service@,
            characteristic@,
            result,
        ),
        GattOp::Write { service, characteristic, hex, .. } => write_ran(
            writes,
            before,
            after,
            conn,
            service@,
            characteristic@,
            hex@,
            result,
        ),
        GattOp::Subscribe { service, characteristic, count, .. } => watch_ran(
            watches,
            before,
            after,
            conn,
            service@,
            characteristic@,
            count,
            result,
        ),
    }
}

impl GattOp {
    /// The device's address.
    pub open spec fn target(self) -> Seq<char> {
        match self {
            GattOp::Read { addr, .. } => addr@,
            GattOp::Write { addr, .. } => addr@,
            GattOp::Subscribe { addr, .. } => addr@,
        }
    }
}

/// What an operation does and prints, from opening the connection on. The first three
/// arguments say what a read, a write and a subscription may do.
pub open spec fn gatt_ran<B: BluetoothBackend>(
    reads: spec_fn(B, Connection, Uuid, Uuid, Result<Vec<u8>, TransportError>, B) -> bool,
    writes: spec_fn(B, Connection, Uuid, Uuid, Seq<u8>, Result<(), TransportError>, B) -> bool,
    watches: spec_fn(
        B,
        Connection,
        Uuid,
        Uuid,
        Result<Vec<(Uuid, Vec<u8>)>, TransportError>,
        B,
    ) -> bool,
    before: B,
    after: B,
    op: GattOp,
    result: Result<Seq<Seq<char>>, CliErrorView>,
) -> bool {
    exists|mid: B, link: Result<Connection, CliError>|
        {
            &&& #[trigger] opened(before, mid, op.target(), link)
            &&& match link {
                Err(e) => after == mid && result == Err::<Seq<Seq<char>>, CliErrorView>(e@),
                Ok(conn) => operated(reads, writes, watches, mid, after, conn, op, result),
            }
        }
}

/// Printed lines as plain values.
pub open spec fn lines_view(r: Result<Vec<String>, CliError>) -> Result<
    Seq<Seq<char>>,
    CliErrorView,
> {
    match r {
        Ok(v) => Ok(text::texts(v@)),
        Err(e) => Err(e@),
    }
}

fn one_line(s: String) -> (r: Vec<String>)
    ensures
        text::texts(r@) == seq![s@],
{
    let mut v: Vec<String> = Vec::new();
    v.push(s);
    assert(text::texts(v@) =~= seq![s@]);
    v
}

/// The lines for notifications, up to the count.
pub fn notification_lines(notes: &Vec<(Uuid, Vec<u8>)>, count: usize) -> (r: Vec<String>)
    ensures
        text::texts(r@) == note_lines(notes_shown(backend::notes_view(notes@), count)),
{
    let ghost all = backend::notes_view(notes@);
    let mut out: Vec<String> = Vec::new();
    let mut i: usize = 0;
    let mut more: bool = keep_listening(0, count);
    assert(text::texts(out@) =~= note_lines(all.take(0)));
    while more && i < notes.len()
        invariant
            i <= notes@.len(),
            all == backend::notes_view(notes@),
            text::texts(out@) == note_lines(all.take(i as int)),
            more == (i < count),
            i <= count,
        decreases notes@.len() - i,
    {
        let line = value_line(notes[i].0.to_string().as_str(), notes[i].1.as_slice());
        let ghost shown = line@;
        let ghost before = out@;
        out.push(line);
        i = i + 1;
        more = keep_listening(i, count);
        proof {
            assert(all[i - 1] == (notes@[i - 1].0@, notes@[i - 1].1@));
            assert(text::texts(out@) =~= text::texts(before).push(shown));
            assert(note_lines(all.take(i as int)) =~= note_lines(all.take(i - 1)).push(shown));
        }
    }
    assert(all.take(i as int) =~= notes_shown(all, count));
    out
}

/// Reads a characteristic over an open connection.
fn run_read<B: BluetoothBackend>(
    backend: &mut B,
    conn: &Connection,
    service: &str,
    characteristic: &str,
) -> (r: Result<Vec<String>, CliError>)
    ensures
        final(backend).abilities() == old(backend).abilities(),
        read_ran(
            |s: B, k: Connection, u: Uuid, c: Uuid, g: Result<Vec<u8>, TransportError>, t: B|
                exists|b: &mut B|
                    *b == s && *final(b) == t && #[trigger] call_ensures(
                        B::gatt_read,
                        (b, &k, u, c),
                        g,
                    ),
            *old(backend),
            *final(backend),
            *conn,
            service@,
            characteristic@,
            lines_view(r),
        ),
{
    let (s, c) = match parse_names(service, characteristic) {
        Ok(names) => names,
        Err(e) => {
            return Err(e);
        },
    };
    let ghost before = *backend;
    let got = backend.gatt_read(conn, s, c);
    proof {
        let reads =
            |s: B, k: Connection, u: Uuid, c: Uuid, g: Result<Vec<u8>, TransportError>, t: B|
                exists|b: &mut B|
                    *b == s && *final(b) == t && #[trigger] call_ensures(
                        B::gatt_read,
                        (b, &k, u, c),
                        g,
                    );
        let names = names_read(service@, characteristic@)->Ok_0;
        assert(reads(before, *conn, s, c, got, *backend));
        assert(called(reads, before, *backend, *conn, names, got));
    }
    match got {
        Ok(value) => {
            let line = value_line(characteristic, value.as_slice());
            close_link(backend, conn);
            Ok(one_line(line))
        },
        Err(e) => Err(CliError::Transport(e)),
    }
}

/// Writes a characteristic over an open connection.
fn run_write<B: BluetoothBackend>(
    backend: &mut B,
    conn: &Connection,
    service: &str,
    characteristic: &str,
    hex: &str,
) -> (r: Result<Vec<String>, CliError>)
    ensures
        final(backend).abilities() == old(backend).abilities(),
        write_ran(
            |
                s: B,
                k: Connection,
                u: Uuid,
                c: Uuid,
                d: Seq<u8>,
                g: Result<(), TransportError>,
                t: B,
            |
                exists|b: &mut B, data: &[u8]|
                    *b == s && *final(b) == t && data@ == d && #[trigger] call_ensures(
                        B::gatt_write,
                        (b, &k, u, c, data, true),
                        g,
                    ),
            *old(backend),
            *final(backend),
            *conn,
            service@,
            characteristic@,
            hex@,
            lines_view(r),
        ),
{
    let data = match parse_hex(hex) {
        Ok(data) => data,
        Err(e) => {
            return Err(e);
        },
    };
    let (s, c) = match parse_names(service, characteristic) {
        Ok(names) => names,
        Err(e) => {
            return Err(e);
        },
    };
    let ghost before = *backend;
    let got = backend.gatt_write(conn, s, c, data.as_slice(), true);
    proof {
        let writes =
            |
                s: B,
                k: Connection,
                u: Uuid,
                c: Uuid,
                d: Seq<u8>,
                g: Result<(), TransportError>,
                t: B,
            |
                exists|b: &mut B, data: &[u8]|
                    *b == s && *final(b) == t && data@ == d && #[trigger] call_ensures(
                        B::gatt_write,
                        (b, &k, u, c, data, true),
                        g,
                    );
        let names = names_read(service@, characteristic@)->Ok_0;
        let bytes = hex_bytes(hex@)->Ok_0;
        assert(writes(before, *conn, s, c, bytes, got, *backend));
        assert(written(writes, before, *backend, *conn, names, bytes, got));
    }
    match got {
        Ok(_) => {
            let mut t = "wrote ".to_owned();
            t.append(text::decimal_text(data.len() as u128).as_str());
            t.append(" byte(s)");
            close_link(backend, conn);
            Ok(one_line(t))
        },
        Err(e) => Err(CliError::Transport(e)),
    }
}

/// Watches a characteristic over an open connection.
fn run_watch<B: BluetoothBackend>(
    backend: &mut B,
    conn: &Connection,
    service: &str,
    characteristic: &str,
    count: usize,
) -> (r: Result<Vec<String>, CliError>)
    ensures
        final(backend).abilities() == old(backend).abilities(),
        watch_ran(
            |
                s: B,
                k: Connection,
                u: Uuid,
                c: Uuid,
                g: Result<Vec<(Uuid, Vec<u8>)>, TransportError>,
                t: B,
            |
                exists|b: &mut B|
                    *b == s && *final(b) == t && #[trigger] call_ensures(
                        B::gatt_subscribe,
                        (b, &k, u, c),
                        g,
                    ),
            *old(backend),
            *final(backend),
            *conn,
            service@,
            characteristic@,
            count,
            lines_view(r),
        ),
{
    let (s, c) = match parse_names(service, characteristic) {
        Ok(names) => names,
        Err(e) => {
            return Err(e);
        },
    };
    let ghost before = *backend;
    let got = backend.gatt_subscribe(conn, s, c);
    proof {
        let watches =
            |
                s: B,
                k: Connection,
                u: Uuid,
                c: Uuid,
                g: Result<Vec<(Uuid, Vec<u8>)>, TransportError>,
                t: B,
            |
                exists|b: &mut B|
                    *b == s && *final(b) == t && #[trigger] call_ensures(
                        B::gatt_subscribe,
                        (b, &k, u, c),
                        g,
                    );
        let names = names_read(service@, characteristic@)->Ok_0;
        assert(watches(before, *conn, s, c, got, *backend));
        assert(called(watches, before, *backend, *conn, names, got));
    }
    match got {
        Ok(notes) => {
            let lines = notification_lines(&notes, count);
            close_link(backend, conn);
            Ok(lines)
        },
        Err(e) => Err(CliError::Transport(e)),
    }
}

/// Runs an operation on a characteristic: the lines to print. The connection is opened
/// before anything else is read, and closed only where the operation went through.
pub fn gatt<B: BluetoothBackend>(backend: &mut B, op: &GattOp) -> (r: Result<Vec<String>, CliError>)
    ensures
        final(backend).abilities() == old(backend).abilities(),
        gatt_ran(
            |s: B, k: Connection, u: Uuid, c: Uuid, g: Result<Vec<u8>, TransportError>, t: B|
                exists|b: &mut B|
                    *b == s && *final(b) == t && #[trigger] call_ensures(
                        B::gatt_read,
                        (b, &k, u, c),
                        g,
                    ),
            |
                s: B,
                k: Connection,
                u: Uuid,
                c: Uuid,
                d: Seq<u8>,
                g: Result<(), TransportError>,
                t: B,
            |
                exists|b: &mut B, data: &[u8]|
                    *b == s && *final(b) == t && data@ == d && #[trigger] call_ensures(
                        B::gatt_write,
                        (b, &k, u, c, data, true),
                        g,
                    ),
            |
                s: B,
                k: Connection,
                u: Uuid,
                c: Uuid,
                g: Result<Vec<(Uuid, Vec<u8>)>, TransportError>,
                t: B,
            |
                exists|b: &mut B|
                    *b == s && *final(b) == t && #[trigger] call_ensures(
                        B::gatt_subscribe,
                        (b, &k, u, c),
                        g,
                    ),
            *old(backend),
            *final(backend),
            *op,
            lines_view(r),
        ),
{
    let addr: &String = match op {
        GattOp::Read { addr, .. } => addr,
        GattOp::Write { addr, .. } => addr,
        GattOp::Subscribe { addr, .. } => addr,
    };
    let link = open_link(backend, addr.as_str());
    assert(opened(*old(backend), *backend, op.target(), link));
    match link {
        Ok(conn) => match op {
            GattOp::Read { addr: _, service, characteristic } => run_read(
                backend,
                &conn,
                service.as_str(),
                characteristic.as_str(),
            ),
            GattOp::Write { addr: _, service, characteristic, hex } => run_write(
                backend,
                &conn,
                service.as_str(),
                characteristic.as_str(),
                hex.as_str(),
            ),
            GattOp::Subscribe { addr: _, service, characteristic, count } => run_watch(
                backend,
                &conn,
                service.as_str(),
                characteristic.as_str(),
                *count,
            ),
        },
        Err(e) => Err(e),
    }
}

/// What a change of the local address does: nothing where the address cannot be read or
/// the backend cannot change it, else one call, whose result decides. `changes` says what
/// a call may do.
pub open spec fn local_spoofed<B: BluetoothBackend>(
    changes: spec_fn(B, BdAddr, Result<(), TransportError>, B) -> bool,
    before: B,
    after: B,
    addr: Seq<char>,
    result: Result<BdAddr, CliErrorView>,
) -> bool {
    match identity(addr) {
        None => after == before && result == Err::<BdAddr, CliErrorView>(
            CliErrorView::Core(ErrorView::InvalidAddress(addr)),
        ),
        Some(id) => if !before.abilities().can_spoof_address {
            after == before && result == Err::<BdAddr, CliErrorView>(
                CliErrorView::NoSpoofing(before.abilities().kind),
            )
        } else {
            exists|change: Result<(), TransportError>|
                {
                    &&& #[trigger] changes(before, id.addr, change, after)
                    &&& result == match change {
                        Ok(_) => Ok::<BdAddr, CliErrorView>(id.addr),
                        Err(e) => Err(CliErrorView::Transport(e@)),
                    }
                }
        },
    }
}

/// What a change of the local address gave, as plain values.
pub open spec fn spoof_view(r: Result<BdAddr, CliError>) -> Result<BdAddr, CliErrorView> {
    match r {
        Ok(a) => Ok(a),
        Err(e) => Err(e@),
    }
}

/// Changes the local address to the one given.
pub fn spoof_local<B: BluetoothBackend>(backend: &mut B, addr: &str) -> (r: Result<
    BdAddr,
    CliError,
>)
    ensures
        final(backend).abilities() == old(backend).abilities(),
        local_spoofed(
            |s: B, a: BdAddr, r: Result<(), TransportError>, t: B|
                exists|b: &mut B|
                    *b == s && *final(b) == t && #[trigger] call_ensures(
                        B::set_local_address,
                        (b, a),
                        r,
                    ),
            *old(backend),
            *final(backend),
            addr@,
            spoof_view(r),
        ),
{
    let id: DeviceId = match parse_id(addr) {
        Ok(id) => id,
        Err(e) => {
            return Err(e);
        },
    };
    let caps = backend.capabilities();
    if !caps.can_spoof_address {
        return Err(CliError::NoSpoofing(caps.kind));
    }
    let change = backend.set_local_address(id.addr);
    proof {
        let changes =
            |s: B, a: BdAddr, r: Result<(), TransportError>, t: B|
                exists|b: &mut B|
                    *b == s && *final(b) == t && #[trigger] call_ensures(
                        B::set_local_address,
                        (b, a),
                        r,
                    );
        assert(changes(*old(backend), id.addr, change, *backend));
    }
    match change {
        Ok(_) => Ok(id.addr),
        Err(e) => Err(CliError::Transport(e)),
    }
}

/// The line for one device of a batch.
pub open spec fn item_shown(item: ItemView) -> Seq<char> {
    "  "@ + item.id.words() + " -> "@ + (match item.outcome {
        Ok(_) => "paired"@,
        Err(e) => "failed ("@ + e.message() + ")"@,
    }) + " ("@ + text::decimal(item.attempts as nat) + " attempt(s))"@
}

/// The line for one device of a batch.
pub fn item_line(item: &PairItem) -> (r: String)
    ensures
        r@ == item_shown(item@),
{
    let status = match &item.outcome {
        Ok(_) => "paired".to_owned(),
        Err(e) => {
            let mut t = "failed (".to_owned();
            t.append(e.to_string().as_str());
            t.append(")");
            t
        },
    };
    let mut t = "  ".to_owned();
    t.append(item.id.to_string().as_str());
    t.append(" -> ");
    t.append(status.as_str());
    t.append(" (");
    t.append(text::decimal_text(item.attempts as u128).as_str());
    t.append(" attempt(s))");
    t
}

/// The line for a single pairing.
pub fn paired_line(id: DeviceId, attempts: u32) -> (r: String)
    ensures
        r@ == "paired "@ + id.words() + " in "@ + text::decimal(attempts as nat)
            + " attempt(s)"@,
{
    let mut t = "paired ".to_owned();
    t.append(id.to_string().as_str());
    t.append(" in ");
    t.append(text::decimal_text(attempts as u128).as_str());
    t.append(" attempt(s)");
    t
}

/// The line for a sent file; `rate` is its throughput in whole bytes per second.
pub fn sent_line(receipt: &TransferReceipt, rate: &str) -> (r: String)
    ensures
        r@ == "sent "@ + receipt@.object_name + " ("@ + text::decimal(receipt@.bytes as nat)
            + " bytes) at "@ + rate@ + " B/s"@,
{
    let mut t = "sent ".to_owned();
    t.append(receipt.object_name.as_str());
    t.append(" (");
    t.append(text::decimal_text(receipt.bytes as u128).as_str());
    t.append(" bytes) at ");
    t.append(rate);
    t.append(" B/s");
    t
}

/// The lines for identities, each indented.
pub open spec fn id_lines(ids: Seq<DeviceId>) -> Seq<Seq<char>> {
    ids.map_values(|id: DeviceId| "  "@ + id.words())
}

/// The lines for the devices that bonded: how many, then each.
pub fn bonded_lines(ids: &Vec<DeviceId>) -> (r: Vec<String>)
    ensures
        text::texts(r@) == seq!["bonded "@ + text::decimal(ids@.len()) + " device(s):"@]
            + id_lines(ids@),
{
    let mut head = "bonded ".to_owned();
    head.append(text::decimal_text(ids.len() as u128).as_str());
    head.append(" device(s):");
    let ghost first = head@;
    let mut out = one_line(head);
    let mut i: usize = 0;
    assert(text::texts(out@) =~= seq![first] + id_lines(ids@.take(0)));
    while i < ids.len()
        invariant
            i <= ids@.len(),
            text::texts(out@) == seq![first] + id_lines(ids@.take(i as int)),
        decreases ids@.len() - i,
    {
        let mut t = "  ".to_owned();
        t.append(ids[i].to_string().as_str());
        let ghost shown = t@;
        let ghost before = out@;
        out.push(t);
        proof {
            assert(text::texts(out@) =~= text::texts(before).push(shown));
            assert(id_lines(ids@.take(i + 1)) =~= id_lines(ids@.take(i as int)).push(shown));
            assert(text::texts(out@) =~= seq![first] + id_lines(ids@.take(i + 1)));
        }
        i = i + 1;
    }
    assert(ids@.take(i as int) =~= ids@);
    out
}

/// The backend to use where none is chosen: a real one that is part of the build, BlueZ
/// before btleplug, else the mock.
pub fn default_backend(bluez: bool, btleplug: bool) -> (r: BackendKind)
    ensures
        r == if bluez {
            BackendKind::BlueZ
        } else if btleplug {
            BackendKind::Btleplug
        } else {
            BackendKind::Mock
        },
{
    if bluez {
        BackendKind::BlueZ
    } else if btleplug {
        BackendKind::Btleplug
    } else {
        BackendKind::Mock
    }
}

/// The phone of the demonstration.
pub open spec fn demo_phone() -> MockDeviceView {
    let plain = MockDeviceView::simple(
        DeviceId::at(BdAddr(0x11, 0x22, 0x33, 0x44, 0x55, 0x66)),
        "Demo Phone"@,
    );
    MockDeviceView {
        info: DeviceView {
            rssi: Some(-55i16),
            class: Some(ClassOfDevice(0x5A020C)),
            ..plain.info
        },
        gatt: seq![
            GattView {
                service: uuid::expanded(0x180A),
                characteristic: uuid::expanded(0x2A29),
                value: seq![0x41u8, 0x43, 0x4D, 0x45],
            },
        ],
        notifications: seq![
            GattView {
                service: uuid::expanded(0x180D),
                characteristic: uuid::expanded(0x2A37),
                value: seq![0x06u8, 72],
            },
        ],
        ..plain
    }
}

/// The headset of the demonstration.
pub open spec fn demo_headset() -> MockDeviceView {
    let plain = MockDeviceView::simple(
        DeviceId::at(BdAddr(0xAA, 0xBB, 0xCC, 0xDD, 0xEE, 0xFF)),
        "Demo Headset"@,
    );
    MockDeviceView { info: DeviceView { rssi: Some(-72i16), ..plain.info }, ..plain }
}

/// The builder of a mock with a few scripted devices, for demonstration.
pub fn demo_mock() -> (r: MockBackendBuilder)
    ensures
        r@ == (MockView {
            controller: ControllerView {
                manufacturer: CompanyId(0x0002),
                family: ChipsetFamily::Intel,
                model: "AX210"@,
            },
            devices: seq![demo_phone(), demo_headset()],
            ..mock_model::plain()
        }),
        r.reports_to() is None,
{
    let mut maker: Vec<u8> = Vec::new();
    maker.push(0x41);
    maker.push(0x43);
    maker.push(0x4D);
    maker.push(0x45);
    let mut rate: Vec<u8> = Vec::new();
    rate.push(0x06);
    rate.push(72);
    let phone = MockDevice::new(
        DeviceId::public(BdAddr(0x11, 0x22, 0x33, 0x44, 0x55, 0x66)),
        "Demo Phone",
    ).with_rssi(-55).with_class(ClassOfDevice::new(0x5A020C)).with_gatt(
        Uuid::from_u16(0x180A),
        Uuid::from_u16(0x2A29),
        maker,
    ).with_notification(Uuid::from_u16(0x180D), Uuid::from_u16(0x2A37), rate);
    assert(maker@ =~= seq![0x41u8, 0x43, 0x4D, 0x45]);
    assert(rate@ =~= seq![0x06u8, 72]);
    assert(phone@.gatt =~= demo_phone().gatt);
    assert(phone@.notifications =~= demo_phone().notifications);
    let headset = MockDevice::new(
        DeviceId::public(BdAddr(0xAA, 0xBB, 0xCC, 0xDD, 0xEE, 0xFF)),
        "Demo Headset",
    ).with_rssi(-72);
    let r = MockBackend::builder().controller(
        ControllerModel::new(CompanyId::intel(), ChipsetFamily::Intel, "AX210"),
    ).device(phone).device(headset);
    assert(r@.devices =~= seq![demo_phone(), demo_headset()]);
    r
}

} // verus!
