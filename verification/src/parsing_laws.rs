//! What texts are read as, and which are not: addresses, UUIDs and payloads in terms of
//! their characters.
use vstd::prelude::*;
use crate::address;
use crate::address::BdAddr;
use crate::backend::{BackendKind, BluetoothBackend, Connection};
use crate::batch::ItemView;
use crate::cli;
use crate::cli::{CliErrorView, GattOp};
use crate::error::ErrorView;
use crate::text;
use crate::transport_error::TransportError;
use crate::uuid;
use crate::uuid::Uuid;

verus! {

/// Whether a text is two hexadecimal digits, in either case.
pub open spec fn is_pair(t: Seq<char>) -> bool {
    t.len() == 2 && text::digit_value(t[0], 16) is Some && text::digit_value(t[1], 16) is Some
}

/// The number that two hexadecimal digits spell.
pub open spec fn pair_number(t: Seq<char>) -> nat {
    16 * text::digit_value(t[0], 16)->0 + text::digit_value(t[1], 16)->0
}

proof fn pair_reads(t: Seq<char>)
    requires
        t.len() == 2,
    ensures
        text::digits_value(t, 16) is Some <==> is_pair(t),
        is_pair(t) ==> text::digits_value(t, 16) == Some(pair_number(t)) && pair_number(t) < 256,
{
    reveal_with_fuel(text::digits_value, 3);
    assert(t.drop_last().drop_last() =~= Seq::<char>::empty());
    assert(t.drop_last().last() == t[0]);
}

/// The parts of a text, cut at its colons, or where it has none at its dashes.
pub open spec fn parts_of(s: Seq<char>) -> Seq<Seq<char>> {
    if s.contains(':') {
        text::split(s, ':')
    } else {
        text::split(s, '-')
    }
}

/// A text is an address exactly where, cut at its colons, or where it has none at its dashes,
/// it has six parts, and each is two hexadecimal digits between blanks; the octets are what
/// the pairs spell, in order.
pub proof fn address_is_six_pairs(s: Seq<char>)
    ensures
        ({
            let parts = parts_of(s);
            &&& address::parsed(s) is Some <==> parts.len() == 6 && forall|i: int|
                0 <= i < 6 ==> is_pair(text::trim(#[trigger] parts[i]))
            &&& (address::parsed(s) matches Some(o) ==> o.len() == 6 && forall|i: int|
                0 <= i < 6 ==> #[trigger] o[i] == pair_number(text::trim(parts[i])))
        }),
{
    let parts = parts_of(s);
    if !s.contains(':') && !s.contains('-') {
        text::split_whole(s, '-');
    }
    assert forall|i: int| 0 <= i < parts.len() implies (address::octet(#[trigger] parts[i]) is Some
        <==> is_pair(text::trim(parts[i]))) && (is_pair(text::trim(parts[i])) ==> address::octet(
        parts[i],
    ) == Some(pair_number(text::trim(parts[i]))) && pair_number(text::trim(parts[i])) < 256) by {
        let t = text::trim(parts[i]);
        if t.len() == 2 {
            pair_reads(t);
        }
    }
    if address::parsed(s) is Some {
        assert forall|i: int| 0 <= i < 6 implies is_pair(text::trim(#[trigger] parts[i])) by {
            assert(address::octet(parts[i]) is Some);
        }
        let o = address::parsed(s)->0;
        assert forall|i: int| 0 <= i < 6 implies #[trigger] o[i] == pair_number(
            text::trim(parts[i]),
        ) by {
            assert(address::octet(parts[i]) == Some(pair_number(text::trim(parts[i]))));
        }
    }
    if parts.len() == 6 && forall|i: int|
        0 <= i < 6 ==> is_pair(text::trim(#[trigger] parts[i])) {
        assert forall|i: int| 0 <= i < 6 implies address::octet(#[trigger] parts[i]) is Some by {
            assert(is_pair(text::trim(parts[i])));
        }
        assert(s.contains(':') || s.contains('-'));
    }
}

/// Whether every character is a hexadecimal digit.
pub open spec fn all_digits(t: Seq<char>) -> bool {
    forall|i: int| 0 <= i < t.len() ==> text::digit_value(#[trigger] t[i], 16) is Some
}

proof fn digits_read(t: Seq<char>)
    ensures
        text::digits_value(t, 16) is Some <==> all_digits(t),
    decreases t.len(),
{
    if t.len() > 0 {
        let front = t.drop_last();
        digits_read(front);
        if all_digits(t) {
            assert forall|i: int| 0 <= i < front.len() implies text::digit_value(
                #[trigger] front[i],
                16,
            ) is Some by {
                assert(front[i] == t[i]);
            }
            assert(text::digit_value(t[t.len() - 1], 16) is Some);
        }
        if text::digits_value(t, 16) is Some {
            assert forall|i: int| 0 <= i < t.len() implies text::digit_value(
                #[trigger] t[i],
                16,
            ) is Some by {
                if i < front.len() {
                    assert(front[i] == t[i]);
                }
            }
        }
    }
}

/// A text is a UUID exactly where, without its dashes, it is 4, 8 or 32 hexadecimal digits;
/// 32 are its bytes pair by pair, and fewer a short form, whose last bytes are those of the
/// Bluetooth base.
pub proof fn uuid_is_its_digits(s: Seq<char>)
    ensures
        ({
            let t = s.filter(|c: char| c != '-');
            &&& uuid::parsed(s) is Some <==> all_digits(t) && (t.len() == 4 || t.len() == 8
                || t.len() == 32)
            &&& (uuid::parsed(s) matches Some(u) ==> u.len() == 16)
            &&& (uuid::parsed(s) matches Some(u) ==> (t.len() == 32 ==> forall|i: int|
                0 <= i < 16 ==> #[trigger] u[i] == pair_number(t.subrange(2 * i, 2 * i + 2))))
            &&& (uuid::parsed(s) matches Some(u) ==> (t.len() < 32 ==> u.subrange(4, 16) == seq![
                0u8,
                0u8,
                0x10u8,
                0u8,
                0x80u8,
                0u8,
                0u8,
                0x80u8,
                0x5Fu8,
                0x9Bu8,
                0x34u8,
                0xFBu8,
            ]))
        }),
{
    let t = uuid::stripped(s);
    assert(t == s.filter(|c: char| c != '-'));
    digits_read(t);
    assert forall|i: int| 0 <= i && 2 * i + 2 <= t.len() implies (#[trigger] uuid::byte_at(t, i)
        is Some <==> text::digit_value(t[2 * i], 16) is Some && text::digit_value(t[2 * i + 1], 16)
        is Some) && (uuid::byte_at(t, i) is Some ==> uuid::byte_at(t, i) == Some(
        pair_number(t.subrange(2 * i, 2 * i + 2)),
    ) && pair_number(t.subrange(2 * i, 2 * i + 2)) < 256) by {
        let two = t.subrange(2 * i, 2 * i + 2);
        pair_reads(two);
        assert(two[0] == t[2 * i] && two[1] == t[2 * i + 1]);
    }
    if t.len() == 32 {
        if all_digits(t) {
            assert forall|i: int| 0 <= i < 16 implies #[trigger] uuid::byte_at(t, i) is Some by {
                assert(text::digit_value(t[2 * i], 16) is Some);
                assert(text::digit_value(t[2 * i + 1], 16) is Some);
            }
        }
        if uuid::parsed(s) is Some {
            assert forall|i: int| 0 <= i < 32 implies text::digit_value(#[trigger] t[i], 16)
                is Some by {
                assert(uuid::byte_at(t, i / 2) is Some);
            }
            let u = uuid::parsed(s)->0;
            assert forall|i: int| 0 <= i < 16 implies #[trigger] u[i] == pair_number(
                t.subrange(2 * i, 2 * i + 2),
            ) by {
                assert(uuid::byte_at(t, i) is Some);
            }
        }
    } else if let Some(u) = uuid::parsed(s) {
        assert(u.subrange(4, 16) =~= uuid::base_tail());
    }
}

/// Blanks and colons in a payload do not count, wherever they stand.
pub proof fn separators_do_not_count(a: Seq<char>, c: char, b: Seq<char>)
    requires
        text::is_blank(c) || c == ':',
    ensures
        cli::hex_bytes(a.push(c) + b) == cli::hex_bytes(a + b),
{
    let keep = |x: char| !text::is_blank(x) && x != ':';
    Seq::filter_distributes_over_add(a.push(c), b, keep);
    Seq::filter_distributes_over_add(a, b, keep);
    assert(a.push(c).filter(keep) == a.filter(keep)) by {
        reveal(Seq::filter);
        assert(a.push(c).drop_last() =~= a);
    }
}

/// A payload that reads is its digits pair by pair: half as many bytes as there are digits,
/// and nothing else but blanks and colons in it.
pub proof fn payload_is_its_pairs(s: Seq<char>)
    ensures
        ({
            let t = s.filter(|c: char| !text::is_blank(c) && c != ':');
            &&& (cli::hex_bytes(s) matches Ok(v) ==> 2 * v.len() == t.len() && all_digits(t)
                && forall|i: int|
                0 <= i < v.len() ==> #[trigger] v[i] == pair_number(t.subrange(2 * i, 2 * i + 2)))
            &&& (cli::hex_bytes(s) matches Err(e) ==> e is OddHex || e is BadHex)
            &&& !all_digits(t) ==> cli::hex_bytes(s) is Err
        }),
{
    let t = cli::digits_kept(s);
    assert(t == s.filter(|c: char| !text::is_blank(c) && c != ':'));
    assert forall|i: int| 0 <= i && 2 * i + 2 <= t.len() implies (#[trigger] cli::pair_value(t, i)
        is Some ==> text::digit_value(t[2 * i], 16) is Some && text::digit_value(t[2 * i + 1], 16)
        is Some && cli::pair_value(t, i) == Some(pair_number(t.subrange(2 * i, 2 * i + 2)))
        && pair_number(t.subrange(2 * i, 2 * i + 2)) < 256) by {
        let two = t.subrange(2 * i, 2 * i + 2);
        pair_reads(two);
        assert(two[0] == t[2 * i] && two[1] == t[2 * i + 1]);
    }
    if let Ok(v) = cli::hex_bytes(s) {
        assert forall|i: int| 0 <= i < t.len() implies text::digit_value(#[trigger] t[i], 16)
            is Some by {
            assert(cli::pair_value(t, i / 2) is Some);
        }
        assert forall|i: int| 0 <= i < v.len() implies #[trigger] v[i] == pair_number(
            t.subrange(2 * i, 2 * i + 2),
        ) by {
            assert(cli::pair_value(t, i) is Some);
        }
    }
}

/// A value is shown byte by byte: two upper case digits each, in order, a comma and a blank
/// between them, in brackets behind its name.
pub proof fn value_shows_each_byte(name: Seq<char>, v: Seq<u8>, i: int)
    requires
        0 <= i < v.len(),
    ensures
        ({
            let s = cli::value_shown(name, v);
            let at = name.len() + 4 + 4 * i;
            &&& s.len() == name.len() + 3 + 4 * v.len()
            &&& name.is_prefix_of(s)
            &&& s.subrange(at, at + 2) == text::byte_upper(v[i])
            &&& i + 1 < v.len() ==> s[at + 2] == ',' && s[at + 3] == ' '
        }),
{
    reveal_strlit(" = ");
    reveal_strlit("[");
    reveal_strlit("]");
    bytes_between_commas(v, i);
    let list = cli::comma_bytes(v);
    let s = cli::value_shown(name, v);
    let at = name.len() + 4 + 4 * i;
    assert(s.take(name.len() as int) =~= name);
    assert(s.subrange(at, at + 2) =~= list.subrange(4 * i, 4 * i + 2));
    if i + 1 < v.len() {
        assert(s[at + 2] == list[4 * i + 2] && s[at + 3] == list[4 * i + 3]);
    }
}

proof fn bytes_between_commas(v: Seq<u8>, i: int)
    requires
        0 <= i < v.len(),
    ensures
        ({
            let s = cli::comma_bytes(v);
            &&& s.len() == 4 * v.len() - 2
            &&& s.subrange(4 * i, 4 * i + 2) == text::byte_upper(v[i])
            &&& i + 1 < v.len() ==> s[4 * i + 2] == ',' && s[4 * i + 3] == ' '
        }),
    decreases v.len(),
{
    reveal_strlit(", ");
    let s = cli::comma_bytes(v);
    if v.len() == 1 {
        assert(s.subrange(0, 2) =~= text::byte_upper(v[0]));
    } else {
        let front = v.drop_last();
        let t = cli::comma_bytes(front);
        bytes_between_commas(front, front.len() - 1);
        if i < front.len() {
            bytes_between_commas(front, i);
            assert(s.subrange(4 * i, 4 * i + 2) =~= t.subrange(4 * i, 4 * i + 2));
            if i + 1 < front.len() {
                assert(s[4 * i + 2] == t[4 * i + 2] && s[4 * i + 3] == t[4 * i + 3]);
            }
        } else {
            assert(s.subrange(4 * i, 4 * i + 2) =~= text::byte_upper(v[i]));
        }
    }
}

/// The notifications shown are the first ones, as many as asked for or as there are.
pub proof fn first_notifications_are_shown(notes: Seq<(Seq<u8>, Seq<u8>)>, count: usize)
    ensures
        ({
            let shown = cli::notes_shown(notes, count);
            &&& shown.is_prefix_of(notes)
            &&& shown.len() == if notes.len() < count {
                notes.len()
            } else {
                count as nat
            }
        }),
{
    let shown = cli::notes_shown(notes, count);
    assert(shown =~= notes.take(shown.len() as int));
}

/// Names of a characteristic are both read or the first that cannot be is the error, the
/// service's before the characteristic's.
pub proof fn names_are_read_in_order(service: Seq<char>, characteristic: Seq<char>)
    ensures
        match cli::names_read(service, characteristic) {
            Ok(names) => uuid::parsed(service) == Some(names.0) && uuid::parsed(characteristic)
                == Some(names.1),
            Err(e) => e == CliErrorView::Core(
                uuid::unreadable(
                    if uuid::parsed(service) is None {
                        service
                    } else {
                        characteristic
                    },
                ),
            ) && (uuid::parsed(service) is None || uuid::parsed(characteristic) is None),
        },
{
}

/// The identity that an address spells is public and has the octets that the text spells.
pub proof fn identity_is_public(s: Seq<char>)
    ensures
        cli::identity(s) is Some <==> address::parsed(s) is Some,
        cli::identity(s) matches Some(id) ==> id.addr_type is Public && address::parsed(s) == Some(
            id.addr@,
        ),
{
    address_is_six_pairs(s);
    if let Some(o) = address::parsed(s) {
        assert(cli::identity(s)->0.addr@ =~= o);
    }
}

/// Without a choice a real backend of the build is taken, BlueZ before btleplug; the mock only
/// where there is none.
pub proof fn real_backend_is_preferred(bluez: bool, btleplug: bool, r: BackendKind)
    requires
        call_ensures(cli::default_backend, (bluez, btleplug), r),
    ensures
        r is BlueZ <==> bluez,
        r is Btleplug <==> !bluez && btleplug,
        r is Mock <==> !bluez && !btleplug,
{
}

/// An operation on a characteristic of an unreadable address is refused with the address and
/// calls nothing.
pub proof fn unreadable_address_calls_nothing<B: BluetoothBackend>(
    reads: spec_fn(B, Connection, Uuid, Uuid, Result<Vec<u8>, TransportError>, B) -> bool,
    writes: spec_fn(B, Connection, Uuid, Uuid, Seq<u8>, Result<(), TransportError>, B) -> bool,
    watches: spec_fn(
        B,
        Connection,
        Uuid,
        Uuid,
        Result<Vec<(Uuid, Vec<u8>)>, TransportError>,
        B,
    ) -> bool,
    before: B,
    after: B,
    op: GattOp,
    result: Result<Seq<Seq<char>>, CliErrorView>,
)
    requires
        cli::gatt_ran(reads, writes, watches, before, after, op, result),
        address::parsed(op.target()) is None,
    ensures
        after == before,
        result == Err::<Seq<Seq<char>>, CliErrorView>(
            CliErrorView::Core(ErrorView::InvalidAddress(op.target())),
        ),
{
}

/// A payload or a name that cannot be read writes nothing over an open connection, and the
/// payload is looked at first.
pub proof fn unreadable_payload_writes_nothing<B: BluetoothBackend>(
    writes: spec_fn(B, Connection, Uuid, Uuid, Seq<u8>, Result<(), TransportError>, B) -> bool,
    before: B,
    after: B,
    conn: Connection,
    service: Seq<char>,
    characteristic: Seq<char>,
    hex: Seq<char>,
    result: Result<Seq<Seq<char>>, CliErrorView>,
)
    requires
        cli::write_ran(writes, before, after, conn, service, characteristic, hex, result),
    ensures
        cli::hex_bytes(hex) matches Err(e) ==> after == before && result == Err::<
            Seq<Seq<char>>,
            CliErrorView,
        >(e),
        cli::hex_bytes(hex) is Ok && (uuid::parsed(service) is None || uuid::parsed(characteristic)
            is None) ==> after == before && result is Err && result->Err_0 is Core,
{
}

/// The local address is changed by one call to what the text spells, and only where it spells
/// one and the backend can.
pub proof fn local_address_is_what_was_given<B: BluetoothBackend>(
    changes: spec_fn(B, BdAddr, Result<(), TransportError>, B) -> bool,
    before: B,
    after: B,
    addr: Seq<char>,
    result: Result<BdAddr, CliErrorView>,
)
    requires
        cli::local_spoofed(changes, before, after, addr, result),
    ensures
        result matches Ok(a) ==> address::parsed(addr) == Some(a@)
            && before.abilities().can_spoof_address,
        address::parsed(addr) is None ==> after == before && result is Err,
        address::parsed(addr) is Some && !before.abilities().can_spoof_address ==> after == before
            && result == Err::<BdAddr, CliErrorView>(
            CliErrorView::NoSpoofing(before.abilities().kind),
        ),
{
    identity_is_public(addr);
}

/// The line for a device of a batch says whose it is, whether it was paired, why it was not,
/// and in how many rounds it was tried.
pub proof fn item_line_tells_the_outcome(item: ItemView)
    ensures
        ({
            let s = cli::item_shown(item);
            let head = "  "@ + item.id.words() + " -> "@;
            let tail = " ("@ + text::decimal(item.attempts as nat) + " attempt(s))"@;
            &&& item.outcome is Ok ==> s == head + "paired"@ + tail
            &&& (item.outcome matches Err(e) ==> s == head + ("failed ("@ + e.message() + ")"@)
                + tail)
        }),
{
    let head = "  "@ + item.id.words() + " -> "@;
    let tail = " ("@ + text::decimal(item.attempts as nat) + " attempt(s))"@;
    if let Err(e) = item.outcome {
        assert(cli::item_shown(item) =~= head + ("failed ("@ + e.message() + ")"@) + tail);
    } else {
        assert(cli::item_shown(item) =~= head + "paired"@ + tail);
    }
}

} // verus!
