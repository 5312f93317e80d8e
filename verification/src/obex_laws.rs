//! What a receiver makes of an object push: the packets of a push, read header by header
//! as any OBEX peer reads them.
use vstd::prelude::*;
use crate::obex;
use crate::obex::{ObexError, ObexErrorView, ObexOppClient, ObexPut, PutView, Reading, Response};

verus! {

/// The number that bytes spell, most significant first.
pub open spec fn number_read(s: Seq<u8>) -> nat
    decreases s.len(),
{
    if s.len() == 0 {
        0
    } else {
        256 * number_read(s.drop_last()) + s.last() as nat
    }
}

/// How many bytes stand before the value of a header: the identifier, and for a value of
/// any length its length too. The top two bits of an identifier tell which.
pub open spec fn head_size(id: u8) -> nat {
    if id < 0x80 {
        3
    } else {
        1
    }
}

/// How many bytes the first header of `s` takes.
pub open spec fn header_size(s: Seq<u8>) -> nat {
    if s[0] < 0x80 {
        number_read(s.subrange(1, 3))
    } else if s[0] < 0xC0 {
        2
    } else {
        5
    }
}

/// The headers that bytes hold, as pairs of identifier and value; nothing where the bytes
/// are not a run of whole headers.
pub open spec fn headers_read(s: Seq<u8>) -> Option<Seq<(u8, Seq<u8>)>>
    decreases s.len(),
{
    if s.len() == 0 {
        Some(Seq::empty())
    } else if s.len() < head_size(s[0]) || header_size(s) < head_size(s[0]) || s.len()
        < header_size(s) {
        None
    } else {
        match headers_read(s.skip(header_size(s) as int)) {
            Some(rest) => Some(
                seq![(s[0], s.subrange(head_size(s[0]) as int, header_size(s) as int))] + rest,
            ),
            None => None,
        }
    }
}

/// The opcode and the headers of a packet, where its length is right and its headers are
/// whole.
pub open spec fn packet_read(s: Seq<u8>) -> Option<(u8, Seq<(u8, Seq<u8>)>)> {
    if s.len() < 3 || number_read(s.subrange(1, 3)) != s.len() {
        None
    } else {
        match headers_read(s.skip(3)) {
            Some(headers) => Some((s[0], headers)),
            None => None,
        }
    }
}

/// The values of the headers with an identifier, in order.
pub open spec fn values_of(headers: Seq<(u8, Seq<u8>)>, id: u8) -> Seq<Seq<u8>>
    decreases headers.len(),
{
    if headers.len() == 0 {
        Seq::empty()
    } else if headers[0].0 == id {
        seq![headers[0].1] + values_of(headers.drop_first(), id)
    } else {
        values_of(headers.drop_first(), id)
    }
}

/// What the Body and End-of-Body headers of a packet hold, one behind the other.
pub open spec fn body_read(headers: Seq<(u8, Seq<u8>)>) -> Seq<u8>
    decreases headers.len(),
{
    if headers.len() == 0 {
        Seq::empty()
    } else if headers[0].0 == 0x48 || headers[0].0 == 0x49 {
        headers[0].1 + body_read(headers.drop_first())
    } else {
        body_read(headers.drop_first())
    }
}

/// What a receiver has gathered after a run of packets.
pub open spec fn received(packets: Seq<Seq<u8>>) -> Seq<u8>
    decreases packets.len(),
{
    if packets.len() == 0 {
        Seq::empty()
    } else {
        (match packet_read(packets[0]) {
            Some(p) => body_read(p.1),
            None => Seq::empty(),
        }) + received(packets.drop_first())
    }
}

/// The packets that a push sends to a peer that acknowledges each of them.
pub open spec fn packets_sent(p: PutView) -> Seq<Seq<u8>>
    decreases p.data.len() - p.offset, if p.done { 0int } else { 1int },
{
    if !p.ok() || p.done {
        Seq::empty()
    } else {
        seq![p.next_packet()] + packets_sent(p.acknowledged())
    }
}

/// Whether every packet of a push can carry its own length: that and the name leave room.
pub open spec fn sendable(p: PutView) -> bool {
    p.ok() && p.max <= 0xFFFF && p.name.len() + 15 <= 0xFFFF
}

proof fn two_bytes(s: Seq<u8>)
    requires
        s.len() == 2,
    ensures
        number_read(s) == 256 * s[0] + s[1],
{
    reveal_with_fuel(number_read, 3);
}

proof fn four_bytes(s: Seq<u8>)
    requires
        s.len() == 4,
    ensures
        number_read(s) == 0x100_0000 * s[0] + 0x1_0000 * s[1] + 0x100 * s[2] + s[3],
{
    reveal_with_fuel(number_read, 5);
}

/// A 32-bit number reads back from its four bytes.
pub proof fn length_reads_back(n: nat)
    requires
        n < 0x1_0000_0000,
    ensures
        number_read(obex::be32(n)) == n,
{
    let s = obex::be32(n);
    four_bytes(s);
    let a = n / 0x100;
    let b = n / 0x1_0000;
    let c = n / 0x100_0000;
    assert(n == 0x100 * a + n % 256);
    assert(b == a / 0x100 && a == 0x100 * b + a % 256);
    assert(c == b / 0x100 && b == 0x100 * c + b % 256);
    assert(c < 256);
}

/// The values of three headers with different identifiers.
proof fn values_of_three(a: (u8, Seq<u8>), b: (u8, Seq<u8>), c: (u8, Seq<u8>))
    requires
        a.0 != b.0 && b.0 != c.0 && a.0 != c.0,
    ensures
        values_of(seq![a, b, c], a.0) == seq![a.1],
        values_of(seq![a, b, c], b.0) == seq![b.1],
{
    let read = seq![a, b, c];
    let second = read.drop_first();
    let third = second.drop_first();
    assert(second =~= seq![b, c]);
    assert(third =~= seq![c]);
    assert(third.drop_first().len() == 0);
    assert(values_of(third, a.0).len() == 0 && values_of(third, b.0).len() == 0) by {
        reveal_with_fuel(values_of, 2);
    }
    assert(second[0] == b);
    assert(values_of(second, a.0) == values_of(third, a.0));
    assert(values_of(second, b.0) =~= seq![b.1]);
    assert(values_of(read, a.0) =~= seq![a.1]);
    assert(values_of(read, b.0) == values_of(second, b.0));
}

/// A header of any length at the start of some bytes reads back.
proof fn long_header_reads(id: u8, value: Seq<u8>, rest: Seq<u8>)
    requires
        id < 0x80,
        value.len() + 3 <= 0xFFFF,
    ensures
        ({
            let s = seq![id] + obex::be16(3 + value.len()) + value + rest;
            headers_read(s) == match headers_read(rest) {
                Some(h) => Some(seq![(id, value)] + h),
                None => None,
            }
        }),
{
    let n = 3 + value.len();
    let s = seq![id] + obex::be16(n) + value + rest;
    assert(s.subrange(1, 3) =~= obex::be16(n));
    two_bytes(s.subrange(1, 3));
    assert(header_size(s) == n);
    assert(s.skip(n as int) =~= rest);
    assert(s.subrange(3, n as int) =~= value);
}

/// What a receiver reads of the body at the end of a packet.
proof fn body_header_reads(hi: u8, chunk: Seq<u8>)
    requires
        hi < 0x80,
        chunk.len() + 3 <= 0xFFFF,
    ensures
        headers_read(seq![hi] + obex::be16(3 + chunk.len()) + chunk) == Some(seq![(hi, chunk)]),
{
    let tail = seq![hi] + obex::be16(3 + chunk.len()) + chunk;
    let none = Seq::<u8>::empty();
    assert(tail =~= tail + none);
    long_header_reads(hi, chunk, none);
    assert(headers_read(none) == Some(Seq::<(u8, Seq<u8>)>::empty()));
    assert(seq![(hi, chunk)] + Seq::<(u8, Seq<u8>)>::empty() =~= seq![(hi, chunk)]);
}

/// What a receiver reads of a name, a length and what follows.
proof fn description_reads(name: Seq<u8>, length: Seq<u8>, tail: Seq<u8>)
    requires
        name.len() + 3 <= 0xFFFF,
        length.len() == 4,
        headers_read(tail) is Some,
    ensures
        headers_read(
            seq![0x01u8] + obex::be16(3 + name.len()) + name + (seq![0xC3u8] + length + tail),
        ) == Some(seq![(0x01u8, name), (0xC3u8, length)] + headers_read(tail)->0),
{
    let middle = seq![0xC3u8] + length + tail;
    let after = headers_read(tail)->0;
    assert(middle.skip(5) =~= tail);
    assert(middle.subrange(1, 5) =~= length);
    assert(headers_read(middle) == Some(seq![(0xC3u8, length)] + after));
    long_header_reads(0x01, name, middle);
    assert(seq![(0x01u8, name)] + (seq![(0xC3u8, length)] + after) =~= seq![
        (0x01u8, name),
        (0xC3u8, length),
    ] + after);
}

/// A packet with whole headers reads back.
proof fn framed_packet_reads(op: u8, headers: Seq<u8>)
    requires
        headers.len() + 3 <= 0xFFFF,
        headers_read(headers) is Some,
    ensures
        packet_read(obex::packet(op, headers)) == Some((op, headers_read(headers)->0)),
{
    let s = obex::packet(op, headers);
    assert(s.skip(3) =~= headers);
    assert(s.subrange(1, 3) =~= obex::be16(3 + headers.len()));
    two_bytes(s.subrange(1, 3));
}

/// What a receiver reads of one packet of a push.
proof fn packet_reads_back(p: PutView)
    requires
        sendable(p),
    ensures
        p.next_packet().len() == p.overhead() + p.take(),
        ({
            let body = (
                if p.last() {
                    0x49u8
                } else {
                    0x48u8
                },
                p.data.subrange(p.offset as int, (p.offset + p.take()) as int),
            );
            packet_read(p.next_packet()) == Some(
                (
                    if p.last() {
                        0x82u8
                    } else {
                        0x02u8
                    },
                    if p.first {
                        seq![(0x01u8, p.name), (0xC3u8, obex::be32(p.data.len())), body]
                    } else {
                        seq![body]
                    },
                ),
            )
        }),
{
    let hi: u8 = if p.last() {
        0x49
    } else {
        0x48
    };
    let op: u8 = if p.last() {
        0x82
    } else {
        0x02
    };
    let chunk = p.chunk();
    let tail = seq![hi] + obex::be16(3 + chunk.len()) + chunk;
    let headers = p.headers();
    assert(chunk.len() == p.take());
    body_header_reads(hi, chunk);
    if p.first {
        let length = obex::be32(p.data.len());
        description_reads(p.name, length, tail);
        assert(headers =~= seq![0x01u8] + obex::be16(3 + p.name.len()) + p.name + (seq![0xC3u8]
            + length + tail));
        assert(seq![(0x01u8, p.name), (0xC3u8, length)] + seq![(hi, chunk)] =~= seq![
            (0x01u8, p.name),
            (0xC3u8, length),
            (hi, chunk),
        ]);
    } else {
        assert(headers =~= tail);
    }
    assert(headers.len() + 3 == p.overhead() + p.take());
    framed_packet_reads(op, headers);
    assert(p.next_packet() == obex::packet(op, headers));
}

/// What a receiver gathers from the packets still to come is the rest of the object.
proof fn rest_is_received(p: PutView)
    requires
        sendable(p),
        !p.done,
    ensures
        packets_sent(p).len() >= 1,
        packets_sent(p)[0] == p.next_packet(),
        received(packets_sent(p)) == p.data.skip(p.offset as int),
    decreases p.data.len() - p.offset, if p.done { 0int } else { 1int },
{
    let sent = packets_sent(p);
    let rest = packets_sent(p.acknowledged());
    let chunk = p.data.subrange(p.offset as int, (p.offset + p.take()) as int);
    packet_reads_back(p);
    assert(sent.drop_first() =~= rest);
    reveal_with_fuel(body_read, 4);
    let read = (packet_read(sent[0])->0).1;
    assert(body_read(read) =~= chunk) by {
        if p.first {
            let second = read.drop_first();
            let third = second.drop_first();
            assert(third.drop_first().len() == 0);
            assert(body_read(third) =~= chunk);
            assert(body_read(second) == body_read(third));
        } else {
            assert(read.drop_first().len() == 0);
        }
    }
    assert(received(sent) == chunk + received(rest));
    if p.last() {
        assert(rest.len() == 0);
        assert(received(rest).len() == 0);
        assert(p.offset + p.take() == p.data.len());
    } else {
        rest_is_received(p.acknowledged());
    }
    assert(received(sent) =~= p.data.skip(p.offset as int));
}

/// A receiver gets the whole object: what the Body headers of all packets of a push hold,
/// one behind the other, is the object, and the first packet names it.
pub proof fn receiver_gets_the_object(p: PutView)
    requires
        sendable(p),
        p.first,
        p.offset == 0,
        !p.done,
    ensures
        received(packets_sent(p)) == p.data,
        packet_read(packets_sent(p)[0]) is Some,
        values_of((packet_read(packets_sent(p)[0])->0).1, 0x01) == seq![p.name],
{
    rest_is_received(p);
    assert(p.data.skip(0) =~= p.data);
    packet_reads_back(p);
    let read = (packet_read(p.next_packet())->0).1;
    values_of_three(read[0], read[1], read[2]);
}

/// The Length header tells the truth: the first packet of a push has exactly one, of four
/// bytes, and the number they spell is how many bytes the receiver gets from all packets.
pub proof fn announced_length_is_received(p: PutView)
    requires
        sendable(p),
        p.first,
        p.offset == 0,
        !p.done,
        p.data.len() < 0x1_0000_0000,
    ensures
        packet_read(packets_sent(p)[0]) is Some,
        ({
            let lengths = values_of((packet_read(packets_sent(p)[0])->0).1, 0xC3);
            &&& lengths.len() == 1
            &&& lengths[0].len() == 4
            &&& number_read(lengths[0]) == received(packets_sent(p)).len()
        }),
{
    receiver_gets_the_object(p);
    rest_is_received(p);
    packet_reads_back(p);
    let read = (packet_read(p.next_packet())->0).1;
    values_of_three(read[0], read[1], read[2]);
    length_reads_back(p.data.len());
}

/// Objects of different size announce different lengths.
pub proof fn different_sizes_announce_differently(p: PutView, q: PutView)
    requires
        sendable(p),
        sendable(q),
        p.first && p.offset == 0 && !p.done,
        q.first && q.offset == 0 && !q.done,
        p.data.len() < 0x1_0000_0000,
        q.data.len() < 0x1_0000_0000,
        p.data.len() != q.data.len(),
    ensures
        values_of((packet_read(packets_sent(p)[0])->0).1, 0xC3) != values_of(
            (packet_read(packets_sent(q)[0])->0).1,
            0xC3,
        ),
{
    announced_length_is_received(p);
    announced_length_is_received(q);
    receiver_gets_the_object(p);
    receiver_gets_the_object(q);
}

/// Only the first packet describes the object, only the last one is final, and the peer
/// owes Success to the last and Continue to every other. Every packet before the last is
/// as long as the packet size allows.
pub proof fn packets_are_well_formed(p: PutView, i: int)
    requires
        sendable(p),
        !p.done,
        0 <= i < packets_sent(p).len(),
    ensures
        packet_read(packets_sent(p)[i]) is Some,
        ({
            let sent = packets_sent(p);
            let read = packet_read(sent[i])->0;
            let final_one = i == sent.len() - 1;
            let body = read.1.last();
            &&& read.0 == if final_one {
                0x82u8
            } else {
                0x02u8
            }
            &&& read.1.len() == if i == 0 && p.first {
                3nat
            } else {
                1nat
            }
            &&& body.0 == if final_one {
                0x49u8
            } else {
                0x48u8
            }
            &&& !final_one ==> body.1.len() >= 1
            &&& !final_one && (i > 0 || !p.first) ==> sent[i].len() == if p.max > 6 {
                p.max
            } else {
                7
            }
            &&& !final_one && i == 0 && p.first ==> sent[i].len() == if p.max > p.name.len() + 14 {
                p.max
            } else {
                p.name.len() + 15
            }
            &&& i == 0 ==> p.expected() == if final_one {
                0xA0u8
            } else {
                0x90u8
            }
        }),
    decreases p.data.len() - p.offset, if p.done { 0int } else { 1int },
{
    let sent = packets_sent(p);
    let next = p.acknowledged();
    let rest = packets_sent(next);
    packet_reads_back(p);
    if p.last() {
        assert(rest.len() == 0);
    } else {
        rest_is_received(next);
        if i > 0 {
            packets_are_well_formed(next, i - 1);
            assert(sent[i] == rest[i - 1]);
        }
    }
}

/// The code points that big-endian UTF-16 spells.
pub open spec fn text_read(s: Seq<u8>) -> Seq<nat>
    decreases s.len(),
{
    if s.len() < 2 {
        Seq::empty()
    } else {
        let unit = number_read(s.subrange(0, 2));
        if 0xD800 <= unit < 0xDC00 && s.len() >= 4 {
            let low = number_read(s.subrange(2, 4));
            seq![(0x1_0000 + 0x400 * (unit - 0xD800) + (low - 0xDC00)) as nat] + text_read(
                s.skip(4),
            )
        } else {
            seq![unit] + text_read(s.skip(2))
        }
    }
}

proof fn character_reads_back(c: char, rest: Seq<u8>)
    ensures
        text_read(obex::utf16_char(c) + rest) == seq![(c as u32) as nat] + text_read(rest),
{
    let v = (c as u32) as nat;
    let s = obex::utf16_char(c) + rest;
    two_bytes(s.subrange(0, 2));
    if v < 0x1_0000 {
        assert(s.skip(2) =~= rest);
    } else {
        let left = (v - 0x1_0000) as nat;
        two_bytes(s.subrange(2, 4));
        assert(left / 0x400 < 0x400);
        assert(s.subrange(0, 2) =~= obex::be16(0xD800 + left / 0x400));
        assert(s.subrange(2, 4) =~= obex::be16(0xDC00 + left % 0x400));
        assert(s.skip(4) =~= rest);
    }
}

proof fn first_character(s: Seq<char>)
    requires
        s.len() > 0,
    ensures
        obex::utf16(s) == obex::utf16_char(s[0]) + obex::utf16(s.drop_first()),
    decreases s.len(),
{
    if s.len() == 1 {
        reveal_with_fuel(obex::utf16, 2);
        assert(obex::utf16(s) =~= obex::utf16_char(s[0]) + obex::utf16(s.drop_first()));
    } else {
        first_character(s.drop_last());
        assert(s.drop_last().drop_first() =~= s.drop_first().drop_last());
        assert(obex::utf16(s) =~= obex::utf16_char(s[0]) + obex::utf16(s.drop_first()));
    }
}

/// A receiver reads the object's name back, character by character, followed by the
/// terminator; so two names are told apart.
pub proof fn name_reads_back(name: Seq<char>)
    ensures
        text_read(obex::name_payload(name)) == name.map_values(|c: char| (c as u32) as nat).push(0),
    decreases name.len(),
{
    let payload = obex::name_payload(name);
    if name.len() == 0 {
        reveal_with_fuel(text_read, 2);
        two_bytes(payload.subrange(0, 2));
        assert(text_read(payload) =~= seq![0nat]);
        assert(name.map_values(|c: char| (c as u32) as nat).push(0) =~= seq![0nat]);
    } else {
        let rest = name.drop_first();
        first_character(name);
        name_reads_back(rest);
        assert(payload =~= obex::utf16_char(name[0]) + obex::name_payload(rest));
        character_reads_back(name[0], obex::name_payload(rest));
        assert(name.map_values(|c: char| (c as u32) as nat).push(0) =~= seq![
            (name[0] as u32) as nat,
        ] + rest.map_values(|c: char| (c as u32) as nat).push(0));
    }
}

/// Starting a push on a client puts the whole object under its name, with nothing sent,
/// in packets of the smaller of what the peer takes and 8192 bytes.
pub proof fn push_starts_whole(client: ObexOppClient, name: &str, data: &[u8], put: ObexPut<'_>)
    requires
        call_ensures(ObexOppClient::put_file, (&client, name, data), put),
    ensures
        put@.data == data@,
        text_read(put@.name) == name@.map_values(|c: char| (c as u32) as nat).push(0),
        put@.first && put@.offset == 0 && !put@.done,
        put@.max == if client.peer_max_packet < 8192 {
            client.peer_max_packet as int
        } else {
            8192
        },
{
    name_reads_back(name@);
}

/// A peer that accepts a session gets packets as large as it says in the last two of the
/// first four bytes of its answer, but never fewer than 255 bytes; one that answers anything
/// but Success is refused with the code it gave.
pub proof fn session_follows_the_answer(
    resp: Response,
    r: Result<ObexOppClient, ObexError>,
)
    requires
        call_ensures(ObexOppClient::connect, (&resp,), r),
    ensures
        r is Ok <==> resp.code == 0xA0,
        r is Err ==> r->Err_0@ == (ObexErrorView::Rejected {
            stage: "connect"@,
            code: resp.code,
        }),
        r is Ok ==> r->Ok_0.peer_max_packet >= 255,
        r is Ok && resp.body@.len() < 4 ==> r->Ok_0.peer_max_packet == 255,
        r is Ok && resp.body@.len() >= 4 && number_read(resp.body@.subrange(2, 4)) >= 255
            ==> r->Ok_0.peer_max_packet == number_read(resp.body@.subrange(2, 4)),
        r is Ok && resp.body@.len() >= 4 && number_read(resp.body@.subrange(2, 4)) < 255
            ==> r->Ok_0.peer_max_packet == 255,
{
    if resp.body@.len() >= 4 {
        two_bytes(resp.body@.subrange(2, 4));
    }
}

/// A response reads back from its bytes, whatever follows it, and takes exactly those; no
/// shorter start of it is enough.
pub proof fn response_reads_back(code: u8, body: Seq<u8>, input: &[u8], n: int, r: Reading)
    requires
        body.len() + 3 <= 0xFFFF,
        0 <= n <= input@.len(),
        input@.len() >= body.len() + 3 ==> input@.take(3 + body.len() as int) == obex::packet(
            code,
            body,
        ),
        input@.len() < body.len() + 3 ==> input@ == obex::packet(code, body).take(
            input@.len() as int,
        ),
        call_ensures(obex::read_response, (input,), r),
    ensures
        input@.len() < body.len() + 3 ==> r is Incomplete,
        input@.len() >= body.len() + 3 ==> (r matches Reading::Complete(resp, used) && resp.code
            == code && resp.body@ == body && used == body.len() + 3),
{
    let whole = obex::packet(code, body);
    let size = 3 + body.len();
    if input@.len() >= 3 {
        assert(whole[1] == obex::be16(size)[0] && whole[2] == obex::be16(size)[1]);
        if input@.len() >= size {
            assert(input@.take(size as int)[0] == input@[0]);
            assert(input@.take(size as int)[1] == input@[1]);
            assert(input@.take(size as int)[2] == input@[2]);
            assert(input@.subrange(3, size as int) =~= whole.skip(3));
            assert(whole.skip(3) =~= body);
        }
        assert(input@[1] == whole[1] && input@[2] == whole[2]);
        assert(obex::from_be16(whole[1], whole[2]) == size);
    }
}

/// Closing a session goes well exactly on Success.
pub proof fn session_closes_on_success(
    client: ObexOppClient,
    resp: Response,
    r: Result<(), ObexError>,
)
    requires
        call_ensures(ObexOppClient::disconnect, (client, &resp), r),
    ensures
        r is Ok <==> resp.code == 0xA0,
        r is Err ==> r->Err_0@ == (ObexErrorView::Rejected {
            stage: "disconnect"@,
            code: resp.code,
        }),
{
}

/// A push moves on by what the packet carried exactly on the answer that the packet needs:
/// Continue, or Success for the last; any other answer leaves it where it was, with the code
/// as the refusal.
pub proof fn push_moves_on_the_right_answer(
    before: ObexPut<'_>,
    after: ObexPut<'_>,
    resp: Response,
    r: Result<u64, ObexError>,
)
    requires
        before@.ok(),
        exists|p: &mut ObexPut<'_>|
            *p == before && *final(p) == after && #[trigger] call_ensures(
                ObexPut::on_response,
                (p, &resp),
                r,
            ),
    ensures
        ({
            let taken = before@.take();
            let at_end = before@.offset + taken >= before@.data.len();
            &&& r is Ok <==> resp.code == if at_end {
                0xA0u8
            } else {
                0x90u8
            }
            &&& (r matches Ok(sent) ==> sent == before@.offset + taken && after@.offset == sent
                && !after@.first && after@.done == at_end && after@.data == before@.data)
            &&& (r matches Err(e) ==> after@ == before@ && e@ == (ObexErrorView::Rejected {
                stage: "put"@,
                code: resp.code,
            }))
        }),
{
}

} // verus!
