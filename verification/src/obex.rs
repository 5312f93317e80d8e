//! OBEX Object Push, packet by packet: what to send, and what each response means.
use vstd::prelude::*;
use crate::text;

verus! {

/// The request opcode CONNECT.
pub const OP_CONNECT: u8 = 0x80;

/// The request opcode DISCONNECT.
pub const OP_DISCONNECT: u8 = 0x81;

/// The request opcode PUT.
pub const OP_PUT: u8 = 0x02;

/// The request opcode PUT with the final bit.
pub const OP_PUT_FINAL: u8 = 0x82;

/// The response code Continue.
pub const RESP_CONTINUE: u8 = 0x90;

/// The response code Success.
pub const RESP_SUCCESS: u8 = 0xA0;

/// The header Name.
pub const HI_NAME: u8 = 0x01;

/// The header Body.
pub const HI_BODY: u8 = 0x48;

/// The header End-of-Body.
pub const HI_END_OF_BODY: u8 = 0x49;

/// The header Length.
pub const HI_LENGTH: u8 = 0xC3;

/// The protocol version.
pub const OBEX_VERSION: u8 = 0x10;

/// The largest packet that this client takes.
pub const OUR_MAX_PACKET: u16 = 0x2000;

/// The smallest packet size that a peer is taken to accept.
pub const LEAST_MAX_PACKET: u16 = 255;

/// A failed exchange.
#[derive(Debug)]
pub enum ObexError {
    /// The link failed.
    Io(String),
    /// The peer refused a step.
    Rejected {
        /// The step.
        stage: &'static str,
        /// The peer's response code.
        code: u8,
    },
    /// A response was malformed.
    Malformed(&'static str),
}

/// What an [`ObexError`] says.
pub enum ObexErrorView {
    Io(Seq<char>),
    Rejected { stage: Seq<char>, code: u8 },
    Malformed(Seq<char>),
}

impl View for ObexError {
    type V = ObexErrorView;

    open spec fn view(&self) -> ObexErrorView {
        match self {
            ObexError::Io(e) => ObexErrorView::Io(e@),
            ObexError::Rejected { stage, code } => ObexErrorView::Rejected {
                stage: stage@,
                code: *code,
            },
            ObexError::Malformed(w) => ObexErrorView::Malformed(w@),
        }
    }
}

impl ObexErrorView {
    /// The message shown for an error.
    pub open spec fn message(self) -> Seq<char> {
        match self {
            ObexErrorView::Io(e) => "obex i/o: "@ + e,
            ObexErrorView::Rejected { stage, code } => "obex "@ + stage + " rejected with code 0x"@
                + text::byte_upper(code),
            ObexErrorView::Malformed(w) => "malformed obex response: "@ + w,
        }
    }
}

impl ObexError {
    /// The message shown for the error.
    pub fn to_string(&self) -> (r: String)
        ensures
            r@ == self@.message(),
    {
        match self {
            ObexError::Io(e) => {
                let mut t = "obex i/o: ".to_owned();
                t.append(e.as_str());
                t
            },
            ObexError::Rejected { stage, code } => {
                let mut t = "obex ".to_owned();
                t.append(stage);
                t.append(" rejected with code 0x");
                t.append(text::byte_text(*code, true).as_str());
                t
            },
            ObexError::Malformed(w) => {
                let mut t = "malformed obex response: ".to_owned();
                t.append(w);
                t
            },
        }
    }
}

/// A 16-bit number as two bytes, most significant first; longer numbers lose their top.
pub open spec fn be16(v: nat) -> Seq<u8> {
    seq![(v / 256 % 256) as u8, (v % 256) as u8]
}

/// A 32-bit number as four bytes, most significant first; longer numbers lose their top.
pub open spec fn be32(v: nat) -> Seq<u8> {
    seq![
        (v / 0x100_0000 % 256) as u8,
        (v / 0x1_0000 % 256) as u8,
        (v / 0x100 % 256) as u8,
        (v % 256) as u8,
    ]
}

/// The 16-bit number that two bytes spell, most significant first.
pub open spec fn from_be16(high: u8, low: u8) -> u16 {
    (256 * high + low) as u16
}

/// The bytes of a character in big-endian UTF-16: one unit, or a surrogate pair.
pub open spec fn utf16_char(c: char) -> Seq<u8> {
    let v = (c as u32) as nat;
    if v < 0x1_0000 {
        be16(v)
    } else {
        let rest = (v - 0x1_0000) as nat;
        be16(0xD800 + rest / 0x400) + be16(0xDC00 + rest % 0x400)
    }
}

/// The bytes of a text in big-endian UTF-16.
pub open spec fn utf16(s: Seq<char>) -> Seq<u8>
    decreases s.len(),
{
    if s.len() == 0 {
        Seq::empty()
    } else {
        utf16(s.drop_last()) + utf16_char(s.last())
    }
}

/// The payload of a Name header: UTF-16 and a terminator.
pub open spec fn name_payload(name: Seq<char>) -> Seq<u8> {
    utf16(name) + seq![0u8, 0u8]
}

/// A packet: its opcode, its length and what it carries.
pub open spec fn packet(op: u8, rest: Seq<u8>) -> Seq<u8> {
    seq![op] + be16(3 + rest.len()) + rest
}

fn push_be16(out: &mut Vec<u8>, v: u128)
    ensures
        final(out)@ == old(out)@ + be16(v as nat),
{
    let ghost before = out@;
    out.push((v / 256 % 256) as u8);
    out.push((v % 256) as u8);
    assert(out@ =~= before + be16(v as nat));
}

/// The payload of a Name header: big-endian UTF-16 and a terminator.
pub fn name_to_utf16(name: &str) -> (r: Vec<u8>)
    ensures
        r@ == name_payload(name@),
{
    let chars = text::chars_of(name);
    let mut out: Vec<u8> = Vec::new();
    let mut i: usize = 0;
    assert(name@.take(0) =~= Seq::empty());
    while i < chars.len()
        invariant
            i <= chars@.len(),
            chars@ == name@,
            out@ == utf16(name@.take(i as int)),
        decreases chars@.len() - i,
    {
        let ghost before = out@;
        assert(name@.take(i + 1).drop_last() =~= name@.take(i as int));
        let c: char = chars[i];
        let v: u32 = c as u32;
        if v < 0x1_0000 {
            push_be16(&mut out, v as u128);
        } else {
            let rest: u32 = v - 0x1_0000;
            let high: u128 = 0xD800 + (rest / 0x400) as u128;
            let low: u128 = 0xDC00 + (rest % 0x400) as u128;
            push_be16(&mut out, high);
            push_be16(&mut out, low);
            assert(out@ =~= before + (be16(high as nat) + be16(low as nat)));
        }
        i = i + 1;
    }
    assert(name@.take(i as int) =~= name@);
    out.push(0);
    out.push(0);
    assert(out@ =~= name_payload(name@));
    out
}

/// A packet made of an opcode and what it carries, with its length filled in.
pub fn put_len(op: u8, rest: &[u8]) -> (r: Vec<u8>)
    ensures
        r@ == packet(op, rest@),
{
    let mut out: Vec<u8> = Vec::new();
    out.push(op);
    push_be16(&mut out, 3 + rest.len() as u128);
    out.extend_from_slice(rest);
    assert(out@ =~= packet(op, rest@));
    out
}

/// A response: its code and what follows the three bytes of its head.
#[derive(Debug)]
pub struct Response {
    /// The response code.
    pub code: u8,
    /// What follows the head.
    pub body: Vec<u8>,
}

/// What reading a response came to.
#[derive(Debug)]
pub enum Reading {
    /// More bytes are needed.
    Incomplete,
    /// No response can start like this.
    Bad(ObexError),
    /// A response, and how many bytes it took.
    Complete(Response, usize),
}

/// Reads one response from the start of the given bytes.
pub fn read_response(input: &[u8]) -> (r: Reading)
    ensures
        if input@.len() < 3 {
            r is Incomplete
        } else if from_be16(input@[1], input@[2]) < 3 {
            r matches Reading::Bad(e) && e@ == ObexErrorView::Malformed("length < 3"@)
        } else if input@.len() < from_be16(input@[1], input@[2]) {
            r is Incomplete
        } else {
            r matches Reading::Complete(resp, used) && used == from_be16(input@[1], input@[2])
                && resp.code == input@[0] && resp.body@ == input@.subrange(3, used as int)
        },
{
    if input.len() < 3 {
        return Reading::Incomplete;
    }
    let code: u8 = input[0];
    let len: usize = 256 * (input[1] as usize) + input[2] as usize;
    if len < 3 {
        return Reading::Bad(ObexError::Malformed("length < 3"));
    }
    if input.len() < len {
        return Reading::Incomplete;
    }
    let mut body: Vec<u8> = Vec::new();
    let mut i: usize = 3;
    while i < len
        invariant
            3 <= i <= len <= input@.len(),
            body@ == input@.subrange(3, i as int),
        decreases len - i,
    {
        body.push(input[i]);
        i = i + 1;
    }
    Reading::Complete(Response { code, body }, len)
}

/// The refusal of a step.
pub open spec fn refused(stage: Seq<char>, code: u8) -> ObexErrorView {
    ObexErrorView::Rejected { stage, code }
}

/// The packet size that a peer announces in its answer to CONNECT, at least the floor.
pub open spec fn announced(body: Seq<u8>) -> u16 {
    let asked = if body.len() >= 4 {
        from_be16(body[2], body[3])
    } else {
        LEAST_MAX_PACKET
    };
    if asked < LEAST_MAX_PACKET {
        LEAST_MAX_PACKET
    } else {
        asked
    }
}

/// An Object Push client that the peer has accepted.
#[derive(Clone, Copy, Debug)]
pub struct ObexOppClient {
    /// The largest packet that the peer takes.
    pub peer_max_packet: u16,
}

impl ObexOppClient {
    /// The packet size in force.
    pub open spec fn limit(self) -> nat {
        if self.peer_max_packet < OUR_MAX_PACKET {
            self.peer_max_packet as nat
        } else {
            OUR_MAX_PACKET as nat
        }
    }

    /// The CONNECT packet.
    pub fn connect_packet() -> (r: Vec<u8>)
        ensures
            r@ == packet(
                OP_CONNECT,
                seq![OBEX_VERSION, 0u8] + be16(OUR_MAX_PACKET as nat),
            ),
            r@ == seq![0x80u8, 0, 7, 0x10, 0, 0x20, 0],
    {
        let mut body: Vec<u8> = Vec::new();
        body.push(OBEX_VERSION);
        body.push(0);
        push_be16(&mut body, OUR_MAX_PACKET as u128);
        assert(body@ =~= seq![OBEX_VERSION, 0u8] + be16(OUR_MAX_PACKET as nat));
        let r = put_len(OP_CONNECT, body.as_slice());
        assert(r@ =~= seq![0x80u8, 0, 7, 0x10, 0, 0x20, 0]);
        r
    }

    /// Takes in the answer to CONNECT.
    pub fn connect(resp: &Response) -> (r: Result<ObexOppClient, ObexError>)
        ensures
            match r {
                Ok(client) => resp.code == RESP_SUCCESS && client.peer_max_packet == announced(
                    resp.body@,
                ),
                Err(e) => resp.code != RESP_SUCCESS && e@ == refused("connect"@, resp.code),
            },
    {
        if resp.code != RESP_SUCCESS {
            return Err(ObexError::Rejected { stage: "connect", code: resp.code });
        }
        let asked: u16 = if resp.body.len() >= 4 {
            256 * (resp.body[2] as u16) + resp.body[3] as u16
        } else {
            LEAST_MAX_PACKET
        };
        let peer_max_packet: u16 = if asked < LEAST_MAX_PACKET {
            LEAST_MAX_PACKET
        } else {
            asked
        };
        Ok(ObexOppClient { peer_max_packet })
    }

    /// The packet size in force: the smaller of both sides'.
    pub fn max_packet(&self) -> (r: usize)
        ensures
            r == self.limit(),
    {
        if self.peer_max_packet < OUR_MAX_PACKET {
            self.peer_max_packet as usize
        } else {
            OUR_MAX_PACKET as usize
        }
    }

    /// Starts to push an object.
    pub fn put_file<'a>(&self, name: &str, data: &'a [u8]) -> (r: ObexPut<'a>)
        ensures
            r@ == (PutView {
                name: name_payload(name@),
                data: data@,
                max: self.limit(),
                offset: 0,
                first: true,
                done: false,
            }),
    {
        ObexPut {
            name: name_to_utf16(name),
            data,
            max: self.max_packet(),
            offset: 0,
            first: true,
            done: false,
        }
    }

    /// The DISCONNECT packet.
    pub fn disconnect_packet() -> (r: Vec<u8>)
        ensures
            r@ == packet(OP_DISCONNECT, Seq::empty()),
            r@ == seq![0x81u8, 0, 3],
    {
        let none: Vec<u8> = Vec::new();
        let r = put_len(OP_DISCONNECT, none.as_slice());
        assert(r@ =~= seq![0x81u8, 0, 3]);
        r
    }

    /// Takes in the answer to DISCONNECT.
    pub fn disconnect(self, resp: &Response) -> (r: Result<(), ObexError>)
        ensures
            match r {
                Ok(_) => resp.code == RESP_SUCCESS,
                Err(e) => resp.code != RESP_SUCCESS && e@ == refused("disconnect"@, resp.code),
            },
    {
        if resp.code != RESP_SUCCESS {
            return Err(ObexError::Rejected { stage: "disconnect", code: resp.code });
        }
        Ok(())
    }
}

/// The state of a push.
#[verifier::ext_equal]
pub struct PutView {
    pub name: Seq<u8>,
    pub data: Seq<u8>,
    pub max: nat,
    pub offset: nat,
    pub first: bool,
    pub done: bool,
}

impl PutView {
    /// The bytes of a packet that are not payload: its head and the body's head, and in
    /// the first packet the name and the length too.
    pub open spec fn overhead(self) -> nat {
        if self.first {
            (6 + (3 + self.name.len()) + 5) as nat
        } else {
            6
        }
    }

    /// How many payload bytes the next packet may carry: at least one.
    pub open spec fn capacity(self) -> nat {
        if self.max > self.overhead() {
            (self.max - self.overhead()) as nat
        } else {
            1
        }
    }

    /// How many payload bytes the next packet carries.
    pub open spec fn take(self) -> nat {
        let left = (self.data.len() - self.offset) as nat;
        if left < self.capacity() {
            left
        } else {
            self.capacity()
        }
    }

    /// Whether the next packet is the last.
    pub open spec fn last(self) -> bool {
        self.offset + self.take() >= self.data.len()
    }

    /// The payload of the next packet.
    pub open spec fn chunk(self) -> Seq<u8> {
        self.data.subrange(self.offset as int, (self.offset + self.take()) as int)
    }

    /// The headers that describe the object, in the first packet only.
    pub open spec fn description(self) -> Seq<u8> {
        if self.first {
            seq![HI_NAME] + be16(3 + self.name.len()) + self.name + seq![HI_LENGTH] + be32(
                self.data.len(),
            )
        } else {
            Seq::empty()
        }
    }

    /// The headers of the next packet.
    pub open spec fn headers(self) -> Seq<u8> {
        let hi = if self.last() {
            HI_END_OF_BODY
        } else {
            HI_BODY
        };
        self.description() + seq![hi] + be16(3 + self.take()) + self.chunk()
    }

    /// The next packet: only the last one carries the final bit.
    pub open spec fn next_packet(self) -> Seq<u8> {
        packet(
            if self.last() {
                OP_PUT_FINAL
            } else {
                OP_PUT
            },
            self.headers(),
        )
    }

    /// The response that the next packet needs.
    pub open spec fn expected(self) -> u8 {
        if self.last() {
            RESP_SUCCESS
        } else {
            RESP_CONTINUE
        }
    }

    /// The state after the next packet was acknowledged.
    pub open spec fn acknowledged(self) -> PutView {
        PutView {
            offset: self.offset + self.take(),
            first: false,
            done: self.last(),
            ..self
        }
    }

    /// Whether the state is one that a push can be in.
    pub open spec fn ok(self) -> bool {
        self.offset <= self.data.len()
    }
}

/// Appends a part of some bytes.
fn push_part(out: &mut Vec<u8>, data: &[u8], from: usize, to: usize)
    requires
        from <= to <= data@.len(),
    ensures
        final(out)@ == old(out)@ + data@.subrange(from as int, to as int),
{
    let ghost before = out@;
    let mut i: usize = from;
    assert(out@ =~= before + data@.subrange(from as int, from as int));
    while i < to
        invariant
            from <= i <= to <= data@.len(),
            out@ == before + data@.subrange(from as int, i as int),
        decreases to - i,
    {
        out.push(data[i]);
        assert(data@.subrange(from as int, i + 1) =~= data@.subrange(from as int, i as int).push(
            data@[i as int],
        ));
        assert(out@ =~= before + data@.subrange(from as int, i + 1));
        i = i + 1;
    }
}

/// A push under way: asks for packets to be sent, one at a time.
#[derive(Debug)]
pub struct ObexPut<'a> {
    /// The payload of the Name header.
    pub name: Vec<u8>,
    /// The object.
    pub data: &'a [u8],
    /// The packet size in force.
    pub max: usize,
    /// How much was acknowledged.
    pub offset: usize,
    /// Whether nothing was sent yet.
    pub first: bool,
    /// Whether everything was acknowledged.
    pub done: bool,
}

impl<'a> View for ObexPut<'a> {
    type V = PutView;

    open spec fn view(&self) -> PutView {
        PutView {
            name: self.name@,
            data: self.data@,
            max: self.max as nat,
            offset: self.offset as nat,
            first: self.first,
            done: self.done,
        }
    }
}

impl<'a> ObexPut<'a> {
    /// How many payload bytes the next packet carries.
    fn take(&self) -> (r: usize)
        requires
            self@.ok(),
        ensures
            r == self@.take(),
    {
        let overhead: usize = if self.first {
            self.name.len().saturating_add(14)
        } else {
            6
        };
        let capacity: usize = if self.max > overhead {
            self.max - overhead
        } else {
            1
        };
        let left: usize = self.data.len() - self.offset;
        if left < capacity {
            left
        } else {
            capacity
        }
    }

    /// Whether everything was acknowledged.
    pub fn is_done(&self) -> (r: bool)
        ensures
            r == self@.done,
    {
        self.done
    }

    /// The headers that describe the object.
    fn description(&self) -> (r: Vec<u8>)
        ensures
            r@ == self@.description(),
    {
        let mut rest: Vec<u8> = Vec::new();
        if self.first {
            rest.push(HI_NAME);
            push_be16(&mut rest, 3 + self.name.len() as u128);
            rest.extend_from_slice(self.name.as_slice());
            rest.push(HI_LENGTH);
            let total: u64 = self.data.len() as u64;
            rest.push((total / 0x100_0000 % 256) as u8);
            rest.push((total / 0x1_0000 % 256) as u8);
            rest.push((total / 0x100 % 256) as u8);
            rest.push((total % 256) as u8);
        }
        assert(rest@ =~= self@.description());
        rest
    }

    /// The next packet to send.
    pub fn next_packet(&self) -> (r: Vec<u8>)
        requires
            self@.ok(),
        ensures
            r@ == self@.next_packet(),
    {
        let take: usize = self.take();
        let is_last: bool = take >= self.data.len() - self.offset;
        assert(is_last == self@.last());
        let mut rest = self.description();
        rest.push(
            if is_last {
                HI_END_OF_BODY
            } else {
                HI_BODY
            },
        );
        push_be16(&mut rest, 3 + take as u128);
        let ghost headed = rest@;
        assert(headed =~= self@.description() + seq![
            if self@.last() {
                HI_END_OF_BODY
            } else {
                HI_BODY
            },
        ] + be16(3 + self@.take()));
        let end: usize = self.offset + take;
        push_part(&mut rest, self.data, self.offset, end);
        assert(rest@ =~= self@.headers());
        put_len(
            if is_last {
                OP_PUT_FINAL
            } else {
                OP_PUT
            },
            rest.as_slice(),
        )
    }

    /// Takes in the response to the packet: the bytes acknowledged so far, or the
    /// refusal.
    pub fn on_response(&mut self, resp: &Response) -> (r: Result<u64, ObexError>)
        requires
            old(self)@.ok(),
        ensures
            final(self)@.ok(),
            match r {
                Ok(sent) => {
                    &&& resp.code == old(self)@.expected()
                    &&& final(self)@ == old(self)@.acknowledged()
                    &&& sent == final(self)@.offset
                },
                Err(e) => {
                    &&& resp.code != old(self)@.expected()
                    &&& final(self)@ == old(self)@
                    &&& e@ == refused("put"@, resp.code)
                },
            },
    {
        let take: usize = self.take();
        let is_last: bool = take >= self.data.len() - self.offset;
        let expected: u8 = if is_last {
            RESP_SUCCESS
        } else {
            RESP_CONTINUE
        };
        if resp.code != expected {
            return Err(ObexError::Rejected { stage: "put", code: resp.code });
        }
        self.offset = self.offset + take;
        self.first = false;
        self.done = is_last;
        Ok(self.offset as u64)
    }
}

/// The payloads of all packets still to come, one behind the other.
pub open spec fn payloads(p: PutView) -> Seq<u8>
    decreases p.data.len() - p.offset, if p.done { 0int } else { 1int },
{
    if !p.ok() || p.done {
        Seq::empty()
    } else if p.last() {
        p.chunk()
    } else {
        p.chunk() + payloads(p.acknowledged())
    }
}

/// How many packets are still to come.
pub open spec fn packets_left(p: PutView) -> nat
    decreases p.data.len() - p.offset, if p.done { 0int } else { 1int },
{
    if !p.ok() || p.done {
        0
    } else if p.last() {
        1
    } else {
        1 + packets_left(p.acknowledged())
    }
}

/// The payloads of a push are the object, whole and in order.
pub proof fn payloads_are_the_object(p: PutView)
    requires
        p.ok(),
        !p.done,
    ensures
        payloads(p) == p.data.skip(p.offset as int),
    decreases p.data.len() - p.offset,
{
    if p.last() {
        assert(payloads(p) =~= p.data.skip(p.offset as int));
    } else {
        payloads_are_the_object(p.acknowledged());
        assert(p.chunk() + p.data.skip((p.offset + p.take()) as int) =~= p.data.skip(
            p.offset as int,
        ));
    }
}

/// A packet carries its own length, and stays within the packet size wherever that has
/// room for its headers and a byte of payload.
pub proof fn packets_fit(p: PutView)
    requires
        p.ok(),
        p.overhead() < p.max <= u16::MAX,
    ensures
        p.next_packet().len() <= p.max,
        from_be16(p.next_packet()[1], p.next_packet()[2]) == p.next_packet().len(),
{
    let n = 3 + p.headers().len();
    assert(p.next_packet().len() == n);
    assert(p.next_packet()[1] == be16(n)[0]);
    assert(p.next_packet()[2] == be16(n)[1]);
}

/// Every acknowledgement but the last moves a push on; the last one brings it to the end
/// of the object and finishes it.
pub proof fn progress_reaches_the_end(p: PutView)
    requires
        p.ok(),
        !p.done,
    ensures
        p.last() ==> p.acknowledged().offset == p.data.len() && p.acknowledged().done,
        !p.last() ==> p.offset < p.acknowledged().offset < p.data.len()
            && !p.acknowledged().done && p.acknowledged().ok(),
        packets_left(p) >= 1,
        packets_left(p.acknowledged()) == packets_left(p) - 1,
{
}

} // verus!
