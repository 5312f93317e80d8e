//! Pushing an object over a serial link to a phone, packet by packet.
use vstd::prelude::*;
use crate::event::{KindView, TransitEventKind};
use crate::live;
use crate::live::PushReport;
use crate::obex;
use crate::obex::{ObexError, ObexErrorView, ObexOppClient, ObexPut, PutView, Response};
use crate::text;
use crate::transport_error::{TransportError, TransportErrorView};

verus! {

/// The service that takes objects, as its full UUID.
pub fn object_push_service() -> (r: &'static str)
    ensures
        r@ == "00001105-0000-1000-8000-00805f9b34fb"@,
{
    "00001105-0000-1000-8000-00805f9b34fb"
}

/// How far a session has come.
#[derive(Debug)]
pub enum Stage<'a> {
    /// The peer is yet to accept the session.
    Connecting,
    /// The object is on its way.
    Putting(ObexOppClient, ObexPut<'a>),
    /// The object has arrived; the session is yet to be closed.
    Leaving(ObexOppClient),
    /// The session is over.
    Finished,
}

/// What a [`Stage`] says.
pub enum StageView {
    Connecting,
    Putting(PutView),
    Leaving,
    Finished,
}

impl<'a> View for Stage<'a> {
    type V = StageView;

    open spec fn view(&self) -> StageView {
        match self {
            Stage::Connecting => StageView::Connecting,
            Stage::Putting(_, put) => StageView::Putting(put@),
            Stage::Leaving(_) => StageView::Leaving,
            Stage::Finished => StageView::Finished,
        }
    }
}

/// A session that pushes one object.
#[derive(Debug)]
pub struct PhonePush<'a> {
    /// The object's name.
    pub name: String,
    /// The object.
    pub data: &'a [u8],
    /// How far the session has come.
    pub stage: Stage<'a>,
    /// What was reported of the transfer.
    pub report: PushReport,
}

/// What a [`PhonePush`] holds.
pub struct PhoneView {
    pub name: Seq<char>,
    pub data: Seq<u8>,
    pub stage: StageView,
    pub report: PushReport,
}

impl<'a> View for PhonePush<'a> {
    type V = PhoneView;

    open spec fn view(&self) -> PhoneView {
        PhoneView {
            name: self.name@,
            data: self.data@,
            stage: self.stage@,
            report: self.report,
        }
    }
}

/// The error for a session that broke down after so many bytes.
pub open spec fn breakdown(error: ObexErrorView, transferred: u64) -> TransportErrorView {
    match error {
        ObexErrorView::Rejected { code, .. } => TransportErrorView::TransferFailed {
            transferred,
            reason: "OBEX rejected (0x"@ + text::byte_upper(code) + ")"@,
        },
        other => TransportErrorView::Backend("obex: "@ + other.message()),
    }
}

/// The first state of a push that the peer has accepted with this packet size.
pub open spec fn begun(name: Seq<char>, data: Seq<u8>, peer_max_packet: u16) -> PutView {
    PutView {
        name: obex::name_payload(name),
        data,
        max: (ObexOppClient { peer_max_packet }).limit(),
        offset: 0,
        first: true,
        done: false,
    }
}

impl PhoneView {
    /// What holds of every session: the report tells what was acknowledged.
    pub open spec fn ok(self) -> bool {
        &&& self.report.total == self.data.len()
        &&& self.report.chunks <= self.report.last
        &&& match self.stage {
            StageView::Connecting => self.report.last == 0,
            StageView::Putting(put) => {
                &&& put.ok()
                &&& !put.done
                &&& put.data == self.data
                &&& put.offset == self.report.last
            },
            StageView::Leaving => self.report.last == self.data.len(),
            StageView::Finished => true,
        }
    }

    /// The packet to send next, if any.
    pub open spec fn request(self) -> Option<Seq<u8>> {
        match self.stage {
            StageView::Connecting => Some(
                obex::packet(
                    obex::OP_CONNECT,
                    seq![obex::OBEX_VERSION, 0u8] + obex::be16(obex::OUR_MAX_PACKET as nat),
                ),
            ),
            StageView::Putting(put) => Some(put.next_packet()),
            StageView::Leaving => Some(obex::packet(obex::OP_DISCONNECT, Seq::empty())),
            StageView::Finished => None,
        }
    }

    /// The response code that moves the session on.
    pub open spec fn awaited(self) -> u8 {
        match self.stage {
            StageView::Putting(put) => put.expected(),
            _ => obex::RESP_SUCCESS,
        }
    }

    /// The step that a refusal names.
    pub open spec fn step_name(self) -> Seq<char> {
        match self.stage {
            StageView::Connecting => "connect"@,
            StageView::Putting(_) => "put"@,
            _ => "disconnect"@,
        }
    }

    /// The session after the awaited response.
    pub open spec fn advanced(self, body: Seq<u8>) -> PhoneView {
        match self.stage {
            StageView::Connecting => PhoneView {
                stage: StageView::Putting(begun(self.name, self.data, obex::announced(body))),
                ..self
            },
            StageView::Putting(put) => PhoneView {
                stage: if put.last() {
                    StageView::Leaving
                } else {
                    StageView::Putting(put.acknowledged())
                },
                report: self.report.heard(put.acknowledged().offset as u64),
                ..self
            },
            _ => PhoneView { stage: StageView::Finished, ..self },
        }
    }

    /// The events for the awaited response.
    pub open spec fn told(self) -> Seq<KindView> {
        match self.stage {
            StageView::Putting(put) => self.report.told(put.acknowledged().offset as u64, false),
            _ => Seq::empty(),
        }
    }
}

/// Maps a broken exchange to a transport error.
pub fn push_error(error: &ObexError, transferred: u64) -> (r: TransportError)
    ensures
        r@ == breakdown(error@, transferred),
{
    match error {
        ObexError::Rejected { stage: _, code } => {
            let mut reason = "OBEX rejected (0x".to_owned();
            reason.append(text::byte_text(*code, true).as_str());
            reason.append(")");
            TransportError::TransferFailed { transferred, reason }
        },
        other => {
            let mut t = "obex: ".to_owned();
            t.append(other.to_string().as_str());
            TransportError::Backend(t)
        },
    }
}

impl<'a> PhonePush<'a> {
    /// A session that is yet to begin.
    pub fn new(name: &str, data: &'a [u8]) -> (r: PhonePush<'a>)
        ensures
            r@.ok(),
            r@ == (PhoneView {
                name: name@,
                data: data@,
                stage: StageView::Connecting,
                report: PushReport { total: data@.len() as u64, last: 0, chunks: 0 },
            }),
    {
        PhonePush {
            name: name.to_owned(),
            data,
            stage: Stage::Connecting,
            report: PushReport::new(data.len() as u64),
        }
    }

    /// The packet to send next; none once the session is over.
    pub fn next_request(&self) -> (r: Option<Vec<u8>>)
        requires
            self@.ok(),
        ensures
            match r {
                Some(bytes) => self@.request() == Some(bytes@),
                None => self@.request() is None,
            },
    {
        match &self.stage {
            Stage::Connecting => Some(ObexOppClient::connect_packet()),
            Stage::Putting(_, put) => Some(put.next_packet()),
            Stage::Leaving(_) => Some(ObexOppClient::disconnect_packet()),
            Stage::Finished => None,
        }
    }

    /// How often the running total has grown.
    pub fn chunks(&self) -> (r: u64)
        ensures
            r == self@.report.chunks,
    {
        self.report.chunks
    }

    /// The error for a link that broke down.
    pub fn lost(&self, error: &ObexError) -> (r: TransportError)
        ensures
            r@ == breakdown(error@, self@.report.last),
    {
        push_error(error, self.report.last)
    }

    /// Takes in the response to the last packet: the events to report, or why the
    /// session is over.
    pub fn on_response(self, resp: &Response) -> (r: (
        PhonePush<'a>,
        Result<Vec<TransitEventKind>, TransportError>,
    ))
        requires
            self@.ok(),
            !(self@.stage is Finished),
        ensures
            r.0@.ok(),
            match r.1 {
                Ok(kinds) => {
                    &&& resp.code == self@.awaited()
                    &&& r.0@ == self@.advanced(resp.body@)
                    &&& live::kinds_view(kinds@) == self@.told()
                },
                Err(e) => {
                    &&& resp.code != self@.awaited()
                    &&& r.0@ == (PhoneView { stage: StageView::Finished, ..self@ })
                    &&& e@ == breakdown(
                        obex::refused(self@.step_name(), resp.code),
                        self@.report.last,
                    )
                },
            },
    {
        let ghost before = self@;
        let PhonePush { name, data, stage, report } = self;
        let mut report: PushReport = report;
        match stage {
            Stage::Connecting => match ObexOppClient::connect(resp) {
                Ok(client) => {
                    let put = client.put_file(name.as_str(), data);
                    let r = PhonePush { name, data, stage: Stage::Putting(client, put), report };
                    let none: Vec<TransitEventKind> = Vec::new();
                    assert(live::kinds_view(none@) =~= Seq::empty());
                    assert(put@ == begun(before.name, before.data, obex::announced(resp.body@)));
                    (r, Ok(none))
                },
                Err(e) => {
                    let error = push_error(&e, report.last);
                    (PhonePush { name, data, stage: Stage::Finished, report }, Err(error))
                },
            },
            Stage::Putting(client, put) => {
                let mut put = put;
                let ghost p = put@;
                match put.on_response(resp) {
                    Ok(sent) => {
                        proof {
                            obex::progress_reaches_the_end(p);
                        }
                        let kinds = report.on_transferred(sent, false);
                        let stage = if put.is_done() {
                            Stage::Leaving(client)
                        } else {
                            Stage::Putting(client, put)
                        };
                        (PhonePush { name, data, stage, report }, Ok(kinds))
                    },
                    Err(e) => {
                        let error = push_error(&e, report.last);
                        (PhonePush { name, data, stage: Stage::Finished, report }, Err(error))
                    },
                }
            },
            Stage::Leaving(client) => match client.disconnect(resp) {
                Ok(_) => {
                    let none: Vec<TransitEventKind> = Vec::new();
                    assert(live::kinds_view(none@) =~= Seq::empty());
                    (PhonePush { name, data, stage: Stage::Finished, report }, Ok(none))
                },
                Err(e) => {
                    let error = push_error(&e, report.last);
                    (PhonePush { name, data, stage: Stage::Finished, report }, Err(error))
                },
            },
            Stage::Finished => {
                (PhonePush { name, data, stage: Stage::Finished, report }, Ok(Vec::new()))
            },
        }
    }
}

/// Where a session gets to when the peer acknowledges every packet of the object still
/// to come, and the events on the way.
pub open spec fn accepted(v: PhoneView) -> (PhoneView, Seq<KindView>)
    decreases
            match v.stage {
                StageView::Putting(put) => 1 + obex::packets_left(put),
                _ => 0,
            },
{
    match v.stage {
        StageView::Putting(put) => if !v.ok() {
            (v, Seq::empty())
        } else {
            proof {
                obex::progress_reaches_the_end(put);
            }
            let rest = accepted(v.advanced(Seq::empty()));
            (rest.0, v.told() + rest.1)
        },
        _ => (v, Seq::empty()),
    }
}

/// A peer that acknowledges every packet gets the whole object: the session ends at its
/// last byte, and the blocks reported add up to what was still to come.
pub proof fn accepted_push_moves_the_object(v: PhoneView)
    requires
        v.ok(),
        v.stage is Putting,
    ensures
        accepted(v).0.ok(),
        accepted(v).0.stage == StageView::Leaving,
        accepted(v).0.report.last == v.data.len(),
        live::payload_sum(accepted(v).1) == v.data.len() - v.report.last,
    decreases obex::packets_left(v.stage->Putting_0),
{
    let put = v.stage->Putting_0;
    obex::progress_reaches_the_end(put);
    let next = v.advanced(Seq::empty());
    live::payload_told(v.report, put.acknowledged().offset as u64, false);
    if put.last() {
        assert(accepted(next) == (next, Seq::<KindView>::empty()));
        assert(v.told() + Seq::<KindView>::empty() =~= v.told());
    } else {
        accepted_push_moves_the_object(next);
    }
    live::payload_of_both(v.told(), accepted(next).1);
    assert(live::payload_sum(Seq::<KindView>::empty()) == 0);
}

/// What a session sends and what it waits for, stage by stage: it opens with CONNECT and
/// closes with DISCONNECT, both answered by Success; a packet of the object is answered by
/// Continue, but for the last one, by Success. Once it is over there is nothing to send.
pub proof fn session_goes_by_stages(v: PhoneView)
    ensures
        match v.stage {
            StageView::Connecting => v.request() == Some(
                seq![0x80u8, 0u8, 7u8, 0x10u8, 0u8, 0x20u8, 0u8],
            ) && v.awaited() == 0xA0,
            StageView::Putting(put) => v.request() == Some(put.next_packet()) && v.awaited()
                == if put.offset + put.take() >= put.data.len() {
                0xA0u8
            } else {
                0x90u8
            },
            StageView::Leaving => v.request() == Some(seq![0x81u8, 0u8, 3u8]) && v.awaited()
                == 0xA0,
            StageView::Finished => v.request() is None,
        },
{
    match v.stage {
        StageView::Connecting => {
            assert(v.request()->0 =~= seq![0x80u8, 0u8, 7u8, 0x10u8, 0u8, 0x20u8, 0u8]);
        },
        StageView::Leaving => {
            assert(v.request()->0 =~= seq![0x81u8, 0u8, 3u8]);
        },
        _ => {},
    }
}

/// A session moves from connecting to the object from its first byte, packet by packet to
/// leaving with its last byte acknowledged, and from there to its end; only acknowledged
/// packets are told.
pub proof fn session_moves_on(v: PhoneView, body: Seq<u8>)
    requires
        v.ok(),
    ensures
        ({
            let next = v.advanced(body);
            &&& next.name == v.name && next.data == v.data
            &&& v.stage is Connecting ==> (next.stage matches StageView::Putting(put) && put.data
                == v.data && put.offset == 0 && put.first && !put.done) && v.told().len() == 0
            &&& (v.stage matches StageView::Putting(put) ==> next.report.last == put.offset
                + put.take() && (next.stage is Leaving <==> put.offset + put.take()
                == put.data.len()) && (next.stage is Leaving || next.stage is Putting))
            &&& v.stage is Leaving ==> next.stage is Finished && v.told().len() == 0
        }),
{
}

/// A refusal by the peer is a transfer that failed after what was acknowledged; a broken link
/// or a broken answer is an error of the backend.
pub proof fn breakdown_by_cause(error: ObexErrorView, transferred: u64)
    ensures
        error is Rejected <==> breakdown(error, transferred) is TransferFailed,
        error is Rejected ==> (breakdown(error, transferred)
            matches TransportErrorView::TransferFailed { transferred: n, .. } && n == transferred),
        !(error is Rejected) ==> breakdown(error, transferred) is Backend,
{
}

} // verus!
