use pax::live::PushReport;
use pax::obex::{
    name_to_utf16, read_response, ObexError, ObexOppClient, Reading, Response, OBEX_VERSION,
    RESP_CONTINUE, RESP_SUCCESS,
};
use pax::obexd::{PushState, PushWatch};
use pax::phone_push::PhonePush;
use pax::{Duration, TransitEventKind, TransportError};

/// A fake server: answers with a fixed run of bytes and keeps what it was sent.
struct Fake {
    responses: Vec<u8>,
    sent: Vec<Vec<u8>>,
}

impl Fake {
    fn new(parts: Vec<Vec<u8>>) -> Fake {
        Fake {
            responses: parts.concat(),
            sent: Vec::new(),
        }
    }

    fn exchange(&mut self, packet: Vec<u8>) -> Option<Response> {
        self.sent.push(packet);
        match read_response(&self.responses) {
            Reading::Complete(resp, used) => {
                self.responses.drain(..used);
                Some(resp)
            }
            _ => None,
        }
    }
}

fn connect_resp() -> Vec<u8> {
    vec![RESP_SUCCESS, 0x00, 0x07, OBEX_VERSION, 0x00, 0x04, 0x00]
}

fn ok() -> Vec<u8> {
    vec![RESP_SUCCESS, 0x00, 0x03]
}

fn cont() -> Vec<u8> {
    vec![RESP_CONTINUE, 0x00, 0x03]
}

#[test]
fn small_object_is_a_single_final_put() {
    let mut fake = Fake::new(vec![connect_resp(), ok(), ok()]);
    let resp = fake.exchange(ObexOppClient::connect_packet()).unwrap();
    let client = ObexOppClient::connect(&resp).expect("connect");
    let mut progress = Vec::new();
    let mut put = client.put_file("note.txt", b"hello");
    while !put.is_done() {
        let resp = fake.exchange(put.next_packet()).unwrap();
        progress.push(put.on_response(&resp).expect("put"));
    }
    let resp = fake.exchange(ObexOppClient::disconnect_packet()).unwrap();
    client.disconnect(&resp).expect("disconnect");

    assert_eq!(progress, vec![5]);
    assert_eq!(fake.sent.len(), 3);
    assert_eq!(fake.sent[1][0], 0x82);
    assert!(fake.sent[1].ends_with(b"hello"));
}

#[test]
fn large_object_is_chunked_with_continue() {
    let mut parts = vec![connect_resp()];
    for _ in 0..32 {
        parts.push(cont());
    }
    let mut fake = Fake::new(parts);
    let resp = fake.exchange(ObexOppClient::connect_packet()).unwrap();
    let client = ObexOppClient::connect(&resp).expect("connect");
    let data = vec![0xABu8; 4096];
    let mut ticks = 0u32;
    let mut put = client.put_file("big.bin", &data);
    while !put.is_done() {
        let resp = fake.exchange(put.next_packet()).unwrap();
        match put.on_response(&resp) {
            Ok(_) => ticks += 1,
            Err(_) => break,
        }
    }
    assert!(ticks >= 2, "expected multiple body chunks, got {ticks}");
    assert!(fake.sent.iter().all(|p| p.len() <= 1024));
}

#[test]
fn rejection_surfaces() {
    let mut fake = Fake::new(vec![vec![0xC0, 0x00, 0x03], ok()]);
    let resp = fake.exchange(ObexOppClient::connect_packet()).unwrap();
    match ObexOppClient::connect(&resp) {
        Err(ObexError::Rejected { stage, code }) => {
            assert_eq!(stage, "connect");
            assert_eq!(code, 0xC0);
        }
        Err(other) => panic!("unexpected error: {}", other.to_string()),
        Ok(_) => panic!("expected rejection"),
    }
}

#[test]
fn utf16_name_is_nul_terminated_big_endian() {
    let p = name_to_utf16("AB");
    assert_eq!(p, vec![0x00, 0x41, 0x00, 0x42, 0x00, 0x00]);
}

#[test]
fn characters_beyond_the_plane_take_two_units() {
    assert_eq!(name_to_utf16("\u{1F600}"), vec![0xD8, 0x3D, 0xDE, 0x00, 0x00, 0x00]);
}

#[test]
fn packets_carry_the_object_whole() {
    let client = ObexOppClient {
        peer_max_packet: 255,
    };
    let data: Vec<u8> = (0..1000u32).map(|i| i as u8).collect();
    let mut put = client.put_file("n", &data);
    let mut got = Vec::new();
    while !put.is_done() {
        let packet = put.next_packet();
        assert_eq!(packet.len(), 256 * packet[1] as usize + packet[2] as usize);
        // Name and length stand in front of the body in the first packet only.
        let at = if got.is_empty() { 3 + 3 + 4 + 5 } else { 3 };
        assert!(packet[at] == 0x48 || packet[at] == 0x49);
        got.extend_from_slice(&packet[at + 3..]);
        let code = if packet[0] == 0x82 { RESP_SUCCESS } else { RESP_CONTINUE };
        put.on_response(&Response {
            code,
            body: Vec::new(),
        })
        .unwrap();
    }
    assert_eq!(got, data);
}

#[test]
fn short_response_is_malformed() {
    assert!(matches!(read_response(&[0xA0, 0x00, 0x02]), Reading::Bad(_)));
    assert!(matches!(read_response(&[0xA0]), Reading::Incomplete));
}

#[test]
fn exchange_errors_explain_themselves() {
    assert_eq!(ObexError::Io("gone".into()).to_string(), "obex i/o: gone");
    assert_eq!(
        ObexError::Rejected {
            stage: "put",
            code: 0xC3
        }
        .to_string(),
        "obex put rejected with code 0xC3"
    );
    assert_eq!(ObexError::Malformed("x").to_string(), "malformed obex response: x");
}

// A whole session.

#[test]
fn session_moves_the_object_and_reports_it() {
    let data = vec![7u8; 3000];
    let mut push = PhonePush::new("o.bin", &data);
    let mut moved = 0u64;
    let mut blocks = 0u64;
    let mut first = true;
    while let Some(packet) = push.next_request() {
        let resp = Response {
            code: if packet[0] == 0x02 { RESP_CONTINUE } else { RESP_SUCCESS },
            body: if first { vec![0x10, 0, 4, 0] } else { Vec::new() },
        };
        first = false;
        let (next, kinds) = push.on_response(&resp);
        push = next;
        for kind in kinds.unwrap() {
            match kind {
                TransitEventKind::DataChunk { bytes, .. } => {
                    moved += bytes;
                    blocks += 1;
                }
                TransitEventKind::TransferProgress { transferred, total } => {
                    assert_eq!(transferred, moved);
                    assert_eq!(total, 3000);
                }
                other => panic!("unexpected: {other:?}"),
            }
        }
    }
    assert_eq!(moved, 3000);
    assert_eq!(push.chunks(), blocks);
    assert!(blocks >= 3);
}

#[test]
fn refused_session_tells_how_far_it_came() {
    let data = vec![7u8; 3000];
    let push = PhonePush::new("o.bin", &data);
    let (push, _) = push.on_response(&Response {
        code: RESP_SUCCESS,
        body: vec![0x10, 0, 4, 0],
    });
    let (push, kinds) = push.on_response(&Response {
        code: RESP_CONTINUE,
        body: Vec::new(),
    });
    let sent = match &kinds.unwrap()[0] {
        TransitEventKind::DataChunk { bytes, .. } => *bytes,
        other => panic!("unexpected: {other:?}"),
    };
    let broken = push.lost(&ObexError::Io("gone".into()));
    assert_eq!(broken.to_string(), "backend error: obex: obex i/o: gone");
    let (push, refused) = push.on_response(&Response {
        code: 0xC3,
        body: Vec::new(),
    });
    match refused {
        Err(TransportError::TransferFailed {
            transferred,
            reason,
        }) => {
            assert_eq!(transferred, sent);
            assert_eq!(reason, "OBEX rejected (0xC3)");
        }
        other => panic!("unexpected: {other:?}"),
    }
    assert!(push.next_request().is_none());
}

// Reports of a running total.

#[test]
fn running_totals_become_blocks() {
    let mut report = PushReport::new(10);
    let first = report.on_transferred(4, true);
    assert_eq!(first.len(), 2);
    assert_eq!(first[0].payload_bytes(), 4);
    let same = report.on_transferred(4, true);
    assert_eq!(same.len(), 1);
    assert!(report.on_transferred(4, false).is_empty());
    let last = report.on_transferred(10, false);
    assert_eq!(last[0].payload_bytes(), 6);
    assert_eq!(report.chunks, 2);
}

// Watching a push.

#[test]
fn watched_push_completes_with_the_whole() {
    let mut watch = PushWatch::new(Some(100));
    let (told, state) = watch.on_change(Some(60), None);
    assert_eq!(told, vec![60]);
    assert!(matches!(state, PushState::Going));
    let (told, state) = watch.on_change(None, Some("complete"));
    assert_eq!(told, vec![100]);
    assert!(matches!(state, PushState::Complete(100)));
}

#[test]
fn watched_push_fails_or_times_out() {
    let mut watch = PushWatch::new(None);
    watch.on_change(Some(5), Some("active"));
    match watch.on_poll(Some("error"), Duration::zero()) {
        PushState::Failed(TransportError::TransferFailed { transferred, reason }) => {
            assert_eq!(transferred, 5);
            assert_eq!(reason, "obexd reported transfer error");
        }
        other => panic!("unexpected: {other:?}"),
    }
    assert!(matches!(watch.on_poll(None, Duration::from_secs(299)), PushState::Going));
    match watch.on_poll(None, Duration::from_secs(300)) {
        PushState::Failed(e) => assert_eq!(e.to_string(), "timed out: obex push exceeded 300s"),
        other => panic!("unexpected: {other:?}"),
    }
    assert!(matches!(
        watch.on_poll(Some("complete"), Duration::from_secs(400)),
        PushState::Complete(5)
    ));
}
