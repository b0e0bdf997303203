use sip_gateway::call::{Call, CallAction, CallConfig, CallEvent, CallPhase};
use sip_gateway::response::LocalContact;

fn config() -> CallConfig {
    CallConfig {
        public_ip: b"203.0.113.7".to_vec(),
        contact: LocalContact { user: b"902124548590".to_vec(), host: b"203.0.113.7".to_vec() },
        ring_delay_ms: 100,
    }
}

fn invite(call_id: &str) -> Vec<u8> {
    format!(
        "INVITE sip:bob@example.com SIP/2.0\r\n\
Via: SIP/2.0/UDP 198.51.100.1:5060;branch=z9hG4bK-{call_id}\r\n\
Via: SIP/2.0/UDP 198.51.100.2:5060\r\n\
From: <sip:alice@example.com>;tag=77\r\n\
To: <sip:bob@example.com>\r\n\
Call-ID: {call_id}\r\n\
CSeq: 1 INVITE\r\n\
\r\n"
    )
    .into_bytes()
}

fn sent(a: &CallAction) -> String {
    match a {
        CallAction::Send(b) => String::from_utf8(b.clone()).unwrap(),
        _ => panic!("expected a response"),
    }
}

fn body_of(resp: &str) -> &str {
    resp.split_once("\r\n\r\n").unwrap().1
}

fn to_line(resp: &str) -> &str {
    resp.lines().find(|l| l.starts_with("To: ")).unwrap()
}

#[test]
fn invite_gets_trying_then_route_request() {
    let (call, actions) = Call::receive(&invite("c1"), &config());
    assert_eq!(call.phase(), CallPhase::Routing);
    assert_eq!(actions.len(), 2);
    let trying = sent(&actions[0]);
    assert!(trying.starts_with("SIP/2.0 100 Trying\r\nVia: SIP/2.0/UDP 198.51.100.1:5060;branch=z9hG4bK-c1\r\nVia: SIP/2.0/UDP 198.51.100.2:5060\r\n"));
    assert!(trying.contains("\r\nFrom: <sip:alice@example.com>;tag=77\r\nTo: <sip:bob@example.com>\r\nCall-ID: c1\r\nCSeq: 1 INVITE\r\n"));
    assert!(trying.ends_with("Content-Length: 0\r\n\r\n"));
    match &actions[1] {
        CallAction::RequestRoute { from, to } => {
            assert_eq!(from, &b"<sip:alice@example.com>;tag=77".to_vec());
            assert_eq!(to, &b"<sip:bob@example.com>".to_vec());
        }
        _ => panic!("expected a route request"),
    }
}

#[test]
fn non_invite_is_dropped() {
    let msg = b"OPTIONS sip:bob@example.com SIP/2.0\r\nVia: SIP/2.0/UDP h\r\n\r\n";
    let (call, actions) = Call::receive(msg, &config());
    assert_eq!(call.phase(), CallPhase::Dropped);
    assert!(actions.is_empty());
    let msg = b"INVITEX sip:bob@example.com SIP/2.0\r\nVia: SIP/2.0/UDP h\r\n\r\n";
    assert!(Call::receive(msg, &config()).1.is_empty());
}

#[test]
fn missing_routing_path_gets_no_response() {
    let msg = b"INVITE sip:bob@example.com SIP/2.0\r\nFrom: a\r\nTo: b\r\n\r\n";
    let (mut call, actions) = Call::receive(msg, &config());
    assert_eq!(call.phase(), CallPhase::Dropped);
    assert!(actions.is_empty());
    assert!(call.step_with_tag(CallEvent::RouteUnreachable, &config(), 1).is_empty());
    assert!(call.step_with_tag(CallEvent::RingElapsed, &config(), 1).is_empty());
}

#[test]
fn invalid_utf8_is_dropped() {
    let mut msg = invite("c2");
    msg.push(0xff);
    let (call, actions) = Call::receive(&msg, &config());
    assert_eq!(call.phase(), CallPhase::Dropped);
    assert!(actions.is_empty());
}

#[test]
fn unreachable_service_gets_service_unavailable() {
    let (mut call, first) = Call::receive(&invite("c3"), &config());
    assert!(sent(&first[0]).starts_with("SIP/2.0 100 Trying\r\n"));
    let actions = call.step_with_tag(CallEvent::RouteUnreachable, &config(), 5);
    assert_eq!(call.phase(), CallPhase::Rejected);
    assert_eq!(actions.len(), 1);
    let r = sent(&actions[0]);
    assert!(r.starts_with("SIP/2.0 503 Service Unavailable\r\n"));
    assert_eq!(body_of(&r), "");
    assert!(r.contains("Content-Length: 0\r\n"));
    assert!(!r.contains(";tag=5"));
    assert!(call.step_with_tag(CallEvent::RingElapsed, &config(), 5).is_empty());
}

#[test]
fn declined_decision_gets_rejection() {
    let (mut call, _) = Call::receive(&invite("c4"), &config());
    let actions = call.step_with_tag(CallEvent::RouteDecided { status: 3, rtp_port: 9000 }, &config(), 5);
    assert_eq!(call.phase(), CallPhase::Rejected);
    assert_eq!(actions.len(), 1);
    assert!(sent(&actions[0]).starts_with("SIP/2.0 603 Decline\r\n"));
}

#[test]
fn malformed_port_gets_rejection() {
    for port in [0i64, -1, 65536, 70000] {
        let (mut call, _) = Call::receive(&invite("c5"), &config());
        let actions = call.step_with_tag(CallEvent::RouteDecided { status: 0, rtp_port: port }, &config(), 5);
        assert_eq!(call.phase(), CallPhase::Rejected);
        assert_eq!(actions.len(), 1);
        assert!(sent(&actions[0]).starts_with("SIP/2.0 500 Server Internal Error\r\n"));
    }
}

#[test]
fn accepted_call_rings_then_answers_on_port_9000() {
    let cfg = config();
    let (mut call, _) = Call::receive(&invite("c6"), &cfg);
    let actions = call.step_with_tag(CallEvent::RouteDecided { status: 0, rtp_port: 9000 }, &cfg, 4242);
    assert_eq!(call.phase(), CallPhase::Ringing);
    assert_eq!(actions.len(), 2);
    let ringing = sent(&actions[0]);
    assert!(ringing.starts_with("SIP/2.0 180 Ringing\r\n"));
    assert_eq!(to_line(&ringing), "To: <sip:bob@example.com>;tag=4242");
    assert_eq!(body_of(&ringing), "");
    match actions[1] {
        CallAction::Wait(ms) => assert_eq!(ms, 100),
        _ => panic!("expected a wait"),
    }
    let actions = call.step_with_tag(CallEvent::RingElapsed, &cfg, 1);
    assert_eq!(call.phase(), CallPhase::Answered);
    assert_eq!(actions.len(), 1);
    let ok = sent(&actions[0]);
    assert!(ok.starts_with("SIP/2.0 200 OK\r\n"));
    assert_eq!(to_line(&ok), "To: <sip:bob@example.com>;tag=4242");
    let sdp = "v=0\r\no=- 0 0 IN IP4 203.0.113.7\r\ns=Centiric\r\nc=IN IP4 203.0.113.7\r\nt=0 0\r\nm=audio 9000 RTP/AVP 0\r\na=rtpmap:0 PCMU/8000\r\n";
    assert_eq!(body_of(&ok), sdp);
    assert!(ok.contains(&format!("Content-Length: {}\r\n", sdp.len())));
    assert!(call.step_with_tag(CallEvent::RingElapsed, &cfg, 1).is_empty());
}

#[test]
fn ring_elapsed_before_decision_does_nothing() {
    let (mut call, _) = Call::receive(&invite("c7"), &config());
    assert!(call.step_with_tag(CallEvent::RingElapsed, &config(), 1).is_empty());
    assert_eq!(call.phase(), CallPhase::Routing);
}

#[test]
fn random_tag_is_shared_by_ringing_and_answer() {
    let cfg = config();
    let (mut call, _) = Call::receive(&invite("c8"), &cfg);
    let ringing = sent(&call.step(CallEvent::RouteDecided { status: 0, rtp_port: 65535 }, &cfg)[0]);
    let ok = sent(&call.step(CallEvent::RingElapsed, &cfg)[0]);
    let tag = to_line(&ringing).strip_prefix("To: <sip:bob@example.com>;tag=").unwrap();
    assert!(!tag.is_empty() && tag.bytes().all(|b| b.is_ascii_digit()));
    assert_eq!(to_line(&ringing), to_line(&ok));
    assert!(body_of(&ok).contains("m=audio 65535 RTP/AVP 0\r\n"));
}

#[test]
fn two_calls_keep_their_own_sequences() {
    let cfg = config();
    let (mut a, a0) = Call::receive(&invite("call-a"), &cfg);
    let (mut b, b0) = Call::receive(&invite("call-b"), &cfg);
    let b1 = b.step_with_tag(CallEvent::RouteDecided { status: 0, rtp_port: 9002 }, &cfg, 2);
    let a1 = a.step_with_tag(CallEvent::RouteDecided { status: 0, rtp_port: 9001 }, &cfg, 1);
    let a2 = a.step_with_tag(CallEvent::RingElapsed, &cfg, 0);
    let b2 = b.step_with_tag(CallEvent::RingElapsed, &cfg, 0);
    let seq_a = [sent(&a0[0]), sent(&a1[0]), sent(&a2[0])];
    let seq_b = [sent(&b0[0]), sent(&b1[0]), sent(&b2[0])];
    for (i, status) in ["100 Trying", "180 Ringing", "200 OK"].iter().enumerate() {
        assert!(seq_a[i].starts_with(&format!("SIP/2.0 {status}\r\n")));
        assert!(seq_b[i].starts_with(&format!("SIP/2.0 {status}\r\n")));
        assert!(seq_a[i].contains("Call-ID: call-a\r\n") && !seq_a[i].contains("call-b"));
        assert!(seq_b[i].contains("Call-ID: call-b\r\n") && !seq_b[i].contains("call-a"));
    }
    assert!(body_of(&seq_a[2]).contains("m=audio 9001 "));
    assert!(body_of(&seq_b[2]).contains("m=audio 9002 "));
}
