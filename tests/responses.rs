use sip_gateway::parser::parse_complex_headers;
use sip_gateway::response::{create_response, LocalContact};

fn contact() -> LocalContact {
    LocalContact { user: b"902124548590".to_vec(), host: b"127.0.0.1".to_vec() }
}

const REQUEST: &str = "INVITE sip:bob@example.com SIP/2.0\r\n\
Via: SIP/2.0/UDP a;branch=1\r\n\
v: SIP/2.0/UDP b\r\n\
Record-Route: <sip:p1>\r\n\
From:  <sip:alice@x>;tag=9 \r\n\
To: <sip:bob@y>\r\n\
Call-ID: abc@x\r\n\
CSeq: 1 INVITE\r\n\
\r\n";

#[test]
fn trying_response_is_framed_exactly() {
    let req = parse_complex_headers(REQUEST.as_bytes()).unwrap();
    let r = create_response(b"100 Trying", &req, &contact(), None);
    let expected = "SIP/2.0 100 Trying\r\n\
Via: SIP/2.0/UDP a;branch=1\r\n\
Via: SIP/2.0/UDP b\r\n\
Record-Route: <sip:p1>\r\n\
From: <sip:alice@x>;tag=9\r\n\
To: <sip:bob@y>\r\n\
Call-ID: abc@x\r\n\
CSeq: 1 INVITE\r\n\
Contact: <sip:902124548590@127.0.0.1>\r\n\
Content-Type: application/sdp\r\n\
Content-Length: 0\r\n\
\r\n";
    assert_eq!(String::from_utf8(r).unwrap(), expected);
}

#[test]
fn body_length_header_counts_body_bytes() {
    let req = parse_complex_headers(REQUEST.as_bytes()).unwrap();
    let body = "v=0\r\nś\r\n";
    let r = String::from_utf8(create_response(b"200 OK", &req, &contact(), Some(body.as_bytes()))).unwrap();
    assert!(r.ends_with("Content-Length: 9\r\n\r\nv=0\r\nś\r\n"));
    let long = vec![b'x'; 1234];
    let r = String::from_utf8(create_response(b"200 OK", &req, &contact(), Some(&long))).unwrap();
    assert!(r.contains("\r\nContent-Length: 1234\r\n\r\nxxx"));
}

#[test]
fn no_record_route_line_without_one_in_request() {
    let req = parse_complex_headers(b"INVITE s SIP/2.0\r\nVia: x\r\n\r\n").unwrap();
    let r = String::from_utf8(create_response(b"503 Service Unavailable", &req, &contact(), None)).unwrap();
    assert!(!r.contains("Record-Route"));
    assert!(r.starts_with("SIP/2.0 503 Service Unavailable\r\nVia: x\r\nFrom: \r\nTo: \r\n"));
}

#[test]
fn round_trip_keeps_identity_headers() {
    let req = parse_complex_headers(REQUEST.as_bytes()).unwrap();
    let r = String::from_utf8(create_response(b"180 Ringing", &req, &contact(), None)).unwrap();
    for line in ["From: <sip:alice@x>;tag=9\r\n", "To: <sip:bob@y>\r\n", "Call-ID: abc@x\r\n", "CSeq: 1 INVITE\r\n"] {
        assert!(r.contains(line), "{line}");
    }
}

#[test]
fn media_description_names_address_and_port() {
    let body = sip_gateway::call::sdp(b"10.0.0.1", 0);
    assert_eq!(
        String::from_utf8(body).unwrap(),
        "v=0\r\no=- 0 0 IN IP4 10.0.0.1\r\ns=Centiric\r\nc=IN IP4 10.0.0.1\r\nt=0 0\r\nm=audio 0 RTP/AVP 0\r\na=rtpmap:0 PCMU/8000\r\n"
    );
    let body = String::from_utf8(sip_gateway::call::sdp(b"10.0.0.1", 40960)).unwrap();
    assert!(body.contains("\r\nm=audio 40960 RTP/AVP 0\r\n"));
}

#[test]
fn round_trip_trims_unicode_padding() {
    let req = parse_complex_headers(
        "INVITE s SIP/2.0\r\nVia: x\r\nFrom:\u{a0}<sip:a@x>\u{a0}\r\nCall-ID:\u{3000}id-1\u{2009}\r\n\r\n".as_bytes(),
    )
    .unwrap();
    let r = String::from_utf8(create_response(b"100 Trying", &req, &contact(), None)).unwrap();
    assert!(r.contains("\r\nFrom: <sip:a@x>\r\n"));
    assert!(r.contains("\r\nCall-ID: id-1\r\n"));
}
