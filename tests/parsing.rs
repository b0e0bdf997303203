use sip_gateway::headers::HeaderSet;
use sip_gateway::parser::parse_complex_headers;

fn invite() -> Vec<u8> {
    concat_lines(&[
        "INVITE sip:bob@example.com SIP/2.0",
        "Via: SIP/2.0/UDP a.example.com;branch=z9hG4bK1",
        "v:   SIP/2.0/UDP b.example.com  ",
        "VIA: SIP/2.0/UDP c.example.com",
        "Record-Route: <sip:p1.example.com;lr>",
        "record-route: <sip:p2.example.com;lr>",
        "From: <sip:alice@example.com>;tag=1928",
        "To: <sip:bob@example.com>",
        "Call-ID: a84b4c76e66710",
        "CSeq: 314159 INVITE",
        "Content-Length: 4",
        "",
        "body",
    ])
}

fn concat_lines(lines: &[&str]) -> Vec<u8> {
    lines.join("\r\n").into_bytes()
}

#[test]
fn parses_method_headers_and_ordered_paths() {
    let req = parse_complex_headers(&invite()).expect("routable request");
    assert_eq!(req.method, b"INVITE".to_vec());
    assert_eq!(
        req.via,
        vec![
            b"SIP/2.0/UDP a.example.com;branch=z9hG4bK1".to_vec(),
            b"SIP/2.0/UDP b.example.com".to_vec(),
            b"SIP/2.0/UDP c.example.com".to_vec(),
        ]
    );
    assert_eq!(
        req.record_route,
        vec![b"<sip:p1.example.com;lr>".to_vec(), b"<sip:p2.example.com;lr>".to_vec()]
    );
    assert_eq!(req.headers.get(b"From"), Some(b"<sip:alice@example.com>;tag=1928".to_vec()));
    assert_eq!(req.headers.get(b"call-id"), Some(b"a84b4c76e66710".to_vec()));
    assert_eq!(req.headers.get(b"CSEQ"), Some(b"314159 INVITE".to_vec()));
    assert_eq!(req.headers.get(b"Via"), None);
    assert_eq!(req.body, b"body".to_vec());
}

#[test]
fn missing_routing_path_is_not_routable() {
    let msg = concat_lines(&[
        "INVITE sip:bob@example.com SIP/2.0",
        "From: <sip:alice@example.com>",
        "To: <sip:bob@example.com>",
        "",
        "",
    ]);
    assert!(parse_complex_headers(&msg).is_none());
}

#[test]
fn routing_path_after_blank_line_is_body() {
    let msg = concat_lines(&["INVITE sip:b SIP/2.0", "From: a", "", "Via: SIP/2.0/UDP x"]);
    assert!(parse_complex_headers(&msg).is_none());
}

#[test]
fn empty_and_headless_input_is_not_routable() {
    assert!(parse_complex_headers(b"").is_none());
    assert!(parse_complex_headers(b"\r\nVia: SIP/2.0/UDP x\r\n").is_none());
    assert!(parse_complex_headers(b"INVITE sip:b SIP/2.0").is_none());
}

#[test]
fn later_singular_header_wins_case_insensitively() {
    let msg = concat_lines(&["INVITE sip:b SIP/2.0", "Via: v1", "to: first", "TO:  second ", ""]);
    let req = parse_complex_headers(&msg).unwrap();
    assert_eq!(req.headers.get(b"To"), Some(b"second".to_vec()));
    assert_eq!(req.body, Vec::<u8>::new());
}

#[test]
fn bare_line_feeds_and_value_colons() {
    let msg = b"INVITE sip:b SIP/2.0\nVia: SIP/2.0/UDP h:5060\nContact: <sip:a@h:5070>\nno colon here\n";
    let req = parse_complex_headers(msg).unwrap();
    assert_eq!(req.via, vec![b"SIP/2.0/UDP h:5060".to_vec()]);
    assert_eq!(req.headers.get(b"contact"), Some(b"<sip:a@h:5070>".to_vec()));
    assert_eq!(req.headers.get(b"no colon here"), None);
}

#[test]
fn header_set_insert_and_get() {
    let mut h = HeaderSet::new();
    assert_eq!(h.get(b"From"), None);
    assert_eq!(h.get_or_empty(b"From"), Vec::<u8>::new());
    h.insert(b"FROM", b"a".to_vec());
    h.insert(b"from", b"b".to_vec());
    assert_eq!(h.get(b"From"), Some(b"b".to_vec()));
}

#[test]
fn empty_routing_path_value_still_counts() {
    let req = parse_complex_headers(b"INVITE sip:b SIP/2.0\r\nVia:\r\n\r\n").unwrap();
    assert_eq!(req.via, vec![Vec::<u8>::new()]);
}

#[test]
fn unicode_whitespace_is_trimmed_from_names_and_values() {
    let msg = "INVITE sip:b SIP/2.0\r\n\u{a0}v:\u{3000}SIP/2.0/UDP h\u{2003}\r\n\u{85}Record-Route\u{202f}: <sip:p>\u{205f}\r\nFrom:\u{a0}<sip:a@x>\u{a0}\r\nTo: \u{1680}t\u{2028}\u{2029} \r\n\r\n";
    let req = parse_complex_headers(msg.as_bytes()).expect("routable request");
    assert_eq!(req.via, vec![b"SIP/2.0/UDP h".to_vec()]);
    assert_eq!(req.record_route, vec![b"<sip:p>".to_vec()]);
    assert_eq!(req.headers.get(b"From"), Some(b"<sip:a@x>".to_vec()));
    assert_eq!(req.headers.get(b"to"), Some(b"t".to_vec()));
}

#[test]
fn non_whitespace_multibyte_characters_are_kept() {
    let msg = "INVITE sip:b SIP/2.0\r\nVia: x\r\nFrom: \u{e9}a\u{200b}\r\n\r\n";
    let req = parse_complex_headers(msg.as_bytes()).unwrap();
    assert_eq!(req.headers.get(b"From"), Some("\u{e9}a\u{200b}".as_bytes().to_vec()));
}

#[test]
fn nbsp_before_short_routing_name_is_routable() {
    let msg = "I\r\n\u{a0}v:a".as_bytes().to_vec();
    let req = parse_complex_headers(&msg).unwrap();
    assert_eq!(req.via, vec![b"a".to_vec()]);
}
